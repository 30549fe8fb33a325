//! The package manifest of the crate that holds the low-level declarations.

use crate::config::toml_helper::{
    array_value, parsed_table, printed_table, string_value, table_contains_key, table_from_str,
    table_get, table_get_mut, table_insert, table_new, table_of, table_remove, table_to_string,
    table_value, toml_of, tomls_of, value_as_str, value_as_table, value_as_table_mut, Toml,
};
use crate::config::config::texts_by_version;
use crate::config::config::Config;
use crate::config::external_libraries::{ExternalLibrary, ExternalLibraryView};
use crate::text::{
    begins_with, decimal, extend_with, is_blank, lemma_decimal_begins_with_digit, starts_with,
    str_eq, texts, trimmed,
};
use crate::version::Version;
use crate::version_map::VersionMap;
use vstd::prelude::*;
use vstd::string::*;

verus! {

/// The table that a table holds under a key; an empty one where it holds
/// nothing there.
pub open spec fn table_at(table: Map<Seq<char>, Toml>, key: Seq<char>) -> Map<Seq<char>, Toml> {
    if table.contains_key(key) && table[key] is Table {
        table[key]->Table_0
    } else {
        Map::empty()
    }
}

/// Whether a table holds a table under a key, or nothing.
pub open spec fn table_or_nothing_at(table: Map<Seq<char>, Toml>, key: Seq<char>) -> bool {
    table.contains_key(key) ==> table[key] is Table
}

/// Puts a string under a key of a table.
pub fn set_string(table: &mut toml::map::Map<String, toml::Value>, name: &str, new_value: &str)
    ensures
        table_of(final(table)) == table_of(old(table)).insert(name@, Toml::String(new_value@)),
{
    table_insert(table, name.to_owned(), string_value(new_value.to_owned()));
}

/// Takes out what a table holds under a key.
pub fn unset(table: &mut toml::map::Map<String, toml::Value>, name: &str)
    ensures
        table_of(final(table)) == table_of(old(table)).remove(name@),
{
    table_remove(table, name);
}

/// The table that a table holds under a key, to be changed in place; where
/// the table holds nothing there, an empty table is put there first.
pub fn upsert_table<'a>(parent: &'a mut toml::map::Map<String, toml::Value>, name: &str) -> (table:
    &'a mut toml::map::Map<String, toml::Value>)
    requires
        table_or_nothing_at(table_of(old(parent)), name@),
    ensures
        table_of(table) == table_at(table_of(old(parent)), name@),
        table_of(final(parent)) == table_of(old(parent)).insert(
            name@,
            Toml::Table(table_of(final(table))),
        ),
{
    if !table_contains_key(parent, name) {
        table_insert(parent, name.to_owned(), table_value(table_new()));
        assert(table_of(parent).insert(name@, Toml::Table(Map::empty())) =~= table_of(parent));
    }
    let ghost before = table_of(parent);
    assert(forall|t: Toml| before.insert(name@, t) =~= table_of(old(parent)).insert(name@, t));
    let value = table_get_mut(parent, name).unwrap();
    value_as_table_mut(value).unwrap()
}

/// The table that a table holds under a key, to be changed in place, as
/// [`upsert_table`] gives it; nothing, and no change, where the table holds
/// something else than a table there.
pub fn try_upsert_table<'a>(parent: &'a mut toml::map::Map<String, toml::Value>, name: &str) -> (table:
    Option<&'a mut toml::map::Map<String, toml::Value>>)
    ensures
        table is Some <==> table_or_nothing_at(table_of(old(parent)), name@),
        match table {
            Some(t) => table_of(t) == table_at(table_of(old(parent)), name@) && table_of(
                final(parent),
            ) == table_of(old(parent)).insert(name@, Toml::Table(table_of(final(t)))),
            None => table_of(final(parent)) == table_of(old(parent)),
        },
{
    let fits = match table_get(parent, name) {
        Some(value) => value_as_table(value).is_some(),
        None => true,
    };
    if fits {
        Some(upsert_table(parent, name))
    } else {
        None
    }
}

/// The features that the feature of a version depends on: the feature of
/// the version before it, and what the configuration adds for the version.
pub open spec fn feature_dependencies(
    version: Version,
    prev_version: Option<Version>,
    configured: Map<Version, Seq<Seq<char>>>,
) -> Seq<Seq<char>> {
    let first = match prev_version {
        Some(prev) => seq![prev.feature_name()],
        None => Seq::empty(),
    };
    let rest = if configured.contains_key(version) {
        configured[version]
    } else {
        Seq::empty()
    };
    first + rest
}

/// The features that the feature of a version depends on.
pub fn get_feature_dependencies(
    version: Version,
    prev_version: Option<Version>,
    feature_dependencies: &VersionMap<Vec<String>>,
) -> (features: Vec<String>)
    ensures
        texts(features@) == self::feature_dependencies(
            version,
            prev_version,
            texts_by_version(feature_dependencies@),
        ),
{
    let mut vec: Vec<String> = Vec::with_capacity(10);
    match prev_version {
        Some(v) => {
            vec.push(v.to_feature());
        },
        None => {},
    }
    let ghost first = texts(vec@);
    match feature_dependencies.get(&version) {
        Some(dependencies) => {
            extend_with(&mut vec, dependencies);
        },
        None => {
            assert(texts(vec@) =~= first + Seq::<Seq<char>>::empty());
        },
    }
    vec
}

/// How the crate under generation comes by its name.
#[derive(Clone, Debug)]
pub enum CrateName {
    /// The manifest names its library target: that is the name.
    Lib(String),
    /// The manifest names its package only: the crate's name is made of that
    /// of the package.
    Package(String),
    /// The manifest names neither: the crate is named after the library.
    Library,
}

/// A [`CrateName`] as a mathematical value.
pub enum CrateNameView {
    Lib(Seq<char>),
    Package(Seq<char>),
    Library,
}

impl View for CrateName {
    type V = CrateNameView;

    open spec fn view(&self) -> CrateNameView {
        match self {
            CrateName::Lib(name) => CrateNameView::Lib(name@),
            CrateName::Package(name) => CrateNameView::Package(name@),
            CrateName::Library => CrateNameView::Library,
        }
    }
}

/// The string that a table holds under `name` in the table that it holds
/// under a key, where both are there.
pub open spec fn name_in(root: Map<Seq<char>, Toml>, key: Seq<char>) -> Option<Seq<char>> {
    if root.contains_key(key) && root[key] is Table && root[key]->Table_0.contains_key("name"@)
        && root[key]->Table_0["name"@] is String {
        Some(root[key]->Table_0["name"@]->String_0)
    } else {
        None
    }
}

/// How a manifest names the crate under generation: by the name of its
/// library target before that of its package.
pub open spec fn crate_name_in(root: Map<Seq<char>, Toml>) -> CrateNameView {
    match name_in(root, "lib"@) {
        Some(name) => CrateNameView::Lib(name),
        None => match name_in(root, "package"@) {
            Some(name) => CrateNameView::Package(name),
            None => CrateNameView::Library,
        },
    }
}

fn read_name_in<'a>(root: &'a toml::map::Map<String, toml::Value>, key: &str) -> (name: Option<
    &'a str,
>)
    ensures
        match name {
            Some(n) => name_in(table_of(root), key@) == Some(n@),
            None => name_in(table_of(root), key@) is None,
        },
{
    match table_get(root, key) {
        Some(value) => match value_as_table(value) {
            Some(table) => match table_get(table, "name") {
                Some(name) => value_as_str(name),
                None => None,
            },
            None => None,
        },
        None => None,
    }
}

/// Finds how a manifest names the crate under generation.
pub fn get_crate_name(root: &toml::map::Map<String, toml::Value>) -> (name: CrateName)
    ensures
        name@ == crate_name_in(table_of(root)),
{
    match read_name_in(root, "lib") {
        Some(lib_name) => CrateName::Lib(lib_name.to_owned()),
        None => match read_name_in(root, "package") {
            Some(package_name) => CrateName::Package(package_name.to_owned()),
            None => CrateName::Library,
        },
    }
}

/// The array of strings of the given texts.
pub open spec fn string_array(strings: Seq<Seq<char>>) -> Toml {
    Toml::Array(strings.map_values(|text: Seq<char>| Toml::String(text)))
}

fn make_string_array(strings: &Vec<String>) -> (value: toml::Value)
    ensures
        toml_of(&value) == string_array(texts(strings@)),
{
    let mut items: Vec<toml::Value> = Vec::new();
    let mut i: usize = 0;
    while i < strings.len()
        invariant
            i <= strings@.len(),
            items@.len() == i,
            forall|j: int| 0 <= j < i ==> toml_of(&#[trigger] items@[j]) == Toml::String(strings@[j]@),
        decreases strings@.len() - i,
    {
        items.push(string_value(strings[i].clone()));
        i += 1;
    }
    assert(tomls_of(items@) =~= texts(strings@).map_values(|text: Seq<char>| Toml::String(text)));
    array_value(items)
}

/// The package that binds an external library.
pub open spec fn external_package(crate_name: Seq<char>) -> Seq<char> {
    if crate_name == "cairo"@ {
        crate_name + "-sys-rs"@
    } else if crate_name == "gdk_pixbuf"@ {
        "gdk-pixbuf-sys"@
    } else {
        crate_name + "-sys"@
    }
}

/// Where the package that binds an external library is kept.
pub open spec fn external_source(crate_name: Seq<char>) -> Seq<char> {
    if crate_name == "cairo"@ {
        "https://github.com/gtk-rs/cairo"@
    } else if begins_with(external_package(crate_name), "sourceview"@) {
        "https://github.com/gtk-rs/sourceview"@
    } else {
        "https://github.com/gtk-rs/sys"@
    }
}

/// The table of dependencies after the first `n` external libraries have
/// entered it: each has the table of its package there, and in it, under
/// `git`, where the package is kept.
pub open spec fn dependencies_after(
    deps: Map<Seq<char>, Toml>,
    libs: Seq<ExternalLibraryView>,
    n: int,
) -> Map<Seq<char>, Toml>
    decreases n,
{
    if n <= 0 {
        deps
    } else {
        let before = dependencies_after(deps, libs, n - 1);
        let package = external_package(libs[n - 1].crate_name);
        before.insert(
            package,
            Toml::Table(
                table_at(before, package).insert(
                    "git"@,
                    Toml::String(external_source(libs[n - 1].crate_name)),
                ),
            ),
        )
    }
}

/// A manifest after what a new crate needs has been put into it: the name,
/// the version, the linked library and the edition of the package, the name of
/// the library target, and a dependency for each external library.
pub open spec fn filled_empty(
    root: Map<Seq<char>, Toml>,
    crate_name: Seq<char>,
    package_name: Seq<char>,
    links: Seq<char>,
    libs: Seq<ExternalLibraryView>,
) -> Map<Seq<char>, Toml> {
    let package = table_at(root, "package"@).insert("name"@, Toml::String(package_name)).insert(
        "version"@,
        Toml::String("0.0.1"@),
    ).insert("links"@, Toml::String(links)).insert("edition"@, Toml::String("2018"@));
    let root1 = root.insert("package"@, Toml::Table(package));
    let lib = table_at(root1, "lib"@).insert("name"@, Toml::String(crate_name));
    let root2 = root1.insert("lib"@, Toml::Table(lib));
    root2.insert(
        "dependencies"@,
        Toml::Table(dependencies_after(table_at(root2, "dependencies"@), libs, libs.len() as int)),
    )
}

/// Whether a manifest can take what a new crate needs: what it holds under
/// `package`, `lib` and `dependencies`, and in the dependencies under the
/// packages of the external libraries, is a table wherever it holds anything.
pub open spec fn fits_fill_empty(root: Map<Seq<char>, Toml>, libs: Seq<ExternalLibraryView>)
    -> bool {
    &&& table_or_nothing_at(root, "package"@)
    &&& table_or_nothing_at(root, "lib"@)
    &&& table_or_nothing_at(root, "dependencies"@)
    &&& forall|i: int|
        0 <= i < libs.len() ==> table_or_nothing_at(
            table_at(root, "dependencies"@),
            external_package(#[trigger] libs[i].crate_name),
        )
}

/// The external libraries of a list, each as a mathematical value.
pub open spec fn library_views(libs: Seq<ExternalLibrary>) -> Seq<ExternalLibraryView> {
    libs.map_values(|l: ExternalLibrary| l@)
}

/// Puts into a manifest what a new crate needs.
pub fn fill_empty(
    root: &mut toml::map::Map<String, toml::Value>,
    crate_name: &str,
    package_name: &str,
    links: &str,
    external_libraries: &Vec<ExternalLibrary>,
)
    requires
        fits_fill_empty(table_of(old(root)), library_views(external_libraries@)),
    ensures
        table_of(final(root)) == filled_empty(
            table_of(old(root)),
            crate_name@,
            package_name@,
            links@,
            library_views(external_libraries@),
        ),
{
    let ghost libs = library_views(external_libraries@);
    let ghost root0 = table_of(root);
    proof {
        reveal_strlit("package");
        reveal_strlit("lib");
        reveal_strlit("dependencies");
        assert("package"@.len() == 7 && "lib"@.len() == 3 && "dependencies"@.len() == 12);
    }
    {
        let package = upsert_table(root, "package");
        set_string(package, "name", package_name);
        set_string(package, "version", "0.0.1");
        set_string(package, "links", links);
        set_string(package, "edition", "2018");
    }
    {
        let lib = upsert_table(root, "lib");
        set_string(lib, "name", crate_name);
    }
    let ghost root2 = table_of(root);
    assert(table_at(root2, "dependencies"@) == table_at(root0, "dependencies"@));
    let deps = upsert_table(root, "dependencies");
    let ghost deps0 = table_of(deps);
    let mut i: usize = 0;
    while i < external_libraries.len()
        invariant
            i <= external_libraries@.len(),
            libs == library_views(external_libraries@),
            table_of(deps) == dependencies_after(deps0, libs, i as int),
            forall|j: int|
                0 <= j < libs.len() ==> table_or_nothing_at(
                    table_of(deps),
                    external_package(#[trigger] libs[j].crate_name),
                ),
        decreases external_libraries@.len() - i,
    {
        let ext_lib = &external_libraries[i];
        assert(libs[i as int] == ext_lib@);
        let is_cairo = str_eq(ext_lib.crate_name.as_str(), "cairo");
        let ext_package = if is_cairo {
            let mut name = ext_lib.crate_name.clone();
            name.append("-sys-rs");
            name
        } else if str_eq(ext_lib.crate_name.as_str(), "gdk_pixbuf") {
            "gdk-pixbuf-sys".to_owned()
        } else {
            let mut name = ext_lib.crate_name.clone();
            name.append("-sys");
            name
        };
        let source = if is_cairo {
            "https://github.com/gtk-rs/cairo"
        } else if starts_with(ext_package.as_str(), "sourceview") {
            "https://github.com/gtk-rs/sourceview"
        } else {
            "https://github.com/gtk-rs/sys"
        };
        let ghost before = table_of(deps);
        assert(ext_package@ == external_package(libs[i as int].crate_name));
        assert(source@ == external_source(libs[i as int].crate_name));
        {
            let dep = upsert_table(deps, ext_package.as_str());
            set_string(dep, "git", source);
        }
        proof {
            assert forall|j: int| 0 <= j < libs.len() implies table_or_nothing_at(
                table_of(deps),
                external_package(#[trigger] libs[j].crate_name),
            ) by {
                assert(table_or_nothing_at(before, external_package(libs[j].crate_name)));
            }
        }
        i += 1;
    }
}

/// A table with a string under a key.
pub open spec fn with_string(table: Map<Seq<char>, Toml>, key: Seq<char>, text: Seq<char>) -> Map<
    Seq<char>,
    Toml,
> {
    table.insert(key, Toml::String(text))
}

/// A table with a table under a key.
pub open spec fn with_table(
    table: Map<Seq<char>, Toml>,
    key: Seq<char>,
    inner: Map<Seq<char>, Toml>,
) -> Map<Seq<char>, Toml> {
    table.insert(key, Toml::Table(inner))
}

/// A table with a value under a key, unless it held one there already.
pub open spec fn or_inserted(table: Map<Seq<char>, Toml>, key: Seq<char>, value: Toml) -> Map<
    Seq<char>,
    Toml,
> {
    if table.contains_key(key) {
        table
    } else {
        table.insert(key, value)
    }
}

/// The table of features after the features of the first `n` versions have
/// entered it: each depends on the feature of the version before it and on
/// what the configuration adds for it.
pub open spec fn features_after(
    features: Map<Seq<char>, Toml>,
    versions: Seq<(Version, Version)>,
    configured: Map<Version, Seq<Seq<char>>>,
    n: int,
) -> Map<Seq<char>, Toml>
    decreases n,
{
    if n <= 0 {
        features
    } else {
        let prev = if n >= 2 {
            Some(versions[n - 2].0)
        } else {
            None
        };
        features_after(features, versions, configured, n - 1).insert(
            versions[n - 1].0.feature_name(),
            string_array(feature_dependencies(versions[n - 1].0, prev, configured)),
        )
    }
}

/// The entry of the library among the system dependencies after the first
/// `n` versions have been seen to: each version later than the least one has
/// a table under the name of its feature, which says under `version` which
/// version of the library stands for it, unless it said so before.
pub open spec fn version_sections_after(
    meta: Map<Seq<char>, Toml>,
    versions: Seq<(Version, Version)>,
    min: Version,
    n: int,
) -> Map<Seq<char>, Toml>
    decreases n,
{
    if n <= 0 {
        meta
    } else {
        let before = version_sections_after(meta, versions, min, n - 1);
        let version = versions[n - 1].0;
        if version.rank() > min.rank() {
            with_table(
                before,
                version.feature_name(),
                or_inserted(
                    table_at(before, version.feature_name()),
                    "version"@,
                    Toml::String(versions[n - 1].1.text()),
                ),
            )
        } else {
            before
        }
    }
}

/// The entry of the library among the system dependencies: its name and
/// its least version, unless it named them before; no list of versions by
/// feature, which an earlier form of the entry had; and a table for each
/// version later than the least one.
pub open spec fn system_deps_entry(
    meta: Map<Seq<char>, Toml>,
    lib_name: Seq<char>,
    versions: Seq<(Version, Version)>,
    min: Version,
) -> Map<Seq<char>, Toml> {
    let named = or_inserted(
        or_inserted(meta, "name"@, Toml::String(lib_name)),
        "version"@,
        Toml::String(min.text()),
    ).remove("feature-versions"@);
    version_sections_after(named, versions, min, versions.len() as int)
}

/// A manifest after what every crate of low-level declarations needs has
/// been put into it: the build script, the dependencies, the features of the
/// versions, the entry of the library among the system dependencies, and the
/// features that the published documentation is built with.
pub open spec fn filled_in(
    root: Map<Seq<char>, Toml>,
    versions: Seq<(Version, Version)>,
    configured: Map<Version, Seq<Seq<char>>>,
    lib_name: Seq<char>,
    lib_table_name: Seq<char>,
    min: Version,
    docs_rs_features: Seq<Seq<char>>,
) -> Map<Seq<char>, Toml> {
    let root1 = with_table(
        root,
        "package"@,
        with_string(table_at(root, "package"@), "build"@, "build.rs"@),
    );
    let root2 = with_table(
        root1,
        "dependencies"@,
        with_string(table_at(root1, "dependencies"@), "libc"@, "0.2"@),
    );
    let root3 = with_table(
        root2,
        "build-dependencies"@,
        with_string(table_at(root2, "build-dependencies"@), "system-deps"@, "2.0"@),
    );
    let root4 = with_table(
        root3,
        "dev-dependencies"@,
        with_string(
            with_string(table_at(root3, "dev-dependencies"@), "shell-words"@, "1.0.0"@),
            "tempfile"@,
            "3"@,
        ).remove("tempdir"@),
    );
    let root5 = with_table(
        root4,
        "features"@,
        features_after(
            table_at(root4, "features"@),
            versions,
            configured,
            versions.len() as int,
        ).insert("dox"@, string_array(Seq::empty())),
    );
    let package5 = table_at(root5, "package"@);
    let metadata5 = table_at(package5, "metadata"@);
    let system_deps5 = table_at(metadata5, "system-deps"@);
    let entry = system_deps_entry(table_at(system_deps5, lib_table_name), lib_name, versions, min);
    let root6 = with_table(
        root5,
        "package"@,
        with_table(
            package5,
            "metadata"@,
            with_table(
                metadata5,
                "system-deps"@,
                with_table(system_deps5, lib_table_name, entry),
            ),
        ),
    );
    let package6 = table_at(root6, "package"@);
    let metadata6 = table_at(package6, "metadata"@);
    let docs6 = table_at(metadata6, "docs"@);
    let rs = table_at(docs6, "rs"@).insert("features"@, string_array(docs_rs_features.push("dox"@)));
    with_table(
        root6,
        "package"@,
        with_table(package6, "metadata"@, with_table(metadata6, "docs"@, with_table(docs6, "rs"@, rs))),
    )
}

/// Whether a manifest can take what every crate of low-level declarations
/// needs: wherever a table is to be filled, the manifest holds a table or
/// nothing.
pub open spec fn fits_fill_in(
    root: Map<Seq<char>, Toml>,
    versions: Seq<(Version, Version)>,
    lib_table_name: Seq<char>,
    min: Version,
) -> bool {
    let package = table_at(root, "package"@);
    let metadata = table_at(package, "metadata"@);
    let system_deps = table_at(metadata, "system-deps"@);
    let entry = table_at(system_deps, lib_table_name);
    let docs = table_at(metadata, "docs"@);
    &&& table_or_nothing_at(root, "package"@)
    &&& table_or_nothing_at(root, "dependencies"@)
    &&& table_or_nothing_at(root, "build-dependencies"@)
    &&& table_or_nothing_at(root, "dev-dependencies"@)
    &&& table_or_nothing_at(root, "features"@)
    &&& table_or_nothing_at(package, "metadata"@)
    &&& table_or_nothing_at(metadata, "system-deps"@)
    &&& table_or_nothing_at(metadata, "docs"@)
    &&& table_or_nothing_at(system_deps, lib_table_name)
    &&& table_or_nothing_at(docs, "rs"@)
    &&& forall|i: int|
        0 <= i < versions.len() && (#[trigger] versions[i]).0.rank() > min.rank()
            ==> table_or_nothing_at(entry, versions[i].0.feature_name())
}

/// The name of a feature is neither `name` nor `version`.
pub proof fn lemma_feature_name_is_no_field(version: Version)
    ensures
        version.feature_name() != "name"@,
        version.feature_name() != "version"@,
{
    reveal_strlit("v");
    reveal_strlit("name");
    reveal_strlit("version");
    lemma_decimal_begins_with_digit(version.0 as nat);
    let name = version.feature_name();
    assert(name[0] == 'v');
    assert(name[1] == decimal(version.0 as nat)[0]);
    assert("name"@[0] == 'n');
    assert("version"@[1] == 'e');
}

/// Puts into a manifest what every crate of low-level declarations needs.
/// `versions` gives, for each version that has a feature, the version of the
/// library that stands for it; `lib_name` names the library for the system,
/// and `lib_table_name` is that name as a key of a table.
pub fn fill_in(
    root: &mut toml::map::Map<String, toml::Value>,
    config: &Config,
    versions: &VersionMap<Version>,
    lib_name: &str,
    lib_table_name: &str,
)
    requires
        fits_fill_in(table_of(old(root)), versions.pairs(), lib_table_name@, config.min_cfg_version),
    ensures
        table_of(final(root)) == filled_in(
            table_of(old(root)),
            versions.pairs(),
            texts_by_version(config.feature_dependencies@),
            lib_name@,
            lib_table_name@,
            config.min_cfg_version,
            texts(config.docs_rs_features@),
        ),
{
    let ghost root0 = table_of(root);
    let ghost pairs = versions.pairs();
    let ghost configured = texts_by_version(config.feature_dependencies@);
    let ghost min = config.min_cfg_version;
    proof {
        reveal_strlit("package");
        reveal_strlit("dependencies");
        reveal_strlit("build-dependencies");
        reveal_strlit("dev-dependencies");
        reveal_strlit("features");
        reveal_strlit("metadata");
        reveal_strlit("build");
        assert("package"@.len() == 7 && "dependencies"@.len() == 12 && "build-dependencies"@.len()
            == 18 && "dev-dependencies"@.len() == 16 && "features"@.len() == 8);
        assert("metadata"@.len() == 8 && "build"@.len() == 5);
    }
    {
        let package = upsert_table(root, "package");
        set_string(package, "build", "build.rs");
    }
    {
        let deps = upsert_table(root, "dependencies");
        set_string(deps, "libc", "0.2");
    }
    {
        let build_deps = upsert_table(root, "build-dependencies");
        set_string(build_deps, "system-deps", "2.0");
    }
    {
        let dev_deps = upsert_table(root, "dev-dependencies");
        set_string(dev_deps, "shell-words", "1.0.0");
        set_string(dev_deps, "tempfile", "3");
        unset(dev_deps, "tempdir");
    }
    let n = versions.len();
    {
        let features = upsert_table(root, "features");
        let ghost features0 = table_of(features);
        let mut i: usize = 0;
        while i < n
            invariant
                i <= n,
                n == versions.pairs().len(),
                pairs == versions.pairs(),
                configured == texts_by_version(config.feature_dependencies@),
                table_of(features) == features_after(features0, pairs, configured, i as int),
            decreases n - i,
        {
            let version = versions.key_at(i);
            let prev = if i > 0 {
                Some(versions.key_at(i - 1))
            } else {
                None
            };
            let prev_array = make_string_array(
                &get_feature_dependencies(version, prev, &config.feature_dependencies),
            );
            table_insert(features, version.to_feature(), prev_array);
            i += 1;
        }
        let none: Vec<String> = Vec::new();
        assert(texts(none@) =~= Seq::<Seq<char>>::empty());
        table_insert(features, "dox".to_owned(), make_string_array(&none));
    }
    let ghost root5 = table_of(root);
    proof {
        assert(table_at(root5, "package"@) == with_string(
            table_at(root0, "package"@),
            "build"@,
            "build.rs"@,
        ));
        assert(table_at(table_at(root5, "package"@), "metadata"@) == table_at(
            table_at(root0, "package"@),
            "metadata"@,
        ));
    }
    {
        let package = upsert_table(root, "package");
        let metadata = upsert_table(package, "metadata");
        let system_deps = upsert_table(metadata, "system-deps");
        let meta = upsert_table(system_deps, lib_table_name);
        let ghost meta0 = table_of(meta);
        if !table_contains_key(meta, "name") {
            set_string(meta, "name", lib_name);
        }
        if !table_contains_key(meta, "version") {
            set_string(meta, "version", config.min_cfg_version.to_string().as_str());
        }
        unset(meta, "feature-versions");
        let ghost named = table_of(meta);
        proof {
            assert forall|j: int|
                0 <= j < pairs.len() && (#[trigger] pairs[j]).0.rank()
                    > min.rank() implies table_or_nothing_at(named, pairs[j].0.feature_name()) by {
                lemma_feature_name_is_no_field(pairs[j].0);
                assert(table_or_nothing_at(meta0, pairs[j].0.feature_name()));
            }
        }
        let mut i: usize = 0;
        while i < n
            invariant
                i <= n,
                n == versions.pairs().len(),
                pairs == versions.pairs(),
                min == config.min_cfg_version,
                table_of(meta) == version_sections_after(named, pairs, min, i as int),
                forall|j: int|
                    0 <= j < pairs.len() && (#[trigger] pairs[j]).0.rank() > min.rank()
                        ==> table_or_nothing_at(table_of(meta), pairs[j].0.feature_name()),
            decreases n - i,
        {
            let version = versions.key_at(i);
            let lib_version = *versions.value_at(i);
            if version > config.min_cfg_version {
                let ghost before = table_of(meta);
                {
                    let version_section = upsert_table(meta, version.to_feature().as_str());
                    if !table_contains_key(version_section, "version") {
                        set_string(version_section, "version", lib_version.to_string().as_str());
                    }
                }
                proof {
                    assert forall|j: int|
                        0 <= j < pairs.len() && (#[trigger] pairs[j]).0.rank()
                            > min.rank() implies table_or_nothing_at(
                        table_of(meta),
                        pairs[j].0.feature_name(),
                    ) by {
                        assert(table_or_nothing_at(before, pairs[j].0.feature_name()));
                    }
                }
            }
            i += 1;
        }
    }
    {
        let package = upsert_table(root, "package");
        let metadata = upsert_table(package, "metadata");
        let docs = upsert_table(metadata, "docs");
        let rs = upsert_table(docs, "rs");
        let mut docs_rs_features: Vec<String> = Vec::new();
        extend_with(&mut docs_rs_features, &config.docs_rs_features);
        let ghost copied = docs_rs_features@;
        assert(texts(copied) =~= texts(config.docs_rs_features@));
        docs_rs_features.push("dox".to_owned());
        assert(texts(docs_rs_features@) =~= texts(copied).push("dox"@));
        table_insert(rs, "features".to_owned(), make_string_array(&docs_rs_features));
    }
}

/// The manifest that a text stands for: the table that the text is as a
/// TOML document, and an empty one where it is none.
pub open spec fn manifest_of(text: Seq<char>) -> Map<Seq<char>, Toml> {
    match parsed_table(text) {
        Some(table) => table,
        None => Map::empty(),
    }
}

/// Reads a manifest from its text. A text that cannot be read counts as an
/// empty manifest.
pub fn parse_manifest(text: &str) -> (root: toml::map::Map<String, toml::Value>)
    ensures
        table_of(&root) == manifest_of(text@),
{
    match table_from_str(text) {
        Ok(root) => root,
        Err(_) => table_new(),
    }
}

/// Writes a manifest as text, where it can be written.
pub fn print_manifest(root: &toml::map::Map<String, toml::Value>) -> (text: Option<String>)
    ensures
        match text {
            Some(t) => printed_table(table_of(root)) == Some(t@),
            None => printed_table(table_of(root)) is None,
        },
{
    match table_to_string(root) {
        Ok(text) => Some(text),
        Err(_) => None,
    }
}

/// The table that a table holds under a key, if the table is there and
/// holds one; `fits` says whether it was there and held a table or nothing.
fn child<'a>(table: Option<&'a toml::map::Map<String, toml::Value>>, key: &str) -> (found: (
    bool,
    Option<&'a toml::map::Map<String, toml::Value>>,
))
    ensures
        found.0 == table_or_nothing_at(
            match table {
                Some(t) => table_of(t),
                None => Map::empty(),
            },
            key@,
        ),
        found.0 ==> table_at(
            match table {
                Some(t) => table_of(t),
                None => Map::empty(),
            },
            key@,
        ) == (match found.1 {
            Some(t) => table_of(t),
            None => Map::empty(),
        }),
{
    match table {
        Some(t) => match table_get(t, key) {
            Some(value) => match value_as_table(value) {
                Some(inner) => (true, Some(inner)),
                None => (false, None),
            },
            None => (true, None),
        },
        None => (true, None),
    }
}

/// Whether a manifest can take what a new crate needs.
pub fn can_fill_empty(
    root: &toml::map::Map<String, toml::Value>,
    external_libraries: &Vec<ExternalLibrary>,
) -> (fits: bool)
    ensures
        fits == fits_fill_empty(table_of(root), library_views(external_libraries@)),
{
    let ghost libs = library_views(external_libraries@);
    let (package_fits, _) = child(Some(root), "package");
    let (lib_fits, _) = child(Some(root), "lib");
    let (deps_fit, deps) = child(Some(root), "dependencies");
    if !package_fits || !lib_fits || !deps_fit {
        return false;
    }
    let mut i: usize = 0;
    while i < external_libraries.len()
        invariant
            i <= external_libraries@.len(),
            libs == library_views(external_libraries@),
            table_at(table_of(root), "dependencies"@) == (match deps {
                Some(t) => table_of(t),
                None => Map::empty(),
            }),
            forall|j: int|
                0 <= j < i ==> table_or_nothing_at(
                    table_at(table_of(root), "dependencies"@),
                    external_package(#[trigger] libs[j].crate_name),
                ),
        decreases external_libraries@.len() - i,
    {
        let ext_lib = &external_libraries[i];
        assert(libs[i as int] == ext_lib@);
        let ext_package = if str_eq(ext_lib.crate_name.as_str(), "cairo") {
            let mut name = ext_lib.crate_name.clone();
            name.append("-sys-rs");
            name
        } else if str_eq(ext_lib.crate_name.as_str(), "gdk_pixbuf") {
            "gdk-pixbuf-sys".to_owned()
        } else {
            let mut name = ext_lib.crate_name.clone();
            name.append("-sys");
            name
        };
        assert(ext_package@ == external_package(libs[i as int].crate_name));
        let (fits, _) = child(deps, ext_package.as_str());
        if !fits {
            return false;
        }
        i += 1;
    }
    true
}

/// Whether a manifest can take what every crate of low-level declarations
/// needs.
pub fn can_fill_in(
    root: &toml::map::Map<String, toml::Value>,
    config: &Config,
    versions: &VersionMap<Version>,
    lib_table_name: &str,
) -> (fits: bool)
    ensures
        fits == fits_fill_in(
            table_of(root),
            versions.pairs(),
            lib_table_name@,
            config.min_cfg_version,
        ),
{
    let ghost pairs = versions.pairs();
    let ghost min = config.min_cfg_version;
    let (package_fits, package) = child(Some(root), "package");
    let (deps_fit, _) = child(Some(root), "dependencies");
    let (build_deps_fit, _) = child(Some(root), "build-dependencies");
    let (dev_deps_fit, _) = child(Some(root), "dev-dependencies");
    let (features_fit, _) = child(Some(root), "features");
    if !package_fits || !deps_fit || !build_deps_fit || !dev_deps_fit || !features_fit {
        return false;
    }
    let (metadata_fits, metadata) = child(package, "metadata");
    if !metadata_fits {
        return false;
    }
    let (system_deps_fit, system_deps) = child(metadata, "system-deps");
    let (docs_fit, docs) = child(metadata, "docs");
    if !system_deps_fit || !docs_fit {
        return false;
    }
    let (entry_fits, entry) = child(system_deps, lib_table_name);
    let (rs_fits, _) = child(docs, "rs");
    if !entry_fits || !rs_fits {
        return false;
    }
    let ghost entry_table = table_at(
        table_at(
            table_at(table_at(table_of(root), "package"@), "metadata"@),
            "system-deps"@,
        ),
        lib_table_name@,
    );
    let n = versions.len();
    let mut i: usize = 0;
    while i < n
        invariant
            i <= n,
            n == versions.pairs().len(),
            pairs == versions.pairs(),
            min == config.min_cfg_version,
            entry_table == (match entry {
                Some(t) => table_of(t),
                None => Map::empty(),
            }),
            entry_table == table_at(
                table_at(
                    table_at(table_at(table_of(root), "package"@), "metadata"@),
                    "system-deps"@,
                ),
                lib_table_name@,
            ),
            forall|j: int|
                0 <= j < i && (#[trigger] pairs[j]).0.rank() > min.rank() ==> table_or_nothing_at(
                    entry_table,
                    pairs[j].0.feature_name(),
                ),
        decreases n - i,
    {
        let version = versions.key_at(i);
        if version > config.min_cfg_version {
            let (fits, _) = child(entry, version.to_feature().as_str());
            if !fits {
                assert(pairs[i as int].0.rank() > min.rank() && !table_or_nothing_at(
                    entry_table,
                    pairs[i as int].0.feature_name(),
                ));
                return false;
            }
        }
        i += 1;
    }
    true
}

/// Puts into a manifest what a new crate needs, as [`fill_empty`] does,
/// where the manifest can take it; else says so and leaves the manifest as it
/// is.
pub fn try_fill_empty(
    root: &mut toml::map::Map<String, toml::Value>,
    crate_name: &str,
    package_name: &str,
    links: &str,
    external_libraries: &Vec<ExternalLibrary>,
) -> (filled: bool)
    ensures
        filled == fits_fill_empty(table_of(old(root)), library_views(external_libraries@)),
        table_of(final(root)) == (if filled {
            filled_empty(
                table_of(old(root)),
                crate_name@,
                package_name@,
                links@,
                library_views(external_libraries@),
            )
        } else {
            table_of(old(root))
        }),
{
    if can_fill_empty(root, external_libraries) {
        fill_empty(root, crate_name, package_name, links, external_libraries);
        true
    } else {
        false
    }
}

/// Puts into a manifest what every crate of low-level declarations needs,
/// as [`fill_in`] does, where the manifest can take it; else says so and
/// leaves the manifest as it is.
pub fn try_fill_in(
    root: &mut toml::map::Map<String, toml::Value>,
    config: &Config,
    versions: &VersionMap<Version>,
    lib_name: &str,
    lib_table_name: &str,
) -> (filled: bool)
    ensures
        filled == fits_fill_in(
            table_of(old(root)),
            versions.pairs(),
            lib_table_name@,
            config.min_cfg_version,
        ),
        table_of(final(root)) == (if filled {
            filled_in(
                table_of(old(root)),
                versions.pairs(),
                texts_by_version(config.feature_dependencies@),
                lib_name@,
                lib_table_name@,
                config.min_cfg_version,
                texts(config.docs_rs_features@),
            )
        } else {
            table_of(old(root))
        }),
{
    if can_fill_in(root, config, versions, lib_table_name) {
        fill_in(root, config, versions, lib_name, lib_table_name);
        true
    } else {
        false
    }
}

/// The names that a manifest is written with.
#[derive(Clone, Copy, Debug)]
pub struct Names<'a> {
    /// The name of the crate.
    pub crate_name: &'a str,
    /// The name of the package.
    pub package_name: &'a str,
    /// What the package links against.
    pub links: &'a str,
    /// The name of the library for the system.
    pub lib_name: &'a str,
    /// The name of the library as a key of a table.
    pub lib_table_name: &'a str,
}

/// The manifest that comes of an existing one. One that holds nothing but
/// white space first takes what a new crate needs; every one then takes what
/// every crate of low-level declarations needs. There is none where the
/// existing manifest holds something else where a table belongs.
pub open spec fn generated_table(
    existing: Seq<char>,
    config: &Config,
    versions: Seq<(Version, Version)>,
    names: Names<'_>,
) -> Option<Map<Seq<char>, Toml>> {
    let root = manifest_of(existing);
    let libs = library_views(config.external_libraries@);
    let started = if trimmed(existing).len() == 0 {
        if fits_fill_empty(root, libs) {
            Some(filled_empty(root, names.crate_name@, names.package_name@, names.links@, libs))
        } else {
            None
        }
    } else {
        Some(root)
    };
    match started {
        Some(root) => if fits_fill_in(root, versions, names.lib_table_name@, config.min_cfg_version) {
            Some(
                filled_in(
                    root,
                    versions,
                    texts_by_version(config.feature_dependencies@),
                    names.lib_name@,
                    names.lib_table_name@,
                    config.min_cfg_version,
                    texts(config.docs_rs_features@),
                ),
            )
        } else {
            None
        },
        None => None,
    }
}

/// The text of the manifest that comes of an existing one, where there is
/// such a manifest and it can be written.
pub open spec fn generated_text(
    existing: Seq<char>,
    config: &Config,
    versions: Seq<(Version, Version)>,
    names: Names<'_>,
) -> Option<Seq<char>> {
    match generated_table(existing, config, versions, names) {
        Some(root) => printed_table(root),
        None => None,
    }
}

/// Brings the text of a manifest up to date.
pub fn generate(existing: &str, config: &Config, versions: &VersionMap<Version>, names: Names<'_>) -> (text:
    Option<String>)
    ensures
        match text {
            Some(t) => generated_text(existing@, config, versions.pairs(), names) == Some(t@),
            None => generated_text(existing@, config, versions.pairs(), names) is None,
        },
{
    let empty = is_blank(existing);
    let mut root_table = parse_manifest(existing);
    if empty {
        if !try_fill_empty(
            &mut root_table,
            names.crate_name,
            names.package_name,
            names.links,
            &config.external_libraries,
        ) {
            return None;
        }
    }
    if !try_fill_in(&mut root_table, config, versions, names.lib_name, names.lib_table_name) {
        return None;
    }
    print_manifest(&root_table)
}

} // verus!
