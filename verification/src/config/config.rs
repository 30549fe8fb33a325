//! The configuration of one run.

use crate::config::external_libraries::{ExternalLibrary, ExternalLibraryView};
use crate::config::gobjects;
use crate::config::gobjects::{resolved, GObject, GObjects};
use crate::library::Library;
use crate::config::work_mode::WorkMode;
use crate::library::{concurrency_of, unknown_concurrency, Concurrency};
use crate::config::work_mode::{work_mode_of, wrong_work_mode};
use crate::paths::{
    as_path, has_extension, join, joined_path, owned_path_bytes, parent, parent_path, path_bytes,
    path_from, path_has_extension, to_path_buf,
};
use crate::config::toml_helper::{
    as_result_bool, as_result_str, as_result_vec, de_error_to_string,
    invalid_value, kind_name, lookup, lookup_path, lookup_str, lookup_vec, parsed_document,
    table_entries, table_of, toml_of, tomls_of, value_as_bool, value_as_str, value_as_table,
    value_from_slice, value_type_str, Toml,
};
use crate::name_map::NameMap;
use crate::text::{str_eq, texts};
use crate::version::parse_version;
use crate::version::Version;
use crate::version_map::VersionMap;
use std::path::{Path, PathBuf};
use vstd::prelude::*;
use vstd::string::*;
use vstd::utf8::encode_utf8;

verus! {

/// The configuration of one run.
#[derive(Debug)]
pub struct Config {
    pub work_mode: WorkMode,
    pub girs_dir: PathBuf,
    /// The version of what `girs_dir` holds.
    pub girs_version: String,
    pub library_name: String,
    pub library_version: String,
    pub target_path: PathBuf,
    /// Where the generated files go.
    pub auto_path: PathBuf,
    pub doc_target_path: PathBuf,
    pub external_libraries: Vec<ExternalLibrary>,
    pub objects: GObjects,
    pub min_cfg_version: Version,
    pub make_backup: bool,
    pub generate_safety_asserts: bool,
    pub deprecate_by_min_version: bool,
    pub show_statistics: bool,
    pub concurrency: Concurrency,
    pub single_version_file: Option<PathBuf>,
    pub generate_display_trait: bool,
    pub trust_return_value_nullability: bool,
    pub docs_rs_features: Vec<String>,
    pub disable_format: bool,
    pub split_build_rs: bool,
    pub extra_versions: Vec<Version>,
    pub lib_version_overrides: VersionMap<Version>,
    pub feature_dependencies: VersionMap<Vec<String>>,
}

impl Config {
    /// The name of the library with its version: the two joined by a hyphen.
    pub fn library_full_name(&self) -> (name: String)
        ensures
            name@ == self.library_name@ + "-"@ + self.library_version@,
    {
        let mut name = self.library_name.clone();
        name.append("-");
        name.append(self.library_version.as_str());
        name
    }

    /// A version as a condition on the generated code: only a version later
    /// than the least version that the configuration supports is one.
    pub fn filter_version(&self, version: Option<Version>) -> (filtered: Option<Version>)
        ensures
            filtered == (if version is Some && version->0.rank() > self.min_cfg_version.rank() {
                version
            } else {
                None
            }),
    {
        match version {
            Some(v) => if v > self.min_cfg_version {
                Some(v)
            } else {
                None
            },
            None => None,
        }
    }

    /// Looks up in the library each configured type, and records what was
    /// found. Nothing else of the configuration changes.
    pub fn resolve_type_ids(&mut self, library: &Library)
        ensures
            final(self).objects.pairs().len() == old(self).objects.pairs().len(),
            forall|i: int|
                0 <= i < old(self).objects.pairs().len() ==> #[trigger] final(self).objects.pairs()[i]
                    == (
                    old(self).objects.pairs()[i].0,
                    resolved(
                        old(self).objects.pairs()[i].1,
                        old(self).objects.pairs()[i].0,
                        library,
                    ),
                ),
            *final(self) == (Config { objects: final(self).objects, ..*old(self) }),
    {
        gobjects::resolve_type_ids(&mut self.objects, library)
    }

    /// Gives up formatting of the generated code where no formatter was
    /// found. Returns whether it did so just now, which is worth a warning.
    pub fn check_disable_format(&mut self, formatter_found: bool) -> (gave_up: bool)
        ensures
            final(self).disable_format == (old(self).disable_format || !formatter_found),
            gave_up == (!old(self).disable_format && !formatter_found),
            *final(self) == (Config { disable_format: final(self).disable_format, ..*old(self) }),
    {
        if !self.disable_format && !formatter_found {
            self.disable_format = true;
            true
        } else {
            false
        }
    }
}

/// The bytes of the path of the file that lists the versions, for a target
/// directory and what the configuration names. Without a name, or with an
/// empty one, it is looked for under `src/auto` in the target directory, else
/// under the name, taken from the target directory. A path with an extension
/// is the file itself; any other is its directory, and the file is
/// `versions.txt` in it.
pub open spec fn single_version_file_path(configured: Option<Seq<char>>, target: Seq<u8>) -> Seq<
    u8,
> {
    let file_dir = match configured {
        Some(path) if path.len() > 0 => joined_path(target, vstd::utf8::encode_utf8(path)),
        _ => joined_path(
            joined_path(target, vstd::utf8::encode_utf8("src"@)),
            vstd::utf8::encode_utf8("auto"@),
        ),
    };
    if path_has_extension(file_dir) {
        file_dir
    } else {
        joined_path(file_dir, vstd::utf8::encode_utf8("versions.txt"@))
    }
}

/// The path of the file that lists the versions.
pub fn make_single_version_file(configured: Option<&str>, target_path: &Path) -> (file: PathBuf)
    ensures
        owned_path_bytes(&file) == single_version_file_path(
            match configured {
                Some(path) => Some(path@),
                None => None,
            },
            path_bytes(target_path),
        ),
{
    proof {
        reveal_strlit("");
        if configured is Some && configured->0@.len() == 0 {
            assert(configured->0@ =~= ""@);
        }
    }
    let file_dir = match configured {
        Some(path) => if str_eq(path, "") {
            join(as_path(&join(target_path, "src")), "auto")
        } else {
            join(target_path, path)
        },
        None => join(as_path(&join(target_path, "src")), "auto"),
    };
    if has_extension(as_path(&file_dir)) {
        file_dir
    } else {
        join(as_path(&file_dir), "versions.txt")
    }
}

/// The names that the configuration gives to crates in place of their own:
/// the entries of the table `crate_name_overrides` that are strings.
pub open spec fn crate_name_overrides_of(toml: Toml) -> Map<Seq<char>, Seq<char>> {
    match lookup_path(toml, "crate_name_overrides"@) {
        Some(Toml::Table(entries)) => Map::new(
            |key: Seq<char>| entries.contains_key(key) && entries[key] is String,
            |key: Seq<char>| entries[key]->String_0,
        ),
        _ => Map::empty(),
    }
}

/// Reads the names that the configuration gives to crates in place of their
/// own.
pub fn read_crate_name_overrides(toml: &toml::Value) -> (overrides: NameMap<String>)
    ensures
        overrides@.dom() == crate_name_overrides_of(toml_of(toml)).dom(),
        forall|key: Seq<char>| #[trigger]
            overrides@.contains_key(key) ==> overrides@[key]@ == crate_name_overrides_of(
                toml_of(toml),
            )[key],
{
    let mut overrides: NameMap<String> = NameMap::new();
    let table = match lookup(toml, "crate_name_overrides") {
        Some(value) => match value_as_table(value) {
            Some(table) => table,
            None => {
                assert(overrides@.dom() =~= crate_name_overrides_of(toml_of(toml)).dom());
                return overrides;
            },
        },
        None => {
            assert(overrides@.dom() =~= crate_name_overrides_of(toml_of(toml)).dom());
            return overrides;
        },
    };
    let ghost wanted = crate_name_overrides_of(toml_of(toml));
    let entries = table_entries(table);
    let mut i: usize = 0;
    while i < entries.len()
        invariant
            i <= entries@.len(),
            wanted == crate_name_overrides_of(toml_of(toml)),
            lookup_path(toml_of(toml), "crate_name_overrides"@) == Some(
                Toml::Table(table_of(table)),
            ),
            forall|j: int|
                0 <= j < entries@.len() ==> table_of(table).contains_key(
                    (#[trigger] entries@[j]).0@,
                ) && table_of(table)[entries@[j].0@] == toml_of(entries@[j].1),
            forall|key: Seq<char>| #[trigger]
                overrides@.contains_key(key) ==> wanted.contains_key(key) && overrides@[key]@
                    == wanted[key],
            forall|j: int|
                0 <= j < i && wanted.contains_key((#[trigger] entries@[j]).0@)
                    ==> overrides@.contains_key(entries@[j].0@),
        decreases entries@.len() - i,
    {
        let (key, value) = entries[i];
        match value_as_str(value) {
            Some(text) => {
                overrides.insert(key.clone(), text.to_owned());
            },
            None => {},
        }
        i += 1;
    }
    proof {
        assert forall|key: Seq<char>| wanted.contains_key(key) implies overrides@.contains_key(
            key,
        ) by {
            let j = choose|j: int| 0 <= j < entries@.len() && (#[trigger] entries@[j]).0@ == key;
            assert(wanted.contains_key(entries@[j].0@));
        }
        assert(overrides@.dom() =~= wanted.dom());
    }
    overrides
}

/// The texts of values that are all strings; nothing where one is not.
pub open spec fn strings_of(items: Seq<Toml>) -> Option<Seq<Seq<char>>> {
    if forall|i: int| 0 <= i < items.len() ==> (#[trigger] items[i]) is String {
        Some(items.map_values(|item: Toml| item->String_0))
    } else {
        None
    }
}

/// The texts of values that are all strings.
pub fn read_strings(items: &Vec<toml::Value>) -> (strings: Option<Vec<String>>)
    ensures
        match strings {
            Some(s) => strings_of(tomls_of(items@)) == Some(texts(s@)),
            None => strings_of(tomls_of(items@)) is None,
        },
{
    let mut strings: Vec<String> = Vec::new();
    let mut i: usize = 0;
    while i < items.len()
        invariant
            i <= items@.len(),
            strings@.len() == i,
            forall|j: int| 0 <= j < i ==> toml_of(&#[trigger] items@[j]) == Toml::String(strings@[j]@),
        decreases items@.len() - i,
    {
        match value_as_str(&items[i]) {
            Some(text) => strings.push(text.to_owned()),
            None => {
                assert(!(tomls_of(items@)[i as int] is String));
                return None;
            },
        }
        i += 1;
    }
    proof {
        let all = tomls_of(items@);
        assert forall|j: int| 0 <= j < all.len() implies (#[trigger] all[j]) is String by {
            assert(toml_of(&items@[j]) == Toml::String(strings@[j]@));
        }
        assert(all.map_values(|item: Toml| item->String_0) =~= texts(strings@));
    }
    Some(strings)
}

/// The versions that the configuration adds to those of the library: the
/// array of strings under `options.extra_versions`, each read as a version.
pub open spec fn extra_versions_of(toml: Toml) -> Result<Seq<Version>, Seq<char>> {
    match lookup_path(toml, "options.extra_versions"@) {
        None => Ok(Seq::empty()),
        Some(Toml::Array(items)) => match strings_of(items) {
            Some(strings) => Ok(strings.map_values(|s: Seq<char>| parse_version(s))),
            None => Err("options.extra_versions expected to be array of string"@),
        },
        Some(other) => Err(invalid_value("options.extra_versions"@, "a array"@, other)),
    }
}

/// Reads the versions that the configuration adds to those of the library.
pub fn read_extra_versions(toml: &toml::Value) -> (versions: Result<Vec<Version>, String>)
    ensures
        match versions {
            Ok(v) => extra_versions_of(toml_of(toml)) == Ok::<Seq<Version>, Seq<char>>(v@),
            Err(e) => extra_versions_of(toml_of(toml)) == Err::<Seq<Version>, Seq<char>>(e@),
        },
{
    let items = match lookup(toml, "options.extra_versions") {
        Some(a) => match as_result_vec(a, "options.extra_versions") {
            Ok(items) => items,
            Err(e) => {
                return Err(e);
            },
        },
        None => {
            return Ok(Vec::new());
        },
    };
    let strings = match read_strings(items) {
        Some(strings) => strings,
        None => {
            return Err("options.extra_versions expected to be array of string".to_owned());
        },
    };
    let mut versions: Vec<Version> = Vec::new();
    let mut i: usize = 0;
    while i < strings.len()
        invariant
            i <= strings@.len(),
            versions@.len() == i,
            forall|j: int| 0 <= j < i ==> #[trigger] versions@[j] == parse_version(strings@[j]@),
        decreases strings@.len() - i,
    {
        versions.push(Version::parse(strings[i].as_str()));
        i += 1;
    }
    assert(versions@ =~= texts(strings@).map_values(|s: Seq<char>| parse_version(s)));
    Ok(versions)
}

/// The text at the end of a path of keys, or what is wrong: the message
/// given where nothing stands there, and what stands there instead where it
/// is no string.
pub open spec fn str_at(value: Toml, option: Seq<char>, missing: Seq<char>) -> Result<
    Seq<char>,
    Seq<char>,
> {
    match lookup_path(value, option) {
        Some(Toml::String(text)) => Ok(text),
        Some(other) => Err(invalid_value(option, "a string"@, other)),
        None => Err(missing),
    }
}

/// The version at the end of a path of keys, or what is wrong.
pub open spec fn version_at(value: Toml, option: Seq<char>, missing: Seq<char>) -> Result<
    Version,
    Seq<char>,
> {
    match str_at(value, option, missing) {
        Ok(text) => Ok(parse_version(text)),
        Err(e) => Err(e),
    }
}

fn read_version_at(value: &toml::Value, option: &str, missing: &str) -> (version: Result<
    Version,
    String,
>)
    ensures
        match version {
            Ok(v) => version_at(toml_of(value), option@, missing@) == Ok::<Version, Seq<char>>(v),
            Err(e) => version_at(toml_of(value), option@, missing@) == Err::<Version, Seq<char>>(
                e@,
            ),
        },
{
    match lookup_str(value, option, missing) {
        Ok(text) => Ok(Version::parse(text)),
        Err(e) => Err(e),
    }
}

/// What one entry of `lib_version_overrides` says: the version of the
/// configuration under `version`, and the version of the library that stands
/// for it under `lib_version`.
pub open spec fn lib_version_override_of(entry: Toml) -> Result<(Version, Version), Seq<char>> {
    match version_at(entry, "version"@, "No version in lib_version_overrides"@) {
        Err(e) => Err(e),
        Ok(cfg) => match version_at(
            entry,
            "lib_version"@,
            "No lib_version in lib_version_overrides"@,
        ) {
            Err(e) => Err(e),
            Ok(lib) => Ok((cfg, lib)),
        },
    }
}

/// What the entries of `lib_version_overrides` say together: each version
/// of the configuration with the version of the library that the last entry
/// for it names; or what is wrong with the first entry that is not in order.
pub open spec fn lib_version_overrides_among(entries: Seq<Toml>) -> Result<
    Map<Version, Version>,
    Seq<char>,
>
    decreases entries.len(),
{
    if entries.len() == 0 {
        Ok(Map::empty())
    } else {
        match lib_version_overrides_among(entries.drop_last()) {
            Err(e) => Err(e),
            Ok(map) => match lib_version_override_of(entries.last()) {
                Err(e) => Err(e),
                Ok((cfg, lib)) => Ok(map.insert(cfg, lib)),
            },
        }
    }
}

/// The versions of the library that stand for versions of the
/// configuration: what the array `lib_version_overrides` says, and nothing
/// where there is no such array.
pub open spec fn lib_version_overrides_of(toml: Toml) -> Result<Map<Version, Version>, Seq<char>> {
    match lookup_path(toml, "lib_version_overrides"@) {
        None => Ok(Map::empty()),
        Some(Toml::Array(entries)) => lib_version_overrides_among(entries),
        Some(other) => Err(invalid_value("lib_version_overrides"@, "a array"@, other)),
    }
}

/// Reads which versions of the library stand for which versions of the
/// configuration.
pub fn read_lib_version_overrides(toml: &toml::Value) -> (overrides: Result<
    VersionMap<Version>,
    String,
>)
    ensures
        match overrides {
            Ok(map) => lib_version_overrides_of(toml_of(toml)) == Ok::<
                Map<Version, Version>,
                Seq<char>,
            >(map@),
            Err(e) => lib_version_overrides_of(toml_of(toml)) == Err::<
                Map<Version, Version>,
                Seq<char>,
            >(e@),
        },
{
    let entries = match lookup(toml, "lib_version_overrides") {
        Some(a) => match as_result_vec(a, "lib_version_overrides") {
            Ok(entries) => entries,
            Err(e) => {
                return Err(e);
            },
        },
        None => {
            return Ok(VersionMap::new());
        },
    };
    let ghost all = tomls_of(entries@);
    let mut map: VersionMap<Version> = VersionMap::new();
    let mut i: usize = 0;
    proof {
        assert(all.take(0) =~= Seq::<Toml>::empty());
    }
    while i < entries.len()
        invariant
            i <= entries@.len(),
            all == tomls_of(entries@),
            lookup_path(toml_of(toml), "lib_version_overrides"@) == Some(Toml::Array(all)),
            lib_version_overrides_among(all.take(i as int)) == Ok::<
                Map<Version, Version>,
                Seq<char>,
            >(map@),
        decreases entries@.len() - i,
    {
        proof {
            assert(all.take(i + 1).drop_last() =~= all.take(i as int));
            assert(all.take(i + 1).last() == toml_of(&entries@[i as int]));
        }
        let entry = &entries[i];
        let cfg = match read_version_at(entry, "version", "No version in lib_version_overrides") {
            Ok(cfg) => cfg,
            Err(e) => {
                proof {
                    lemma_lib_version_overrides_fail(all, i as int);
                }
                return Err(e);
            },
        };
        let lib = match read_version_at(
            entry,
            "lib_version",
            "No lib_version in lib_version_overrides",
        ) {
            Ok(lib) => lib,
            Err(e) => {
                proof {
                    lemma_lib_version_overrides_fail(all, i as int);
                }
                return Err(e);
            },
        };
        map.insert(cfg, lib);
        i += 1;
    }
    proof {
        assert(all.take(i as int) =~= all);
    }
    Ok(map)
}

/// Once the entries up to one are wrong, the entries as a whole are wrong in
/// the same way.
pub proof fn lemma_lib_version_overrides_fail(entries: Seq<Toml>, n: int)
    requires
        0 <= n < entries.len(),
        lib_version_overrides_among(entries.take(n + 1)) is Err,
    ensures
        lib_version_overrides_among(entries) == lib_version_overrides_among(entries.take(n + 1)),
    decreases entries.len() - n,
{
    if n + 1 == entries.len() {
        assert(entries.take(n + 1) =~= entries);
    } else {
        assert(entries.take(n + 2).drop_last() =~= entries.take(n + 1));
        lemma_lib_version_overrides_fail(entries, n + 1);
    }
}

/// What one entry of `feature_dependencies` says: the version under
/// `version`, and under `dependencies` the features that the feature of that
/// version depends on.
pub open spec fn feature_dependency_of(entry: Toml) -> Result<(Version, Seq<Seq<char>>), Seq<char>> {
    match version_at(entry, "version"@, "No version in feature_dependencies"@) {
        Err(e) => Err(e),
        Ok(cfg) => match lookup_path(entry, "dependencies"@) {
            None => Err("No dependencies in feature_dependencies"@),
            Some(Toml::Array(items)) => match strings_of(items) {
                Some(strings) => Ok((cfg, strings)),
                None => Err("feature_dependencies.dependencies expected to be array of string"@),
            },
            Some(other) => Err(invalid_value("dependencies"@, "a array"@, other)),
        },
    }
}

/// What the entries of `feature_dependencies` say together: each version
/// with the features that the last entry for it names; or what is wrong with
/// the first entry that is not in order.
pub open spec fn feature_dependencies_among(entries: Seq<Toml>) -> Result<
    Map<Version, Seq<Seq<char>>>,
    Seq<char>,
>
    decreases entries.len(),
{
    if entries.len() == 0 {
        Ok(Map::empty())
    } else {
        match feature_dependencies_among(entries.drop_last()) {
            Err(e) => Err(e),
            Ok(map) => match feature_dependency_of(entries.last()) {
                Err(e) => Err(e),
                Ok((cfg, deps)) => Ok(map.insert(cfg, deps)),
            },
        }
    }
}

/// The features that the features of versions depend on: what the array
/// `feature_dependencies` says, and nothing where there is no such array.
pub open spec fn feature_dependencies_of(toml: Toml) -> Result<
    Map<Version, Seq<Seq<char>>>,
    Seq<char>,
> {
    match lookup_path(toml, "feature_dependencies"@) {
        None => Ok(Map::empty()),
        Some(Toml::Array(entries)) => feature_dependencies_among(entries),
        Some(other) => Err(invalid_value("feature_dependencies"@, "a array"@, other)),
    }
}

/// A map to lists of strings, with each list as its texts.
pub open spec fn texts_by_version(map: Map<Version, Vec<String>>) -> Map<Version, Seq<Seq<char>>> {
    Map::new(|v: Version| map.contains_key(v), |v: Version| texts(map[v]@))
}

/// Reads the features that the features of versions depend on.
pub fn read_feature_dependencies(toml: &toml::Value) -> (dependencies: Result<
    VersionMap<Vec<String>>,
    String,
>)
    ensures
        match dependencies {
            Ok(map) => feature_dependencies_of(toml_of(toml)) == Ok::<
                Map<Version, Seq<Seq<char>>>,
                Seq<char>,
            >(texts_by_version(map@)),
            Err(e) => feature_dependencies_of(toml_of(toml)) == Err::<
                Map<Version, Seq<Seq<char>>>,
                Seq<char>,
            >(e@),
        },
{
    let entries = match lookup(toml, "feature_dependencies") {
        Some(a) => match as_result_vec(a, "feature_dependencies") {
            Ok(entries) => entries,
            Err(e) => {
                return Err(e);
            },
        },
        None => {
            let map: VersionMap<Vec<String>> = VersionMap::new();
            assert(texts_by_version(map@) =~= Map::<Version, Seq<Seq<char>>>::empty());
            return Ok(map);
        },
    };
    let ghost all = tomls_of(entries@);
    let mut map: VersionMap<Vec<String>> = VersionMap::new();
    let mut i: usize = 0;
    proof {
        assert(all.take(0) =~= Seq::<Toml>::empty());
        assert(texts_by_version(map@) =~= Map::<Version, Seq<Seq<char>>>::empty());
    }
    while i < entries.len()
        invariant
            i <= entries@.len(),
            all == tomls_of(entries@),
            lookup_path(toml_of(toml), "feature_dependencies"@) == Some(Toml::Array(all)),
            feature_dependencies_among(all.take(i as int)) == Ok::<
                Map<Version, Seq<Seq<char>>>,
                Seq<char>,
            >(texts_by_version(map@)),
        decreases entries@.len() - i,
    {
        proof {
            assert(all.take(i + 1).drop_last() =~= all.take(i as int));
            assert(all.take(i + 1).last() == toml_of(&entries@[i as int]));
        }
        let entry = &entries[i];
        let cfg = match read_version_at(entry, "version", "No version in feature_dependencies") {
            Ok(cfg) => cfg,
            Err(e) => {
                proof {
                    lemma_feature_dependencies_fail(all, i as int);
                }
                return Err(e);
            },
        };
        let items = match lookup_vec(entry, "dependencies", "No dependencies in feature_dependencies") {
            Ok(items) => items,
            Err(e) => {
                proof {
                    lemma_feature_dependencies_fail(all, i as int);
                }
                return Err(e);
            },
        };
        let deps = match read_strings(items) {
            Some(deps) => deps,
            None => {
                proof {
                    lemma_feature_dependencies_fail(all, i as int);
                }
                return Err(
                    "feature_dependencies.dependencies expected to be array of string".to_owned(),
                );
            },
        };
        let ghost before = map@;
        let ghost texts_of_deps = texts(deps@);
        map.insert(cfg, deps);
        proof {
            assert(texts_by_version(map@) =~= texts_by_version(before).insert(cfg, texts_of_deps));
        }
        i += 1;
    }
    proof {
        assert(all.take(i as int) =~= all);
    }
    Ok(map)
}

/// Once the entries up to one are wrong, the entries as a whole are wrong in
/// the same way.
pub proof fn lemma_feature_dependencies_fail(entries: Seq<Toml>, n: int)
    requires
        0 <= n < entries.len(),
        feature_dependencies_among(entries.take(n + 1)) is Err,
    ensures
        feature_dependencies_among(entries) == feature_dependencies_among(entries.take(n + 1)),
    decreases entries.len() - n,
{
    if n + 1 == entries.len() {
        assert(entries.take(n + 1) =~= entries);
    } else {
        assert(entries.take(n + 2).drop_last() =~= entries.take(n + 1));
        lemma_feature_dependencies_fail(entries, n + 1);
    }
}

/// What is said of a configuration file that is no TOML document.
pub open spec fn invalid_toml(filename: Seq<char>, what: Seq<char>) -> Seq<char> {
    "Invalid toml format in \""@ + filename + "\": "@ + what
}

/// Reads the configuration from the bytes of its file.
pub fn read_toml(filename: &str, input: &[u8]) -> (toml: Result<toml::Value, String>)
    ensures
        match toml {
            Ok(v) => parsed_document(input@) == Ok::<Toml, Seq<char>>(toml_of(&v)),
            Err(e) => parsed_document(input@) is Err && e@ == invalid_toml(
                filename@,
                parsed_document(input@)->Err_0,
            ),
        },
{
    match value_from_slice(input) {
        Ok(toml) => Ok(toml),
        Err(error) => {
            let mut message = "Invalid toml format in \"".to_owned();
            message.append(filename);
            message.append("\": ");
            message.append(de_error_to_string(&error).as_str());
            Err(message)
        },
    }
}

/// Whether an argument was given: it is there and is not empty.
pub open spec fn is_given(arg: Option<Seq<char>>) -> bool {
    arg is Some && arg->0.len() > 0
}

/// An optional string as an optional text.
pub open spec fn text_of(arg: Option<&str>) -> Option<Seq<char>> {
    match arg {
        Some(s) => Some(s@),
        None => None,
    }
}

fn given(arg: Option<&str>) -> (text: Option<&str>)
    ensures
        is_given(text_of(arg)) ==> text == arg,
        !is_given(text_of(arg)) ==> text is None,
{
    proof {
        reveal_strlit("");
    }
    match arg {
        Some(s) => if str_eq(s, "") {
            None
        } else {
            assert(s@.len() > 0) by {
                if s@.len() == 0 {
                    assert(s@ =~= ""@);
                }
            }
            Some(s)
        },
        None => None,
    }
}

/// A truth value that the configuration may set: what stands under its
/// option, the default where nothing stands there, and an error where
/// something else than a truth value does.
pub open spec fn flag_at(toml: Toml, option: Seq<char>, default: bool) -> Result<bool, Seq<char>> {
    match lookup_path(toml, option) {
        None => Ok(default),
        Some(Toml::Boolean(b)) => Ok(b),
        Some(other) => Err(invalid_value(option, "a boolean"@, other)),
    }
}

fn read_flag(toml: &toml::Value, option: &str, default: bool) -> (flag: Result<bool, String>)
    ensures
        match flag {
            Ok(b) => flag_at(toml_of(toml), option@, default) == Ok::<bool, Seq<char>>(b),
            Err(e) => flag_at(toml_of(toml), option@, default) == Err::<bool, Seq<char>>(e@),
        },
{
    match lookup(toml, option) {
        Some(v) => as_result_bool(v, option),
        None => Ok(default),
    }
}

/// What the generator is asked to produce: what the argument says, else
/// what stands under `options.work_mode`.
pub open spec fn work_mode_from(toml: Toml, config_file: Seq<char>, arg: Option<WorkMode>)
    -> Result<WorkMode, Seq<char>> {
    match arg {
        Some(mode) => Ok(mode),
        None => match str_at(toml, "options.work_mode"@, "No options.work_mode"@) {
            Err(e) => Err("Invalid toml file \""@ + config_file + "\": "@ + e),
            Ok(name) => match work_mode_of(name) {
                Some(mode) => Ok(mode),
                None => Err(wrong_work_mode(name)),
            },
        },
    }
}

/// A directory that an argument or the configuration names: the argument
/// where it is given, taken as it is; else what stands under the option, taken
/// from the directory of the configuration file.
pub open spec fn dir_from(
    toml: Toml,
    config_dir: Seq<u8>,
    arg: Option<Seq<char>>,
    option: Seq<char>,
    missing: Seq<char>,
) -> Result<Seq<u8>, Seq<char>> {
    if is_given(arg) {
        Ok(encode_utf8(arg->0))
    } else {
        match str_at(toml, option, missing) {
            Ok(path) => Ok(joined_path(config_dir, encode_utf8(path))),
            Err(e) => Err(e),
        }
    }
}

fn read_dir(
    toml: &toml::Value,
    config_dir: &Path,
    arg: Option<&str>,
    option: &str,
    missing: &str,
) -> (dir: Result<PathBuf, String>)
    ensures
        match dir {
            Ok(d) => dir_from(toml_of(toml), path_bytes(config_dir), text_of(arg), option@, missing@)
                == Ok::<Seq<u8>, Seq<char>>(owned_path_bytes(&d)),
            Err(e) => dir_from(toml_of(toml), path_bytes(config_dir), text_of(arg), option@, missing@)
                == Err::<Seq<u8>, Seq<char>>(e@),
        },
{
    match given(arg) {
        Some(a) => Ok(path_from(a)),
        None => match lookup_str(toml, option, missing) {
            Ok(path) => Ok(join(config_dir, path)),
            Err(e) => Err(e),
        },
    }
}

/// The library and its version: both from the arguments, or both from the
/// configuration, under `options.library` and `options.version`.
pub open spec fn library_from(toml: Toml, name: Option<Seq<char>>, version: Option<Seq<char>>)
    -> Result<(Seq<char>, Seq<char>), Seq<char>> {
    if is_given(name) && is_given(version) {
        Ok((name->0, version->0))
    } else if (name is None && version is None) || (name is Some && version is Some && !is_given(
        name,
    ) && !is_given(version)) {
        match str_at(toml, "options.library"@, "No options.library"@) {
            Err(e) => Err(e),
            Ok(library) => match str_at(toml, "options.version"@, "No options.version"@) {
                Err(e) => Err(e),
                Ok(version) => Ok((library, version)),
            },
        }
    } else {
        Err("Library and version can not be specified separately"@)
    }
}

fn read_library(toml: &toml::Value, name: Option<&str>, version: Option<&str>) -> (library: Result<
    (String, String),
    String,
>)
    ensures
        match library {
            Ok(l) => library_from(toml_of(toml), text_of(name), text_of(version)) == Ok::<
                (Seq<char>, Seq<char>),
                Seq<char>,
            >((l.0@, l.1@)),
            Err(e) => library_from(toml_of(toml), text_of(name), text_of(version)) == Err::<
                (Seq<char>, Seq<char>),
                Seq<char>,
            >(e@),
        },
{
    let from_toml = match (name, version) {
        (None, None) => true,
        (Some(a), Some(b)) => {
            match (given(name), given(version)) {
                (Some(a), Some(b)) => {
                    return Ok((a.to_owned(), b.to_owned()));
                },
                (None, None) => true,
                _ => false,
            }
        },
        _ => false,
    };
    if from_toml {
        let library = match lookup_str(toml, "options.library", "No options.library") {
            Ok(library) => library,
            Err(e) => {
                return Err(e);
            },
        };
        match lookup_str(toml, "options.version", "No options.version") {
            Ok(version) => Ok((library.to_owned(), version.to_owned())),
            Err(e) => Err(e),
        }
    } else {
        Err("Library and version can not be specified separately".to_owned())
    }
}

/// Where the generated files go: what stands under `options.auto_path`,
/// taken from the target directory; without it, `src/auto` there for the
/// high-level bindings and `src` for all else.
pub open spec fn auto_path_from(toml: Toml, target_path: Seq<u8>, work_mode: WorkMode) -> Result<
    Seq<u8>,
    Seq<char>,
> {
    match lookup_path(toml, "options.auto_path"@) {
        Some(Toml::String(path)) => Ok(joined_path(target_path, encode_utf8(path))),
        Some(other) => Err(invalid_value("options.auto_path"@, "a string"@, other)),
        None => if work_mode == WorkMode::Normal {
            Ok(joined_path(joined_path(target_path, encode_utf8("src"@)), encode_utf8("auto"@)))
        } else {
            Ok(joined_path(target_path, encode_utf8("src"@)))
        },
    }
}

/// Where the documentation goes: the argument where it is given, else what
/// stands under `options.doc_target_path`, both taken from the directory of
/// the configuration file; without either, `vendor.md` in the target
/// directory.
pub open spec fn doc_target_path_from(
    toml: Toml,
    config_dir: Seq<u8>,
    target_path: Seq<u8>,
    arg: Option<Seq<char>>,
) -> Result<Seq<u8>, Seq<char>> {
    if is_given(arg) {
        Ok(joined_path(config_dir, encode_utf8(arg->0)))
    } else {
        match lookup_path(toml, "options.doc_target_path"@) {
            Some(Toml::String(path)) => Ok(joined_path(config_dir, encode_utf8(path))),
            Some(other) => Err(invalid_value("options.doc_target_path"@, "a string"@, other)),
            None => Ok(joined_path(target_path, encode_utf8("vendor.md"@))),
        }
    }
}

/// The kind of concurrency that types have unless they say otherwise: what
/// stands under `options.concurrency`, and none without it.
pub open spec fn concurrency_from(toml: Toml) -> Result<Concurrency, Seq<char>> {
    match lookup_path(toml, "options.concurrency"@) {
        None => Ok(Concurrency::Nothing),
        Some(Toml::String(name)) => match concurrency_of(name) {
            Some(kind) => Ok(kind),
            None => Err(unknown_concurrency(name)),
        },
        Some(other) => Err(invalid_value("options.concurrency"@, "a string"@, other)),
    }
}

/// What is said of a feature for the published documentation that is no
/// string.
pub open spec fn invalid_docs_rs_feature(found: Toml) -> Seq<char> {
    "Invalid `docs_rs_features` value element, expected a string, found "@ + kind_name(found)
}

/// The texts of the first `n` values, or what is wrong with the first of
/// them that is no string.
pub open spec fn docs_rs_features_among(items: Seq<Toml>, n: int) -> Result<
    Seq<Seq<char>>,
    Seq<char>,
>
    decreases n,
{
    if n <= 0 {
        Ok(Seq::empty())
    } else {
        match docs_rs_features_among(items, n - 1) {
            Err(e) => Err(e),
            Ok(texts) => match items[n - 1] {
                Toml::String(text) => Ok(texts.push(text)),
                other => Err(invalid_docs_rs_feature(other)),
            },
        }
    }
}

/// The features that the published documentation is built with: the array
/// of strings under `options.docs_rs_features`, and none without it.
pub open spec fn docs_rs_features_from(toml: Toml) -> Result<Seq<Seq<char>>, Seq<char>> {
    match lookup_path(toml, "options.docs_rs_features"@) {
        None => Ok(Seq::empty()),
        Some(Toml::Array(items)) => docs_rs_features_among(items, items.len() as int),
        Some(other) => Err(invalid_value("options.docs_rs_features"@, "a array"@, other)),
    }
}

/// Once the values up to one are wrong, the values as a whole are wrong in
/// the same way.
pub proof fn lemma_docs_rs_features_fail(items: Seq<Toml>, n: int, m: int)
    requires
        0 <= n <= m,
        docs_rs_features_among(items, n) is Err,
    ensures
        docs_rs_features_among(items, m) == docs_rs_features_among(items, n),
    decreases m - n,
{
    if n < m {
        lemma_docs_rs_features_fail(items, n, m - 1);
    }
}

fn read_docs_rs_features(toml: &toml::Value) -> (features: Result<Vec<String>, String>)
    ensures
        match features {
            Ok(f) => docs_rs_features_from(toml_of(toml)) == Ok::<Seq<Seq<char>>, Seq<char>>(
                texts(f@),
            ),
            Err(e) => docs_rs_features_from(toml_of(toml)) == Err::<Seq<Seq<char>>, Seq<char>>(e@),
        },
{
    let mut features: Vec<String> = Vec::new();
    let items = match lookup(toml, "options.docs_rs_features") {
        Some(v) => match as_result_vec(v, "options.docs_rs_features") {
            Ok(items) => items,
            Err(e) => {
                return Err(e);
            },
        },
        None => {
            assert(texts(features@) =~= Seq::<Seq<char>>::empty());
            return Ok(features);
        },
    };
    let ghost all = tomls_of(items@);
    let mut i: usize = 0;
    assert(texts(features@) =~= Seq::<Seq<char>>::empty());
    while i < items.len()
        invariant
            i <= items@.len(),
            all == tomls_of(items@),
            lookup_path(toml_of(toml), "options.docs_rs_features"@) == Some(Toml::Array(all)),
            docs_rs_features_among(all, i as int) == Ok::<Seq<Seq<char>>, Seq<char>>(
                texts(features@),
            ),
        decreases items@.len() - i,
    {
        let v = &items[i];
        assert(all[i as int] == toml_of(v));
        match value_as_str(v) {
            Some(text) => {
                let ghost before = features@;
                features.push(text.to_owned());
                assert(texts(features@) =~= texts(before).push(text@));
            },
            None => {
                let mut message =
                    "Invalid `docs_rs_features` value element, expected a string, found ".to_owned();
                message.append(value_type_str(v));
                proof {
                    lemma_docs_rs_features_fail(all, i + 1, all.len() as int);
                }
                return Err(message);
            },
        }
        i += 1;
    }
    Ok(features)
}

/// What the configuration says before the types are read.
#[derive(Debug)]
pub struct Options {
    pub work_mode: WorkMode,
    pub girs_dir: PathBuf,
    pub library_name: String,
    pub library_version: String,
    pub target_path: PathBuf,
    pub auto_path: PathBuf,
    pub doc_target_path: PathBuf,
    pub concurrency: Concurrency,
    pub generate_display_trait: bool,
    pub trust_return_value_nullability: bool,
    pub docs_rs_features: Vec<String>,
}

/// [`Options`] as a mathematical value, each path as its bytes.
pub struct OptionsView {
    pub work_mode: WorkMode,
    pub girs_dir: Seq<u8>,
    pub library_name: Seq<char>,
    pub library_version: Seq<char>,
    pub target_path: Seq<u8>,
    pub auto_path: Seq<u8>,
    pub doc_target_path: Seq<u8>,
    pub concurrency: Concurrency,
    pub generate_display_trait: bool,
    pub trust_return_value_nullability: bool,
    pub docs_rs_features: Seq<Seq<char>>,
}

impl View for Options {
    type V = OptionsView;

    open spec fn view(&self) -> OptionsView {
        OptionsView {
            work_mode: self.work_mode,
            girs_dir: owned_path_bytes(&self.girs_dir),
            library_name: self.library_name@,
            library_version: self.library_version@,
            target_path: owned_path_bytes(&self.target_path),
            auto_path: owned_path_bytes(&self.auto_path),
            doc_target_path: owned_path_bytes(&self.doc_target_path),
            concurrency: self.concurrency,
            generate_display_trait: self.generate_display_trait,
            trust_return_value_nullability: self.trust_return_value_nullability,
            docs_rs_features: texts(self.docs_rs_features@),
        }
    }
}

/// The arguments that take precedence over the configuration file.
#[derive(Clone, Copy, Debug)]
pub struct Arguments<'a> {
    pub work_mode: Option<WorkMode>,
    pub girs_dir: Option<&'a str>,
    pub library_name: Option<&'a str>,
    pub library_version: Option<&'a str>,
    pub target_path: Option<&'a str>,
    pub doc_target_path: Option<&'a str>,
}

/// What the configuration says before the types are read, or what is wrong
/// with the first option that is not in order. The options are taken in this
/// order: the work mode, the directory of the descriptions, the library and
/// its version, the target directory, the directory of the generated files,
/// that of the documentation, the concurrency, whether formatting
/// implementations are generated, whether annotations on absent values are
/// trusted, and the features of the published documentation.
pub open spec fn options_from(
    toml: Toml,
    config_file: Seq<char>,
    config_dir: Seq<u8>,
    args: Arguments<'_>,
) -> Result<OptionsView, Seq<char>> {
    match work_mode_from(toml, config_file, args.work_mode) {
        Err(e) => Err(e),
        Ok(work_mode) => match dir_from(
            toml,
            config_dir,
            text_of(args.girs_dir),
            "options.girs_dir"@,
            "No options.girs_dir"@,
        ) {
            Err(e) => Err(e),
            Ok(girs_dir) => match library_from(
                toml,
                text_of(args.library_name),
                text_of(args.library_version),
            ) {
                Err(e) => Err(e),
                Ok(library) => match dir_from(
                    toml,
                    config_dir,
                    text_of(args.target_path),
                    "options.target_path"@,
                    "No target path specified"@,
                ) {
                    Err(e) => Err(e),
                    Ok(target_path) => match auto_path_from(toml, target_path, work_mode) {
                        Err(e) => Err(e),
                        Ok(auto_path) => match doc_target_path_from(
                            toml,
                            config_dir,
                            target_path,
                            text_of(args.doc_target_path),
                        ) {
                            Err(e) => Err(e),
                            Ok(doc_target_path) => match concurrency_from(toml) {
                                Err(e) => Err(e),
                                Ok(concurrency) => match flag_at(
                                    toml,
                                    "options.generate_display_trait"@,
                                    true,
                                ) {
                                    Err(e) => Err(e),
                                    Ok(generate_display_trait) => match flag_at(
                                        toml,
                                        "options.trust_return_value_nullability"@,
                                        false,
                                    ) {
                                        Err(e) => Err(e),
                                        Ok(trust) => match docs_rs_features_from(toml) {
                                            Err(e) => Err(e),
                                            Ok(docs_rs_features) => Ok(
                                                OptionsView {
                                                    work_mode,
                                                    girs_dir,
                                                    library_name: library.0,
                                                    library_version: library.1,
                                                    target_path,
                                                    auto_path,
                                                    doc_target_path,
                                                    concurrency,
                                                    generate_display_trait,
                                                    trust_return_value_nullability: trust,
                                                    docs_rs_features,
                                                },
                                            ),
                                        },
                                    },
                                },
                            },
                        },
                    },
                },
            },
        },
    }
}

impl Options {
    /// Reads what the configuration says before the types are read.
    /// `config_file` names the file that the configuration was read from, and
    /// `config_dir` is the directory that it lies in.
    pub fn read(toml: &toml::Value, config_file: &str, config_dir: &Path, args: Arguments<'_>) -> (options:
        Result<Options, String>)
        ensures
            match options {
                Ok(o) => options_from(toml_of(toml), config_file@, path_bytes(config_dir), args)
                    == Ok::<OptionsView, Seq<char>>(o@),
                Err(e) => options_from(toml_of(toml), config_file@, path_bytes(config_dir), args)
                    == Err::<OptionsView, Seq<char>>(e@),
            },
    {
        let work_mode = match args.work_mode {
            Some(w) => w,
            None => {
                let s = match lookup_str(toml, "options.work_mode", "No options.work_mode") {
                    Ok(s) => s,
                    Err(e) => {
                        let mut message = "Invalid toml file \"".to_owned();
                        message.append(config_file);
                        message.append("\": ");
                        message.append(e.as_str());
                        return Err(message);
                    },
                };
                match WorkMode::from_name(s) {
                    Ok(w) => w,
                    Err(e) => {
                        return Err(e);
                    },
                }
            },
        };
        let girs_dir = match read_dir(
            toml,
            config_dir,
            args.girs_dir,
            "options.girs_dir",
            "No options.girs_dir",
        ) {
            Ok(d) => d,
            Err(e) => {
                return Err(e);
            },
        };
        let (library_name, library_version) = match read_library(
            toml,
            args.library_name,
            args.library_version,
        ) {
            Ok(l) => l,
            Err(e) => {
                return Err(e);
            },
        };
        let target_path = match read_dir(
            toml,
            config_dir,
            args.target_path,
            "options.target_path",
            "No target path specified",
        ) {
            Ok(d) => d,
            Err(e) => {
                return Err(e);
            },
        };
        let auto_path = match lookup(toml, "options.auto_path") {
            Some(p) => match as_result_str(p, "options.auto_path") {
                Ok(p) => join(as_path(&target_path), p),
                Err(e) => {
                    return Err(e);
                },
            },
            None => match work_mode {
                WorkMode::Normal => join(as_path(&join(as_path(&target_path), "src")), "auto"),
                _ => join(as_path(&target_path), "src"),
            },
        };
        let doc_target_path = match given(args.doc_target_path) {
            Some(p) => join(config_dir, p),
            None => match lookup(toml, "options.doc_target_path") {
                Some(p) => match as_result_str(p, "options.doc_target_path") {
                    Ok(p) => join(config_dir, p),
                    Err(e) => {
                        return Err(e);
                    },
                },
                None => join(as_path(&target_path), "vendor.md"),
            },
        };
        let concurrency = match lookup(toml, "options.concurrency") {
            Some(v) => match as_result_str(v, "options.concurrency") {
                Ok(name) => match Concurrency::from_name(name) {
                    Ok(c) => c,
                    Err(e) => {
                        return Err(e);
                    },
                },
                Err(e) => {
                    return Err(e);
                },
            },
            None => Concurrency::Nothing,
        };
        let generate_display_trait = match read_flag(toml, "options.generate_display_trait", true) {
            Ok(b) => b,
            Err(e) => {
                return Err(e);
            },
        };
        let trust_return_value_nullability = match read_flag(
            toml,
            "options.trust_return_value_nullability",
            false,
        ) {
            Ok(b) => b,
            Err(e) => {
                return Err(e);
            },
        };
        let docs_rs_features = match read_docs_rs_features(toml) {
            Ok(f) => f,
            Err(e) => {
                return Err(e);
            },
        };
        Ok(
            Options {
                work_mode,
                girs_dir,
                library_name,
                library_version,
                target_path,
                auto_path,
                doc_target_path,
                concurrency,
                generate_display_trait,
                trust_return_value_nullability,
                docs_rs_features,
            },
        )
    }
}

/// The least version that the configuration supports: what stands under
/// `options.min_cfg_version`, and the version zero without it.
pub open spec fn min_cfg_version_from(toml: Toml) -> Result<Version, Seq<char>> {
    match lookup_path(toml, "options.min_cfg_version"@) {
        None => Ok(Version(0, 0, 0)),
        Some(Toml::String(text)) => Ok(parse_version(text)),
        Some(other) => Err(invalid_value("options.min_cfg_version"@, "a string"@, other)),
    }
}

/// The file that lists the versions, if the configuration asks for one:
/// under `options.single_version_file`, `true` asks for the file at its usual
/// place and a string for the file at the place that the string names.
pub open spec fn single_version_file_from(toml: Toml, target_path: Seq<u8>) -> Result<
    Option<Seq<u8>>,
    Seq<char>,
> {
    match lookup_path(toml, "options.single_version_file"@) {
        None => Ok(None),
        Some(Toml::Boolean(false)) => Ok(None),
        Some(Toml::Boolean(true)) => Ok(Some(single_version_file_path(None, target_path))),
        Some(Toml::String(path)) => Ok(Some(single_version_file_path(Some(path), target_path))),
        Some(_) => Err("single_version_file must be bool or string path"@),
    }
}

/// Whether the generated code is left unformatted: the argument decides
/// where it says so, else what stands under `options.disable_format`, and
/// without that the code is left unformatted.
pub open spec fn disable_format_from(toml: Toml, arg: bool) -> Result<bool, Seq<char>> {
    if arg {
        Ok(true)
    } else {
        flag_at(toml, "options.disable_format"@, true)
    }
}

/// A configuration as a mathematical value, each path as its bytes.
pub struct ConfigView {
    pub work_mode: WorkMode,
    pub girs_dir: Seq<u8>,
    pub girs_version: Seq<char>,
    pub library_name: Seq<char>,
    pub library_version: Seq<char>,
    pub target_path: Seq<u8>,
    pub auto_path: Seq<u8>,
    pub doc_target_path: Seq<u8>,
    pub external_libraries: Seq<ExternalLibraryView>,
    pub objects: Map<Seq<char>, GObject>,
    pub min_cfg_version: Version,
    pub make_backup: bool,
    pub generate_safety_asserts: bool,
    pub deprecate_by_min_version: bool,
    pub show_statistics: bool,
    pub concurrency: Concurrency,
    pub single_version_file: Option<Seq<u8>>,
    pub generate_display_trait: bool,
    pub trust_return_value_nullability: bool,
    pub docs_rs_features: Seq<Seq<char>>,
    pub disable_format: bool,
    pub split_build_rs: bool,
    pub extra_versions: Seq<Version>,
    pub lib_version_overrides: Map<Version, Version>,
    pub feature_dependencies: Map<Version, Seq<Seq<char>>>,
}

impl View for Config {
    type V = ConfigView;

    open spec fn view(&self) -> ConfigView {
        ConfigView {
            work_mode: self.work_mode,
            girs_dir: owned_path_bytes(&self.girs_dir),
            girs_version: self.girs_version@,
            library_name: self.library_name@,
            library_version: self.library_version@,
            target_path: owned_path_bytes(&self.target_path),
            auto_path: owned_path_bytes(&self.auto_path),
            doc_target_path: owned_path_bytes(&self.doc_target_path),
            external_libraries: self.external_libraries@.map_values(|l: ExternalLibrary| l@),
            objects: self.objects@,
            min_cfg_version: self.min_cfg_version,
            make_backup: self.make_backup,
            generate_safety_asserts: self.generate_safety_asserts,
            deprecate_by_min_version: self.deprecate_by_min_version,
            show_statistics: self.show_statistics,
            concurrency: self.concurrency,
            single_version_file: match self.single_version_file {
                Some(file) => Some(owned_path_bytes(&file)),
                None => None,
            },
            generate_display_trait: self.generate_display_trait,
            trust_return_value_nullability: self.trust_return_value_nullability,
            docs_rs_features: texts(self.docs_rs_features@),
            disable_format: self.disable_format,
            split_build_rs: self.split_build_rs,
            extra_versions: self.extra_versions@,
            lib_version_overrides: self.lib_version_overrides@,
            feature_dependencies: texts_by_version(self.feature_dependencies@),
        }
    }
}

/// What comes to the configuration from outside the configuration file and
/// the arguments.
#[derive(Debug)]
pub struct Surroundings {
    /// The version of what the directory of the descriptions holds.
    pub girs_version: String,
    /// What the configuration says of the types.
    pub objects: GObjects,
    /// The external libraries, or what is wrong with how the configuration
    /// names them.
    pub external_libraries: Result<Vec<ExternalLibrary>, String>,
    pub make_backup: bool,
    pub show_statistics: bool,
    /// Whether the generated code is to be left unformatted whatever the
    /// configuration says.
    pub disable_format: bool,
}

/// The configuration of a run, or what is wrong with the first part of it
/// that is not in order. After the options that were read before the types
/// come the external libraries, the least version, whether safety assertions
/// are generated, whether items are deprecated by the least version, the file
/// that lists the versions, whether the generated code is left unformatted,
/// whether the build script is split, and the versions added, replaced and
/// depended on.
pub open spec fn config_from(
    toml: Toml,
    options: OptionsView,
    girs_version: Seq<char>,
    objects: Map<Seq<char>, GObject>,
    external_libraries: Result<Seq<ExternalLibraryView>, Seq<char>>,
    make_backup: bool,
    show_statistics: bool,
    disable_format: bool,
) -> Result<ConfigView, Seq<char>> {
    match external_libraries {
        Err(e) => Err(e),
        Ok(external_libraries) => match min_cfg_version_from(toml) {
            Err(e) => Err(e),
            Ok(min_cfg_version) => match flag_at(toml, "options.generate_safety_asserts"@, false) {
                Err(e) => Err(e),
                Ok(generate_safety_asserts) => match flag_at(
                    toml,
                    "options.deprecate_by_min_version"@,
                    false,
                ) {
                    Err(e) => Err(e),
                    Ok(deprecate_by_min_version) => match single_version_file_from(
                        toml,
                        options.target_path,
                    ) {
                        Err(e) => Err(e),
                        Ok(single_version_file) => match disable_format_from(toml, disable_format) {
                            Err(e) => Err(e),
                            Ok(disable_format) => match flag_at(
                                toml,
                                "options.split_build_rs"@,
                                false,
                            ) {
                                Err(e) => Err(e),
                                Ok(split_build_rs) => match extra_versions_of(toml) {
                                    Err(e) => Err(e),
                                    Ok(extra_versions) => match lib_version_overrides_of(toml) {
                                        Err(e) => Err(e),
                                        Ok(lib_version_overrides) => match feature_dependencies_of(
                                            toml,
                                        ) {
                                            Err(e) => Err(e),
                                            Ok(feature_dependencies) => Ok(
                                                ConfigView {
                                                    work_mode: options.work_mode,
                                                    girs_dir: options.girs_dir,
                                                    girs_version,
                                                    library_name: options.library_name,
                                                    library_version: options.library_version,
                                                    target_path: options.target_path,
                                                    auto_path: options.auto_path,
                                                    doc_target_path: options.doc_target_path,
                                                    external_libraries,
                                                    objects,
                                                    min_cfg_version,
                                                    make_backup,
                                                    generate_safety_asserts,
                                                    deprecate_by_min_version,
                                                    show_statistics,
                                                    concurrency: options.concurrency,
                                                    single_version_file,
                                                    generate_display_trait:
                                                        options.generate_display_trait,
                                                    trust_return_value_nullability:
                                                        options.trust_return_value_nullability,
                                                    docs_rs_features: options.docs_rs_features,
                                                    disable_format,
                                                    split_build_rs,
                                                    extra_versions,
                                                    lib_version_overrides,
                                                    feature_dependencies,
                                                },
                                            ),
                                        },
                                    },
                                },
                            },
                        },
                    },
                },
            },
        },
    }
}

/// The external libraries of a list, each as a mathematical value, or the
/// text of the error.
pub open spec fn libraries_view(libraries: Result<Vec<ExternalLibrary>, String>) -> Result<
    Seq<ExternalLibraryView>,
    Seq<char>,
> {
    match libraries {
        Ok(l) => Ok(l@.map_values(|l: ExternalLibrary| l@)),
        Err(e) => Err(e@),
    }
}

impl Config {
    /// Makes the configuration of a run from the options that were read
    /// before the types, from what came from outside, and from the rest of the
    /// configuration file.
    pub fn new(toml: &toml::Value, options: Options, surroundings: Surroundings) -> (config: Result<
        Config,
        String,
    >)
        ensures
            match config {
                Ok(c) => config_from(
                    toml_of(toml),
                    options@,
                    surroundings.girs_version@,
                    surroundings.objects@,
                    libraries_view(surroundings.external_libraries),
                    surroundings.make_backup,
                    surroundings.show_statistics,
                    surroundings.disable_format,
                ) == Ok::<ConfigView, Seq<char>>(c@),
                Err(e) => config_from(
                    toml_of(toml),
                    options@,
                    surroundings.girs_version@,
                    surroundings.objects@,
                    libraries_view(surroundings.external_libraries),
                    surroundings.make_backup,
                    surroundings.show_statistics,
                    surroundings.disable_format,
                ) == Err::<ConfigView, Seq<char>>(e@),
            },
    {
        let external_libraries = match surroundings.external_libraries {
            Ok(l) => l,
            Err(e) => {
                return Err(e);
            },
        };
        let min_cfg_version = match lookup(toml, "options.min_cfg_version") {
            Some(v) => match as_result_str(v, "options.min_cfg_version") {
                Ok(text) => Version::parse(text),
                Err(e) => {
                    return Err(e);
                },
            },
            None => Version(0, 0, 0),
        };
        let generate_safety_asserts = match read_flag(toml, "options.generate_safety_asserts", false) {
            Ok(b) => b,
            Err(e) => {
                return Err(e);
            },
        };
        let deprecate_by_min_version = match read_flag(
            toml,
            "options.deprecate_by_min_version",
            false,
        ) {
            Ok(b) => b,
            Err(e) => {
                return Err(e);
            },
        };
        let single_version_file = match lookup(toml, "options.single_version_file") {
            Some(v) => match value_as_bool(v) {
                Some(false) => None,
                Some(true) => Some(make_single_version_file(None, as_path(&options.target_path))),
                None => match value_as_str(v) {
                    Some(p) => Some(make_single_version_file(Some(p), as_path(&options.target_path))),
                    None => {
                        return Err("single_version_file must be bool or string path".to_owned());
                    },
                },
            },
            None => None,
        };
        let disable_format = if surroundings.disable_format {
            true
        } else {
            match read_flag(toml, "options.disable_format", true) {
                Ok(b) => b,
                Err(e) => {
                    return Err(e);
                },
            }
        };
        let split_build_rs = match read_flag(toml, "options.split_build_rs", false) {
            Ok(b) => b,
            Err(e) => {
                return Err(e);
            },
        };
        let extra_versions = match read_extra_versions(toml) {
            Ok(v) => v,
            Err(e) => {
                return Err(e);
            },
        };
        let lib_version_overrides = match read_lib_version_overrides(toml) {
            Ok(v) => v,
            Err(e) => {
                return Err(e);
            },
        };
        let feature_dependencies = match read_feature_dependencies(toml) {
            Ok(v) => v,
            Err(e) => {
                return Err(e);
            },
        };
        Ok(
            Config {
                work_mode: options.work_mode,
                girs_dir: options.girs_dir,
                girs_version: surroundings.girs_version,
                library_name: options.library_name,
                library_version: options.library_version,
                target_path: options.target_path,
                auto_path: options.auto_path,
                doc_target_path: options.doc_target_path,
                external_libraries,
                objects: surroundings.objects,
                min_cfg_version,
                make_backup: surroundings.make_backup,
                generate_safety_asserts,
                deprecate_by_min_version,
                show_statistics: surroundings.show_statistics,
                concurrency: options.concurrency,
                single_version_file,
                generate_display_trait: options.generate_display_trait,
                trust_return_value_nullability: options.trust_return_value_nullability,
                docs_rs_features: options.docs_rs_features,
                disable_format,
                split_build_rs,
                extra_versions,
                lib_version_overrides,
                feature_dependencies,
            },
        )
    }
}

/// The name of the configuration file: the one given, and `Gir.toml` where
/// none is given.
pub open spec fn config_file_name(arg: Option<Seq<char>>) -> Seq<char> {
    if is_given(arg) {
        arg->0
    } else {
        "Gir.toml"@
    }
}

/// The name of the configuration file.
pub fn config_file_of(arg: Option<&str>) -> (name: &str)
    ensures
        name@ == config_file_name(text_of(arg)),
{
    match given(arg) {
        Some(name) => name,
        None => "Gir.toml",
    }
}

/// The bytes of the directory that a file lies in: the path of the file
/// without its last component, and the empty path where there is none.
pub open spec fn config_dir_path(config_file: Seq<char>) -> Seq<u8> {
    match parent_path(encode_utf8(config_file)) {
        Some(dir) => dir,
        None => encode_utf8(Seq::empty()),
    }
}

/// The directory that the configuration file lies in.
pub fn config_dir_of(config_file: &str) -> (dir: PathBuf)
    ensures
        owned_path_bytes(&dir) == config_dir_path(config_file@),
{
    let file = path_from(config_file);
    match parent(as_path(&file)) {
        Some(dir) => to_path_buf(dir),
        None => {
            proof {
                reveal_strlit("");
                assert(""@ =~= Seq::<char>::empty());
            }
            path_from("")
        },
    }
}

} // verus!
