use gir::codegen::sys::cargo_toml::{
    can_fill_empty, can_fill_in, fill_empty, fill_in, generate, get_crate_name,
    get_feature_dependencies, Names,
    parse_manifest, print_manifest, set_string, try_fill_empty, try_fill_in, try_upsert_table,
    unset, upsert_table, CrateName,
};
use gir::text::is_blank;
use gir::config::config::{Arguments, Config, Options, Surroundings};
use gir::config::external_libraries::ExternalLibrary;
use gir::config::gobjects::GObjects;
use gir::version::Version;
use gir::version_map::VersionMap;
use std::path::Path;
use toml::value::Table;

fn table(text: &str) -> Table {
    toml::from_str(text).unwrap()
}

fn config(lines: &str) -> Config {
    let text = format!(
        "[options]\nwork_mode = \"sys\"\ngirs_dir = \"g\"\nlibrary = \"Gtk\"\nversion = \"3.0\"\n\
         target_path = \"t\"\n{}\n",
        lines
    );
    let toml: toml::Value = toml::from_str(&text).unwrap();
    let args = Arguments {
        work_mode: None,
        girs_dir: None,
        library_name: None,
        library_version: None,
        target_path: None,
        doc_target_path: None,
    };
    let options = Options::read(&toml, "Gir.toml", Path::new(""), args).unwrap();
    let around = Surroundings {
        girs_version: "1".to_owned(),
        objects: GObjects::new(),
        external_libraries: Ok(Vec::new()),
        make_backup: false,
        show_statistics: false,
        disable_format: true,
    };
    Config::new(&toml, options, around).unwrap()
}

fn library(crate_name: &str) -> ExternalLibrary {
    ExternalLibrary { namespace: crate_name.to_uppercase(), crate_name: crate_name.to_owned() }
}

#[test]
fn feature_dependencies_of_a_version() {
    let mut configured: VersionMap<Vec<String>> = VersionMap::new();
    configured.insert(Version(3, 16, 0), vec!["glib/v2_44".to_owned(), "x".to_owned()]);
    assert_eq!(
        get_feature_dependencies(Version(3, 16, 0), Some(Version(3, 14, 0)), &configured),
        vec!["v3_14", "glib/v2_44", "x"]
    );
    assert_eq!(
        get_feature_dependencies(Version(3, 16, 0), None, &configured),
        vec!["glib/v2_44", "x"]
    );
    assert_eq!(
        get_feature_dependencies(Version(3, 18, 0), Some(Version(3, 16, 0)), &configured),
        vec!["v3_16"]
    );
    assert!(get_feature_dependencies(Version(3, 18, 0), None, &configured).is_empty());
}

#[test]
fn crate_name_comes_from_lib_then_package() {
    let both = table("[lib]\nname = \"gtk_sys\"\n[package]\nname = \"gtk-sys\"\n");
    assert!(matches!(get_crate_name(&both), CrateName::Lib(n) if n == "gtk_sys"));
    let package = table("[lib]\npath = \"x\"\n[package]\nname = \"gtk-sys\"\n");
    assert!(matches!(get_crate_name(&package), CrateName::Package(n) if n == "gtk-sys"));
    let odd = table("lib = 3\n[package]\nname = 4\n");
    assert!(matches!(get_crate_name(&odd), CrateName::Library));
    assert!(matches!(get_crate_name(&Table::new()), CrateName::Library));
    let lib_name_no_string = table("[lib]\nname = 1\n[package]\nname = \"p\"\n");
    assert!(matches!(get_crate_name(&lib_name_no_string), CrateName::Package(n) if n == "p"));
}

#[test]
fn set_string_unset_and_upsert() {
    let mut root = table("keep = 1\n[package]\nname = \"old\"\n");
    set_string(&mut root, "edition", "2018");
    set_string(&mut root, "keep", "now a string");
    unset(&mut root, "missing");
    {
        let package = upsert_table(&mut root, "package");
        set_string(package, "version", "1.0");
        unset(package, "name");
    }
    {
        let features = upsert_table(&mut root, "features");
        assert!(features.is_empty());
        let inner = upsert_table(features, "inner");
        set_string(inner, "a", "b");
    }
    assert_eq!(
        root,
        table(
            "keep = \"now a string\"\nedition = \"2018\"\n[package]\nversion = \"1.0\"\n\
             [features.inner]\na = \"b\"\n"
        )
    );
}

#[test]
fn fill_empty_writes_package_lib_and_dependencies() {
    let mut root = Table::new();
    let libs = vec![
        library("glib"),
        library("cairo"),
        library("gdk_pixbuf"),
        library("sourceview"),
        library("gtk_sourceview"),
    ];
    assert!(can_fill_empty(&root, &libs));
    fill_empty(&mut root, "gtk_sys", "gtk-sys", "gtk-3", &libs);
    let expected = table(
        r#"
[package]
name = "gtk-sys"
version = "0.0.1"
links = "gtk-3"
edition = "2018"

[lib]
name = "gtk_sys"

[dependencies.glib-sys]
git = "https://github.com/gtk-rs/sys"

[dependencies.cairo-sys-rs]
git = "https://github.com/gtk-rs/cairo"

[dependencies.gdk-pixbuf-sys]
git = "https://github.com/gtk-rs/sys"

[dependencies.sourceview-sys]
git = "https://github.com/gtk-rs/sourceview"

[dependencies.gtk_sourceview-sys]
git = "https://github.com/gtk-rs/sys"
"#,
    );
    assert_eq!(root, expected);
}

#[test]
fn fill_empty_keeps_what_is_there() {
    let mut root = table(
        "[package]\nname = \"old\"\nauthors = [\"me\"]\n[dependencies]\nlibc = \"0.2\"\n\
         [dependencies.glib-sys]\npath = \"../glib\"\ngit = \"old\"\n",
    );
    let libs = vec![library("glib")];
    assert!(can_fill_empty(&root, &libs));
    fill_empty(&mut root, "c", "p", "l", &libs);
    let expected = table(
        "[package]\nname = \"p\"\nauthors = [\"me\"]\nversion = \"0.0.1\"\nlinks = \"l\"\n\
         edition = \"2018\"\n[lib]\nname = \"c\"\n[dependencies]\nlibc = \"0.2\"\n\
         [dependencies.glib-sys]\npath = \"../glib\"\ngit = \"https://github.com/gtk-rs/sys\"\n",
    );
    assert_eq!(root, expected);
}

#[test]
fn can_fill_empty_sees_what_is_in_the_way() {
    let libs = vec![library("glib")];
    assert!(!can_fill_empty(&table("package = 1\n"), &libs));
    assert!(!can_fill_empty(&table("lib = \"x\"\n"), &libs));
    assert!(!can_fill_empty(&table("dependencies = []\n"), &libs));
    assert!(!can_fill_empty(&table("[dependencies]\nglib-sys = \"0.1\"\n"), &libs));
    assert!(can_fill_empty(&table("[dependencies]\nglib-sys = \"0.1\"\n"), &Vec::new()));
    assert!(can_fill_empty(&table("[dependencies]\ngtk-sys = \"0.1\"\n"), &libs));
}

fn versions() -> VersionMap<Version> {
    let mut versions = VersionMap::new();
    versions.insert(Version(3, 16, 0), Version(3, 16, 2));
    versions.insert(Version(3, 14, 0), Version(3, 14, 0));
    versions.insert(Version(3, 20, 1), Version(3, 20, 1));
    versions
}

#[test]
fn fill_in_writes_the_whole_manifest() {
    let config = config(
        "min_cfg_version = \"3.14\"\ndocs_rs_features = [\"extra\"]\n\
         [[feature_dependencies]]\nversion = \"3.16\"\ndependencies = [\"glib-sys/v2_44\"]\n",
    );
    let mut root = Table::new();
    assert!(can_fill_in(&root, &config, &versions(), "gtk___3_0"));
    fill_in(&mut root, &config, &versions(), "gtk+-3.0", "gtk___3_0");
    let expected = table(
        r#"
[package]
build = "build.rs"

[package.metadata.system-deps.gtk___3_0]
name = "gtk+-3.0"
version = "3.14"

[package.metadata.system-deps.gtk___3_0.v3_16]
version = "3.16.2"

[package.metadata.system-deps.gtk___3_0.v3_20_1]
version = "3.20.1"

[package.metadata.docs.rs]
features = ["extra", "dox"]

[dependencies]
libc = "0.2"

[build-dependencies]
system-deps = "2.0"

[dev-dependencies]
shell-words = "1.0.0"
tempfile = "3"

[features]
v3_14 = []
v3_16 = ["v3_14", "glib-sys/v2_44"]
v3_20_1 = ["v3_16"]
dox = []
"#,
    );
    assert_eq!(root, expected);
}

#[test]
fn fill_in_keeps_what_was_set_by_hand() {
    let config = config("min_cfg_version = \"3.0\"");
    let mut root = table(
        r#"
[package]
name = "gtk-sys"
build = "other.rs"

[package.metadata.system-deps.gtk]
name = "gtk-by-hand"
version = "1.2.3"
feature-versions = { v3_16 = "3.16" }

[package.metadata.system-deps.gtk.v3_16]
version = "by-hand"
extra = true

[package.metadata.docs.rs]
features = ["old"]
targets = ["x"]

[dev-dependencies]
tempdir = "0.3"
other = "1"

[features]
old = ["x"]
dox = ["y"]
v3_14 = ["by-hand"]
"#,
    );
    assert!(can_fill_in(&root, &config, &versions(), "gtk"));
    fill_in(&mut root, &config, &versions(), "gtk+-3.0", "gtk");
    let expected = table(
        r#"
[package]
name = "gtk-sys"
build = "build.rs"

[package.metadata.system-deps.gtk]
name = "gtk-by-hand"
version = "1.2.3"

[package.metadata.system-deps.gtk.v3_14]
version = "3.14"

[package.metadata.system-deps.gtk.v3_16]
version = "by-hand"
extra = true

[package.metadata.system-deps.gtk.v3_20_1]
version = "3.20.1"

[package.metadata.docs.rs]
features = ["dox"]
targets = ["x"]

[dependencies]
libc = "0.2"

[build-dependencies]
system-deps = "2.0"

[dev-dependencies]
other = "1"
shell-words = "1.0.0"
tempfile = "3"

[features]
old = ["x"]
v3_14 = []
v3_16 = ["v3_14"]
v3_20_1 = ["v3_16"]
dox = []
"#,
    );
    assert_eq!(root, expected);
}

#[test]
fn can_fill_in_sees_what_is_in_the_way() {
    let config = config("min_cfg_version = \"3.14\"");
    let in_the_way = [
        "package = 1\n",
        "dependencies = 1\n",
        "build-dependencies = 1\n",
        "dev-dependencies = 1\n",
        "features = 1\n",
        "[package]\nmetadata = 1\n",
        "[package.metadata]\nsystem-deps = 1\n",
        "[package.metadata]\ndocs = 1\n",
        "[package.metadata.system-deps]\ngtk = 1\n",
        "[package.metadata.docs]\nrs = 1\n",
        "[package.metadata.system-deps.gtk]\nv3_16 = \"3.16\"\n",
        "[package.metadata.system-deps.gtk]\nv3_20_1 = 1\n",
    ];
    for text in in_the_way {
        assert!(!can_fill_in(&table(text), &config, &versions(), "gtk"), "{}", text);
    }
    let fine = [
        "",
        "[package.metadata.system-deps.gtk]\nv3_14 = \"not later than the least version\"\n",
        "[package.metadata.system-deps.other]\nv3_16 = 1\n",
        "[package.metadata.system-deps.gtk.v3_16]\nversion = 1\n",
        "lib = 1\n",
    ];
    for text in fine {
        assert!(can_fill_in(&table(text), &config, &versions(), "gtk"), "{}", text);
    }
}

#[test]
fn manifest_is_read_and_written() {
    let root = parse_manifest("[package]\nname = \"gtk-sys\"\n");
    assert_eq!(root, table("[package]\nname = \"gtk-sys\"\n"));
    assert!(parse_manifest("[package\n").is_empty());
    assert!(parse_manifest("").is_empty());
    let text = print_manifest(&root).unwrap();
    assert_eq!(text, "[package]\nname = \"gtk-sys\"\n");
    assert_eq!(parse_manifest(&text), root);
    assert_eq!(print_manifest(&Table::new()).unwrap(), "");
    let value_after_table = table("z = 1\n[a]\nb = 1\n");
    assert!(print_manifest(&value_after_table).is_none());
}

#[test]
fn try_variants_leave_the_manifest_when_it_does_not_fit() {
    let mut root = table("package = 1\nother = 2\n");
    let before = root.clone();
    assert!(try_upsert_table(&mut root, "package").is_none());
    assert_eq!(root, before);
    assert!(!try_fill_empty(&mut root, "c", "p", "l", &Vec::new()));
    assert_eq!(root, before);
    assert!(!try_fill_in(&mut root, &config(""), &versions(), "gtk", "gtk"));
    assert_eq!(root, before);

    let mut root = table("other = 2\n");
    {
        let inner = try_upsert_table(&mut root, "package").unwrap();
        set_string(inner, "name", "n");
    }
    assert_eq!(root, table("other = 2\n[package]\nname = \"n\"\n"));
    assert!(try_fill_empty(&mut root, "c", "p", "l", &Vec::new()));
    assert_eq!(
        root,
        table(
            "other = 2\n[package]\nname = \"p\"\nversion = \"0.0.1\"\nlinks = \"l\"\n\
             edition = \"2018\"\n[lib]\nname = \"c\"\n[dependencies]\n"
        )
    );
    let mut filled = Table::new();
    assert!(try_fill_in(&mut filled, &config(""), &VersionMap::new(), "gtk", "gtk"));
    let mut plain = Table::new();
    fill_in(&mut plain, &config(""), &VersionMap::new(), "gtk", "gtk");
    assert_eq!(filled, plain);
    assert_eq!(
        plain["package"]["metadata"]["system-deps"]["gtk"],
        toml::Value::Table(table("name = \"gtk\"\nversion = \"0\"\n"))
    );
}

fn names() -> Names<'static> {
    Names {
        crate_name: "gtk_sys",
        package_name: "gtk-sys",
        links: "gtk-3",
        lib_name: "gtk+-3.0",
        lib_table_name: "gtk___3_0",
    }
}

#[test]
fn generate_fills_a_blank_manifest_in_full() {
    let config = config("min_cfg_version = \"3.14\"");
    let text = generate(" \n\t", &config, &versions(), names()).unwrap();
    let mut expected = Table::new();
    fill_empty(&mut expected, "gtk_sys", "gtk-sys", "gtk-3", &Vec::new());
    fill_in(&mut expected, &config, &versions(), "gtk+-3.0", "gtk___3_0");
    assert_eq!(table(&text), expected);
    assert_eq!(expected["package"]["name"].as_str(), Some("gtk-sys"));
    assert_eq!(expected["lib"]["name"].as_str(), Some("gtk_sys"));
    assert_eq!(expected["package"]["build"].as_str(), Some("build.rs"));
}

#[test]
fn generate_only_fills_in_a_manifest_that_is_there() {
    let config = config("min_cfg_version = \"3.14\"");
    let existing = "[package]\nname = \"by-hand\"\n";
    let text = generate(existing, &config, &versions(), names()).unwrap();
    let mut expected = table(existing);
    fill_in(&mut expected, &config, &versions(), "gtk+-3.0", "gtk___3_0");
    assert_eq!(table(&text), expected);
    assert_eq!(expected["package"]["name"].as_str(), Some("by-hand"));
    assert!(expected.get("lib").is_none());
}

#[test]
fn generate_gives_up_on_what_does_not_fit() {
    let config = config("");
    assert_eq!(generate("features = 1\n", &config, &versions(), names()), None);
    assert_eq!(generate("top = 1\n", &config, &versions(), names()), None);
    let unreadable = generate("[package\n", &config, &versions(), names()).unwrap();
    let mut expected = Table::new();
    fill_in(&mut expected, &config, &versions(), "gtk+-3.0", "gtk___3_0");
    assert_eq!(table(&unreadable), expected);
}

#[test]
fn blank_texts() {
    assert!(is_blank(""));
    assert!(is_blank(" \n\t\r "));
    assert!(!is_blank(" x "));
    assert!(!is_blank("#"));
}
