use gir::config::config::{
    config_dir_of, config_file_of, make_single_version_file, read_crate_name_overrides,
    read_extra_versions, read_feature_dependencies, read_lib_version_overrides, read_strings,
    read_toml, Arguments, Config, Options, Surroundings,
};
use gir::config::external_libraries::ExternalLibrary;
use gir::config::gobjects::{GObject, GObjects, GStatus};
use gir::config::work_mode::WorkMode;
use gir::library::{Concurrency, Library, Namespace, TypeId};
use gir::version::Version;
use gir::version_map::VersionMap;
use std::path::{Path, PathBuf};

fn parse(text: &str) -> toml::Value {
    toml::from_str(text).unwrap()
}

fn no_arguments() -> Arguments<'static> {
    Arguments {
        work_mode: None,
        girs_dir: None,
        library_name: None,
        library_version: None,
        target_path: None,
        doc_target_path: None,
    }
}

fn surroundings() -> Surroundings {
    Surroundings {
        girs_version: "abc123".to_owned(),
        objects: GObjects::new(),
        external_libraries: Ok(Vec::new()),
        make_backup: false,
        show_statistics: false,
        disable_format: false,
    }
}

const MINIMAL: &str = r#"
[options]
work_mode = "normal"
girs_dir = "gir-files"
library = "Gtk"
version = "3.0"
target_path = "out"
"#;

fn minimal_options(toml: &toml::Value) -> Options {
    Options::read(toml, "conf/Gir.toml", Path::new("conf"), no_arguments()).unwrap()
}

fn config_with(min_cfg_version: Version, disable_format: bool) -> Config {
    let toml = parse(MINIMAL);
    let mut config = Config::new(&toml, minimal_options(&toml), surroundings()).unwrap();
    config.min_cfg_version = min_cfg_version;
    config.disable_format = disable_format;
    config
}

#[test]
fn test_make_single_version_file() {
    let target_path = Path::new("/tmp/glib");
    assert_eq!(
        make_single_version_file(None, &target_path),
        PathBuf::from("/tmp/glib/src/auto/versions.txt")
    );
    assert_eq!(
        make_single_version_file(Some(""), &target_path),
        PathBuf::from("/tmp/glib/src/auto/versions.txt")
    );
    assert_eq!(
        make_single_version_file(Some("src"), &target_path),
        PathBuf::from("/tmp/glib/src/versions.txt")
    );
    assert_eq!(
        make_single_version_file(Some("src/vers.txt"), &target_path),
        PathBuf::from("/tmp/glib/src/vers.txt")
    );
    assert_eq!(
        make_single_version_file(Some("."), &target_path),
        PathBuf::from("/tmp/glib/versions.txt")
    );
    assert_eq!(
        make_single_version_file(Some("./_vers.dat"), &target_path),
        PathBuf::from("/tmp/glib/_vers.dat")
    );
}

#[test]
fn library_full_name_joins_with_a_hyphen() {
    let config = config_with(Version(0, 0, 0), true);
    assert_eq!(config.library_full_name(), "Gtk-3.0");
}

#[test]
fn filter_version_keeps_only_later_versions() {
    let config = config_with(Version(3, 10, 0), true);
    assert_eq!(config.filter_version(None), None);
    assert_eq!(config.filter_version(Some(Version(3, 10, 0))), None);
    assert_eq!(config.filter_version(Some(Version(3, 9, 9))), None);
    assert_eq!(config.filter_version(Some(Version(2, 99, 0))), None);
    assert_eq!(config.filter_version(Some(Version(3, 10, 1))), Some(Version(3, 10, 1)));
    assert_eq!(config.filter_version(Some(Version(4, 0, 0))), Some(Version(4, 0, 0)));
}

#[test]
fn check_disable_format_gives_up_without_a_formatter() {
    let mut config = config_with(Version(0, 0, 0), false);
    assert!(!config.check_disable_format(true));
    assert!(!config.disable_format);
    assert!(config.check_disable_format(false));
    assert!(config.disable_format);
    assert!(!config.check_disable_format(false));
    assert!(config.disable_format);
    assert!(!config.check_disable_format(true));
    assert!(config.disable_format);
    assert_eq!(config.library_name, "Gtk");
}

#[test]
fn resolve_type_ids_looks_up_each_object() {
    let library = Library {
        namespaces: vec![
            Namespace { name: "*".to_owned(), type_names: vec!["none".to_owned(), "utf8".to_owned()] },
            Namespace {
                name: "Gtk".to_owned(),
                type_names: vec!["Widget".to_owned(), "Button".to_owned(), "Widget".to_owned()],
            },
        ],
    };
    let mut config = config_with(Version(0, 0, 0), true);
    for name in ["Gtk.Button", "Gtk.Label", "Gdk.Window", "utf8", "Gtk.Widget"] {
        let mut object = GObject::default();
        object.name = name.to_owned();
        object.status = GStatus::Generate;
        object.type_id = Some(TypeId { ns_id: 9, id: 9 });
        config.objects.insert(name.to_owned(), object);
    }
    config.resolve_type_ids(&library);
    assert_eq!(config.objects.len(), 5);
    assert_eq!(config.objects.get("Gtk.Button").unwrap().type_id, Some(TypeId { ns_id: 1, id: 1 }));
    assert_eq!(config.objects.get("Gtk.Widget").unwrap().type_id, Some(TypeId { ns_id: 1, id: 0 }));
    assert_eq!(config.objects.get("Gtk.Label").unwrap().type_id, None);
    assert_eq!(config.objects.get("Gdk.Window").unwrap().type_id, None);
    assert_eq!(config.objects.get("utf8").unwrap().type_id, Some(TypeId { ns_id: 0, id: 1 }));
    assert_eq!(config.objects.get("Gtk.Button").unwrap().status, GStatus::Generate);
    assert_eq!(config.objects.get("Gtk.Button").unwrap().name, "Gtk.Button");
}

#[test]
fn library_find_type_follows_namespaces() {
    let library = Library {
        namespaces: vec![
            Namespace { name: "*".to_owned(), type_names: vec!["utf8".to_owned()] },
            Namespace { name: "Gtk".to_owned(), type_names: vec!["Widget".to_owned()] },
            Namespace { name: "Gdk".to_owned(), type_names: vec!["Window".to_owned(), "utf8".to_owned()] },
        ],
    };
    assert_eq!(library.find_type(1, "Widget"), Some(TypeId { ns_id: 1, id: 0 }));
    assert_eq!(library.find_type(2, "Widget"), None);
    assert_eq!(library.find_type(2, "Gtk.Widget"), Some(TypeId { ns_id: 1, id: 0 }));
    assert_eq!(library.find_type(1, "utf8"), Some(TypeId { ns_id: 0, id: 0 }));
    assert_eq!(library.find_type(2, "utf8"), Some(TypeId { ns_id: 2, id: 1 }));
    assert_eq!(library.find_type(7, "utf8"), Some(TypeId { ns_id: 0, id: 0 }));
    assert_eq!(library.find_type(0, "Gdk.Window"), Some(TypeId { ns_id: 2, id: 0 }));
    assert_eq!(library.find_type(0, "Gdk.Nothing"), None);
    assert_eq!(library.find_type(0, "Nowhere.Window"), None);
    assert_eq!(library.find_type(0, "Gdk.Window.X"), None);
    assert_eq!(library.find_type(0, ""), None);
}

#[test]
fn work_mode_and_concurrency_names() {
    assert_eq!(WorkMode::from_name("normal"), Ok(WorkMode::Normal));
    assert_eq!(WorkMode::from_name("sys"), Ok(WorkMode::Sys));
    assert_eq!(WorkMode::from_name("doc"), Ok(WorkMode::Doc));
    assert_eq!(WorkMode::from_name("not_bound"), Ok(WorkMode::DisplayNotBound));
    assert_eq!(WorkMode::from_name("Sys"), Err("Wrong work mode 'Sys'".to_owned()));
    assert_eq!(WorkMode::default(), WorkMode::Normal);
    assert_eq!(Concurrency::from_name("none"), Ok(Concurrency::Nothing));
    assert_eq!(Concurrency::from_name("send"), Ok(Concurrency::Send));
    assert_eq!(Concurrency::from_name("send-unique"), Ok(Concurrency::SendUnique));
    assert_eq!(Concurrency::from_name("send+sync"), Ok(Concurrency::SendSync));
    assert_eq!(
        Concurrency::from_name("sync"),
        Err("Unknown concurrency kind 'sync'".to_owned())
    );
    assert_eq!(Concurrency::default(), Concurrency::Nothing);
}

#[test]
fn read_toml_reads_or_says_what_is_wrong() {
    let value = read_toml("Gir.toml", b"[options]\nlibrary = \"Gtk\"\n").unwrap();
    assert_eq!(value["options"]["library"].as_str(), Some("Gtk"));
    let error = read_toml("conf/Gir.toml", b"[options\n").unwrap_err();
    let cause = toml::from_slice::<toml::Value>(b"[options\n").unwrap_err().to_string();
    assert_eq!(error, format!("Invalid toml format in \"conf/Gir.toml\": {}", cause));
    assert!(read_toml("x", &[0xff, 0xfe]).is_err());
}

#[test]
fn crate_name_overrides_are_the_string_entries() {
    let toml = parse("[crate_name_overrides]\ngdk_pixbuf = \"gdk-pixbuf\"\ncairo = \"cairo-rs\"\nodd = 3\n");
    let overrides = read_crate_name_overrides(&toml);
    assert_eq!(overrides.len(), 2);
    assert_eq!(overrides.get("gdk_pixbuf").unwrap(), "gdk-pixbuf");
    assert_eq!(overrides.get("cairo").unwrap(), "cairo-rs");
    assert!(overrides.get("odd").is_none());
    assert!(read_crate_name_overrides(&parse("[options]\n")).is_empty());
    assert!(read_crate_name_overrides(&parse("crate_name_overrides = 3\n")).is_empty());
}

#[test]
fn read_strings_wants_strings_only() {
    let toml = parse("a = [\"x\", \"y\"]\nb = [\"x\", 1]\nc = []\n");
    assert_eq!(
        read_strings(toml["a"].as_array().unwrap()),
        Some(vec!["x".to_owned(), "y".to_owned()])
    );
    assert_eq!(read_strings(toml["b"].as_array().unwrap()), None);
    assert_eq!(read_strings(toml["c"].as_array().unwrap()), Some(Vec::new()));
}

#[test]
fn extra_versions_are_read_in_order() {
    let toml = parse("[options]\nextra_versions = [\"3.15\", \"3.2.1\", \"x\"]\n");
    assert_eq!(
        read_extra_versions(&toml),
        Ok(vec![Version(3, 15, 0), Version(3, 2, 1), Version(0, 0, 0)])
    );
    assert_eq!(read_extra_versions(&parse("[options]\n")), Ok(Vec::new()));
    assert_eq!(
        read_extra_versions(&parse("[options]\nextra_versions = [\"3.15\", 3]\n")),
        Err("options.extra_versions expected to be array of string".to_owned())
    );
    assert_eq!(
        read_extra_versions(&parse("[options]\nextra_versions = \"3.15\"\n")),
        Err("Invalid `options.extra_versions` value, expected a array, found string".to_owned())
    );
}

#[test]
fn lib_version_overrides_take_the_last_entry() {
    let toml = parse(
        "[[lib_version_overrides]]\nversion = \"3.16\"\nlib_version = \"3.16.1\"\n\
         [[lib_version_overrides]]\nversion = \"2.0\"\nlib_version = \"2.0.5\"\n\
         [[lib_version_overrides]]\nversion = \"3.16\"\nlib_version = \"3.16.2\"\n",
    );
    let map = read_lib_version_overrides(&toml).unwrap();
    assert_eq!(map.len(), 2);
    assert_eq!(map.get(&Version(3, 16, 0)), Some(&Version(3, 16, 2)));
    assert_eq!(map.get(&Version(2, 0, 0)), Some(&Version(2, 0, 5)));
    assert_eq!(read_lib_version_overrides(&parse("[options]\n")).unwrap().len(), 0);
}

#[test]
fn lib_version_overrides_errors() {
    let missing_version = parse("[[lib_version_overrides]]\nlib_version = \"3.16.1\"\n");
    assert_eq!(
        read_lib_version_overrides(&missing_version).unwrap_err(),
        "No version in lib_version_overrides"
    );
    let missing_lib = parse(
        "[[lib_version_overrides]]\nversion = \"1\"\nlib_version = \"1\"\n\
         [[lib_version_overrides]]\nversion = \"3.16\"\n",
    );
    assert_eq!(
        read_lib_version_overrides(&missing_lib).unwrap_err(),
        "No lib_version in lib_version_overrides"
    );
    let wrong_kind = parse("[[lib_version_overrides]]\nversion = 3\nlib_version = \"3\"\n");
    assert_eq!(
        read_lib_version_overrides(&wrong_kind).unwrap_err(),
        "Invalid `version` value, expected a string, found integer"
    );
    let no_array = parse("lib_version_overrides = true\n");
    assert_eq!(
        read_lib_version_overrides(&no_array).unwrap_err(),
        "Invalid `lib_version_overrides` value, expected a array, found boolean"
    );
}

#[test]
fn feature_dependencies_are_read_by_version() {
    let toml = parse(
        "[[feature_dependencies]]\nversion = \"3.16\"\ndependencies = [\"glib/v2_44\"]\n\
         [[feature_dependencies]]\nversion = \"3.20\"\ndependencies = []\n\
         [[feature_dependencies]]\nversion = \"3.16\"\ndependencies = [\"a\", \"b\"]\n",
    );
    let map = read_feature_dependencies(&toml).unwrap();
    assert_eq!(map.len(), 2);
    assert_eq!(map.get(&Version(3, 16, 0)), Some(&vec!["a".to_owned(), "b".to_owned()]));
    assert_eq!(map.get(&Version(3, 20, 0)), Some(&Vec::new()));
    assert_eq!(read_feature_dependencies(&parse("[options]\n")).unwrap().len(), 0);
}

#[test]
fn feature_dependencies_errors() {
    let cases = [
        ("[[feature_dependencies]]\ndependencies = []\n", "No version in feature_dependencies"),
        ("[[feature_dependencies]]\nversion = \"1\"\n", "No dependencies in feature_dependencies"),
        (
            "[[feature_dependencies]]\nversion = \"1\"\ndependencies = \"a\"\n",
            "Invalid `dependencies` value, expected a array, found string",
        ),
        (
            "[[feature_dependencies]]\nversion = \"1\"\ndependencies = [\"a\", 2]\n",
            "feature_dependencies.dependencies expected to be array of string",
        ),
        (
            "[feature_dependencies]\nversion = \"1\"\n",
            "Invalid `feature_dependencies` value, expected a array, found table",
        ),
    ];
    for (text, message) in cases {
        assert_eq!(read_feature_dependencies(&parse(text)).unwrap_err(), message);
    }
}

#[test]
fn config_file_and_directory() {
    assert_eq!(config_file_of(None), "Gir.toml");
    assert_eq!(config_file_of(Some("")), "Gir.toml");
    assert_eq!(config_file_of(Some("conf/my.toml")), "conf/my.toml");
    assert_eq!(config_dir_of("conf/my.toml"), PathBuf::from("conf"));
    assert_eq!(config_dir_of("/etc/gir/my.toml"), PathBuf::from("/etc/gir"));
    assert_eq!(config_dir_of("Gir.toml"), PathBuf::new());
    assert_eq!(config_dir_of("/"), PathBuf::new());
}

#[test]
fn options_from_the_file() {
    let toml = parse(MINIMAL);
    let options = minimal_options(&toml);
    assert_eq!(options.work_mode, WorkMode::Normal);
    assert_eq!(options.girs_dir, PathBuf::from("conf/gir-files"));
    assert_eq!(options.library_name, "Gtk");
    assert_eq!(options.library_version, "3.0");
    assert_eq!(options.target_path, PathBuf::from("conf/out"));
    assert_eq!(options.auto_path, PathBuf::from("conf/out/src/auto"));
    assert_eq!(options.doc_target_path, PathBuf::from("conf/out/vendor.md"));
    assert_eq!(options.concurrency, Concurrency::Nothing);
    assert!(options.generate_display_trait);
    assert!(!options.trust_return_value_nullability);
    assert!(options.docs_rs_features.is_empty());
}

#[test]
fn options_from_the_arguments() {
    let toml = parse(
        "[options]\nwork_mode = \"normal\"\nauto_path = \"gen\"\ndoc_target_path = \"docs.md\"\n\
         concurrency = \"send+sync\"\ngenerate_display_trait = false\n\
         trust_return_value_nullability = true\ndocs_rs_features = [\"v3_20\", \"x\"]\n",
    );
    let args = Arguments {
        work_mode: Some(WorkMode::Sys),
        girs_dir: Some("/girs"),
        library_name: Some("Gdk"),
        library_version: Some("4.0"),
        target_path: Some("/target"),
        doc_target_path: Some("my.md"),
    };
    let options = Options::read(&toml, "Gir.toml", Path::new(""), args).unwrap();
    assert_eq!(options.work_mode, WorkMode::Sys);
    assert_eq!(options.girs_dir, PathBuf::from("/girs"));
    assert_eq!(options.library_name, "Gdk");
    assert_eq!(options.library_version, "4.0");
    assert_eq!(options.target_path, PathBuf::from("/target"));
    assert_eq!(options.auto_path, PathBuf::from("/target/gen"));
    assert_eq!(options.doc_target_path, PathBuf::from("my.md"));
    assert_eq!(options.concurrency, Concurrency::SendSync);
    assert!(!options.generate_display_trait);
    assert!(options.trust_return_value_nullability);
    assert_eq!(options.docs_rs_features, vec!["v3_20", "x"]);

    let mut sys = no_arguments();
    sys.work_mode = Some(WorkMode::Sys);
    let options = Options::read(&parse(MINIMAL), "Gir.toml", Path::new("c"), sys).unwrap();
    assert_eq!(options.auto_path, PathBuf::from("c/out/src"));
    let mut doc = no_arguments();
    doc.doc_target_path = Some("");
    let toml = parse(&format!("{}doc_target_path = \"d.md\"\n", MINIMAL));
    let options = Options::read(&toml, "Gir.toml", Path::new("c"), doc).unwrap();
    assert_eq!(options.doc_target_path, PathBuf::from("c/d.md"));
}

fn options_error(text: &str, args: Arguments<'_>) -> String {
    Options::read(&parse(text), "conf/Gir.toml", Path::new("conf"), args).unwrap_err()
}

#[test]
fn options_errors_come_in_order() {
    assert_eq!(
        options_error("[options]\n", no_arguments()),
        "Invalid toml file \"conf/Gir.toml\": No options.work_mode"
    );
    assert_eq!(
        options_error("[options]\nwork_mode = 1\n", no_arguments()),
        "Invalid toml file \"conf/Gir.toml\": Invalid `options.work_mode` value, expected a string, found integer"
    );
    assert_eq!(
        options_error("[options]\nwork_mode = \"fast\"\n", no_arguments()),
        "Wrong work mode 'fast'"
    );
    assert_eq!(
        options_error("[options]\nwork_mode = \"sys\"\n", no_arguments()),
        "No options.girs_dir"
    );
    assert_eq!(
        options_error("[options]\nwork_mode = \"sys\"\ngirs_dir = \"g\"\n", no_arguments()),
        "No options.library"
    );
    assert_eq!(
        options_error(
            "[options]\nwork_mode = \"sys\"\ngirs_dir = \"g\"\nlibrary = \"Gtk\"\n",
            no_arguments()
        ),
        "No options.version"
    );
    assert_eq!(
        options_error(
            "[options]\nwork_mode = \"sys\"\ngirs_dir = \"g\"\nlibrary = \"Gtk\"\nversion = \"3\"\n",
            no_arguments()
        ),
        "No target path specified"
    );
    let with = |line: &str| format!("{}{}\n", MINIMAL, line);
    assert_eq!(
        options_error(&with("auto_path = 1"), no_arguments()),
        "Invalid `options.auto_path` value, expected a string, found integer"
    );
    assert_eq!(
        options_error(&with("doc_target_path = []"), no_arguments()),
        "Invalid `options.doc_target_path` value, expected a string, found array"
    );
    assert_eq!(
        options_error(&with("concurrency = true"), no_arguments()),
        "Invalid `options.concurrency` value, expected a string, found boolean"
    );
    assert_eq!(
        options_error(&with("concurrency = \"all\""), no_arguments()),
        "Unknown concurrency kind 'all'"
    );
    assert_eq!(
        options_error(&with("generate_display_trait = \"yes\""), no_arguments()),
        "Invalid `options.generate_display_trait` value, expected a boolean, found string"
    );
    assert_eq!(
        options_error(&with("trust_return_value_nullability = 0"), no_arguments()),
        "Invalid `options.trust_return_value_nullability` value, expected a boolean, found integer"
    );
    assert_eq!(
        options_error(&with("docs_rs_features = \"x\""), no_arguments()),
        "Invalid `options.docs_rs_features` value, expected a array, found string"
    );
    assert_eq!(
        options_error(&with("docs_rs_features = [\"x\", 1.5, true]"), no_arguments()),
        "Invalid `docs_rs_features` value element, expected a string, found float"
    );
    assert_eq!(
        options_error(&with("concurrency = \"all\"\nauto_path = 1"), no_arguments()),
        "Invalid `options.auto_path` value, expected a string, found integer"
    );
}

#[test]
fn library_and_version_go_together() {
    let message = "Library and version can not be specified separately";
    let cases: [(Option<&str>, Option<&str>); 6] = [
        (Some("Gtk"), None),
        (None, Some("3")),
        (Some(""), Some("3")),
        (Some("Gtk"), Some("")),
        (Some(""), None),
        (None, Some("")),
    ];
    for (name, version) in cases {
        let mut args = no_arguments();
        args.library_name = name;
        args.library_version = version;
        assert_eq!(options_error(MINIMAL, args), message);
    }
    let mut args = no_arguments();
    args.library_name = Some("");
    args.library_version = Some("");
    let options = Options::read(&parse(MINIMAL), "Gir.toml", Path::new("c"), args).unwrap();
    assert_eq!(options.library_name, "Gtk");
    assert_eq!(options.library_version, "3.0");
}

#[test]
fn config_defaults() {
    let toml = parse(MINIMAL);
    let config = Config::new(&toml, minimal_options(&toml), surroundings()).unwrap();
    assert_eq!(config.girs_version, "abc123");
    assert_eq!(config.work_mode, WorkMode::Normal);
    assert_eq!(config.target_path, PathBuf::from("conf/out"));
    assert_eq!(config.min_cfg_version, Version(0, 0, 0));
    assert!(!config.make_backup);
    assert!(!config.generate_safety_asserts);
    assert!(!config.deprecate_by_min_version);
    assert!(!config.show_statistics);
    assert_eq!(config.single_version_file, None);
    assert!(config.disable_format);
    assert!(!config.split_build_rs);
    assert!(config.extra_versions.is_empty());
    assert_eq!(config.lib_version_overrides.len(), 0);
    assert_eq!(config.feature_dependencies.len(), 0);
    assert!(config.external_libraries.is_empty());
    assert!(config.objects.is_empty());
}

#[test]
fn config_from_the_file() {
    let toml = parse(&format!(
        "{}min_cfg_version = \"3.14\"\ngenerate_safety_asserts = true\n\
         deprecate_by_min_version = true\nsingle_version_file = \"src\"\ndisable_format = false\n\
         split_build_rs = true\nextra_versions = [\"3.15\"]\n\
         [[lib_version_overrides]]\nversion = \"3.16\"\nlib_version = \"3.16.1\"\n\
         [[feature_dependencies]]\nversion = \"3.16\"\ndependencies = [\"glib/v2_44\"]\n",
        MINIMAL
    ));
    let mut around = surroundings();
    around.make_backup = true;
    around.show_statistics = true;
    around.external_libraries = Ok(vec![ExternalLibrary {
        namespace: "GLib".to_owned(),
        crate_name: "glib".to_owned(),
    }]);
    let mut object = GObject::default();
    object.name = "Gtk.Button".to_owned();
    around.objects.insert("Gtk.Button".to_owned(), object);
    let config = Config::new(&toml, minimal_options(&toml), around).unwrap();
    assert_eq!(config.min_cfg_version, Version(3, 14, 0));
    assert!(config.make_backup);
    assert!(config.show_statistics);
    assert!(config.generate_safety_asserts);
    assert!(config.deprecate_by_min_version);
    assert_eq!(config.single_version_file, Some(PathBuf::from("conf/out/src/versions.txt")));
    assert!(!config.disable_format);
    assert!(config.split_build_rs);
    assert_eq!(config.extra_versions, vec![Version(3, 15, 0)]);
    assert_eq!(config.lib_version_overrides.get(&Version(3, 16, 0)), Some(&Version(3, 16, 1)));
    assert_eq!(
        config.feature_dependencies.get(&Version(3, 16, 0)),
        Some(&vec!["glib/v2_44".to_owned()])
    );
    assert_eq!(config.external_libraries.len(), 1);
    assert_eq!(config.external_libraries[0].crate_name, "glib");
    assert!(config.objects.contains_key("Gtk.Button"));
}

#[test]
fn config_single_version_file_and_format() {
    let with = |line: &str| parse(&format!("{}{}\n", MINIMAL, line));
    let toml = with("single_version_file = true");
    let config = Config::new(&toml, minimal_options(&toml), surroundings()).unwrap();
    assert_eq!(
        config.single_version_file,
        Some(PathBuf::from("conf/out/src/auto/versions.txt"))
    );
    let toml = with("single_version_file = false");
    let config = Config::new(&toml, minimal_options(&toml), surroundings()).unwrap();
    assert_eq!(config.single_version_file, None);
    let toml = with("single_version_file = 3");
    assert_eq!(
        Config::new(&toml, minimal_options(&toml), surroundings()).unwrap_err(),
        "single_version_file must be bool or string path"
    );
    let toml = with("disable_format = false");
    let mut around = surroundings();
    around.disable_format = true;
    assert!(Config::new(&toml, minimal_options(&toml), around).unwrap().disable_format);
    let toml = with("disable_format = 1");
    let mut around = surroundings();
    around.disable_format = true;
    assert!(Config::new(&toml, minimal_options(&toml), around).unwrap().disable_format);
}

fn config_error(lines: &str, around: Surroundings) -> String {
    let toml = parse(&format!("{}{}\n", MINIMAL, lines));
    Config::new(&toml, minimal_options(&toml), around).unwrap_err()
}

#[test]
fn config_errors_come_in_order() {
    let mut around = surroundings();
    around.external_libraries = Err("bad external library".to_owned());
    assert_eq!(config_error("min_cfg_version = 3", around), "bad external library");
    assert_eq!(
        config_error("min_cfg_version = 3\ngenerate_safety_asserts = 1", surroundings()),
        "Invalid `options.min_cfg_version` value, expected a string, found integer"
    );
    assert_eq!(
        config_error("generate_safety_asserts = 1\ndeprecate_by_min_version = 1", surroundings()),
        "Invalid `options.generate_safety_asserts` value, expected a boolean, found integer"
    );
    assert_eq!(
        config_error("deprecate_by_min_version = 1\nsingle_version_file = 1", surroundings()),
        "Invalid `options.deprecate_by_min_version` value, expected a boolean, found integer"
    );
    assert_eq!(
        config_error("single_version_file = 1\ndisable_format = 1", surroundings()),
        "single_version_file must be bool or string path"
    );
    assert_eq!(
        config_error("disable_format = 1\nsplit_build_rs = 1", surroundings()),
        "Invalid `options.disable_format` value, expected a boolean, found integer"
    );
    assert_eq!(
        config_error("split_build_rs = 1\nextra_versions = 1", surroundings()),
        "Invalid `options.split_build_rs` value, expected a boolean, found integer"
    );
    assert_eq!(
        config_error("extra_versions = 1\n[lib_version_overrides]\nx = 1", surroundings()),
        "Invalid `options.extra_versions` value, expected a array, found integer"
    );
    assert_eq!(
        config_error("[lib_version_overrides]\nx = 1\n[feature_dependencies]\ny = 1", surroundings()),
        "Invalid `lib_version_overrides` value, expected a array, found table"
    );
    assert_eq!(
        config_error("[feature_dependencies]\ny = 1", surroundings()),
        "Invalid `feature_dependencies` value, expected a array, found table"
    );
}

#[test]
fn version_map_of_lists_is_usable() {
    let mut map: VersionMap<Vec<String>> = VersionMap::new();
    map.insert(Version(1, 0, 0), vec!["a".to_owned()]);
    assert_eq!(map.get(&Version(1, 0, 0)).unwrap().len(), 1);
}
