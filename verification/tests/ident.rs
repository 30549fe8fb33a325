use gir::config::ident::{Ident, IdentFailure};
use gir::config::toml_helper::{
    as_result_bool, as_result_str, as_result_vec, lookup, lookup_str, lookup_vec,
};
use regex::Regex;

fn parse(text: &str) -> toml::Value {
    toml::from_str(text).unwrap()
}

#[test]
fn ident_parse_prefers_the_pattern() {
    let both = parse("name = \"plain\"\npattern = \"set_.+\"\n");
    let ident = Ident::parse(&both, "Gtk.Button", "function").unwrap();
    match &ident {
        Ident::Pattern(regex) => assert_eq!(regex.as_str(), "^set_.+$"),
        Ident::Name(_) => panic!("a pattern was expected"),
    }
    assert!(ident.is_match("set_label"));
    assert!(!ident.is_match("set_"));
    assert!(!ident.is_match("unset_label"));
    assert!(!ident.is_match("plain"));
    assert_eq!(ident.to_string(), "Regex");
}

#[test]
fn ident_parse_reads_a_name() {
    let ident = Ident::parse(&parse("name = \"get_label\"\n"), "Gtk.Button", "function").unwrap();
    assert_eq!(ident, Ident::Name("get_label".to_owned()));
    assert!(ident.is_match("get_label"));
    assert!(!ident.is_match("get_label2"));
    assert!(!ident.is_match("get_labe"));
    assert_eq!(ident.to_string(), "get_label");
}

#[test]
fn ident_parse_rejects_what_names_nothing() {
    assert!(Ident::parse(&parse("pattern = \"set_(\"\n"), "o", "w").is_none());
    assert!(Ident::parse(&parse("pattern = \"set_(\"\nname = \"set\"\n"), "o", "w").is_none());
    assert!(Ident::parse(&parse("name = \"set_.\"\n"), "o", "w").is_none());
    assert!(Ident::parse(&parse("name = \"a+b\"\n"), "o", "w").is_none());
    assert!(Ident::parse(&parse("name = \"set_*\"\n"), "o", "w").is_none());
    assert!(Ident::parse(&parse("other = \"x\"\n"), "o", "w").is_none());
    assert!(Ident::parse(&parse("name = 3\n"), "o", "w").is_none());
    assert!(Ident::parse(&toml::Value::Integer(3), "o", "w").is_none());
    let not_a_string = parse("pattern = 3\nname = \"n\"\n");
    assert_eq!(Ident::parse(&not_a_string, "o", "w"), Some(Ident::Name("n".to_owned())));
}

#[test]
fn ident_equality_goes_by_name_or_pattern() {
    let name = |n: &str| Ident::Name(n.to_owned());
    let pattern = |p: &str| Ident::Pattern(Regex::new(p).unwrap());
    assert_eq!(name("a"), name("a"));
    assert_ne!(name("a"), name("b"));
    assert_eq!(pattern("^a.*$"), pattern("^a.*$"));
    assert_ne!(pattern("^a.*$"), pattern("^a.+$"));
    assert_ne!(name("^a$"), pattern("^a$"));
    assert_ne!(pattern("^a$"), name("^a$"));
    let copy = pattern("^x+$").clone();
    assert_eq!(copy, pattern("^x+$"));
    assert!(copy.is_match("xx"));
    assert!(!copy.is_match("xy"));
}

#[test]
fn lookup_follows_the_dots() {
    let toml = parse("top = 1\n[options]\nwork_mode = \"sys\"\n[options.deep]\nflag = true\n[\"\"]\nx = 2\n");
    assert_eq!(lookup(&toml, "top").unwrap().as_integer(), Some(1));
    assert_eq!(lookup(&toml, "options.work_mode").unwrap().as_str(), Some("sys"));
    assert_eq!(lookup(&toml, "options.deep.flag").unwrap().as_bool(), Some(true));
    assert!(lookup(&toml, "options").unwrap().is_table());
    assert!(lookup(&toml, "options.missing").is_none());
    assert!(lookup(&toml, "missing.work_mode").is_none());
    assert!(lookup(&toml, "top.more").is_none());
    assert!(lookup(&toml, "options.work_mode.more").is_none());
    assert!(lookup(&toml, "options.").is_none());
    assert!(lookup(&toml, "").unwrap().is_table());
    assert_eq!(lookup(&toml, ".x").unwrap().as_integer(), Some(2));
    assert!(lookup(&toml::Value::Integer(1), "a").is_none());
}

#[test]
fn lookups_say_what_is_wrong() {
    let toml = parse("s = \"text\"\nb = true\na = [1, 2]\nf = 1.5\nd = 1979-05-27T07:32:00Z\n[t]\n");
    assert_eq!(lookup_str(&toml, "s", "none"), Ok("text"));
    assert_eq!(lookup_str(&toml, "x", "none"), Err("none".to_owned()));
    assert_eq!(
        lookup_str(&toml, "b", "none"),
        Err("Invalid `b` value, expected a string, found boolean".to_owned())
    );
    assert_eq!(lookup_vec(&toml, "a", "none").unwrap().len(), 2);
    assert_eq!(lookup_vec(&toml, "x", "none").unwrap_err(), "none");
    assert_eq!(
        lookup_vec(&toml, "t", "none").unwrap_err(),
        "Invalid `t` value, expected a array, found table"
    );
    assert_eq!(as_result_str(&toml["s"], "o"), Ok("text"));
    assert_eq!(
        as_result_str(&toml["a"], "the.option"),
        Err("Invalid `the.option` value, expected a string, found array".to_owned())
    );
    assert_eq!(as_result_bool(&toml["b"], "o"), Ok(true));
    assert_eq!(
        as_result_bool(&toml["f"], "o"),
        Err("Invalid `o` value, expected a boolean, found float".to_owned())
    );
    assert_eq!(as_result_vec(&toml["a"], "o").unwrap()[1].as_integer(), Some(2));
    assert_eq!(
        as_result_vec(&toml["d"], "o").unwrap_err(),
        "Invalid `o` value, expected a array, found datetime"
    );
    assert_eq!(
        as_result_vec(&toml["a"][0], "o").unwrap_err(),
        "Invalid `o` value, expected a array, found integer"
    );
}

#[test]
fn ident_try_parse_says_why() {
    let bad = parse("pattern = \"set_(\"\n");
    let cause = Regex::new("^set_($").unwrap_err().to_string();
    assert_eq!(
        Ident::try_parse(&bad),
        Err(IdentFailure::BadPattern { pattern: "set_(".to_owned(), error: cause })
    );
    assert_eq!(
        Ident::try_parse(&parse("name = \"a.b\"\n")),
        Err(IdentFailure::NameIsPattern)
    );
    assert_eq!(Ident::try_parse(&parse("x = 1\n")), Err(IdentFailure::Nothing));
    assert_eq!(
        Ident::try_parse(&parse("name = \"ab\"\n")),
        Ok(Ident::Name("ab".to_owned()))
    );
    assert!(matches!(Ident::try_parse(&parse("pattern = \"a|b\"\n")), Ok(Ident::Pattern(_))));
}

#[test]
fn ident_pattern_matches_the_whole_name() {
    let ident = Ident::parse(&parse("pattern = \"a|b\"\n"), "o", "w").unwrap();
    assert!(ident.is_match("a"));
    assert!(ident.is_match("b"));
    assert!(ident.is_match("ab"));
    assert!(!ident.is_match("c"));
    let ident = Ident::parse(&parse("pattern = \"(a|b)\"\n"), "o", "w").unwrap();
    assert!(!ident.is_match("ab"));
    assert!(ident.is_match("b"));
}
