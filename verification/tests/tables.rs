use gir::analysis::special_functions::{TraitInfo, Type};
use gir::analysis::special_tables::TraitInfos;
use gir::name_map::NameMap;

fn info(name: &str) -> TraitInfo {
    TraitInfo { glib_name: name.to_owned(), version: None }
}

#[test]
fn trait_infos_hold_one_function_per_operation() {
    let mut table = TraitInfos::new();
    assert!(table.is_empty());
    assert_eq!(table.len(), 0);
    assert!(table.keys().is_empty());
    assert!(table.insert(Type::Hash, info("h1")).is_none());
    assert!(table.insert(Type::Compare, info("c1")).is_none());
    assert!(table.insert(Type::Display, info("d1")).is_none());
    assert!(table.insert(Type::Unref, info("u1")).is_none());
    let before = table.insert(Type::Hash, info("h2"));
    assert_eq!(before.unwrap().glib_name, "h1");
    assert_eq!(table.len(), 4);
    assert!(!table.is_empty());
    assert_eq!(table.get(&Type::Hash).unwrap().glib_name, "h2");
    assert!(table.get(&Type::Copy).is_none());
    assert!(table.contains_key(&Type::Compare));
    assert!(!table.contains_key(&Type::Free));
    assert_eq!(table.keys(), vec![Type::Compare, Type::Display, Type::Unref, Type::Hash]);
}

#[test]
fn trait_infos_keys_come_in_the_order_of_operations() {
    let all = [
        Type::Compare,
        Type::Copy,
        Type::Equal,
        Type::Free,
        Type::Ref,
        Type::Display,
        Type::Unref,
        Type::Hash,
    ];
    let mut table = TraitInfos::new();
    for t in all.iter().rev() {
        table.insert(*t, info("f"));
    }
    assert_eq!(table.keys(), all.to_vec());
    assert_eq!(table.len(), 8);
    let mut sorted = all.to_vec();
    sorted.sort();
    assert_eq!(sorted, all.to_vec());
}

#[test]
fn name_map_keeps_names_in_order() {
    let mut map: NameMap<u32> = NameMap::new();
    assert!(map.is_empty());
    assert_eq!(map.insert("gtk".to_owned(), 1), None);
    assert_eq!(map.insert("gdk".to_owned(), 2), None);
    assert_eq!(map.insert("pango".to_owned(), 3), None);
    assert_eq!(map.insert("gdk_pixbuf".to_owned(), 4), None);
    assert_eq!(map.insert("Gtk".to_owned(), 5), None);
    assert_eq!(map.len(), 5);
    assert!(!map.is_empty());
    let keys: Vec<&str> = (0..map.len()).map(|i| map.key_at(i)).collect();
    assert_eq!(keys, vec!["Gtk", "gdk", "gdk_pixbuf", "gtk", "pango"]);
    assert_eq!(*map.value_at(2), 4);
    assert_eq!(map.insert("gdk".to_owned(), 20), Some(2));
    assert_eq!(map.len(), 5);
    assert_eq!(map.get("gdk"), Some(&20));
    assert_eq!(map.get("gd"), None);
    assert_eq!(map.get("gdk_"), None);
    assert!(map.contains_key("pango"));
    assert!(!map.contains_key("cairo"));
    assert_eq!(map.replace_value_at(0, 50), 5);
    assert_eq!(map.get("Gtk"), Some(&50));
    assert_eq!(map.key_at(0), "Gtk");
}
