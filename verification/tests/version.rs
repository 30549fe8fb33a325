use gir::version::Version;
use gir::version_map::VersionMap;

#[test]
fn version_parse_reads_up_to_three_numbers() {
    assert_eq!(Version::parse("1"), Version(1, 0, 0));
    assert_eq!(Version::parse("2.1"), Version(2, 1, 0));
    assert_eq!(Version::parse("3.2.1"), Version(3, 2, 1));
    assert_eq!(Version::parse("4.3.2.1"), Version(4, 3, 2));
    assert_eq!(Version::parse("3.ff.1"), Version(3, 0, 0));
    assert_eq!(Version::parse("3.4.x"), Version(3, 4, 0));
    assert_eq!(Version::parse("x.4.5"), Version(0, 0, 0));
    assert_eq!(Version::parse(""), Version(0, 0, 0));
    assert_eq!(Version::parse("2."), Version(2, 0, 0));
    assert_eq!(Version::parse("2.70000"), Version(2, 0, 0));
    assert_eq!(Version::parse("2.66"), Version(2, 66, 0));
}

#[test]
fn version_feature_name_drops_zeros_at_the_end() {
    assert_eq!(Version(3, 0, 0).to_feature(), "v3");
    assert_eq!(Version(3, 20, 0).to_feature(), "v3_20");
    assert_eq!(Version(3, 20, 1).to_feature(), "v3_20_1");
    assert_eq!(Version(3, 0, 1).to_feature(), "v3_0_1");
    assert_eq!(Version(0, 0, 0).to_feature(), "v0");
}

#[test]
fn version_text_drops_zeros_at_the_end() {
    assert_eq!(Version(3, 0, 0).to_string(), "3");
    assert_eq!(Version(3, 20, 0).to_string(), "3.20");
    assert_eq!(Version(3, 20, 1).to_string(), "3.20.1");
    assert_eq!(Version(3, 0, 1).to_string(), "3.0.1");
    assert_eq!(Version(65535, 65535, 65535).to_string(), "65535.65535.65535");
}

#[test]
fn version_order_is_by_major_minor_patch() {
    assert!(Version(1, 0, 0) < Version(2, 0, 0));
    assert!(Version(1, 9, 9) < Version(2, 0, 0));
    assert!(Version(2, 1, 0) > Version(2, 0, 9));
    assert!(Version(2, 1, 3) > Version(2, 1, 2));
    assert!(Version(2, 1, 3) >= Version(2, 1, 3));
    assert!(!(Version(2, 1, 3) > Version(2, 1, 3)));
    assert_eq!(Version(2, 1, 3).partial_cmp(&Version(2, 1, 3)), Some(std::cmp::Ordering::Equal));
    assert_eq!(Version(0, 1, 0).partial_cmp(&Version(0, 0, 65535)), Some(std::cmp::Ordering::Greater));
    assert_eq!(Version(0, 1, 0).cmp(&Version(0, 0, 65535)), std::cmp::Ordering::Greater);
    assert_eq!(Version::default(), Version(0, 0, 0));
}

#[test]
fn version_map_keeps_versions_in_order() {
    let mut map: VersionMap<&str> = VersionMap::new();
    assert_eq!(map.len(), 0);
    assert_eq!(map.insert(Version(3, 10, 0), "c"), None);
    assert_eq!(map.insert(Version(3, 2, 0), "a"), None);
    assert_eq!(map.insert(Version(3, 2, 1), "b"), None);
    assert_eq!(map.insert(Version(4, 0, 0), "d"), None);
    assert_eq!(map.len(), 4);
    assert_eq!(map.key_at(0), Version(3, 2, 0));
    assert_eq!(map.key_at(1), Version(3, 2, 1));
    assert_eq!(map.key_at(2), Version(3, 10, 0));
    assert_eq!(map.key_at(3), Version(4, 0, 0));
    assert_eq!(*map.value_at(2), "c");
    assert_eq!(map.insert(Version(3, 2, 1), "B"), Some("b"));
    assert_eq!(map.len(), 4);
    assert_eq!(map.get(&Version(3, 2, 1)), Some(&"B"));
    assert_eq!(map.get(&Version(3, 2, 2)), None);
    assert!(map.contains_key(&Version(4, 0, 0)));
    assert!(!map.contains_key(&Version(0, 0, 0)));
}
