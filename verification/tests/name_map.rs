use std::collections::BTreeMap;

use credential_aws_sts::name_map::NameMap;

fn walk(map: &NameMap<u32>) -> Vec<(String, u32)> {
    (0..map.len())
        .map(|i| (map.name_at(i).to_string(), *map.value_at(i)))
        .collect()
}

#[test]
fn walks_like_an_ordered_map() {
    let names = ["b", "a", "", "ab", "\u{ff}", "\u{10000}", "\u{ffff}", "a", "B", "aa", "ab", "z"];
    let mut map = NameMap::new();
    let mut model = BTreeMap::new();
    assert!(map.is_empty());
    for (i, name) in names.iter().enumerate() {
        let was = map.insert(name.to_string(), i as u32);
        assert_eq!(was, model.insert(name.to_string(), i as u32));
        let want: Vec<(String, u32)> = model.iter().map(|(k, v)| (k.clone(), *v)).collect();
        assert_eq!(walk(&map), want);
    }
    assert_eq!(map.len(), model.len());
    for name in ["", "a", "ab", "abc", "\u{10000}", "y"] {
        assert_eq!(map.get(name), model.get(name), "{name}");
    }
    assert_eq!(map.clone(), map);
    assert_eq!(walk(&map.clone()), walk(&map));
}

#[test]
fn order_does_not_depend_on_insertion() {
    let mut one = NameMap::new();
    let mut two = NameMap::new();
    for name in ["x", "m", "a"] {
        one.insert(name.to_string(), 1);
    }
    for name in ["a", "x", "m", "x"] {
        two.insert(name.to_string(), 1);
    }
    assert_eq!(one, two);
}
