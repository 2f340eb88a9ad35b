use hass_tether_agent::attrmap::AttributeMap;
use hass_tether_agent::differ::diff;
use hass_tether_agent::value::AttrValue;

fn num(s: &str) -> AttrValue {
    AttrValue::Num(s.to_string())
}

fn text(s: &str) -> AttrValue {
    AttrValue::Str(s.to_string())
}

fn map_of(entries: Vec<(&str, AttrValue)>) -> AttributeMap {
    AttributeMap {
        entries: entries.into_iter().map(|(k, v)| (k.to_string(), v)).collect(),
    }
}

#[test]
fn empty_to_one_entry_reports_the_entry() {
    let old = map_of(vec![]);
    let new = map_of(vec![("a", num("1"))]);
    let d = diff(&old, &new);
    assert_eq!(d.len(), 1);
    assert_eq!(d[0].0, "a");
    assert!(d[0].1.deep_eq(&num("1")));
}

#[test]
fn removals_are_not_reported() {
    let old = map_of(vec![("a", num("1"))]);
    let new = map_of(vec![]);
    let d = diff(&old, &new);
    assert_eq!(d.len(), 0);
}

fn rich_map() -> AttributeMap {
    map_of(vec![
        ("state", text("on")),
        ("brightness", num("10")),
        (
            "color",
            AttrValue::Arr(vec![num("255"), num("128"), num("0")]),
        ),
        (
            "extra",
            AttrValue::Obj(vec![
                ("nested".to_string(), AttrValue::Bool(true)),
                ("deep".to_string(), AttrValue::Null),
            ]),
        ),
    ])
}

#[test]
fn identical_maps_yield_empty_diff() {
    let old = rich_map();
    let new = rich_map();
    let d = diff(&old, &new);
    assert_eq!(d.len(), 0);
}

#[test]
fn changed_and_added_keys_are_reported_with_new_values() {
    let old = map_of(vec![("a", num("1")), ("b", text("x")), ("gone", num("9"))]);
    let new = map_of(vec![("a", num("2")), ("b", text("x")), ("c", AttrValue::Bool(false))]);
    let d = diff(&old, &new);
    assert_eq!(d.len(), 2);
    assert_eq!(d[0].0, "a");
    assert!(d[0].1.deep_eq(&num("2")));
    assert_eq!(d[1].0, "c");
    assert!(d[1].1.deep_eq(&AttrValue::Bool(false)));
}

#[test]
fn deep_structural_equality_decides_changes() {
    let nested_old = AttrValue::Obj(vec![
        ("xs".to_string(), AttrValue::Arr(vec![num("1"), num("2")])),
        ("flag".to_string(), AttrValue::Bool(true)),
    ]);
    let nested_same = AttrValue::Obj(vec![
        ("xs".to_string(), AttrValue::Arr(vec![num("1"), num("2")])),
        ("flag".to_string(), AttrValue::Bool(true)),
    ]);
    let nested_changed = AttrValue::Obj(vec![
        ("xs".to_string(), AttrValue::Arr(vec![num("1"), num("3")])),
        ("flag".to_string(), AttrValue::Bool(true)),
    ]);
    assert!(nested_old.deep_eq(&nested_same));
    assert!(!nested_old.deep_eq(&nested_changed));

    let old = map_of(vec![("n", nested_old)]);
    let same = map_of(vec![("n", nested_same)]);
    let changed = map_of(vec![("n", nested_changed)]);
    assert_eq!(diff(&old, &same).len(), 0);
    let d = diff(&old, &changed);
    assert_eq!(d.len(), 1);
    assert_eq!(d[0].0, "n");
}

#[test]
fn diff_keeps_new_snapshot_entry_order() {
    let old = map_of(vec![]);
    let new = map_of(vec![("z", num("1")), ("a", num("2")), ("m", num("3"))]);
    let d = diff(&old, &new);
    let keys: Vec<&str> = d.iter().map(|p| p.0.as_str()).collect();
    assert_eq!(keys, vec!["z", "a", "m"]);
}

#[test]
fn agrees_with_the_reference_half_diff() {
    // The same comparison through the hash_map_diff crate, on the key sets.
    let mut lhs: std::collections::HashMap<String, i64> = std::collections::HashMap::new();
    lhs.insert("a".to_string(), 1);
    lhs.insert("b".to_string(), 2);
    lhs.insert("gone".to_string(), 9);
    let mut rhs: std::collections::HashMap<String, i64> = std::collections::HashMap::new();
    rhs.insert("a".to_string(), 1);
    rhs.insert("b".to_string(), 3);
    rhs.insert("fresh".to_string(), 4);
    let reference = hash_map_diff::hash_map_diff(&lhs, &rhs);
    let mut expected: Vec<&str> = reference.updated.keys().map(|k| k.as_str()).collect();
    expected.sort();

    let old = map_of(vec![("a", num("1")), ("b", num("2")), ("gone", num("9"))]);
    let new = map_of(vec![("a", num("1")), ("b", num("3")), ("fresh", num("4"))]);
    let d = diff(&old, &new);
    let mut got: Vec<&str> = d.iter().map(|p| p.0.as_str()).collect();
    got.sort();
    assert_eq!(got, expected);
}

#[test]
fn from_value_accepts_only_mappings_with_distinct_keys() {
    let ok = AttrValue::Obj(vec![
        ("a".to_string(), num("1")),
        ("b".to_string(), num("2")),
    ]);
    assert!(AttributeMap::from_value(ok).is_some());

    assert!(AttributeMap::from_value(AttrValue::Arr(vec![num("1")])).is_none());
    assert!(AttributeMap::from_value(text("not a mapping")).is_none());
    assert!(AttributeMap::from_value(AttrValue::Null).is_none());

    let dup = AttrValue::Obj(vec![
        ("a".to_string(), num("1")),
        ("a".to_string(), num("2")),
    ]);
    assert!(AttributeMap::from_value(dup).is_none());
}

#[test]
fn lookup_finds_entries_by_key() {
    let m = map_of(vec![("a", num("1")), ("b", text("x"))]);
    let key = "b".to_string();
    let hit = m.get(&key).expect("key b is present");
    assert!(hit.deep_eq(&text("x")));
    let missing = "zz".to_string();
    assert!(m.get(&missing).is_none());
}
