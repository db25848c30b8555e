use whiskers2::context::{clone_value, merge_values, OverrideValue};

fn shown(v: &OverrideValue) -> String {
    format!("{:?}", v)
}

fn number(n: i64) -> OverrideValue {
    OverrideValue::Number(n.to_string())
}

fn text(s: &str) -> OverrideValue {
    OverrideValue::Text(s.to_string())
}

fn mapping(entries: Vec<(&str, OverrideValue)>) -> OverrideValue {
    OverrideValue::Mapping(entries.into_iter().map(|(k, v)| (k.to_string(), v)).collect())
}

#[test]
fn merge_recurses_through_matching_mappings() {
    let base = mapping(vec![("a", mapping(vec![("x", number(1))]))]);
    let over = mapping(vec![("a", mapping(vec![("y", number(2))]))]);
    let expected = mapping(vec![("a", mapping(vec![("x", number(1)), ("y", number(2))]))]);
    assert_eq!(shown(&merge_values(&base, &over)), shown(&expected));
}

#[test]
fn merge_replaces_a_scalar_by_a_list() {
    let base = mapping(vec![("a", number(1))]);
    let over = mapping(vec![("a", OverrideValue::List(vec![number(1), number(2)]))]);
    assert_eq!(shown(&merge_values(&base, &over)), shown(&over));
}

#[test]
fn merge_replaces_lists_instead_of_joining_them() {
    let base = mapping(vec![("a", OverrideValue::List(vec![number(1), number(2)]))]);
    let over = mapping(vec![("a", OverrideValue::List(vec![number(3)]))]);
    assert_eq!(shown(&merge_values(&base, &over)), shown(&over));
    let base = OverrideValue::List(vec![number(1)]);
    let over = OverrideValue::List(vec![]);
    assert_eq!(shown(&merge_values(&base, &over)), shown(&over));
}

#[test]
fn merge_keeps_base_keys_and_appends_new_ones() {
    let base = mapping(vec![("a", number(1)), ("b", text("two")), ("c", OverrideValue::Null)]);
    let over = mapping(vec![("d", number(4)), ("b", text("deux")), ("e", OverrideValue::Bool(true))]);
    let expected = mapping(vec![
        ("a", number(1)),
        ("b", text("deux")),
        ("c", OverrideValue::Null),
        ("d", number(4)),
        ("e", OverrideValue::Bool(true)),
    ]);
    assert_eq!(shown(&merge_values(&base, &over)), shown(&expected));
}

#[test]
fn merge_replaces_on_mismatched_types() {
    let map = mapping(vec![("a", number(1))]);
    for other in [
        OverrideValue::Null,
        OverrideValue::Bool(false),
        number(7),
        text("x"),
        OverrideValue::List(vec![text("y")]),
    ]
    .iter()
    {
        assert_eq!(shown(&merge_values(&map, &other)), shown(&other));
        assert_eq!(shown(&merge_values(&other, &map)), shown(&map));
        assert_eq!(shown(&merge_values(&other, &other)), shown(&other));
    }
    let base = mapping(vec![("a", mapping(vec![("x", number(1))]))]);
    let over = mapping(vec![("a", text("flat"))]);
    assert_eq!(shown(&merge_values(&base, &over)), shown(&over));
    let base = mapping(vec![("a", text("flat"))]);
    let over = mapping(vec![("a", mapping(vec![("x", number(1))]))]);
    assert_eq!(shown(&merge_values(&base, &over)), shown(&over));
}

#[test]
fn merge_with_empty_mappings() {
    let map = mapping(vec![("a", number(1)), ("b", number(2))]);
    let empty = mapping(vec![]);
    assert_eq!(shown(&merge_values(&map, &empty)), shown(&map));
    assert_eq!(shown(&merge_values(&empty, &map)), shown(&map));
    assert_eq!(shown(&merge_values(&empty, &empty)), shown(&empty));
}

#[test]
fn merge_recurses_several_levels() {
    let base = mapping(vec![(
        "a",
        mapping(vec![("b", mapping(vec![("c", number(1)), ("d", number(2))])), ("k", text("keep"))]),
    )]);
    let over = mapping(vec![("a", mapping(vec![("b", mapping(vec![("d", number(3)), ("e", number(4))]))]))]);
    let expected = mapping(vec![(
        "a",
        mapping(vec![
            ("b", mapping(vec![("c", number(1)), ("d", number(3)), ("e", number(4))])),
            ("k", text("keep")),
        ]),
    )]);
    assert_eq!(shown(&merge_values(&base, &over)), shown(&expected));
}

#[test]
fn merge_applies_repeated_override_keys_in_order() {
    let base = mapping(vec![("a", mapping(vec![("x", number(1))]))]);
    let over = mapping(vec![
        ("a", mapping(vec![("y", number(2))])),
        ("a", mapping(vec![("z", number(3))])),
    ]);
    let expected =
        mapping(vec![("a", mapping(vec![("x", number(1)), ("y", number(2)), ("z", number(3))]))]);
    assert_eq!(shown(&merge_values(&base, &over)), shown(&expected));
}

#[test]
fn merge_leaves_its_operands_alone() {
    let base = mapping(vec![("a", mapping(vec![("x", number(1))]))]);
    let over = mapping(vec![("a", mapping(vec![("y", number(2))]))]);
    let base_before = clone_value(&base);
    let over_before = clone_value(&over);
    let _ = merge_values(&base, &over);
    assert_eq!(shown(&base), shown(&base_before));
    assert_eq!(shown(&over), shown(&over_before));
}

#[test]
fn clone_value_copies_every_kind() {
    let value = mapping(vec![
        ("n", OverrideValue::Null),
        ("b", OverrideValue::Bool(true)),
        ("i", number(-3)),
        ("t", text("é")),
        ("l", OverrideValue::List(vec![number(1), mapping(vec![("k", text("v"))])])),
    ]);
    assert_eq!(shown(&clone_value(&value)), shown(&value));
}
