use stripe_mcp_server::json::{Json, JsonObject, Number};
use stripe_mcp_server::params::{empty_extra, flatten_params, merge_params, strip_nulls};

fn object(fields: Vec<(&str, Json)>) -> Json {
    let mut object = JsonObject::new();
    for (key, value) in fields {
        object.insert(key.to_string(), value);
    }
    Json::Object(object)
}

fn text(s: &str) -> Json {
    Json::String(s.to_string())
}

fn whole(n: u64) -> Json {
    Json::Number(Number::PosInt(n))
}

fn flat(value: &Json) -> Vec<(String, String)> {
    let mut out = Vec::new();
    flatten_params("", value, &mut out);
    out
}

fn pairs(expected: &[(&str, &str)]) -> Vec<(String, String)> {
    expected.iter().map(|(a, b)| (a.to_string(), b.to_string())).collect()
}

#[test]
fn nested_objects_are_bracketed() {
    let value = object(vec![("metadata", object(vec![("order_id", text("6735"))]))]);
    assert_eq!(flat(&value), pairs(&[("metadata[order_id]", "6735")]));
}

#[test]
fn array_items_are_numbered() {
    let value = object(vec![("expand", Json::Array(vec![text("a"), text("b")]))]);
    assert_eq!(flat(&value), pairs(&[("expand[0]", "a"), ("expand[1]", "b")]));
}

#[test]
fn arrays_of_objects_are_bracketed_twice() {
    let items: Vec<Json> = (0..11).map(|i| object(vec![("price", whole(i))])).collect();
    let flat_items = flat(&object(vec![("items", Json::Array(items))]));
    assert_eq!(flat_items.len(), 11);
    assert_eq!(flat_items[0], ("items[0][price]".to_string(), "0".to_string()));
    assert_eq!(flat_items[10], ("items[10][price]".to_string(), "10".to_string()));
}

#[test]
fn scalars_are_written_as_text() {
    let value = object(vec![
        ("yes", Json::Bool(true)),
        ("no", Json::Bool(false)),
        ("big", whole(u64::MAX)),
        ("neg", Json::Number(Number::NegInt(-7))),
        ("frac", Json::Number(Number::Float("1.5".to_string()))),
    ]);
    assert_eq!(
        flat(&value),
        pairs(&[("big", "18446744073709551615"), ("frac", "1.5"), ("neg", "-7"), ("no", "false"), ("yes", "true")])
    );
}

#[test]
fn nulls_and_empty_containers_leave_nothing() {
    assert!(flat(&Json::Null).is_empty());
    assert!(flat(&empty_extra()).is_empty());
    let value = object(vec![("a", Json::Null), ("b", empty_extra()), ("c", Json::Array(vec![]))]);
    assert!(flat(&value).is_empty());
    let value = object(vec![("a", Json::Array(vec![Json::Null, whole(1)]))]);
    assert_eq!(flat(&value), pairs(&[("a[1]", "1")]));
}

#[test]
fn fields_come_in_ascending_order_of_their_keys() {
    let value = object(vec![("b", whole(1)), ("a", whole(2)), ("aa", whole(3)), ("B", whole(4)), ("\u{e9}", whole(5)), ("", whole(6))]);
    assert_eq!(
        flat(&value),
        pairs(&[("", "6"), ("B", "4"), ("a", "2"), ("aa", "3"), ("b", "1"), ("\u{e9}", "5")])
    );
}

#[test]
fn values_other_than_objects_are_flattened_too() {
    assert_eq!(flat(&text("abc")), pairs(&[("", "abc")]));
    assert_eq!(flat(&Json::Array(vec![whole(5)])), pairs(&[("[0]", "5")]));
    let value = object(vec![("", object(vec![("a", whole(1))]))]);
    assert_eq!(flat(&value), pairs(&[("a", "1")]));
}

#[test]
fn names_without_brackets_do_not_collide() {
    let value = object(vec![
        ("a", object(vec![("b", whole(1)), ("c", Json::Array(vec![whole(2), whole(3)]))])),
        ("ab", whole(4)),
    ]);
    assert_eq!(flat(&value), pairs(&[("a[b]", "1"), ("a[c][0]", "2"), ("a[c][1]", "3"), ("ab", "4")]));
}

#[test]
fn names_with_brackets_may_collide() {
    let value = object(vec![("a", object(vec![("b", whole(1))])), ("a[b]", whole(2))]);
    assert_eq!(flat(&value), pairs(&[("a[b]", "1"), ("a[b]", "2")]));
}

#[test]
fn pairs_are_appended() {
    let mut out = pairs(&[("x", "y")]);
    flatten_params("p", &object(vec![("k", whole(1))]), &mut out);
    assert_eq!(out, pairs(&[("x", "y"), ("p[k]", "1")]));
}

#[test]
fn inserting_a_key_again_replaces_its_value() {
    let value = object(vec![("k", whole(1)), ("j", whole(3)), ("k", whole(2))]);
    assert_eq!(flat(&value), pairs(&[("j", "3"), ("k", "2")]));
    if let Json::Object(fields) = &value {
        assert_eq!(fields.len(), 2);
        assert_eq!(fields.entry(1).0, "k");
    } else {
        panic!("not an object");
    }
}

#[test]
fn stripping_drops_the_outermost_nulls_only() {
    let mut value = object(vec![("a", Json::Null), ("b", whole(1)), ("c", Json::Null), ("d", object(vec![("e", Json::Null)]))]);
    let before = flat(&value);
    strip_nulls(&mut value);
    assert_eq!(flat(&value), before);
    if let Json::Object(fields) = &value {
        assert_eq!(fields.len(), 2);
        assert_eq!(fields.entry(0).0, "b");
        assert_eq!(fields.entry(1).0, "d");
        match fields.entry(1).1 {
            Json::Object(inner) => assert_eq!(inner.len(), 1),
            _ => panic!("not an object"),
        }
    } else {
        panic!("not an object");
    }
    strip_nulls(&mut value);
    assert_eq!(flat(&value), before);
}

#[test]
fn stripping_leaves_other_values_alone() {
    let mut value = Json::Null;
    strip_nulls(&mut value);
    assert!(value.is_null());
    let mut value = Json::Array(vec![Json::Null, whole(1)]);
    strip_nulls(&mut value);
    assert_eq!(flat(&value), pairs(&[("[1]", "1")]));
}

#[test]
fn the_extra_fields_win() {
    let base = object(vec![("a", whole(1)), ("b", whole(2))]);
    let extra = object(vec![("b", whole(3)), ("c", whole(4))]);
    assert_eq!(flat(&merge_params(base, extra)), pairs(&[("a", "1"), ("b", "3"), ("c", "4")]));
}

#[test]
fn an_extra_that_is_no_object_is_ignored() {
    let base = object(vec![("a", whole(1))]);
    assert_eq!(flat(&merge_params(base, text("x"))), pairs(&[("a", "1")]));
    let base = object(vec![("a", whole(1))]);
    assert_eq!(flat(&merge_params(base, Json::Null)), pairs(&[("a", "1")]));
    assert_eq!(flat(&merge_params(text("x"), object(vec![("a", whole(1))]))), pairs(&[("", "x")]));
}

#[test]
fn an_empty_extra_is_neutral() {
    let base = object(vec![("a", whole(1))]);
    assert_eq!(flat(&merge_params(base, empty_extra())), pairs(&[("a", "1")]));
    let extra = object(vec![("a", whole(1))]);
    assert_eq!(flat(&merge_params(empty_extra(), extra)), pairs(&[("a", "1")]));
}
