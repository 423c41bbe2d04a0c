//! Request parameters: Stripe's bracket notation, and how a tool's named fields are
//! combined with the parameters that its caller adds.
use crate::json::{key_order, non_null, Json, JsonObject, JsonView};
use crate::text::{decimal, write_decimal};
use vstd::prelude::*;
use vstd::string::StringExecFns;

verus! {

/// What a list of name/value pairs says.
pub open spec fn pairs_view(pairs: Seq<(String, String)>) -> Seq<(Seq<char>, Seq<char>)> {
    pairs.map_values(|pair: (String, String)| (pair.0@, pair.1@))
}

/// The name of the field `key` of the object named `prefix`. The fields of the outermost
/// object have their keys as names.
pub open spec fn field_name(prefix: Seq<char>, key: Seq<char>) -> Seq<char> {
    if prefix.len() == 0 {
        key
    } else {
        prefix + seq!['['] + key + seq![']']
    }
}

/// The name of item `i` of the array named `prefix`.
pub open spec fn item_name(prefix: Seq<char>, i: nat) -> Seq<char> {
    prefix + seq!['['] + decimal(i) + seq![']']
}

/// How a boolean is written.
pub open spec fn bool_text(b: bool) -> Seq<char> {
    if b {
        "true"@
    } else {
        "false"@
    }
}

/// The name/value pairs that write the value named `prefix` in bracket notation. An object
/// is written field by field, in ascending order of the keys; an array item by item;
/// a null leaves no trace.
pub open spec fn flatten(prefix: Seq<char>, value: JsonView) -> Seq<(Seq<char>, Seq<char>)>
    decreases value, 0nat,
{
    match value {
        JsonView::Null => Seq::empty(),
        JsonView::Bool(b) => seq![(prefix, bool_text(b))],
        JsonView::Number(n) => seq![(prefix, n)],
        JsonView::String(s) => seq![(prefix, s)],
        JsonView::Array(items) => flatten_items(prefix, items, items.len()),
        JsonView::Object(fields) => flatten_fields(prefix, fields, key_order(fields.dom())),
    }
}

/// The pairs that write the first `n` items of the array named `prefix`.
pub open spec fn flatten_items(prefix: Seq<char>, items: Seq<JsonView>, n: nat) -> Seq<(Seq<char>, Seq<char>)>
    decreases items, n,
{
    if 0 < n <= items.len() {
        flatten_items(prefix, items, (n - 1) as nat) + flatten(
            item_name(prefix, (n - 1) as nat),
            items[n - 1],
        )
    } else {
        Seq::empty()
    }
}

/// The pairs that write the fields `keys`, in that order, of the object named `prefix`.
pub open spec fn flatten_fields(
    prefix: Seq<char>,
    fields: Map<Seq<char>, JsonView>,
    keys: Seq<Seq<char>>,
) -> Seq<(Seq<char>, Seq<char>)>
    decreases fields, keys.len(),
{
    if keys.len() > 0 && fields.dom().finite() && fields.contains_key(keys.last()) {
        flatten_fields(prefix, fields, keys.drop_last()) + flatten(
            field_name(prefix, keys.last()),
            fields[keys.last()],
        )
    } else {
        Seq::empty()
    }
}

fn bracketed(prefix: &str, inner: &str) -> (name: String)
    ensures
        name@ == prefix@ + seq!['['] + inner@ + seq![']'],
{
    let mut name = prefix.to_string();
    name.append("[");
    name.append(inner);
    name.append("]");
    proof {
        reveal_strlit("[");
        reveal_strlit("]");
        assert(name@ =~= prefix@ + seq!['['] + inner@ + seq![']']);
    }
    name
}

fn write_bool(b: bool) -> (s: String)
    ensures
        s@ == bool_text(b),
{
    if b {
        "true".to_string()
    } else {
        "false".to_string()
    }
}

fn push_pair(out: &mut Vec<(String, String)>, name: &str, value: String)
    ensures
        pairs_view(final(out)@) == pairs_view(old(out)@).push((name@, value@)),
{
    out.push((name.to_string(), value));
    proof {
        assert(pairs_view(out@) =~= pairs_view(old(out)@).push((name@, value@)));
    }
}

/// Appends to `out` the name/value pairs that write `value` in Stripe's bracket notation:
/// the fields of an object named `metadata` are named `metadata[order_id]` and the like,
/// the items of an array named `expand` are named `expand[0]`, `expand[1]` and so on.
pub fn flatten_params(prefix: &str, value: &Json, out: &mut Vec<(String, String)>)
    ensures
        pairs_view(final(out)@) == pairs_view(old(out)@) + flatten(prefix@, value@),
    decreases value@,
{
    let ghost start = pairs_view(out@);
    match value {
        Json::Object(object) => {
            let n = object.len();
            let ghost keys = key_order(object@.dom());
            let mut i: usize = 0;
            proof {
                assert(keys.take(0) =~= Seq::<Seq<char>>::empty());
                assert(start + Seq::<(Seq<char>, Seq<char>)>::empty() =~= start);
            }
            while i < n
                invariant
                    i <= n,
                    n == keys.len(),
                    keys == key_order(object@.dom()),
                    object@.dom().finite(),
                    value@ == JsonView::Object(object@),
                    pairs_view(out@) == start + flatten_fields(prefix@, object@, keys.take(i as int)),
                decreases n - i,
            {
                let (key, field) = object.entry(i);
                let ghost before = pairs_view(out@);
                proof {
                    assert(decreases_to!(value@ => value@->Object_0));
                    assert(decreases_to!(object@ => object@[key@]));
                    assert(keys.take(i + 1).drop_last() =~= keys.take(i as int));
                    assert(keys.take(i + 1).last() == key@);
                }
                if prefix.is_empty() {
                    flatten_params(key, field, out);
                } else {
                    let name = bracketed(prefix, key);
                    flatten_params(name.as_str(), field, out);
                }
                proof {
                    assert(pairs_view(out@) =~= start + flatten_fields(prefix@, object@, keys.take(i + 1)));
                }
                i += 1;
            }
            proof {
                assert(keys.take(n as int) =~= keys);
            }
        },
        Json::Array(items) => {
            let n = items.len();
            let ghost views = value@->Array_0;
            let mut i: usize = 0;
            proof {
                assert(start + Seq::<(Seq<char>, Seq<char>)>::empty() =~= start);
            }
            while i < n
                invariant
                    i <= n,
                    n == items@.len(),
                    n == views.len(),
                    value@ == JsonView::Array(views),
                    forall|j: int| 0 <= j < n ==> views[j] == (#[trigger] items@[j])@,
                    pairs_view(out@) == start + flatten_items(prefix@, views, i as nat),
                decreases n - i,
            {
                let index = write_decimal(i as u64);
                let name = bracketed(prefix, index.as_str());
                proof {
                    assert(decreases_to!(value@ => value@->Array_0));
                    assert(decreases_to!(views => views[i as int]));
                }
                flatten_params(name.as_str(), &items[i], out);
                proof {
                    assert(pairs_view(out@) =~= start + flatten_items(prefix@, views, (i + 1) as nat));
                }
                i += 1;
            }
        },
        Json::Null => {
            proof {
                assert(start + Seq::<(Seq<char>, Seq<char>)>::empty() =~= start);
            }
        },
        Json::String(s) => push_pair(out, prefix, s.clone()),
        Json::Bool(b) => push_pair(out, prefix, write_bool(*b)),
        Json::Number(number) => push_pair(out, prefix, number.to_text()),
    }
    proof {
        assert(pairs_view(out@) =~= start + flatten(prefix@, value@));
    }
}

/// A value without the null fields of its outermost object.
pub open spec fn stripped(value: JsonView) -> JsonView {
    match value {
        JsonView::Object(fields) => JsonView::Object(non_null(fields)),
        other => other,
    }
}

/// Drops the null-valued fields of an object. Objects further inside keep theirs, and a
/// value of another kind stays as it is.
pub fn strip_nulls(value: &mut Json)
    ensures
        final(value)@ == stripped(old(value)@),
{
    if let Json::Object(object) = value {
        object.remove_nulls();
    }
}

/// The fields of `base` with those of `extra` laid over them. An `extra` that is no object
/// adds nothing, and a `base` that is no object takes nothing.
pub open spec fn merged(base: JsonView, extra: JsonView) -> JsonView {
    match (base, extra) {
        (JsonView::Object(fields), JsonView::Object(over)) => JsonView::Object(fields.union_prefer_right(over)),
        _ => base,
    }
}

/// Overlays the fields of `extra` onto `base`. Where both have a field, that of `extra`
/// wins.
pub fn merge_params(base: Json, extra: Json) -> (params: Json)
    ensures
        params@ == merged(base@, extra@),
{
    match (base, extra) {
        (Json::Object(mut fields), Json::Object(over)) => {
            fields.overlay(over);
            Json::Object(fields)
        },
        (other, _) => other,
    }
}

/// The additional parameters of a caller that gives none: an object without fields.
pub fn empty_extra() -> (extra: Json)
    ensures
        extra@ == JsonView::Object(Map::empty()),
{
    Json::Object(JsonObject::new())
}

} // verus!
