//! Bracket notation seen from the leaves of a value: which pairs `flatten` produces, how
//! many, and that their names do not collide.
use crate::json::{ascending, finite_tree, key_order, lemma_key_order, lemma_key_order_is, JsonView};
use crate::params::{bool_text, field_name, flatten, flatten_fields, flatten_items, item_name, pairs_view};
use crate::text::{
    decimal, lemma_decimal_digits, lemma_decimal_injective, lemma_text_lt_irreflexive, text_lt,
};
use vstd::prelude::*;

verus! {

/// A step from a value to one inside it.
pub enum Step {
    /// To the field of an object with this key.
    Key(Seq<char>),
    /// To the item of an array with this index.
    Index(nat),
}

/// The value that a path leads to, if it leads anywhere.
pub open spec fn descend(value: JsonView, path: Seq<Step>) -> Option<JsonView>
    decreases path.len(),
{
    if path.len() == 0 {
        Some(value)
    } else {
        match (value, path[0]) {
            (JsonView::Object(fields), Step::Key(key)) => if fields.contains_key(key) {
                descend(fields[key], path.drop_first())
            } else {
                None
            },
            (JsonView::Array(items), Step::Index(i)) => if i < items.len() {
                descend(items[i as int], path.drop_first())
            } else {
                None
            },
            _ => None,
        }
    }
}

/// The name of the value one step from the value named `prefix`.
pub open spec fn step_name(prefix: Seq<char>, step: Step) -> Seq<char> {
    match step {
        Step::Key(key) => field_name(prefix, key),
        Step::Index(i) => item_name(prefix, i),
    }
}

/// The name of the value that a path leads to from the value named `prefix`.
pub open spec fn path_name(prefix: Seq<char>, path: Seq<Step>) -> Seq<char>
    decreases path.len(),
{
    if path.len() == 0 {
        prefix
    } else {
        path_name(step_name(prefix, path[0]), path.drop_first())
    }
}

/// How a leaf is written. Null, arrays and objects are no leaves.
pub open spec fn leaf_text(value: JsonView) -> Option<Seq<char>> {
    match value {
        JsonView::Bool(b) => Some(bool_text(b)),
        JsonView::Number(n) => Some(n),
        JsonView::String(s) => Some(s),
        _ => None,
    }
}

/// A path through a first step goes on as the rest of it does from there.
proof fn lemma_step(value: JsonView, step: Step, rest: Seq<Step>, prefix: Seq<char>)
    ensures
        path_name(prefix, seq![step] + rest) == path_name(step_name(prefix, step), rest),
        descend(value, seq![step] + rest) == match (value, step) {
            (JsonView::Object(fields), Step::Key(key)) => if fields.contains_key(key) {
                descend(fields[key], rest)
            } else {
                None
            },
            (JsonView::Array(items), Step::Index(i)) => if i < items.len() {
                descend(items[i as int], rest)
            } else {
                None
            },
            _ => None,
        },
{
    let path = seq![step] + rest;
    assert(path[0] == step);
    assert(path.drop_first() =~= rest);
}

/// The paths to the leaves of a value, in the order in which the leaves are written.
pub open spec fn leaf_paths(value: JsonView) -> Seq<Seq<Step>>
    decreases value, 0nat,
{
    match value {
        JsonView::Null => Seq::empty(),
        JsonView::Array(items) => item_leaf_paths(items, items.len()),
        JsonView::Object(fields) => field_leaf_paths(fields, key_order(fields.dom())),
        _ => seq![Seq::empty()],
    }
}

/// The paths to the leaves in the first `n` items of an array.
pub open spec fn item_leaf_paths(items: Seq<JsonView>, n: nat) -> Seq<Seq<Step>>
    decreases items, n,
{
    if 0 < n <= items.len() {
        item_leaf_paths(items, (n - 1) as nat) + through(Step::Index((n - 1) as nat), leaf_paths(items[n - 1]))
    } else {
        Seq::empty()
    }
}

/// The paths to the leaves in the fields `keys`, in that order, of an object.
pub open spec fn field_leaf_paths(fields: Map<Seq<char>, JsonView>, keys: Seq<Seq<char>>) -> Seq<Seq<Step>>
    decreases fields, keys.len(),
{
    if keys.len() > 0 && fields.dom().finite() && fields.contains_key(keys.last()) {
        field_leaf_paths(fields, keys.drop_last()) + through(
            Step::Key(keys.last()),
            leaf_paths(fields[keys.last()]),
        )
    } else {
        Seq::empty()
    }
}

/// Paths that start with a given step.
pub open spec fn through(step: Step, paths: Seq<Seq<Step>>) -> Seq<Seq<Step>> {
    paths.map_values(|path: Seq<Step>| seq![step] + path)
}

/// The pair that writes the leaf of `value` that `path` leads to.
pub open spec fn leaf_pair(prefix: Seq<char>, value: JsonView, path: Seq<Step>) -> (Seq<char>, Seq<char>) {
    (path_name(prefix, path), leaf_text(descend(value, path)->0)->0)
}

/// Whether a path leads to a leaf.
pub open spec fn is_leaf_path(value: JsonView, path: Seq<Step>) -> bool {
    match descend(value, path) {
        Some(leaf) => leaf_text(leaf) is Some,
        None => false,
    }
}

/// Whether `pairs` writes the leaves of the value named `prefix` that `paths` lead to.
spec fn writes(pairs: Seq<(Seq<char>, Seq<char>)>, prefix: Seq<char>, value: JsonView, paths: Seq<Seq<Step>>) -> bool {
    &&& pairs.len() == paths.len()
    &&& forall|i: int|
        0 <= i < paths.len() ==> is_leaf_path(value, #[trigger] paths[i]) && pairs[i] == leaf_pair(
            prefix,
            value,
            paths[i],
        )
}

/// What is written of a value inside another is written of the other, through the step
/// that leads there.
proof fn lemma_writes_through(
    pairs: Seq<(Seq<char>, Seq<char>)>,
    prefix: Seq<char>,
    value: JsonView,
    step: Step,
    inner: JsonView,
    paths: Seq<Seq<Step>>,
)
    requires
        writes(pairs, step_name(prefix, step), inner, paths),
        descend(value, seq![step]) == Some(inner),
    ensures
        writes(pairs, prefix, value, through(step, paths)),
{
    let longer = through(step, paths);
    assert(seq![step] + Seq::<Step>::empty() =~= seq![step]);
    lemma_step(value, step, Seq::empty(), prefix);
    assert forall|i: int| 0 <= i < longer.len() implies is_leaf_path(value, #[trigger] longer[i]) && pairs[i]
        == leaf_pair(prefix, value, longer[i]) by {
        assert(longer[i] == seq![step] + paths[i]);
        assert(is_leaf_path(inner, paths[i]));
        lemma_step(value, step, paths[i], prefix);
    }
}

proof fn lemma_writes_both(
    a: Seq<(Seq<char>, Seq<char>)>,
    b: Seq<(Seq<char>, Seq<char>)>,
    prefix: Seq<char>,
    value: JsonView,
    a_paths: Seq<Seq<Step>>,
    b_paths: Seq<Seq<Step>>,
)
    requires
        writes(a, prefix, value, a_paths),
        writes(b, prefix, value, b_paths),
    ensures
        writes(a + b, prefix, value, a_paths + b_paths),
{
    let paths = a_paths + b_paths;
    assert forall|i: int| 0 <= i < paths.len() implies is_leaf_path(value, #[trigger] paths[i]) && (a + b)[i]
        == leaf_pair(prefix, value, paths[i]) by {
        if i < a.len() {
            assert(paths[i] == a_paths[i]);
        } else {
            assert(paths[i] == b_paths[i - a.len()]);
        }
    }
}

proof fn lemma_flatten_writes(prefix: Seq<char>, value: JsonView)
    requires
        finite_tree(value),
    ensures
        writes(flatten(prefix, value), prefix, value, leaf_paths(value)),
    decreases value, 0nat,
{
    match value {
        JsonView::Null => {},
        JsonView::Array(items) => {
            lemma_flatten_items_writes(prefix, items, items.len());
        },
        JsonView::Object(fields) => {
            lemma_key_order(fields.dom());
            let keys = key_order(fields.dom());
            assert forall|i: int| 0 <= i < keys.len() implies fields.contains_key(#[trigger] keys[i]) by {
                assert(keys.to_set().contains(keys[i]));
            }
            lemma_flatten_fields_writes(prefix, fields, keys);
        },
        _ => {
            let paths = leaf_paths(value);
            assert(paths[0] == Seq::<Step>::empty());
            assert(is_leaf_path(value, paths[0]));
        },
    }
}

proof fn lemma_flatten_items_writes(prefix: Seq<char>, items: Seq<JsonView>, n: nat)
    requires
        finite_tree(JsonView::Array(items)),
        n <= items.len(),
    ensures
        writes(flatten_items(prefix, items, n), prefix, JsonView::Array(items), item_leaf_paths(items, n)),
    decreases items, n,
{
    if n > 0 {
        let array = JsonView::Array(items);
        let step = Step::Index((n - 1) as nat);
        let inner = items[n - 1];
        assert(array->Array_0[n - 1] == inner);
        lemma_flatten_items_writes(prefix, items, (n - 1) as nat);
        lemma_flatten_writes(item_name(prefix, (n - 1) as nat), inner);
        lemma_step(array, step, Seq::empty(), prefix);
        assert(seq![step] + Seq::<Step>::empty() =~= seq![step]);
        lemma_writes_through(
            flatten(item_name(prefix, (n - 1) as nat), inner),
            prefix,
            array,
            step,
            inner,
            leaf_paths(inner),
        );
        lemma_writes_both(
            flatten_items(prefix, items, (n - 1) as nat),
            flatten(item_name(prefix, (n - 1) as nat), inner),
            prefix,
            array,
            item_leaf_paths(items, (n - 1) as nat),
            through(step, leaf_paths(inner)),
        );
    }
}

proof fn lemma_flatten_fields_writes(prefix: Seq<char>, fields: Map<Seq<char>, JsonView>, keys: Seq<Seq<char>>)
    requires
        finite_tree(JsonView::Object(fields)),
        forall|i: int| 0 <= i < keys.len() ==> fields.contains_key(#[trigger] keys[i]),
    ensures
        writes(flatten_fields(prefix, fields, keys), prefix, JsonView::Object(fields), field_leaf_paths(fields, keys)),
    decreases fields, keys.len(),
{
    if keys.len() > 0 {
        let object = JsonView::Object(fields);
        let key = keys[keys.len() - 1];
        let step = Step::Key(key);
        let inner = fields[key];
        assert(fields.contains_key(key));
        lemma_flatten_fields_writes(prefix, fields, keys.drop_last());
        lemma_flatten_writes(field_name(prefix, key), inner);
        lemma_step(object, step, Seq::empty(), prefix);
        assert(seq![step] + Seq::<Step>::empty() =~= seq![step]);
        lemma_writes_through(
            flatten(field_name(prefix, key), inner),
            prefix,
            object,
            step,
            inner,
            leaf_paths(inner),
        );
        lemma_writes_both(
            flatten_fields(prefix, fields, keys.drop_last()),
            flatten(field_name(prefix, key), inner),
            prefix,
            object,
            field_leaf_paths(fields, keys.drop_last()),
            through(step, leaf_paths(inner)),
        );
    }
}

proof fn lemma_every_leaf_path(value: JsonView, path: Seq<Step>)
    requires
        finite_tree(value),
        is_leaf_path(value, path),
    ensures
        leaf_paths(value).contains(path),
    decreases path.len(),
{
    if path.len() == 0 {
        assert(path =~= Seq::<Step>::empty());
        assert(leaf_paths(value)[0] == path);
    } else {
        let rest = path.drop_first();
        assert(path =~= seq![path[0]] + rest);
        match (value, path[0]) {
            (JsonView::Object(fields), Step::Key(key)) => {
                lemma_every_leaf_path(fields[key], rest);
                lemma_key_order(fields.dom());
                let keys = key_order(fields.dom());
                assert(keys.to_set().contains(key));
                assert forall|i: int| 0 <= i < keys.len() implies fields.contains_key(#[trigger] keys[i]) by {
                    assert(keys.to_set().contains(keys[i]));
                }
                let at = choose|at: int| 0 <= at < keys.len() && keys[at] == key;
                lemma_through_field(fields, keys, at, rest);
            },
            (JsonView::Array(items), Step::Index(i)) => {
                assert(value->Array_0[i as int] == items[i as int]);
                lemma_every_leaf_path(items[i as int], rest);
                lemma_through_item(items, items.len(), i as int, rest);
            },
            _ => {},
        }
    }
}

proof fn lemma_through(step: Step, paths: Seq<Seq<Step>>, rest: Seq<Step>)
    requires
        paths.contains(rest),
    ensures
        through(step, paths).contains(seq![step] + rest),
{
    let j = choose|j: int| 0 <= j < paths.len() && paths[j] == rest;
    assert(through(step, paths)[j] == seq![step] + rest);
}

proof fn lemma_in_concat<A>(a: Seq<A>, b: Seq<A>, x: A)
    requires
        a.contains(x) || b.contains(x),
    ensures
        (a + b).contains(x),
{
    if a.contains(x) {
        let i = choose|i: int| 0 <= i < a.len() && a[i] == x;
        assert((a + b)[i] == x);
    } else {
        let i = choose|i: int| 0 <= i < b.len() && b[i] == x;
        assert((a + b)[a.len() + i] == x);
    }
}

proof fn lemma_through_field(fields: Map<Seq<char>, JsonView>, keys: Seq<Seq<char>>, at: int, rest: Seq<Step>)
    requires
        fields.dom().finite(),
        forall|i: int| 0 <= i < keys.len() ==> fields.contains_key(#[trigger] keys[i]),
        0 <= at < keys.len(),
        leaf_paths(fields[keys[at]]).contains(rest),
    ensures
        field_leaf_paths(fields, keys).contains(seq![Step::Key(keys[at])] + rest),
    decreases keys.len(),
{
    let path = seq![Step::Key(keys[at])] + rest;
    let last = keys[keys.len() - 1];
    assert(fields.contains_key(last));
    if at == keys.len() - 1 {
        lemma_through(Step::Key(last), leaf_paths(fields[last]), rest);
    } else {
        lemma_through_field(fields, keys.drop_last(), at, rest);
    }
    lemma_in_concat(
        field_leaf_paths(fields, keys.drop_last()),
        through(Step::Key(last), leaf_paths(fields[last])),
        path,
    );
}

proof fn lemma_through_item(items: Seq<JsonView>, n: nat, at: int, rest: Seq<Step>)
    requires
        n <= items.len(),
        0 <= at < n,
        leaf_paths(items[at]).contains(rest),
    ensures
        item_leaf_paths(items, n).contains(seq![Step::Index(at as nat)] + rest),
    decreases n,
{
    let path = seq![Step::Index(at as nat)] + rest;
    let step = Step::Index((n - 1) as nat);
    if at == n - 1 {
        lemma_through(step, leaf_paths(items[at]), rest);
    } else {
        lemma_through_item(items, (n - 1) as nat, at, rest);
    }
    lemma_in_concat(item_leaf_paths(items, (n - 1) as nat), through(step, leaf_paths(items[n - 1])), path);
}

proof fn lemma_leaf_paths_distinct(value: JsonView)
    requires
        finite_tree(value),
    ensures
        leaf_paths(value).no_duplicates(),
    decreases value, 0nat,
{
    match value {
        JsonView::Array(items) => {
            lemma_item_leaf_paths_distinct(items, items.len());
        },
        JsonView::Object(fields) => {
            lemma_key_order(fields.dom());
            lemma_field_leaf_paths_distinct(fields, key_order(fields.dom()));
        },
        _ => {},
    }
}

proof fn lemma_through_distinct(step: Step, paths: Seq<Seq<Step>>)
    requires
        paths.no_duplicates(),
    ensures
        through(step, paths).no_duplicates(),
        forall|i: int|
            0 <= i < through(step, paths).len() ==> (#[trigger] through(step, paths)[i]).len() > 0 && through(
                step,
                paths,
            )[i][0] == step,
{
    let longer = through(step, paths);
    assert forall|i: int, j: int| 0 <= i < longer.len() && 0 <= j < longer.len() && i != j implies longer[i]
        != longer[j] by {
        assert(longer[i] == seq![step] + paths[i]);
        assert(longer[j] == seq![step] + paths[j]);
        assert(longer[i].drop_first() =~= paths[i]);
        assert(longer[j].drop_first() =~= paths[j]);
    }
}

proof fn lemma_item_leaf_paths_distinct(items: Seq<JsonView>, n: nat)
    requires
        finite_tree(JsonView::Array(items)),
        n <= items.len(),
    ensures
        item_leaf_paths(items, n).no_duplicates(),
        forall|i: int|
            0 <= i < item_leaf_paths(items, n).len() ==> (#[trigger] item_leaf_paths(items, n)[i]).len() > 0
                && item_leaf_paths(items, n)[i][0] is Index && item_leaf_paths(items, n)[i][0]->Index_0 < n,
    decreases items, n,
{
    if n > 0 {
        let array = JsonView::Array(items);
        assert(array->Array_0[n - 1] == items[n - 1]);
        lemma_item_leaf_paths_distinct(items, (n - 1) as nat);
        lemma_leaf_paths_distinct(items[n - 1]);
        lemma_through_distinct(Step::Index((n - 1) as nat), leaf_paths(items[n - 1]));
        let a = item_leaf_paths(items, (n - 1) as nat);
        let b = through(Step::Index((n - 1) as nat), leaf_paths(items[n - 1]));
        assert forall|i: int, j: int| 0 <= i < a.len() && 0 <= j < b.len() implies a[i] != b[j] by {
            assert(a[i][0] != b[j][0]);
        }
        assert forall|i: int| 0 <= i < (a + b).len() implies (#[trigger] (a + b)[i]).len() > 0 && (a + b)[i][0] is Index
            && (a + b)[i][0]->Index_0 < n by {
            if i < a.len() {
                assert((a + b)[i] == a[i]);
            } else {
                assert((a + b)[i] == b[i - a.len()]);
            }
        }
    }
}

proof fn lemma_field_leaf_paths_distinct(fields: Map<Seq<char>, JsonView>, keys: Seq<Seq<char>>)
    requires
        finite_tree(JsonView::Object(fields)),
        ascending(keys),
    ensures
        field_leaf_paths(fields, keys).no_duplicates(),
        forall|i: int|
            0 <= i < field_leaf_paths(fields, keys).len() ==> (#[trigger] field_leaf_paths(fields, keys)[i]).len() > 0
                && field_leaf_paths(fields, keys)[i][0] is Key && keys.contains(
                field_leaf_paths(fields, keys)[i][0]->Key_0,
            ),
    decreases fields, keys.len(),
{
    if keys.len() > 0 && fields.contains_key(keys.last()) {
        let key = keys.last();
        lemma_field_leaf_paths_distinct(fields, keys.drop_last());
        lemma_leaf_paths_distinct(fields[key]);
        lemma_through_distinct(Step::Key(key), leaf_paths(fields[key]));
        let a = field_leaf_paths(fields, keys.drop_last());
        let b = through(Step::Key(key), leaf_paths(fields[key]));
        assert forall|i: int, j: int| 0 <= i < a.len() && 0 <= j < b.len() implies a[i] != b[j] by {
            let k = a[i][0]->Key_0;
            assert(keys.drop_last().contains(k));
            let at = choose|at: int| 0 <= at < keys.drop_last().len() && keys.drop_last()[at] == k;
            assert(text_lt(keys[at], keys[keys.len() - 1]));
            lemma_text_lt_irreflexive(key);
            assert(a[i][0] != b[j][0]);
        }
        assert forall|i: int| 0 <= i < (a + b).len() implies (#[trigger] (a + b)[i]).len() > 0 && (a + b)[i][0] is Key
            && keys.contains((a + b)[i][0]->Key_0) by {
            if i < a.len() {
                assert((a + b)[i] == a[i]);
                let k = a[i][0]->Key_0;
                let at = choose|at: int| 0 <= at < keys.drop_last().len() && keys.drop_last()[at] == k;
                assert(keys[at] == k);
            } else {
                assert((a + b)[i] == b[i - a.len()]);
                assert(keys[keys.len() - 1] == key);
            }
        }
    }
}

/// Bracket notation writes each leaf of a value once and nothing else: `leaf_paths` holds
/// exactly the paths to the leaves, each of them once, and the pair at each place has the
/// name and the text of the leaf that the path at that place leads to.
pub proof fn law_flatten_writes_each_leaf_once(prefix: Seq<char>, value: JsonView)
    requires
        finite_tree(value),
    ensures
        forall|path: Seq<Step>| #[trigger] leaf_paths(value).contains(path) <==> is_leaf_path(value, path),
        leaf_paths(value).no_duplicates(),
        flatten(prefix, value).len() == leaf_paths(value).len(),
        forall|i: int|
            0 <= i < leaf_paths(value).len() ==> flatten(prefix, value)[i] == leaf_pair(
                prefix,
                value,
                #[trigger] leaf_paths(value)[i],
            ),
{
    lemma_flatten_writes(prefix, value);
    lemma_leaf_paths_distinct(value);
    assert forall|path: Seq<Step>| #[trigger] leaf_paths(value).contains(path) <==> is_leaf_path(value, path) by {
        if is_leaf_path(value, path) {
            lemma_every_leaf_path(value, path);
        }
    }
}

/// A key that bracket notation can set apart: it is not empty and has no brackets.
pub open spec fn plain_key(key: Seq<char>) -> bool {
    key.len() > 0 && !key.contains('[') && !key.contains(']')
}

/// Whether every key in a value is plain.
pub open spec fn plain_tree(value: JsonView) -> bool
    decreases value,
{
    match value {
        JsonView::Array(items) => {
            forall|i: int| 0 <= i < items.len() ==> plain_tree(#[trigger] items[i])
        },
        JsonView::Object(fields) => {
            &&& fields.dom().finite()
            &&& forall|k: Seq<char>| #[trigger] fields.contains_key(k) ==> plain_key(k) && plain_tree(fields[k])
        },
        _ => true,
    }
}

/// The name of a value inside the value named `prefix` starts with `prefix`, and goes on
/// with a bracket.
proof fn lemma_path_name_extends(prefix: Seq<char>, path: Seq<Step>)
    requires
        prefix.len() > 0,
    ensures
        path_name(prefix, path).len() >= prefix.len(),
        forall|i: int| 0 <= i < prefix.len() ==> #[trigger] path_name(prefix, path)[i] == prefix[i],
        path_name(prefix, path).len() > prefix.len() ==> path_name(prefix, path)[prefix.len() as int] == '[',
    decreases path.len(),
{
    if path.len() > 0 {
        let longer = step_name(prefix, path[0]);
        lemma_path_name_extends(longer, path.drop_first());
        let name = path_name(prefix, path);
        assert(longer[prefix.len() as int] == '[');
        assert forall|i: int| 0 <= i < prefix.len() implies #[trigger] name[i] == prefix[i] by {
            assert(longer[i] == prefix[i]);
        }
    }
}

/// Two names that go on from different bracketed parts of one prefix are different, if no
/// part has a closing bracket.
proof fn lemma_bracketed_differ(prefix: Seq<char>, a: Seq<char>, b: Seq<char>, name: Seq<char>)
    requires
        !a.contains(']'),
        !b.contains(']'),
        (prefix + seq!['['] + a + seq![']']).is_prefix_of(name),
        (prefix + seq!['['] + b + seq![']']).is_prefix_of(name),
    ensures
        a == b,
{
    let x = prefix + seq!['['] + a + seq![']'];
    let y = prefix + seq!['['] + b + seq![']'];
    let p = prefix.len() as int;
    assert forall|i: int| 0 <= i < a.len() implies name[p + 1 + i] == #[trigger] a[i] by {
        assert(x[p + 1 + i] == a[i]);
    }
    assert forall|i: int| 0 <= i < b.len() implies name[p + 1 + i] == #[trigger] b[i] by {
        assert(y[p + 1 + i] == b[i]);
    }
    assert(x[p + 1 + a.len()] == ']');
    assert(y[p + 1 + b.len()] == ']');
    assert(name[p + 1 + a.len()] == ']');
    assert(name[p + 1 + b.len()] == ']');
    if a.len() < b.len() {
        assert(b[a.len() as int] == ']');
        assert(b.contains(']'));
    }
    if b.len() < a.len() {
        assert(a[b.len() as int] == ']');
        assert(a.contains(']'));
    }
    assert forall|i: int| 0 <= i < a.len() implies a[i] == b[i] by {
        assert(name[p + 1 + i] == a[i]);
        assert(name[p + 1 + i] == b[i]);
    }
    assert(a =~= b);
}

/// Two steps from one value lead to different names, whatever follows.
proof fn lemma_steps_differ(prefix: Seq<char>, s: Step, t: Step, p: Seq<Step>, q: Seq<Step>)
    requires
        s != t,
        s is Key == t is Key,
        s matches Step::Key(k) ==> plain_key(k),
        t matches Step::Key(k) ==> plain_key(k),
    ensures
        path_name(step_name(prefix, s), p) != path_name(step_name(prefix, t), q),
{
    let x = step_name(prefix, s);
    let y = step_name(prefix, t);
    lemma_path_name_extends(x, p);
    lemma_path_name_extends(y, q);
    let name = path_name(x, p);
    if name == path_name(y, q) {
        assert(x.is_prefix_of(name)) by {
            assert(name.subrange(0, x.len() as int) =~= x);
        }
        assert(y.is_prefix_of(name)) by {
            assert(name.subrange(0, y.len() as int) =~= y);
        }
        match (s, t) {
            (Step::Index(i), Step::Index(j)) => {
                lemma_decimal_digits(i);
                lemma_decimal_digits(j);
                lemma_bracketed_differ(prefix, decimal(i), decimal(j), name);
                lemma_decimal_injective(i, j);
            },
            (Step::Key(k), Step::Key(m)) => {
                if prefix.len() > 0 {
                    lemma_bracketed_differ(prefix, k, m, name);
                } else {
                    if k.len() < m.len() {
                        assert(name[k.len() as int] == m[k.len() as int]);
                        assert(m.contains('['));
                    }
                    if m.len() < k.len() {
                        assert(name[m.len() as int] == k[m.len() as int]);
                        assert(k.contains('['));
                    }
                    assert forall|i: int| 0 <= i < k.len() implies k[i] == m[i] by {
                        assert(name[i] == k[i]);
                        assert(name[i] == m[i]);
                    }
                    assert(k =~= m);
                }
            },
            _ => {},
        }
    }
}

proof fn lemma_leaf_names_differ(prefix: Seq<char>, value: JsonView, p: Seq<Step>, q: Seq<Step>)
    requires
        plain_tree(value),
        is_leaf_path(value, p),
        is_leaf_path(value, q),
        p != q,
    ensures
        path_name(prefix, p) != path_name(prefix, q),
    decreases p.len(),
{
    if p.len() == 0 || q.len() == 0 {
        assert(p.len() == q.len() ==> p =~= q);
    } else {
        let s = p[0];
        let t = q[0];
        if s == t {
            assert(p =~= seq![s] + p.drop_first());
            assert(q =~= seq![t] + q.drop_first());
            match (value, s) {
                (JsonView::Object(fields), Step::Key(key)) => {
                    assert(fields.contains_key(key));
                    lemma_leaf_names_differ(field_name(prefix, key), fields[key], p.drop_first(), q.drop_first());
                },
                (JsonView::Array(items), Step::Index(i)) => {
                    assert(value->Array_0[i as int] == items[i as int]);
                    lemma_leaf_names_differ(
                        item_name(prefix, i),
                        items[i as int],
                        p.drop_first(),
                        q.drop_first(),
                    );
                },
                _ => {},
            }
        } else {
            match value {
                JsonView::Object(fields) => {
                    assert(fields.contains_key(s->Key_0));
                    assert(fields.contains_key(t->Key_0));
                },
                _ => {},
            }
            lemma_steps_differ(prefix, s, t, p.drop_first(), q.drop_first());
        }
    }
}

/// No two parameters share a name, as long as no key is empty or has a bracket in it.
pub proof fn law_names_do_not_collide(prefix: Seq<char>, value: JsonView)
    requires
        finite_tree(value),
        plain_tree(value),
    ensures
        forall|i: int, j: int|
            0 <= i < j < flatten(prefix, value).len() ==> (#[trigger] flatten(prefix, value)[i]).0 != (
            #[trigger] flatten(prefix, value)[j]).0,
{
    law_flatten_writes_each_leaf_once(prefix, value);
    let paths = leaf_paths(value);
    let pairs = flatten(prefix, value);
    assert forall|i: int, j: int| 0 <= i < j < pairs.len() implies (#[trigger] pairs[i]).0 != (#[trigger] pairs[j]).0 by {
        assert(paths.contains(paths[i]));
        assert(paths.contains(paths[j]));
        assert(is_leaf_path(value, paths[i]));
        assert(is_leaf_path(value, paths[j]));
        lemma_leaf_names_differ(prefix, value, paths[i], paths[j]);
    }
}

// ---- What is written of a value ----

/// A field of the object named `prefix` is named by that name and its key in brackets, an
/// item of the array named `prefix` by that name and its index in brackets. The fields of
/// an object without a name are named by their keys.
pub proof fn law_names(prefix: Seq<char>, key: Seq<char>, i: nat)
    ensures
        prefix.len() > 0 ==> field_name(prefix, key) == prefix + "["@ + key + "]"@,
        field_name(Seq::empty(), key) == key,
        item_name(prefix, i) == prefix + "["@ + decimal(i) + "]"@,
{
    reveal_strlit("[");
    reveal_strlit("]");
    assert("["@ =~= seq!['[']);
    assert("]"@ =~= seq![']']);
}

/// A scalar is written as one pair, under the name that it has. A null is not written.
pub proof fn law_scalars_are_written_as_they_are(prefix: Seq<char>, text: Seq<char>)
    ensures
        flatten(prefix, JsonView::Null) == Seq::<(Seq<char>, Seq<char>)>::empty(),
        flatten(prefix, JsonView::Bool(true)) == seq![(prefix, "true"@)],
        flatten(prefix, JsonView::Bool(false)) == seq![(prefix, "false"@)],
        flatten(prefix, JsonView::Number(text)) == seq![(prefix, text)],
        flatten(prefix, JsonView::String(text)) == seq![(prefix, text)],
{
}

/// The first items of an array are written alike, whatever follows them.
proof fn lemma_flatten_items_alike(prefix: Seq<char>, items: Seq<JsonView>, last: JsonView, n: nat)
    requires
        n <= items.len(),
    ensures
        flatten_items(prefix, items.push(last), n) == flatten_items(prefix, items, n),
    decreases n,
{
    if n > 0 {
        lemma_flatten_items_alike(prefix, items, last, (n - 1) as nat);
        assert(items.push(last)[n - 1] == items[n - 1]);
    }
}

/// An item at the end of an array is written behind the others, under the name of the array
/// with the number of items before it in brackets. An array without items is not written.
pub proof fn law_arrays_are_written_item_by_item(prefix: Seq<char>, items: Seq<JsonView>, last: JsonView)
    ensures
        flatten(prefix, JsonView::Array(Seq::empty())) == Seq::<(Seq<char>, Seq<char>)>::empty(),
        flatten(prefix, JsonView::Array(items.push(last))) == flatten(prefix, JsonView::Array(items)) + flatten(
            prefix + "["@ + decimal(items.len()) + "]"@,
            last,
        ),
{
    law_names(prefix, Seq::empty(), items.len());
    lemma_flatten_items_alike(prefix, items, last, items.len());
    assert(items.push(last)[items.len() as int] == last);
    let none = Seq::<JsonView>::empty();
    assert(flatten_items(prefix, none, none.len()) =~= Seq::empty());
}

/// Fields are written alike, whatever another field holds.
proof fn lemma_flatten_fields_alike(
    prefix: Seq<char>,
    fields: Map<Seq<char>, JsonView>,
    keys: Seq<Seq<char>>,
    key: Seq<char>,
    value: JsonView,
)
    requires
        fields.dom().finite(),
        forall|i: int| 0 <= i < keys.len() ==> fields.contains_key(#[trigger] keys[i]) && keys[i] != key,
    ensures
        flatten_fields(prefix, fields.insert(key, value), keys) == flatten_fields(prefix, fields, keys),
    decreases keys.len(),
{
    if keys.len() > 0 {
        assert(fields.contains_key(keys[keys.len() - 1]));
        lemma_flatten_fields_alike(prefix, fields, keys.drop_last(), key, value);
    }
}

/// The field of an object with the greatest key is written behind the others: under its key
/// if the object has no name, else under the name of the object with the key in brackets. An
/// object without fields is not written.
pub proof fn law_objects_are_written_field_by_field(
    prefix: Seq<char>,
    fields: Map<Seq<char>, JsonView>,
    key: Seq<char>,
    value: JsonView,
)
    requires
        fields.dom().finite(),
        forall|k: Seq<char>| #[trigger] fields.contains_key(k) ==> text_lt(k, key),
    ensures
        flatten(prefix, JsonView::Object(Map::empty())) == Seq::<(Seq<char>, Seq<char>)>::empty(),
        flatten(prefix, JsonView::Object(fields.insert(key, value))) == flatten(prefix, JsonView::Object(fields))
            + flatten(
            if prefix.len() == 0 {
                key
            } else {
                prefix + "["@ + key + "]"@
            },
            value,
        ),
{
    law_names(prefix, key, 0);
    assert(prefix.len() == 0 ==> prefix =~= Seq::<char>::empty());
    let none = Seq::<Seq<char>>::empty();
    let nothing = Map::<Seq<char>, JsonView>::empty();
    assert(none.to_set() =~= nothing.dom());
    lemma_key_order_is(none, nothing.dom());
    let order = key_order(fields.dom());
    let wider = fields.insert(key, value);
    lemma_key_order(fields.dom());
    let longer = order.push(key);
    assert forall|i: int| 0 <= i < order.len() implies fields.contains_key(#[trigger] order[i]) && order[i] != key by {
        assert(order.to_set().contains(order[i]));
        lemma_text_lt_irreflexive(key);
    }
    assert(longer.to_set() =~= wider.dom()) by {
        order.lemma_push_to_set_commute(key);
    }
    lemma_key_order_is(longer, wider.dom());
    lemma_flatten_fields_alike(prefix, fields, order, key, value);
    assert(longer.drop_last() =~= order);
    assert(longer.last() == key);
}

/// An object with one field is written as the value of that field.
pub proof fn law_single_field(prefix: Seq<char>, key: Seq<char>, value: JsonView)
    ensures
        flatten(prefix, JsonView::Object(map![key => value])) == flatten(
            if prefix.len() == 0 {
                key
            } else {
                prefix + "["@ + key + "]"@
            },
            value,
        ),
{
    let nothing = Map::<Seq<char>, JsonView>::empty();
    law_objects_are_written_field_by_field(prefix, nothing, key, value);
    let name = if prefix.len() == 0 {
        key
    } else {
        prefix + "["@ + key + "]"@
    };
    assert(Seq::<(Seq<char>, Seq<char>)>::empty() + flatten(name, value) =~= flatten(name, value));
}

/// The key in front, and each further key in brackets behind it.
pub open spec fn keys_in_brackets(first: Seq<char>, further: Seq<Seq<char>>) -> Seq<char>
    decreases further.len(),
{
    if further.len() == 0 {
        first
    } else {
        keys_in_brackets(first + "["@ + further[0] + "]"@, further.drop_first())
    }
}

/// A text at the end of a chain of objects, each the only field of the one before.
pub open spec fn chain(keys: Seq<Seq<char>>, text: Seq<char>) -> JsonView
    decreases keys.len(),
{
    if keys.len() == 0 {
        JsonView::String(text)
    } else {
        JsonView::Object(map![keys[0] => chain(keys.drop_first(), text)])
    }
}

proof fn lemma_chain(name: Seq<char>, keys: Seq<Seq<char>>, text: Seq<char>)
    requires
        name.len() > 0,
    ensures
        flatten(name, chain(keys, text)) == seq![(keys_in_brackets(name, keys), text)],
    decreases keys.len(),
{
    if keys.len() > 0 {
        law_single_field(name, keys[0], chain(keys.drop_first(), text));
        lemma_chain(name + "["@ + keys[0] + "]"@, keys.drop_first(), text);
    }
}

/// However deep objects are nested, a text inside them is named by the outermost key and
/// then each further key on the way to it in brackets.
pub proof fn law_nested_keys(first: Seq<char>, further: Seq<Seq<char>>, text: Seq<char>)
    requires
        first.len() > 0,
    ensures
        flatten(Seq::empty(), chain(seq![first] + further, text)) == seq![(keys_in_brackets(first, further), text)],
{
    let keys = seq![first] + further;
    assert(keys.drop_first() =~= further);
    law_single_field(Seq::empty(), first, chain(further, text));
    lemma_chain(first, further, text);
}

/// A text three objects deep is named by its first key and the two others in brackets.
pub proof fn law_three_keys(a: Seq<char>, b: Seq<char>, c: Seq<char>, text: Seq<char>)
    requires
        a.len() > 0,
    ensures
        flatten(
            Seq::empty(),
            JsonView::Object(
                map![a => JsonView::Object(map![b => JsonView::Object(map![c => JsonView::String(text)])])],
            ),
        ) == seq![(a + "["@ + b + "]["@ + c + "]"@, text)],
{
    let inner = JsonView::Object(map![c => JsonView::String(text)]);
    let middle = JsonView::Object(map![b => inner]);
    let name = a + "["@ + b + "]"@;
    law_single_field(Seq::empty(), a, middle);
    law_single_field(a, b, inner);
    law_single_field(name, c, JsonView::String(text));
    reveal_strlit("[");
    reveal_strlit("]");
    reveal_strlit("][");
    assert(name + "["@ + c + "]"@ =~= a + "["@ + b + "]["@ + c + "]"@);
}

proof fn lemma_field_pairs(
    prefix: Seq<char>,
    fields: Map<Seq<char>, JsonView>,
    keys: Seq<Seq<char>>,
    at: int,
    pair: (Seq<char>, Seq<char>),
)
    requires
        fields.dom().finite(),
        forall|i: int| 0 <= i < keys.len() ==> fields.contains_key(#[trigger] keys[i]),
        0 <= at < keys.len(),
        flatten(field_name(prefix, keys[at]), fields[keys[at]]).contains(pair),
    ensures
        flatten_fields(prefix, fields, keys).contains(pair),
    decreases keys.len(),
{
    let last = keys[keys.len() - 1];
    assert(fields.contains_key(last));
    if at < keys.len() - 1 {
        lemma_field_pairs(prefix, fields, keys.drop_last(), at, pair);
    }
    lemma_in_concat(
        flatten_fields(prefix, fields, keys.drop_last()),
        flatten(field_name(prefix, last), fields[last]),
        pair,
    );
}

/// What is written of a field is written of the object: under its key if the object has no
/// name, else under the name of the object with the key in brackets.
pub proof fn law_every_field_is_written(
    prefix: Seq<char>,
    fields: Map<Seq<char>, JsonView>,
    key: Seq<char>,
    pair: (Seq<char>, Seq<char>),
)
    requires
        fields.dom().finite(),
        fields.contains_key(key),
        flatten(
            if prefix.len() == 0 {
                key
            } else {
                prefix + "["@ + key + "]"@
            },
            fields[key],
        ).contains(pair),
    ensures
        flatten(prefix, JsonView::Object(fields)).contains(pair),
{
    law_names(prefix, key, 0);
    assert(prefix.len() == 0 ==> prefix =~= Seq::<char>::empty());
    lemma_key_order(fields.dom());
    let keys = key_order(fields.dom());
    assert forall|i: int| 0 <= i < keys.len() implies fields.contains_key(#[trigger] keys[i]) by {
        assert(keys.to_set().contains(keys[i]));
    }
    assert(keys.to_set().contains(key));
    let at = choose|at: int| 0 <= at < keys.len() && keys[at] == key;
    lemma_field_pairs(prefix, fields, keys, at, pair);
}

/// Each parameter of a call that is a scalar is sent under its own name.
pub proof fn law_scalar_fields_are_sent(fields: Map<Seq<char>, JsonView>, key: Seq<char>)
    requires
        fields.dom().finite(),
        fields.contains_key(key),
    ensures
        match fields[key] {
            JsonView::String(text) => flatten(Seq::empty(), JsonView::Object(fields)).contains((key, text)),
            JsonView::Number(text) => flatten(Seq::empty(), JsonView::Object(fields)).contains((key, text)),
            JsonView::Bool(b) => flatten(Seq::empty(), JsonView::Object(fields)).contains(
                (key, if b {
                    "true"@
                } else {
                    "false"@
                }),
            ),
            _ => true,
        },
{
    let written = flatten(key, fields[key]);
    if fields[key] is String || fields[key] is Number || fields[key] is Bool {
        assert(written.contains(written[0]));
        law_every_field_is_written(Seq::empty(), fields, key, written[0]);
    }
}

/// A list of pairs of strings reads as the same pairs of texts, in the same places.
pub proof fn law_pairs_model(pairs: Seq<(String, String)>)
    ensures
        pairs_view(pairs).len() == pairs.len(),
        forall|i: int|
            0 <= i < pairs.len() ==> (#[trigger] pairs_view(pairs)[i]).0 == pairs[i].0@ && pairs_view(pairs)[i].1
                == pairs[i].1@,
{
}

} // verus!
