//! JSON values: what the parameters of a call to Stripe are made of.
use crate::text::{
    integer_text, lemma_text_lt_irreflexive, lemma_text_lt_total, lemma_text_lt_transitive, text_before, text_lt,
    write_decimal, write_integer,
};
use vstd::prelude::*;

verus! {

/// A JSON number: an integer, or a number with a fraction or an exponent, which is kept
/// in its shortest decimal notation.
pub enum Number {
    PosInt(u64),
    NegInt(i64),
    Float(String),
}

impl Number {
    /// The number as it is written.
    pub open spec fn text(self) -> Seq<char> {
        match self {
            Number::PosInt(n) => integer_text(n as int),
            Number::NegInt(n) => integer_text(n as int),
            Number::Float(s) => s@,
        }
    }

    /// The number as it is written.
    pub fn to_text(&self) -> (s: String)
        ensures
            s@ == self.text(),
    {
        match self {
            Number::PosInt(n) => write_decimal(*n),
            Number::NegInt(n) => write_integer(*n),
            Number::Float(s) => s.clone(),
        }
    }
}

/// A JSON value.
pub enum Json {
    Null,
    Bool(bool),
    Number(Number),
    String(String),
    Array(Vec<Json>),
    Object(JsonObject),
}

/// The fields of a JSON object, in ascending order of their keys. No key occurs twice.
pub struct JsonObject {
    entries: Vec<(String, Json)>,
}

/// A JSON value as a mathematical tree: a number is the text that writes it, and an
/// object is a map from keys to values.
pub enum JsonView {
    Null,
    Bool(bool),
    Number(Seq<char>),
    String(Seq<char>),
    Array(Seq<JsonView>),
    Object(Map<Seq<char>, JsonView>),
}

impl Json {
    pub open spec fn tree(self) -> JsonView
        decreases self,
    {
        match self {
            Json::Null => JsonView::Null,
            Json::Bool(b) => JsonView::Bool(b),
            Json::Number(n) => JsonView::Number(n.text()),
            Json::String(s) => JsonView::String(s@),
            Json::Array(items) => JsonView::Array(
                Seq::new(
                    items@.len(),
                    |i: int|
                        if 0 <= i < items@.len() {
                            items@[i].tree()
                        } else {
                            JsonView::Null
                        },
                ),
            ),
            Json::Object(object) => JsonView::Object(object.fields()),
        }
    }
}

impl Json {
    /// Whether this is the null value.
    pub fn is_null(&self) -> (null: bool)
        ensures
            null == (self@ is Null),
    {
        matches!(self, Json::Null)
    }
}

impl View for Json {
    type V = JsonView;

    open spec fn view(&self) -> JsonView {
        self.tree()
    }
}

impl JsonObject {
    pub closed spec fn fields(self) -> Map<Seq<char>, JsonView>
        decreases self,
    {
        entry_map(self.entries@)
    }
}

spec fn entry_map(entries: Seq<(String, Json)>) -> Map<Seq<char>, JsonView>
    decreases entries,
{
    if entries.len() == 0 {
        Map::empty()
    } else {
        let last = entries[entries.len() - 1];
        entry_map(entries.drop_last()).insert(last.0@, last.1.tree())
    }
}

/// The keys of a sequence of fields.
spec fn entry_keys(entries: Seq<(String, Json)>) -> Seq<Seq<char>> {
    Seq::new(entries.len(), |i: int| entries[i].0@)
}

/// Looking up a key in a map of fields finds the value that stands beside it.
proof fn lemma_entry_map(entries: Seq<(String, Json)>)
    requires
        ascending(entry_keys(entries)),
    ensures
        entry_map(entries).dom() == entry_keys(entries).to_set(),
        entry_map(entries).dom().finite(),
        key_order(entry_map(entries).dom()) == entry_keys(entries),
        forall|i: int|
            0 <= i < entries.len() ==> entry_map(entries).contains_key((#[trigger] entries[i]).0@)
                && entry_map(entries)[entries[i].0@] == entries[i].1.tree(),
    decreases entries.len(),
{
    let keys = entry_keys(entries);
    if entries.len() == 0 {
        assert(entry_map(entries).dom() =~= keys.to_set());
    } else {
        let init = entries.drop_last();
        let last = entries[entries.len() - 1];
        assert(entry_keys(init) =~= keys.drop_last());
        lemma_entry_map(init);
        assert(keys =~= entry_keys(init).push(last.0@));
        assert(keys.to_set() =~= entry_keys(init).to_set().insert(last.0@)) by {
            entry_keys(init).lemma_push_to_set_commute(last.0@);
        }
        assert(entry_map(entries).dom() =~= keys.to_set());
        assert forall|i: int| 0 <= i < entries.len() implies entry_map(entries).contains_key((#[trigger] entries[i]).0@)
            && entry_map(entries)[entries[i].0@] == entries[i].1.tree() by {
            if i < init.len() {
                assert(init[i] == entries[i]);
                assert(text_lt(keys[i], keys[entries.len() - 1]));
                lemma_text_lt_irreflexive(last.0@);
            }
        }
    }
    lemma_key_order_is(keys, entry_map(entries).dom());
}

/// Two ascending sequences of fields hold the same map when each field of one is in it
/// and it has no other keys.
proof fn lemma_entry_map_is(entries: Seq<(String, Json)>, fields: Map<Seq<char>, JsonView>)
    requires
        ascending(entry_keys(entries)),
        forall|i: int|
            0 <= i < entries.len() ==> fields.contains_key((#[trigger] entries[i]).0@) && fields[entries[i].0@]
                == entries[i].1.tree(),
        forall|k: Seq<char>| #[trigger]
            fields.contains_key(k) ==> exists|i: int| 0 <= i < entries.len() && (#[trigger] entries[i]).0@ == k,
    ensures
        entry_map(entries) == fields,
{
    lemma_entry_map(entries);
    assert forall|k: Seq<char>| entry_map(entries).contains_key(k) implies fields.contains_key(k)
        && entry_map(entries)[k] == fields[k] by {
        let i = choose|i: int| 0 <= i < entry_keys(entries).len() && entry_keys(entries)[i] == k;
        assert(entries[i].0@ == k);
    }
    assert forall|k: Seq<char>| fields.contains_key(k) implies entry_map(entries).contains_key(k) by {
        let i = choose|i: int| 0 <= i < entries.len() && (#[trigger] entries[i]).0@ == k;
        assert(entry_map(entries).contains_key(entries[i].0@));
    }
    assert(entry_map(entries) =~= fields);
}

/// The fields of an object that are not null.
pub open spec fn non_null(fields: Map<Seq<char>, JsonView>) -> Map<Seq<char>, JsonView> {
    fields.restrict(fields.dom().filter(|k: Seq<char>| fields[k] !is Null))
}

/// Of the fields of an object, exactly those that are not null remain, as they are.
pub proof fn law_non_null(fields: Map<Seq<char>, JsonView>, key: Seq<char>)
    ensures
        non_null(fields).get(key) == if fields.contains_key(key) && fields[key] != JsonView::Null {
            Some(fields[key])
        } else {
            None
        },
{
}

impl JsonObject {
    #[verifier::type_invariant]
    spec fn well_formed(self) -> bool {
        ascending(entry_keys(self.entries@))
    }

    /// An object without fields.
    pub fn new() -> (object: JsonObject)
        ensures
            object@ == Map::<Seq<char>, JsonView>::empty(),
    {
        JsonObject { entries: Vec::new() }
    }

    /// The number of fields.
    pub fn len(&self) -> (n: usize)
        ensures
            n == self@.len(),
            n == key_order(self@.dom()).len(),
            self@.dom().finite(),
    {
        proof {
            use_type_invariant(self);
            lemma_entry_map(self.entries@);
            let keys = entry_keys(self.entries@);
            assert forall|i: int, j: int| 0 <= i < j < keys.len() implies keys[i] != keys[j] by {
                lemma_text_lt_irreflexive(keys[i]);
            }
            keys.unique_seq_to_set();
        }
        self.entries.len()
    }

    /// The field at place `i` in ascending order of the keys.
    pub fn entry(&self, i: usize) -> (field: (&str, &Json))
        requires
            i < key_order(self@.dom()).len(),
        ensures
            field.0@ == key_order(self@.dom())[i as int],
            self@.contains_key(field.0@),
            field.1@ == self@[field.0@],
    {
        proof {
            use_type_invariant(self);
            lemma_entry_map(self.entries@);
        }
        let entry = &self.entries[i];
        (entry.0.as_str(), &entry.1)
    }

    /// Sets the field `key` to `value`, whether or not the object had such a field.
    pub fn insert(&mut self, key: String, value: Json)
        ensures
            final(self)@ == old(self)@.insert(key@, value@),
    {
        proof {
            use_type_invariant(&*self);
        }
        let mut entries: Vec<(String, Json)> = Vec::new();
        std::mem::swap(&mut entries, &mut self.entries);
        let ghost before = entries@;
        let ghost keys = entry_keys(before);
        let ghost wanted = entry_map(before).insert(key@, value@);
        let mut i: usize = 0;
        while i < entries.len() && text_before(entries[i].0.as_str(), key.as_str())
            invariant
                i <= entries.len(),
                entries@ == before,
                keys == entry_keys(before),
                forall|j: int| 0 <= j < i ==> text_lt(#[trigger] keys[j], key@),
            decreases entries.len() - i,
        {
            assert(keys[i as int] == entries@[i as int].0@);
            i += 1;
        }
        proof {
            lemma_entry_map(before);
            assert(i < before.len() ==> keys[i as int] == before[i as int].0@);
        }
        let ghost new_key = key@;
        let ghost new_entry = (key, value);
        if i < entries.len() && entries[i].0 == key {
            entries.set(i, (key, value));
            proof {
                assert(entry_keys(entries@) =~= keys);
                assert forall|j: int| 0 <= j < entries@.len() implies wanted.contains_key((#[trigger] entries@[j]).0@)
                    && wanted[entries@[j].0@] == entries@[j].1.tree() by {
                    if j != i {
                        assert(before[j] == entries@[j]);
                        lemma_text_lt_irreflexive(new_key);
                        assert(keys[j] == before[j].0@);
                    }
                }
                assert forall|k: Seq<char>| #[trigger] wanted.contains_key(k) implies exists|j: int|
                    0 <= j < entries@.len() && (#[trigger] entries@[j]).0@ == k by {
                    if k == new_key {
                        assert(entries@[i as int].0@ == k);
                    } else {
                        let j = choose|j: int| 0 <= j < keys.len() && keys[j] == k;
                        assert(entries@[j].0@ == k);
                    }
                }
                lemma_entry_map_is(entries@, wanted);
            }
        } else {
            entries.insert(i, (key, value));
            proof {
                let after = entries@;
                let wider = entry_keys(after);
                assert(wider =~= keys.insert(i as int, new_key));
                assert forall|a: int, b: int| 0 <= a < b < wider.len() implies text_lt(
                    #[trigger] wider[a],
                    #[trigger] wider[b],
                ) by {
                    if a == i {
                        lemma_text_lt_total(new_key, keys[i as int]);
                        if b > i + 1 {
                            lemma_text_lt_transitive(new_key, keys[i as int], keys[b - 1]);
                        }
                    }
                }
                assert forall|j: int| 0 <= j < after.len() implies wanted.contains_key((#[trigger] after[j]).0@)
                    && wanted[after[j].0@] == after[j].1.tree() by {
                    lemma_text_lt_irreflexive(new_key);
                    if j < i {
                        assert(before[j] == after[j]);
                        assert(text_lt(wider[j], wider[i as int]));
                    } else if j > i {
                        assert(before[j - 1] == after[j]);
                        assert(text_lt(wider[i as int], wider[j]));
                    }
                }
                assert forall|k: Seq<char>| #[trigger] wanted.contains_key(k) implies exists|j: int|
                    0 <= j < after.len() && (#[trigger] after[j]).0@ == k by {
                    if k == new_key {
                        assert(after[i as int].0@ == k);
                    } else {
                        let j = choose|j: int| 0 <= j < keys.len() && keys[j] == k;
                        if j < i {
                            assert(after[j].0@ == k);
                        } else {
                            assert(after[j + 1].0@ == k);
                        }
                    }
                }
                lemma_entry_map_is(after, wanted);
            }
        }
        self.entries = entries;
    }

    /// Removes the fields whose value is null.
    pub fn remove_nulls(&mut self)
        ensures
            final(self)@ == non_null(old(self)@),
    {
        proof {
            use_type_invariant(&*self);
        }
        let mut entries: Vec<(String, Json)> = Vec::new();
        std::mem::swap(&mut entries, &mut self.entries);
        let ghost fields = entry_map(entries@);
        proof {
            lemma_entry_map(entries@);
            assert forall|k: Seq<char>| #[trigger] fields.contains_key(k) implies exists|j: int|
                0 <= j < entries@.len() && (#[trigger] entries@[j]).0@ == k by {
                let j = choose|j: int| 0 <= j < entry_keys(entries@).len() && entry_keys(entries@)[j] == k;
                assert(entries@[j].0@ == k);
            }
        }
        let mut i: usize = 0;
        while i < entries.len()
            invariant
                i <= entries.len(),
                ascending(entry_keys(entries@)),
                forall|j: int| 0 <= j < i ==> (#[trigger] entries@[j]).1.tree() !is Null,
                forall|j: int|
                    0 <= j < entries@.len() ==> fields.contains_key((#[trigger] entries@[j]).0@)
                        && fields[entries@[j].0@] == entries@[j].1.tree(),
                forall|k: Seq<char>| #[trigger]
                    fields.contains_key(k) && fields[k] !is Null ==> exists|j: int|
                        0 <= j < entries@.len() && (#[trigger] entries@[j]).0@ == k,
            decreases entries.len() - i,
        {
            if entries[i].1.is_null() {
                let ghost before = entries@;
                let _ = entries.remove(i);
                proof {
                    assert(entries@ =~= before.remove(i as int));
                    assert(entry_keys(entries@) =~= entry_keys(before).remove(i as int));
                    assert forall|k: Seq<char>| #[trigger]
                        fields.contains_key(k) && fields[k] !is Null implies exists|j: int|
                        0 <= j < entries@.len() && (#[trigger] entries@[j]).0@ == k by {
                        let j = choose|j: int| 0 <= j < before.len() && (#[trigger] before[j]).0@ == k;
                        assert(j != i);
                        if j < i {
                            assert(entries@[j] == before[j]);
                        } else {
                            assert(entries@[j - 1] == before[j]);
                        }
                    }
                }
            } else {
                i += 1;
            }
        }
        proof {
            lemma_entry_map_is(entries@, non_null(fields));
        }
        self.entries = entries;
    }

    /// Sets every field that `other` has to the value that it has there.
    pub fn overlay(&mut self, other: JsonObject)
        ensures
            final(self)@ == old(self)@.union_prefer_right(other@),
    {
        let entries = other.entries;
        let ghost all = entries@;
        proof {
            assert(all.take(0) =~= Seq::<(String, Json)>::empty());
            assert(self@ =~= old(self)@.union_prefer_right(entry_map(all.take(0))));
        }
        for entry in it: entries
            invariant
                it.seq() == all,
                self@ == old(self)@.union_prefer_right(entry_map(all.take(it.index() as int))),
        {
            proof {
                let n = it.index() as int;
                assert(all.take(n + 1).drop_last() =~= all.take(n));
                assert(all.take(n + 1)[n] == entry);
                assert(old(self)@.union_prefer_right(entry_map(all.take(n))).insert(entry.0@, entry.1@)
                    =~= old(self)@.union_prefer_right(entry_map(all.take(n + 1))));
            }
            self.insert(entry.0, entry.1);
        }
        proof {
            assert(all.take(all.len() as int) =~= all);
        }
    }
}

impl View for JsonObject {
    type V = Map<Seq<char>, JsonView>;

    open spec fn view(&self) -> Map<Seq<char>, JsonView> {
        self.fields()
    }
}

/// Whether every object in a value has finitely many fields, as every JSON value has it.
pub open spec fn finite_tree(value: JsonView) -> bool
    decreases value,
{
    match value {
        JsonView::Array(items) => {
            forall|i: int| 0 <= i < items.len() ==> finite_tree(#[trigger] items[i])
        },
        JsonView::Object(fields) => {
            &&& fields.dom().finite()
            &&& forall|k: Seq<char>| #[trigger] fields.contains_key(k) ==> finite_tree(fields[k])
        },
        _ => true,
    }
}

/// A JSON value is a finite tree.
pub proof fn lemma_finite_tree(json: Json)
    ensures
        finite_tree(json@),
    decreases json,
{
    match json {
        Json::Array(items) => {
            let views = json@->Array_0;
            assert forall|i: int| 0 <= i < views.len() implies finite_tree(#[trigger] views[i]) by {
                assert(views[i] == items@[i]@);
                lemma_finite_tree(items@[i]);
            }
        },
        Json::Object(object) => {
            lemma_finite_entries(object.entries@);
            assert(object.fields() == entry_map(object.entries@));
        },
        _ => {},
    }
}

proof fn lemma_finite_entries(entries: Seq<(String, Json)>)
    ensures
        finite_tree(JsonView::Object(entry_map(entries))),
    decreases entries,
{
    let fields = entry_map(entries);
    if entries.len() > 0 {
        lemma_finite_entries(entries.drop_last());
        let last = entries[entries.len() - 1];
        assert(decreases_to!(entries => last));
        lemma_finite_tree(last.1);
        assert forall|k: Seq<char>| #[trigger] fields.contains_key(k) implies finite_tree(fields[k]) by {
            if k != last.0@ {
                assert(entry_map(entries.drop_last()).contains_key(k));
            }
        }
    }
}

/// Whether the keys stand in strictly ascending order.
pub open spec fn ascending(keys: Seq<Seq<char>>) -> bool {
    forall|i: int, j: int| 0 <= i < j < keys.len() ==> text_lt(#[trigger] keys[i], #[trigger] keys[j])
}

/// The keys of a set in ascending order: the order in which the fields of an object are
/// visited.
pub open spec fn key_order(keys: Set<Seq<char>>) -> Seq<Seq<char>> {
    choose|order: Seq<Seq<char>>| ascending(order) && #[trigger] order.to_set() == keys
}

/// A set has at most one ascending order.
pub proof fn lemma_ascending_unique(a: Seq<Seq<char>>, b: Seq<Seq<char>>)
    requires
        ascending(a),
        ascending(b),
        a.to_set() == b.to_set(),
    ensures
        a == b,
    decreases a.len(),
{
    if a.len() == 0 {
        if b.len() > 0 {
            assert(b.to_set().contains(b[0]));
            assert(a.to_set().contains(b[0]));
        }
        assert(a =~= b);
    } else {
        assert(a.to_set().contains(a.last()));
        assert(b.to_set().contains(a.last()));
        let j = choose|j: int| 0 <= j < b.len() && b[j] == a.last();
        assert(b.to_set().contains(b.last()));
        assert(a.to_set().contains(b.last()));
        let i = choose|i: int| 0 <= i < a.len() && a[i] == b.last();
        if a.last() != b.last() {
            assert(text_lt(a[i], a.last()));
            assert(text_lt(b[j], b.last()));
            lemma_text_lt_transitive(a.last(), b.last(), a.last());
            lemma_text_lt_irreflexive(a.last());
        }
        assert forall|k: Seq<char>| a.drop_last().to_set().contains(k) implies b.drop_last().to_set().contains(k) by {
            let n = choose|n: int| 0 <= n < a.drop_last().len() && a.drop_last()[n] == k;
            assert(a[n] == k);
            assert(text_lt(a[n], a.last()));
            lemma_text_lt_irreflexive(k);
            assert(a.to_set().contains(k));
            assert(b.to_set().contains(k));
            let m = choose|m: int| 0 <= m < b.len() && b[m] == k;
            assert(b.drop_last()[m] == k);
        }
        assert forall|k: Seq<char>| b.drop_last().to_set().contains(k) implies a.drop_last().to_set().contains(k) by {
            let n = choose|n: int| 0 <= n < b.drop_last().len() && b.drop_last()[n] == k;
            assert(b[n] == k);
            assert(text_lt(b[n], b.last()));
            lemma_text_lt_irreflexive(k);
            assert(b.to_set().contains(k));
            assert(a.to_set().contains(k));
            let m = choose|m: int| 0 <= m < a.len() && a[m] == k;
            assert(a.drop_last()[m] == k);
        }
        assert(a.drop_last().to_set() =~= b.drop_last().to_set());
        lemma_ascending_unique(a.drop_last(), b.drop_last());
        assert(a =~= a.drop_last().push(a.last()));
        assert(b =~= b.drop_last().push(b.last()));
    }
}

/// An ascending sequence with a given set of keys is the order of that set.
pub proof fn lemma_key_order_is(order: Seq<Seq<char>>, keys: Set<Seq<char>>)
    requires
        ascending(order),
        order.to_set() == keys,
    ensures
        key_order(keys) == order,
{
    lemma_ascending_unique(key_order(keys), order);
}

/// Every finite set has an ascending order.
pub proof fn lemma_key_order(keys: Set<Seq<char>>)
    requires
        keys.finite(),
    ensures
        ascending(key_order(keys)),
        key_order(keys).to_set() == keys,
    decreases keys.len(),
{
    if keys.len() == 0 {
        let none = Seq::<Seq<char>>::empty();
        assert(none.to_set() =~= keys);
        assert(ascending(none));
    } else {
        let key = keys.choose();
        let rest = keys.remove(key);
        lemma_key_order(rest);
        let order = key_order(rest);
        let at = place(order, key);
        lemma_place(order, key);
        let wider = order.insert(at, key);
        assert(!order.to_set().contains(key));
        assert(at < order.len() ==> order.to_set().contains(order[at]));
        assert forall|i: int, j: int| 0 <= i < j < wider.len() implies text_lt(#[trigger] wider[i], #[trigger] wider[j]) by {
            if i < at && j == at {
            } else if i == at {
                lemma_text_lt_total(key, order[at]);
                if j > at + 1 {
                    lemma_text_lt_transitive(key, order[at], order[j - 1]);
                }
            }
        }
        assert forall|k: Seq<char>| wider.to_set().contains(k) <==> keys.contains(k) by {
            if wider.to_set().contains(k) {
                let n = choose|n: int| 0 <= n < wider.len() && wider[n] == k;
                if n < at {
                    assert(order.to_set().contains(order[n]));
                } else if n > at {
                    assert(order.to_set().contains(order[n - 1]));
                }
            }
            if keys.contains(k) {
                if k == key {
                    assert(wider[at] == k);
                } else {
                    assert(order.to_set().contains(k));
                    let n = choose|n: int| 0 <= n < order.len() && order[n] == k;
                    if n < at {
                        assert(wider[n] == k);
                    } else {
                        assert(wider[n + 1] == k);
                    }
                }
            }
        }
        assert(wider.to_set() =~= keys);
    }
}

/// The order of a set holds each of its keys once, each before those that are greater.
pub proof fn law_key_order(keys: Set<Seq<char>>)
    requires
        keys.finite(),
    ensures
        forall|k: Seq<char>| #[trigger] key_order(keys).contains(k) <==> keys.contains(k),
        forall|i: int, j: int|
            0 <= i < j < key_order(keys).len() ==> text_lt(#[trigger] key_order(keys)[i], #[trigger] key_order(keys)[j]),
{
    lemma_key_order(keys);
    assert forall|k: Seq<char>| #[trigger] key_order(keys).contains(k) <==> keys.contains(k) by {
        assert(key_order(keys).to_set().contains(k) <==> key_order(keys).contains(k));
    }
}

/// The model of a value keeps all that the value holds: a boolean, the text of a number or
/// of a string, each item of an array at its place, the fields of an object.
pub proof fn law_json_model(json: Json)
    ensures
        match json {
            Json::Null => json@ == JsonView::Null,
            Json::Bool(b) => json@ == JsonView::Bool(b),
            Json::Number(Number::PosInt(n)) => json@ == JsonView::Number(integer_text(n as int)),
            Json::Number(Number::NegInt(n)) => json@ == JsonView::Number(integer_text(n as int)),
            Json::Number(Number::Float(text)) => json@ == JsonView::Number(text@),
            Json::String(text) => json@ == JsonView::String(text@),
            Json::Array(items) => json@ is Array && json@->Array_0.len() == items@.len() && (forall|i: int|
                0 <= i < items@.len() ==> json@->Array_0[i] == (#[trigger] items@[i])@),
            Json::Object(object) => json@ == JsonView::Object(object@),
        },
{
}

/// How many keys of an ascending sequence stand before `key`.
spec fn place(order: Seq<Seq<char>>, key: Seq<char>) -> int
    decreases order.len(),
{
    if order.len() == 0 || !text_lt(order[0], key) {
        0
    } else {
        1 + place(order.drop_first(), key)
    }
}

proof fn lemma_place(order: Seq<Seq<char>>, key: Seq<char>)
    requires
        ascending(order),
    ensures
        0 <= place(order, key) <= order.len(),
        forall|i: int| 0 <= i < place(order, key) ==> text_lt(#[trigger] order[i], key),
        place(order, key) < order.len() ==> !text_lt(order[place(order, key)], key),
    decreases order.len(),
{
    if order.len() > 0 && text_lt(order[0], key) {
        lemma_place(order.drop_first(), key);
        assert forall|i: int| 0 <= i < place(order, key) implies text_lt(#[trigger] order[i], key) by {
            if i > 0 {
                assert(order.drop_first()[i - 1] == order[i]);
            }
        }
    }
}

} // verus!
