//! What holds of the library as a whole.
use crate::encode::{encoded_id, law_encoded_id_injective, law_encoded_id_is_one_segment};
use crate::json::{
    ascending, finite_tree, key_order, lemma_finite_tree, lemma_key_order, lemma_key_order_is, non_null, JsonView,
};
use crate::leaves::{
    descend, is_leaf_path, law_every_field_is_written, law_flatten_writes_each_leaf_once, law_pairs_model,
    law_scalar_fields_are_sent, leaf_paths, path_name, Step,
};
use crate::params::{field_name, flatten, flatten_fields, merged, pairs_view, stripped};
use crate::request::{
    call_plan, is_path, payload_for, plan_view, request_for, ApiRequest, ApiRequestView, HttpMethod, McpError,
    McpErrorView, Payload, PayloadView, STRIPE_API_BASE,
};
use crate::response::{
    parsed_json, pretty_json, printed_json, result_text, shown_body, success_status, unread_body, CallToolResult,
};
use crate::text::{decimal, integer_text, text_lt};
use crate::tools::{
    amount_field, only_extra, text_field, tool_params, value_field, CancelSubscriptionRequest, CreateCustomerRequest,
    CreatePaymentIntentRequest, CreateRefundRequest, CreateSubscriptionRequest, ListChargesRequest,
    ListCustomersRequest, ListInvoicesRequest, ListPaymentIntentsRequest, ListSubscriptionsRequest,
};
use vstd::prelude::*;

verus! {

// ---- Parameters ----

/// The keys of a sequence whose fields are not null.
spec fn kept(fields: Map<Seq<char>, JsonView>, keys: Seq<Seq<char>>) -> Seq<Seq<char>>
    decreases keys.len(),
{
    if keys.len() == 0 {
        keys
    } else if fields[keys.last()] is Null {
        kept(fields, keys.drop_last())
    } else {
        kept(fields, keys.drop_last()).push(keys.last())
    }
}

proof fn lemma_non_null_finite(fields: Map<Seq<char>, JsonView>)
    requires
        fields.dom().finite(),
    ensures
        non_null(fields).dom().finite(),
{
    assert(non_null(fields).dom() =~= fields.dom().intersect(non_null(fields).dom()));
}

proof fn lemma_kept(prefix: Seq<char>, fields: Map<Seq<char>, JsonView>, keys: Seq<Seq<char>>)
    requires
        fields.dom().finite(),
        ascending(keys),
        forall|i: int| 0 <= i < keys.len() ==> fields.contains_key(#[trigger] keys[i]),
    ensures
        ascending(kept(fields, keys)),
        forall|k: Seq<char>| #[trigger]
            kept(fields, keys).contains(k) <==> keys.contains(k) && fields[k] !is Null,
        flatten_fields(prefix, non_null(fields), kept(fields, keys)) == flatten_fields(prefix, fields, keys),
    decreases keys.len(),
{
    let some = kept(fields, keys);
    if keys.len() > 0 {
        let init = keys.drop_last();
        let last = keys[keys.len() - 1];
        let before = kept(fields, init);
        assert(fields.contains_key(last));
        lemma_kept(prefix, fields, init);
        assert forall|k: Seq<char>| keys.contains(k) <==> init.contains(k) || k == last by {
            if keys.contains(k) {
                let i = choose|i: int| 0 <= i < keys.len() && keys[i] == k;
                if i < init.len() {
                    assert(init[i] == k);
                }
            }
            if init.contains(k) {
                let i = choose|i: int| 0 <= i < init.len() && init[i] == k;
                assert(keys[i] == k);
            }
            assert(keys[keys.len() - 1] == last);
        }
        if fields[last] is Null {
            let nothing = flatten(field_name(prefix, last), fields[last]);
            assert(nothing =~= Seq::empty());
            assert(flatten_fields(prefix, fields, init) + nothing =~= flatten_fields(prefix, fields, init));
            assert(keys.last() == last);
            assert forall|k: Seq<char>| #[trigger] some.contains(k) <==> keys.contains(k) && fields[k] !is Null by {}
        } else {
            assert forall|i: int, j: int| 0 <= i < j < some.len() implies text_lt(#[trigger] some[i], #[trigger] some[j]) by {
                if j == before.len() {
                    assert(before.contains(before[i]));
                    let at = choose|at: int| 0 <= at < init.len() && init[at] == before[i];
                    assert(text_lt(keys[at], keys[keys.len() - 1]));
                }
            }
            assert forall|k: Seq<char>| #[trigger] some.contains(k) <==> keys.contains(k) && fields[k] !is Null by {
                if some.contains(k) {
                    let i = choose|i: int| 0 <= i < some.len() && some[i] == k;
                    if i < before.len() {
                        assert(before[i] == k);
                        assert(before.contains(k));
                    }
                }
                if keys.contains(k) && fields[k] !is Null {
                    if k == last {
                        assert(some[before.len() as int] == k);
                    } else {
                        assert(before.contains(k));
                        let i = choose|i: int| 0 <= i < before.len() && before[i] == k;
                        assert(some[i] == k);
                    }
                }
            }
            assert(some.drop_last() =~= before);
            assert(non_null(fields).contains_key(last));
            lemma_non_null_finite(fields);
        }
    }
}

/// Null fields leave no trace on the wire: dropping them from a value does not change the
/// pairs that write it.
pub proof fn law_nulls_leave_no_trace(prefix: Seq<char>, value: JsonView)
    requires
        finite_tree(value),
    ensures
        flatten(prefix, stripped(value)) == flatten(prefix, value),
{
    if let JsonView::Object(fields) = value {
        let keys = key_order(fields.dom());
        lemma_key_order(fields.dom());
        assert forall|i: int| 0 <= i < keys.len() implies fields.contains_key(#[trigger] keys[i]) by {
            assert(keys.to_set().contains(keys[i]));
        }
        lemma_kept(prefix, fields, keys);
        assert forall|k: Seq<char>| kept(fields, keys).to_set().contains(k) <==> non_null(fields).dom().contains(k) by {
            assert(keys.to_set().contains(k) <==> fields.dom().contains(k));
        }
        assert(kept(fields, keys).to_set() =~= non_null(fields).dom());
        lemma_key_order_is(kept(fields, keys), non_null(fields).dom());
    }
}

/// Dropping nulls leaves no null field, keeps every other field, and does nothing the
/// second time. A value that is no object stays as it is.
pub proof fn law_strip_nulls(value: JsonView)
    ensures
        value is Object ==> stripped(value) is Object,
        forall|k: Seq<char>|
            value is Object ==> (#[trigger] stripped(value)->Object_0.contains_key(k)
                <==> value->Object_0.contains_key(k) && value->Object_0[k] !is Null),
        forall|k: Seq<char>|
            value is Object && #[trigger] stripped(value)->Object_0.contains_key(k) ==> stripped(value)->Object_0[k]
                == value->Object_0[k],
        value !is Object ==> stripped(value) == value,
        stripped(stripped(value)) == stripped(value),
{
    if let JsonView::Object(fields) = value {
        assert(non_null(non_null(fields)) =~= non_null(fields));
    }
}

/// Of two objects that are merged, the second wins: the result has its fields, and those
/// of the first that it does not have.
pub proof fn law_extra_wins(base: JsonView, extra: JsonView)
    requires
        base is Object,
        extra is Object,
    ensures
        merged(base, extra) is Object,
        forall|k: Seq<char>| #[trigger]
            merged(base, extra)->Object_0.contains_key(k) <==> base->Object_0.contains_key(k)
                || extra->Object_0.contains_key(k),
        forall|k: Seq<char>| #[trigger]
            extra->Object_0.contains_key(k) ==> merged(base, extra)->Object_0[k] == extra->Object_0[k],
        forall|k: Seq<char>| #[trigger]
            base->Object_0.contains_key(k) && !extra->Object_0.contains_key(k) ==> merged(base, extra)->Object_0[k]
                == base->Object_0[k],
{
}

/// An object without fields changes nothing when it is merged with another.
pub proof fn law_empty_extra_is_neutral(fields: Map<Seq<char>, JsonView>)
    ensures
        merged(JsonView::Object(fields), JsonView::Object(Map::empty())) == JsonView::Object(fields),
        merged(JsonView::Object(Map::empty()), JsonView::Object(fields)) == JsonView::Object(fields),
{
    assert(fields.union_prefer_right(Map::empty()) =~= fields);
    assert(Map::<Seq<char>, JsonView>::empty().union_prefer_right(fields) =~= fields);
}

/// What is no object has nothing to overlay, and nothing can be overlaid on it.
pub proof fn law_only_objects_merge(base: JsonView, extra: JsonView)
    requires
        base !is Object || extra !is Object,
    ensures
        merged(base, extra) == base,
{
}

/// Dropping nulls and merging keep a value finite.
pub proof fn lemma_params_finite(named: Map<Seq<char>, JsonView>, extra: JsonView)
    requires
        finite_tree(JsonView::Object(named)),
        finite_tree(extra),
    ensures
        finite_tree(stripped(JsonView::Object(named))),
        finite_tree(tool_params(named, extra)),
{
    lemma_non_null_finite(named);
    let some = non_null(named);
    assert forall|k: Seq<char>| #[trigger] some.contains_key(k) implies finite_tree(some[k]) by {
        assert(named.contains_key(k));
    }
    if let JsonView::Object(over) = extra {
        let both = some.union_prefer_right(over);
        assert(both.dom() =~= some.dom().union(over.dom()));
        assert forall|k: Seq<char>| #[trigger] both.contains_key(k) implies finite_tree(both[k]) by {
            if over.contains_key(k) {
            } else {
                assert(some.contains_key(k));
            }
        }
    }
}

// ---- Tools ----

/// Nothing is lost relative to the generic tool: whatever object of parameters the generic
/// tool could be given, a named tool sends too when it is its `extra_params`, as long as
/// that object has a word on every named field that was filled in. A tool that has no named
/// fields to fill in, since it only fetches an object or the balance, sends any object.
pub proof fn law_extra_params_reach_everything(named: Map<Seq<char>, JsonView>, params: JsonView)
    requires
        params is Object,
        forall|k: Seq<char>| #[trigger]
            named.contains_key(k) && named[k] !is Null ==> params->Object_0.contains_key(k),
    ensures
        tool_params(named, params) == params,
        only_extra(params) == params,
{
    let over = params->Object_0;
    assert(non_null(named).union_prefer_right(over) =~= over);
    law_empty_extra_is_neutral(over);
}

/// The same holds of the tool that cancels a subscription: it sends the object that it
/// gets as `extra_params`, as long as that has a word on `cancel_at_period_end` where the
/// cancellation is deferred.
pub proof fn law_cancellation_reaches_everything(req: CancelSubscriptionRequest)
    requires
        req.extra_params@ is Object,
        req.deferred() ==> req.extra_params@->Object_0.contains_key("cancel_at_period_end"@),
    ensures
        req.params() == req.extra_params@,
{
    let over = req.extra_params@->Object_0;
    let named = if req.deferred() {
        map!["cancel_at_period_end"@ => JsonView::Bool(true)]
    } else {
        Map::empty()
    };
    assert(named.union_prefer_right(over) =~= over);
}

/// A named field that was filled in is sent as it was given, unless `extra_params` has a
/// field of that name, which is then sent in its place. A field that was left out is not
/// sent, unless `extra_params` has it.
pub proof fn law_named_fields(named: Map<Seq<char>, JsonView>, extra: JsonView, key: Seq<char>)
    requires
        extra is Object,
    ensures
        tool_params(named, extra) is Object,
        extra->Object_0.contains_key(key) ==> tool_params(named, extra)->Object_0.contains_key(key) && tool_params(
            named,
            extra,
        )->Object_0[key] == extra->Object_0[key],
        !extra->Object_0.contains_key(key) ==> (tool_params(named, extra)->Object_0.contains_key(key)
            <==> named.contains_key(key) && named[key] !is Null),
        !extra->Object_0.contains_key(key) && tool_params(named, extra)->Object_0.contains_key(key) ==> tool_params(
            named,
            extra,
        )->Object_0[key] == named[key],
{
}

/// A payment intent asks for automatic payment methods when neither the argument for it nor
/// `extra_params` says anything else.
pub proof fn law_automatic_payment_methods_by_default(req: CreatePaymentIntentRequest)
    requires
        req.automatic_payment_methods_enabled is None,
        req.extra_params@ matches JsonView::Object(extra) ==> !extra.contains_key("automatic_payment_methods"@),
    ensures
        flatten(Seq::empty(), req.params()).contains(("automatic_payment_methods[enabled]"@, "true"@)),
{
    let methods = "automatic_payment_methods"@;
    let enabled = "enabled"@;
    let inner = map![enabled => JsonView::Bool(true)];
    let value = req.params();
    lemma_payment_intent_finite(req);
    let path = seq![Step::Key(methods), Step::Key(enabled)];
    assert(path.drop_first() =~= seq![Step::Key(enabled)]);
    assert(path.drop_first().drop_first() =~= Seq::empty());
    let fields = value->Object_0;
    assert(fields.contains_key(methods));
    assert(fields[methods] == JsonView::Object(inner));
    assert(descend(JsonView::Bool(true), Seq::empty()) == Some(JsonView::Bool(true)));
    assert(descend(fields[methods], path.drop_first()) == Some(JsonView::Bool(true)));
    assert(descend(value, path) == Some(JsonView::Bool(true)));
    assert(is_leaf_path(value, path));
    law_flatten_writes_each_leaf_once(Seq::empty(), value);
    assert(leaf_paths(value).contains(path));
    let at = choose|at: int| 0 <= at < leaf_paths(value).len() && leaf_paths(value)[at] == path;
    reveal_strlit("automatic_payment_methods");
    reveal_strlit("enabled");
    reveal_strlit("automatic_payment_methods[enabled]");
    let name = field_name(field_name(Seq::empty(), methods), enabled);
    assert(path_name(name, Seq::empty()) == name);
    assert(path_name(field_name(Seq::empty(), methods), path.drop_first()) == name);
    assert(path_name(Seq::empty(), path) == name);
    assert(name =~= "automatic_payment_methods[enabled]"@);
    assert(flatten(Seq::empty(), value)[at] == ("automatic_payment_methods[enabled]"@, "true"@));
}

/// A refund that names a charge or a payment intent, and not both, is sent with exactly the
/// one that it names, as long as `extra_params` has no word on either.
pub proof fn law_refund_of_one(req: CreateRefundRequest)
    requires
        req.charge is Some <==> req.payment_intent is None,
        req.extra_params@ matches JsonView::Object(extra) ==> !extra.contains_key("charge"@) && !extra.contains_key(
            "payment_intent"@,
        ),
    ensures
        req.params() is Object,
        req.params()->Object_0.contains_key("charge"@) <==> req.charge is Some,
        req.params()->Object_0.contains_key("payment_intent"@) <==> req.payment_intent is Some,
        req.charge is Some ==> req.params()->Object_0["charge"@] == text_field(req.charge),
        req.payment_intent is Some ==> req.params()->Object_0["payment_intent"@] == text_field(req.payment_intent),
{
    reveal_strlit("charge");
    reveal_strlit("payment_intent");
    reveal_strlit("amount");
    reveal_strlit("reason");
    assert("charge"@.len() == 6 && "amount"@.len() == 6 && "reason"@.len() == 6 && "payment_intent"@.len() == 14);
    assert("charge"@[0] != "amount"@[0] && "charge"@[0] != "reason"@[0]);
}

/// The parameters of a payment intent are a finite tree.
proof fn lemma_payment_intent_finite(req: CreatePaymentIntentRequest)
    ensures
        finite_tree(req.params()),
{
    lemma_finite_tree(req.extra_params);
    if let Some(metadata) = req.metadata {
        lemma_finite_tree(metadata);
    }
    let enabled = map!["enabled"@ => JsonView::Bool(req.automatic())];
    assert(finite_tree(JsonView::Object(enabled))) by {
        assert(forall|k: Seq<char>| #[trigger] enabled.contains_key(k) ==> finite_tree(enabled[k]));
    }
    let named = map![
        "amount"@ => JsonView::Number(integer_text(req.amount as int)),
        "currency"@ => JsonView::String(req.currency@),
        "customer"@ => text_field(req.customer),
        "description"@ => text_field(req.description),
        "metadata"@ => value_field(req.metadata),
        "automatic_payment_methods"@ => JsonView::Object(enabled),
    ];
    assert(finite_tree(JsonView::Object(named))) by {
        assert(finite_tree(named["metadata"@]));
        assert(forall|k: Seq<char>| #[trigger] named.contains_key(k) ==> finite_tree(named[k]));
    }
    lemma_params_finite(named, req.extra_params@);
}

/// A list of customers is asked for with the limit, the email and the starting point that were
/// given. Every field of `extra_params` is sent as it was given there, in place of a named one
/// if need be, and there are no other parameters.
pub proof fn law_list_customers_parameters(req: ListCustomersRequest, key: Seq<char>)
    ensures
        req.params() is Object,
        req.params()->Object_0.get(key) == if req.extra_params@ is Object && req.extra_params@->Object_0.contains_key(key) {
            Some(req.extra_params@->Object_0[key])
        } else if key == "limit"@ {
            match req.limit {
                Some(n) => Some(JsonView::Number(integer_text(n as int))),
                None => None,
            }
        } else if key == "email"@ {
            match req.email {
                Some(text) => Some(JsonView::String(text@)),
                None => None,
            }
        } else if key == "starting_after"@ {
            match req.starting_after {
                Some(text) => Some(JsonView::String(text@)),
                None => None,
            }
        } else {
            None
        },
{
    reveal_strlit("limit");
    reveal_strlit("email");
    reveal_strlit("starting_after");
    assert("limit"@.len() == 5 && "email"@.len() == 5 && "starting_after"@.len() == 14);
    assert("limit"@[0] != "email"@[0]);
}

/// A customer is created with the email, the name, the description and the metadata that were
/// given. Every field of `extra_params` is sent as it was given there, in place of a named one
/// if need be, and there are no other parameters.
pub proof fn law_create_customer_parameters(req: CreateCustomerRequest, key: Seq<char>)
    ensures
        req.params() is Object,
        req.params()->Object_0.get(key) == if req.extra_params@ is Object && req.extra_params@->Object_0.contains_key(key) {
            Some(req.extra_params@->Object_0[key])
        } else if key == "email"@ {
            match req.email {
                Some(text) => Some(JsonView::String(text@)),
                None => None,
            }
        } else if key == "name"@ {
            match req.name {
                Some(text) => Some(JsonView::String(text@)),
                None => None,
            }
        } else if key == "description"@ {
            match req.description {
                Some(text) => Some(JsonView::String(text@)),
                None => None,
            }
        } else if key == "metadata"@ {
            match req.metadata {
                Some(value) => if value@ is Null {
                    None
                } else {
                    Some(value@)
                },
                None => None,
            }
        } else {
            None
        },
{
    reveal_strlit("email");
    reveal_strlit("name");
    reveal_strlit("description");
    reveal_strlit("metadata");
    assert("email"@.len() == 5 && "name"@.len() == 4 && "description"@.len() == 11 && "metadata"@.len() == 8);
}

/// A list of charges is asked for with the customer, the limit and the starting point that were
/// given. Every field of `extra_params` is sent as it was given there, in place of a named one
/// if need be, and there are no other parameters.
pub proof fn law_list_charges_parameters(req: ListChargesRequest, key: Seq<char>)
    ensures
        req.params() is Object,
        req.params()->Object_0.get(key) == if req.extra_params@ is Object && req.extra_params@->Object_0.contains_key(key) {
            Some(req.extra_params@->Object_0[key])
        } else if key == "customer"@ {
            match req.customer {
                Some(text) => Some(JsonView::String(text@)),
                None => None,
            }
        } else if key == "limit"@ {
            match req.limit {
                Some(n) => Some(JsonView::Number(integer_text(n as int))),
                None => None,
            }
        } else if key == "starting_after"@ {
            match req.starting_after {
                Some(text) => Some(JsonView::String(text@)),
                None => None,
            }
        } else {
            None
        },
{
    reveal_strlit("customer");
    reveal_strlit("limit");
    reveal_strlit("starting_after");
    assert("customer"@.len() == 8 && "limit"@.len() == 5 && "starting_after"@.len() == 14);
}

/// A list of payment intents is asked for with the customer, the limit and the starting point
/// that were given. Every field of `extra_params` is sent as it was given there, in place of a
/// named one if need be, and there are no other parameters.
pub proof fn law_list_payment_intents_parameters(req: ListPaymentIntentsRequest, key: Seq<char>)
    ensures
        req.params() is Object,
        req.params()->Object_0.get(key) == if req.extra_params@ is Object && req.extra_params@->Object_0.contains_key(key) {
            Some(req.extra_params@->Object_0[key])
        } else if key == "customer"@ {
            match req.customer {
                Some(text) => Some(JsonView::String(text@)),
                None => None,
            }
        } else if key == "limit"@ {
            match req.limit {
                Some(n) => Some(JsonView::Number(integer_text(n as int))),
                None => None,
            }
        } else if key == "starting_after"@ {
            match req.starting_after {
                Some(text) => Some(JsonView::String(text@)),
                None => None,
            }
        } else {
            None
        },
{
    reveal_strlit("customer");
    reveal_strlit("limit");
    reveal_strlit("starting_after");
    assert("customer"@.len() == 8 && "limit"@.len() == 5 && "starting_after"@.len() == 14);
}

/// A payment intent is created with its amount and currency, with the customer, the description
/// and the metadata that were given, and with automatic payment methods unless they were
/// declined. Every field of `extra_params` is sent as it was given there, in place of a named
/// one if need be, and there are no other parameters.
pub proof fn law_create_payment_intent_parameters(req: CreatePaymentIntentRequest, key: Seq<char>)
    ensures
        req.params() is Object,
        req.params()->Object_0.get(key) == if req.extra_params@ is Object && req.extra_params@->Object_0.contains_key(key) {
            Some(req.extra_params@->Object_0[key])
        } else if key == "amount"@ {
            Some(JsonView::Number(integer_text(req.amount as int)))
        } else if key == "currency"@ {
            Some(JsonView::String(req.currency@))
        } else if key == "customer"@ {
            match req.customer {
                Some(text) => Some(JsonView::String(text@)),
                None => None,
            }
        } else if key == "description"@ {
            match req.description {
                Some(text) => Some(JsonView::String(text@)),
                None => None,
            }
        } else if key == "metadata"@ {
            match req.metadata {
                Some(value) => if value@ is Null {
                    None
                } else {
                    Some(value@)
                },
                None => None,
            }
        } else if key == "automatic_payment_methods"@ {
            Some(
                JsonView::Object(
                    map!["enabled"@ => JsonView::Bool(req.automatic_payment_methods_enabled != Some(false))],
                ),
            )
        } else {
            None
        },
{
    reveal_strlit("amount");
    reveal_strlit("currency");
    reveal_strlit("customer");
    reveal_strlit("description");
    reveal_strlit("metadata");
    reveal_strlit("automatic_payment_methods");
    assert("amount"@.len() == 6);
    assert("currency"@.len() == 8);
    assert("customer"@.len() == 8);
    assert("description"@.len() == 11);
    assert("metadata"@.len() == 8);
    assert("automatic_payment_methods"@.len() == 25);
    assert("currency"@[2] != "customer"@[2]);
    assert("currency"@[0] != "metadata"@[0]);
    assert("customer"@[0] != "metadata"@[0]);
}

/// A list of subscriptions is asked for with the customer, the status and the limit that were
/// given. Every field of `extra_params` is sent as it was given there, in place of a named one
/// if need be, and there are no other parameters.
pub proof fn law_list_subscriptions_parameters(req: ListSubscriptionsRequest, key: Seq<char>)
    ensures
        req.params() is Object,
        req.params()->Object_0.get(key) == if req.extra_params@ is Object && req.extra_params@->Object_0.contains_key(key) {
            Some(req.extra_params@->Object_0[key])
        } else if key == "customer"@ {
            match req.customer {
                Some(text) => Some(JsonView::String(text@)),
                None => None,
            }
        } else if key == "status"@ {
            match req.status {
                Some(text) => Some(JsonView::String(text@)),
                None => None,
            }
        } else if key == "limit"@ {
            match req.limit {
                Some(n) => Some(JsonView::Number(integer_text(n as int))),
                None => None,
            }
        } else {
            None
        },
{
    reveal_strlit("customer");
    reveal_strlit("status");
    reveal_strlit("limit");
    assert("customer"@.len() == 8 && "status"@.len() == 6 && "limit"@.len() == 5);
}

/// A subscription is created for its customer with one item, which has its price and the
/// quantity if one was given. Every field of `extra_params` is sent as it was given there, in
/// place of a named one if need be, and there are no other parameters.
pub proof fn law_create_subscription_parameters(req: CreateSubscriptionRequest, key: Seq<char>)
    ensures
        req.params() is Object,
        req.params()->Object_0.get(key) == if req.extra_params@ is Object && req.extra_params@->Object_0.contains_key(key) {
            Some(req.extra_params@->Object_0[key])
        } else if key == "customer"@ {
            Some(JsonView::String(req.customer@))
        } else if key == "items"@ {
            Some(
                JsonView::Array(
                    seq![
                        JsonView::Object(
                            match req.quantity {
                                Some(n) => map![
                                    "price"@ => JsonView::String(req.price@),
                                    "quantity"@ => JsonView::Number(integer_text(n as int)),
                                ],
                                None => map!["price"@ => JsonView::String(req.price@)],
                            },
                        ),
                    ],
                ),
            )
        } else {
            None
        },
{
    reveal_strlit("customer");
    reveal_strlit("items");
    assert("customer"@.len() == 8 && "items"@.len() == 5);
}

/// A list of invoices is asked for with the customer and the limit that were given. Every field
/// of `extra_params` is sent as it was given there, in place of a named one if need be, and
/// there are no other parameters.
pub proof fn law_list_invoices_parameters(req: ListInvoicesRequest, key: Seq<char>)
    ensures
        req.params() is Object,
        req.params()->Object_0.get(key) == if req.extra_params@ is Object && req.extra_params@->Object_0.contains_key(key) {
            Some(req.extra_params@->Object_0[key])
        } else if key == "customer"@ {
            match req.customer {
                Some(text) => Some(JsonView::String(text@)),
                None => None,
            }
        } else if key == "limit"@ {
            match req.limit {
                Some(n) => Some(JsonView::Number(integer_text(n as int))),
                None => None,
            }
        } else {
            None
        },
{
    reveal_strlit("customer");
    reveal_strlit("limit");
    assert("customer"@.len() == 8 && "limit"@.len() == 5);
}

/// A refund is asked for with the charge, the payment intent, the amount and the reason that
/// were given, each whether or not the others were. Every field of `extra_params` is sent as it
/// was given there, in place of a named one if need be, and there are no other parameters.
pub proof fn law_create_refund_parameters(req: CreateRefundRequest, key: Seq<char>)
    ensures
        req.params() is Object,
        req.params()->Object_0.get(key) == if req.extra_params@ is Object && req.extra_params@->Object_0.contains_key(key) {
            Some(req.extra_params@->Object_0[key])
        } else if key == "charge"@ {
            match req.charge {
                Some(text) => Some(JsonView::String(text@)),
                None => None,
            }
        } else if key == "payment_intent"@ {
            match req.payment_intent {
                Some(text) => Some(JsonView::String(text@)),
                None => None,
            }
        } else if key == "amount"@ {
            match req.amount {
                Some(n) => Some(JsonView::Number(integer_text(n as int))),
                None => None,
            }
        } else if key == "reason"@ {
            match req.reason {
                Some(text) => Some(JsonView::String(text@)),
                None => None,
            }
        } else {
            None
        },
{
    reveal_strlit("charge");
    reveal_strlit("payment_intent");
    reveal_strlit("amount");
    reveal_strlit("reason");
    assert("charge"@.len() == 6 && "payment_intent"@.len() == 14 && "amount"@.len() == 6 && "reason"@.len() == 6);
    assert("charge"@[0] != "amount"@[0]);
    assert("charge"@[0] != "reason"@[0]);
    assert("amount"@[0] != "reason"@[0]);
}

/// A tool that only fetches something sends every field of `extra_params` as it was given
/// there, and nothing else.
pub proof fn law_fetching_parameters(extra: JsonView, key: Seq<char>)
    ensures
        only_extra(extra) is Object,
        only_extra(extra)->Object_0.get(key) == if extra is Object && extra->Object_0.contains_key(key) {
            Some(extra->Object_0[key])
        } else {
            None
        },
{
}

/// A subscription is cancelled by an update that asks for it at the end of the billing
/// period exactly if the caller asks for that, and else by a deletion that asks for nothing.
/// Every field of `extra_params` is sent as it was given there, and there are no other
/// parameters.
pub proof fn law_cancel_subscription_parameters(req: CancelSubscriptionRequest, key: Seq<char>)
    ensures
        req.method() == HttpMethod::Post <==> req.at_period_end == Some(true),
        req.method() == HttpMethod::Delete <==> req.at_period_end != Some(true),
        req.params() is Object,
        req.params()->Object_0.get(key) == if req.extra_params@ is Object && req.extra_params@->Object_0.contains_key(key) {
            Some(req.extra_params@->Object_0[key])
        } else if key == "cancel_at_period_end"@ && req.at_period_end == Some(true) {
            Some(JsonView::Bool(true))
        } else {
            None
        },
{
}

proof fn lemma_refund_finite(req: CreateRefundRequest)
    ensures
        finite_tree(req.params()),
{
    lemma_finite_tree(req.extra_params);
    let named = map![
        "charge"@ => text_field(req.charge),
        "payment_intent"@ => text_field(req.payment_intent),
        "amount"@ => amount_field(req.amount),
        "reason"@ => text_field(req.reason),
    ];
    assert(finite_tree(JsonView::Object(named))) by {
        assert(forall|k: Seq<char>| #[trigger] named.contains_key(k) ==> finite_tree(named[k]));
    }
    lemma_params_finite(named, req.extra_params@);
}

/// A refund of an amount asks Stripe for that amount, in decimal, whether it is a charge or
/// a payment intent that is refunded, and gives the reason that was given, as long as
/// `extra_params` says nothing else.
pub proof fn law_partial_refunds(req: CreateRefundRequest, request: ApiRequest, secret_key: Seq<char>)
    requires
        request@ == request_for(secret_key, HttpMethod::Post, "/v1/refunds"@, req.params(), None, None),
    ensures
        request.payload is Form,
        req.amount is Some && !(req.extra_params@ is Object && req.extra_params@->Object_0.contains_key("amount"@))
            ==> exists|i: int|
            0 <= i < request.payload->Form_0@.len() && (#[trigger] request.payload->Form_0@[i]).0@ == "amount"@
                && request.payload->Form_0@[i].1@ == integer_text(req.amount->0 as int),
        req.reason is Some && !(req.extra_params@ is Object && req.extra_params@->Object_0.contains_key("reason"@))
            ==> exists|i: int|
            0 <= i < request.payload->Form_0@.len() && (#[trigger] request.payload->Form_0@[i]).0@ == "reason"@
                && request.payload->Form_0@[i].1@ == req.reason->0@,
{
    law_create_refund_parameters(req, "amount"@);
    law_create_refund_parameters(req, "reason"@);
    reveal_strlit("charge");
    reveal_strlit("payment_intent");
    reveal_strlit("amount");
    reveal_strlit("reason");
    assert("charge"@[0] != "amount"@[0] && "charge"@[0] != "reason"@[0] && "amount"@[0] != "reason"@[0]);
    lemma_refund_finite(req);
    law_parameters_are_sent_as_they_are(
        request,
        secret_key,
        HttpMethod::Post,
        "/v1/refunds"@,
        req.params(),
        None,
        None,
    );
    let fields = req.params()->Object_0;
    let pairs = flatten(Seq::empty(), req.params());
    if fields.contains_key("amount"@) {
        law_scalar_fields_are_sent(fields, "amount"@);
        if let JsonView::Number(text) = fields["amount"@] {
            let i = choose|i: int| 0 <= i < pairs.len() && pairs[i] == ("amount"@, text);
            assert(request.payload->Form_0@[i].0@ == "amount"@);
        }
    }
    if fields.contains_key("reason"@) {
        law_scalar_fields_are_sent(fields, "reason"@);
        if let JsonView::String(text) = fields["reason"@] {
            let i = choose|i: int| 0 <= i < pairs.len() && pairs[i] == ("reason"@, text);
            assert(request.payload->Form_0@[i].0@ == "reason"@);
        }
    }
}

/// Whatever is written of a field of `extra_params` is among the pairs that write the
/// parameters of a call, if the call has that field as it was given there.
pub proof fn law_extra_fields_reach_the_wire(
    params: JsonView,
    extra: JsonView,
    key: Seq<char>,
    pair: (Seq<char>, Seq<char>),
)
    requires
        finite_tree(params),
        params is Object,
        extra is Object,
        extra->Object_0.contains_key(key),
        params->Object_0.get(key) == Some(extra->Object_0[key]),
        flatten(key, extra->Object_0[key]).contains(pair),
    ensures
        flatten(Seq::empty(), params).contains(pair),
{
    law_every_field_is_written(Seq::empty(), params->Object_0, key, pair);
}

// ---- Requests ----

/// The models of requests, errors and plans keep all that these hold.
pub proof fn law_request_model(request: ApiRequest, error: McpError)
    ensures
        request@.method == request.method,
        request@.url == request.url@,
        request@.bearer == request.bearer@,
        request@.headers == pairs_view(request.headers@),
        match request.payload {
            Payload::Nothing => request@.payload == PayloadView::Nothing,
            Payload::Query(pairs) => request@.payload == PayloadView::Query(pairs_view(pairs@)),
            Payload::Form(pairs) => request@.payload == PayloadView::Form(pairs_view(pairs@)),
        },
        match error {
            McpError::InvalidParams(message) => error@ == McpErrorView::InvalidParams(message@),
            McpError::InternalError(message) => error@ == McpErrorView::InternalError(message@),
        },
        plan_view(Ok(request)) == Ok::<ApiRequestView, McpErrorView>(request@),
        plan_view(Err(error)) == Err::<ApiRequestView, McpErrorView>(error@),
{
}

/// A call is planned exactly if its path starts with a slash. Otherwise the caller is told
/// so, and nothing is sent.
pub proof fn law_paths_start_with_a_slash(
    plan: Result<ApiRequest, McpError>,
    secret_key: Seq<char>,
    method: HttpMethod,
    path: Seq<char>,
    params: JsonView,
    stripe_account: Option<Seq<char>>,
    idempotency_key: Option<Seq<char>>,
)
    requires
        plan_view(plan) == call_plan(secret_key, method, path, params, stripe_account, idempotency_key),
    ensures
        plan is Ok <==> path.len() > 0 && path[0] == '/',
        plan matches Err(error) ==> error matches McpError::InvalidParams(message) && message@
            == "path must start with '/', e.g. /v1/customers"@,
        plan matches Ok(request) ==> request@ == request_for(
            secret_key,
            method,
            path,
            params,
            stripe_account,
            idempotency_key,
        ),
{
}

/// A request has the method of the call, goes to the path of the call on Stripe's server,
/// and is authorized by the secret key, whatever else was asked for.
pub proof fn law_requests_follow_the_call(
    request: ApiRequest,
    secret_key: Seq<char>,
    method: HttpMethod,
    path: Seq<char>,
    params: JsonView,
    stripe_account: Option<Seq<char>>,
    idempotency_key: Option<Seq<char>>,
)
    requires
        request@ == request_for(secret_key, method, path, params, stripe_account, idempotency_key),
    ensures
        request.method == method,
        request.url@ == "https://api.stripe.com"@ + path,
        request.bearer@ == secret_key,
{
}

/// Whatever the method, a request names the connected account if the caller does, and carries
/// the idempotency key if the caller gives one. It has no other headers.
pub proof fn law_headers_follow_the_call(
    request: ApiRequest,
    secret_key: Seq<char>,
    method: HttpMethod,
    path: Seq<char>,
    params: JsonView,
    stripe_account: Option<Seq<char>>,
    idempotency_key: Option<Seq<char>>,
)
    requires
        request@ == request_for(secret_key, method, path, params, stripe_account, idempotency_key),
    ensures
        stripe_account matches Some(account) ==> request.headers@.len() > 0 && request.headers@[0].0@
            == "Stripe-Account"@ && request.headers@[0].1@ == account,
        idempotency_key matches Some(key) ==> request.headers@.len() > 0 && request.headers@.last().0@
            == "Idempotency-Key"@ && request.headers@.last().1@ == key,
        stripe_account is Some && idempotency_key is Some <==> request.headers@.len() == 2,
        stripe_account is None && idempotency_key is None <==> request.headers@.len() == 0,
        request.headers@.len() <= 2,
{
    law_pairs_model(request.headers@);
    let headers = pairs_view(request.headers@);
    assert(request@.headers == headers);
    if let Some(account) = stripe_account {
        assert(headers[0] == ("Stripe-Account"@, account));
    }
    if let Some(key) = idempotency_key {
        assert(headers[headers.len() - 1] == ("Idempotency-Key"@, key));
    }
}

/// The headers are the same for every method, path and set of parameters.
pub proof fn law_headers_depend_on_nothing_else(
    a: ApiRequest,
    b: ApiRequest,
    keys: (Seq<char>, Seq<char>),
    methods: (HttpMethod, HttpMethod),
    paths: (Seq<char>, Seq<char>),
    params: (JsonView, JsonView),
    stripe_account: Option<Seq<char>>,
    idempotency_key: Option<Seq<char>>,
)
    requires
        a@ == request_for(keys.0, methods.0, paths.0, params.0, stripe_account, idempotency_key),
        b@ == request_for(keys.1, methods.1, paths.1, params.1, stripe_account, idempotency_key),
    ensures
        a.headers@.len() == b.headers@.len(),
        forall|i: int|
            0 <= i < a.headers@.len() ==> (#[trigger] a.headers@[i]).0@ == b.headers@[i].0@ && a.headers@[i].1@
                == b.headers@[i].1@,
{
    law_pairs_model(a.headers@);
    law_pairs_model(b.headers@);
    assert forall|i: int| 0 <= i < a.headers@.len() implies (#[trigger] a.headers@[i]).0@ == b.headers@[i].0@
        && a.headers@[i].1@ == b.headers@[i].1@ by {
        assert(pairs_view(a.headers@)[i] == pairs_view(b.headers@)[i]);
    }
}

/// The pairs that write the parameters are sent in their order and as they are: as a form
/// with a POST request, and in the query with any other. Only a DELETE request without
/// parameters has neither.
pub proof fn law_parameters_are_sent_as_they_are(
    request: ApiRequest,
    secret_key: Seq<char>,
    method: HttpMethod,
    path: Seq<char>,
    params: JsonView,
    stripe_account: Option<Seq<char>>,
    idempotency_key: Option<Seq<char>>,
)
    requires
        request@ == request_for(secret_key, method, path, params, stripe_account, idempotency_key),
    ensures
        request.payload is Form <==> method == HttpMethod::Post,
        request.payload is Nothing <==> method == HttpMethod::Delete && flatten(Seq::empty(), params).len() == 0,
        match request.payload {
            Payload::Nothing => true,
            Payload::Query(pairs) => pairs@.len() == flatten(Seq::empty(), params).len() && (forall|i: int|
                0 <= i < pairs@.len() ==> (#[trigger] pairs@[i]).0@ == flatten(Seq::empty(), params)[i].0
                    && pairs@[i].1@ == flatten(Seq::empty(), params)[i].1),
            Payload::Form(pairs) => pairs@.len() == flatten(Seq::empty(), params).len() && (forall|i: int|
                0 <= i < pairs@.len() ==> (#[trigger] pairs@[i]).0@ == flatten(Seq::empty(), params)[i].0
                    && pairs@[i].1@ == flatten(Seq::empty(), params)[i].1),
        },
{
    match request.payload {
        Payload::Nothing => {},
        Payload::Query(pairs) => {
            law_pairs_model(pairs@);
            assert forall|i: int| 0 <= i < pairs@.len() implies (#[trigger] pairs@[i]).0@ == flatten(
                Seq::empty(),
                params,
            )[i].0 && pairs@[i].1@ == flatten(Seq::empty(), params)[i].1 by {
                assert(pairs_view(pairs@)[i] == flatten(Seq::empty(), params)[i]);
            }
        },
        Payload::Form(pairs) => {
            law_pairs_model(pairs@);
            assert forall|i: int| 0 <= i < pairs@.len() implies (#[trigger] pairs@[i]).0@ == flatten(
                Seq::empty(),
                params,
            )[i].0 && pairs@[i].1@ == flatten(Seq::empty(), params)[i].1 by {
                assert(pairs_view(pairs@)[i] == flatten(Seq::empty(), params)[i]);
            }
        },
    }
}

/// Every request goes to Stripe: its URL is that of the API, a slash, and what follows. So
/// the secret key that it carries is sent nowhere else.
pub proof fn law_requests_go_to_stripe(
    secret_key: Seq<char>,
    method: HttpMethod,
    path: Seq<char>,
    params: JsonView,
    stripe_account: Option<Seq<char>>,
    idempotency_key: Option<Seq<char>>,
)
    ensures
        call_plan(secret_key, method, path, params, stripe_account, idempotency_key) matches Ok(request)
            ==> "https://api.stripe.com/"@.is_prefix_of(request.url),
{
    if is_path(path) {
        let url = STRIPE_API_BASE@ + path;
        reveal_strlit("https://api.stripe.com");
        reveal_strlit("https://api.stripe.com/");
        assert("https://api.stripe.com/"@ =~= url.subrange(0, "https://api.stripe.com/"@.len() as int));
    }
}

/// The secret key is in the authorization of a request and nowhere else. Under another key
/// the plan is the same but for that, and an error does not depend on it.
pub proof fn law_secret_key_stays_in_the_authorization(
    key: Seq<char>,
    other_key: Seq<char>,
    method: HttpMethod,
    path: Seq<char>,
    params: JsonView,
    stripe_account: Option<Seq<char>>,
    idempotency_key: Option<Seq<char>>,
)
    ensures
        match call_plan(key, method, path, params, stripe_account, idempotency_key) {
            Ok(request) => request.bearer == key && call_plan(
                other_key,
                method,
                path,
                params,
                stripe_account,
                idempotency_key,
            ) == Ok::<ApiRequestView, McpErrorView>(ApiRequestView { bearer: other_key, ..request }),
            Err(error) => call_plan(other_key, method, path, params, stripe_account, idempotency_key) == Err::<
                ApiRequestView,
                McpErrorView,
            >(error),
        },
{
}

/// The pairs that a payload carries.
pub open spec fn payload_pairs(payload: PayloadView) -> Seq<(Seq<char>, Seq<char>)> {
    match payload {
        PayloadView::Nothing => Seq::empty(),
        PayloadView::Query(pairs) => pairs,
        PayloadView::Form(pairs) => pairs,
    }
}

/// Every parameter is sent, whatever the method. The parameters of a POST request are its
/// body and never in its URL; those of other requests are never a body.
pub proof fn law_parameters_travel_by_method(method: HttpMethod, params: JsonView)
    ensures
        payload_pairs(payload_for(method, flatten(Seq::empty(), params))) == flatten(Seq::empty(), params),
        payload_for(method, flatten(Seq::empty(), params)) is Form <==> method == HttpMethod::Post,
{
}

/// Leaving the parameters out is the same as giving an object without fields.
pub proof fn law_no_params(
    secret_key: Seq<char>,
    method: HttpMethod,
    path: Seq<char>,
    stripe_account: Option<Seq<char>>,
    idempotency_key: Option<Seq<char>>,
)
    ensures
        call_plan(secret_key, method, path, JsonView::Null, stripe_account, idempotency_key) == call_plan(
            secret_key,
            method,
            path,
            JsonView::Object(Map::empty()),
            stripe_account,
            idempotency_key,
        ),
{
    let none = Seq::<Seq<char>>::empty();
    let fields = Map::<Seq<char>, JsonView>::empty();
    assert(none.to_set() =~= fields.dom());
    lemma_key_order_is(none, fields.dom());
    assert(flatten(Seq::empty(), JsonView::Object(fields)) =~= flatten(Seq::empty(), JsonView::Null));
}

/// As a text, the path of a single object is that of its collection and then nothing that
/// ends a path segment or the path, and no two objects of a collection share it. This says
/// nothing of how an HTTP client resolves the path: it takes the encodings of the ids `.` and
/// `..`, which are `%2E` and `%2E%2E`, for dot segments, and the id `""` leaves the last
/// segment empty.
pub proof fn law_object_paths(collection: Seq<char>, a: Seq<char>, b: Seq<char>)
    ensures
        !encoded_id(a).contains('/') && !encoded_id(a).contains('?') && !encoded_id(a).contains('#'),
        collection + encoded_id(a) == collection + encoded_id(b) ==> a == b,
{
    law_encoded_id_is_one_segment(a);
    let n = collection.len() as int;
    assert((collection + encoded_id(a)).skip(n) =~= encoded_id(a));
    assert((collection + encoded_id(b)).skip(n) =~= encoded_id(b));
    if collection + encoded_id(a) == collection + encoded_id(b) {
        law_encoded_id_injective(a, b);
    }
}

// ---- Replies ----

/// A body that is JSON is shown pretty-printed, and any other as it came.
pub proof fn law_body_is_shown(body: Seq<char>)
    ensures
        match parsed_json(body) {
            Some(value) => shown_body(body, printed_json(body)) == pretty_json(value),
            None => shown_body(body, printed_json(body)) == body,
        },
{
}

/// A reply is an error exactly if its status is not one of 200 to 299.
pub proof fn law_statuses(status: u16)
    ensures
        success_status(status) <==> status >= 200 && status <= 299,
{
}

/// A tool result is the status behind the word HTTP, a line feed, and the body: the printed
/// form where there is one, else as it came. It is an error exactly if the status is not one
/// of 200 to 299, whatever the body says.
pub proof fn law_tool_results(status: u16, body: String, printed: Option<String>, result: CallToolResult)
    requires
        result.text@ == result_text(status, shown_body(body@, printed.deep_view())),
        result.is_error == !success_status(status),
    ensures
        result.is_error <==> status < 200 || status > 299,
        printed matches Some(text) ==> result.text@ == "HTTP "@ + decimal(status as nat) + "\n"@ + text@,
        printed is None ==> result.text@ == "HTTP "@ + decimal(status as nat) + "\n"@ + body@,
{
}

/// A body that could not be read is replaced by a notice that says why.
pub proof fn law_unread_bodies(error: Seq<char>)
    ensures
        unread_body(error) == "<failed to read response body: "@ + error + ">"@,
{
}

/// The printed form of a body is what the printer writes for the value that the parser
/// reads, and there is none where the parser reads no value.
pub proof fn law_printed_json(body: Seq<char>)
    ensures
        printed_json(body) is Some <==> parsed_json(body) is Some,
        parsed_json(body) matches Some(value) ==> printed_json(body) == Some(pretty_json(value)),
{
}

} // verus!
