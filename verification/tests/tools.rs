use stripe_mcp_server::encode::encode_id;
use stripe_mcp_server::json::{Json, JsonObject, Number};
use stripe_mcp_server::params::empty_extra;
use stripe_mcp_server::request::{ApiRequest, HttpMethod, McpError, Payload, StripeServer};
use stripe_mcp_server::tools::{
    BalanceRequest, CancelSubscriptionRequest, ChargeIdRequest, CreateCustomerRequest, CreatePaymentIntentRequest,
    CreateRefundRequest, CreateSubscriptionRequest, CustomerIdRequest, InvoiceIdRequest, ListChargesRequest,
    ListCustomersRequest, ListInvoicesRequest, ListPaymentIntentsRequest, ListSubscriptionsRequest,
    PaymentIntentIdRequest, StripeApiRequest,
};

fn server() -> StripeServer {
    StripeServer::new("sk_test".to_string())
}

fn fields(entries: Vec<(&str, Json)>) -> Json {
    let mut object = JsonObject::new();
    for (key, value) in entries {
        object.insert(key.to_string(), value);
    }
    Json::Object(object)
}

fn string(s: &str) -> Json {
    Json::String(s.to_string())
}

fn number(n: u64) -> Json {
    Json::Number(Number::PosInt(n))
}

fn some(s: &str) -> Option<String> {
    Some(s.to_string())
}

fn list(expected: &[(&str, &str)]) -> Vec<(String, String)> {
    expected.iter().map(|(a, b)| (a.to_string(), b.to_string())).collect()
}

fn planned(plan: Result<ApiRequest, McpError>) -> ApiRequest {
    match plan {
        Ok(request) => request,
        Err(error) => panic!("{:?}", error),
    }
}

fn refused(plan: Result<ApiRequest, McpError>) -> McpError {
    match plan {
        Ok(_) => panic!("no error"),
        Err(error) => error,
    }
}

fn check(plan: Result<ApiRequest, McpError>, method: HttpMethod, url: &str, payload: Payload) {
    let request = planned(plan);
    assert_eq!(request.method, method);
    assert_eq!(request.url, url);
    assert_eq!(request.payload, payload);
    assert_eq!(request.bearer, "sk_test");
    assert!(request.headers.is_empty());
}

fn generic(method: HttpMethod, path: &str, params: Json) -> StripeApiRequest {
    StripeApiRequest { method, path: path.to_string(), params, stripe_account: None, idempotency_key: None }
}

#[test]
fn get_parameters_become_the_query() {
    let plan = server().stripe_api(generic(HttpMethod::Get, "/v1/customers", fields(vec![("limit", number(5))])));
    check(plan, HttpMethod::Get, "https://api.stripe.com/v1/customers", Payload::Query(list(&[("limit", "5")])));
}

#[test]
fn post_parameters_become_the_form() {
    let params = fields(vec![("name", string("Jane Doe")), ("email", string("jane@example.com"))]);
    let plan = server().stripe_api(generic(HttpMethod::Post, "/v1/customers", params));
    check(
        plan,
        HttpMethod::Post,
        "https://api.stripe.com/v1/customers",
        Payload::Form(list(&[("email", "jane@example.com"), ("name", "Jane Doe")])),
    );
}

#[test]
fn a_payment_intent_by_the_generic_tool() {
    let params = fields(vec![
        ("amount", number(1000)),
        ("currency", string("usd")),
        ("automatic_payment_methods", fields(vec![("enabled", Json::Bool(true))])),
    ]);
    let plan = server().stripe_api(generic(HttpMethod::Post, "/v1/payment_intents", params));
    check(
        plan,
        HttpMethod::Post,
        "https://api.stripe.com/v1/payment_intents",
        Payload::Form(list(&[("amount", "1000"), ("automatic_payment_methods[enabled]", "true"), ("currency", "usd")])),
    );
}

#[test]
fn a_refund_by_the_generic_tool() {
    let plan = server().stripe_api(generic(HttpMethod::Post, "/v1/refunds", fields(vec![("charge", string("ch_123"))])));
    check(plan, HttpMethod::Post, "https://api.stripe.com/v1/refunds", Payload::Form(list(&[("charge", "ch_123")])));
}

#[test]
fn a_delete_without_parameters_has_no_query() {
    let plan = server().stripe_api(generic(HttpMethod::Delete, "/v1/customers/x", empty_extra()));
    check(plan, HttpMethod::Delete, "https://api.stripe.com/v1/customers/x", Payload::Nothing);
    let plan = server().stripe_api(generic(HttpMethod::Delete, "/v1/x", fields(vec![("a", number(1))])));
    check(plan, HttpMethod::Delete, "https://api.stripe.com/v1/x", Payload::Query(list(&[("a", "1")])));
}

#[test]
fn missing_parameters_are_like_none() {
    for method in [HttpMethod::Get, HttpMethod::Post, HttpMethod::Delete] {
        let a = planned(server().stripe_api(generic(method, "/v1/balance", Json::Null)));
        let b = planned(server().stripe_api(generic(method, "/v1/balance", empty_extra())));
        assert!(a == b);
    }
}

#[test]
fn a_path_must_start_with_a_slash() {
    for path in ["", "v1/customers", " /v1", "https://example.com/"] {
        assert_eq!(
            refused(server().stripe_api(generic(HttpMethod::Get, path, Json::Null))),
            McpError::InvalidParams("path must start with '/', e.g. /v1/customers".to_string())
        );
    }
    check(
        server().stripe_api(generic(HttpMethod::Get, "/", Json::Null)),
        HttpMethod::Get,
        "https://api.stripe.com/",
        Payload::Query(vec![]),
    );
}

#[test]
fn account_and_idempotency_key_become_headers() {
    let mut req = generic(HttpMethod::Post, "/v1/customers", Json::Null);
    req.stripe_account = some("acct_1");
    req.idempotency_key = some("key-1");
    let request = planned(server().stripe_api(req));
    assert_eq!(request.headers, list(&[("Stripe-Account", "acct_1"), ("Idempotency-Key", "key-1")]));
    let mut req = generic(HttpMethod::Post, "/v1/customers", Json::Null);
    req.idempotency_key = some("key-1");
    assert_eq!(planned(server().stripe_api(req)).headers, list(&[("Idempotency-Key", "key-1")]));
    let mut req = generic(HttpMethod::Post, "/v1/customers", Json::Null);
    req.stripe_account = some("acct_1");
    assert_eq!(planned(server().stripe_api(req)).headers, list(&[("Stripe-Account", "acct_1")]));
}

#[test]
fn the_secret_key_is_the_bearer_token_only() {
    let one = planned(StripeServer::new("one".to_string()).get_balance(BalanceRequest { extra_params: empty_extra() }));
    let mut two = planned(StripeServer::new("two".to_string()).get_balance(BalanceRequest { extra_params: empty_extra() }));
    assert_eq!(one.bearer, "one");
    assert_eq!(two.bearer, "two");
    two.bearer = "one".to_string();
    assert!(one == two);
}

#[test]
fn ids_are_percent_encoded() {
    assert_eq!(encode_id(""), "");
    assert_eq!(encode_id("aZ09"), "aZ09");
    assert_eq!(encode_id("cus_123"), "cus%5F123");
    assert_eq!(encode_id("a/b?c#d e%"), "a%2Fb%3Fc%23d%20e%25");
    assert_eq!(encode_id("../x"), "%2E%2E%2Fx");
    assert_eq!(encode_id("\u{e9}\u{10348}\u{7f}\u{0}"), "%C3%A9%F0%90%8D%88%7F%00");
}

#[test]
fn different_ids_have_different_encodings() {
    assert_ne!(encode_id("a/"), encode_id("a%2F"));
    assert_ne!(encode_id("%41"), encode_id("A"));
}

#[test]
fn list_customers_sends_what_is_given() {
    let req = ListCustomersRequest { limit: Some(3), email: some("a@b.com"), starting_after: some("cus_1"), extra_params: empty_extra() };
    check(
        server().list_customers(req),
        HttpMethod::Get,
        "https://api.stripe.com/v1/customers",
        Payload::Query(list(&[("email", "a@b.com"), ("limit", "3"), ("starting_after", "cus_1")])),
    );
    let req = ListCustomersRequest { limit: None, email: None, starting_after: None, extra_params: empty_extra() };
    check(server().list_customers(req), HttpMethod::Get, "https://api.stripe.com/v1/customers", Payload::Query(vec![]));
}

#[test]
fn extra_parameters_override_named_ones() {
    let extra = fields(vec![("limit", number(10)), ("created", fields(vec![("gte", number(7))]))]);
    let req = ListCustomersRequest { limit: Some(3), email: None, starting_after: None, extra_params: extra };
    check(
        server().list_customers(req),
        HttpMethod::Get,
        "https://api.stripe.com/v1/customers",
        Payload::Query(list(&[("created[gte]", "7"), ("limit", "10")])),
    );
}

#[test]
fn a_named_tool_reaches_what_the_generic_tool_reaches() {
    let params = || fields(vec![("limit", number(10)), ("expand", Json::Array(vec![string("data")]))]);
    let req = ListCustomersRequest { limit: Some(3), email: None, starting_after: None, extra_params: params() };
    let named = planned(server().list_customers(req));
    let generic = planned(server().stripe_api(generic(HttpMethod::Get, "/v1/customers", params())));
    assert!(named == generic);
}

#[test]
fn a_null_extra_parameter_hides_a_named_one() {
    let extra = fields(vec![("limit", Json::Null)]);
    let req = ListCustomersRequest { limit: Some(3), email: None, starting_after: None, extra_params: extra };
    check(server().list_customers(req), HttpMethod::Get, "https://api.stripe.com/v1/customers", Payload::Query(vec![]));
}

fn fetches(id: &str, extra_params: fn() -> Json) -> Vec<(ApiRequest, String)> {
    let id = || id.to_string();
    vec![
        (
            planned(server().get_customer(CustomerIdRequest { customer_id: id(), extra_params: extra_params() })),
            "/v1/customers/".to_string(),
        ),
        (
            planned(server().get_charge(ChargeIdRequest { charge_id: id(), extra_params: extra_params() })),
            "/v1/charges/".to_string(),
        ),
        (
            planned(server().get_payment_intent(PaymentIntentIdRequest {
                payment_intent_id: id(),
                extra_params: extra_params(),
            })),
            "/v1/payment_intents/".to_string(),
        ),
        (
            planned(server().get_invoice(InvoiceIdRequest { invoice_id: id(), extra_params: extra_params() })),
            "/v1/invoices/".to_string(),
        ),
    ]
}

#[test]
fn single_objects_are_fetched_by_id() {
    for (request, collection) in fetches("x/../y", empty_extra) {
        let url = format!("https://api.stripe.com{}x%2F%2E%2E%2Fy", collection);
        check(Ok(request), HttpMethod::Get, &url, Payload::Query(vec![]));
    }
}

fn expanded() -> Json {
    fields(vec![("expand", Json::Array(vec![string("subscriptions")]))])
}

#[test]
fn single_objects_are_fetched_with_extra_parameters() {
    for (request, collection) in fetches("cus1", expanded) {
        let url = format!("https://api.stripe.com{}cus1", collection);
        check(Ok(request), HttpMethod::Get, &url, Payload::Query(list(&[("expand[0]", "subscriptions")])));
    }
}

#[test]
fn fetching_reaches_what_the_generic_tool_reaches() {
    for (request, collection) in fetches("cus1", expanded) {
        let path = format!("{}cus1", collection);
        assert!(request == planned(server().stripe_api(generic(HttpMethod::Get, &path, expanded()))));
    }
    let balance = planned(server().get_balance(BalanceRequest { extra_params: expanded() }));
    assert!(balance == planned(server().stripe_api(generic(HttpMethod::Get, "/v1/balance", expanded()))));
}

#[test]
fn fetching_ignores_extra_parameters_that_are_no_object() {
    for (request, _) in fetches("cus1", || string("x")) {
        assert_eq!(request.payload, Payload::Query(vec![]));
    }
}

#[test]
fn create_customer_posts_a_form() {
    let req = CreateCustomerRequest {
        email: some("e"),
        name: some("n"),
        description: some("d"),
        metadata: Some(fields(vec![("order_id", string("6735"))])),
        extra_params: empty_extra(),
    };
    check(
        server().create_customer(req),
        HttpMethod::Post,
        "https://api.stripe.com/v1/customers",
        Payload::Form(list(&[("description", "d"), ("email", "e"), ("metadata[order_id]", "6735"), ("name", "n")])),
    );
    let req = CreateCustomerRequest { email: None, name: None, description: None, metadata: Some(Json::Null), extra_params: Json::Null };
    check(server().create_customer(req), HttpMethod::Post, "https://api.stripe.com/v1/customers", Payload::Form(vec![]));
}

#[test]
fn charges_and_payment_intents_are_listed() {
    let query = || Payload::Query(list(&[("customer", "c"), ("limit", "4294967295"), ("starting_after", "s")]));
    let req = ListChargesRequest { customer: some("c"), limit: Some(u32::MAX), starting_after: some("s"), extra_params: empty_extra() };
    check(server().list_charges(req), HttpMethod::Get, "https://api.stripe.com/v1/charges", query());
    let req = ListPaymentIntentsRequest { customer: some("c"), limit: Some(u32::MAX), starting_after: some("s"), extra_params: empty_extra() };
    check(server().list_payment_intents(req), HttpMethod::Get, "https://api.stripe.com/v1/payment_intents", query());
}

fn payment_intent(amount: i64, enabled: Option<bool>, extra_params: Json) -> CreatePaymentIntentRequest {
    CreatePaymentIntentRequest {
        amount,
        currency: "usd".to_string(),
        customer: None,
        description: None,
        metadata: None,
        automatic_payment_methods_enabled: enabled,
        extra_params,
    }
}

#[test]
fn payment_intents_use_automatic_payment_methods_by_default() {
    let url = "https://api.stripe.com/v1/payment_intents";
    check(
        server().create_payment_intent(payment_intent(1000, None, empty_extra())),
        HttpMethod::Post,
        url,
        Payload::Form(list(&[("amount", "1000"), ("automatic_payment_methods[enabled]", "true"), ("currency", "usd")])),
    );
    check(
        server().create_payment_intent(payment_intent(-5, Some(false), empty_extra())),
        HttpMethod::Post,
        url,
        Payload::Form(list(&[("amount", "-5"), ("automatic_payment_methods[enabled]", "false"), ("currency", "usd")])),
    );
    let extra = fields(vec![("automatic_payment_methods", Json::Null), ("currency", string("eur"))]);
    check(
        server().create_payment_intent(payment_intent(1, None, extra)),
        HttpMethod::Post,
        url,
        Payload::Form(list(&[("amount", "1"), ("currency", "eur")])),
    );
}

#[test]
fn payment_intents_carry_their_optional_fields() {
    let mut req = payment_intent(7, Some(true), empty_extra());
    req.customer = some("c");
    req.description = some("d");
    req.metadata = Some(fields(vec![("k", string("v"))]));
    check(
        server().create_payment_intent(req),
        HttpMethod::Post,
        "https://api.stripe.com/v1/payment_intents",
        Payload::Form(list(&[
            ("amount", "7"),
            ("automatic_payment_methods[enabled]", "true"),
            ("currency", "usd"),
            ("customer", "c"),
            ("description", "d"),
            ("metadata[k]", "v"),
        ])),
    );
}

#[test]
fn subscriptions_are_listed() {
    let req = ListSubscriptionsRequest { customer: some("c"), status: some("all"), limit: Some(0), extra_params: empty_extra() };
    check(
        server().list_subscriptions(req),
        HttpMethod::Get,
        "https://api.stripe.com/v1/subscriptions",
        Payload::Query(list(&[("customer", "c"), ("limit", "0"), ("status", "all")])),
    );
}

#[test]
fn a_subscription_has_one_item() {
    let url = "https://api.stripe.com/v1/subscriptions";
    let req = CreateSubscriptionRequest { customer: "c".to_string(), price: "p".to_string(), quantity: Some(2), extra_params: empty_extra() };
    check(
        server().create_subscription(req),
        HttpMethod::Post,
        url,
        Payload::Form(list(&[("customer", "c"), ("items[0][price]", "p"), ("items[0][quantity]", "2")])),
    );
    let req = CreateSubscriptionRequest { customer: "c".to_string(), price: "p".to_string(), quantity: None, extra_params: empty_extra() };
    check(server().create_subscription(req), HttpMethod::Post, url, Payload::Form(list(&[("customer", "c"), ("items[0][price]", "p")])));
}

#[test]
fn cancelling_at_once_deletes() {
    for at_period_end in [None, Some(false)] {
        let req = CancelSubscriptionRequest { subscription_id: "sub1".to_string(), at_period_end, extra_params: empty_extra() };
        check(server().cancel_subscription(req), HttpMethod::Delete, "https://api.stripe.com/v1/subscriptions/sub1", Payload::Nothing);
    }
    let req = CancelSubscriptionRequest {
        subscription_id: "sub_1".to_string(),
        at_period_end: None,
        extra_params: fields(vec![("prorate", Json::Bool(true))]),
    };
    check(
        server().cancel_subscription(req),
        HttpMethod::Delete,
        "https://api.stripe.com/v1/subscriptions/sub%5F1",
        Payload::Query(list(&[("prorate", "true")])),
    );
}

#[test]
fn cancelling_at_period_end_updates() {
    let url = "https://api.stripe.com/v1/subscriptions/sub1";
    let req = CancelSubscriptionRequest { subscription_id: "sub1".to_string(), at_period_end: Some(true), extra_params: empty_extra() };
    check(server().cancel_subscription(req), HttpMethod::Post, url, Payload::Form(list(&[("cancel_at_period_end", "true")])));
    let extra = fields(vec![("cancel_at_period_end", Json::Bool(false))]);
    let req = CancelSubscriptionRequest { subscription_id: "sub1".to_string(), at_period_end: Some(true), extra_params: extra };
    check(server().cancel_subscription(req), HttpMethod::Post, url, Payload::Form(list(&[("cancel_at_period_end", "false")])));
}

#[test]
fn invoices_are_listed() {
    let req = ListInvoicesRequest { customer: some("c"), limit: Some(12), extra_params: empty_extra() };
    check(
        server().list_invoices(req),
        HttpMethod::Get,
        "https://api.stripe.com/v1/invoices",
        Payload::Query(list(&[("customer", "c"), ("limit", "12")])),
    );
}

fn refund(charge: Option<String>, payment_intent: Option<String>, amount: Option<i64>, extra_params: Json) -> CreateRefundRequest {
    CreateRefundRequest { charge, payment_intent, amount, reason: None, extra_params }
}

#[test]
fn a_refund_needs_a_charge_or_a_payment_intent() {
    let expected = McpError::InvalidParams("provide either `charge` or `payment_intent`".to_string());
    assert_eq!(refused(server().create_refund(refund(None, None, None, empty_extra()))), expected);
    let extra = fields(vec![("charge", string("ch_1"))]);
    assert_eq!(refused(server().create_refund(refund(None, None, Some(1), extra))), expected);
}

#[test]
fn refunds_are_posted() {
    let url = "https://api.stripe.com/v1/refunds";
    check(
        server().create_refund(refund(some("ch_1"), None, Some(i64::MIN), empty_extra())),
        HttpMethod::Post,
        url,
        Payload::Form(list(&[("amount", "-9223372036854775808"), ("charge", "ch_1")])),
    );
    let mut req = refund(None, some("pi_1"), None, empty_extra());
    req.reason = some("duplicate");
    check(
        server().create_refund(req),
        HttpMethod::Post,
        url,
        Payload::Form(list(&[("payment_intent", "pi_1"), ("reason", "duplicate")])),
    );
}

#[test]
fn a_refund_names_one_of_the_two_only() {
    let expected = McpError::InvalidParams("provide `charge` or `payment_intent`, not both".to_string());
    assert_eq!(refused(server().create_refund(refund(some("ch_1"), some("pi_1"), None, empty_extra()))), expected);
    let extra = fields(vec![("charge", Json::Null)]);
    assert_eq!(refused(server().create_refund(refund(some("ch_1"), some("pi_1"), Some(1), extra))), expected);
}

#[test]
fn the_balance_is_fetched() {
    let url = "https://api.stripe.com/v1/balance";
    check(
        server().get_balance(BalanceRequest { extra_params: empty_extra() }),
        HttpMethod::Get,
        url,
        Payload::Query(vec![]),
    );
    check(
        server().get_balance(BalanceRequest { extra_params: expanded() }),
        HttpMethod::Get,
        url,
        Payload::Query(list(&[("expand[0]", "subscriptions")])),
    );
}
