//! The tools: each turns its arguments into the plan for one call.
use crate::encode::{encode_id, encoded_id};
use crate::json::{Json, JsonObject, JsonView, Number};
use crate::params::{empty_extra, merge_params, merged, strip_nulls, stripped};
use crate::request::{
    call_plan, plan_view, request_for, ApiRequest, HttpMethod, McpError, McpErrorView, StripeServer,
};
use crate::text::integer_text;
use vstd::prelude::*;
use vstd::string::StringExecFns;

verus! {

/// The arguments of the generic tool.
pub struct StripeApiRequest {
    /// HTTP method to use for the call.
    pub method: HttpMethod,
    /// API path, such as `/v1/customers`.
    pub path: String,
    /// Parameters for the call, as a nested JSON object.
    pub params: Json,
    /// The connected account on whose behalf the request is made.
    pub stripe_account: Option<String>,
    /// The idempotency key of the request.
    pub idempotency_key: Option<String>,
}

pub struct ListCustomersRequest {
    pub limit: Option<u32>,
    pub email: Option<String>,
    pub starting_after: Option<String>,
    /// Further parameters, laid over the named ones.
    pub extra_params: Json,
}

pub struct CustomerIdRequest {
    pub customer_id: String,
    /// Further parameters.
    pub extra_params: Json,
}

pub struct CreateCustomerRequest {
    pub email: Option<String>,
    pub name: Option<String>,
    pub description: Option<String>,
    pub metadata: Option<Json>,
    /// Further parameters, laid over the named ones.
    pub extra_params: Json,
}

pub struct ListChargesRequest {
    pub customer: Option<String>,
    pub limit: Option<u32>,
    pub starting_after: Option<String>,
    /// Further parameters, laid over the named ones.
    pub extra_params: Json,
}

pub struct ChargeIdRequest {
    pub charge_id: String,
    /// Further parameters.
    pub extra_params: Json,
}

pub struct ListPaymentIntentsRequest {
    pub customer: Option<String>,
    pub limit: Option<u32>,
    pub starting_after: Option<String>,
    /// Further parameters, laid over the named ones.
    pub extra_params: Json,
}

pub struct CreatePaymentIntentRequest {
    /// Amount in the currency's smallest unit.
    pub amount: i64,
    /// Three-letter ISO currency code.
    pub currency: String,
    pub customer: Option<String>,
    pub description: Option<String>,
    pub metadata: Option<Json>,
    /// True if omitted.
    pub automatic_payment_methods_enabled: Option<bool>,
    /// Further parameters, laid over the named ones.
    pub extra_params: Json,
}

pub struct PaymentIntentIdRequest {
    pub payment_intent_id: String,
    /// Further parameters.
    pub extra_params: Json,
}

pub struct ListSubscriptionsRequest {
    pub customer: Option<String>,
    pub status: Option<String>,
    pub limit: Option<u32>,
    /// Further parameters, laid over the named ones.
    pub extra_params: Json,
}

pub struct CreateSubscriptionRequest {
    /// The customer to subscribe.
    pub customer: String,
    /// The price of the subscription's first item.
    pub price: String,
    pub quantity: Option<u32>,
    /// Further parameters, laid over the named ones.
    pub extra_params: Json,
}

pub struct CancelSubscriptionRequest {
    pub subscription_id: String,
    /// Whether to cancel at the end of the billing period and not at once.
    pub at_period_end: Option<bool>,
    /// Further parameters, laid over the named ones.
    pub extra_params: Json,
}

pub struct ListInvoicesRequest {
    pub customer: Option<String>,
    pub limit: Option<u32>,
    /// Further parameters, laid over the named ones.
    pub extra_params: Json,
}

pub struct InvoiceIdRequest {
    pub invoice_id: String,
    /// Further parameters.
    pub extra_params: Json,
}

pub struct CreateRefundRequest {
    /// The charge to refund. Either this or `payment_intent` is given.
    pub charge: Option<String>,
    /// The payment intent to refund. Either this or `charge` is given.
    pub payment_intent: Option<String>,
    /// The amount to refund; all that remains if omitted.
    pub amount: Option<i64>,
    pub reason: Option<String>,
    /// Further parameters, laid over the named ones.
    pub extra_params: Json,
}

pub struct BalanceRequest {
    /// Further parameters.
    pub extra_params: Json,
}

/// The message for a refund that names neither a charge nor a payment intent.
pub const REFUND_OF_NOTHING: &'static str = "provide either `charge` or `payment_intent`";

/// The message for a refund that names both a charge and a payment intent.
pub const REFUND_OF_BOTH: &'static str = "provide `charge` or `payment_intent`, not both";

/// An optional text as a field: null if it is missing.
pub open spec fn text_field(text: Option<String>) -> JsonView {
    match text {
        Some(s) => JsonView::String(s@),
        None => JsonView::Null,
    }
}

/// An optional count as a field: null if it is missing.
pub open spec fn count_field(count: Option<u32>) -> JsonView {
    match count {
        Some(n) => JsonView::Number(integer_text(n as int)),
        None => JsonView::Null,
    }
}

/// An optional amount as a field: null if it is missing.
pub open spec fn amount_field(amount: Option<i64>) -> JsonView {
    match amount {
        Some(n) => JsonView::Number(integer_text(n as int)),
        None => JsonView::Null,
    }
}

/// An optional value as a field: null if it is missing.
pub open spec fn value_field(value: Option<Json>) -> JsonView {
    match value {
        Some(json) => json@,
        None => JsonView::Null,
    }
}

fn text_json(text: Option<String>) -> (json: Json)
    ensures
        json@ == text_field(text),
{
    match text {
        Some(s) => Json::String(s),
        None => Json::Null,
    }
}

fn count_json(count: Option<u32>) -> (json: Json)
    ensures
        json@ == count_field(count),
{
    match count {
        Some(n) => Json::Number(Number::PosInt(n as u64)),
        None => Json::Null,
    }
}

fn integer_json(n: i64) -> (json: Json)
    ensures
        json@ == JsonView::Number(integer_text(n as int)),
{
    if n < 0 {
        Json::Number(Number::NegInt(n))
    } else {
        Json::Number(Number::PosInt(n as u64))
    }
}

fn amount_json(amount: Option<i64>) -> (json: Json)
    ensures
        json@ == amount_field(amount),
{
    match amount {
        Some(n) => integer_json(n),
        None => Json::Null,
    }
}

fn value_json(value: Option<Json>) -> (json: Json)
    ensures
        json@ == value_field(value),
{
    match value {
        Some(json) => json,
        None => Json::Null,
    }
}

/// The parameters of a tool: its named fields as far as they were given, with `extra` laid
/// over them.
pub open spec fn tool_params(named: Map<Seq<char>, JsonView>, extra: JsonView) -> JsonView {
    merged(stripped(JsonView::Object(named)), extra)
}

/// The parameters of a tool that has no named ones: those of `extra`, if it is an object.
pub open spec fn only_extra(extra: JsonView) -> JsonView {
    merged(JsonView::Object(Map::empty()), extra)
}

fn with_extra(named: JsonObject, extra: Json) -> (params: Json)
    ensures
        params@ == tool_params(named@, extra@),
{
    let mut params = Json::Object(named);
    strip_nulls(&mut params);
    merge_params(params, extra)
}

impl ListCustomersRequest {
    /// The parameters of the call.
    pub open spec fn params(self) -> JsonView {
        tool_params(
            map![
                "limit"@ => count_field(self.limit),
                "email"@ => text_field(self.email),
                "starting_after"@ => text_field(self.starting_after),
            ],
            self.extra_params@,
        )
    }
}

impl CreateCustomerRequest {
    /// The parameters of the call.
    pub open spec fn params(self) -> JsonView {
        tool_params(
            map![
                "email"@ => text_field(self.email),
                "name"@ => text_field(self.name),
                "description"@ => text_field(self.description),
                "metadata"@ => value_field(self.metadata),
            ],
            self.extra_params@,
        )
    }
}

impl ListChargesRequest {
    /// The parameters of the call.
    pub open spec fn params(self) -> JsonView {
        tool_params(
            map![
                "customer"@ => text_field(self.customer),
                "limit"@ => count_field(self.limit),
                "starting_after"@ => text_field(self.starting_after),
            ],
            self.extra_params@,
        )
    }
}

impl ListPaymentIntentsRequest {
    /// The parameters of the call.
    pub open spec fn params(self) -> JsonView {
        tool_params(
            map![
                "customer"@ => text_field(self.customer),
                "limit"@ => count_field(self.limit),
                "starting_after"@ => text_field(self.starting_after),
            ],
            self.extra_params@,
        )
    }
}

impl CreatePaymentIntentRequest {
    /// Whether automatic payment methods are asked for: unless the caller declines them.
    pub open spec fn automatic(self) -> bool {
        match self.automatic_payment_methods_enabled {
            Some(enabled) => enabled,
            None => true,
        }
    }

    /// The parameters of the call.
    pub open spec fn params(self) -> JsonView {
        tool_params(
            map![
                "amount"@ => JsonView::Number(integer_text(self.amount as int)),
                "currency"@ => JsonView::String(self.currency@),
                "customer"@ => text_field(self.customer),
                "description"@ => text_field(self.description),
                "metadata"@ => value_field(self.metadata),
                "automatic_payment_methods"@ => JsonView::Object(
                    map!["enabled"@ => JsonView::Bool(self.automatic())],
                ),
            ],
            self.extra_params@,
        )
    }
}

impl ListSubscriptionsRequest {
    /// The parameters of the call.
    pub open spec fn params(self) -> JsonView {
        tool_params(
            map![
                "customer"@ => text_field(self.customer),
                "status"@ => text_field(self.status),
                "limit"@ => count_field(self.limit),
            ],
            self.extra_params@,
        )
    }
}

impl CreateSubscriptionRequest {
    /// The subscription's first item.
    pub open spec fn item(self) -> JsonView {
        let item = map!["price"@ => JsonView::String(self.price@)];
        JsonView::Object(
            match self.quantity {
                Some(n) => item.insert("quantity"@, JsonView::Number(integer_text(n as int))),
                None => item,
            },
        )
    }

    /// The parameters of the call.
    pub open spec fn params(self) -> JsonView {
        tool_params(
            map![
                "customer"@ => JsonView::String(self.customer@),
                "items"@ => JsonView::Array(seq![self.item()]),
            ],
            self.extra_params@,
        )
    }
}

impl CancelSubscriptionRequest {
    /// Whether the cancellation waits for the end of the billing period: only if asked for.
    pub open spec fn deferred(self) -> bool {
        self.at_period_end == Some(true)
    }

    /// The method of the call: an update defers the cancellation, a deletion cancels at
    /// once.
    pub open spec fn method(self) -> HttpMethod {
        if self.deferred() {
            HttpMethod::Post
        } else {
            HttpMethod::Delete
        }
    }

    /// The parameters of the call.
    pub open spec fn params(self) -> JsonView {
        merged(
            JsonView::Object(
                if self.deferred() {
                    map!["cancel_at_period_end"@ => JsonView::Bool(true)]
                } else {
                    Map::empty()
                },
            ),
            self.extra_params@,
        )
    }
}

impl ListInvoicesRequest {
    /// The parameters of the call.
    pub open spec fn params(self) -> JsonView {
        tool_params(
            map![
                "customer"@ => text_field(self.customer),
                "limit"@ => count_field(self.limit),
            ],
            self.extra_params@,
        )
    }
}

impl CreateRefundRequest {
    /// The parameters of the call.
    pub open spec fn params(self) -> JsonView {
        tool_params(
            map![
                "charge"@ => text_field(self.charge),
                "payment_intent"@ => text_field(self.payment_intent),
                "amount"@ => amount_field(self.amount),
                "reason"@ => text_field(self.reason),
            ],
            self.extra_params@,
        )
    }
}

impl StripeServer {
    // ---- Generic fallback tool ----

    /// Calls any endpoint of the API with any method.
    pub fn stripe_api(&self, req: StripeApiRequest) -> (plan: Result<ApiRequest, McpError>)
        ensures
            plan_view(plan) == call_plan(
                self.key(),
                req.method,
                req.path@,
                req.params@,
                req.stripe_account.deep_view(),
                req.idempotency_key.deep_view(),
            ),
    {
        self.call(req.method, req.path, req.params, req.stripe_account, req.idempotency_key)
    }

    // ---- Customers ----

    /// Lists customers, optionally filtered by email.
    pub fn list_customers(&self, req: ListCustomersRequest) -> (plan: Result<ApiRequest, McpError>)
        ensures
            plan_view(plan) == Ok::<_, McpErrorView>(
                request_for(self.key(), HttpMethod::Get, "/v1/customers"@, req.params(), None, None),
            ),
    {
        let mut named = JsonObject::new();
        named.insert("limit".to_string(), count_json(req.limit));
        named.insert("email".to_string(), text_json(req.email));
        named.insert("starting_after".to_string(), text_json(req.starting_after));
        let params = with_extra(named, req.extra_params);
        proof {
            reveal_strlit("/v1/customers");
        }
        self.call(HttpMethod::Get, "/v1/customers".to_string(), params, None, None)
    }

    /// Retrieves a single customer by id.
    pub fn get_customer(&self, req: CustomerIdRequest) -> (plan: Result<ApiRequest, McpError>)
        ensures
            plan_view(plan) == Ok::<_, McpErrorView>(
                request_for(
                    self.key(),
                    HttpMethod::Get,
                    "/v1/customers/"@ + encoded_id(req.customer_id@),
                    only_extra(req.extra_params@),
                    None,
                    None,
                ),
            ),
    {
        let mut path = "/v1/customers/".to_string();
        path.append(encode_id(req.customer_id.as_str()).as_str());
        proof {
            reveal_strlit("/v1/customers/");
        }
        let params = merge_params(empty_extra(), req.extra_params);
        self.call(HttpMethod::Get, path, params, None, None)
    }

    /// Creates a customer.
    pub fn create_customer(&self, req: CreateCustomerRequest) -> (plan: Result<ApiRequest, McpError>)
        ensures
            plan_view(plan) == Ok::<_, McpErrorView>(
                request_for(self.key(), HttpMethod::Post, "/v1/customers"@, req.params(), None, None),
            ),
    {
        let mut named = JsonObject::new();
        named.insert("email".to_string(), text_json(req.email));
        named.insert("name".to_string(), text_json(req.name));
        named.insert("description".to_string(), text_json(req.description));
        named.insert("metadata".to_string(), value_json(req.metadata));
        let params = with_extra(named, req.extra_params);
        proof {
            reveal_strlit("/v1/customers");
        }
        self.call(HttpMethod::Post, "/v1/customers".to_string(), params, None, None)
    }

    // ---- Charges ----

    /// Lists charges, optionally filtered by customer.
    pub fn list_charges(&self, req: ListChargesRequest) -> (plan: Result<ApiRequest, McpError>)
        ensures
            plan_view(plan) == Ok::<_, McpErrorView>(
                request_for(self.key(), HttpMethod::Get, "/v1/charges"@, req.params(), None, None),
            ),
    {
        let mut named = JsonObject::new();
        named.insert("customer".to_string(), text_json(req.customer));
        named.insert("limit".to_string(), count_json(req.limit));
        named.insert("starting_after".to_string(), text_json(req.starting_after));
        let params = with_extra(named, req.extra_params);
        proof {
            reveal_strlit("/v1/charges");
        }
        self.call(HttpMethod::Get, "/v1/charges".to_string(), params, None, None)
    }

    /// Retrieves a single charge by id.
    pub fn get_charge(&self, req: ChargeIdRequest) -> (plan: Result<ApiRequest, McpError>)
        ensures
            plan_view(plan) == Ok::<_, McpErrorView>(
                request_for(
                    self.key(),
                    HttpMethod::Get,
                    "/v1/charges/"@ + encoded_id(req.charge_id@),
                    only_extra(req.extra_params@),
                    None,
                    None,
                ),
            ),
    {
        let mut path = "/v1/charges/".to_string();
        path.append(encode_id(req.charge_id.as_str()).as_str());
        proof {
            reveal_strlit("/v1/charges/");
        }
        let params = merge_params(empty_extra(), req.extra_params);
        self.call(HttpMethod::Get, path, params, None, None)
    }

    // ---- Payment intents ----

    /// Lists payment intents, optionally filtered by customer.
    pub fn list_payment_intents(&self, req: ListPaymentIntentsRequest) -> (plan: Result<ApiRequest, McpError>)
        ensures
            plan_view(plan) == Ok::<_, McpErrorView>(
                request_for(self.key(), HttpMethod::Get, "/v1/payment_intents"@, req.params(), None, None),
            ),
    {
        let mut named = JsonObject::new();
        named.insert("customer".to_string(), text_json(req.customer));
        named.insert("limit".to_string(), count_json(req.limit));
        named.insert("starting_after".to_string(), text_json(req.starting_after));
        let params = with_extra(named, req.extra_params);
        proof {
            reveal_strlit("/v1/payment_intents");
        }
        self.call(HttpMethod::Get, "/v1/payment_intents".to_string(), params, None, None)
    }

    /// Creates a payment intent to collect a payment. Automatic payment methods are enabled
    /// unless the caller says otherwise.
    pub fn create_payment_intent(&self, req: CreatePaymentIntentRequest) -> (plan: Result<ApiRequest, McpError>)
        ensures
            plan_view(plan) == Ok::<_, McpErrorView>(
                request_for(self.key(), HttpMethod::Post, "/v1/payment_intents"@, req.params(), None, None),
            ),
    {
        let automatic = req.automatic_payment_methods_enabled.unwrap_or(true);
        let mut methods = JsonObject::new();
        methods.insert("enabled".to_string(), Json::Bool(automatic));
        let mut named = JsonObject::new();
        named.insert("amount".to_string(), integer_json(req.amount));
        named.insert("currency".to_string(), Json::String(req.currency));
        named.insert("customer".to_string(), text_json(req.customer));
        named.insert("description".to_string(), text_json(req.description));
        named.insert("metadata".to_string(), value_json(req.metadata));
        named.insert("automatic_payment_methods".to_string(), Json::Object(methods));
        let params = with_extra(named, req.extra_params);
        proof {
            reveal_strlit("/v1/payment_intents");
        }
        self.call(HttpMethod::Post, "/v1/payment_intents".to_string(), params, None, None)
    }

    /// Retrieves a single payment intent by id.
    pub fn get_payment_intent(&self, req: PaymentIntentIdRequest) -> (plan: Result<ApiRequest, McpError>)
        ensures
            plan_view(plan) == Ok::<_, McpErrorView>(
                request_for(
                    self.key(),
                    HttpMethod::Get,
                    "/v1/payment_intents/"@ + encoded_id(req.payment_intent_id@),
                    only_extra(req.extra_params@),
                    None,
                    None,
                ),
            ),
    {
        let mut path = "/v1/payment_intents/".to_string();
        path.append(encode_id(req.payment_intent_id.as_str()).as_str());
        proof {
            reveal_strlit("/v1/payment_intents/");
        }
        let params = merge_params(empty_extra(), req.extra_params);
        self.call(HttpMethod::Get, path, params, None, None)
    }

    // ---- Subscriptions ----

    /// Lists subscriptions, optionally filtered by customer or status.
    pub fn list_subscriptions(&self, req: ListSubscriptionsRequest) -> (plan: Result<ApiRequest, McpError>)
        ensures
            plan_view(plan) == Ok::<_, McpErrorView>(
                request_for(self.key(), HttpMethod::Get, "/v1/subscriptions"@, req.params(), None, None),
            ),
    {
        let mut named = JsonObject::new();
        named.insert("customer".to_string(), text_json(req.customer));
        named.insert("status".to_string(), text_json(req.status));
        named.insert("limit".to_string(), count_json(req.limit));
        let params = with_extra(named, req.extra_params);
        proof {
            reveal_strlit("/v1/subscriptions");
        }
        self.call(HttpMethod::Get, "/v1/subscriptions".to_string(), params, None, None)
    }

    /// Creates a subscription for a customer on a single price.
    pub fn create_subscription(&self, req: CreateSubscriptionRequest) -> (plan: Result<ApiRequest, McpError>)
        ensures
            plan_view(plan) == Ok::<_, McpErrorView>(
                request_for(self.key(), HttpMethod::Post, "/v1/subscriptions"@, req.params(), None, None),
            ),
    {
        let mut item = JsonObject::new();
        item.insert("price".to_string(), Json::String(req.price));
        if let Some(quantity) = req.quantity {
            item.insert("quantity".to_string(), Json::Number(Number::PosInt(quantity as u64)));
        }
        let first = Json::Object(item);
        assert(first@ == req.item());
        let mut items: Vec<Json> = Vec::new();
        items.push(first);
        let items = Json::Array(items);
        assert(items@->Array_0 =~= seq![req.item()]);
        let mut named = JsonObject::new();
        named.insert("customer".to_string(), Json::String(req.customer));
        named.insert("items".to_string(), items);
        let params = with_extra(named, req.extra_params);
        proof {
            reveal_strlit("/v1/subscriptions");
        }
        self.call(HttpMethod::Post, "/v1/subscriptions".to_string(), params, None, None)
    }

    /// Cancels a subscription, at once or at the end of the current billing period.
    pub fn cancel_subscription(&self, req: CancelSubscriptionRequest) -> (plan: Result<ApiRequest, McpError>)
        ensures
            plan_view(plan) == Ok::<_, McpErrorView>(
                request_for(
                    self.key(),
                    req.method(),
                    "/v1/subscriptions/"@ + encoded_id(req.subscription_id@),
                    req.params(),
                    None,
                    None,
                ),
            ),
    {
        let mut path = "/v1/subscriptions/".to_string();
        path.append(encode_id(req.subscription_id.as_str()).as_str());
        proof {
            reveal_strlit("/v1/subscriptions/");
        }
        if req.at_period_end.unwrap_or(false) {
            let mut named = JsonObject::new();
            named.insert("cancel_at_period_end".to_string(), Json::Bool(true));
            let params = merge_params(Json::Object(named), req.extra_params);
            self.call(HttpMethod::Post, path, params, None, None)
        } else {
            let params = merge_params(empty_extra(), req.extra_params);
            self.call(HttpMethod::Delete, path, params, None, None)
        }
    }

    // ---- Invoices ----

    /// Lists invoices, optionally filtered by customer.
    pub fn list_invoices(&self, req: ListInvoicesRequest) -> (plan: Result<ApiRequest, McpError>)
        ensures
            plan_view(plan) == Ok::<_, McpErrorView>(
                request_for(self.key(), HttpMethod::Get, "/v1/invoices"@, req.params(), None, None),
            ),
    {
        let mut named = JsonObject::new();
        named.insert("customer".to_string(), text_json(req.customer));
        named.insert("limit".to_string(), count_json(req.limit));
        let params = with_extra(named, req.extra_params);
        proof {
            reveal_strlit("/v1/invoices");
        }
        self.call(HttpMethod::Get, "/v1/invoices".to_string(), params, None, None)
    }

    /// Retrieves a single invoice by id.
    pub fn get_invoice(&self, req: InvoiceIdRequest) -> (plan: Result<ApiRequest, McpError>)
        ensures
            plan_view(plan) == Ok::<_, McpErrorView>(
                request_for(
                    self.key(),
                    HttpMethod::Get,
                    "/v1/invoices/"@ + encoded_id(req.invoice_id@),
                    only_extra(req.extra_params@),
                    None,
                    None,
                ),
            ),
    {
        let mut path = "/v1/invoices/".to_string();
        path.append(encode_id(req.invoice_id.as_str()).as_str());
        proof {
            reveal_strlit("/v1/invoices/");
        }
        let params = merge_params(empty_extra(), req.extra_params);
        self.call(HttpMethod::Get, path, params, None, None)
    }

    // ---- Refunds and balance ----

    /// Refunds a charge or a payment intent, fully or partially. The caller names one of the
    /// two, and not both.
    pub fn create_refund(&self, req: CreateRefundRequest) -> (plan: Result<ApiRequest, McpError>)
        ensures
            plan_view(plan) == if req.charge is None && req.payment_intent is None {
                Err(McpErrorView::InvalidParams(REFUND_OF_NOTHING@))
            } else if req.charge is Some && req.payment_intent is Some {
                Err(McpErrorView::InvalidParams(REFUND_OF_BOTH@))
            } else {
                Ok(request_for(self.key(), HttpMethod::Post, "/v1/refunds"@, req.params(), None, None))
            },
    {
        if req.charge.is_none() && req.payment_intent.is_none() {
            return Err(McpError::InvalidParams(REFUND_OF_NOTHING.to_string()));
        }
        if req.charge.is_some() && req.payment_intent.is_some() {
            return Err(McpError::InvalidParams(REFUND_OF_BOTH.to_string()));
        }
        let mut named = JsonObject::new();
        named.insert("charge".to_string(), text_json(req.charge));
        named.insert("payment_intent".to_string(), text_json(req.payment_intent));
        named.insert("amount".to_string(), amount_json(req.amount));
        named.insert("reason".to_string(), text_json(req.reason));
        let params = with_extra(named, req.extra_params);
        proof {
            reveal_strlit("/v1/refunds");
        }
        self.call(HttpMethod::Post, "/v1/refunds".to_string(), params, None, None)
    }

    /// Retrieves the account balance.
    pub fn get_balance(&self, req: BalanceRequest) -> (plan: Result<ApiRequest, McpError>)
        ensures
            plan_view(plan) == Ok::<_, McpErrorView>(
                request_for(
                    self.key(),
                    HttpMethod::Get,
                    "/v1/balance"@,
                    only_extra(req.extra_params@),
                    None,
                    None,
                ),
            ),
    {
        proof {
            reveal_strlit("/v1/balance");
        }
        let params = merge_params(empty_extra(), req.extra_params);
        self.call(HttpMethod::Get, "/v1/balance".to_string(), params, None, None)
    }
}

} // verus!
