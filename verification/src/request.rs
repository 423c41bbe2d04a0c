//! Requests to the Stripe API, as plain values that an HTTP client can send.
use crate::json::{Json, JsonView};
use crate::params::{flatten, flatten_params, pairs_view};
use crate::text::has_prefix;
use vstd::prelude::*;
use vstd::string::StringExecFns;

verus! {

/// Where the Stripe API lives.
pub const STRIPE_API_BASE: &'static str = "https://api.stripe.com";

/// The message for a path that does not start with a slash.
pub const BAD_PATH: &'static str = "path must start with '/', e.g. /v1/customers";

/// The header that names the connected account on whose behalf a request is made.
pub const ACCOUNT_HEADER: &'static str = "Stripe-Account";

/// The header that makes a request idempotent.
pub const IDEMPOTENCY_HEADER: &'static str = "Idempotency-Key";

/// The HTTP methods of the Stripe API.
#[derive(Debug, Clone, Copy, PartialEq, Eq, Structural)]
pub enum HttpMethod {
    Get,
    Post,
    Delete,
}

/// How the parameters of a request travel.
#[derive(Debug, PartialEq, Eq)]
pub enum Payload {
    /// There are none, and the URL gets no query string.
    Nothing,
    /// As the query string of the URL.
    Query(Vec<(String, String)>),
    /// As a form-encoded body.
    Form(Vec<(String, String)>),
}

pub enum PayloadView {
    Nothing,
    Query(Seq<(Seq<char>, Seq<char>)>),
    Form(Seq<(Seq<char>, Seq<char>)>),
}

impl View for Payload {
    type V = PayloadView;

    open spec fn view(&self) -> PayloadView {
        match *self {
            Payload::Nothing => PayloadView::Nothing,
            Payload::Query(pairs) => PayloadView::Query(pairs_view(pairs@)),
            Payload::Form(pairs) => PayloadView::Form(pairs_view(pairs@)),
        }
    }
}

/// A request that is ready to be sent. It holds the secret key, so it has no debug output.
#[derive(PartialEq, Eq)]
pub struct ApiRequest {
    pub method: HttpMethod,
    pub url: String,
    pub payload: Payload,
    /// The token of the `Authorization: Bearer` header.
    pub bearer: String,
    /// Further headers, in the order in which they are added.
    pub headers: Vec<(String, String)>,
}

pub struct ApiRequestView {
    pub method: HttpMethod,
    pub url: Seq<char>,
    pub payload: PayloadView,
    pub bearer: Seq<char>,
    pub headers: Seq<(Seq<char>, Seq<char>)>,
}

impl View for ApiRequest {
    type V = ApiRequestView;

    open spec fn view(&self) -> ApiRequestView {
        ApiRequestView {
            method: self.method,
            url: self.url@,
            payload: self.payload@,
            bearer: self.bearer@,
            headers: pairs_view(self.headers@),
        }
    }
}

/// An error of the protocol, with its message.
#[derive(Debug, PartialEq, Eq)]
pub enum McpError {
    /// The caller's arguments are at fault.
    InvalidParams(String),
    /// The server could not do its part.
    InternalError(String),
}

pub enum McpErrorView {
    InvalidParams(Seq<char>),
    InternalError(Seq<char>),
}

impl View for McpError {
    type V = McpErrorView;

    open spec fn view(&self) -> McpErrorView {
        match *self {
            McpError::InvalidParams(message) => McpErrorView::InvalidParams(message@),
            McpError::InternalError(message) => McpErrorView::InternalError(message@),
        }
    }
}

/// What a plan for a call says: the request to send, or the error to answer with.
pub open spec fn plan_view(plan: Result<ApiRequest, McpError>) -> Result<ApiRequestView, McpErrorView> {
    match plan {
        Ok(request) => Ok(request@),
        Err(error) => Err(error@),
    }
}

/// How the parameters of a request with a given method travel: those of a GET or DELETE
/// request in the query string, those of a POST request in the body.
pub open spec fn payload_for(method: HttpMethod, pairs: Seq<(Seq<char>, Seq<char>)>) -> PayloadView {
    match method {
        HttpMethod::Get => PayloadView::Query(pairs),
        HttpMethod::Post => PayloadView::Form(pairs),
        HttpMethod::Delete => if pairs.len() == 0 {
            PayloadView::Nothing
        } else {
            PayloadView::Query(pairs)
        },
    }
}

/// The header `name` with the given value, if there is one.
pub open spec fn optional_header(name: Seq<char>, value: Option<Seq<char>>) -> Seq<(Seq<char>, Seq<char>)> {
    match value {
        Some(value) => seq![(name, value)],
        None => Seq::empty(),
    }
}

/// The request for a call to the endpoint `path`.
pub open spec fn request_for(
    secret_key: Seq<char>,
    method: HttpMethod,
    path: Seq<char>,
    params: JsonView,
    stripe_account: Option<Seq<char>>,
    idempotency_key: Option<Seq<char>>,
) -> ApiRequestView {
    ApiRequestView {
        method,
        url: STRIPE_API_BASE@ + path,
        payload: payload_for(method, flatten(Seq::empty(), params)),
        bearer: secret_key,
        headers: optional_header(ACCOUNT_HEADER@, stripe_account) + optional_header(
            IDEMPOTENCY_HEADER@,
            idempotency_key,
        ),
    }
}

/// Whether a path starts with a slash.
pub open spec fn is_path(path: Seq<char>) -> bool {
    path.len() > 0 && path[0] == '/'
}

/// The plan for a call to the endpoint `path`: its request, or an error if `path` does
/// not start with a slash.
pub open spec fn call_plan(
    secret_key: Seq<char>,
    method: HttpMethod,
    path: Seq<char>,
    params: JsonView,
    stripe_account: Option<Seq<char>>,
    idempotency_key: Option<Seq<char>>,
) -> Result<ApiRequestView, McpErrorView> {
    if is_path(path) {
        Ok(request_for(secret_key, method, path, params, stripe_account, idempotency_key))
    } else {
        Err(McpErrorView::InvalidParams(BAD_PATH@))
    }
}

/// The server: it turns the arguments of a tool into the request to send.
pub struct StripeServer {
    secret_key: String,
}

impl StripeServer {
    /// The secret key that authorizes every request.
    pub closed spec fn key(self) -> Seq<char> {
        self.secret_key@
    }

    /// A server that uses the given secret key.
    pub fn new(secret_key: String) -> (server: StripeServer)
        ensures
            server.key() == secret_key@,
    {
        StripeServer { secret_key }
    }

    /// Plans a call to any endpoint. Every tool comes down to this.
    pub fn call(
        &self,
        method: HttpMethod,
        path: String,
        params: Json,
        stripe_account: Option<String>,
        idempotency_key: Option<String>,
    ) -> (plan: Result<ApiRequest, McpError>)
        ensures
            plan_view(plan) == call_plan(
                self.key(),
                method,
                path@,
                params@,
                stripe_account.deep_view(),
                idempotency_key.deep_view(),
            ),
    {
        proof {
            reveal_strlit("/");
            if "/"@.is_prefix_of(path@) {
                assert(path@[0] == "/"@[0]);
            } else if is_path(path@) {
                assert("/"@ =~= path@.subrange(0, 1));
            }
        }
        if !has_prefix(path.as_str(), "/") {
            return Err(McpError::InvalidParams(BAD_PATH.to_string()));
        }
        let mut url = STRIPE_API_BASE.to_string();
        url.append(path.as_str());
        let mut pairs: Vec<(String, String)> = Vec::new();
        flatten_params("", &params, &mut pairs);
        proof {
            reveal_strlit("");
            assert(""@ =~= Seq::<char>::empty());
            assert(pairs_view(pairs@) =~= flatten(Seq::empty(), params@));
        }
        let payload = match method {
            HttpMethod::Get => Payload::Query(pairs),
            HttpMethod::Post => Payload::Form(pairs),
            HttpMethod::Delete => {
                if pairs.is_empty() {
                    Payload::Nothing
                } else {
                    Payload::Query(pairs)
                }
            },
        };
        let mut headers: Vec<(String, String)> = Vec::new();
        if let Some(account) = &stripe_account {
            headers.push((ACCOUNT_HEADER.to_string(), account.clone()));
        }
        if let Some(key) = &idempotency_key {
            headers.push((IDEMPOTENCY_HEADER.to_string(), key.clone()));
        }
        proof {
            assert(pairs_view(headers@) =~= optional_header(ACCOUNT_HEADER@, stripe_account.deep_view())
                + optional_header(IDEMPOTENCY_HEADER@, idempotency_key.deep_view()));
        }
        Ok(ApiRequest { method, url, payload, bearer: self.secret_key.clone(), headers })
    }
}

} // verus!
