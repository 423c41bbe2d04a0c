//! How the server starts: its configuration, and what it says of itself.
use crate::request::StripeServer;
use crate::text::has_prefix;
use vstd::prelude::*;

verus! {

/// The environment variable that holds the secret key.
pub const SECRET_KEY_ENV: &'static str = "STRIPE_SECRET_KEY";

/// The environment variable that holds the address to listen on.
pub const BIND_ADDRESS_ENV: &'static str = "BIND_ADDRESS";

/// The address to listen on when none is given.
pub const DEFAULT_BIND_ADDRESS: &'static str = "127.0.0.1:8080";

/// The message for a missing secret key.
pub const NO_SECRET_KEY: &'static str = "STRIPE_SECRET_KEY environment variable is not set";

/// How long a request to Stripe may take.
pub const REQUEST_TIMEOUT_SECS: u64 = 30;

/// The name that the server gives itself.
pub const SERVER_NAME: &'static str = "stripe-mcp-server";

/// The version of the server.
pub const SERVER_VERSION: &'static str = "0.1.0";

/// The version of the protocol that the server speaks.
pub const PROTOCOL_VERSION: &'static str = "2024-11-05";

/// What the server tells its clients about its tools.
pub const INSTRUCTIONS: &'static str =
    "This server exposes Stripe. Prefer the named tools (list_customers, \
    create_customer, list_charges, get_charge, list_payment_intents, \
    create_payment_intent, get_payment_intent, list_subscriptions, \
    create_subscription, cancel_subscription, list_invoices, get_invoice, \
    create_refund, get_balance) for common operations. For anything else, \
    use the generic `stripe_api` tool, which can call any Stripe REST \
    endpoint.";

/// The configuration of a server.
pub struct Startup {
    pub secret_key: String,
    pub bind_address: String,
    /// Whether to warn that the secret key does not look like one.
    pub odd_key: bool,
}

/// Whether a key looks like a Stripe secret key or restricted key.
pub open spec fn is_stripe_key(key: Seq<char>) -> bool {
    "sk_"@.is_prefix_of(key) || "rk_"@.is_prefix_of(key)
}

/// A key looks like one of Stripe's exactly if it starts with an s or an r and goes on with
/// a k and an underscore.
pub proof fn law_stripe_keys(key: Seq<char>)
    ensures
        is_stripe_key(key) <==> key.len() >= 3 && (key[0] == 's' || key[0] == 'r') && key[1] == 'k' && key[2] == '_',
{
    reveal_strlit("sk_");
    reveal_strlit("rk_");
    if key.len() >= 3 {
        let start = key.subrange(0, 3);
        if key[0] == 's' && key[1] == 'k' && key[2] == '_' {
            assert("sk_"@ =~= start);
        }
        if key[0] == 'r' && key[1] == 'k' && key[2] == '_' {
            assert("rk_"@ =~= start);
        }
        assert("sk_"@ == start ==> start[0] == 's' && start[1] == 'k' && start[2] == '_');
        assert("rk_"@ == start ==> start[0] == 'r' && start[1] == 'k' && start[2] == '_');
    }
}

/// Settles the configuration from the values of the two environment variables, as far as
/// they are set.
pub fn startup(secret_key: Option<String>, bind_address: Option<String>) -> (config: Result<Startup, String>)
    ensures
        match secret_key {
            Some(key) => config matches Ok(settled) && settled.secret_key@ == key@ && settled.bind_address@ == (
            match bind_address {
                Some(address) => address@,
                None => DEFAULT_BIND_ADDRESS@,
            }) && settled.odd_key == !is_stripe_key(key@),
            None => config matches Err(message) && message@ == NO_SECRET_KEY@,
        },
        config matches Err(message) ==> message@ == "STRIPE_SECRET_KEY environment variable is not set"@,
        config matches Ok(settled) ==> bind_address is None ==> settled.bind_address@ == "127.0.0.1:8080"@,
        config matches Ok(settled) ==> (settled.odd_key <==> !(secret_key->0@.len() >= 3 && (secret_key->0@[0] == 's'
            || secret_key->0@[0] == 'r') && secret_key->0@[1] == 'k' && secret_key->0@[2] == '_')),
{
    match secret_key {
        Some(secret_key) => {
            proof {
                law_stripe_keys(secret_key@);
            }
            let odd_key = !has_prefix(secret_key.as_str(), "sk_") && !has_prefix(secret_key.as_str(), "rk_");
            let bind_address = match bind_address {
                Some(address) => address,
                None => DEFAULT_BIND_ADDRESS.to_string(),
            };
            Ok(Startup { secret_key, bind_address, odd_key })
        },
        None => Err(NO_SECRET_KEY.to_string()),
    }
}

/// What the server says of itself.
#[derive(Debug, PartialEq, Eq)]
pub struct ServerInfo {
    pub name: String,
    pub version: String,
    pub protocol_version: String,
    /// Whether it offers tools.
    pub tools: bool,
    pub instructions: String,
}

impl StripeServer {
    /// What the server says of itself.
    pub fn get_info(&self) -> (info: ServerInfo)
        ensures
            info.name@ == SERVER_NAME@,
            info.version@ == SERVER_VERSION@,
            info.protocol_version@ == PROTOCOL_VERSION@,
            info.tools,
            info.instructions@ == INSTRUCTIONS@,
            info.name@ == "stripe-mcp-server"@,
            info.version@ == "0.1.0"@,
            info.protocol_version@ == "2024-11-05"@,
            info.instructions@ == "This server exposes Stripe. Prefer the named tools (list_customers, \
                create_customer, list_charges, get_charge, list_payment_intents, \
                create_payment_intent, get_payment_intent, list_subscriptions, \
                create_subscription, cancel_subscription, list_invoices, get_invoice, \
                create_refund, get_balance) for common operations. For anything else, \
                use the generic `stripe_api` tool, which can call any Stripe REST \
                endpoint."@,
    {
        ServerInfo {
            name: SERVER_NAME.to_string(),
            version: SERVER_VERSION.to_string(),
            protocol_version: PROTOCOL_VERSION.to_string(),
            tools: true,
            instructions: INSTRUCTIONS.to_string(),
        }
    }
}

} // verus!
