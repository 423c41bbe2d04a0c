use stripe_mcp_server::request::StripeServer;
use stripe_mcp_server::startup::{startup, Startup, REQUEST_TIMEOUT_SECS};

fn settled(secret_key: &str, bind_address: Option<&str>) -> Startup {
    match startup(Some(secret_key.to_string()), bind_address.map(|s| s.to_string())) {
        Ok(config) => config,
        Err(message) => panic!("{}", message),
    }
}

#[test]
fn the_secret_key_must_be_set() {
    match startup(None, Some("0.0.0.0:1".to_string())) {
        Ok(_) => panic!("no error"),
        Err(message) => assert_eq!(message, "STRIPE_SECRET_KEY environment variable is not set"),
    }
}

#[test]
fn the_bind_address_has_a_default() {
    assert_eq!(settled("sk_x", None).bind_address, "127.0.0.1:8080");
    assert_eq!(settled("sk_x", Some("0.0.0.0:9000")).bind_address, "0.0.0.0:9000");
    assert_eq!(settled("sk_x", None).secret_key, "sk_x");
}

#[test]
fn odd_keys_are_noticed() {
    assert!(!settled("sk_test", None).odd_key);
    assert!(!settled("rk_test", None).odd_key);
    for key in ["", "sk", "pk_test", " sk_test", "SK_test"] {
        assert!(settled(key, None).odd_key);
    }
}

#[test]
fn requests_time_out() {
    assert_eq!(REQUEST_TIMEOUT_SECS, 30);
}

#[test]
fn the_server_introduces_itself() {
    let info = StripeServer::new("sk_x".to_string()).get_info();
    assert_eq!(info.name, "stripe-mcp-server");
    assert_eq!(info.version, "0.1.0");
    assert_eq!(info.protocol_version, "2024-11-05");
    assert!(info.tools);
    assert!(info.instructions.starts_with("This server exposes Stripe. Prefer the named tools (list_customers, create_customer, "));
    assert!(info.instructions.ends_with("which can call any Stripe REST endpoint."));
    assert!(!info.instructions.contains('\n'));
    assert!(!info.instructions.contains("  "));
}
