//! The request logic of a Stripe MCP server.
//!
//! A tool call runs in three steps. A tool of `StripeServer` turns its arguments into an
//! `ApiRequest`, or into the error to answer with. The caller sends the request, and asks
//! `response::after_send` how to go on. Once the body of the reply has been read, or could
//! not be, `response::after_body` gives the text for the client.
//!
//! The modules `leaves` and `laws` state what holds across these functions.

pub mod encode;
pub mod json;
pub mod laws;
pub mod leaves;
pub mod params;
pub mod request;
pub mod response;
pub mod startup;
pub mod text;
pub mod tools;
