//! A record-and-replay cache for proxied HTTP GET calls.
//!
//! The crate holds the interaction store, the translation of proxy-style
//! requests into canonical requests, the retry policy and response
//! normalisation of the forwarding engine, the response encoder and the
//! lifecycle of the proxy server, each with a machine-checked contract.

pub mod cli;
pub mod edit;
pub mod error;
pub mod index;
pub mod model;
pub mod multimap;
pub mod pact_to_request;
pub mod pact_to_response;
pub mod pacts;
pub mod request_to_pact;
pub mod response_to_pact;
pub mod server;
pub mod target_url;
pub mod web;
