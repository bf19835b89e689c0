//! The messages that the API, the reverse proxy and the command line client
//! exchange.
pub mod auth;
pub mod proxy;
pub mod tunnel;
