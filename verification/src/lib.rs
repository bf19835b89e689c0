pub mod client;
pub mod dto;
pub mod env;
pub mod error;
pub mod gateway_settings;
pub mod headers;
pub mod json;
pub mod proxies;
pub mod response_store;
pub mod routing;
pub mod server_config;
pub mod settings;
pub mod text;
pub mod urls;
