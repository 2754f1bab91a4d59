pub mod config;
pub mod error;
pub mod secrets_json;
pub mod crypto;
pub mod protocol;
