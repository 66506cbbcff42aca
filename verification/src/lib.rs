//! OAuth token refresh for providers secured by expiring tokens.

pub mod config;
pub mod delay;
pub mod double;
pub mod env;
pub mod error;
pub mod http;
pub mod manager;
pub mod refresh;
pub mod text;
pub mod url;
