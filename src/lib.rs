pub mod access_token;
pub mod api;
pub mod coin;
pub mod failed_auth;
pub mod internal;
pub mod mfa;
pub mod models;
pub mod paypal;
pub mod session_feature;
pub mod session_store;
pub mod text;
