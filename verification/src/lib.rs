//! Provider detection, request and response conversion between model API
//! dialects, and usage accounting for the BistroCode desktop client.
pub mod text;
pub mod json;
pub mod cursor;
pub mod sse;
pub mod balance;
pub mod auth;
pub mod decimal;
pub mod usage;
pub mod account;
pub mod framing;
