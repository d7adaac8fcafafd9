//! Client-side core of a cryptocurrency exchange binding: signed-request
//! construction and strict decoding of the exchange's loosely-typed,
//! positionally-encoded JSON payloads into validated domain values.

pub mod base;
pub mod coin;
pub mod context;
pub mod decimal;
pub mod json;
pub mod models;
pub mod order;
pub mod text;
