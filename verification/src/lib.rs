//! Core of a small message board: a store of users and messages with
//! monotonically assigned ids, identity resolution from a cookie name,
//! field validation, pagination, and bulk deletion.

pub mod json;
pub mod laws;
pub mod service;
pub mod store;
pub mod text;
pub mod time;
pub mod wire;
