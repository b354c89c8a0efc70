//! A bounded decision cache for an authorization gateway, with the request
//! pipeline that consults it.
//!
//! Entries are evicted least-recently-used first when the store is full, and
//! each entry expires at an absolute time fixed when it is written.
//!
//! - `lru_ttl` holds the store, `entry` its records, `policy` the expiry and
//!   eviction decisions, and `error` the ways in which it fails.
//! - `model` says what each operation does to the store, taken as a sequence
//!   of records in recency order; `laws` and `history` prove what follows.
//! - `gateway` is the decision pipeline, `json` what it reads of a policy
//!   engine's document.
//! - `binding` offers the store in the convention of a foreign-language
//!   binding, with `text` for what it prints.
//!
//! The store is owned by one caller at a time: its operations take
//! `&mut self`, and sharing it between tasks is left to a lock around it.

pub mod binding;
pub mod clock;
pub mod entry;
pub mod error;
pub mod gateway;
pub mod history;
pub mod json;
pub mod laws;
pub mod lru_ttl;
pub mod model;
pub mod policy;
pub mod text;
