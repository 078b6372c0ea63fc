//! Pagination and row-normalization core of a paginated product catalog.
//!
//! The library computes a valid, bounded page/limit pair from untrusted
//! query parameters, derives the row window that a store fetch must cover,
//! and maps loosely typed column/value pairs into strongly typed product
//! records. Everything here is pure; the surrounding HTTP server and the
//! store live outside the library and exchange plain values with it.

pub mod catalog;
pub mod models;
pub mod numbers;
pub mod pagination;
pub mod values;
