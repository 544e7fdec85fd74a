//! Analysis, storage and querying of text strings.
//!
//! A string is analysed into a fixed set of derived properties, stored under
//! the digest of its content, and retrieved either through structured field
//! filters or through a free-text phrase that is read as the same filters.

pub mod config;
pub mod models;
pub mod routes;
pub mod services;
pub mod utils;
