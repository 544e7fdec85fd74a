//! Analysis, interpretation of queries, and the record store.

pub mod nlp_parser;
pub mod storage;
pub mod analyzer;
