//! The data that the services exchange.

pub mod frequency;
pub mod string;
