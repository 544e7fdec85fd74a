//! What each request is answered with.

pub mod string_routes;
