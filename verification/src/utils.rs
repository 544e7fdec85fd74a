//! Building blocks shared by the services: text, numbers and digests.

pub mod text;
pub mod number;
pub mod digest;
pub mod filters;
pub mod response;
