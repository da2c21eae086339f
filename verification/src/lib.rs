//! A model of AWS IAM policy documents: strongly typed policy values, a
//! shape-preserving JSON parser and serializer, and builders for
//! programmatic construction.

pub mod json;
pub mod model;
pub mod strings;
pub mod codec;
pub mod laws;
pub mod text;
