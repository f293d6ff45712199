//! Typed query expressions for a document store: comparison and logical
//! operators over typed operands, and their translation into BSON documents.

pub use bson;
pub use serde;

pub mod generator;
pub mod operand;
pub mod query;
pub mod query_type;
pub mod value;
