//! PII pattern matching and redaction.

pub mod category;
pub mod engine;
pub mod laws;
pub mod matcher;
pub mod model;

pub use category::{Category, CategorySet};
pub use matcher::{PiiPatternMatcher, Redaction, RedactionResult};
