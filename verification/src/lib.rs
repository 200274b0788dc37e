//! A line-oriented corpus cleanser: normalizes raw text lines, drops short
//! lines, filters lines containing disallowed keywords, and removes
//! duplicates (after normalization) while preserving first-seen order.
//!
//! The stateful entry point is [`cleanser::DataCleanser`]; the normalization
//! rules live in [`text`], the dedup hash in [`hashing`], the multi-pattern
//! keyword matcher in [`matcher`], and the mathematical model of a cleansing
//! session, with the laws proved of it, in [`model`].

pub mod cleanser;
pub mod hashing;
pub mod matcher;
pub mod model;
pub mod text;

pub use cleanser::ConfigurationError;
pub use cleanser::DataCleanser;
pub use cleanser::DEFAULT_MIN_LENGTH;
pub use text::normalize_line;
