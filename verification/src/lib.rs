//! A serializer that turns an in-memory value into literal Rust source text.
//!
//! The engine receives push-style data-model events for one value (begin a
//! named aggregate, emit a primitive, end a sequence, ...) and appends the
//! corresponding construction expression to an internal buffer. String-keyed
//! maps are accumulated and emitted as one static perfect-hash-backed
//! literal; a name-mapping table redirects type, variant and field names on
//! the way out. The finished text is meant to be spliced into a source file
//! and compiled, so the value becomes a static literal.

pub mod error;
pub mod maps;
pub mod names;
pub mod ser;
pub mod text;

pub use error::UnevalError;
pub use names::NameMap;
pub use ser::{FloatWidth, IntWidth, Uneval};
