//! Error taxonomy for the code-generating serializer.

use vstd::prelude::*;

verus! {

/// The single closed error type of the library.
///
/// Each variant carries a human-readable message. `Io`, `Utf8` and `Inner`
/// describe failures of the thin output drivers that sit outside the engine;
/// `Json` describes a failure while building the static map literal;
/// `Custom` covers every value shape the data model can report but the
/// emitter has no rule for (for example a map whose keys are not strings),
/// as well as the data model's own generic failure escape hatch.
#[derive(Debug)]
pub enum UnevalError {
    Io(String),
    Utf8(String),
    Inner(String),
    Json(String),
    Custom(String),
}

impl UnevalError {
    /// The generic escape hatch: wrap an arbitrary message.
    pub fn custom(msg: String) -> (r: Self)
        ensures
            r == UnevalError::Custom(msg),
    {
        UnevalError::Custom(msg)
    }
}

} // verus!
