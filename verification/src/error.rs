use vstd::prelude::*;

verus! {

/// Why an input could not even be checked.
///
/// Structural failures are reported through this type before any expensive
/// algebra runs. A well-formed but false proof is not an error: it yields
/// the boolean result `false` instead.
#[derive(Clone, Copy, Debug, PartialEq, Eq, Structural)]
pub enum VerifyError {
    /// The text is not a canonical base-10 non-negative integer.
    ParseError,
    /// The value is out of range for the field: non-canonical encodings are
    /// rejected, never silently reduced.
    RangeError,
    /// Unknown protocol or curve tag, or a wrong count or shape of
    /// commitments.
    SchemaError,
    /// A point fails the curve equation or the subgroup check, or a point
    /// slot in a byte encoding does not decode to a valid point.
    InvalidPoint,
    /// The number of public inputs does not match the key's arity.
    InputLengthError,
}

impl VerifyError {
    /// A short human-readable description of the error.
    pub fn describe(&self) -> (r: &'static str)
        ensures
            r@.len() > 0,
    {
        let s = match self {
            VerifyError::ParseError => "malformed decimal integer",
            VerifyError::RangeError => "field value out of range",
            VerifyError::SchemaError => "unrecognized tag or wrong commitment shape",
            VerifyError::InvalidPoint => "invalid curve point",
            VerifyError::InputLengthError => "public input arity mismatch",
        };
        proof {
            reveal_strlit("malformed decimal integer");
            reveal_strlit("field value out of range");
            reveal_strlit("unrecognized tag or wrong commitment shape");
            reveal_strlit("invalid curve point");
            reveal_strlit("public input arity mismatch");
        }
        s
    }
}

} // verus!
