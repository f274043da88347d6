//! The bridge's error taxonomy.

use vstd::prelude::*;
use vstd::string::StringExecFns;
use crate::text::spec_dec_int;
use crate::text::spec_dec_nat;
use crate::text::i64_to_dec;
use crate::text::u64_to_dec;

verus! {

/// Mathematical view of a bridge error.
pub enum ErrV {
    /// The worker is gone; fatal to the current call only.
    ChannelClosed,
    /// The handle is unknown or already released.
    InvalidHandle(u64),
    /// The source text is malformed (an embedded null byte).
    InvalidInput,
    /// The engine reported an error value, or returned nothing; carries the
    /// extracted message.
    EvaluationError(Seq<char>),
    /// A row projection was requested for a tag that has none.
    UnsupportedType(i8),
    /// The result was discarded due to a prior cancel.
    Cancelled,
}

/// An error returned by a bridge operation.
#[derive(Debug, Clone, PartialEq, Eq)]
pub enum BridgeError {
    /// The worker is gone; fatal to the current call only.
    ChannelClosed,
    /// The handle is unknown or already released.
    InvalidHandle(u64),
    /// The source text is malformed (an embedded null byte).
    InvalidInput,
    /// The engine reported an error value, or returned nothing; carries the
    /// extracted message.
    EvaluationError(String),
    /// A row projection was requested for a tag that has none.
    UnsupportedType(i8),
    /// The result was discarded due to a prior cancel.
    Cancelled,
}

/// Mathematical view of a bridge error.
pub open spec fn err_view(e: BridgeError) -> ErrV {
    match e {
        BridgeError::ChannelClosed => ErrV::ChannelClosed,
        BridgeError::InvalidHandle(h) => ErrV::InvalidHandle(h),
        BridgeError::InvalidInput => ErrV::InvalidInput,
        BridgeError::EvaluationError(m) => ErrV::EvaluationError(m@),
        BridgeError::UnsupportedType(t) => ErrV::UnsupportedType(t),
        BridgeError::Cancelled => ErrV::Cancelled,
    }
}

/// The human-readable text of an error.
pub open spec fn spec_err_text(e: ErrV) -> Seq<char> {
    match e {
        ErrV::ChannelClosed => "Rayforce thread unavailable"@,
        ErrV::InvalidHandle(h) => "Invalid handle: "@ + spec_dec_nat(h as int),
        ErrV::InvalidInput => "Invalid query string"@,
        ErrV::EvaluationError(m) => m,
        ErrV::UnsupportedType(t) => "Unsupported type: "@ + spec_dec_int(t as int),
        ErrV::Cancelled => "Query cancelled"@,
    }
}

impl BridgeError {
    /// Renders the error as a human-readable message.
    pub fn message(&self) -> (r: String)
        ensures
            r@ == spec_err_text(err_view(*self)),
    {
        match self {
            BridgeError::ChannelClosed => String::from_str("Rayforce thread unavailable"),
            BridgeError::InvalidHandle(h) => {
                let mut s = String::from_str("Invalid handle: ");
                let digits = u64_to_dec(*h);
                s.append(digits.as_str());
                s
            },
            BridgeError::InvalidInput => String::from_str("Invalid query string"),
            BridgeError::EvaluationError(m) => m.clone(),
            BridgeError::UnsupportedType(t) => {
                let mut s = String::from_str("Unsupported type: ");
                let digits = i64_to_dec(*t as i64);
                s.append(digits.as_str());
                s
            },
            BridgeError::Cancelled => String::from_str("Query cancelled"),
        }
    }
}

} // verus!
