//! The structured errors a conversion can end in. All of them are
//! terminal: the engines never retry or recover.

use vstd::prelude::*;
use crate::value::ValueKind;

verus! {

/// Why a deserialization failed. Unknown input fields are never an error;
/// everything here names a violation of the declared field contract, a
/// value of the wrong shape, or a rejection by the caller's own functions.
#[derive(Debug, PartialEq, Eq)]
pub enum Error {
    /// A declared field's value did not have the declared kind.
    Mistyped { field: String, expected: ValueKind, found: ValueKind },
    /// A declared field never appeared in the input. Carries the first
    /// such field in declaration order.
    MissingField(String),
    /// A declared field appeared twice, both times under this name.
    DuplicateField(String),
    /// The assembly function produced no value.
    Assembly,
    /// The validator rejected the assembled value, for this reason.
    Validation(String),
}

/// Model of an `Error`.
pub enum ErrorV {
    Mistyped { field: Seq<char>, expected: ValueKind, found: ValueKind },
    MissingField(Seq<char>),
    DuplicateField(Seq<char>),
    Assembly,
    Validation(Seq<char>),
}

impl Error {
    /// Model of this error.
    pub open spec fn dv(self) -> ErrorV {
        match self {
            Error::Mistyped { field, expected, found } => ErrorV::Mistyped {
                field: field@,
                expected,
                found,
            },
            Error::MissingField(name) => ErrorV::MissingField(name@),
            Error::DuplicateField(name) => ErrorV::DuplicateField(name@),
            Error::Assembly => ErrorV::Assembly,
            Error::Validation(reason) => ErrorV::Validation(reason@),
        }
    }
}

} // verus!
