//! The failures the builder and the parser report. Every fallible
//! operation returns one of these; nothing panics on bad input.

use vstd::prelude::*;

verus! {

/// An error from building or parsing an identifier.
#[derive(Debug, Clone, PartialEq, Eq)]
pub enum ArnError {
    /// A mandatory component was never supplied, or a mandatory
    /// colon-segment was absent; carries the component name.
    MissingPart(String),
    /// A builder call used a component kind whose prefix token the
    /// assembly logic does not recognize; carries the token.
    InvalidPrefix(String),
    /// The raw string does not match the `arn:...` scheme or has the
    /// wrong segment count.
    InvalidFormat,
    /// A component value failed validation (empty, or holding a
    /// delimiter); carries the name of the component that failed.
    InvalidPart(String),
}

} // verus!
