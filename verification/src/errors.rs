//! The closed failure enumeration of the extraction layer.
//!
//! Every variant signals that the upstream markup no longer matches the
//! expected shape for a required field; none of them is silently defaulted.

use vstd::prelude::*;

verus! {

/// A typed extraction failure.
#[derive(Debug)]
pub enum ExtractError {
    /// The selector string itself is malformed: a programming error, never a
    /// data error.
    BadSelector(String),
    /// No node matched the named required selector.
    NotFound(String),
    /// A matched node carried no text.
    NoText,
    /// A matched node lacked the named attribute.
    AttributeMissing(String),
    /// A numeric field did not parse as an integer.
    NotNumeric,
}

} // verus!
