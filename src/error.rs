use vstd::prelude::*;

verus! {

/// Failures surfaced by the adapter.
#[derive(Clone, Debug, PartialEq, Eq)]
pub enum Error {
    /// A host call failed; the text carries the host's own description.
    Io(String),
    /// The requested flag combination has no host equivalent.
    NotSupported,
    /// A count reported by the host does not fit the 64-bit result.
    Overflow,
    /// The descriptor table has no free descriptor number left.
    TableFull,
}

} // verus!
