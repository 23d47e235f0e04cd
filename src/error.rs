use vstd::prelude::*;

verus! {

/// Status codes reported by the fallible parcel operations.
#[allow(non_camel_case_types)]
#[derive(Clone, Copy, Debug, PartialEq, Eq, Structural)]
pub enum StatusCode {
    /// A read would run past the end of the parcel data.
    NOT_ENOUGH_DATA,
    /// A malformed length, offset or range, or a size that overflows.
    BAD_VALUE,
    /// A required value was encoded as absent.
    UNEXPECTED_NULL,
    /// The data at the cursor is not of the requested kind.
    BAD_TYPE,
}

/// Result of a parcel operation.
pub type Result<T> = core::result::Result<T, StatusCode>;

} // verus!
