//! Errors of the synchronization cycle.

use vstd::prelude::*;

verus! {

/// Why the key fetch for one identity failed. Any such failure aborts the
/// whole cycle and leaves the destination file untouched.
#[derive(Clone, Copy, PartialEq, Eq, Structural, Debug)]
pub enum FetchError {
    /// The network request could not be completed.
    Request,
    /// The response carried a non-success status code.
    Status(u16),
    /// The response body could not be decoded as text.
    Decode,
}

} // verus!
