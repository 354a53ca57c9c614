//! Errors that drivers report.

use vstd::prelude::*;

verus! {

/// Why a request was turned down.
#[derive(Debug, Clone, Copy, PartialEq, Eq, Structural)]
pub enum ErrorCode {
    /// The device is still busy with an earlier request.
    BUSY,
    /// There is not enough space left to take the request.
    NOMEM,
}

} // verus!
