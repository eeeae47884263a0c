//! What goes wrong: the failures of the XFS reader that the driver tells
//! apart, and the statuses it answers with.

use vstd::prelude::*;

verus! {

/// The answers a Windows caller gets when a request is refused.
#[derive(Debug, Clone, Copy, PartialEq, Eq, Structural)]
pub enum Status {
    BufferTooSmall,
    EndOfFile,
    InvalidDeviceRequest,
    MediaWriteProtected,
    NotADirectory,
    NotAReparsePoint,
    ObjectNameCollision,
    ObjectNameNotFound,
    ReparsePointNotResolved,
}

/// A failure of the XFS reader, as far as the driver tells failures apart.
#[derive(Debug, Clone, Copy, PartialEq, Eq, Structural)]
pub enum FsError {
    NotFound,
    NotADirectory,
    NotAFile,
    /// Disk I/O and format errors.
    Other,
}

/// The status for a reader's failure: a path that is not what was asked
/// for is a name not found, anything else a failed device request.
pub open spec fn status_of(err: FsError) -> Status {
    match err {
        FsError::Other => Status::InvalidDeviceRequest,
        _ => Status::ObjectNameNotFound,
    }
}

/// Maps a reader's failure to the status a callback returns.
pub fn err_to_status(err: FsError) -> (s: Status)
    ensures
        s == status_of(err),
{
    match err {
        FsError::NotFound | FsError::NotADirectory | FsError::NotAFile => {
            Status::ObjectNameNotFound
        },
        FsError::Other => Status::InvalidDeviceRequest,
    }
}

} // verus!
