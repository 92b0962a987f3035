use vstd::prelude::*;

verus! {

/// The failures of the mailbox protocol.
#[derive(Clone, Copy, Debug, PartialEq, Eq, Structural)]
pub enum IpcError {
    /// A malformed name, path or argument.
    InvalidInput,
    /// No current entry to complete, or a missing source file.
    NotFound,
    /// An entry is larger than its kind allows.
    ResourceExceeded,
    /// The final name of a message already exists.
    Conflict,
    /// Any other failure of the filesystem or the environment.
    IoFailure,
    /// A payload that must be text is not valid UTF-8.
    EncodingFailure,
}

/// How a filesystem operation performed by the caller failed.
#[derive(Clone, Copy, Debug, PartialEq, Eq, Structural)]
pub enum IoFailure {
    /// The object operated on does not exist.
    NotFound,
    /// The name to be created exists already.
    AlreadyExists,
    /// Any other failure.
    Other,
}

pub open spec fn error_of_failure(f: IoFailure) -> IpcError {
    match f {
        IoFailure::NotFound => IpcError::NotFound,
        IoFailure::AlreadyExists => IpcError::Conflict,
        IoFailure::Other => IpcError::IoFailure,
    }
}

/// Maps a failed filesystem operation to the protocol's error.
pub fn from_failure(f: IoFailure) -> (r: IpcError)
    ensures
        r == error_of_failure(f),
{
    match f {
        IoFailure::NotFound => IpcError::NotFound,
        IoFailure::AlreadyExists => IpcError::Conflict,
        IoFailure::Other => IpcError::IoFailure,
    }
}

} // verus!
