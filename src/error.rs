//! The error taxonomy of the engine.

use vstd::prelude::*;

verus! {

/// What kind of failure an I/O operation reported, as far as the rules here
/// tell failures apart.
#[derive(Debug, Clone, Copy, PartialEq, Eq, Structural)]
pub enum IoErrorKind {
    NotFound,
    PermissionDenied,
    Other,
}

/// Every failure the engine reports. Text payloads name the path or the
/// operation concerned.
#[derive(Debug, Clone, PartialEq, Eq)]
pub enum ManagerError {
    GameNotFound,
    GameRunning,
    ProcessListError(String),
    PermissionDenied(String),
    FileInUse(String),
    NetworkError(String),
    RateLimited(String),
    DownloadFailed(String),
    ExtractFailed(String),
    InvalidVersionInfo,
    Io { kind: IoErrorKind, message: String },
    Dialog(String),
    Other(String),
    UserCancelled,
}

/// The platform code for "the file is being used by another process".
pub const ERROR_SHARING_VIOLATION: i32 = 32;

/// Classifies a failed file operation on `path`: a sharing violation on
/// Windows means the file is in use; anything else stays an I/O error with
/// its kind and message.
pub fn map_io_error_to_uninstall_error(
    os_code: Option<i32>,
    kind: IoErrorKind,
    message: String,
    path: &str,
    on_windows: bool,
) -> (r: ManagerError)
    ensures
        on_windows && os_code == Some(ERROR_SHARING_VIOLATION) ==> r is FileInUse
            && r->FileInUse_0@ == path@,
        !(on_windows && os_code == Some(ERROR_SHARING_VIOLATION)) ==> r is Io && r->Io_kind
            == kind && r->Io_message@ == message@,
{
    if on_windows && os_code == Some(ERROR_SHARING_VIOLATION) {
        ManagerError::FileInUse(String::from_str(path))
    } else {
        ManagerError::Io { kind, message }
    }
}

} // verus!
