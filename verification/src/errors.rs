use vstd::prelude::*;

verus! {

/// The category of an underlying I/O failure, abstracted from the
/// platform-specific error detail: just enough to distinguish the
/// retryable and user-visible cases.
#[derive(Clone, Copy, Debug, PartialEq, Eq, Structural)]
pub enum IoErrorKind {
    NotFound,
    PermissionDenied,
    Other,
}

/// The single error taxonomy of the library: a classified I/O failure
/// from a persistence operation, a directory-enumeration failure, or
/// the absence of an adjacent file during navigation.
#[derive(Clone, Copy, Debug, PartialEq, Eq, Structural)]
pub enum Error {
    IoError(IoErrorKind),
    ScanError,
    NotFound,
}

} // verus!
