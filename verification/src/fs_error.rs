//! Errors of the mounted filesystem.

use vstd::prelude::*;

verus! {

/// The host I/O failures the mount logic tells apart.
#[derive(Clone, Copy, Debug, PartialEq, Eq, Structural)]
pub enum IoErrorKind {
    NotFound,
    PermissionDenied,
    AlreadyExists,
    IsADirectory,
    NotADirectory,
    DirectoryNotEmpty,
    InvalidFilename,
    Other,
}

/// A host I/O failure: its kind and the message shown to sandboxed code.
#[derive(Debug)]
pub struct IoError {
    pub kind: IoErrorKind,
    pub message: String,
}

/// Failure of a mount or of a filesystem call serviced by one.
#[derive(Debug)]
pub enum MountError {
    /// The mount configuration is unusable.
    InvalidMount(String),
    /// A host I/O failure, with the virtual path it is reported for.
    Io(IoError, String),
    /// The memory budget of a mount is exceeded; holds the configured limit.
    MemoryUsageLimitExceeded(u64),
    /// The write quota of a mount is exceeded; holds the configured limit.
    WriteLimitExceeded(u64),
    /// A rename whose two ends lie in different mounts.
    CrossMountRename { src: String, dst: String },
    /// No mount covers the path.
    NoMountPoint(String),
    /// The path leaves the mounted directory.
    PathEscape { virtual_path: String },
    /// A text read of bytes that are not UTF-8.
    InvalidUtf8 { start: usize, end: usize, first_byte: u8, error_len: Option<usize>, data: Vec<u8> },
}

/// What a mount error says, with texts as character sequences.
pub enum MountErrorView {
    InvalidMount(Seq<char>),
    Io(IoErrorKind, Seq<char>, Seq<char>),
    MemoryUsageLimitExceeded(u64),
    WriteLimitExceeded(u64),
    CrossMountRename { src: Seq<char>, dst: Seq<char> },
    NoMountPoint(Seq<char>),
    PathEscape { virtual_path: Seq<char> },
    InvalidUtf8 { start: usize, end: usize, first_byte: u8, error_len: Option<usize>, data: Seq<u8> },
}

impl View for MountError {
    type V = MountErrorView;

    open spec fn view(&self) -> MountErrorView {
        match *self {
            MountError::InvalidMount(m) => MountErrorView::InvalidMount(m@),
            MountError::Io(e, p) => MountErrorView::Io(e.kind, e.message@, p@),
            MountError::MemoryUsageLimitExceeded(n) => MountErrorView::MemoryUsageLimitExceeded(n),
            MountError::WriteLimitExceeded(n) => MountErrorView::WriteLimitExceeded(n),
            MountError::CrossMountRename { src, dst } => MountErrorView::CrossMountRename { src: src@, dst: dst@ },
            MountError::NoMountPoint(p) => MountErrorView::NoMountPoint(p@),
            MountError::PathEscape { virtual_path } => MountErrorView::PathEscape { virtual_path: virtual_path@ },
            MountError::InvalidUtf8 { start, end, first_byte, error_len, data } => MountErrorView::InvalidUtf8 {
                start,
                end,
                first_byte,
                error_len,
                data: data@,
            },
        }
    }
}

/// The error of an I/O failure of `kind` with `message`, reported for `vpath`.
pub fn io_err(kind: IoErrorKind, message: &str, vpath: &str) -> (e: MountError)
    ensures
        e@ == MountErrorView::Io(kind, message@, vpath@),
{
    MountError::Io(IoError { kind, message: message.to_owned() }, vpath.to_owned())
}

/// The error of a path that leaves its mount.
pub fn path_escape(vpath: &str) -> (e: MountError)
    ensures
        e@ == (MountErrorView::PathEscape { virtual_path: vpath@ }),
{
    MountError::PathEscape { virtual_path: vpath.to_owned() }
}

} // verus!
