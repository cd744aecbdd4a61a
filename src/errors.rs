//! Errors of file access, package resolution and compiler set-up.

use vstd::prelude::*;

use crate::package::{PackageSpec, PackageVersion};

verus! {

/// Why a package could not be made available.
#[derive(Clone, Debug, PartialEq, Eq, Hash)]
pub enum PackageError {
    /// The package does not exist locally nor in the repository.
    NotFound(PackageSpec),
    /// The package exists, but not in the requested version.
    VersionNotFound(PackageSpec, PackageVersion),
    /// The repository could not be reached or answered with a failure.
    NetworkFailed(Option<String>),
    /// The downloaded archive could not be unpacked.
    MalformedArchive(Option<String>),
    /// Another failure.
    Other(Option<String>),
}

/// Why a file could not be read.
#[derive(Clone, Debug, PartialEq, Eq, Hash)]
pub enum FileError {
    /// The file at this path does not exist.
    NotFound(String),
    /// The file may not be read, or lies outside its root.
    AccessDenied,
    /// The path names a directory.
    IsDirectory,
    /// The file is not a source file.
    NotSource,
    /// The file is not valid UTF-8.
    InvalidUtf8,
    /// The package the file lives in could not be resolved.
    Package(PackageError),
    /// Another failure.
    Other(Option<String>),
}

/// What went wrong with an I/O call, as far as the library's decisions go.
#[derive(Clone, Debug, PartialEq, Eq, Hash)]
pub enum IoFailure {
    /// The path does not exist.
    NotFound,
    /// Any other failure, with its message.
    Other(String),
}

/// Errors of compiler set-up and of the font registry.
#[derive(Clone, Debug, PartialEq, Eq)]
pub enum WrapperError {
    /// The font registry could not initialise itself.
    UninitializedFontCache,
    /// A font face at this path could not be read.
    FontFaceLoadingError(String),
    /// A font file could not be loaded.
    FontLoadingError(String),
    /// The input at this path does not exist.
    InputNotFound(String),
    /// The input (first path) lies outside its root (second path).
    InputOutsideRoot(String, String),
    /// Another I/O failure, with its message.
    Io(String),
    /// An HTTP failure, with its message.
    Http(String),
    /// A file could not be read.
    File(FileError),
    /// A package could not be resolved.
    Package(PackageError),
    /// A filename or root holds the reserved in-memory marker.
    ForbiddenFilenamePathText,
}

/// Copies an optional message.
fn copy_message(m: &Option<String>) -> (r: Option<String>)
    ensures
        r == *m,
{
    match m {
        Some(s) => Some(s.clone()),
        None => None,
    }
}

impl PackageError {
    /// A copy equal to `self`.
    pub fn duplicate(&self) -> (r: Self)
        ensures
            r == *self,
    {
        match self {
            PackageError::NotFound(spec) => PackageError::NotFound(spec.duplicate()),
            PackageError::VersionNotFound(spec, v) => PackageError::VersionNotFound(
                spec.duplicate(),
                *v,
            ),
            PackageError::NetworkFailed(m) => PackageError::NetworkFailed(copy_message(m)),
            PackageError::MalformedArchive(m) => PackageError::MalformedArchive(copy_message(m)),
            PackageError::Other(m) => PackageError::Other(copy_message(m)),
        }
    }
}

impl FileError {
    /// A copy equal to `self`.
    pub fn duplicate(&self) -> (r: Self)
        ensures
            r == *self,
    {
        match self {
            FileError::NotFound(p) => FileError::NotFound(p.clone()),
            FileError::AccessDenied => FileError::AccessDenied,
            FileError::IsDirectory => FileError::IsDirectory,
            FileError::NotSource => FileError::NotSource,
            FileError::InvalidUtf8 => FileError::InvalidUtf8,
            FileError::Package(e) => FileError::Package(e.duplicate()),
            FileError::Other(m) => FileError::Other(copy_message(m)),
        }
    }
}

/// The error for a failed canonicalization of the input at `path`: a missing
/// path is reported as such, every other failure as an I/O error.
pub fn input_path_failure(path: String, failure: IoFailure) -> (r: WrapperError)
    ensures
        failure == IoFailure::NotFound ==> r == WrapperError::InputNotFound(path),
        forall|m: String| failure == IoFailure::Other(m) ==> r == WrapperError::Io(m),
{
    match failure {
        IoFailure::NotFound => WrapperError::InputNotFound(path),
        IoFailure::Other(m) => WrapperError::Io(m),
    }
}

impl From<FileError> for WrapperError {
    fn from(e: FileError) -> (r: WrapperError)
        ensures
            r == WrapperError::File(e),
    {
        WrapperError::File(e)
    }
}

impl vstd::std_specs::convert::FromSpecImpl<FileError> for WrapperError {
    open spec fn obeys_from_spec() -> bool {
        true
    }

    open spec fn from_spec(e: FileError) -> WrapperError {
        WrapperError::File(e)
    }
}

impl From<PackageError> for WrapperError {
    fn from(e: PackageError) -> (r: WrapperError)
        ensures
            r == WrapperError::Package(e),
    {
        WrapperError::Package(e)
    }
}

impl vstd::std_specs::convert::FromSpecImpl<PackageError> for WrapperError {
    open spec fn obeys_from_spec() -> bool {
        true
    }

    open spec fn from_spec(e: PackageError) -> WrapperError {
        WrapperError::Package(e)
    }
}

impl From<PackageError> for FileError {
    fn from(e: PackageError) -> (r: FileError)
        ensures
            r == FileError::Package(e),
    {
        FileError::Package(e)
    }
}

impl vstd::std_specs::convert::FromSpecImpl<PackageError> for FileError {
    open spec fn obeys_from_spec() -> bool {
        true
    }

    open spec fn from_spec(e: PackageError) -> FileError {
        FileError::Package(e)
    }
}

} // verus!
