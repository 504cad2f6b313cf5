//! The error taxonomy of the library.

use vstd::prelude::*;

verus! {

/// Why an archive could not be read.
///
/// `Io` stands for a failed or truncated read of the underlying bytes (with
/// the cause rendered as text), `InvalidArchive` for a structural violation
/// of the ZIP format, `UnsupportedArchive` for a well-formed feature this
/// library does not handle, `InvalidPassword` for a rejected password, and
/// `FileNotFound` for a missed lookup by name or index.
#[derive(Debug)]
pub enum ZipError {
    Io(String),
    InvalidArchive(&'static str),
    UnsupportedArchive(&'static str),
    InvalidPassword,
    FileNotFound,
}

/// The reason used when an encrypted entry is opened without a password.
pub const PASSWORD_REQUIRED: &'static str = "Password required to decrypt file";

impl ZipError {
    /// A short label naming the error variant.
    pub fn kind_name(&self) -> (r: &'static str)
        ensures
            r@ == match self {
                ZipError::Io(_) => "io error"@,
                ZipError::InvalidArchive(_) => "invalid Zip archive"@,
                ZipError::UnsupportedArchive(_) => "unsupported Zip archive"@,
                ZipError::InvalidPassword => "invalid password for file in archive"@,
                ZipError::FileNotFound => "specified file not found in archive"@,
            },
    {
        match self {
            ZipError::Io(_) => "io error",
            ZipError::InvalidArchive(_) => "invalid Zip archive",
            ZipError::UnsupportedArchive(_) => "unsupported Zip archive",
            ZipError::InvalidPassword => "invalid password for file in archive",
            ZipError::FileNotFound => "specified file not found in archive",
        }
    }
}

/// The usual result type of the library.
pub type ZipResult<T> = Result<T, ZipError>;

/// Shorthand for an `UnsupportedArchive` error, as a `Result`.
pub fn unsupported_zip_error<T>(detail: &'static str) -> (r: ZipResult<T>)
    ensures
        r matches Err(e) && e matches ZipError::UnsupportedArchive(d) && d@ == detail@,
{
    Err(ZipError::UnsupportedArchive(detail))
}

} // verus!
