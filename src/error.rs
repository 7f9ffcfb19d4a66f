//! Why a request fails.

use vstd::prelude::*;

verus! {

/// The failures of one request. Each is answered with a not-found response;
/// none is fatal to the server.
#[derive(Debug, PartialEq, Eq)]
pub enum ServeError {
    /// The path tries to leave the image root.
    InvalidPath,
    /// The image root itself cannot be resolved.
    InvalidRoot,
    /// The requested original, at this path, does not exist as a file.
    NotFound(String),
    /// The requested original, at this path, could not be read.
    ReadFailed(String),
    /// The codec rejected the original; the text says why.
    DecodeFailed(String),
    /// The codec could not encode the result; the text says why.
    EncodeFailed(String),
    /// The requested size needs a pixel buffer larger than memory can address.
    TooLarge,
}

/// How `Debug` writes a string: in double quotes, with quotes, backslashes
/// and control characters escaped.
pub uninterp spec fn debug_text(s: Seq<char>) -> Seq<char>;

/// Relies on `<str as Debug>::fmt`, which quotes and escapes the text.
#[verifier::external_body]
fn quoted(s: &str) -> (r: String)
    ensures
        r@ == debug_text(s@),
{
    format!("{:?}", s)
}

impl ServeError {
    /// The text of a not-found response for this failure.
    pub fn message(&self) -> (r: String)
        ensures
            r@ == match self {
                ServeError::InvalidPath => "Invalid path"@,
                ServeError::InvalidRoot => "Invalid base directory"@,
                ServeError::NotFound(p) => "Image not found: "@ + debug_text(p@),
                ServeError::ReadFailed(p) => "Failed to read image: "@ + debug_text(p@),
                ServeError::DecodeFailed(m) => "Failed to load image: "@ + m@,
                ServeError::EncodeFailed(m) => "Failed to encode image: "@ + m@,
                ServeError::TooLarge => "Requested size is too large"@,
            },
    {
        match self {
            ServeError::InvalidPath => String::from_str("Invalid path"),
            ServeError::InvalidRoot => String::from_str("Invalid base directory"),
            ServeError::NotFound(p) => String::from_str("Image not found: ").concat(quoted(p.as_str()).as_str()),
            ServeError::ReadFailed(p) => String::from_str("Failed to read image: ").concat(quoted(p.as_str()).as_str()),
            ServeError::DecodeFailed(m) => String::from_str("Failed to load image: ").concat(m.as_str()),
            ServeError::EncodeFailed(m) => String::from_str("Failed to encode image: ").concat(m.as_str()),
            ServeError::TooLarge => String::from_str("Requested size is too large"),
        }
    }
}

} // verus!
