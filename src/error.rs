use vstd::prelude::*;

verus! {

/// The one error domain of the library.
#[derive(Clone, Copy, Debug, PartialEq, Eq, Structural)]
pub enum Error {
    /// The underlying source failed; the value is the operating system's error code, if any.
    Io(i32),
    /// Seek arithmetic left the range of byte offsets.
    InvalidInput,
    /// An on-disk structure is malformed or does not fit where it was read.
    InvalidData,
    /// The volume holds no filesystem that this library decodes.
    NotFound,
    /// The source ended before a structure could be read whole.
    UnexpectedEof,
}

/// The short description of each error.
pub open spec fn description(e: Error) -> Seq<char> {
    match e {
        Error::Io(_) => "input/output failure"@,
        Error::InvalidInput => "invalid input"@,
        Error::InvalidData => "invalid data"@,
        Error::NotFound => "unsupported filesystem"@,
        Error::UnexpectedEof => "unexpected end of source"@,
    }
}

impl Error {
    /// A short description of the error.
    pub fn describe(&self) -> (r: String)
        ensures
            r@ == description(*self),
    {
        match self {
            Error::Io(_) => "input/output failure".to_string(),
            Error::InvalidInput => "invalid input".to_string(),
            Error::InvalidData => "invalid data".to_string(),
            Error::NotFound => "unsupported filesystem".to_string(),
            Error::UnexpectedEof => "unexpected end of source".to_string(),
        }
    }
}

} // verus!
