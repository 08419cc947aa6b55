//! The closed error classification of the library: declaration-shape errors
//! anchored to a source span, protocol and payload errors carried as text,
//! and free-form failures.

use vstd::prelude::*;

verus! {

/// A character span inside a source file: offset of the first character of
/// the offending node and its length.
#[derive(Clone, Copy, Debug, PartialEq, Eq, Structural)]
pub struct Span {
    pub start: usize,
    pub len: usize,
}

/// The source file a declaration-shape error points into: its name and its
/// full text, kept so a caller can render the offending span.
#[derive(Clone, Debug, PartialEq)]
pub struct SourceInfo {
    pub name: String,
    pub text: String,
}

/// Mathematical image of a `SourceInfo`.
pub struct SourceInfoV {
    pub name: Seq<char>,
    pub text: Seq<char>,
}

impl View for SourceInfo {
    type V = SourceInfoV;

    open spec fn view(&self) -> SourceInfoV {
        SourceInfoV { name: self.name@, text: self.text@ }
    }
}

/// All failures the library reports, as one closed classification so call
/// sites can branch on kind without parsing message text.
#[derive(Clone, Debug, PartialEq)]
pub enum Error {
    /// A container-registry protocol failure, with the underlying cause.
    RegistryError(String),
    /// An HTTP request failure, with the underlying cause.
    RequestError(String),
    /// A URL could not be constructed from its parts.
    URLConstructionError(String),
    /// A payload from an external API or tool was not the expected JSON.
    JSONParsingError(String),
    /// A file could not be read or written.
    IOError(String),
    /// A source file's syntax tree had an unusable shape.
    NixParsingError(String),
    /// A recognized declaration function was given an argument of the wrong
    /// node kind; carries everything needed for a source-anchored diagnostic.
    UnexpectedArgument {
        function: String,
        src: SourceInfo,
        argument_pos: Span,
        expected_type: String,
        help: String,
    },
    /// Any other failure, described in text.
    StringError(String),
}

/// Mathematical image of an `Error`.
pub enum ErrorV {
    RegistryError(Seq<char>),
    RequestError(Seq<char>),
    URLConstructionError(Seq<char>),
    JSONParsingError(Seq<char>),
    IOError(Seq<char>),
    NixParsingError(Seq<char>),
    UnexpectedArgument {
        function: Seq<char>,
        src: SourceInfoV,
        argument_pos: Span,
        expected_type: Seq<char>,
        help: Seq<char>,
    },
    StringError(Seq<char>),
}

impl View for Error {
    type V = ErrorV;

    open spec fn view(&self) -> ErrorV {
        match self {
            Error::RegistryError(s) => ErrorV::RegistryError(s@),
            Error::RequestError(s) => ErrorV::RequestError(s@),
            Error::URLConstructionError(s) => ErrorV::URLConstructionError(s@),
            Error::JSONParsingError(s) => ErrorV::JSONParsingError(s@),
            Error::IOError(s) => ErrorV::IOError(s@),
            Error::NixParsingError(s) => ErrorV::NixParsingError(s@),
            Error::UnexpectedArgument { function, src, argument_pos, expected_type, help } =>
                ErrorV::UnexpectedArgument {
                    function: function@,
                    src: src@,
                    argument_pos: *argument_pos,
                    expected_type: expected_type@,
                    help: help@,
                },
            Error::StringError(s) => ErrorV::StringError(s@),
        }
    }
}

} // verus!
