//! The error type of the crate.

use vstd::prelude::*;

verus! {

/// What can go wrong while a feed is read.
///
/// Only a few of these ever reach a caller as `Err`; most are folded into
/// the `bozo` diagnostic of the feed that was salvaged.
#[derive(Debug, Clone)]
pub enum FeedError {
    /// The XML tokenizer met something it could not read.
    XmlError(String),
    /// Reading the input failed.
    IoError(String),
    /// The document is not a feed this crate can make sense of.
    InvalidFormat(String),
    /// The bytes are not text in the declared encoding.
    EncodingError(String),
    /// The JSON document is malformed.
    JsonError(String),
    /// Fetching the document failed.
    Http { message: String },
    /// Anything else.
    Unknown(String),
}

/// The mathematical value of a [`FeedError`].
pub enum FeedErrorView {
    XmlError(Seq<char>),
    IoError(Seq<char>),
    InvalidFormat(Seq<char>),
    EncodingError(Seq<char>),
    JsonError(Seq<char>),
    Http(Seq<char>),
    Unknown(Seq<char>),
}

impl FeedErrorView {
    /// The text a user is shown for this error.
    pub open spec fn message(self) -> Seq<char> {
        match self {
            FeedErrorView::XmlError(m) => "XML parsing error: "@ + m,
            FeedErrorView::IoError(m) => "IO error: "@ + m,
            FeedErrorView::InvalidFormat(m) => "Invalid feed format: "@ + m,
            FeedErrorView::EncodingError(m) => "Encoding error: "@ + m,
            FeedErrorView::JsonError(m) => "JSON parsing error: "@ + m,
            FeedErrorView::Http(m) => "HTTP error: "@ + m,
            FeedErrorView::Unknown(m) => "Unknown error: "@ + m,
        }
    }
}

impl DeepView for FeedError {
    type V = FeedErrorView;

    open spec fn deep_view(&self) -> FeedErrorView {
        match self {
            FeedError::XmlError(m) => FeedErrorView::XmlError(m@),
            FeedError::IoError(m) => FeedErrorView::IoError(m@),
            FeedError::InvalidFormat(m) => FeedErrorView::InvalidFormat(m@),
            FeedError::EncodingError(m) => FeedErrorView::EncodingError(m@),
            FeedError::JsonError(m) => FeedErrorView::JsonError(m@),
            FeedError::Http { message } => FeedErrorView::Http(message@),
            FeedError::Unknown(m) => FeedErrorView::Unknown(m@),
        }
    }
}

/// `prefix` followed by `detail`.
pub fn prefixed(prefix: &str, detail: &str) -> (s: String)
    ensures
        s@ == prefix@ + detail@,
{
    let mut s = String::from_str(prefix);
    s.append(detail);
    s
}

impl FeedError {
    /// The text a user is shown for this error.
    pub fn to_string(&self) -> (s: String)
        ensures
            s@ == self.deep_view().message(),
    {
        match self {
            FeedError::XmlError(m) => prefixed("XML parsing error: ", m.as_str()),
            FeedError::IoError(m) => prefixed("IO error: ", m.as_str()),
            FeedError::InvalidFormat(m) => prefixed("Invalid feed format: ", m.as_str()),
            FeedError::EncodingError(m) => prefixed("Encoding error: ", m.as_str()),
            FeedError::JsonError(m) => prefixed("JSON parsing error: ", m.as_str()),
            FeedError::Http { message } => prefixed("HTTP error: ", message.as_str()),
            FeedError::Unknown(m) => prefixed("Unknown error: ", m.as_str()),
        }
    }
}

/// The kinds of exception that an error is raised as in a host language.
#[derive(Debug, Clone, Copy, PartialEq, Eq, Structural)]
pub enum ExceptionKind {
    /// The input is at fault.
    ValueError,
    /// The surroundings are at fault.
    RuntimeError,
}

/// An error as a host language is told of it.
#[derive(Debug, Clone)]
pub struct ForeignError {
    /// The kind of exception to raise.
    pub kind: ExceptionKind,
    /// The text of the exception.
    pub message: String,
}

impl FeedErrorView {
    /// The kind of exception that the error is raised as.
    pub open spec fn exception_kind(self) -> ExceptionKind {
        match self {
            FeedErrorView::XmlError(_) => ExceptionKind::ValueError,
            FeedErrorView::InvalidFormat(_) => ExceptionKind::ValueError,
            FeedErrorView::EncodingError(_) => ExceptionKind::ValueError,
            FeedErrorView::JsonError(_) => ExceptionKind::ValueError,
            FeedErrorView::IoError(_) => ExceptionKind::RuntimeError,
            FeedErrorView::Http(_) => ExceptionKind::RuntimeError,
            FeedErrorView::Unknown(_) => ExceptionKind::RuntimeError,
        }
    }

    /// The text of the exception that the error is raised as.
    pub open spec fn exception_message(self) -> Seq<char> {
        match self {
            FeedErrorView::XmlError(m) => "XML parse error: "@ + m,
            FeedErrorView::IoError(m) => "I/O error: "@ + m,
            FeedErrorView::InvalidFormat(m) => "Invalid feed format: "@ + m,
            FeedErrorView::EncodingError(m) => "Encoding error: "@ + m,
            FeedErrorView::JsonError(m) => "JSON parse error: "@ + m,
            FeedErrorView::Http(m) => "HTTP error: "@ + m,
            FeedErrorView::Unknown(m) => "Unknown error: "@ + m,
        }
    }
}

/// Says how an error is to be raised in a host language: what is wrong
/// with the input is a value error, anything else a runtime error.
pub fn convert_feed_error(err: FeedError) -> (foreign: ForeignError)
    ensures
        foreign.kind == err.deep_view().exception_kind(),
        foreign.message@ == err.deep_view().exception_message(),
{
    match err {
        FeedError::XmlError(m) => ForeignError {
            kind: ExceptionKind::ValueError,
            message: prefixed("XML parse error: ", m.as_str()),
        },
        FeedError::IoError(m) => ForeignError {
            kind: ExceptionKind::RuntimeError,
            message: prefixed("I/O error: ", m.as_str()),
        },
        FeedError::InvalidFormat(m) => ForeignError {
            kind: ExceptionKind::ValueError,
            message: prefixed("Invalid feed format: ", m.as_str()),
        },
        FeedError::EncodingError(m) => ForeignError {
            kind: ExceptionKind::ValueError,
            message: prefixed("Encoding error: ", m.as_str()),
        },
        FeedError::JsonError(m) => ForeignError {
            kind: ExceptionKind::ValueError,
            message: prefixed("JSON parse error: ", m.as_str()),
        },
        FeedError::Http { message } => ForeignError {
            kind: ExceptionKind::RuntimeError,
            message: prefixed("HTTP error: ", message.as_str()),
        },
        FeedError::Unknown(m) => ForeignError {
            kind: ExceptionKind::RuntimeError,
            message: prefixed("Unknown error: ", m.as_str()),
        },
    }
}

} // verus!
