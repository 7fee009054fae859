//! The error taxonomy shared by every component of the crate.
//!
//! Failures are values, never panics: an unrecognised resource identifier,
//! an upstream response with a non-success status, a structurally invalid
//! response body, an unparseable version tag, or a resolver that is no
//! longer reachable.

use vstd::prelude::*;

verus! {

/// Mathematical model of an [`Error`]: the same variants over sequences
/// of characters instead of heap-allocated strings.
pub ghost enum ErrorView {
    UnknownResourceScheme { input: Seq<char> },
    VersionParsing { raw: Seq<char> },
    HttpError { url: Seq<char>, status: u16 },
    JsonParsing { detail: Seq<char> },
    ChannelClosed,
}

/// Everything that can go wrong while resolving versions.
#[derive(Debug)]
pub enum Error {
    /// A resource identifier that no known resource kind recognises.
    UnknownResourceScheme { input: String },
    /// A tag string that could not be turned into a version.
    VersionParsing { raw: String },
    /// An upstream response outside the success range, with the URL that
    /// was fetched and the status code that came back; a transport
    /// failure that produced no response at all carries status zero.
    HttpError { url: String, status: u16 },
    /// A response body whose structure is not the expected one.
    JsonParsing { detail: String },
    /// The resolver service is gone and can no longer answer.
    ChannelClosed,
}

impl View for Error {
    type V = ErrorView;

    open spec fn view(&self) -> ErrorView {
        match self {
            Error::UnknownResourceScheme { input } => ErrorView::UnknownResourceScheme {
                input: input@,
            },
            Error::VersionParsing { raw } => ErrorView::VersionParsing { raw: raw@ },
            Error::HttpError { url, status } => ErrorView::HttpError {
                url: url@,
                status: *status,
            },
            Error::JsonParsing { detail } => ErrorView::JsonParsing { detail: detail@ },
            Error::ChannelClosed => ErrorView::ChannelClosed,
        }
    }
}

impl Clone for Error {
    fn clone(&self) -> (r: Self)
        ensures
            r == *self,
    {
        match self {
            Error::UnknownResourceScheme { input } => Error::UnknownResourceScheme {
                input: input.clone(),
            },
            Error::VersionParsing { raw } => Error::VersionParsing { raw: raw.clone() },
            Error::HttpError { url, status } => Error::HttpError {
                url: url.clone(),
                status: *status,
            },
            Error::JsonParsing { detail } => Error::JsonParsing { detail: detail.clone() },
            Error::ChannelClosed => Error::ChannelClosed,
        }
    }
}

} // verus!
