//! The errors the client reports.

use vstd::prelude::*;

verus! {

/// What went wrong, with the message shown to the user.
#[derive(Clone, Debug, PartialEq, Eq)]
pub enum Error {
    /// The server could not be reached, or its answer could not be read.
    Network(String),
    /// The server answered with an error.
    Api(String),
    /// The answer was not of the expected shape.
    Parse(String),
    /// A local path cannot be used.
    InvalidPath(String),
    /// The configuration could not be loaded.
    Config(String),
}

/// An [`Error`] with its message as a sequence of characters.
pub enum ErrorView {
    Network(Seq<char>),
    Api(Seq<char>),
    Parse(Seq<char>),
    InvalidPath(Seq<char>),
    Config(Seq<char>),
}

impl View for Error {
    type V = ErrorView;

    open spec fn view(&self) -> ErrorView {
        match self {
            Error::Network(m) => ErrorView::Network(m@),
            Error::Api(m) => ErrorView::Api(m@),
            Error::Parse(m) => ErrorView::Parse(m@),
            Error::InvalidPath(m) => ErrorView::InvalidPath(m@),
            Error::Config(m) => ErrorView::Config(m@),
        }
    }
}

impl Error {
    /// The message carried by the error.
    pub fn message(&self) -> (m: &str)
        ensures
            m@ == (match self@ {
                ErrorView::Network(t) => t,
                ErrorView::Api(t) => t,
                ErrorView::Parse(t) => t,
                ErrorView::InvalidPath(t) => t,
                ErrorView::Config(t) => t,
            }),
    {
        match self {
            Error::Network(m) => m.as_str(),
            Error::Api(m) => m.as_str(),
            Error::Parse(m) => m.as_str(),
            Error::InvalidPath(m) => m.as_str(),
            Error::Config(m) => m.as_str(),
        }
    }
}

} // verus!
