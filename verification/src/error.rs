//! The errors of the library.

use vstd::prelude::*;
use vstd::string::StringExecFns;

verus! {

/// What went wrong.
#[derive(Clone, Copy, Debug, PartialEq, Eq, Structural)]
pub enum ErrorKind {
    /// A category of that name is not configured.
    NotFound,
    /// A source could not be fetched.
    Network,
    /// The bytes of a source are not a feed.
    Malformed,
    /// The configuration names a source that is no URL.
    InvalidConfig,
}

/// An error: its kind and a message for a person to read.
#[derive(Debug, PartialEq, Clone)]
pub struct FeedError {
    pub kind: ErrorKind,
    pub message: String,
}

/// What a [`FeedError`] holds, as mathematical values.
pub struct FeedErrorView {
    pub kind: ErrorKind,
    pub message: Seq<char>,
}

impl View for FeedError {
    type V = FeedErrorView;

    open spec fn view(&self) -> FeedErrorView {
        FeedErrorView { kind: self.kind, message: self.message@ }
    }
}

/// What stands between a context and the message it is put in front of.
pub open spec fn context_separator() -> Seq<char> {
    ": "@
}

/// A message with a context in front of it.
pub open spec fn with_context(context: Seq<char>, message: Seq<char>) -> Seq<char> {
    context + context_separator() + message
}

impl FeedError {
    pub fn new(kind: ErrorKind, message: String) -> (e: FeedError)
        ensures
            e@.kind == kind,
            e@.message == message@,
    {
        FeedError { kind, message }
    }

    /// The same error, its message told from a wider point of view: the
    /// context, a colon and the message as it was.
    pub fn context(self, context: &str) -> (e: FeedError)
        ensures
            e@.kind == self@.kind,
            e@.message == with_context(context@, self@.message),
    {
        let mut message = String::from_str(context);
        message.append(": ");
        message.append(self.message.as_str());
        FeedError { kind: self.kind, message }
    }
}

} // verus!
