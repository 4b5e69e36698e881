//! Game-side error values: a kind and a chain of explanations, innermost
//! first.

use vstd::prelude::*;

verus! {

/// An error with its kind and a chain of explanations.
#[derive(Debug)]
pub struct Error {
    kind: ErrorKind,
    description: Vec<String>,
}

/// What went wrong.
#[derive(Clone, Copy, PartialEq, Eq, Structural, Debug)]
pub enum ErrorKind {
    ConfigurationError,
    NoSpawnAvailable,
    DecodeError,
}

impl Error {
    /// An error of `kind` with one line of description.
    pub fn new(kind: ErrorKind, description: String) -> (r: Error)
        ensures
            r.spec_kind() == kind,
            r.spec_description() == seq![description],
    {
        let mut d: Vec<String> = Vec::new();
        d.push(description);
        Error { kind, description: d }
    }

    /// An error of `kind` wrapping the message of an underlying failure.
    pub fn from(error: String, kind: ErrorKind) -> (r: Error)
        ensures
            r.spec_kind() == kind,
            r.spec_description() == seq![error],
    {
        Error::new(kind, error)
    }

    /// This error with one more line of explanation appended.
    pub fn explain(self, explanation: String) -> (r: Error)
        ensures
            r.spec_kind() == self.spec_kind(),
            r.spec_description() == self.spec_description().push(explanation),
    {
        let Error { kind, mut description } = self;
        description.push(explanation);
        Error { kind, description }
    }

    /// The kind of this error.
    pub closed spec fn spec_kind(&self) -> ErrorKind {
        self.kind
    }

    /// The chain of descriptions, innermost first.
    pub closed spec fn spec_description(&self) -> Seq<String> {
        self.description@
    }

    /// The kind of this error.
    pub fn kind(&self) -> (r: ErrorKind)
        ensures
            r == self.spec_kind(),
    {
        self.kind
    }

    /// The chain of descriptions, innermost first.
    pub fn description(&self) -> (r: &Vec<String>)
        ensures
            r@ == self.spec_description(),
    {
        &self.description
    }
}

} // verus!
