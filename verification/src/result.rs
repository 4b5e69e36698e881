//! Server-side error values and the outcome type of server operations.

use vstd::prelude::*;

verus! {

/// The outcome of a server operation: a value, or an error with its kind
/// and explanation chain.
pub enum ServerResult<T> {
    Done(T),
    Failed(Error),
}

impl<T> ServerResult<T> {
    /// This outcome with one more line of explanation on its error, if it
    /// failed.
    pub fn explain_error(self, explanation: String) -> (r: ServerResult<T>)
        ensures
            match self {
                ServerResult::Done(_) => r == self,
                ServerResult::Failed(error) => r matches ServerResult::Failed(e)
                    && e.spec_kind() == error.spec_kind()
                    && e.spec_description() == error.spec_description().push(explanation),
            },
    {
        match self {
            ServerResult::Done(_) => self,
            ServerResult::Failed(error) => ServerResult::Failed(error.explain(explanation)),
        }
    }

    /// Wrap an operation's result, turning its error message into an error
    /// of `kind`.
    pub fn wrap(result: Result<T, String>, kind: ErrorKind) -> (r: ServerResult<T>)
        ensures
            match result {
                Ok(v) => r == ServerResult::Done(v),
                Err(message) => r matches ServerResult::Failed(e)
                    && e.spec_kind() == kind && e.spec_description() == seq![message],
            },
    {
        match result {
            Ok(value) => ServerResult::Done(value),
            Err(error) => ServerResult::Failed(Error::from(error, kind)),
        }
    }
}

/// A server error: its kind and a chain of explanations, innermost first.
#[derive(Debug)]
pub struct Error {
    kind: ErrorKind,
    description: Vec<String>,
}

/// What went wrong on the server side; an HTTP-surfaced error carries its
/// status code.
#[derive(Clone, Copy, PartialEq, Eq, Structural, Debug)]
pub enum ErrorKind {
    ConfigurationError,
    ParsingError,
    NetworkError,
    StartupError,
    HttpError(u16),
}

impl Error {
    /// An error of `kind` with one line of description.
    pub fn new(kind: ErrorKind, description: String) -> (r: Error)
        ensures
            r.spec_kind() == kind,
            r.spec_description() == seq![description],
    {
        let mut d: Vec<String> = Vec::new();
        d.push(description);
        Error { kind, description: d }
    }

    /// An error of `kind` wrapping the message of an underlying failure.
    pub fn from(error: String, kind: ErrorKind) -> (r: Error)
        ensures
            r.spec_kind() == kind,
            r.spec_description() == seq![error],
    {
        Error::new(kind, error)
    }

    /// This error with one more line of explanation appended.
    pub fn explain(self, explanation: String) -> (r: Error)
        ensures
            r.spec_kind() == self.spec_kind(),
            r.spec_description() == self.spec_description().push(explanation),
    {
        let Error { kind, mut description } = self;
        description.push(explanation);
        Error { kind, description }
    }

    /// The kind of this error.
    pub closed spec fn spec_kind(&self) -> ErrorKind {
        self.kind
    }

    /// The chain of descriptions, innermost first.
    pub closed spec fn spec_description(&self) -> Seq<String> {
        self.description@
    }

    /// The kind of this error.
    pub fn kind(&self) -> (r: ErrorKind)
        ensures
            r == self.spec_kind(),
    {
        self.kind
    }

    /// The chain of descriptions, innermost first.
    pub fn description(&self) -> (r: &Vec<String>)
        ensures
            r@ == self.spec_description(),
    {
        &self.description
    }
}

} // verus!
