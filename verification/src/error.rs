//! What can go wrong before the backend is reached, and how it is told.

use vstd::prelude::*;
use vstd::string::*;

verus! {

/// The kinds of identifier that the ledger knows.
#[derive(Debug, Clone, Copy, PartialEq, Eq, Hash, Structural)]
pub enum IdentifierKind {
    Account,
    Transaction,
    File,
}

impl IdentifierKind {
    /// The form in which an identifier of this kind is written.
    pub open spec fn form_text(self) -> Seq<char> {
        match self {
            IdentifierKind::Account => "<shard>.<realm>.<num>"@,
            IdentifierKind::Transaction => "<shard>.<realm>.<num>@<seconds>.<nanos>"@,
            IdentifierKind::File => "<shard>.<realm>.<num>"@,
        }
    }

    /// The form in which an identifier of this kind is written.
    pub fn form(self) -> (r: &'static str)
        ensures
            r@ == self.form_text(),
    {
        match self {
            IdentifierKind::Account => "<shard>.<realm>.<num>",
            IdentifierKind::Transaction => "<shard>.<realm>.<num>@<seconds>.<nanos>",
            IdentifierKind::File => "<shard>.<realm>.<num>",
        }
    }
}

/// Why a text was not accepted as an identifier.
#[derive(Debug, Clone, Copy, PartialEq, Eq, Hash, Structural)]
pub enum ParseError {
    /// The text does not match the grammar of the kind of identifier that
    /// was asked for.
    InvalidFormat(IdentifierKind),
}

impl ParseError {
    /// The kind of identifier that was asked for.
    pub fn expected(&self) -> (k: IdentifierKind)
        ensures
            *self == ParseError::InvalidFormat(k),
    {
        match self {
            ParseError::InvalidFormat(k) => *k,
        }
    }

    /// What `message` says.
    pub open spec fn message_text(self) -> Seq<char> {
        match self {
            ParseError::InvalidFormat(k) => "invalid format: expected "@ + k.form_text(),
        }
    }

    /// The error in words: its kind, and the form that was expected.
    pub fn message(&self) -> (r: String)
        ensures
            r@ == self.message_text(),
    {
        let mut out = "invalid format: expected ".to_string();
        out.append(self.expected().form());
        out
    }
}

/// Why no connection handle was made for an address.
#[derive(Debug, PartialEq, Eq)]
pub enum ConnectionError {
    /// The address is not of the form `<host>:<port>`.
    Malformed,
    /// The address has the right form, but no endpoint has its port number.
    Unreachable,
    /// The backend could not be set up for the address; these are its own
    /// words.
    Backend(String),
}

impl ConnectionError {
    /// What `message` says.
    pub open spec fn message_text(self) -> Seq<char> {
        match self {
            ConnectionError::Malformed => "connection error: expected <host>:<port>"@,
            ConnectionError::Unreachable => "connection error: port must be 1 to 65535"@,
            ConnectionError::Backend(words) => "connection error: "@ + words@,
        }
    }

    /// The error in words: its kind, and what was wrong with the address or
    /// what the backend said.
    pub fn message(&self) -> (r: String)
        ensures
            r@ == self.message_text(),
    {
        match self {
            ConnectionError::Malformed => "connection error: expected <host>:<port>".to_string(),
            ConnectionError::Unreachable => "connection error: port must be 1 to 65535".to_string(),
            ConnectionError::Backend(words) => {
                let mut out = "connection error: ".to_string();
                out.append(words.as_str());
                out
            },
        }
    }
}

/// A query that the backend did not answer. The client neither reads nor
/// retries such a failure: it hands the backend's own words on.
#[derive(Debug, PartialEq, Eq)]
pub struct BackendError {
    pub words: String,
}

impl BackendError {
    /// What `message` says.
    pub open spec fn message_text(self) -> Seq<char> {
        "backend error: "@ + self.words@
    }

    /// The error in words: its kind, and what the backend said.
    pub fn message(&self) -> (r: String)
        ensures
            r@ == self.message_text(),
    {
        let mut out = "backend error: ".to_string();
        out.append(self.words.as_str());
        out
    }
}

} // verus!
