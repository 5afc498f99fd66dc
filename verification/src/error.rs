//! A closed set of error kinds for the pipeline, each carrying only the
//! context needed for logging and status mapping.

use vstd::prelude::*;
use vstd::string::*;

verus! {

/// The error kinds the pipeline distinguishes.  `Store` stands for any
/// failure of the external key-value store, `Serialization` for a failure
/// to encode or decode a stored value.
#[derive(Debug)]
pub enum ErrorKind {
    S(String),
    Internal(String),
    InvalidAuth(String),
    BadRequest(String),
    DoesNotExist(String),
    MissingUriParam(String),
    InvalidUriParam(String),
    Store(String),
    Serialization(String),
}

#[derive(Debug)]
pub struct Error {
    kind: ErrorKind,
}

impl Error {
    pub fn kind(&self) -> (r: &ErrorKind)
        ensures
            r == self.spec_kind(),
    {
        &self.kind
    }

    pub closed spec fn spec_kind(&self) -> ErrorKind {
        self.kind
    }

    pub fn from_kind(kind: ErrorKind) -> (r: Self)
        ensures
            r.spec_kind() == kind,
    {
        Self { kind }
    }

    pub fn is_does_not_exist(&self) -> (r: bool)
        ensures
            r == (self.spec_kind() matches ErrorKind::DoesNotExist(_)),
    {
        if let ErrorKind::DoesNotExist(_) = &self.kind {
            true
        } else {
            false
        }
    }

    /// A readable rendering of the error, prefix first.
    pub fn message(&self) -> (r: String)
        ensures
            r@ == spec_message(self.spec_kind()),
    {
        let (prefix, detail): (&str, &String) = match &self.kind {
            ErrorKind::S(s) => ("", s),
            ErrorKind::Internal(s) => ("InternalError: ", s),
            ErrorKind::InvalidAuth(s) => ("InvalidAuth: ", s),
            ErrorKind::BadRequest(s) => ("BadRequest: ", s),
            ErrorKind::DoesNotExist(s) => ("DoesNotExist: ", s),
            ErrorKind::MissingUriParam(s) => ("MissingUriParam: ", s),
            ErrorKind::InvalidUriParam(s) => ("InvalidUriParam: ", s),
            ErrorKind::Store(s) => ("StoreError: ", s),
            ErrorKind::Serialization(s) => ("SerializationError: ", s),
        };
        String::from_str(prefix).concat(detail.as_str())
    }
}

/// What `Error::message` returns for each kind.
pub open spec fn spec_message(kind: ErrorKind) -> Seq<char> {
    match kind {
        ErrorKind::S(s) => ""@ + s@,
        ErrorKind::Internal(s) => "InternalError: "@ + s@,
        ErrorKind::InvalidAuth(s) => "InvalidAuth: "@ + s@,
        ErrorKind::BadRequest(s) => "BadRequest: "@ + s@,
        ErrorKind::DoesNotExist(s) => "DoesNotExist: "@ + s@,
        ErrorKind::MissingUriParam(s) => "MissingUriParam: "@ + s@,
        ErrorKind::InvalidUriParam(s) => "InvalidUriParam: "@ + s@,
        ErrorKind::Store(s) => "StoreError: "@ + s@,
        ErrorKind::Serialization(s) => "SerializationError: "@ + s@,
    }
}

impl From<ErrorKind> for Error {
    fn from(kind: ErrorKind) -> (r: Error) {
        Error { kind }
    }
}

impl vstd::std_specs::convert::FromSpecImpl<ErrorKind> for Error {
    open spec fn obeys_from_spec() -> bool {
        true
    }

    closed spec fn from_spec(kind: ErrorKind) -> Error {
        Error { kind }
    }
}

} // verus!
