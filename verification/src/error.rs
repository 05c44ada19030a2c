//! The error of the library: one type for all that can go wrong between a pine and its query.
use crate::engine::query_builder::QueryBuildError;
use crate::engine::syntax::stage2::SyntaxError;
use vstd::prelude::*;

verus! {

/// Anything that stopped a pine from becoming a query.
#[derive(Debug)]
pub struct Error(pub Box<ErrorKind>);

/// What went wrong.
#[derive(Debug)]
pub enum ErrorKind {
    /// The input is not a pine.
    SyntaxError(SyntaxError),
    /// The pine could not be turned into a query for the database structure at hand.
    QueryBuildError(QueryBuildError),
    /// The database could not be queried; holds what the driver said.
    MySqlError(String),
    /// Something that should not happen did.
    InternalError(InternalError),
}

/// An error that points at a fault of this program rather than at its input.
#[derive(Debug)]
pub struct InternalError(pub String);

impl Error {
    pub fn new(kind: ErrorKind) -> (r: Error)
        ensures
            *r.0 == kind,
    {
        Error(Box::new(kind))
    }

    /// What went wrong.
    pub fn kind(&self) -> (r: &ErrorKind)
        ensures
            *r == *self.0,
    {
        &self.0
    }
}

impl From<SyntaxError> for Error {
    fn from(value: SyntaxError) -> (r: Error) {
        Error::new(ErrorKind::SyntaxError(value))
    }
}

impl vstd::std_specs::convert::FromSpecImpl<SyntaxError> for Error {
    open spec fn obeys_from_spec() -> bool {
        true
    }

    open spec fn from_spec(v: SyntaxError) -> Error {
        Error(Box::new(ErrorKind::SyntaxError(v)))
    }
}

impl From<QueryBuildError> for Error {
    fn from(value: QueryBuildError) -> (r: Error) {
        Error::new(ErrorKind::QueryBuildError(value))
    }
}

impl vstd::std_specs::convert::FromSpecImpl<QueryBuildError> for Error {
    open spec fn obeys_from_spec() -> bool {
        true
    }

    open spec fn from_spec(v: QueryBuildError) -> Error {
        Error(Box::new(ErrorKind::QueryBuildError(v)))
    }
}

impl From<InternalError> for Error {
    fn from(value: InternalError) -> (r: Error) {
        Error::new(ErrorKind::InternalError(value))
    }
}

impl vstd::std_specs::convert::FromSpecImpl<InternalError> for Error {
    open spec fn obeys_from_spec() -> bool {
        true
    }

    open spec fn from_spec(v: InternalError) -> Error {
        Error(Box::new(ErrorKind::InternalError(v)))
    }
}

} // verus!
