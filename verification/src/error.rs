//! What can go wrong, and how it is reported to the query engine.
use vstd::prelude::*;
use vstd::string::StringExecFns;

verus! {

/// The kinds of error that a catalog tells apart.
#[derive(Clone, Copy, Debug, PartialEq, Eq, Structural)]
pub enum ErrorKind {
    /// The system is not in the state that the operation needs.
    PreconditionFailed,
    /// Nobody knows what happened.
    Unexpected,
    /// Stored data or metadata is not valid.
    DataInvalid,
    /// The namespace to create is there already.
    NamespaceAlreadyExists,
    /// The table to create is there already.
    TableAlreadyExists,
    /// There is no such namespace.
    NamespaceNotFound,
    /// There is no such table.
    TableNotFound,
    /// The catalog cannot do this.
    FeatureUnsupported,
    /// A commit was made against outdated metadata.
    CatalogCommitConflicts,
    /// Any other kind.
    Other,
}

/// Why a catalog could not load a table: the kind of the error, and the error.
#[derive(Debug)]
pub struct LoadError<E> {
    pub kind: ErrorKind,
    pub error: E,
}

/// An error from outside the query engine.
#[derive(Debug)]
pub enum ExternalError<E> {
    /// An error that was reported to the schema, as it came.
    Reported(E),
    /// An error of kind [`ErrorKind::Unexpected`] with this message.
    Unexpected(String),
}

/// An error of the schema.
#[derive(Debug)]
pub enum SchemaError<E> {
    /// The query cannot be planned.
    Plan(String),
    /// The query cannot be executed.
    Execution(String),
    /// Something else failed on the schema's behalf.
    External(ExternalError<E>),
}

impl<E> ExternalError<E> {
    /// The error is of the unexpected kind, with this message.
    pub open spec fn is_unexpected(self, message: Seq<char>) -> bool {
        self matches ExternalError::Unexpected(text) && text@ == message
    }
}

impl<E> SchemaError<E> {
    /// The error is a planning error with this message.
    pub open spec fn is_plan(self, message: Seq<char>) -> bool {
        self matches SchemaError::Plan(text) && text@ == message
    }

    /// The error is an execution error with this message.
    pub open spec fn is_execution(self, message: Seq<char>) -> bool {
        self matches SchemaError::Execution(text) && text@ == message
    }

    /// The error is an external one, of the unexpected kind, with this message.
    pub open spec fn is_unexpected(self, message: Seq<char>) -> bool {
        self matches SchemaError::External(error) && error.is_unexpected(message)
    }

    /// The error that hands on one that was reported.
    pub open spec fn reported(error: E) -> SchemaError<E> {
        SchemaError::External(ExternalError::Reported(error))
    }

    /// Hands on an error that was reported.
    pub fn from_reported(error: E) -> (made: SchemaError<E>)
        ensures
            made == SchemaError::reported(error),
    {
        SchemaError::External(ExternalError::Reported(error))
    }
}

/// The complaint about a table that is there already.
pub open spec fn already_exists(name: Seq<char>) -> Seq<char> {
    "Table "@ + name + " already exists"@
}

/// The text made of two pieces.
pub(crate) fn joined(first: &str, second: &str) -> (text: String)
    ensures
        text@ == first@ + second@,
{
    let mut text: String = String::new();
    text.append(first);
    text.append(second);
    proof {
        assert(text@ =~= first@ + second@);
    }
    text
}

/// Writes the complaint about a table that is there already.
pub(crate) fn already_exists_message(name: &str) -> (text: String)
    ensures
        text@ == already_exists(name@),
{
    let mut text: String = joined("Table ", name);
    text.append(" already exists");
    text
}

} // verus!
