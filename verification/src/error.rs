//! The failures of the store, kept structured until the outermost boundary,
//! where `StoreError::message` turns one into the line shown to the user.

use vstd::prelude::*;
use vstd::string::*;

verus! {

/// What went wrong.
#[derive(Clone, Copy, Debug, PartialEq, Eq, Structural)]
pub enum ErrorKind {
    /// The directory that holds the database file could not be created.
    DirectoryCreateFailed,
    /// The database file could not be opened.
    OpenFailed,
    /// The schema statements failed.
    SchemaError,
    /// A statement could not be prepared.
    QueryPrepareError,
    /// A statement failed while it ran.
    QueryExecError,
    /// A row could not be read into its record.
    RowMappingError,
    /// A write broke a uniqueness, foreign-key or not-null constraint.
    ConstraintViolation,
}

/// The operation during which a failure occurred.
#[derive(Clone, Copy, Debug, PartialEq, Eq, Structural)]
pub enum Operation {
    InitDatabase,
    CreateSession,
    SaveQcRecord,
    GetSessionHistory,
    GetAnalyticsData,
    GetAnalyticsRecords,
    SaveAppSetting,
    LoadAppSettings,
}

/// A failure of the store: its kind, the operation that met it, and the
/// message of the underlying cause.
#[derive(Debug, PartialEq, Eq)]
pub struct StoreError {
    pub kind: ErrorKind,
    pub operation: Operation,
    pub cause: String,
}

/// A `StoreError` with its cause as a sequence of characters.
pub struct ErrorView {
    pub kind: ErrorKind,
    pub operation: Operation,
    pub cause: Seq<char>,
}

impl View for StoreError {
    type V = ErrorView;

    open spec fn view(&self) -> ErrorView {
        ErrorView { kind: self.kind, operation: self.operation, cause: self.cause@ }
    }
}

/// The words that introduce a failure of the given kind in the given
/// operation.
pub open spec fn spec_context(operation: Operation, kind: ErrorKind) -> Seq<char> {
    match kind {
        ErrorKind::DirectoryCreateFailed => "Failed to create database directory"@,
        ErrorKind::OpenFailed => "Failed to open database"@,
        ErrorKind::SchemaError => "Failed to initialize database schema"@,
        _ => match operation {
            Operation::InitDatabase => "Failed to initialize database schema"@,
            Operation::CreateSession => "Failed to create session"@,
            Operation::SaveQcRecord => "Failed to save QC record"@,
            Operation::SaveAppSetting => "Failed to save app setting"@,
            Operation::GetSessionHistory => match kind {
                ErrorKind::QueryPrepareError => "Failed to prepare session history query"@,
                ErrorKind::RowMappingError => "Failed to read session row"@,
                _ => "Failed to map session history rows"@,
            },
            Operation::GetAnalyticsData => match kind {
                ErrorKind::QueryPrepareError => "Failed to prepare analytics query"@,
                _ => "Failed to read analytics row"@,
            },
            Operation::GetAnalyticsRecords => match kind {
                ErrorKind::QueryPrepareError => "Failed to prepare analytics records query"@,
                ErrorKind::RowMappingError => "Failed to read analytics record row"@,
                _ => "Failed to map analytics record rows"@,
            },
            Operation::LoadAppSettings => match kind {
                ErrorKind::QueryPrepareError => "Failed to prepare app settings query"@,
                ErrorKind::RowMappingError => "Failed to read app setting row"@,
                _ => "Failed to map app settings rows"@,
            },
        },
    }
}

/// The line shown to the user: the context, a colon and a space, the cause.
pub open spec fn spec_message(error: ErrorView) -> Seq<char> {
    spec_context(error.operation, error.kind) + ": "@ + error.cause
}

/// The cause reported when a statement names a table that does not exist.
pub open spec fn spec_no_such_table(table: Seq<char>) -> Seq<char> {
    "no such table: "@ + table
}

/// The cause reported when a record names a session that does not exist.
pub open spec fn spec_foreign_key_cause() -> Seq<char> {
    "FOREIGN KEY constraint failed"@
}

/// The cause reported when a table has used up its identifiers.
pub open spec fn spec_full_cause() -> Seq<char> {
    "database or disk is full"@
}

/// The words that introduce a failure of the given kind in the given
/// operation.
pub fn context(operation: Operation, kind: ErrorKind) -> (text: &'static str)
    ensures
        text@ == spec_context(operation, kind),
{
    match kind {
        ErrorKind::DirectoryCreateFailed => "Failed to create database directory",
        ErrorKind::OpenFailed => "Failed to open database",
        ErrorKind::SchemaError => "Failed to initialize database schema",
        _ => match operation {
            Operation::InitDatabase => "Failed to initialize database schema",
            Operation::CreateSession => "Failed to create session",
            Operation::SaveQcRecord => "Failed to save QC record",
            Operation::SaveAppSetting => "Failed to save app setting",
            Operation::GetSessionHistory => match kind {
                ErrorKind::QueryPrepareError => "Failed to prepare session history query",
                ErrorKind::RowMappingError => "Failed to read session row",
                _ => "Failed to map session history rows",
            },
            Operation::GetAnalyticsData => match kind {
                ErrorKind::QueryPrepareError => "Failed to prepare analytics query",
                _ => "Failed to read analytics row",
            },
            Operation::GetAnalyticsRecords => match kind {
                ErrorKind::QueryPrepareError => "Failed to prepare analytics records query",
                ErrorKind::RowMappingError => "Failed to read analytics record row",
                _ => "Failed to map analytics record rows",
            },
            Operation::LoadAppSettings => match kind {
                ErrorKind::QueryPrepareError => "Failed to prepare app settings query",
                ErrorKind::RowMappingError => "Failed to read app setting row",
                _ => "Failed to map app settings rows",
            },
        },
    }
}

impl StoreError {
    /// A failure of the given kind, met during the given operation, with the
    /// message of its cause.
    pub fn new(kind: ErrorKind, operation: Operation, cause: String) -> (error: StoreError)
        ensures
            error@ == (ErrorView { kind, operation, cause: cause@ }),
    {
        StoreError { kind, operation, cause }
    }

    /// The failure of a statement that names a table that does not exist.
    pub fn no_such_table(kind: ErrorKind, operation: Operation, table: &str) -> (error: StoreError)
        ensures
            error@ == (ErrorView { kind, operation, cause: spec_no_such_table(table@) }),
    {
        let mut cause = String::from_str("no such table: ");
        cause.append(table);
        StoreError { kind, operation, cause }
    }

    /// The failure of a write that names a session that does not exist.
    pub fn foreign_key(operation: Operation) -> (error: StoreError)
        ensures
            error@ == (ErrorView {
                kind: ErrorKind::ConstraintViolation,
                operation,
                cause: spec_foreign_key_cause(),
            }),
    {
        StoreError {
            kind: ErrorKind::ConstraintViolation,
            operation,
            cause: String::from_str("FOREIGN KEY constraint failed"),
        }
    }

    /// The failure of a write to a table that has used up its identifiers.
    pub fn full(operation: Operation) -> (error: StoreError)
        ensures
            error@ == (ErrorView {
                kind: ErrorKind::QueryExecError,
                operation,
                cause: spec_full_cause(),
            }),
    {
        StoreError {
            kind: ErrorKind::QueryExecError,
            operation,
            cause: String::from_str("database or disk is full"),
        }
    }

    /// The line shown to the user.
    pub fn message(&self) -> (text: String)
        ensures
            text@ == spec_message(self@),
    {
        let mut text = String::from_str(context(self.operation, self.kind));
        text.append(": ");
        text.append(self.cause.as_str());
        text
    }
}

} // verus!
