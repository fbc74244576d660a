//! Errors of the store.
use vstd::prelude::*;

verus! {

/// Result of a store operation.
pub type StoreResult<T> = Result<T, StoreError>;

/// Errors raised by the store layer. Where the cause is an error of another layer,
/// the variant holds that error's text.
#[derive(Debug)]
#[non_exhaustive]
pub enum StoreError {
    /// The database failed.
    Sqlite(String),
    /// A migration failed.
    Migration(String),
    /// Input or output failed, such as opening the database file.
    Io(String),
    /// A value could not be written as JSON.
    Serde(String),
    /// The writer has shut down.
    WriterClosed,
    /// A reader's task panicked or was cancelled.
    PoolPanic(String),
    /// An error of the memory model.
    Memory(String),
    /// A project cannot take a name that another project of its workspace has.
    ProjectNameTaken(String),
    /// A project's name is not valid.
    InvalidProjectName(String),
    /// A unique value is already in use; the text says which.
    Duplicate(String),
    /// The operating system failed.
    Os(String),
    /// The operation does not fit the state that is stored.
    InvalidState(String),
    /// What is stored cannot be read.
    MalformedRecord(String),
}

impl StoreError {
    /// The text that is shown for the error.
    pub open spec fn shown(&self) -> Seq<char> {
        match *self {
            StoreError::Sqlite(e) => "sqlite: "@ + e@,
            StoreError::Migration(e) => "migration: "@ + e@,
            StoreError::Io(e) => e@,
            StoreError::Serde(e) => "serde: "@ + e@,
            StoreError::WriterClosed => "writer actor is no longer running"@,
            StoreError::PoolPanic(e) => "reader pool task did not complete: "@ + e@,
            StoreError::Memory(e) => e@,
            StoreError::ProjectNameTaken(name) => "project name '"@ + name@
                + "' is already taken in this workspace"@,
            StoreError::InvalidProjectName(name) => "invalid project name: "@ + name@,
            StoreError::Duplicate(e) => "duplicate: "@ + e@,
            StoreError::Os(e) => "os error: "@ + e@,
            StoreError::InvalidState(e) => "invalid state: "@ + e@,
            StoreError::MalformedRecord(e) => "malformed record: "@ + e@,
        }
    }

    /// The text that is shown for the error.
    pub fn message(&self) -> (r: String)
        ensures
            r@ == self.shown(),
    {
        match self {
            StoreError::Sqlite(e) => labelled("sqlite: ", e),
            StoreError::Migration(e) => labelled("migration: ", e),
            StoreError::Io(e) => e.clone(),
            StoreError::Serde(e) => labelled("serde: ", e),
            StoreError::WriterClosed => "writer actor is no longer running".to_string(),
            StoreError::PoolPanic(e) => labelled("reader pool task did not complete: ", e),
            StoreError::Memory(e) => e.clone(),
            StoreError::ProjectNameTaken(name) => {
                let mut r = labelled("project name '", name);
                r.append("' is already taken in this workspace");
                r
            },
            StoreError::InvalidProjectName(name) => labelled("invalid project name: ", name),
            StoreError::Duplicate(e) => labelled("duplicate: ", e),
            StoreError::Os(e) => labelled("os error: ", e),
            StoreError::InvalidState(e) => labelled("invalid state: ", e),
            StoreError::MalformedRecord(e) => labelled("malformed record: ", e),
        }
    }

    /// The error is about the state that is stored, and says `message`.
    pub open spec fn is_invalid_state(&self, message: Seq<char>) -> bool {
        match *self {
            StoreError::InvalidState(m) => m@ == message,
            _ => false,
        }
    }

    /// The error is one of the database, and says `message`.
    pub open spec fn is_sqlite(&self, message: Seq<char>) -> bool {
        match *self {
            StoreError::Sqlite(m) => m@ == message,
            _ => false,
        }
    }

    /// The error is about a record that cannot be read, and says `message`.
    pub open spec fn is_malformed_record(&self, message: Seq<char>) -> bool {
        match *self {
            StoreError::MalformedRecord(m) => m@ == message,
            _ => false,
        }
    }
}

/// `label` and behind it `text`.
pub(crate) fn labelled(label: &str, text: &str) -> (r: String)
    ensures
        r@ == label@ + text@,
{
    let mut r = label.to_string();
    r.append(text);
    r
}

/// An error is shown with what failed in front of its own words.
pub proof fn error_is_shown_with_its_cause(e: StoreError)
    ensures
        e matches StoreError::Sqlite(text) ==> e.shown() == "sqlite: "@ + text@,
        e matches StoreError::Migration(text) ==> e.shown() == "migration: "@ + text@,
        e matches StoreError::Io(text) ==> e.shown() == text@,
        e matches StoreError::Serde(text) ==> e.shown() == "serde: "@ + text@,
        e is WriterClosed ==> e.shown() == "writer actor is no longer running"@,
        e matches StoreError::PoolPanic(text) ==> e.shown()
            == "reader pool task did not complete: "@ + text@,
        e matches StoreError::Memory(text) ==> e.shown() == text@,
        e matches StoreError::ProjectNameTaken(name) ==> e.shown() == "project name '"@ + name@
            + "' is already taken in this workspace"@,
        e matches StoreError::InvalidProjectName(name) ==> e.shown() == "invalid project name: "@
            + name@,
        e matches StoreError::Duplicate(text) ==> e.shown() == "duplicate: "@ + text@,
        e matches StoreError::Os(text) ==> e.shown() == "os error: "@ + text@,
        e matches StoreError::InvalidState(text) ==> e.shown() == "invalid state: "@ + text@,
        e matches StoreError::MalformedRecord(text) ==> e.shown() == "malformed record: "@ + text@,
{
}

/// An error is recognised by its sort and its words.
pub proof fn error_is_recognised_by_its_words(e: StoreError, message: Seq<char>)
    ensures
        e.is_invalid_state(message) <==> (e matches StoreError::InvalidState(m) && m@ == message),
        e.is_malformed_record(message) <==> (e matches StoreError::MalformedRecord(m) && m@
            == message),
        e.is_sqlite(message) <==> (e matches StoreError::Sqlite(m) && m@ == message),
{
}

} // verus!
