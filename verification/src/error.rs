//! Error type of NotebookLM operations.

use vstd::prelude::*;

verus! {

/// `serde_json::Error`, carried by [`NotebookLmError::Json`]; opaque here.
#[verifier::external_type_specification]
#[verifier::external_body]
pub struct ExJsonError(serde_json::Error);

/// `std::io::Error`, carried by [`NotebookLmError::Io`]; opaque here.
#[verifier::external_type_specification]
#[verifier::external_body]
pub struct ExIoError(std::io::Error);

/// Errors from NotebookLM operations.
#[derive(Debug)]
pub enum NotebookLmError {
    /// Notebook not found in library.
    NotebookNotFound(String),
    /// Session not found.
    SessionNotFound(String),
    /// No active notebook selected.
    NoActiveNotebook,
    /// JSON serialization/deserialization error.
    Json(serde_json::Error),
    /// File I/O error.
    Io(std::io::Error),
    /// Browser not running.
    BrowserNotRunning,
    /// Authentication required.
    NotAuthenticated,
    /// Query timeout (milliseconds).
    Timeout(u64),
    /// DOM selector not found.
    SelectorNotFound(String),
    /// Generic operational error.
    Other(String),
}

} // verus!
