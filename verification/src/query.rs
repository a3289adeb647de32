//! What a request hands back to its caller.
use vstd::prelude::*;

verus! {

/// The rows of a query, as text.
pub struct FetchResult {
    /// The names of the columns.
    pub header: Vec<String>,
    /// The rows, each with one cell for each column. A null is the text
    /// `NULL`.
    pub rows: Vec<Vec<String>>,
    /// How long the query took, as text.
    pub query_time: String,
}

/// One entry of the history of statements.
pub struct FetchHistory {
    /// The statement as it was submitted.
    pub sql: String,
    /// How it ended.
    pub status: String,
    /// When it was submitted.
    pub created_at: String,
}

/// What writing a result to a file gives.
pub struct WriterResult {
    /// How long the query took, as text.
    pub query_time: String,
    /// The file that was written.
    pub file_name: String,
}

} // verus!
