//! The files that a path pattern matches.
use crate::error::{agrees, bad_request_view, AppError, AppErrorView, AppResult};
use crate::text::texts;
use vstd::prelude::*;

verus! {

/// What a listing of matched files gives: the files, or the error for a
/// pattern that matches none.
pub open spec fn files_found(files: Seq<Seq<char>>) -> Result<Seq<Seq<char>>, AppErrorView> {
    if files.len() == 0 {
        Err(bad_request_view("No files found"@))
    } else {
        Ok(files)
    }
}

/// Checks the files that a pattern has matched, in listing order. A
/// pattern that matches no file is an error, not an empty source.
pub fn find_files(files: Vec<String>) -> (r: AppResult<Vec<String>>)
    ensures
        match r {
            Ok(found) => files_found(texts(files@)) == Ok::<Seq<Seq<char>>, AppErrorView>(
                texts(found@),
            ),
            Err(e) => files_found(texts(files@)) == Err::<Seq<Seq<char>>, AppErrorView>(e@),
        },
{
    if files.len() == 0 {
        Err(AppError::bad_request("No files found"))
    } else {
        Ok(files)
    }
}

} // verus!
