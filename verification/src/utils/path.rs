//! File name helpers.
use vstd::prelude::*;
use crate::paths::{file_stem, path_file_stem};
use crate::config::global::InputFileAction;
use crate::text::{append, owned};

verus! {

/// The file name without its extension: the `Path::file_stem` of the name,
/// or the name itself where it has none.
pub open spec fn base_name(file_name: Seq<char>) -> Seq<char> {
    match file_stem(file_name) {
        Some(s) => s,
        None => file_name,
    }
}

/// Returns the file name without its extension ("video.mp4" gives "video",
/// "archive.tar.gz" gives "archive.tar").
pub fn get_base_name(file_name: &str) -> (r: String)
    ensures
        r@ == base_name(file_name@),
{
    match path_file_stem(file_name) {
        Some(s) => s,
        None => owned(file_name),
    }
}

/// What becomes of an input file once its conversion has ended.
#[derive(Debug, Clone, Copy, PartialEq, Eq, Structural)]
pub enum InputDisposition {
    /// Rename it to `{name}.done`.
    MarkDone,
    /// Rename it to `{name}.error`.
    MarkError,
    /// Delete it.
    Delete,
    /// Leave it where it is.
    Keep,
}

/// The disposition of an input file: marked by outcome, deleted after a
/// success when configured so (and marked as failed otherwise), or left.
pub fn input_file_disposition(action: InputFileAction, success: bool) -> (r: InputDisposition)
    ensures
        r == match action {
            InputFileAction::Mark => if success {
                InputDisposition::MarkDone
            } else {
                InputDisposition::MarkError
            },
            InputFileAction::Delete => if success {
                InputDisposition::Delete
            } else {
                InputDisposition::MarkError
            },
            InputFileAction::Leave => InputDisposition::Keep,
        },
{
    match action {
        InputFileAction::Mark => if success {
            InputDisposition::MarkDone
        } else {
            InputDisposition::MarkError
        },
        InputFileAction::Delete => if success {
            InputDisposition::Delete
        } else {
            InputDisposition::MarkError
        },
        InputFileAction::Leave => InputDisposition::Keep,
    }
}

/// The new file name of a marked input file: `{name}.done` after a
/// success, `{name}.error` after a failure.
pub fn marked_name(file_name: &str, success: bool) -> (r: String)
    ensures
        r@ == file_name@ + if success {
            ".done"@
        } else {
            ".error"@
        },
{
    let mut r = owned(file_name);
    if success {
        append(&mut r, ".done");
    } else {
        append(&mut r, ".error");
    }
    r
}

} // verus!
