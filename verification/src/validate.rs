//! Checks on identifiers and workspace paths. Every identifier that ends up
//! in a file name passes `validate_safe_id` first.

use crate::error::{AppError, ErrorView};
use crate::text::joined;
use vstd::prelude::*;

verus! {

/// The longest identifier accepted, in characters.
pub const MAX_ID_LEN: usize = 256;

/// The characters an identifier may hold: ASCII letters and digits, the
/// hyphen and the underscore.
pub open spec fn is_id_char(c: char) -> bool {
    ||| ('a' <= c && c <= 'z')
    ||| ('A' <= c && c <= 'Z')
    ||| ('0' <= c && c <= '9')
    ||| c == '-'
    ||| c == '_'
}

/// Whether every character of `s` may stand in an identifier.
pub open spec fn all_id_chars(s: Seq<char>) -> bool {
    forall|i: int| 0 <= i < s.len() ==> is_id_char(#[trigger] s[i])
}

/// Whether `s` is an acceptable identifier: between 1 and 256 characters,
/// each of them an identifier character.
pub open spec fn valid_id(s: Seq<char>) -> bool {
    1 <= s.len() <= MAX_ID_LEN && all_id_chars(s)
}

/// The error for an unacceptable identifier. The checks are made in this
/// order: empty, too long, a character that is not allowed.
pub open spec fn id_error(id: Seq<char>, label: Seq<char>) -> ErrorView {
    if id.len() == 0 {
        ErrorView::InvalidInput(label + " must not be empty"@)
    } else if id.len() > MAX_ID_LEN {
        ErrorView::InvalidInput(label + " is too long"@)
    } else {
        ErrorView::InvalidInput(
            label
                + " contains invalid characters (only alphanumeric, hyphens, underscores allowed)"@,
        )
    }
}

pub fn char_is_id_char(c: char) -> (r: bool)
    ensures
        r == is_id_char(c),
{
    (c >= 'a' && c <= 'z') || (c >= 'A' && c <= 'Z') || (c >= '0' && c <= '9') || c == '-' || c
        == '_'
}

/// Accepts `id` if it is an acceptable identifier and refuses it otherwise.
/// `label` names the identifier in the error text.
pub fn validate_safe_id(id: &str, label: &str) -> (r: Result<(), AppError>)
    ensures
        r is Ok <==> valid_id(id@),
        r matches Err(e) ==> e@ == id_error(id@, label@),
{
    let n = id.unicode_len();
    if n == 0 {
        return Err(AppError::InvalidInput(joined(label, " must not be empty")));
    }
    if n > MAX_ID_LEN {
        return Err(AppError::InvalidInput(joined(label, " is too long")));
    }
    for c in it: id.chars()
        invariant
            it.seq() == id@,
            1 <= id@.len() <= MAX_ID_LEN,
            forall|j: int| 0 <= j < it.index() ==> is_id_char(#[trigger] id@[j]),
    {
        if !char_is_id_char(c) {
            assert(!is_id_char(id@[it.index() as int]));
            return Err(
                AppError::InvalidInput(
                    joined(
                        label,
                        " contains invalid characters (only alphanumeric, hyphens, underscores allowed)",
                    ),
                ),
            );
        }
    }
    Ok(())
}

/// What was found at a workspace path.
#[derive(Debug, Clone, Copy, PartialEq, Eq)]
pub enum PathKind {
    /// Nothing is there.
    Missing,
    /// Something is there that is not a directory.
    NotDirectory,
    /// A directory is there.
    Directory,
}

/// The error for a workspace path that is not an existing directory.
pub open spec fn workspace_path_error(p: Seq<char>, found: PathKind) -> ErrorView {
    if found == PathKind::Missing {
        ErrorView::NotFound("Workspace path does not exist: "@ + p)
    } else {
        ErrorView::InvalidInput("Workspace path is not a directory: "@ + p)
    }
}

/// Accepts the workspace path `p` if a directory was found there.
pub fn validate_workspace_path(p: &str, found: PathKind) -> (r: Result<(), AppError>)
    ensures
        r is Ok <==> found == PathKind::Directory,
        r matches Err(e) ==> e@ == workspace_path_error(p@, found),
{
    match found {
        PathKind::Missing => Err(
            AppError::NotFound(joined("Workspace path does not exist: ", p)),
        ),
        PathKind::NotDirectory => Err(
            AppError::InvalidInput(joined("Workspace path is not a directory: ", p)),
        ),
        PathKind::Directory => Ok(()),
    }
}

} // verus!
