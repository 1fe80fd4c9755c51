//! The names of the files and directories the application keeps, and the
//! choice of the repository root.

use crate::error::{plain, AppError, ErrorView, Failure};
use crate::text::joined;
use crate::validate::{id_error, is_id_char, valid_id, validate_safe_id};
use vstd::prelude::*;

verus! {

/// Where the repository root lies, seen from the directory of the
/// application's package.
pub fn repo_root_from_package() -> (r: &'static str)
    ensures
        r@ == "../../.."@,
{
    "../../.."
}

/// The repository root: the canonical form of the path where there is one,
/// else the path `base` as it was given.
pub fn repo_root(base: String, canonical: Option<String>) -> (r: String)
    ensures
        r == (match canonical {
            Some(c) => c,
            None => base,
        }),
{
    match canonical {
        Some(c) => c,
        None => base,
    }
}

/// The failure for a data directory that is not known; the text says why.
pub fn data_dir_unknown(why: &str) -> (r: Failure)
    ensures
        r@ == plain(ErrorView::Io("Failed to resolve app data dir: "@ + why@)),
{
    Failure::plain(AppError::Io(joined("Failed to resolve app data dir: ", why)))
}

/// The file that holds the application state, in the data directory.
pub fn state_file_name() -> (r: &'static str)
    ensures
        r@ == "state.json"@,
{
    "state.json"
}

/// The file that a new state document is written to before it replaces the
/// state file.
pub fn state_temp_name() -> (r: &'static str)
    ensures
        r@ == "state.json.tmp"@,
{
    "state.json.tmp"
}

/// The directory that holds the transcripts, in the data directory.
pub fn transcripts_dir_name() -> (r: &'static str)
    ensures
        r@ == "transcripts"@,
{
    "transcripts"
}

/// The name of the transcript file of a thread.
pub open spec fn transcript_file_name(thread_id: Seq<char>) -> Seq<char> {
    thread_id + ".jsonl"@
}

/// Whether a file name stays inside its directory: it is not empty, holds no
/// path separator and does not begin with a dot.
pub open spec fn is_plain_file_name(name: Seq<char>) -> bool {
    &&& name.len() > 0
    &&& name[0] != '.'
    &&& forall|i: int| 0 <= i < name.len() ==> name[i] != '/' && name[i] != '\\'
}

/// The name of the transcript file of a thread, in the transcripts
/// directory. The identifier is checked first, so no caller gets a file name
/// for an identifier that was not validated.
pub fn transcript_file_path(thread_id: &str) -> (r: Result<String, AppError>)
    ensures
        r is Ok <==> valid_id(thread_id@),
        r matches Ok(name) ==> name@ == transcript_file_name(thread_id@),
        r matches Err(e) ==> e@ == id_error(thread_id@, "thread_id"@),
{
    match validate_safe_id(thread_id, "thread_id") {
        Ok(()) => Ok(joined(thread_id, ".jsonl")),
        Err(e) => Err(e),
    }
}

/// The transcript file of a valid identifier lies in the transcripts
/// directory itself: its name holds no path separator and is neither `.` nor
/// `..` nor hidden.
pub proof fn law_transcript_file_stays_in_directory(thread_id: Seq<char>)
    requires
        valid_id(thread_id),
    ensures
        is_plain_file_name(transcript_file_name(thread_id)),
{
    reveal_strlit(".jsonl");
    let name = transcript_file_name(thread_id);
    assert(is_id_char(thread_id[0]));
    assert(name[0] == thread_id[0]);
    assert forall|i: int| 0 <= i < name.len() implies name[i] != '/' && name[i] != '\\' by {
        if i < thread_id.len() {
            assert(is_id_char(thread_id[i]));
            assert(name[i] == thread_id[i]);
        } else {
            assert(name[i] == ".jsonl"@[i - thread_id.len()]);
        }
    }
}

} // verus!
