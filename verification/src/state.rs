//! The application state: one versioned document that is read and written
//! as a whole. A new document is written to a temporary file and renamed
//! over the state file only when the write has succeeded.

use crate::error::{classed, plain, AppError, ErrorView, Failure, FailureView};
use crate::text::joined;
use vstd::prelude::*;

verus! {

/// A workspace the user has opened.
#[derive(Debug, PartialEq, Eq)]
pub struct WorkspaceRecord {
    pub id: String,
    pub name: String,
    pub path: String,
    pub created_at: String,
    pub last_opened_at: String,
    pub default_provider: Option<String>,
    pub default_model: Option<String>,
    pub default_enable_mcp: bool,
    pub yolo: bool,
}

/// A conversation thread of a workspace.
#[derive(Debug, PartialEq, Eq)]
pub struct ThreadRecord {
    pub id: String,
    pub workspace_id: String,
    pub title: String,
    pub created_at: String,
    pub last_message_at: String,
    pub status: String,
}

/// The application state.
#[derive(Debug, PartialEq, Eq)]
pub struct PersistedState {
    /// The version of the document's layout; never 0 once loaded.
    pub version: u32,
    pub workspaces: Vec<WorkspaceRecord>,
    pub threads: Vec<ThreadRecord>,
}

/// What was found of the state file.
#[derive(Debug, PartialEq, Eq)]
pub enum StateFile {
    /// There is no state file yet.
    Missing,
    /// The file could not be read; the text says why.
    Unreadable(String),
    /// The file does not hold a state document; the text says why.
    Malformed(String),
    /// The document the file holds.
    Parsed(PersistedState),
}

/// The version a document has once it is loaded: version 0 becomes version
/// 1, any other version stays.
pub open spec fn normal_version(version: u32) -> u32 {
    if version == 0 {
        1
    } else {
        version
    }
}

/// What `load_state` returns: for a missing file an empty document of
/// version 1; for a document, the same document with its version made
/// normal; an error for a file that could not be read or understood.
pub open spec fn loads_as(file: StateFile, r: Result<PersistedState, Failure>) -> bool {
    match file {
        StateFile::Missing => {
            &&& r matches Ok(doc)
            &&& doc.version == 1
            &&& doc.workspaces@.len() == 0
            &&& doc.threads@.len() == 0
        },
        StateFile::Unreadable(why) => r matches Err(f) && f@ == plain(
            ErrorView::Io("Failed to read state file: "@ + why@),
        ),
        StateFile::Malformed(why) => r matches Err(f) && f@ == plain(
            ErrorView::Json("Failed to parse state file JSON: "@ + why@),
        ),
        StateFile::Parsed(doc) => r == Ok::<PersistedState, Failure>(
            PersistedState {
                version: normal_version(doc.version),
                workspaces: doc.workspaces,
                threads: doc.threads,
            },
        ),
    }
}

/// The application state, from what was found of the state file.
pub fn load_state(file: StateFile) -> (r: Result<PersistedState, Failure>)
    ensures
        loads_as(file, r),
{
    match file {
        StateFile::Missing => Ok(
            PersistedState { version: 1, workspaces: Vec::new(), threads: Vec::new() },
        ),
        StateFile::Unreadable(why) => Err(
            Failure::plain(AppError::Io(joined("Failed to read state file: ", why.as_str()))),
        ),
        StateFile::Malformed(why) => Err(
            Failure::plain(
                AppError::Json(joined("Failed to parse state file JSON: ", why.as_str())),
            ),
        ),
        StateFile::Parsed(doc) => {
            let version = if doc.version == 0 {
                1
            } else {
                doc.version
            };
            Ok(PersistedState { version, workspaces: doc.workspaces, threads: doc.threads })
        },
    }
}

/// A step of saving the state.
#[derive(Debug, Clone, Copy, PartialEq, Eq)]
pub enum SaveStage {
    /// Make sure the directory of the state file exists.
    EnsureDir,
    /// Encode the document as text.
    Encode,
    /// Write the text to the temporary file.
    WriteTemp,
    /// Rename the temporary file over the state file.
    Rename,
}

/// What follows a step of saving the state.
#[derive(Debug, PartialEq, Eq)]
pub enum SaveNext {
    /// Perform this step.
    Do(SaveStage),
    /// The document is saved.
    Saved,
    /// The save failed; the state file is as it was.
    Failed(Failure),
}

/// The failure for a step of saving that failed.
pub open spec fn save_failure(stage: SaveStage, why: Seq<char>) -> FailureView {
    match stage {
        SaveStage::EnsureDir => classed(ErrorView::Io(why)),
        SaveStage::Encode => plain(ErrorView::Json("Failed to serialize state: "@ + why)),
        SaveStage::WriteTemp => plain(ErrorView::Io("Failed to write temp state file: "@ + why)),
        SaveStage::Rename => plain(ErrorView::Io("Failed to rename state file: "@ + why)),
    }
}

/// What follows the step `stage`, given how it went: after a failure
/// nothing further is done; after a success comes the next step, and the
/// rename is the last.
pub open spec fn save_follows(stage: SaveStage, outcome: Result<(), String>, next: SaveNext) -> bool {
    match outcome {
        Err(why) => next matches SaveNext::Failed(f) && f@ == save_failure(stage, why@),
        Ok(_) => next == (match stage {
            SaveStage::EnsureDir => SaveNext::Do(SaveStage::Encode),
            SaveStage::Encode => SaveNext::Do(SaveStage::WriteTemp),
            SaveStage::WriteTemp => SaveNext::Do(SaveStage::Rename),
            SaveStage::Rename => SaveNext::Saved,
        }),
    }
}

/// The first step of saving the state.
pub fn begin_save() -> (r: SaveStage)
    ensures
        r == SaveStage::EnsureDir,
{
    SaveStage::EnsureDir
}

/// What follows the step `stage` of saving the state, given how it went.
pub fn save_state(stage: SaveStage, outcome: Result<(), String>) -> (next: SaveNext)
    ensures
        save_follows(stage, outcome, next),
{
    match outcome {
        Err(why) => SaveNext::Failed(
            match stage {
                SaveStage::EnsureDir => Failure::classed(AppError::Io(why)),
                SaveStage::Encode => Failure::plain(
                    AppError::Json(joined("Failed to serialize state: ", why.as_str())),
                ),
                SaveStage::WriteTemp => Failure::plain(
                    AppError::Io(joined("Failed to write temp state file: ", why.as_str())),
                ),
                SaveStage::Rename => Failure::plain(
                    AppError::Io(joined("Failed to rename state file: ", why.as_str())),
                ),
            },
        ),
        Ok(()) => match stage {
            SaveStage::EnsureDir => SaveNext::Do(SaveStage::Encode),
            SaveStage::Encode => SaveNext::Do(SaveStage::WriteTemp),
            SaveStage::WriteTemp => SaveNext::Do(SaveStage::Rename),
            SaveStage::Rename => SaveNext::Saved,
        },
    }
}

/// The two files of the store, as the text each holds, if it exists.
pub struct StoreFiles {
    /// The state file.
    pub committed: Option<Seq<char>>,
    /// The temporary file.
    pub staged: Option<Seq<char>>,
}

/// The files after the step `stage` of saving `text`. A write that fails
/// may leave any text `debris` in the temporary file; a rename that fails
/// changes nothing; the other steps do not touch the two files.
pub open spec fn files_after(
    files: StoreFiles,
    stage: SaveStage,
    text: Seq<char>,
    succeeded: bool,
    debris: Option<Seq<char>>,
) -> StoreFiles {
    match stage {
        SaveStage::WriteTemp => StoreFiles {
            committed: files.committed,
            staged: if succeeded {
                Some(text)
            } else {
                debris
            },
        },
        SaveStage::Rename => if succeeded {
            StoreFiles { committed: files.staged, staged: None }
        } else {
            files
        },
        _ => files,
    }
}

/// A loaded document is returned as it was decoded. Loading changes nothing
/// but a version of 0, so a document with another version that is saved and
/// decoded again is loaded as the document that was saved.
pub proof fn law_load_returns_the_document(doc: PersistedState, r: Result<PersistedState, Failure>)
    requires
        doc.version != 0,
        loads_as(StateFile::Parsed(doc), r),
    ensures
        r == Ok::<PersistedState, Failure>(doc),
{
}

/// The files after a save of `text` has gone as far as it gets: the write,
/// and after a write that succeeded the rename.
pub open spec fn files_after_save(
    files: StoreFiles,
    text: Seq<char>,
    wrote: bool,
    renamed: bool,
    debris: Option<Seq<char>>,
) -> StoreFiles {
    let written = files_after(files, SaveStage::WriteTemp, text, wrote, debris);
    if wrote {
        files_after(written, SaveStage::Rename, text, renamed, debris)
    } else {
        written
    }
}

/// Saving is all or nothing. If the write and the rename succeed, the state
/// file holds the new text, all of it. If either fails, the state file
/// holds what it held before, whatever the failed write left in the
/// temporary file.
pub proof fn law_save_is_atomic(
    files: StoreFiles,
    text: Seq<char>,
    wrote: bool,
    renamed: bool,
    debris: Option<Seq<char>>,
)
    ensures
        files_after_save(files, text, wrote, renamed, debris).committed == (if wrote && renamed {
            Some(text)
        } else {
            files.committed
        }),
{
}

/// The rename comes only after a write that succeeded, and a step that
/// failed is the last: nothing is renamed over the state file unless the
/// whole text is in the temporary file.
pub proof fn law_rename_follows_complete_write(
    stage: SaveStage,
    outcome: Result<(), String>,
    next: SaveNext,
)
    requires
        save_follows(stage, outcome, next),
    ensures
        next == SaveNext::Do(SaveStage::Rename) ==> stage == SaveStage::WriteTemp && outcome is Ok,
        outcome is Err ==> next is Failed,
        next == SaveNext::Saved ==> stage == SaveStage::Rename && outcome is Ok,
{
}

} // verus!
