//! How a workspace server is launched: from source during development or
//! from the bundled binary, with which arguments and environment, and how
//! the failures on the way are reported.

use crate::error::{AppError, ErrorView};
use crate::text::{joined, same_text, texts};
use vstd::prelude::*;

verus! {

/// Whether the server is run from source: always in a debug build, and in
/// any build whose override variable is set to `1`.
pub fn use_source(debug_build: bool, flag: Option<&str>) -> (r: bool)
    ensures
        r == (debug_build || (flag matches Some(value) && value@ == "1"@)),
{
    if debug_build {
        return true;
    }
    match flag {
        Some(value) => same_text(value, "1"),
        None => false,
    }
}

/// The environment variable that asks for the server to be run from source.
pub fn use_source_variable() -> (r: &'static str)
    ensures
        r@ == "COWORK_DESKTOP_USE_SOURCE"@,
{
    "COWORK_DESKTOP_USE_SOURCE"
}

/// The program that runs the server from source.
pub fn source_program() -> (r: &'static str)
    ensures
        r@ == "bun"@,
{
    "bun"
}

/// The server's entry script, from the repository root.
pub fn server_entry() -> (r: &'static str)
    ensures
        r@ == "src/server/index.ts"@,
{
    "src/server/index.ts"
}

/// The directory of the built-in files, in the resource directory.
pub fn bundled_dist_name() -> (r: &'static str)
    ensures
        r@ == "dist"@,
{
    "dist"
}

/// The arguments every server is started with: the workspace directory,
/// port 0 so that the server picks a free port, the request for a one-line
/// announcement, and the unrestricted mode if it is wanted.
pub open spec fn server_arguments(workspace_path: Seq<char>, yolo: bool) -> Seq<Seq<char>> {
    let fixed = seq!["--dir"@, workspace_path, "--port"@, "0"@, "--json"@];
    if yolo {
        fixed.push("--yolo"@)
    } else {
        fixed
    }
}

/// The arguments a server for `workspace_path` is started with.
pub fn server_args(workspace_path: &str, yolo: bool) -> (r: Vec<String>)
    ensures
        texts(r@) == server_arguments(workspace_path@, yolo),
{
    let mut args: Vec<String> = Vec::new();
    args.push("--dir".to_owned());
    args.push(workspace_path.to_owned());
    args.push("--port".to_owned());
    args.push("0".to_owned());
    args.push("--json".to_owned());
    if yolo {
        args.push("--yolo".to_owned());
    }
    assert(texts(args@) == server_arguments(workspace_path@, yolo));
    args
}

/// The environment a bundled server is started with, as names and values:
/// where the built-in files are, and that it runs from the bundle.
pub open spec fn bundle_variables(dist: Seq<char>) -> Seq<(Seq<char>, Seq<char>)> {
    seq![("COWORK_BUILTIN_DIR"@, dist), ("COWORK_DESKTOP_BUNDLE"@, "1"@)]
}

/// The names and values of a list of variables.
pub open spec fn variables(v: Seq<(String, String)>) -> Seq<(Seq<char>, Seq<char>)> {
    Seq::new(v.len(), |i: int| (v[i].0@, v[i].1@))
}

/// The environment a bundled server is started with; `dist` is the
/// directory of the built-in files.
pub fn bundle_environment(dist: &str) -> (r: Vec<(String, String)>)
    ensures
        variables(r@) == bundle_variables(dist@),
{
    let mut env: Vec<(String, String)> = Vec::new();
    env.push(("COWORK_BUILTIN_DIR".to_owned(), dist.to_owned()));
    env.push(("COWORK_DESKTOP_BUNDLE".to_owned(), "1".to_owned()));
    assert(variables(env@) == bundle_variables(dist@));
    env
}

/// Accepts the server's entry script if it exists. `display` is its path as
/// shown to the user.
pub fn require_entrypoint(display: &str, exists: bool) -> (r: Result<(), AppError>)
    ensures
        r is Ok <==> exists,
        r matches Err(e) ==> e@ == ErrorView::NotFound("Server entrypoint not found: "@ + display@),
{
    if exists {
        Ok(())
    } else {
        Err(AppError::NotFound(joined("Server entrypoint not found: ", display)))
    }
}

/// Accepts the directory of the built-in files if it exists. `display` is
/// its path as shown to the user.
pub fn require_bundled_dist(display: &str, exists: bool) -> (r: Result<(), AppError>)
    ensures
        r is Ok <==> exists,
        r matches Err(e) ==> e@ == ErrorView::NotFound(
            "Bundled dist directory not found: "@ + display@,
        ),
{
    if exists {
        Ok(())
    } else {
        Err(AppError::NotFound(joined("Bundled dist directory not found: ", display)))
    }
}

/// What went wrong before a server process was started.
#[derive(Debug, PartialEq, Eq)]
pub enum StartFault {
    /// The resource directory is not known; the text says why.
    ResourceDir(String),
    /// The process could not be started; the text says why.
    Spawn(String),
}

/// The error a fault is reported with.
pub open spec fn fault_error(fault: StartFault) -> ErrorView {
    match fault {
        StartFault::ResourceDir(why) => ErrorView::Process(
            "Failed to resolve resource dir: "@ + why@,
        ),
        StartFault::Spawn(why) => ErrorView::Process("Failed to spawn server process: "@ + why@),
    }
}

/// The error a fault is reported with.
pub fn start_fault(fault: StartFault) -> (r: AppError)
    ensures
        r@ == fault_error(fault),
{
    match fault {
        StartFault::ResourceDir(why) => AppError::Process(
            joined("Failed to resolve resource dir: ", why.as_str()),
        ),
        StartFault::Spawn(why) => AppError::Process(
            joined("Failed to spawn server process: ", why.as_str()),
        ),
    }
}

} // verus!
