//! Finding the bundled server binary: its file name on each platform, the
//! directories searched, and the choice among what was found there.

use crate::error::{AppError, ErrorView};
use crate::text::{ends_with, has_prefix, has_suffix, joined, same_text, starts_with};
use vstd::prelude::*;

verus! {

/// The name of the server binary, without platform suffix.
pub open spec fn base_name() -> Seq<char> {
    "cowork-server"@
}

/// The file name of the server binary: the base name, with `.exe` on Windows.
pub open spec fn exact_filename(windows: bool) -> Seq<char> {
    if windows {
        base_name() + ".exe"@
    } else {
        base_name()
    }
}

/// Whether a file name is taken for the server binary: the exact name, or
/// the base name followed by a hyphen and a target suffix (which on Windows
/// must end in `.exe`).
pub open spec fn matches_filename(name: Seq<char>, windows: bool) -> bool {
    if windows {
        name == base_name() + ".exe"@ || (has_prefix(name, base_name() + "-"@) && has_suffix(
            name,
            ".exe"@,
        ))
    } else {
        name == base_name() || has_prefix(name, base_name() + "-"@)
    }
}

pub fn sidecar_base_name() -> (r: &'static str)
    ensures
        r@ == base_name(),
{
    "cowork-server"
}

pub fn sidecar_exact_filename(windows: bool) -> (r: String)
    ensures
        r@ == exact_filename(windows),
{
    if windows {
        joined(sidecar_base_name(), ".exe")
    } else {
        sidecar_base_name().to_owned()
    }
}

pub fn sidecar_matches_filename(name: &str, windows: bool) -> (r: bool)
    ensures
        r == matches_filename(name@, windows),
{
    let base = sidecar_base_name();
    let hyphenated = joined(base, "-");
    if windows {
        let exact = joined(base, ".exe");
        if same_text(name, exact.as_str()) {
            return true;
        }
        return starts_with(name, hyphenated.as_str()) && ends_with(name, ".exe");
    }
    if same_text(name, base) {
        return true;
    }
    starts_with(name, hyphenated.as_str())
}

/// A directory in which the server binary is looked for.
#[derive(Debug, Clone, Copy, PartialEq, Eq)]
pub enum SearchDir {
    /// The application's resource directory.
    Resources,
    /// `binaries` under the resource directory.
    ResourcesBinaries,
    /// The directory of the running executable.
    ExeDir,
    /// `binaries` under the directory of the running executable.
    ExeDirBinaries,
    /// `Resources` beside the executable's directory, as in a macOS bundle.
    BundleResources,
    /// `binaries` under the bundle's `Resources`.
    BundleResourcesBinaries,
}

/// A directory the caller knows, below which the search looks.
#[derive(Debug, Clone, Copy, PartialEq, Eq)]
pub enum SearchBase {
    /// The application's resource directory.
    Resources,
    /// The directory of the running executable.
    ExeDir,
    /// The parent of the directory of the running executable: the contents
    /// of a macOS bundle.
    BundleContents,
}

/// Where a searched directory lies: the directory it is found from, and the
/// names that lead from there to it.
pub open spec fn place_of(dir: SearchDir) -> (SearchBase, Seq<Seq<char>>) {
    match dir {
        SearchDir::Resources => (SearchBase::Resources, Seq::<Seq<char>>::empty()),
        SearchDir::ResourcesBinaries => (SearchBase::Resources, seq!["binaries"@]),
        SearchDir::ExeDir => (SearchBase::ExeDir, Seq::<Seq<char>>::empty()),
        SearchDir::ExeDirBinaries => (SearchBase::ExeDir, seq!["binaries"@]),
        SearchDir::BundleResources => (SearchBase::BundleContents, seq!["Resources"@]),
        SearchDir::BundleResourcesBinaries => (
            SearchBase::BundleContents,
            seq!["Resources"@, "binaries"@],
        ),
    }
}

/// The views of a list of names.
pub open spec fn names(v: Seq<&'static str>) -> Seq<Seq<char>> {
    Seq::new(v.len(), |i: int| v[i]@)
}

/// Where a searched directory lies.
pub fn search_dir_place(dir: SearchDir) -> (r: (SearchBase, Vec<&'static str>))
    ensures
        (r.0, names(r.1@)) == place_of(dir),
{
    let mut below: Vec<&'static str> = Vec::new();
    let base = match dir {
        SearchDir::Resources => SearchBase::Resources,
        SearchDir::ResourcesBinaries => {
            below.push("binaries");
            SearchBase::Resources
        },
        SearchDir::ExeDir => SearchBase::ExeDir,
        SearchDir::ExeDirBinaries => {
            below.push("binaries");
            SearchBase::ExeDir
        },
        SearchDir::BundleResources => {
            below.push("Resources");
            SearchBase::BundleContents
        },
        SearchDir::BundleResourcesBinaries => {
            below.push("Resources");
            below.push("binaries");
            SearchBase::BundleContents
        },
    };
    assert(names(below@) == place_of(dir).1);
    (base, below)
}

/// The environment variable that names the server binary outright.
pub fn sidecar_override_variable() -> (r: &'static str)
    ensures
        r@ == "COWORK_DESKTOP_SIDECAR_PATH"@,
{
    "COWORK_DESKTOP_SIDECAR_PATH"
}

/// The directories searched, in the order of the search.
pub open spec fn search_dirs(resources: bool, exe_dir: bool, bundle: bool) -> Seq<SearchDir> {
    (if resources {
        seq![SearchDir::Resources, SearchDir::ResourcesBinaries]
    } else {
        Seq::<SearchDir>::empty()
    }) + (if exe_dir {
        seq![SearchDir::ExeDir, SearchDir::ExeDirBinaries]
    } else {
        Seq::<SearchDir>::empty()
    }) + (if exe_dir && bundle {
        seq![SearchDir::BundleResources, SearchDir::BundleResourcesBinaries]
    } else {
        Seq::<SearchDir>::empty()
    })
}

/// The directories to search. `resources` says that the resource directory
/// is known, `exe_dir` that the running executable has a parent directory,
/// and `bundle` that this is macOS and that directory has a parent of its own.
pub fn sidecar_search_dirs(resources: bool, exe_dir: bool, bundle: bool) -> (r: Vec<SearchDir>)
    ensures
        r@ == search_dirs(resources, exe_dir, bundle),
{
    let mut dirs: Vec<SearchDir> = Vec::new();
    if resources {
        dirs.push(SearchDir::Resources);
        dirs.push(SearchDir::ResourcesBinaries);
    }
    if exe_dir {
        dirs.push(SearchDir::ExeDir);
        dirs.push(SearchDir::ExeDirBinaries);
        if bundle {
            dirs.push(SearchDir::BundleResources);
            dirs.push(SearchDir::BundleResourcesBinaries);
        }
    }
    dirs
}

/// What was found in one searched directory.
#[derive(Debug)]
pub struct SidecarDir {
    /// Whether a file with the exact name of the binary is there.
    pub has_exact: bool,
    /// The names of the regular files there, in the order the directory
    /// lists them; empty if the directory cannot be read.
    pub files: Vec<String>,
}

/// Which binary the search settled on.
#[derive(Debug, Clone, Copy, PartialEq, Eq)]
pub enum SidecarChoice {
    /// The path given by the override variable.
    Override,
    /// The file with the exact name in the directory at this index.
    Exact { dir: usize },
    /// The file at index `file` of the directory at index `dir`.
    Suffixed { dir: usize, file: usize },
}

/// Whether the file at `(dir, file)` exists in the listing and is taken for
/// the server binary.
pub open spec fn is_candidate(dirs: Seq<SidecarDir>, dir: int, file: int, windows: bool) -> bool {
    &&& 0 <= dir < dirs.len()
    &&& 0 <= file < dirs[dir].files@.len()
    &&& matches_filename(dirs[dir].files@[file]@, windows)
}

/// The error when no binary is found.
pub open spec fn sidecar_missing(windows: bool) -> ErrorView {
    ErrorView::NotFound(
        "Server sidecar binary not found (expected "@ + exact_filename(windows) + ")"@,
    )
}

/// What `find_sidecar_binary` returns: the override if it was found; else
/// the first directory that holds the exact name; else the first file, in
/// the order of directories and of their listings, whose name is taken for
/// the binary; else an error.
pub open spec fn sidecar_found(
    override_found: bool,
    dirs: Seq<SidecarDir>,
    windows: bool,
    r: Result<SidecarChoice, AppError>,
) -> bool {
    if override_found {
        r == Ok::<SidecarChoice, AppError>(SidecarChoice::Override)
    } else {
        match r {
            Ok(SidecarChoice::Override) => false,
            Ok(SidecarChoice::Exact { dir }) => {
                &&& dir < dirs.len()
                &&& dirs[dir as int].has_exact
                &&& forall|i: int| 0 <= i < dir ==> !(#[trigger] dirs[i]).has_exact
            },
            Ok(SidecarChoice::Suffixed { dir, file }) => {
                &&& forall|i: int| 0 <= i < dirs.len() ==> !(#[trigger] dirs[i]).has_exact
                &&& is_candidate(dirs, dir as int, file as int, windows)
                &&& forall|i: int, j: int|
                    (i < dir || (i == dir && j < file)) ==> !#[trigger] is_candidate(
                        dirs,
                        i,
                        j,
                        windows,
                    )
            },
            Err(e) => {
                &&& forall|i: int| 0 <= i < dirs.len() ==> !(#[trigger] dirs[i]).has_exact
                &&& forall|i: int, j: int| !#[trigger] is_candidate(dirs, i, j, windows)
                &&& e@ == sidecar_missing(windows)
            },
        }
    }
}

/// Chooses the server binary from what the search found.
pub fn find_sidecar_binary(override_found: bool, dirs: &Vec<SidecarDir>, windows: bool) -> (r:
    Result<SidecarChoice, AppError>)
    ensures
        sidecar_found(override_found, dirs@, windows, r),
{
    if override_found {
        return Ok(SidecarChoice::Override);
    }
    let mut d: usize = 0;
    while d < dirs.len()
        invariant
            !override_found,
            d <= dirs@.len(),
            forall|i: int| 0 <= i < d ==> !(#[trigger] dirs@[i]).has_exact,
        decreases dirs@.len() - d,
    {
        if dirs[d].has_exact {
            return Ok(SidecarChoice::Exact { dir: d });
        }
        d += 1;
    }
    let mut d: usize = 0;
    while d < dirs.len()
        invariant
            !override_found,
            d <= dirs@.len(),
            forall|i: int| 0 <= i < dirs@.len() ==> !(#[trigger] dirs@[i]).has_exact,
            forall|i: int, j: int| i < d ==> !#[trigger] is_candidate(dirs@, i, j, windows),
        decreases dirs@.len() - d,
    {
        let mut f: usize = 0;
        while f < dirs[d].files.len()
            invariant
                !override_found,
                d < dirs@.len(),
                f <= dirs@[d as int].files@.len(),
                forall|i: int| 0 <= i < dirs@.len() ==> !(#[trigger] dirs@[i]).has_exact,
                forall|i: int, j: int|
                    (i < d || (i == d && j < f)) ==> !#[trigger] is_candidate(
                        dirs@,
                        i,
                        j,
                        windows,
                    ),
            decreases dirs@[d as int].files@.len() - f,
        {
            if sidecar_matches_filename(dirs[d].files[f].as_str(), windows) {
                return Ok(SidecarChoice::Suffixed { dir: d, file: f });
            }
            f += 1;
        }
        d += 1;
    }
    let expected = sidecar_exact_filename(windows);
    let mut text = joined("Server sidecar binary not found (expected ", expected.as_str());
    text.append(")");
    Err(AppError::NotFound(text))
}

} // verus!
