//! The errors this library reports, and the text shown for each. An error
//! has a class and a text. Checks on identifiers and workspaces, and the
//! start of a server, show both; the work on the state file and on the
//! transcripts shows the text alone.

use crate::text::{decimal, joined, render_decimal};
use vstd::prelude::*;

verus! {

/// Why an operation was refused or failed.
#[derive(Debug, PartialEq, Eq)]
pub enum AppError {
    /// A file could not be read, written, renamed or removed.
    Io(String),
    /// Structured data was malformed: a handshake line, the state document
    /// or a transcript line.
    Json(String),
    /// The server did not announce itself within this many seconds.
    ServerTimeout(u64),
    /// An identifier, a path or a direction was malformed. Such input is
    /// refused before anything is touched.
    InvalidInput(String),
    /// Something that has to exist does not.
    NotFound(String),
    /// A server process could not be started or examined.
    Process(String),
}

/// What an `AppError` holds, as mathematical values.
pub enum ErrorView {
    Io(Seq<char>),
    Json(Seq<char>),
    ServerTimeout(u64),
    InvalidInput(Seq<char>),
    NotFound(Seq<char>),
    Process(Seq<char>),
}

impl View for AppError {
    type V = ErrorView;

    open spec fn view(&self) -> ErrorView {
        match self {
            AppError::Io(s) => ErrorView::Io(s@),
            AppError::Json(s) => ErrorView::Json(s@),
            AppError::ServerTimeout(n) => ErrorView::ServerTimeout(*n),
            AppError::InvalidInput(s) => ErrorView::InvalidInput(s@),
            AppError::NotFound(s) => ErrorView::NotFound(s@),
            AppError::Process(s) => ErrorView::Process(s@),
        }
    }
}

/// The text shown to the user for an error.
pub open spec fn message_of(e: ErrorView) -> Seq<char> {
    match e {
        ErrorView::Io(s) => "IO error: "@ + s,
        ErrorView::Json(s) => "JSON error: "@ + s,
        ErrorView::ServerTimeout(n) => "Server startup timed out after "@ + decimal(n as nat)
            + " seconds"@,
        ErrorView::InvalidInput(s) => "Invalid input: "@ + s,
        ErrorView::NotFound(s) => "Not found: "@ + s,
        ErrorView::Process(s) => "Process error: "@ + s,
    }
}

/// The text of an error by itself, without its class in front. A timeout
/// has no text of its own, so its message stands for it.
pub open spec fn detail_of(e: ErrorView) -> Seq<char> {
    match e {
        ErrorView::Io(s) => s,
        ErrorView::Json(s) => s,
        ErrorView::ServerTimeout(_) => message_of(e),
        ErrorView::InvalidInput(s) => s,
        ErrorView::NotFound(s) => s,
        ErrorView::Process(s) => s,
    }
}

/// A failure as a command reports it: what went wrong, and how it is worded
/// for the user.
#[derive(Debug, PartialEq, Eq)]
pub struct Failure {
    /// What went wrong.
    pub error: AppError,
    /// Whether the text shown names the class of the error, as in
    /// `Invalid input: ...`, or is the text of the error by itself.
    pub classed: bool,
}

/// What a `Failure` holds, as mathematical values.
pub struct FailureView {
    pub error: ErrorView,
    pub classed: bool,
}

impl View for Failure {
    type V = FailureView;

    open spec fn view(&self) -> FailureView {
        FailureView { error: self.error@, classed: self.classed }
    }
}

/// The failure that is shown with the class of its error.
pub open spec fn classed(error: ErrorView) -> FailureView {
    FailureView { error, classed: true }
}

/// The failure that is shown as the text of its error by itself.
pub open spec fn plain(error: ErrorView) -> FailureView {
    FailureView { error, classed: false }
}

/// The text shown to the user for a failure.
pub open spec fn shown_of(f: FailureView) -> Seq<char> {
    if f.classed {
        message_of(f.error)
    } else {
        detail_of(f.error)
    }
}

impl Failure {
    /// The failure that is shown with the class of its error.
    pub fn classed(error: AppError) -> (r: Failure)
        ensures
            r.error == error,
            r@ == classed(error@),
    {
        Failure { error, classed: true }
    }

    /// The failure that is shown as the text of its error by itself.
    pub fn plain(error: AppError) -> (r: Failure)
        ensures
            r.error == error,
            r@ == plain(error@),
    {
        Failure { error, classed: false }
    }

    /// The text shown to the user for this failure.
    pub fn shown(&self) -> (r: String)
        ensures
            r@ == shown_of(self@),
    {
        if self.classed {
            self.error.message()
        } else {
            match &self.error {
                AppError::Io(s) => s.clone(),
                AppError::Json(s) => s.clone(),
                AppError::ServerTimeout(_) => self.error.message(),
                AppError::InvalidInput(s) => s.clone(),
                AppError::NotFound(s) => s.clone(),
                AppError::Process(s) => s.clone(),
            }
        }
    }
}

impl AppError {
    /// The text shown to the user for this error, with its class in front.
    pub fn message(&self) -> (r: String)
        ensures
            r@ == message_of(self@),
    {
        match self {
            AppError::Io(s) => joined("IO error: ", s.as_str()),
            AppError::Json(s) => joined("JSON error: ", s.as_str()),
            AppError::ServerTimeout(n) => {
                let number = render_decimal(*n);
                let mut out = joined("Server startup timed out after ", number.as_str());
                out.append(" seconds");
                out
            },
            AppError::InvalidInput(s) => joined("Invalid input: ", s.as_str()),
            AppError::NotFound(s) => joined("Not found: ", s.as_str()),
            AppError::Process(s) => joined("Process error: ", s.as_str()),
        }
    }
}

} // verus!
