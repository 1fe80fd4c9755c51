//! The startup handshake: a freshly started server announces itself with one
//! line on its standard output, and that line has to arrive in time.

use crate::error::{AppError, ErrorView};
use crate::text::{joined, trim, trimmed};
use vstd::prelude::*;

verus! {

/// How long a server gets to announce itself, in seconds.
pub const SERVER_STARTUP_TIMEOUT_SECS: u64 = 15;

/// What a server announces once it listens. Only the URL is used; the other
/// fields are carried along.
#[derive(Debug)]
pub struct ServerListening {
    /// The kind of message.
    pub kind: String,
    /// Where the server can be reached.
    pub url: String,
    /// The port it listens on.
    pub port: u16,
    /// The directory it serves.
    pub cwd: String,
}

/// How the wait for the first line of a server ended.
#[derive(Debug)]
pub enum HandshakeReport {
    /// The output of the process could not be captured, so no line can
    /// arrive.
    Uncaptured,
    /// No line arrived within the timeout.
    TimedOut,
    /// The output ended, or could not be read, before a line arrived.
    Closed,
    /// A line arrived that is not a valid announcement; the text says why.
    Malformed(String),
    /// A valid announcement arrived.
    Announced(ServerListening),
}

/// The part of the first line that is decoded: the line without the white
/// space around it.
pub fn handshake_payload(line: &str) -> (r: String)
    ensures
        r@ == trimmed(line@),
{
    trim(line)
}

/// The error a failed handshake is reported with; none for an announcement.
pub open spec fn handshake_error(report: HandshakeReport) -> Option<ErrorView> {
    match report {
        HandshakeReport::Uncaptured => Some(ErrorView::Process("Failed to capture server stdout"@)),
        HandshakeReport::TimedOut => Some(ErrorView::ServerTimeout(SERVER_STARTUP_TIMEOUT_SECS)),
        HandshakeReport::Closed => Some(
            ErrorView::Process("Failed to read server startup line: server stdout reader closed"@),
        ),
        HandshakeReport::Malformed(why) => Some(
            ErrorView::Json("Failed to parse server startup JSON: "@ + why@),
        ),
        HandshakeReport::Announced(_) => None,
    }
}

/// The URL a handshake yields, or the error it failed with. A timeout and a
/// malformed line are told apart.
pub fn handshake_verdict(report: HandshakeReport) -> (r: Result<String, AppError>)
    ensures
        match report {
            HandshakeReport::Announced(listening) => r == Ok::<String, AppError>(listening.url),
            _ => r matches Err(e) && Some(e@) == handshake_error(report),
        },
{
    match report {
        HandshakeReport::Uncaptured => Err(
            AppError::Process("Failed to capture server stdout".to_owned()),
        ),
        HandshakeReport::TimedOut => Err(AppError::ServerTimeout(SERVER_STARTUP_TIMEOUT_SECS)),
        HandshakeReport::Closed => Err(
            AppError::Process(
                "Failed to read server startup line: server stdout reader closed".to_owned(),
            ),
        ),
        HandshakeReport::Malformed(why) => Err(
            AppError::Json(joined("Failed to parse server startup JSON: ", why.as_str())),
        ),
        HandshakeReport::Announced(listening) => Ok(listening.url),
    }
}

} // verus!
