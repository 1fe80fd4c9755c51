//! The transcript of a thread: an append-only file of one event per line.
//!
//! This module validates and normalizes events, frames the lines that are
//! appended, groups a batch by thread, and numbers the lines that are read
//! back. Every line of a file counts: one that holds no event, a blank one
//! too, fails the read. Encoding an event as a line and decoding a line are
//! the caller's part; so is the file itself.

use crate::error::{classed, plain, AppError, ErrorView, Failure, FailureView};
use crate::text::{
    decimal, is_white_space, joined, lemma_split_after_separator, lemma_split_extends_last_piece,
    lemma_trimmed_is_identity, lowered, push_char, render_decimal, same_text, split_lines, split_on,
    texts, to_lowered, trim, trimmed,
};
use crate::validate::{id_error, valid_id, validate_safe_id};
use vstd::prelude::*;

verus! {

/// `serde_json::Value`, a JSON value of any shape, made known so that an
/// event can hold its payload. Nothing is claimed of it: the library carries
/// payloads and never looks inside them.
#[verifier::external_type_specification]
#[verifier::external_body]
pub struct ExJsonValue(serde_json::Value);

/// One event of a transcript, as it is stored.
#[derive(Debug, PartialEq)]
pub struct TranscriptEvent {
    /// When the event happened.
    pub ts: String,
    /// The thread the event belongs to.
    pub thread_id: String,
    /// Who sent it: `server` or `client`, in lower case.
    pub direction: String,
    /// What was sent.
    pub payload: serde_json::Value,
}

/// One event of a batch, as it is handed in.
#[derive(Debug, PartialEq)]
pub struct TranscriptBatchItem {
    pub ts: String,
    pub thread_id: String,
    pub direction: String,
    pub payload: serde_json::Value,
}

/// The stored form of a direction: without the white space around it and
/// in lower case, if that is `server` or `client`; none otherwise.
pub open spec fn direction_of(direction: Seq<char>) -> Option<Seq<char>> {
    let normal = lowered(trimmed(direction));
    if normal == "server"@ || normal == "client"@ {
        Some(normal)
    } else {
        None
    }
}

/// The error for a direction that is neither `server` nor `client`.
pub open spec fn direction_error() -> ErrorView {
    ErrorView::InvalidInput("direction must be 'server' or 'client'"@)
}

/// The stored form of a direction, or the error for one that is neither
/// `server` nor `client`.
pub fn normalize_direction(direction: &str) -> (r: Result<String, AppError>)
    ensures
        match r {
            Ok(normal) => direction_of(direction@) == Some(normal@),
            Err(e) => direction_of(direction@) is None && e@ == direction_error(),
        },
{
    let stripped = trim(direction);
    let normal = to_lowered(stripped.as_str());
    if same_text(normal.as_str(), "server") || same_text(normal.as_str(), "client") {
        Ok(normal)
    } else {
        Err(AppError::InvalidInput("direction must be 'server' or 'client'".to_owned()))
    }
}

/// Why an event is refused, if it is: first for its thread identifier, then
/// for its direction.
pub open spec fn event_failure(thread_id: Seq<char>, direction: Seq<char>) -> Option<FailureView> {
    if !valid_id(thread_id) {
        Some(classed(id_error(thread_id, "thread_id"@)))
    } else if direction_of(direction) is None {
        Some(plain(direction_error()))
    } else {
        None
    }
}

/// Whether `event` is the stored form of the given fields.
pub open spec fn is_stored_form(
    event: TranscriptEvent,
    ts: String,
    thread_id: String,
    direction: String,
    payload: serde_json::Value,
) -> bool {
    &&& event.ts == ts
    &&& event.thread_id == thread_id
    &&& Some(event.direction@) == direction_of(direction@)
    &&& event.payload == payload
}

/// Checks one event and gives its stored form. An event with a malformed
/// thread identifier or direction is refused.
pub fn append_transcript_event(
    ts: String,
    thread_id: String,
    direction: String,
    payload: serde_json::Value,
) -> (r: Result<TranscriptEvent, Failure>)
    ensures
        match r {
            Ok(event) => event_failure(thread_id@, direction@) is None && is_stored_form(
                event,
                ts,
                thread_id,
                direction,
                payload,
            ),
            Err(f) => event_failure(thread_id@, direction@) == Some(f@),
        },
{
    match validate_safe_id(thread_id.as_str(), "thread_id") {
        Err(e) => Err(Failure::classed(e)),
        Ok(()) => match normalize_direction(direction.as_str()) {
            Err(e) => Err(Failure::plain(e)),
            Ok(normal) => Ok(TranscriptEvent { ts, thread_id, direction: normal, payload }),
        },
    }
}

/// A transcript after the line `line` is appended to it: the line and a
/// line feed follow what was there.
pub open spec fn appended(content: Seq<char>, line: Seq<char>) -> Seq<char> {
    content + line.push('\n')
}

/// What is written to the file for one encoded event: the line and a line
/// feed.
pub fn transcript_line(encoded: &str) -> (r: String)
    ensures
        r@ == encoded@.push('\n'),
{
    let mut out = encoded.to_owned();
    push_char(&mut out, '\n');
    out
}

/// Whether no event of `items` is refused.
pub open spec fn batch_is_valid(items: Seq<TranscriptBatchItem>) -> bool {
    forall|i: int|
        0 <= i < items.len() ==> event_failure(
            (#[trigger] items[i]).thread_id@,
            items[i].direction@,
        ) is None
}

/// Whether `index` is the first event of `items` that is refused.
pub open spec fn is_first_refused(items: Seq<TranscriptBatchItem>, index: int) -> bool {
    &&& 0 <= index < items.len()
    &&& event_failure(items[index].thread_id@, items[index].direction@) is Some
    &&& forall|j: int|
        0 <= j < index ==> event_failure((#[trigger] items[j]).thread_id@, items[j].direction@) is None
}

/// Checks a batch of events and gives their stored forms, in the same
/// order. If any event is refused, so is the whole batch, with the failure
/// of the first such event.
pub fn append_transcript_batch(events: Vec<TranscriptBatchItem>) -> (r: Result<
    Vec<TranscriptEvent>,
    Failure,
>)
    ensures
        match r {
            Ok(stored) => {
                &&& batch_is_valid(events@)
                &&& stored@.len() == events@.len()
                &&& forall|i: int|
                    0 <= i < stored@.len() ==> is_stored_form(
                        #[trigger] stored@[i],
                        events@[i].ts,
                        events@[i].thread_id,
                        events@[i].direction,
                        events@[i].payload,
                    )
            },
            Err(e) => exists|k: int|
                is_first_refused(events@, k) && #[trigger] event_failure(
                    events@[k].thread_id@,
                    events@[k].direction@,
                ) == Some(e@),
        },
{
    let ghost items = events@;
    let mut stored: Vec<TranscriptEvent> = Vec::new();
    for item in it: events
        invariant
            it.seq() == items,
            stored@.len() == it.index(),
            forall|j: int|
                0 <= j < it.index() ==> event_failure(
                    (#[trigger] items[j]).thread_id@,
                    items[j].direction@,
                ) is None,
            forall|i: int|
                0 <= i < stored@.len() ==> is_stored_form(
                    #[trigger] stored@[i],
                    items[i].ts,
                    items[i].thread_id,
                    items[i].direction,
                    items[i].payload,
                ),
    {
        let ghost k = it.index() as int;
        match append_transcript_event(item.ts, item.thread_id, item.direction, item.payload) {
            Ok(event) => {
                stored.push(event);
            },
            Err(e) => {
                assert(is_first_refused(items, k));
                assert(event_failure(items[k].thread_id@, items[k].direction@) == Some(e@));
                return Err(e);
            },
        }
    }
    Ok(stored)
}

/// An event encoded as one line, for the transcript of its thread.
#[derive(Debug, PartialEq, Eq)]
pub struct EncodedEvent {
    pub thread_id: String,
    /// The encoded event, without a line feed.
    pub line: String,
}

/// What a batch appends to the transcript of one thread, in one write.
#[derive(Debug, PartialEq, Eq)]
pub struct ThreadWrite {
    pub thread_id: String,
    pub buffer: String,
}

/// What a batch appends to the transcript of `thread`: the lines of the
/// events of that thread, each with its line feed, in the order of the batch.
pub open spec fn thread_buffer(events: Seq<EncodedEvent>, thread: Seq<char>) -> Seq<char>
    decreases events.len(),
{
    if events.len() == 0 {
        Seq::<char>::empty()
    } else {
        let before = thread_buffer(events.drop_last(), thread);
        if events.last().thread_id@ == thread {
            before + events.last().line@.push('\n')
        } else {
            before
        }
    }
}

/// The threads of a batch, each once, in the order in which they first
/// occur.
pub open spec fn threads_of(events: Seq<EncodedEvent>) -> Seq<Seq<char>>
    decreases events.len(),
{
    if events.len() == 0 {
        Seq::<Seq<char>>::empty()
    } else {
        let before = threads_of(events.drop_last());
        if before.contains(events.last().thread_id@) {
            before
        } else {
            before.push(events.last().thread_id@)
        }
    }
}

/// A transcript with content `content` after each event of `events` that
/// belongs to `thread` is appended to it by itself, in order.
pub open spec fn after_single_appends(
    content: Seq<char>,
    events: Seq<EncodedEvent>,
    thread: Seq<char>,
) -> Seq<char>
    decreases events.len(),
{
    if events.len() == 0 {
        content
    } else {
        let before = after_single_appends(content, events.drop_last(), thread);
        if events.last().thread_id@ == thread {
            appended(before, events.last().line@)
        } else {
            before
        }
    }
}

fn holds_text(list: &Vec<String>, wanted: &str) -> (r: bool)
    ensures
        r == texts(list@).contains(wanted@),
{
    let mut i: usize = 0;
    while i < list.len()
        invariant
            i <= list@.len(),
            forall|j: int| 0 <= j < i ==> texts(list@)[j] != wanted@,
        decreases list@.len() - i,
    {
        if same_text(list[i].as_str(), wanted) {
            assert(texts(list@)[i as int] == wanted@);
            return true;
        }
        i += 1;
    }
    false
}

fn buffer_for(events: &Vec<EncodedEvent>, thread: &str) -> (r: String)
    ensures
        r@ == thread_buffer(events@, thread@),
{
    let mut buffer = String::new();
    let mut k: usize = 0;
    while k < events.len()
        invariant
            k <= events@.len(),
            buffer@ == thread_buffer(events@.take(k as int), thread@),
        decreases events@.len() - k,
    {
        proof {
            let upto = events@.take(k + 1);
            assert(upto.drop_last() == events@.take(k as int));
            assert(upto.last() == events@[k as int]);
        }
        if same_text(events[k].thread_id.as_str(), thread) {
            buffer.append(events[k].line.as_str());
            push_char(&mut buffer, '\n');
        }
        k += 1;
    }
    proof {
        assert(events@.take(k as int) == events@);
    }
    buffer
}

/// Groups the encoded events of a batch by thread. There is one write for
/// each thread that occurs, in the order in which the threads first occur,
/// and it holds that thread's lines in the order of the batch.
pub fn batch_writes(events: &Vec<EncodedEvent>) -> (r: Vec<ThreadWrite>)
    ensures
        r@.len() == threads_of(events@).len(),
        forall|i: int|
            0 <= i < r@.len() ==> (#[trigger] r@[i]).thread_id@ == threads_of(events@)[i]
                && r@[i].buffer@ == thread_buffer(events@, threads_of(events@)[i]),
{
    let mut threads: Vec<String> = Vec::new();
    let mut k: usize = 0;
    while k < events.len()
        invariant
            k <= events@.len(),
            texts(threads@) == threads_of(events@.take(k as int)),
        decreases events@.len() - k,
    {
        proof {
            let upto = events@.take(k + 1);
            assert(upto.drop_last() == events@.take(k as int));
            assert(upto.last() == events@[k as int]);
        }
        if !holds_text(&threads, events[k].thread_id.as_str()) {
            let ghost before = texts(threads@);
            threads.push(events[k].thread_id.clone());
            assert(texts(threads@) == before.push(events@[k as int].thread_id@));
        }
        k += 1;
    }
    proof {
        assert(events@.take(k as int) == events@);
    }
    let mut out: Vec<ThreadWrite> = Vec::new();
    for thread in it: threads
        invariant
            texts(it.seq()) == threads_of(events@),
            out@.len() == it.index(),
            forall|i: int|
                0 <= i < out@.len() ==> (#[trigger] out@[i]).thread_id@ == threads_of(events@)[i]
                    && out@[i].buffer@ == thread_buffer(events@, threads_of(events@)[i]),
    {
        assert(thread@ == texts(it.seq())[it.index() as int]);
        let buffer = buffer_for(events, thread.as_str());
        out.push(ThreadWrite { thread_id: thread, buffer });
    }
    assert(texts(threads@).len() == threads@.len());
    out
}

/// A line of a transcript, with its place in the file.
#[derive(Debug, PartialEq, Eq)]
pub struct NumberedLine {
    /// The number of the line in the file, counted from 1.
    pub number: usize,
    /// The line without the white space around it.
    pub text: String,
}

/// The lines of a file: the pieces between its line feeds, without the
/// empty piece after a final line feed. An empty file has no lines.
pub open spec fn file_lines(raw: Seq<char>) -> Seq<Seq<char>> {
    let pieces = split_on(raw, '\n');
    if pieces.len() > 0 && pieces.last().len() == 0 {
        pieces.drop_last()
    } else {
        pieces
    }
}

/// Every line, without the white space around it, with its number from 1.
/// None is left out: a blank line stays, as an empty text.
pub open spec fn numbered_lines(lines: Seq<Seq<char>>) -> Seq<(int, Seq<char>)> {
    Seq::new(lines.len(), |i: int| (i + 1, trimmed(lines[i])))
}

/// The numbers and texts of a list of numbered lines.
pub open spec fn numbered(lines: Seq<NumberedLine>) -> Seq<(int, Seq<char>)> {
    Seq::new(lines.len(), |i: int| (lines[i].number as int, lines[i].text@))
}

/// The lines of a transcript file, each without the white space around it
/// and with its number in the file. Every line is given, a blank one too, so
/// that a line that holds no event is found when the lines are decoded.
pub fn transcript_lines(raw: &str) -> (r: Vec<NumberedLine>)
    ensures
        numbered(r@) == numbered_lines(file_lines(raw@)),
{
    let pieces = split_lines(raw);
    let n = pieces.len();
    let count = if n > 0 && pieces[n - 1].as_str().unicode_len() == 0 {
        n - 1
    } else {
        n
    };
    let ghost lines = file_lines(raw@);
    assert(lines.len() == count);
    assert forall|j: int| 0 <= j < count implies lines[j] == #[trigger] pieces@[j]@ by {
        assert(texts(pieces@)[j] == pieces@[j]@);
    }
    let mut out: Vec<NumberedLine> = Vec::new();
    let mut i: usize = 0;
    while i < count
        invariant
            count <= pieces@.len(),
            lines.len() == count,
            forall|j: int| 0 <= j < count ==> lines[j] == #[trigger] pieces@[j]@,
            i <= count,
            numbered(out@) == numbered_lines(lines).take(i as int),
        decreases count - i,
    {
        let text = trim(pieces[i].as_str());
        let ghost before = numbered(out@);
        out.push(NumberedLine { number: i + 1, text });
        assert(numbered(out@) == before.push(((i + 1) as int, out@.last().text@)));
        assert(numbered_lines(lines).take(i + 1) == numbered_lines(lines).take(i as int).push(
            numbered_lines(lines)[i as int],
        ));
        i += 1;
    }
    assert(numbered_lines(lines).take(i as int) == numbered_lines(lines));
    out
}

/// A line that was decoded, or the reason why it could not be.
#[derive(Debug, PartialEq)]
pub struct ParsedLine {
    /// The number of the line in the file, counted from 1.
    pub number: usize,
    pub outcome: Result<TranscriptEvent, String>,
}

/// What was found of a transcript file.
#[derive(Debug, PartialEq)]
pub enum TranscriptFile {
    /// There is no such file.
    Missing,
    /// The file could not be read; the text says why.
    Unreadable(String),
    /// The lines of the file, each decoded.
    Lines(Vec<ParsedLine>),
}

/// The failure for a transcript line that could not be decoded.
pub open spec fn line_failure(number: usize, path: Seq<char>, why: Seq<char>) -> FailureView {
    plain(
        ErrorView::Json(
            "Failed to parse transcript line "@ + decimal(number as nat) + " ("@ + path + "): "@
                + why,
        ),
    )
}

/// What `read_transcript` returns. A malformed thread identifier is refused
/// before anything else. Then: no events for a missing file; all events, in
/// order, if every line was decoded; else the failure of the first line
/// that was not, whatever follows it.
pub open spec fn reads_as(
    thread_id: Seq<char>,
    path: Seq<char>,
    file: TranscriptFile,
    r: Result<Vec<TranscriptEvent>, Failure>,
) -> bool {
    if !valid_id(thread_id) {
        r matches Err(f) && f@ == classed(id_error(thread_id, "thread_id"@))
    } else {
        match file {
            TranscriptFile::Missing => r matches Ok(events) && events@.len() == 0,
            TranscriptFile::Unreadable(why) => r matches Err(f) && f@ == plain(
                ErrorView::Io("Failed to read transcript: "@ + why@),
            ),
            TranscriptFile::Lines(lines) => match r {
                Ok(events) => {
                    &&& events@.len() == lines@.len()
                    &&& forall|i: int|
                        0 <= i < lines@.len() ==> (#[trigger] lines@[i]).outcome == Ok::<
                            TranscriptEvent,
                            String,
                        >(events@[i])
                },
                Err(f) => exists|k: int|
                    {
                        &&& 0 <= k < lines@.len()
                        &&& forall|j: int| 0 <= j < k ==> (#[trigger] lines@[j]).outcome is Ok
                        &&& (#[trigger] lines@[k]).outcome matches Err(why)
                        &&& f@ == line_failure(lines@[k].number, path, why@)
                    },
            },
        }
    }
}

/// The events of the transcript of a thread, from what was found of its
/// file at `path`. One line that could not be decoded fails the whole read;
/// partial results are never returned.
pub fn read_transcript(thread_id: &str, path: &str, file: TranscriptFile) -> (r: Result<
    Vec<TranscriptEvent>,
    Failure,
>)
    ensures
        reads_as(thread_id@, path@, file, r),
{
    match validate_safe_id(thread_id, "thread_id") {
        Err(e) => {
            return Err(Failure::classed(e));
        },
        Ok(()) => {},
    }
    match file {
        TranscriptFile::Missing => Ok(Vec::new()),
        TranscriptFile::Unreadable(why) => Err(
            Failure::plain(AppError::Io(joined("Failed to read transcript: ", why.as_str()))),
        ),
        TranscriptFile::Lines(lines) => {
            let ghost all = lines@;
            let ghost given = lines;
            let mut events: Vec<TranscriptEvent> = Vec::new();
            for line in it: lines
                invariant
                    valid_id(thread_id@),
                    file == TranscriptFile::Lines(given),
                    given@ == all,
                    it.seq() == all,
                    events@.len() == it.index(),
                    forall|i: int|
                        0 <= i < events@.len() ==> (#[trigger] all[i]).outcome == Ok::<
                            TranscriptEvent,
                            String,
                        >(events@[i]),
            {
                let ghost k = it.index() as int;
                match line.outcome {
                    Ok(event) => {
                        events.push(event);
                    },
                    Err(why) => {
                        let number = render_decimal(line.number as u64);
                        let mut text = joined("Failed to parse transcript line ", number.as_str());
                        text.append(" (");
                        text.append(path);
                        text.append("): ");
                        text.append(why.as_str());
                        assert(all[k].outcome matches Err(w) && w == why);
                        assert forall|j: int| 0 <= j < k implies (#[trigger] all[j]).outcome is Ok by {
                        }
                        return Err(Failure::plain(AppError::Json(text)));
                    },
                }
            }
            Ok(events)
        },
    }
}

/// How the removal of a transcript file went.
#[derive(Debug, PartialEq, Eq)]
pub enum Removal {
    /// There was no such file.
    Missing,
    /// The file was removed.
    Removed,
    /// The file could not be removed; the text says why.
    Failed(String),
}

/// The failure for a transcript that could not be removed.
pub open spec fn removal_failure(path: Seq<char>, why: Seq<char>) -> FailureView {
    plain(ErrorView::Io("Failed to delete transcript "@ + path + ": "@ + why))
}

/// What `delete_transcript` returns. A malformed thread identifier is
/// refused before anything else. A file that was not there is no error.
pub open spec fn deletes_as(
    thread_id: Seq<char>,
    path: Seq<char>,
    removal: Removal,
    r: Result<(), Failure>,
) -> bool {
    if !valid_id(thread_id) {
        r matches Err(f) && f@ == classed(id_error(thread_id, "thread_id"@))
    } else {
        match removal {
            Removal::Failed(why) => r matches Err(f) && f@ == removal_failure(path, why@),
            _ => r is Ok,
        }
    }
}

/// The result of deleting the transcript of a thread, whose file is at
/// `path`.
pub fn delete_transcript(thread_id: &str, path: &str, removal: Removal) -> (r: Result<(), Failure>)
    ensures
        deletes_as(thread_id@, path@, removal, r),
{
    match validate_safe_id(thread_id, "thread_id") {
        Err(e) => {
            return Err(Failure::classed(e));
        },
        Ok(()) => {},
    }
    match removal {
        Removal::Missing => Ok(()),
        Removal::Removed => Ok(()),
        Removal::Failed(why) => {
            let mut text = joined("Failed to delete transcript ", path);
            text.append(": ");
            text.append(why.as_str());
            Err(Failure::plain(AppError::Io(text)))
        },
    }
}

/// What went wrong while a transcript was being appended to.
#[derive(Debug, PartialEq, Eq)]
pub enum AppendFault {
    /// The transcripts directory could not be made; the text says why.
    Directory(String),
    /// An event could not be encoded; the text says why.
    Encode(String),
    /// The transcript file could not be opened; the text says why.
    Open(String),
    /// The transcript file could not be written to; the text says why.
    Write(String),
}

/// The failure a fault is reported with. The appending of a batch words two
/// of them in its own way.
pub open spec fn append_failure_of(batch: bool, fault: AppendFault) -> FailureView {
    match fault {
        AppendFault::Directory(why) => classed(ErrorView::Io(why@)),
        AppendFault::Encode(why) => plain(
            ErrorView::Json(
                (if batch {
                    "Failed to serialize event: "@
                } else {
                    "Failed to serialize transcript event: "@
                }) + why@,
            ),
        ),
        AppendFault::Open(why) => plain(ErrorView::Io("Failed to open transcript file: "@ + why@)),
        AppendFault::Write(why) => plain(
            ErrorView::Io(
                (if batch {
                    "Failed to write transcript batch: "@
                } else {
                    "Failed to append transcript event: "@
                }) + why@,
            ),
        ),
    }
}

/// The failure a fault is reported with; `batch` says that a batch was
/// being appended.
pub fn append_failure(batch: bool, fault: AppendFault) -> (r: Failure)
    ensures
        r@ == append_failure_of(batch, fault),
{
    match fault {
        AppendFault::Directory(why) => Failure::classed(AppError::Io(why)),
        AppendFault::Encode(why) => {
            let text = if batch {
                joined("Failed to serialize event: ", why.as_str())
            } else {
                joined("Failed to serialize transcript event: ", why.as_str())
            };
            Failure::plain(AppError::Json(text))
        },
        AppendFault::Open(why) => Failure::plain(
            AppError::Io(joined("Failed to open transcript file: ", why.as_str())),
        ),
        AppendFault::Write(why) => {
            let text = if batch {
                joined("Failed to write transcript batch: ", why.as_str())
            } else {
                joined("Failed to append transcript event: ", why.as_str())
            };
            Failure::plain(AppError::Io(text))
        },
    }
}

/// A fresh transcript after each of `lines` is appended to it, in order.
pub open spec fn written(lines: Seq<Seq<char>>) -> Seq<char>
    decreases lines.len(),
{
    if lines.len() == 0 {
        Seq::<char>::empty()
    } else {
        appended(written(lines.drop_last()), lines.last())
    }
}

/// Whether `line` can stand for an event in a transcript: it is not empty,
/// holds no line feed, and neither begins nor ends with white space. The
/// compact encoding of an event as a JSON object is such a line.
pub open spec fn is_event_line(line: Seq<char>) -> bool {
    &&& line.len() > 0
    &&& !is_white_space(line[0])
    &&& !is_white_space(line.last())
    &&& forall|i: int| 0 <= i < line.len() ==> line[i] != '\n'
}

proof fn lemma_written_splits_into_lines(lines: Seq<Seq<char>>)
    requires
        forall|i: int| 0 <= i < lines.len() ==> is_event_line(#[trigger] lines[i]),
    ensures
        split_on(written(lines), '\n') == lines.push(Seq::<char>::empty()),
    decreases lines.len(),
{
    if lines.len() == 0 {
        assert(split_on(Seq::<char>::empty(), '\n') == seq![Seq::<char>::empty()]);
        assert(lines.push(Seq::<char>::empty()) == seq![Seq::<char>::empty()]);
    } else {
        let earlier = lines.drop_last();
        let line = lines.last();
        assert forall|i: int| 0 <= i < earlier.len() implies is_event_line(#[trigger] earlier[i]) by {
            assert(earlier[i] == lines[i]);
        }
        lemma_written_splits_into_lines(earlier);
        let content = written(earlier);
        assert(is_event_line(line));
        lemma_split_extends_last_piece(content, line, '\n');
        lemma_split_after_separator(content + line, '\n');
        assert(written(lines) == (content + line).push('\n'));
        let pieces = split_on(content, '\n');
        assert(pieces.drop_last() == earlier);
        assert(pieces.last() + line == line);
        assert(earlier.push(line) == lines);
    }
}

/// What is appended is read back. After the lines `lines` are appended to a
/// fresh transcript one by one, reading the transcript finds exactly those
/// lines, in the order in which they were appended, numbered from 1.
pub proof fn law_appended_lines_are_read_back(lines: Seq<Seq<char>>)
    requires
        forall|i: int| 0 <= i < lines.len() ==> is_event_line(#[trigger] lines[i]),
    ensures
        numbered_lines(file_lines(written(lines))) == Seq::new(
            lines.len(),
            |i: int| (i + 1, lines[i]),
        ),
{
    lemma_written_splits_into_lines(lines);
    assert(lines.push(Seq::<char>::empty()).drop_last() == lines);
    assert(file_lines(written(lines)) == lines);
    assert forall|i: int| 0 <= i < lines.len() implies trimmed(#[trigger] lines[i]) == lines[i] by {
        assert(is_event_line(lines[i]));
        lemma_trimmed_is_identity(lines[i]);
    }
}

/// A line that holds no event is not passed over. A file of three lines
/// whose second is blank has three numbered lines, and the second is the
/// empty text with the number 2, whatever the other two hold.
pub proof fn law_blank_line_is_kept(first: Seq<char>, blank: Seq<char>, third: Seq<char>)
    requires
        is_event_line(first),
        is_event_line(third),
        trimmed(blank).len() == 0,
        forall|i: int| 0 <= i < blank.len() ==> blank[i] != '\n',
    ensures
        numbered_lines(file_lines(first.push('\n') + blank.push('\n') + third.push('\n'))) == seq![
            (1int, first),
            (2int, Seq::<char>::empty()),
            (3int, third),
        ],
{
    let raw = first.push('\n') + blank.push('\n') + third.push('\n');
    let nothing = Seq::<char>::empty();
    assert(split_on(nothing, '\n') == seq![nothing]);
    lemma_split_extends_last_piece(nothing, first, '\n');
    assert(nothing + first == first);
    assert(split_on(first, '\n') == seq![first]);
    lemma_split_after_separator(first, '\n');
    let one = first.push('\n');
    lemma_split_extends_last_piece(one, blank, '\n');
    assert(split_on(one + blank, '\n') == seq![first, blank]);
    lemma_split_after_separator(one + blank, '\n');
    let two = (one + blank).push('\n');
    assert(two == one + blank.push('\n'));
    lemma_split_extends_last_piece(two, third, '\n');
    assert(split_on(two + third, '\n') == seq![first, blank, third]);
    lemma_split_after_separator(two + third, '\n');
    assert((two + third).push('\n') == raw);
    assert(split_on(raw, '\n') == seq![first, blank, third, nothing]);
    assert(file_lines(raw) == seq![first, blank, third]);
    lemma_trimmed_is_identity(first);
    lemma_trimmed_is_identity(third);
    assert(trimmed(blank) == nothing);
}

/// A batch writes what single appends would have written. For every thread
/// and whatever its transcript held before, appending the buffer that a
/// batch has for the thread gives the same file as appending the events of
/// that thread one by one, in the order of the batch.
pub proof fn law_batch_equals_single_appends(
    content: Seq<char>,
    events: Seq<EncodedEvent>,
    thread: Seq<char>,
)
    ensures
        content + thread_buffer(events, thread) == after_single_appends(content, events, thread),
    decreases events.len(),
{
    if events.len() == 0 {
        assert(content + Seq::<char>::empty() == content);
    } else {
        law_batch_equals_single_appends(content, events.drop_last(), thread);
        let before = thread_buffer(events.drop_last(), thread);
        let line = events.last().line@.push('\n');
        assert(content + (before + line) == (content + before) + line);
    }
}

/// Whether some event of `events` belongs to `thread`.
pub open spec fn occurs_in(events: Seq<EncodedEvent>, thread: Seq<char>) -> bool {
    exists|k: int| 0 <= k < events.len() && (#[trigger] events[k]).thread_id@ == thread
}

/// A batch has one write for each thread that occurs in it, and no other:
/// the threads of the writes are distinct, each is the thread of some event,
/// and the thread of every event is among them.
pub proof fn law_batch_has_one_write_per_thread(events: Seq<EncodedEvent>)
    ensures
        forall|i: int, j: int|
            0 <= i < j < threads_of(events).len() ==> threads_of(events)[i] != threads_of(
                events,
            )[j],
        forall|i: int|
            0 <= i < threads_of(events).len() ==> occurs_in(events, #[trigger] threads_of(events)[i]),
        forall|k: int|
            0 <= k < events.len() ==> threads_of(events).contains((#[trigger] events[k]).thread_id@),
    decreases events.len(),
{
    if events.len() > 0 {
        let earlier = events.drop_last();
        law_batch_has_one_write_per_thread(earlier);
        let before = threads_of(earlier);
        let now = threads_of(events);
        let thread = events.last().thread_id@;
        assert forall|i: int| 0 <= i < now.len() implies occurs_in(events, #[trigger] now[i]) by {
            if i < before.len() {
                assert(now[i] == before[i]);
                assert(occurs_in(earlier, before[i]));
                let k = choose|k: int|
                    0 <= k < earlier.len() && (#[trigger] earlier[k]).thread_id@ == before[i];
                assert(events[k] == earlier[k]);
            } else {
                assert(events[events.len() - 1].thread_id@ == now[i]);
            }
        }
        assert forall|k: int| 0 <= k < events.len() implies now.contains(
            (#[trigger] events[k]).thread_id@,
        ) by {
            if k < earlier.len() {
                assert(events[k] == earlier[k]);
                assert(before.contains(earlier[k].thread_id@));
                let i = choose|i: int| 0 <= i < before.len() && before[i] == earlier[k].thread_id@;
                assert(now[i] == before[i]);
            } else {
                if before.contains(thread) {
                    let i = choose|i: int| 0 <= i < before.len() && before[i] == thread;
                    assert(now[i] == thread);
                } else {
                    assert(now[before.len() as int] == thread);
                }
            }
        }
        assert forall|i: int, j: int| 0 <= i < j < now.len() implies now[i] != now[j] by {
            if j < before.len() {
                assert(now[i] == before[i] && now[j] == before[j]);
            } else {
                assert(!before.contains(thread));
                assert(now[i] == before[i]);
                assert(now[j] == thread);
            }
        }
    }
}

} // verus!
