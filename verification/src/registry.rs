//! The table of running workspace servers: at most one per workspace
//! identifier. It owns the process handles; a handle leaves it only when a
//! method hands it out for release.
//!
//! The table never starts or examines a process itself. The caller reports
//! what it saw of a process (`ProcessStatus`), and the table answers with
//! what to do next.

use crate::error::{AppError, ErrorView};
use crate::handshake::{
    handshake_error, handshake_verdict, HandshakeReport, ServerListening,
    SERVER_STARTUP_TIMEOUT_SECS,
};
use crate::text::{joined, same_text};
use crate::validate::{
    id_error, valid_id, validate_safe_id, validate_workspace_path, workspace_path_error, PathKind,
};
use vstd::prelude::*;

verus! {

/// A running server: the handle of its process and the URL it announced.
/// `H` is whatever the caller uses to hold a process.
#[derive(Debug)]
pub struct ServerHandle<H> {
    pub child: H,
    pub url: String,
}

/// What a look at a server process showed.
#[derive(Debug)]
pub enum ProcessStatus {
    /// The process is still running.
    Running,
    /// The process has exited.
    Exited,
    /// The status could not be read; the text says why.
    Unknown(String),
}

/// What to do about a workspace whose server is wanted.
#[derive(Debug)]
pub enum ProbeDecision<H> {
    /// A live server is registered: answer with its URL and start nothing.
    Reuse { url: String },
    /// No live server is registered: start one. `stale` is the entry of a
    /// server that had exited, now removed from the table.
    Start { stale: Option<ServerHandle<H>> },
    /// The registered server could not be examined. Its entry is removed
    /// and handed back for release; nothing is started.
    Fail { error: AppError, removed: ServerHandle<H> },
}

/// How an attempt to start a server ended.
#[derive(Debug)]
pub enum StartOutcome<H> {
    /// The server announced itself and is registered. `displaced` is a
    /// server that was registered for the workspace in the meantime and is
    /// now replaced.
    Listening { url: String, displaced: Option<ServerHandle<H>> },
    /// The handshake failed. Nothing was registered; the process is handed
    /// back and has to be terminated.
    Failed { error: AppError, child: H },
}

struct Entry<H> {
    workspace_id: String,
    handle: ServerHandle<H>,
}

/// The table of running servers, by workspace identifier.
pub struct ServerManager<H> {
    entries: Vec<Entry<H>>,
}

spec fn distinct_ids<H>(es: Seq<Entry<H>>) -> bool {
    forall|i: int, j: int|
        0 <= i < j < es.len() ==> (#[trigger] es[i]).workspace_id@ != (#[trigger] es[j]).workspace_id@
}

spec fn holds<H>(es: Seq<Entry<H>>, id: Seq<char>) -> bool {
    exists|i: int| 0 <= i < es.len() && (#[trigger] es[i]).workspace_id@ == id
}

spec fn index_of<H>(es: Seq<Entry<H>>, id: Seq<char>) -> int {
    choose|i: int| 0 <= i < es.len() && (#[trigger] es[i]).workspace_id@ == id
}

spec fn as_map<H>(es: Seq<Entry<H>>) -> Map<Seq<char>, ServerHandle<H>> {
    Map::new(|id: Seq<char>| holds(es, id), |id: Seq<char>| es[index_of(es, id)].handle)
}

proof fn lemma_lookup<H>(es: Seq<Entry<H>>, i: int)
    requires
        distinct_ids(es),
        0 <= i < es.len(),
    ensures
        holds(es, es[i].workspace_id@),
        index_of(es, es[i].workspace_id@) == i,
        as_map(es).contains_key(es[i].workspace_id@),
        as_map(es)[es[i].workspace_id@] == es[i].handle,
{
    let id = es[i].workspace_id@;
    assert(holds(es, id));
    let k = index_of(es, id);
    if k < i {
        assert(es[k].workspace_id@ != es[i].workspace_id@);
    } else if i < k {
        assert(es[i].workspace_id@ != es[k].workspace_id@);
    }
}

proof fn lemma_push<H>(es: Seq<Entry<H>>, e: Entry<H>)
    requires
        distinct_ids(es),
        !holds(es, e.workspace_id@),
    ensures
        distinct_ids(es.push(e)),
        as_map(es.push(e)) == as_map(es).insert(e.workspace_id@, e.handle),
{
    let after = es.push(e);
    assert forall|i: int, j: int| 0 <= i < j < after.len() implies (#[trigger] after[i]).workspace_id@
        != (#[trigger] after[j]).workspace_id@ by {
        if j == es.len() {
            assert(after[i] == es[i]);
            if es[i].workspace_id@ == e.workspace_id@ {
                assert(holds(es, e.workspace_id@));
            }
        } else {
            assert(after[i] == es[i] && after[j] == es[j]);
        }
    }
    assert forall|id: Seq<char>| holds(after, id) <==> (holds(es, id) || id == e.workspace_id@) by {
        if holds(es, id) {
            let k = index_of(es, id);
            assert(after[k] == es[k]);
        }
        if id == e.workspace_id@ {
            assert(after[es.len() as int] == e);
        }
        if holds(after, id) {
            let k = index_of(after, id);
            if k < es.len() {
                assert(after[k] == es[k]);
            }
        }
    }
    assert forall|id: Seq<char>| holds(after, id) implies #[trigger] as_map(after)[id] == as_map(
        es,
    ).insert(e.workspace_id@, e.handle)[id] by {
        let k = index_of(after, id);
        lemma_lookup(after, k);
        if k < es.len() {
            assert(after[k] == es[k]);
            lemma_lookup(es, k);
            if es[k].workspace_id@ == e.workspace_id@ {
                assert(holds(es, e.workspace_id@));
            }
        }
    }
    assert(as_map(after) =~= as_map(es).insert(e.workspace_id@, e.handle));
}

proof fn lemma_remove<H>(es: Seq<Entry<H>>, i: int)
    requires
        distinct_ids(es),
        0 <= i < es.len(),
    ensures
        distinct_ids(es.remove(i)),
        !holds(es.remove(i), es[i].workspace_id@),
        as_map(es.remove(i)) == as_map(es).remove(es[i].workspace_id@),
{
    let after = es.remove(i);
    let gone = es[i].workspace_id@;
    assert forall|a: int| 0 <= a < after.len() implies #[trigger] after[a] == es[if a < i {
        a
    } else {
        a + 1
    }] by {}
    assert forall|a: int, b: int| 0 <= a < b < after.len() implies (#[trigger] after[a]).workspace_id@
        != (#[trigger] after[b]).workspace_id@ by {
        let a0 = if a < i {
            a
        } else {
            a + 1
        };
        let b0 = if b < i {
            b
        } else {
            b + 1
        };
        assert(after[a] == es[a0] && after[b] == es[b0]);
        assert(es[a0].workspace_id@ != es[b0].workspace_id@);
    }
    assert forall|id: Seq<char>| holds(after, id) <==> (holds(es, id) && id != gone) by {
        if holds(after, id) {
            let k = index_of(after, id);
            let k0 = if k < i {
                k
            } else {
                k + 1
            };
            assert(after[k] == es[k0]);
            assert(holds(es, id));
            if id == gone {
                if k0 < i {
                    assert(es[k0].workspace_id@ != es[i].workspace_id@);
                } else {
                    assert(es[i].workspace_id@ != es[k0].workspace_id@);
                }
            }
        }
        if holds(es, id) && id != gone {
            let k = index_of(es, id);
            let k1 = if k < i {
                k
            } else {
                k - 1
            };
            assert(after[k1] == es[k]);
        }
    }
    assert forall|id: Seq<char>| holds(after, id) implies #[trigger] as_map(after)[id] == as_map(
        es,
    ).remove(gone)[id] by {
        let k = index_of(after, id);
        lemma_lookup(after, k);
        let k0 = if k < i {
            k
        } else {
            k + 1
        };
        assert(after[k] == es[k0]);
        lemma_lookup(es, k0);
    }
    assert(as_map(after) =~= as_map(es).remove(gone));
}

/// The error for a server whose status could not be read.
pub open spec fn status_check_failed(why: Seq<char>) -> ErrorView {
    ErrorView::Process("Failed to check server process status: "@ + why)
}

/// What `settle` does to the table `before` and answers, given what a look
/// at the registered process showed. For a workspace without entry the
/// status plays no part.
pub open spec fn settles_to<H>(
    before: Map<Seq<char>, ServerHandle<H>>,
    workspace_id: Seq<char>,
    status: ProcessStatus,
    after: Map<Seq<char>, ServerHandle<H>>,
    decision: ProbeDecision<H>,
) -> bool {
    if !before.contains_key(workspace_id) {
        after == before && decision == (ProbeDecision::Start { stale: None::<ServerHandle<H>> })
    } else {
        match status {
            ProcessStatus::Running => {
                &&& after == before
                &&& decision matches ProbeDecision::Reuse { url }
                &&& url@ == before[workspace_id].url@
            },
            ProcessStatus::Exited => {
                &&& after == before.remove(workspace_id)
                &&& decision == (ProbeDecision::Start { stale: Some(before[workspace_id]) })
            },
            ProcessStatus::Unknown(why) => {
                &&& after == before.remove(workspace_id)
                &&& decision matches ProbeDecision::Fail { error, removed }
                &&& removed == before[workspace_id]
                &&& error@ == status_check_failed(why@)
            },
        }
    }
}

/// What `finish_start` does to the table `before` and answers. Only an
/// announcement registers the process; after any failure the table is as it
/// was and the process is handed back with the error.
pub open spec fn start_finishes<H>(
    before: Map<Seq<char>, ServerHandle<H>>,
    workspace_id: Seq<char>,
    child: H,
    report: HandshakeReport,
    after: Map<Seq<char>, ServerHandle<H>>,
    outcome: StartOutcome<H>,
) -> bool {
    match report {
        HandshakeReport::Announced(listening) => {
            &&& after == before.insert(workspace_id, ServerHandle { child, url: listening.url })
            &&& outcome matches StartOutcome::Listening { url, displaced }
            &&& url@ == listening.url@
            &&& displaced == (if before.contains_key(workspace_id) {
                Some(before[workspace_id])
            } else {
                None
            })
        },
        _ => {
            &&& after == before
            &&& outcome matches StartOutcome::Failed { error, child: returned }
            &&& returned == child
            &&& Some(error@) == handshake_error(report)
        },
    }
}

/// Whether `out` lists each entry of the table `m` once.
pub open spec fn lists_all<H>(
    m: Map<Seq<char>, ServerHandle<H>>,
    out: Seq<(String, ServerHandle<H>)>,
) -> bool {
    &&& forall|i: int|
        0 <= i < out.len() ==> m.contains_key((#[trigger] out[i]).0@) && m[out[i].0@] == out[i].1
    &&& forall|i: int, j: int|
        0 <= i < j < out.len() ==> (#[trigger] out[i]).0@ != (#[trigger] out[j]).0@
    &&& forall|id: Seq<char>| #[trigger]
        m.contains_key(id) ==> exists|i: int| 0 <= i < out.len() && (#[trigger] out[i]).0@ == id
}

impl<H> View for ServerManager<H> {
    type V = Map<Seq<char>, ServerHandle<H>>;

    /// The registered servers, by workspace identifier.
    closed spec fn view(&self) -> Map<Seq<char>, ServerHandle<H>> {
        as_map(self.entries@)
    }
}

impl<H> ServerManager<H> {
    #[verifier::type_invariant]
    spec fn one_server_per_workspace(&self) -> bool {
        distinct_ids(self.entries@)
    }

    /// An empty table.
    pub fn new() -> (r: Self)
        ensures
            r@ == Map::<Seq<char>, ServerHandle<H>>::empty(),
    {
        let r = ServerManager { entries: Vec::new() };
        assert(r@ =~= Map::<Seq<char>, ServerHandle<H>>::empty());
        r
    }

    fn find(&self, workspace_id: &str) -> (r: Option<usize>)
        ensures
            match r {
                Some(i) => i < self.entries@.len() && self.entries@[i as int].workspace_id@
                    == workspace_id@,
                None => !holds(self.entries@, workspace_id@),
            },
    {
        let mut i: usize = 0;
        while i < self.entries.len()
            invariant
                i <= self.entries@.len(),
                forall|j: int| 0 <= j < i ==> (#[trigger] self.entries@[j]).workspace_id@ != workspace_id@,
            decreases self.entries@.len() - i,
        {
            if same_text(self.entries[i].workspace_id.as_str(), workspace_id) {
                return Some(i);
            }
            i += 1;
        }
        None
    }

    /// The server registered for a workspace, if there is one.
    pub fn get(&self, workspace_id: &str) -> (r: Option<&ServerHandle<H>>)
        ensures
            r == (if self@.contains_key(workspace_id@) {
                Some(&self@[workspace_id@])
            } else {
                None
            }),
    {
        proof {
            use_type_invariant(self);
        }
        match self.find(workspace_id) {
            Some(i) => {
                proof {
                    lemma_lookup(self.entries@, i as int);
                }
                Some(&self.entries[i].handle)
            },
            None => None,
        }
    }

    /// Registers a server for a workspace. A server already registered for
    /// it is replaced and handed back.
    pub fn insert(&mut self, workspace_id: String, handle: ServerHandle<H>) -> (displaced: Option<
        ServerHandle<H>,
    >)
        ensures
            final(self)@ == old(self)@.insert(workspace_id@, handle),
            displaced == (if old(self)@.contains_key(workspace_id@) {
                Some(old(self)@[workspace_id@])
            } else {
                None
            }),
    {
        proof {
            use_type_invariant(&*self);
        }
        let found = self.find(workspace_id.as_str());
        let mut entries: Vec<Entry<H>> = Vec::new();
        std::mem::swap(&mut entries, &mut self.entries);
        let ghost before = entries@;
        let displaced = match found {
            Some(i) => {
                proof {
                    lemma_lookup(before, i as int);
                    lemma_remove(before, i as int);
                }
                Some(entries.remove(i).handle)
            },
            None => None,
        };
        let entry = Entry { workspace_id, handle };
        proof {
            lemma_push(entries@, entry);
            assert(as_map(entries@.push(entry)) =~= as_map(before).insert(
                entry.workspace_id@,
                entry.handle,
            ));
        }
        entries.push(entry);
        self.entries = entries;
        displaced
    }

    /// Removes the server registered for a workspace and hands it back.
    /// Nothing changes if none is registered.
    pub fn remove(&mut self, workspace_id: &str) -> (taken: Option<ServerHandle<H>>)
        ensures
            final(self)@ == old(self)@.remove(workspace_id@),
            taken == (if old(self)@.contains_key(workspace_id@) {
                Some(old(self)@[workspace_id@])
            } else {
                None
            }),
    {
        proof {
            use_type_invariant(&*self);
        }
        match self.find(workspace_id) {
            Some(i) => {
                let mut entries: Vec<Entry<H>> = Vec::new();
                std::mem::swap(&mut entries, &mut self.entries);
                proof {
                    lemma_lookup(entries@, i as int);
                    lemma_remove(entries@, i as int);
                }
                let entry = entries.remove(i);
                self.entries = entries;
                Some(entry.handle)
            },
            None => {
                assert(self@ =~= self@.remove(workspace_id@));
                None
            },
        }
    }

    /// Decides what to do about a workspace whose server is wanted, given
    /// what a look at its registered process showed. A live server is kept
    /// and reused. An entry whose process has exited, or cannot be examined,
    /// is removed and handed back.
    pub fn settle(&mut self, workspace_id: &str, status: ProcessStatus) -> (decision: ProbeDecision<
        H,
    >)
        ensures
            settles_to(old(self)@, workspace_id@, status, final(self)@, decision),
    {
        match status {
            ProcessStatus::Running => match self.get(workspace_id) {
                Some(handle) => ProbeDecision::Reuse { url: handle.url.clone() },
                None => ProbeDecision::Start { stale: None },
            },
            ProcessStatus::Exited => {
                let stale = self.remove(workspace_id);
                assert(!old(self)@.contains_key(workspace_id@) ==> self@ =~= old(self)@);
                ProbeDecision::Start { stale }
            },
            ProcessStatus::Unknown(why) => match self.remove(workspace_id) {
                Some(removed) => ProbeDecision::Fail {
                    error: AppError::Process(
                        joined("Failed to check server process status: ", why.as_str()),
                    ),
                    removed,
                },
                None => {
                    assert(self@ =~= old(self)@);
                    ProbeDecision::Start { stale: None }
                },
            },
        }
    }

    /// Ends an attempt to start a server for a workspace. The process is
    /// registered only if it announced itself; otherwise it is handed back
    /// with the error, to be terminated, and the table stays as it was.
    pub fn finish_start(&mut self, workspace_id: String, child: H, report: HandshakeReport) -> (outcome:
        StartOutcome<H>)
        ensures
            start_finishes(old(self)@, workspace_id@, child, report, final(self)@, outcome),
    {
        match handshake_verdict(report) {
            Ok(url) => {
                let announced = url.clone();
                let displaced = self.insert(workspace_id, ServerHandle { child, url });
                StartOutcome::Listening { url: announced, displaced }
            },
            Err(error) => StartOutcome::Failed { error, child },
        }
    }

    /// Empties the table and hands back every server that was registered,
    /// each with its workspace identifier, for termination.
    pub fn stop_all(&mut self) -> (out: Vec<(String, ServerHandle<H>)>)
        ensures
            final(self)@ == Map::<Seq<char>, ServerHandle<H>>::empty(),
            lists_all(old(self)@, out@),
    {
        proof {
            use_type_invariant(&*self);
        }
        let mut entries: Vec<Entry<H>> = Vec::new();
        std::mem::swap(&mut entries, &mut self.entries);
        assert(self@ =~= Map::<Seq<char>, ServerHandle<H>>::empty());
        let ghost before = entries@;
        let mut out: Vec<(String, ServerHandle<H>)> = Vec::new();
        for entry in it: entries
            invariant
                it.seq() == before,
                out@.len() == it.index(),
                forall|i: int|
                    0 <= i < out@.len() ==> (#[trigger] out@[i]).0 == before[i].workspace_id
                        && out@[i].1 == before[i].handle,
        {
            out.push((entry.workspace_id, entry.handle));
        }
        proof {
            assert forall|i: int| 0 <= i < out@.len() implies as_map(before).contains_key(
                (#[trigger] out@[i]).0@,
            ) && as_map(before)[out@[i].0@] == out@[i].1 by {
                lemma_lookup(before, i);
            }
            assert forall|i: int, j: int| 0 <= i < j < out@.len() implies (#[trigger] out@[i]).0@
                != (#[trigger] out@[j]).0@ by {
                assert(before[i].workspace_id@ != before[j].workspace_id@);
            }
            assert forall|id: Seq<char>| #[trigger]
                as_map(before).contains_key(id) implies exists|i: int|
                0 <= i < out@.len() && (#[trigger] out@[i]).0@ == id by {
                let k = index_of(before, id);
                assert(out@[k].0@ == id);
            }
        }
        out
    }
}

/// What `start_workspace_server` does to the table `before` and answers.
/// The identifier is checked first and the workspace path second; input
/// that fails a check is refused with the table untouched. Only then is the
/// registered server considered, as `settles_to` says.
pub open spec fn start_decides<H>(
    before: Map<Seq<char>, ServerHandle<H>>,
    workspace_id: Seq<char>,
    workspace_path: Seq<char>,
    found: PathKind,
    status: ProcessStatus,
    after: Map<Seq<char>, ServerHandle<H>>,
    r: Result<ProbeDecision<H>, AppError>,
) -> bool {
    if !valid_id(workspace_id) {
        &&& after == before
        &&& r matches Err(e)
        &&& e@ == id_error(workspace_id, "workspace_id"@)
    } else if found != PathKind::Directory {
        &&& after == before
        &&& r matches Err(e)
        &&& e@ == workspace_path_error(workspace_path, found)
    } else {
        &&& r matches Ok(decision)
        &&& settles_to(before, workspace_id, status, after, decision)
    }
}

/// Decides what to do when a server is wanted for a workspace. `found` is
/// what is at the workspace path, and `status` what a look at the process of
/// the registered server showed, if one is registered. The answer is to
/// reuse the live server, to start one, or an error.
pub fn start_workspace_server<H>(
    servers: &mut ServerManager<H>,
    workspace_id: &str,
    workspace_path: &str,
    found: PathKind,
    status: ProcessStatus,
) -> (r: Result<ProbeDecision<H>, AppError>)
    ensures
        start_decides(
            old(servers)@,
            workspace_id@,
            workspace_path@,
            found,
            status,
            final(servers)@,
            r,
        ),
{
    match validate_safe_id(workspace_id, "workspace_id") {
        Err(e) => Err(e),
        Ok(()) => match validate_workspace_path(workspace_path, found) {
            Err(e) => Err(e),
            Ok(()) => Ok(servers.settle(workspace_id, status)),
        },
    }
}

/// What `stop_workspace_server` does to the table `before` and answers.
pub open spec fn stop_yields<H>(
    before: Map<Seq<char>, ServerHandle<H>>,
    workspace_id: Seq<char>,
    after: Map<Seq<char>, ServerHandle<H>>,
    r: Result<Option<ServerHandle<H>>, AppError>,
) -> bool {
    if valid_id(workspace_id) {
        &&& after == before.remove(workspace_id)
        &&& r == Ok::<Option<ServerHandle<H>>, AppError>(
            if before.contains_key(workspace_id) {
                Some(before[workspace_id])
            } else {
                None
            },
        )
    } else {
        &&& after == before
        &&& r matches Err(e)
        &&& e@ == id_error(workspace_id, "workspace_id"@)
    }
}

/// Stops the server of a workspace: its entry is removed and handed back for
/// termination. A workspace without a server is no error; only a malformed
/// identifier is.
pub fn stop_workspace_server<H>(servers: &mut ServerManager<H>, workspace_id: &str) -> (r: Result<
    Option<ServerHandle<H>>,
    AppError,
>)
    ensures
        stop_yields(old(servers)@, workspace_id@, final(servers)@, r),
{
    match validate_safe_id(workspace_id, "workspace_id") {
        Ok(()) => Ok(servers.remove(workspace_id)),
        Err(e) => Err(e),
    }
}

/// A server that is alive is reused. Once a start has registered a server
/// for a workspace, asking for the server again while its process runs
/// answers with the URL the start returned, changes nothing in the table and
/// starts nothing, however often it is asked.
pub proof fn law_live_server_is_reused<H>(
    m0: Map<Seq<char>, ServerHandle<H>>,
    workspace_id: Seq<char>,
    child: H,
    listening: ServerListening,
    m1: Map<Seq<char>, ServerHandle<H>>,
    started: StartOutcome<H>,
    m2: Map<Seq<char>, ServerHandle<H>>,
    first: ProbeDecision<H>,
    m3: Map<Seq<char>, ServerHandle<H>>,
    second: ProbeDecision<H>,
)
    requires
        start_finishes(m0, workspace_id, child, HandshakeReport::Announced(listening), m1, started),
        settles_to(m1, workspace_id, ProcessStatus::Running, m2, first),
        settles_to(m2, workspace_id, ProcessStatus::Running, m3, second),
    ensures
        m2 == m1,
        m3 == m1,
        started matches StartOutcome::Listening { url, .. } && url@ == listening.url@,
        first matches ProbeDecision::Reuse { url } && url@ == listening.url@,
        second matches ProbeDecision::Reuse { url } && url@ == listening.url@,
{
}

/// A server that has exited is replaced. If the process of a registered
/// server has exited, asking for the server removes the entry and calls for
/// a start; when the new process announces itself it is registered under the
/// URL it announced, and displaces nothing.
pub proof fn law_exited_server_is_replaced<H>(
    m0: Map<Seq<char>, ServerHandle<H>>,
    workspace_id: Seq<char>,
    m1: Map<Seq<char>, ServerHandle<H>>,
    decision: ProbeDecision<H>,
    child: H,
    listening: ServerListening,
    m2: Map<Seq<char>, ServerHandle<H>>,
    outcome: StartOutcome<H>,
)
    requires
        m0.contains_key(workspace_id),
        settles_to(m0, workspace_id, ProcessStatus::Exited, m1, decision),
        start_finishes(m1, workspace_id, child, HandshakeReport::Announced(listening), m2, outcome),
    ensures
        decision == (ProbeDecision::Start { stale: Some(m0[workspace_id]) }),
        !m1.contains_key(workspace_id),
        m2 == m0.insert(workspace_id, ServerHandle { child, url: listening.url }),
        outcome matches StartOutcome::Listening { url, displaced } && url@ == listening.url@
            && displaced is None,
{
    assert(m0.remove(workspace_id).insert(workspace_id, ServerHandle { child, url: listening.url })
        =~= m0.insert(workspace_id, ServerHandle { child, url: listening.url }));
}

/// A handshake that times out registers nothing. The start fails with the
/// timeout error, the table is as it was, and the process that was started
/// is handed back for termination.
pub proof fn law_timeout_registers_nothing<H>(
    m0: Map<Seq<char>, ServerHandle<H>>,
    workspace_id: Seq<char>,
    child: H,
    m1: Map<Seq<char>, ServerHandle<H>>,
    outcome: StartOutcome<H>,
)
    requires
        start_finishes(m0, workspace_id, child, HandshakeReport::TimedOut, m1, outcome),
    ensures
        m1 == m0,
        outcome matches StartOutcome::Failed { error, child: returned } && returned == child
            && error@ == ErrorView::ServerTimeout(SERVER_STARTUP_TIMEOUT_SECS),
{
}

/// Stopping twice is the same as stopping once. The second stop of a
/// workspace succeeds, finds nothing to hand back and leaves the table as
/// the first stop left it.
pub proof fn law_stop_twice<H>(
    m0: Map<Seq<char>, ServerHandle<H>>,
    workspace_id: Seq<char>,
    m1: Map<Seq<char>, ServerHandle<H>>,
    first: Result<Option<ServerHandle<H>>, AppError>,
    m2: Map<Seq<char>, ServerHandle<H>>,
    second: Result<Option<ServerHandle<H>>, AppError>,
)
    requires
        valid_id(workspace_id),
        stop_yields(m0, workspace_id, m1, first),
        stop_yields(m1, workspace_id, m2, second),
    ensures
        first is Ok,
        second == Ok::<Option<ServerHandle<H>>, AppError>(None),
        m2 == m1,
{
    assert(m1.remove(workspace_id) =~= m1);
}

/// Stopping everything twice is the same as doing it once: of an empty
/// table there is nothing to hand back.
pub proof fn law_stop_all_twice<H>(out: Seq<(String, ServerHandle<H>)>)
    requires
        lists_all(Map::<Seq<char>, ServerHandle<H>>::empty(), out),
    ensures
        out.len() == 0,
{
    if out.len() > 0 {
        assert(Map::<Seq<char>, ServerHandle<H>>::empty().contains_key(out[0].0@));
    }
}

} // verus!
