use cowork_supervisor::error::AppError;
use cowork_supervisor::handshake::{
    handshake_payload, handshake_verdict, HandshakeReport, ServerListening,
    SERVER_STARTUP_TIMEOUT_SECS,
};
use cowork_supervisor::launch::{
    bundle_environment, require_bundled_dist, require_entrypoint, server_args, start_fault,
    use_source, StartFault,
};
use cowork_supervisor::registry::{
    stop_workspace_server, ProbeDecision, ProcessStatus, ServerHandle, ServerManager,
    StartOutcome,
};
use cowork_supervisor::shutdown::{Shutdown, TERMINATE_POLLS, TERMINATE_POLL_MILLIS};

fn announcement(url: &str) -> HandshakeReport {
    HandshakeReport::Announced(ServerListening {
        kind: "server_listening".to_string(),
        url: url.to_string(),
        port: 4096,
        cwd: "/work".to_string(),
    })
}

fn started(servers: &mut ServerManager<u32>, id: &str, child: u32, url: &str) -> String {
    match servers.finish_start(id.to_string(), child, announcement(url)) {
        StartOutcome::Listening { url, displaced } => {
            assert!(displaced.is_none());
            url
        }
        StartOutcome::Failed { error, .. } => panic!("start failed: {:?}", error),
    }
}

#[test]
fn a_new_workspace_calls_for_a_start() {
    let mut servers: ServerManager<u32> = ServerManager::new();
    match servers.settle("ws1", ProcessStatus::Running) {
        ProbeDecision::Start { stale } => assert!(stale.is_none()),
        other => panic!("unexpected {:?}", other),
    }
    assert!(servers.get("ws1").is_none());
}

#[test]
fn a_live_server_is_reused_with_the_same_url() {
    let mut servers: ServerManager<u32> = ServerManager::new();
    let first = started(&mut servers, "ws1", 7, "http://127.0.0.1:4096");
    assert_eq!(first, "http://127.0.0.1:4096");
    for _ in 0..2 {
        match servers.settle("ws1", ProcessStatus::Running) {
            ProbeDecision::Reuse { url } => assert_eq!(url, first),
            other => panic!("unexpected {:?}", other),
        }
    }
    let kept = servers.get("ws1").unwrap();
    assert_eq!(kept.child, 7);
    assert_eq!(kept.url, first);
}

#[test]
fn an_exited_server_is_removed_and_replaced() {
    let mut servers: ServerManager<u32> = ServerManager::new();
    started(&mut servers, "ws1", 7, "http://127.0.0.1:4096");
    match servers.settle("ws1", ProcessStatus::Exited) {
        ProbeDecision::Start { stale } => {
            let stale = stale.unwrap();
            assert_eq!(stale.child, 7);
            assert_eq!(stale.url, "http://127.0.0.1:4096");
        }
        other => panic!("unexpected {:?}", other),
    }
    assert!(servers.get("ws1").is_none());
    let second = started(&mut servers, "ws1", 8, "http://127.0.0.1:5000");
    assert_eq!(second, "http://127.0.0.1:5000");
    assert_eq!(servers.get("ws1").unwrap().child, 8);
}

#[test]
fn a_server_that_cannot_be_examined_is_removed() {
    let mut servers: ServerManager<u32> = ServerManager::new();
    started(&mut servers, "ws1", 7, "http://127.0.0.1:4096");
    match servers.settle("ws1", ProcessStatus::Unknown("no such process".to_string())) {
        ProbeDecision::Fail { error, removed } => {
            assert_eq!(
                error,
                AppError::Process(
                    "Failed to check server process status: no such process".to_string()
                )
            );
            assert_eq!(removed.child, 7);
        }
        other => panic!("unexpected {:?}", other),
    }
    assert!(servers.get("ws1").is_none());
}

#[test]
fn servers_of_other_workspaces_are_untouched() {
    let mut servers: ServerManager<u32> = ServerManager::new();
    started(&mut servers, "ws1", 1, "http://a");
    started(&mut servers, "ws2", 2, "http://b");
    started(&mut servers, "ws3", 3, "http://c");
    match servers.settle("ws2", ProcessStatus::Exited) {
        ProbeDecision::Start { stale } => assert_eq!(stale.unwrap().child, 2),
        other => panic!("unexpected {:?}", other),
    }
    assert_eq!(servers.get("ws1").unwrap().url, "http://a");
    assert!(servers.get("ws2").is_none());
    assert_eq!(servers.get("ws3").unwrap().url, "http://c");
}

#[test]
fn a_second_registration_displaces_the_first() {
    let mut servers: ServerManager<u32> = ServerManager::new();
    started(&mut servers, "ws1", 1, "http://a");
    match servers.finish_start("ws1".to_string(), 2, announcement("http://b")) {
        StartOutcome::Listening { url, displaced } => {
            assert_eq!(url, "http://b");
            let displaced = displaced.unwrap();
            assert_eq!(displaced.child, 1);
            assert_eq!(displaced.url, "http://a");
        }
        other => panic!("unexpected {:?}", other),
    }
    assert_eq!(servers.get("ws1").unwrap().child, 2);
    assert_eq!(servers.stop_all().len(), 1);
}

#[test]
fn a_timed_out_handshake_registers_nothing() {
    let mut servers: ServerManager<u32> = ServerManager::new();
    match servers.finish_start("ws1".to_string(), 9, HandshakeReport::TimedOut) {
        StartOutcome::Failed { error, child } => {
            assert_eq!(error, AppError::ServerTimeout(15));
            assert_eq!(error.message(), "Server startup timed out after 15 seconds");
            assert_eq!(child, 9);
        }
        other => panic!("unexpected {:?}", other),
    }
    assert!(servers.get("ws1").is_none());
}

#[test]
fn a_malformed_handshake_registers_nothing() {
    let mut servers: ServerManager<u32> = ServerManager::new();
    let report = HandshakeReport::Malformed("expected value at line 1 column 1".to_string());
    match servers.finish_start("ws1".to_string(), 9, report) {
        StartOutcome::Failed { error, child } => {
            assert_eq!(
                error,
                AppError::Json(
                    "Failed to parse server startup JSON: expected value at line 1 column 1"
                        .to_string()
                )
            );
            assert_eq!(child, 9);
        }
        other => panic!("unexpected {:?}", other),
    }
    assert!(servers.get("ws1").is_none());
}

#[test]
fn handshake_verdicts() {
    assert_eq!(SERVER_STARTUP_TIMEOUT_SECS, 15);
    assert_eq!(handshake_verdict(announcement("http://x")), Ok("http://x".to_string()));
    assert_eq!(handshake_verdict(HandshakeReport::TimedOut), Err(AppError::ServerTimeout(15)));
    assert_eq!(
        handshake_verdict(HandshakeReport::Uncaptured),
        Err(AppError::Process("Failed to capture server stdout".to_string()))
    );
    assert_eq!(
        handshake_verdict(HandshakeReport::Closed),
        Err(AppError::Process(
            "Failed to read server startup line: server stdout reader closed".to_string()
        ))
    );
    assert_eq!(
        handshake_verdict(HandshakeReport::Malformed("eof".to_string())),
        Err(AppError::Json("Failed to parse server startup JSON: eof".to_string()))
    );
}

#[test]
fn handshake_line_is_trimmed_before_decoding() {
    assert_eq!(handshake_payload("  {\"url\":\"u\"}\r\n"), "{\"url\":\"u\"}");
    assert_eq!(handshake_payload("\n"), "");
}

#[test]
fn stopping_hands_back_the_server() {
    let mut servers: ServerManager<u32> = ServerManager::new();
    started(&mut servers, "ws1", 7, "http://a");
    let taken = stop_workspace_server(&mut servers, "ws1").unwrap().unwrap();
    assert_eq!(taken.child, 7);
    assert_eq!(taken.url, "http://a");
    assert!(servers.get("ws1").is_none());
}

#[test]
fn stopping_a_stopped_workspace_is_no_error() {
    let mut servers: ServerManager<u32> = ServerManager::new();
    assert!(stop_workspace_server(&mut servers, "ws1").unwrap().is_none());
    started(&mut servers, "ws1", 7, "http://a");
    assert!(stop_workspace_server(&mut servers, "ws1").unwrap().is_some());
    assert!(stop_workspace_server(&mut servers, "ws1").unwrap().is_none());
    assert!(stop_workspace_server(&mut servers, "ws1").unwrap().is_none());
}

#[test]
fn stopping_needs_a_valid_identifier() {
    let mut servers: ServerManager<u32> = ServerManager::new();
    started(&mut servers, "ws1", 7, "http://a");
    match stop_workspace_server(&mut servers, "../ws1") {
        Err(e) => assert_eq!(
            e,
            AppError::InvalidInput(
                "workspace_id contains invalid characters (only alphanumeric, hyphens, underscores allowed)"
                    .to_string()
            )
        ),
        Ok(_) => panic!("accepted"),
    }
    assert!(servers.get("ws1").is_some());
}

#[test]
fn stop_all_hands_back_every_server_once() {
    let mut servers: ServerManager<u32> = ServerManager::new();
    started(&mut servers, "ws1", 1, "http://a");
    started(&mut servers, "ws2", 2, "http://b");
    started(&mut servers, "ws3", 3, "http://c");
    let mut all: Vec<(String, u32, String)> = servers
        .stop_all()
        .into_iter()
        .map(|(id, handle)| (id, handle.child, handle.url))
        .collect();
    all.sort();
    assert_eq!(
        all,
        vec![
            ("ws1".to_string(), 1, "http://a".to_string()),
            ("ws2".to_string(), 2, "http://b".to_string()),
            ("ws3".to_string(), 3, "http://c".to_string()),
        ]
    );
    assert!(servers.get("ws1").is_none());
    assert!(servers.stop_all().is_empty());
    assert!(servers.stop_all().is_empty());
}

#[test]
fn insert_and_remove() {
    let mut servers: ServerManager<&str> = ServerManager::new();
    assert!(servers
        .insert("a".to_string(), ServerHandle { child: "p1", url: "u1".to_string() })
        .is_none());
    let displaced = servers
        .insert("a".to_string(), ServerHandle { child: "p2", url: "u2".to_string() })
        .unwrap();
    assert_eq!(displaced.child, "p1");
    assert_eq!(servers.remove("a").unwrap().child, "p2");
    assert!(servers.remove("a").is_none());
}

fn run_shutdown(cooperative: bool, exits_at_poll: Option<u32>) -> (Vec<Shutdown>, u64) {
    let mut steps = Vec::new();
    let mut waited = 0u64;
    let mut step = Shutdown::begin(cooperative);
    let mut polls = 0u32;
    while !step.is_done() {
        steps.push(step);
        let status = match step {
            Shutdown::Poll { .. } => {
                polls += 1;
                if exits_at_poll == Some(polls) {
                    ProcessStatus::Exited
                } else {
                    ProcessStatus::Running
                }
            }
            Shutdown::Wait { .. } => {
                waited += TERMINATE_POLL_MILLIS;
                ProcessStatus::Running
            }
            _ => ProcessStatus::Running,
        };
        step = step.next(&status);
        assert!(steps.len() <= 64);
    }
    (steps, waited)
}

#[test]
fn a_process_that_exits_at_once_is_not_killed() {
    let (steps, waited) = run_shutdown(true, Some(1));
    assert_eq!(steps, vec![Shutdown::Request, Shutdown::Poll { polls_done: 0 }]);
    assert_eq!(waited, 0);
}

#[test]
fn a_process_that_never_exits_is_killed_after_three_seconds() {
    let (steps, waited) = run_shutdown(true, None);
    assert_eq!(TERMINATE_POLLS, 30);
    assert_eq!(TERMINATE_POLL_MILLIS, 100);
    assert_eq!(steps.len(), 62);
    assert_eq!(steps[0], Shutdown::Request);
    assert_eq!(steps[1], Shutdown::Poll { polls_done: 0 });
    assert_eq!(steps[2], Shutdown::Wait { polls_done: 1 });
    assert_eq!(steps[60], Shutdown::Wait { polls_done: 30 });
    assert_eq!(steps[61], Shutdown::Force);
    assert_eq!(waited, 3000);
    let polls = steps.iter().filter(|s| matches!(s, Shutdown::Poll { .. })).count();
    assert_eq!(polls, 30);
}

#[test]
fn a_process_that_exits_late_is_not_killed() {
    let (steps, waited) = run_shutdown(true, Some(30));
    assert_eq!(steps.len(), 60);
    assert!(!steps.contains(&Shutdown::Force));
    assert_eq!(waited, 2900);
}

#[test]
fn without_a_cooperative_signal_the_process_is_killed_directly() {
    let (steps, waited) = run_shutdown(false, None);
    assert_eq!(steps, vec![Shutdown::Force]);
    assert_eq!(waited, 0);
}

#[test]
fn a_look_that_fails_leads_to_the_kill() {
    let step = Shutdown::Poll { polls_done: 3 };
    assert_eq!(step.next(&ProcessStatus::Unknown("gone".to_string())), Shutdown::Force);
    assert_eq!(Shutdown::Force.next(&ProcessStatus::Running), Shutdown::Done);
    assert_eq!(Shutdown::Done.next(&ProcessStatus::Running), Shutdown::Done);
}

#[test]
fn server_arguments() {
    assert_eq!(server_args("/work", false), vec!["--dir", "/work", "--port", "0", "--json"]);
    assert_eq!(
        server_args("/my work", true),
        vec!["--dir", "/my work", "--port", "0", "--json", "--yolo"]
    );
}

#[test]
fn source_mode() {
    assert!(use_source(true, None));
    assert!(use_source(true, Some("0")));
    assert!(use_source(false, Some("1")));
    assert!(!use_source(false, Some("0")));
    assert!(!use_source(false, Some("")));
    assert!(!use_source(false, Some(" 1")));
    assert!(!use_source(false, None));
}

#[test]
fn launch_requirements_and_faults() {
    assert_eq!(require_entrypoint("/r/src/server/index.ts", true), Ok(()));
    assert_eq!(
        require_entrypoint("/r/src/server/index.ts", false),
        Err(AppError::NotFound("Server entrypoint not found: /r/src/server/index.ts".to_string()))
    );
    assert_eq!(require_bundled_dist("/res/dist", true), Ok(()));
    assert_eq!(
        require_bundled_dist("/res/dist", false),
        Err(AppError::NotFound("Bundled dist directory not found: /res/dist".to_string()))
    );
    assert_eq!(
        start_fault(StartFault::ResourceDir("unknown path".to_string())),
        AppError::Process("Failed to resolve resource dir: unknown path".to_string())
    );
    assert_eq!(
        start_fault(StartFault::Spawn("not found".to_string())),
        AppError::Process("Failed to spawn server process: not found".to_string())
    );
    assert_eq!(
        bundle_environment("/res/dist"),
        vec![
            ("COWORK_BUILTIN_DIR".to_string(), "/res/dist".to_string()),
            ("COWORK_DESKTOP_BUNDLE".to_string(), "1".to_string()),
        ]
    );
}

#[test]
fn wanting_a_server_checks_identifier_and_path_first() {
    let mut servers: ServerManager<u32> = ServerManager::new();
    started(&mut servers, "ws1", 7, "http://a");
    let refused = cowork_supervisor::registry::start_workspace_server(
        &mut servers,
        "",
        "/nowhere",
        cowork_supervisor::validate::PathKind::Missing,
        ProcessStatus::Exited,
    );
    assert_eq!(
        refused.unwrap_err(),
        AppError::InvalidInput("workspace_id must not be empty".to_string())
    );
    let refused = cowork_supervisor::registry::start_workspace_server(
        &mut servers,
        "ws1",
        "/nowhere",
        cowork_supervisor::validate::PathKind::Missing,
        ProcessStatus::Exited,
    );
    assert_eq!(
        refused.unwrap_err(),
        AppError::NotFound("Workspace path does not exist: /nowhere".to_string())
    );
    let refused = cowork_supervisor::registry::start_workspace_server(
        &mut servers,
        "ws1",
        "/etc/hosts",
        cowork_supervisor::validate::PathKind::NotDirectory,
        ProcessStatus::Exited,
    );
    assert_eq!(
        refused.unwrap_err(),
        AppError::InvalidInput("Workspace path is not a directory: /etc/hosts".to_string())
    );
    assert_eq!(servers.get("ws1").unwrap().child, 7);
    let decision = cowork_supervisor::registry::start_workspace_server(
        &mut servers,
        "ws1",
        "/work",
        cowork_supervisor::validate::PathKind::Directory,
        ProcessStatus::Running,
    );
    match decision {
        Ok(ProbeDecision::Reuse { url }) => assert_eq!(url, "http://a"),
        other => panic!("unexpected {:?}", other),
    }
    let decision = cowork_supervisor::registry::start_workspace_server(
        &mut servers,
        "ws2",
        "/work",
        cowork_supervisor::validate::PathKind::Directory,
        ProcessStatus::Running,
    );
    match decision {
        Ok(ProbeDecision::Start { stale }) => assert!(stale.is_none()),
        other => panic!("unexpected {:?}", other),
    }
}
