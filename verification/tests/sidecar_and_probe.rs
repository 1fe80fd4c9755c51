use cowork_supervisor::error::AppError;
use cowork_supervisor::launch::{
    bundled_dist_name, server_entry, source_program, use_source_variable,
};
use cowork_supervisor::paths::repo_root_from_package;
use cowork_supervisor::probe::{
    inspector_variable, parse_debug_port, probe_path, probe_port, probe_route, probe_status,
    websocket_url, write_probe_response, ProbeRoute,
};
use cowork_supervisor::sidecar::{
    find_sidecar_binary, search_dir_place, sidecar_base_name, sidecar_exact_filename,
    sidecar_matches_filename, sidecar_override_variable, sidecar_search_dirs, SearchBase,
    SearchDir, SidecarChoice, SidecarDir,
};

fn dir(has_exact: bool, files: &[&str]) -> SidecarDir {
    SidecarDir { has_exact, files: files.iter().map(|f| f.to_string()).collect() }
}

#[test]
fn names_of_the_binary() {
    assert_eq!(sidecar_base_name(), "cowork-server");
    assert_eq!(sidecar_exact_filename(false), "cowork-server");
    assert_eq!(sidecar_exact_filename(true), "cowork-server.exe");
}

#[test]
fn file_names_taken_for_the_binary() {
    assert!(sidecar_matches_filename("cowork-server", false));
    assert!(sidecar_matches_filename("cowork-server-aarch64-apple-darwin", false));
    assert!(sidecar_matches_filename("cowork-server-", false));
    assert!(!sidecar_matches_filename("cowork-server.exe", false));
    assert!(!sidecar_matches_filename("cowork-serverx", false));
    assert!(!sidecar_matches_filename("cowork", false));
    assert!(!sidecar_matches_filename("", false));
    assert!(!sidecar_matches_filename("xcowork-server", false));
}

#[test]
fn file_names_taken_for_the_binary_on_windows() {
    assert!(sidecar_matches_filename("cowork-server.exe", true));
    assert!(sidecar_matches_filename("cowork-server-x86_64-pc-windows-msvc.exe", true));
    assert!(!sidecar_matches_filename("cowork-server", true));
    assert!(!sidecar_matches_filename("cowork-server-x86_64-pc-windows-msvc", true));
    assert!(!sidecar_matches_filename("cowork-server-x.exe.bak", true));
    assert!(!sidecar_matches_filename("other.exe", true));
}

#[test]
fn directories_searched() {
    assert_eq!(sidecar_search_dirs(false, false, false), vec![]);
    assert_eq!(sidecar_search_dirs(false, false, true), vec![]);
    assert_eq!(
        sidecar_search_dirs(true, false, true),
        vec![SearchDir::Resources, SearchDir::ResourcesBinaries]
    );
    assert_eq!(
        sidecar_search_dirs(true, true, false),
        vec![
            SearchDir::Resources,
            SearchDir::ResourcesBinaries,
            SearchDir::ExeDir,
            SearchDir::ExeDirBinaries
        ]
    );
    assert_eq!(
        sidecar_search_dirs(false, true, true),
        vec![
            SearchDir::ExeDir,
            SearchDir::ExeDirBinaries,
            SearchDir::BundleResources,
            SearchDir::BundleResourcesBinaries
        ]
    );
}

#[test]
fn the_override_wins() {
    let dirs = vec![dir(true, &["cowork-server"])];
    assert_eq!(find_sidecar_binary(true, &dirs, false), Ok(SidecarChoice::Override));
}

#[test]
fn the_exact_name_wins_over_an_earlier_suffixed_name() {
    let dirs = vec![
        dir(false, &["cowork-server-aarch64-apple-darwin"]),
        dir(false, &[]),
        dir(true, &["cowork-server"]),
        dir(true, &[]),
    ];
    assert_eq!(find_sidecar_binary(false, &dirs, false), Ok(SidecarChoice::Exact { dir: 2 }));
}

#[test]
fn the_first_suffixed_name_is_taken() {
    let dirs = vec![
        dir(false, &["readme.txt"]),
        dir(false, &["a", "cowork-server-x", "cowork-server-y"]),
        dir(false, &["cowork-server-z"]),
    ];
    assert_eq!(
        find_sidecar_binary(false, &dirs, false),
        Ok(SidecarChoice::Suffixed { dir: 1, file: 1 })
    );
}

#[test]
fn nothing_found_is_reported_with_the_expected_name() {
    let dirs = vec![dir(false, &["readme.txt"]), dir(false, &[])];
    assert_eq!(
        find_sidecar_binary(false, &dirs, false),
        Err(AppError::NotFound(
            "Server sidecar binary not found (expected cowork-server)".to_string()
        ))
    );
    assert_eq!(
        find_sidecar_binary(false, &Vec::new(), true),
        Err(AppError::NotFound(
            "Server sidecar binary not found (expected cowork-server.exe)".to_string()
        ))
    );
}

#[test]
fn ports_in_settings() {
    assert_eq!(parse_debug_port("9222"), Some(9222));
    assert_eq!(parse_debug_port("0"), Some(0));
    assert_eq!(parse_debug_port("65535"), Some(65535));
    assert_eq!(parse_debug_port("65536"), None);
    assert_eq!(parse_debug_port("+80"), Some(80));
    assert_eq!(parse_debug_port("0080"), Some(80));
    assert_eq!(parse_debug_port(""), None);
    assert_eq!(parse_debug_port("+"), None);
    assert_eq!(parse_debug_port("-1"), None);
    assert_eq!(parse_debug_port("80 "), None);
    assert_eq!(parse_debug_port("127.0.0.1:9222"), Some(9222));
    assert_eq!(parse_debug_port("[::1]:9222"), Some(9222));
    assert_eq!(parse_debug_port("localhost:9222"), Some(9222));
    assert_eq!(parse_debug_port("localhost:"), None);
    assert_eq!(parse_debug_port("localhost"), None);
    assert_eq!(parse_debug_port("a:1:b"), None);
    assert_eq!(parse_debug_port("99999999999999999999999"), None);
    assert_eq!(parse_debug_port("host:99999999999999999999999"), None);
}

#[test]
fn ports_agree_with_the_standard_parser() {
    for s in ["1", "+1", "00", "65535", "65536", "655350", "", "+", "++1", "1+", "x", "１"] {
        assert_eq!(parse_debug_port(s), s.parse::<u16>().ok(), "{:?}", s);
    }
}

#[test]
fn the_responder_runs_only_in_debug_builds() {
    assert_eq!(probe_port(true, Some(" 127.0.0.1:9222 ")), Some(9222));
    assert_eq!(probe_port(false, Some("127.0.0.1:9222")), None);
    assert_eq!(probe_port(true, Some("   ")), None);
    assert_eq!(probe_port(true, Some("nothing")), None);
    assert_eq!(probe_port(true, None), None);
}

#[test]
fn requested_paths() {
    assert_eq!(probe_path("GET /json/version HTTP/1.1\r\n"), "/json/version");
    assert_eq!(probe_path("GET   /json/list\tHTTP/1.1"), "/json/list");
    assert_eq!(probe_path("  GET /x"), "/x");
    assert_eq!(probe_path("GET"), "/");
    assert_eq!(probe_path("GET "), "/");
    assert_eq!(probe_path(""), "/");
    assert_eq!(probe_path("\r\n"), "/");
    assert_eq!(probe_path("a b c d"), "b");
}

#[test]
fn requested_paths_agree_with_the_standard_library() {
    for s in ["GET /a HTTP/1.1", " x  y ", "x", "", "a\u{2003}b\u{a0}c", "a b", "ab  cd  ef  "] {
        assert_eq!(probe_path(s), s.split_whitespace().nth(1).unwrap_or("/"), "{:?}", s);
    }
}

#[test]
fn routes_and_statuses() {
    assert_eq!(probe_route("/json/version"), ProbeRoute::Version);
    assert_eq!(probe_route("/json/list"), ProbeRoute::List);
    assert_eq!(probe_route("/json"), ProbeRoute::NotFound);
    assert_eq!(probe_route("/"), ProbeRoute::NotFound);
    assert_eq!(probe_status(ProbeRoute::Version), "200 OK");
    assert_eq!(probe_status(ProbeRoute::List), "200 OK");
    assert_eq!(probe_status(ProbeRoute::NotFound), "404 Not Found");
}

#[test]
fn response_text() {
    assert_eq!(websocket_url(9222), "ws://127.0.0.1:9222/devtools/page/1");
    assert_eq!(
        write_probe_response("200 OK", "{\"a\":1}"),
        "HTTP/1.1 200 OK\r\nContent-Type: application/json\r\nContent-Length: 7\r\nConnection: close\r\n\r\n{\"a\":1}"
    );
    assert_eq!(
        write_probe_response("404 Not Found", "é"),
        "HTTP/1.1 404 Not Found\r\nContent-Type: application/json\r\nContent-Length: 2\r\nConnection: close\r\n\r\né"
    );
}

#[test]
fn places_of_the_searched_directories() {
    assert_eq!(search_dir_place(SearchDir::Resources), (SearchBase::Resources, vec![]));
    assert_eq!(
        search_dir_place(SearchDir::ResourcesBinaries),
        (SearchBase::Resources, vec!["binaries"])
    );
    assert_eq!(search_dir_place(SearchDir::ExeDir), (SearchBase::ExeDir, vec![]));
    assert_eq!(search_dir_place(SearchDir::ExeDirBinaries), (SearchBase::ExeDir, vec!["binaries"]));
    assert_eq!(
        search_dir_place(SearchDir::BundleResources),
        (SearchBase::BundleContents, vec!["Resources"])
    );
    assert_eq!(
        search_dir_place(SearchDir::BundleResourcesBinaries),
        (SearchBase::BundleContents, vec!["Resources", "binaries"])
    );
    assert_eq!(sidecar_override_variable(), "COWORK_DESKTOP_SIDECAR_PATH");
}

#[test]
fn names_used_for_launching() {
    assert_eq!(use_source_variable(), "COWORK_DESKTOP_USE_SOURCE");
    assert_eq!(source_program(), "bun");
    assert_eq!(server_entry(), "src/server/index.ts");
    assert_eq!(bundled_dist_name(), "dist");
    assert_eq!(repo_root_from_package(), "../../..");
    assert_eq!(inspector_variable(), "WEBKIT_INSPECTOR_SERVER");
}
