use std::collections::HashMap;
use tau_agent::circuit_breaker::CircuitBreaker;
use tau_agent::credentials::{
    credential_title, FileCredentials, KeychainRead, RequestCredentialToolInput,
    RequestCredentialToolOutput, StoredCredential,
};
use tau_agent::crdt::{CrdtDocument, CrdtSync};
use tau_agent::git_tools::{
    branch_command, commit_command, commit_title, default_log_limit, default_remote, failure_message,
    git_outcome, log_command, push_command, stage_command, status_report, GitBranchToolInput,
    GitCommitToolInput, GitLogToolInput, GitPushToolInput,
};
use tau_agent::keyed::{key_lt, KeyedList};
use tau_agent::perf::Importance;
use tau_agent::room::{PeerInfo, Room};
use tau_agent::tool_registry::{enabled_tools, exposed_builtin_name, BuiltinTool, ContextServerTool, ToolRef};
use tau_agent::web_search::{
    brave_results, build_search_url, ddg_results, decode_ddg_url, BodyError, BraveBlock, ChainStep,
    DdgBlock, EngineOutcome, HtmlBody, SearchChain, WebSearchResponse, WebSearchResult,
};

#[test]
fn breaker_trips_after_five_failures() {
    let mut b = CircuitBreaker::new();
    for _ in 0..4 {
        b.record_failure_at(1_000);
    }
    assert!(!b.is_open_at(1_000));
    b.record_failure_at(2_000);
    assert!(b.is_open_at(2_500));
    assert_eq!(b.retry_after_at(2_500), 59_500);
    assert!(!b.is_open_at(62_000));
    assert_eq!(b.retry_after_at(62_000), 0);
    b.record_success();
    assert_eq!(b.consecutive_errors(), 0);
    assert!(!b.is_open_at(62_001));
}

#[test]
fn breaker_with_clock() {
    let mut b = CircuitBreaker::new();
    assert!(!b.is_open());
    for _ in 0..5 {
        b.record_failure();
    }
    assert!(b.is_open());
    assert!(b.retry_after() <= 60_000);
    b.record_success();
    assert_eq!(b.retry_after(), 0);
}

#[test]
fn room_membership() {
    let mut room = Room::new(1, "pairing".into());
    assert!(room.is_empty());
    room.add_participant(PeerInfo { peer_id: 7, name: "ana".into() });
    room.add_participant(PeerInfo { peer_id: 7, name: "renamed".into() });
    room.add_participant(PeerInfo { peer_id: 8, name: "bo".into() });
    assert_eq!(room.participant_count(), 2);
    assert_eq!(room.participants.get(&7).map(|p| p.name.clone()), Some("ana".to_string()));
    room.remove_participant(7);
    room.remove_participant(99);
    assert_eq!(room.participant_count(), 1);
}

#[test]
fn crdt_documents_read_back() {
    let mut doc = CrdtDocument::new(3);
    doc.set_text("hello");
    doc.set_text(" world");
    assert_eq!(doc.get_text(), "hello world");
    assert!(doc.apply_update(&[0xff, 0xff, 0xff]).is_err());
    assert_eq!(doc.get_text(), "hello world");

    let mut other = CrdtDocument::new(3);
    assert!(other.apply_update(&doc.encode_all()).is_ok());
    assert_eq!(other.get_text(), "hello world");
    assert!(doc.encode_diff(&[0xff, 0xff]).is_err());
    let sv = other.encode_state_vector();
    assert!(doc.encode_diff(&sv).is_ok());
}

#[test]
fn crdt_sync_by_buffer() {
    let mut sync = CrdtSync::new();
    assert!(sync.sync_step1(1).is_none());
    sync.get_or_create(1);
    sync.append_text(1, "abc");
    sync.append_text(2, "x");
    assert_eq!(sync.get(1).map(|d| d.get_text()), Some("abc".to_string()));
    assert!(sync.sync_step1(2).is_some());
    assert!(sync.sync_step2(5, &[]).is_none());
    sync.remove(1);
    assert!(sync.get(1).is_none());
}

#[test]
fn crdt_merge_from_copies_text() {
    let mut source = CrdtDocument::new(4);
    source.set_text("shared");
    let mut target = CrdtDocument::new(4);
    target.merge_from(&source);
    assert_eq!(target.get_text(), "shared");
    target.merge_from(&source);
    assert_eq!(target.get_text(), "shared");
}

#[test]
fn crdt_sync_from_document_by_buffer() {
    let mut source = CrdtDocument::new(9);
    source.set_text("notes");
    let mut sync = CrdtSync::new();
    assert!(!sync.sync_from_document(9, &source));
    sync.get_or_create(9);
    assert!(sync.sync_from_document(9, &source));
    assert_eq!(sync.get(9).map(|d| d.get_text()), Some("notes".to_string()));
    assert_eq!(sync.sync_step2(9, &[0xff, 0xff, 0xff]).map(|r| r.is_err()), Some(true));
}

#[test]
fn crdt_get_or_create_hands_out_the_document() {
    let mut sync = CrdtSync::new();
    sync.get_or_create(5).set_text("draft");
    sync.get_or_create(5).set_text(" two");
    assert_eq!(sync.get(5).map(|d| d.get_text()), Some("draft two".to_string()));
}

#[test]
fn file_credentials_round_trip() {
    let mut file = FileCredentials::new();
    file.write("https://api.example.com", "user", b"secret");
    file.write("https://other.example.com", "u2", b"p2");
    assert_eq!(file.read("https://api.example.com"), Some(("user".to_string(), b"secret".to_vec())));
    file.write("https://api.example.com", "user", b"new");
    assert_eq!(file.read("https://api.example.com"), Some(("user".to_string(), b"new".to_vec())));
    assert_eq!(file.entries().len(), 2);
    file.delete("https://api.example.com");
    assert_eq!(file.read("https://api.example.com"), None);
    assert_eq!(file.read("https://other.example.com"), Some(("u2".to_string(), b"p2".to_vec())));
}

#[test]
fn credentials_fall_back_to_file() {
    let mut file = FileCredentials::new();
    file.write_with_fallback(false, "url", "name", b"pw");
    assert_eq!(file.read_with_fallback(KeychainRead::Unavailable, "url"), Some(("name".to_string(), b"pw".to_vec())));
    assert_eq!(file.read_with_fallback(KeychainRead::Missing, "url"), Some(("name".to_string(), b"pw".to_vec())));
    assert_eq!(
        file.read_with_fallback(KeychainRead::Found("k".into(), b"kp".to_vec()), "url"),
        Some(("k".to_string(), b"kp".to_vec()))
    );
    file.write_with_fallback(true, "url", "name", b"pw");
    assert_eq!(file.read("url"), None);
    file.write_with_fallback(false, "url", "name", b"pw");
    file.delete_with_fallback(false, "url");
    assert_eq!(file.read("url"), None);
}

#[test]
fn credentials_from_disk_keep_last_entry() {
    let entries = vec![
        StoredCredential { url: "a".into(), username: "1".into(), password: vec![1] },
        StoredCredential { url: "a".into(), username: "2".into(), password: vec![2] },
    ];
    let file = FileCredentials::from_entries(entries);
    assert_eq!(file.read("a"), Some(("2".to_string(), vec![2])));
    assert_eq!(file.entries().len(), 1);
}

#[test]
fn credential_requests() {
    let input = RequestCredentialToolInput {
        service: "google_oauth".into(),
        title: None,
        instructions: "Open the console.".into(),
        fields: vec![],
    };
    assert_eq!(credential_title(Some(&input)), "Request credential: google_oauth");
    assert_eq!(credential_title(None), "Request credential");
    assert_eq!(input.form_title(), "Credentials needed: google_oauth");
    assert_eq!(
        input.form_message(),
        "Open the console.\n\nPlease enter the following credentials. They will be saved securely for future use."
    );
    let empty = RequestCredentialToolOutput::from_form(HashMap::new());
    assert_eq!(empty.source, "chat_paste");
    let mut values = HashMap::new();
    values.insert("KEY".to_string(), "v".to_string());
    let fresh = RequestCredentialToolOutput::from_form(values);
    assert_eq!(fresh.source, "fresh");
    assert!(fresh.should_store());
    assert_eq!(RequestCredentialToolOutput::cancelled("closed").summary, "Credential request was cancelled: closed");
    assert_eq!(RequestCredentialToolOutput::input_error("bad").source, "error");
    match RequestCredentialToolOutput::cached(HashMap::new()).to_content() {
        tau_agent::browser_tool::ToolResultContent::Text(t) => {
            assert!(t.starts_with("Credentials for service `cached` (source: cached)\n\nValues were securely stored"));
            assert!(t.ends_with("any output.\n\nCredentials were loaded from the persistent store."));
        }
        _ => panic!("expected text"),
    }
}

fn strings(v: &[&str]) -> Vec<String> {
    v.iter().map(|s| s.to_string()).collect()
}

#[test]
fn git_commands() {
    assert_eq!(default_remote(), "origin");
    assert_eq!(default_log_limit(), 10);
    let commit = GitCommitToolInput { message: "fix: x".into(), files: vec![] };
    assert_eq!(stage_command(&commit).args, strings(&["add", "--", "."]));
    assert_eq!(commit_command(&commit).args, strings(&["commit", "-m", "fix: x"]));
    assert_eq!(commit_title(Some(&commit)), "Git Commit: fix: x");
    assert_eq!(commit_title(None), "Git Commit");
    let some = GitCommitToolInput { message: "m".into(), files: strings(&["a.rs", "b.rs"]) };
    assert_eq!(stage_command(&some).args, strings(&["add", "--", "a.rs", "b.rs"]));
    let push = GitPushToolInput { remote: "origin".into(), branch: Some("main".into()), force: true, set_upstream: true };
    let p = push_command(&push);
    assert_eq!(p.args, strings(&["push", "origin", "--force-with-lease", "-u", "main"]));
    assert_eq!(p.failure, "push failed");
    let log = GitLogToolInput { limit: 25, path: Some("src".into()) };
    assert_eq!(log_command(&log).args, strings(&["log", "--max-count=25", "--oneline", "--decorate", "--", "src"]));
}

#[test]
fn git_branch_commands() {
    let list = GitBranchToolInput { name: None, base: None, switch: true, delete: true, delete_force: false };
    assert_eq!(branch_command(&list).args, strings(&["branch", "--list", "-a"]));
    let del = GitBranchToolInput { name: Some("old".into()), base: None, switch: true, delete: true, delete_force: true };
    let d = branch_command(&del);
    assert_eq!(d.args, strings(&["branch", "--delete", "old"]));
    assert_eq!(d.failure, "delete branch failed");
    let force = GitBranchToolInput { name: Some("old".into()), base: None, switch: false, delete: false, delete_force: true };
    assert_eq!(branch_command(&force).args, strings(&["branch", "--delete", "--force", "old"]));
    let create = GitBranchToolInput { name: Some("feat".into()), base: Some("main".into()), switch: false, delete: false, delete_force: false };
    assert_eq!(branch_command(&create).args, strings(&["checkout", "-b", "feat", "main"]));
}

#[test]
fn git_outcomes() {
    let args = strings(&["status", "--short"]);
    assert_eq!(git_outcome(&args, true, b"  M a.rs \n", b""), Ok("M a.rs".to_string()));
    assert_eq!(
        git_outcome(&args, false, b"", b"fatal: not a repo\n"),
        Err("git status --short failed: fatal: not a repo".to_string())
    );
    assert_eq!(failure_message("push failed", "e"), "push failed: e");
    assert_eq!(status_report(Ok("s".into()), Ok("d".into())), Ok("s\n\nd".to_string()));
    assert_eq!(status_report(Err("e1".into()), Ok("d".into())), Ok("d".to_string()));
    assert_eq!(status_report(Err("e1".into()), Err("e2".into())), Err("e1".to_string()));
}

#[test]
fn keyed_lists() {
    let mut k: KeyedList<u32> = KeyedList::new();
    k.insert("a".into(), 1);
    k.insert("b".into(), 2);
    k.insert("a".into(), 3);
    assert_eq!(k.get("a"), Some(&3));
    assert_eq!(k.entries().len(), 2);
    k.remove("a");
    assert!(!k.contains_key("a"));
    assert!(k.contains_key("b"));
}

#[test]
fn keyed_list_keeps_keys_in_order() {
    let mut k: KeyedList<u32> = KeyedList::new();
    for (i, key) in ["terminal", "edit_file", "Zed", "grep", "édit", "edit"].iter().enumerate() {
        k.insert(key.to_string(), i as u32);
    }
    let keys: Vec<&str> = k.entries().iter().map(|(key, _)| key.as_str()).collect();
    assert_eq!(keys, vec!["Zed", "edit", "edit_file", "grep", "terminal", "édit"]);
    assert!(key_lt("edit", "edit_file"));
    assert!(!key_lt("grep", "grep"));
    assert!(key_lt("Z", "a"));
}

fn builtin(name: &str) -> BuiltinTool {
    BuiltinTool { name: name.into(), terminal_variant: None, supports_provider: true, enabled_in_profile: true, feature_enabled: true }
}

#[test]
fn tools_offered() {
    let mut terminal = builtin("terminal");
    terminal.terminal_variant = Some(false);
    let mut sandboxed = builtin("sandboxed_terminal");
    sandboxed.terminal_variant = Some(true);
    let mut unsupported = builtin("fetch");
    unsupported.supports_provider = false;
    let builtins = vec![builtin("read_file"), builtin("grep"), terminal, sandboxed, unsupported, builtin("web_search")];
    let ctx = vec![
        ContextServerTool { server_id: "GitHub Server".into(), name: "grep".into(), enabled_in_profile: true },
        ContextServerTool { server_id: "x".into(), name: "search".into(), enabled_in_profile: true },
        ContextServerTool { server_id: "y".into(), name: "search".into(), enabled_in_profile: true },
        ContextServerTool { server_id: "z".into(), name: "off".into(), enabled_in_profile: false },
    ];
    let tools = enabled_tools(&builtins, true, true, &ctx).expect("clean names");
    assert_eq!(tools.get("terminal"), Some(&ToolRef::Builtin(3)));
    assert_eq!(tools.get("grep"), Some(&ToolRef::Builtin(1)));
    assert_eq!(tools.get("git_hub_server_grep"), Some(&ToolRef::ContextServer(0)));
    assert_eq!(tools.get("x_search"), Some(&ToolRef::ContextServer(1)));
    assert_eq!(tools.get("y_search"), Some(&ToolRef::ContextServer(2)));
    assert!(!tools.contains_key("fetch"));
    assert!(!tools.contains_key("off"));
    let no_project = enabled_tools(&builtins, false, false, &vec![]).expect("clean names");
    assert!(!no_project.contains_key("read_file"));
    assert!(!no_project.contains_key("grep"));
    assert_eq!(no_project.get("terminal"), Some(&ToolRef::Builtin(2)));
    assert_eq!(no_project.get("web_search"), Some(&ToolRef::Builtin(5)));
}

#[test]
fn long_tool_names() {
    let long = "a".repeat(70);
    assert_eq!(exposed_builtin_name(&builtin(&long), false), Ok(Some("a".repeat(64))));
    let wide = format!("{}é", "a".repeat(63));
    assert_eq!(exposed_builtin_name(&builtin(&wide), false), Err(()));
    assert!(enabled_tools(&vec![builtin(&wide)], false, true, &vec![]).is_none());
}

#[test]
fn ddg_links_decode() {
    assert_eq!(
        decode_ddg_url("/l/?uddg=https%3A%2F%2Fexample.com%2Fpath%3Fa%3D1&rut=abc").ok(),
        Some("https://example.com/path?a=1".to_string())
    );
    assert_eq!(decode_ddg_url("https://example.com/plain").ok(), Some("https://example.com/plain".to_string()));
}

#[test]
fn test_decode_ddg_url_returns_uddg_target() {
    let href = "/l/?uddg=https%3A%2F%2Fexample.com%2Fpath%3Fa%3D1&rut=abc";
    assert_eq!(decode_ddg_url(href).ok().unwrap(), "https://example.com/path?a=1");
}

#[test]
fn test_decode_ddg_url_falls_back_to_raw_href() {
    assert_eq!(decode_ddg_url("https://example.com/plain").ok().unwrap(), "https://example.com/plain");
}

fn link(href: &str, text: &str) -> Option<(Option<String>, String)> {
    Some((Some(href.to_string()), text.to_string()))
}

#[test]
fn ddg_blocks_to_results() {
    let blocks = vec![
        DdgBlock {
            link: link("/l/?uddg=https%3A%2F%2Frust-lang.org&rut=1", " The Rust\n Programming Language "),
            snippet: Some(" A language  empowering everyone ".into()),
        },
        DdgBlock { link: None, snippet: Some("no link".into()) },
        DdgBlock { link: Some((None, "no href".into())), snippet: None },
        DdgBlock { link: link("/l/?uddg=https%3A%2F%2Fdocs.rs&rut=3", "  "), snippet: None },
        DdgBlock { link: link("//duckduckgo.com/l/?uddg=https%3A%2F%2Fdocs.rs&rut=3", "docs.rs"), snippet: None },
    ];
    let response = ddg_results(&blocks).ok().expect("results");
    assert_eq!(response.results.len(), 2);
    assert_eq!(response.results[0].title, "The Rust Programming Language");
    assert_eq!(response.results[0].url, "https://rust-lang.org");
    assert_eq!(response.results[0].text, "A language empowering everyone");
    assert_eq!(response.results[1].url, "https://docs.rs");
    assert_eq!(response.results[1].text, "");
}

#[test]
fn brave_blocks_to_results() {
    let blocks = vec![
        BraveBlock {
            link: link("https://www.rust-lang.org/", "Rust link"),
            title: Some((Some("Rust Programming Language".into()), "ignored".into())),
            snippet_content: Some("A language".into()),
            snippet: Some("outer".into()),
        },
        BraveBlock {
            link: link("https://docs.rs/", "docs.rs"),
            title: Some((Some("  ".into()), "Docs title".into())),
            snippet_content: None,
            snippet: Some(" outer  text ".into()),
        },
        BraveBlock { link: link("https://x/", " "), title: None, snippet_content: None, snippet: None },
        BraveBlock { link: link("https://y/", "Y"), title: None, snippet_content: None, snippet: None },
    ];
    let response = brave_results(&blocks);
    assert_eq!(response.results.len(), 3);
    assert_eq!(response.results[0].title, "Rust Programming Language");
    assert_eq!(response.results[0].text, "A language");
    assert_eq!(response.results[1].title, "Docs title");
    assert_eq!(response.results[1].text, "outer text");
    assert_eq!(response.results[2].title, "Y");
    assert_eq!(response.results[2].url, "https://y/");
}

fn response_with(n: usize) -> WebSearchResponse {
    WebSearchResponse {
        results: (0..n)
            .map(|i| WebSearchResult { title: format!("t{i}"), url: format!("u{i}"), text: String::new() })
            .collect(),
    }
}

#[test]
fn engines_tried_in_turn() {
    let mut chain = SearchChain::new();
    assert!(matches!(chain.record("rust", EngineOutcome::Failed("timeout".into())), ChainStep::TryEngine(1)));
    assert!(matches!(chain.record("rust", EngineOutcome::Answered(response_with(0))), ChainStep::TryEngine(2)));
    match chain.record("rust", EngineOutcome::Failed("HTTP 500".into())) {
        ChainStep::AllFailed(m) => assert_eq!(
            m,
            "all web search engines failed: DuckDuckGo (html) failed: timeout; DuckDuckGo (lite) returned no results for query \"rust\"; Brave failed: HTTP 500"
        ),
        _ => panic!("expected failure"),
    }
    let mut ok = SearchChain::new();
    match ok.record("q", EngineOutcome::Answered(response_with(2))) {
        ChainStep::Done(r) => assert_eq!(r.results.len(), 2),
        _ => panic!("expected results"),
    }
}

#[test]
fn page_bodies() {
    let mut body = HtmlBody::new();
    assert!(body.push_chunk(b"<html>").is_ok());
    assert_eq!(body.finish().ok(), Some("<html>".to_string()));
    let mut bad = HtmlBody::new();
    assert!(bad.push_chunk(&[0xff, 0xfe]).is_ok());
    assert!(matches!(bad.finish(), Err(BodyError::NotUtf8)));
    let mut big = HtmlBody::new();
    let chunk = vec![b'a'; 5 * 1024 * 1024];
    assert!(big.push_chunk(&chunk).is_ok());
    assert!(matches!(big.push_chunk(b"b"), Err(BodyError::TooLarge)));
    assert_eq!(BodyError::TooLarge.message("https://x"), "response body from https://x exceeded 5242880 bytes");
    assert!(build_search_url("https://search.brave.com/search", "a b&c").ok().unwrap().starts_with("https://search.brave.com/search?q=a"));
}

#[test]
fn importance_levels() {
    assert_eq!(Importance::default(), Importance::Average);
    assert_eq!(Importance::Critical.to_display_string(), "critical");
    assert_eq!(Importance::Fluff.to_display_string(), "fluff");
}

#[test]
fn breaker_open_only_within_cooldown_of_fifth_failure() {
    let mut cb = CircuitBreaker::new();
    for t in 0..4u64 {
        cb.record_failure_at(1_000 + t);
    }
    assert!(!cb.is_open_at(1_004));
    assert_eq!(cb.retry_after_at(1_004), 0);
    cb.record_failure_at(2_000);
    assert!(cb.is_open_at(2_000 + 59_999));
    assert_eq!(cb.retry_after_at(2_100), 59_900);
    assert!(!cb.is_open_at(2_000 + 60_000));
    assert_eq!(cb.retry_after_at(2_000 + 60_000), 0);
    cb.record_failure_at(70_000);
    assert!(cb.is_open_at(70_001));
}
