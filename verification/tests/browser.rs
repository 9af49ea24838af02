use tau_agent::browser_skills::{extract_site_from_url, normalize_site, skill_name};
use tau_agent::cdp::http_response_complete;

#[test]
fn http_response_complete_detects_full_body() {
    let response = b"HTTP/1.1 200 OK\r\nContent-Length: 5\r\n\r\nhello";
    assert!(http_response_complete(response));
    assert!(!http_response_complete(&response[..response.len() - 1]));
    assert!(!http_response_complete(b"HTTP/1.1 200 OK\r\n"));
    assert!(!http_response_complete(
        b"HTTP/1.1 200 OK\r\nContent-Length: 5\r\n\r\nhell"
    ));
}

#[test]
fn test_extract_site_from_url() {
    assert_eq!(extract_site_from_url("https://github.com/login"), Some("github".into()));
    assert_eq!(extract_site_from_url("https://www.google.com"), Some("google".into()));
    assert_eq!(extract_site_from_url("https://docs.rs/tokio"), Some("docs".into()));
}

#[test]
fn extract_site_needs_a_scheme() {
    assert_eq!(extract_site_from_url("github.com/login"), None);
    assert_eq!(normalize_site("github.com"), "github.com");
    assert_eq!(normalize_site("https://www.example.org/a?b#c"), "example");
}

use tau_agent::accessibility::{find_node_by_index, format_accessibility_tree, AccessibilityNode};
use tau_agent::browser_runtime::{
    binary_path_for_version, cft_download_urls, chosen_version, latest_version_for_platform,
    platform_string, DownloadEntry, Downloads, KnownGoodVersionEntry, FALLBACK_VERSION,
};
use tau_agent::browser_skills::{filter_skills_by_name, skill_file_name, DomainSkill};
use tau_agent::cdp::{
    content_length, escape_js_single_quoted, find_iframe, http_body, key_events, plan_key_press, select_ws_url,
    DebugTarget, KeyPress, TabInfo, WsUrlError,
};

fn tab(id: &str, title: &str, url: &str) -> TabInfo {
    TabInfo { target_id: id.into(), title: title.into(), url: url.into(), is_attached: false }
}

fn skill(name: &str, content: &str) -> DomainSkill {
    DomainSkill {
        site: "github".into(),
        name: name.into(),
        content: content.into(),
        created_at: String::new(),
        updated_at: String::new(),
    }
}

#[test]
fn content_length_reads_first_usable_header() {
    assert_eq!(content_length("HTTP/1.1 200 OK\r\ncontent-LENGTH:  42 \r\nX: y"), Some(42));
    assert_eq!(content_length("HTTP/1.1 200 OK\r\nContent-Length: abc\r\nContent-Length: 7"), Some(7));
    assert_eq!(content_length("HTTP/1.1 200 OK\r\nContent-Length: +3"), Some(3));
    assert_eq!(content_length("HTTP/1.1 200 OK\r\nContent-Type: text/html"), None);
    assert_eq!(content_length("Content-Length: 99999999999999999999999999"), None);
}

#[test]
fn complete_response_may_carry_extra_bytes() {
    assert!(http_response_complete(b"HTTP/1.1 200 OK\r\nContent-Length: 2\r\n\r\nabc"));
    assert!(http_response_complete(b"HTTP/1.1 204 No Content\r\nContent-Length: 0\r\n\r\n"));
    assert!(!http_response_complete(b"HTTP/1.1 200 OK\r\n\r\nbody without length"));
}

#[test]
fn http_body_takes_text_after_headers() {
    match http_body("HTTP/1.1 200 OK\r\nContent-Length: 5\r\n\r\nhello") {
        Ok(b) => assert_eq!(b, "hello"),
        Err(_) => panic!("expected a body"),
    }
    match http_body("HTTP/1.1 200 OK\r\nA: b\r\n\r\nfirst\r\n\r\nsecond") {
        Ok(b) => assert_eq!(b, "first"),
        Err(_) => panic!("expected a body"),
    }
    match http_body("HTTP/1.1 200 OK\r\nA: b") {
        Ok(b) => assert_eq!(b, ""),
        Err(_) => panic!("expected an empty body"),
    }
    match http_body("HTTP/1.1 404 Not Found\r\n\r\nmissing") {
        Ok(_) => panic!("expected an error"),
        Err(e) => assert_eq!(e.status_line, "HTTP/1.1 404 Not Found"),
    }
}

#[test]
fn ws_url_prefers_pages() {
    let targets = vec![
        DebugTarget { target_type: Some("service_worker".into()), web_socket_debugger_url: Some("ws://sw".into()) },
        DebugTarget { target_type: Some("page".into()), web_socket_debugger_url: None },
        DebugTarget { target_type: Some("page".into()), web_socket_debugger_url: Some("ws://page".into()) },
    ];
    assert_eq!(select_ws_url(&targets).ok(), Some("ws://page".to_string()));
    let others = vec![
        DebugTarget { target_type: None, web_socket_debugger_url: None },
        DebugTarget { target_type: Some("iframe".into()), web_socket_debugger_url: Some("ws://frame".into()) },
    ];
    assert_eq!(select_ws_url(&others).ok(), Some("ws://frame".to_string()));
}

#[test]
fn ws_url_errors() {
    match select_ws_url(&[]) {
        Err(e) => {
            assert!(matches!(e, WsUrlError::NoTargets));
            assert_eq!(e.message(), "/json/list returned no debuggable targets yet");
        }
        Ok(_) => panic!("expected an error"),
    }
    let none = vec![DebugTarget { target_type: Some("page".into()), web_socket_debugger_url: None }];
    match select_ws_url(&none) {
        Err(e) => {
            assert!(matches!(e, WsUrlError::NoDebuggerUrl));
            assert_eq!(e.message(), "No webSocketDebuggerUrl found in /json/list targets");
        }
        Ok(_) => panic!("expected an error"),
    }
}

#[test]
fn iframe_found_by_url_part() {
    let frames = vec![tab("a", "Ads", "https://ads.example.com/x"), tab("b", "Pay", "https://pay.example.com/checkout")];
    let found = find_iframe(&frames, "pay.example").expect("frame");
    assert_eq!(found.target_id, "b");
    assert!(find_iframe(&frames, "nowhere").is_none());
}

#[test]
fn key_press_plans() {
    match plan_key_press("Control+C") {
        KeyPress::Chord { modifier_code, modifier, key_code, code, key } => {
            assert_eq!((modifier_code, modifier.as_str()), (17, "Control"));
            assert_eq!((key_code, code.as_str(), key.as_str()), (67, "KeyC", "c"));
        }
        _ => panic!("expected a chord"),
    }
    match plan_key_press(" Cmd + q ") {
        KeyPress::Chord { modifier_code, modifier, key_code, code, key } => {
            assert_eq!((modifier_code, modifier.as_str()), (91, "Meta"));
            assert_eq!((key_code, code.as_str(), key.as_str()), (113, "q", "q"));
        }
        _ => panic!("expected a chord"),
    }
    match plan_key_press("Hyper+") {
        KeyPress::Chord { modifier_code, modifier, key_code, code, key } => {
            assert_eq!((modifier_code, modifier.as_str()), (0, "Hyper"));
            assert_eq!((key_code, code.as_str(), key.as_str()), (0, "", ""));
        }
        _ => panic!("expected a chord"),
    }
    match plan_key_press("Enter") {
        KeyPress::Single { key_code, code, key } => {
            assert_eq!((key_code, code.as_str(), key.as_str()), (13, "Enter", "Enter"));
        }
        _ => panic!("expected a single key"),
    }
    match plan_key_press("F5") {
        KeyPress::Single { key_code, code, key } => {
            assert_eq!((key_code, code.as_str(), key.as_str()), (0, "F5", "F5"));
        }
        _ => panic!("expected a single key"),
    }
}

#[test]
fn js_escaping() {
    assert_eq!(escape_js_single_quoted(r"a'b\c"), r"a\'b\\c");
    assert_eq!(escape_js_single_quoted("plain"), "plain");
}

#[test]
fn skills_helpers() {
    assert_eq!(skill_file_name("login"), "login.md");
    let skills = vec![skill("login", "a"), skill("search", "b"), skill("login", "c")];
    let kept = filter_skills_by_name(skills, Some("login"));
    assert_eq!(kept.len(), 2);
    assert_eq!(kept[1].content, "c");
    let all = filter_skills_by_name(vec![skill("x", "1")], None);
    assert_eq!(all.len(), 1);
}

#[test]
fn runtime_platforms() {
    assert_eq!(platform_string("linux", "x86_64").ok(), Some("linux64"));
    assert_eq!(platform_string("macos", "aarch64").ok(), Some("mac-arm64"));
    assert_eq!(platform_string("macos", "x86_64").ok(), Some("mac-x64"));
    assert_eq!(platform_string("windows", "x86_64").ok(), Some("win64"));
    assert_eq!(platform_string("windows", "x86").ok(), Some("win32"));
    match platform_string("freebsd", "x86_64") {
        Err(e) => assert_eq!(e.os, "freebsd"),
        Ok(_) => panic!("expected an error"),
    }
}

#[test]
fn runtime_urls_and_paths() {
    let urls = cft_download_urls("131.0.6778.85", "linux64");
    assert_eq!(
        urls,
        vec![
            "https://storage.googleapis.com/chrome-for-testing-public/131.0.6778.85/linux64/chrome-headless-shell-linux64.zip".to_string(),
            "https://playwright.azureedge.net/chrome-for-testing-public/131.0.6778.85/linux64/chrome-headless-shell-linux64.zip".to_string(),
        ]
    );
    assert_eq!(
        binary_path_for_version("131.0", "win64", true),
        vec!["131.0".to_string(), "chrome-headless-shell-win64".to_string(), "chrome-headless-shell.exe".to_string()]
    );
    assert_eq!(binary_path_for_version("1", "linux64", false)[2], "chrome-headless-shell");
}

fn release(version: &str, platforms: &[&str]) -> KnownGoodVersionEntry {
    KnownGoodVersionEntry {
        version: version.into(),
        downloads: Downloads {
            chrome_headless_shell: platforms
                .iter()
                .map(|p| DownloadEntry { platform: p.to_string(), url: format!("https://x/{p}") })
                .collect(),
        },
    }
}

#[test]
fn runtime_latest_version() {
    let entries = vec![release("1", &["linux64", "win64"]), release("2", &["win64"]), release("3", &["mac-x64"])];
    assert_eq!(latest_version_for_platform(&entries, "linux64"), Some("1".to_string()));
    assert_eq!(latest_version_for_platform(&entries, "win64"), Some("2".to_string()));
    assert_eq!(latest_version_for_platform(&entries, "mac-arm64"), None);
    assert_eq!(chosen_version(None), FALLBACK_VERSION);
    assert_eq!(chosen_version(Some("5".into())), "5");
}

fn node(name: &str, role: &str, children: Vec<AccessibilityNode>) -> AccessibilityNode {
    AccessibilityNode {
        backend_dom_node_id: None,
        child_nodes: children,
        chrome_role: None,
        class_name: None,
        name: Some(name.into()),
        role: Some(role.into()),
    }
}

#[test]
fn accessibility_indexes_in_preorder() {
    let tree = vec![
        node("root", "main", vec![node("a", "button", vec![]), node("b", "link", vec![])]),
        node("c", "textbox", vec![]),
    ];
    assert_eq!(find_node_by_index(&tree, 0).and_then(|n| n.name.clone()), Some("root".to_string()));
    assert_eq!(find_node_by_index(&tree, 2).and_then(|n| n.name.clone()), Some("b".to_string()));
    assert_eq!(find_node_by_index(&tree, 3).and_then(|n| n.name.clone()), Some("c".to_string()));
    assert!(find_node_by_index(&tree, 4).is_none());
    let text = format_accessibility_tree(&tree);
    assert_eq!(
        text,
        "0\n  role: main, name: root\n1\n  role: button, name: a\n2\n  role: link, name: b\n3\n  role: textbox, name: c\n"
    );
    let mut bare = node("", "", vec![]);
    bare.name = None;
    let named_only = AccessibilityNode { role: None, ..node("n", "", vec![]) };
    assert_eq!(format_accessibility_tree(&[bare, named_only]), "0\n1\n  name: n\n");
}

#[test]
fn skill_files_are_markdown_notes() {
    assert_eq!(skill_name("login.md").as_deref(), Some("login"));
    assert_eq!(skill_name("archive.tar.md").as_deref(), Some("archive.tar"));
    assert_eq!(skill_name("notes.txt"), None);
    assert_eq!(skill_name("README"), None);
    assert_eq!(skill_name(".md"), None);
}

#[test]
fn key_events_for_chord_and_single_key() {
    let events = key_events(&plan_key_press("Control+C"));
    let kinds: Vec<&str> = events.iter().map(|e| e.kind.name()).collect();
    assert_eq!(kinds, vec!["rawKeyDown", "char", "keyUp"]);
    assert_eq!(events[0].key_code, 17);
    assert_eq!(events[0].key, "Control");
    assert_eq!(events[1].key_code, 67);
    assert_eq!(events[1].code, "KeyC");
    assert_eq!(events[1].text, Some("c".to_string()));
    assert_eq!(events[2].text, None);

    let events = key_events(&plan_key_press("Enter"));
    let kinds: Vec<&str> = events.iter().map(|e| e.kind.name()).collect();
    assert_eq!(kinds, vec!["keyDown", "keyUp"]);
    assert_eq!(events[0].key, "Enter");
    assert!(events.iter().all(|e| e.text.is_none()));
}

#[test]
fn skill_names_follow_std_path_extension() {
    let names = [
        "login.md", "a/b/notes.md", ".md", "x.md/", "dir/.md", "a.MD", "readme", "a.b.md", "..md",
        "a/./b.md", "notes.md/.", "..", "a/..", "/", "", "./x.md", "x.txt", "a.", "tricky.md.txt",
    ];
    for f in names {
        let std_md = std::path::Path::new(f).extension().and_then(|e| e.to_str()) == Some("md");
        let expected = if std_md && f.ends_with(".md") { Some(f[..f.len() - 3].to_string()) } else { None };
        assert_eq!(skill_name(f), expected, "{f}");
    }
    for name in ["github", "a.b", "x y", "..", "é"] {
        assert_eq!(skill_name(&skill_file_name(name)), Some(name.to_string()));
    }
}
