use tau_agent::browser_skills::DomainSkill;
use tau_agent::browser_tool::{
    chrome_error, validate_url, BrowserClickOutput, BrowserCookiesDeleteToolInput, BrowserDetection,
    BrowserDispatchKeyToolInput, BrowserDownloadsToolInput, BrowserFillByIndexToolInput,
    BrowserIframeOutput, BrowserNavigateTool, BrowserScreenshotOutput, BrowserSkillListOutput,
    BrowserSkillReadOutput, BrowserTabsOutput, BrowserTabsToolInput, BrowserToolOutput,
    BrowserWaitForLoadOutput, BrowserWaitForLoadToolInput, BrowserWaitForNetworkIdleToolInput,
    BrowserWaitToolInput, DownloadsRequest, TabsRequest, ToolResultContent, BrowserCloseTool,
    BrowserShadowDomQueryOutput,
};
use tau_agent::cdp::TabInfo;

fn text(c: ToolResultContent) -> String {
    match c {
        ToolResultContent::Text(t) => t,
        ToolResultContent::Image(_) => panic!("expected text"),
    }
}

#[test]
fn navigate_output_text() {
    let out = BrowserToolOutput::Success { title: "T".into(), content: "body".into(), url: "https://x".into() };
    assert_eq!(text(out.to_content()), "# T\n\nURL: https://x\n\nbody");
    let err = BrowserToolOutput::Error { error: "boom".into() };
    assert_eq!(text(err.to_content()), "boom");
}

#[test]
fn screenshot_output_is_image() {
    match (BrowserScreenshotOutput::Success { screenshot_base64: "AAAA".into() }).to_content() {
        ToolResultContent::Image(s) => assert_eq!(s, "AAAA"),
        ToolResultContent::Text(_) => panic!("expected an image"),
    }
}

#[test]
fn fixed_texts() {
    assert_eq!(text(BrowserClickOutput::Success { success: true }.to_content()), "Element clicked successfully");
    assert_eq!(text(BrowserWaitForLoadOutput::Success { loaded: false }.to_content()), "Page load timed out");
    assert_eq!(text(BrowserWaitForLoadOutput::Success { loaded: true }.to_content()), "Page loaded successfully");
    assert_eq!(text(BrowserShadowDomQueryOutput::Success { result: "<b>x</b>".into() }.to_content()), "<b>x</b>");
    assert_eq!(BrowserNavigateTool::name(), "browser_navigate");
    assert_eq!(BrowserNavigateTool.initial_title(), "Browsing the web");
    assert_eq!(BrowserCloseTool.initial_title(), "Closing browser");
}

#[test]
fn list_texts() {
    let tabs = vec![
        TabInfo { target_id: "1".into(), title: "A".into(), url: "https://a".into(), is_attached: true },
        TabInfo { target_id: "2".into(), title: "B".into(), url: "https://b".into(), is_attached: false },
    ];
    assert_eq!(text(BrowserTabsOutput::Success { tabs }.to_content()), "- 1 (A): https://a\n- 2 (B): https://b");
    assert_eq!(text(BrowserTabsOutput::Success { tabs: vec![] }.to_content()), "");
    let frame = TabInfo { target_id: "f".into(), title: "Pay".into(), url: "https://pay".into(), is_attached: false };
    assert_eq!(text(BrowserIframeOutput::Success { iframe: Some(frame) }.to_content()), "Found iframe: Pay (https://pay)");
    assert_eq!(
        text(BrowserIframeOutput::Success { iframe: None }.to_content()),
        "No iframe found matching the URL substring"
    );
    let skills = vec![
        DomainSkill { site: "s".into(), name: "login".into(), content: "step".into(), created_at: String::new(), updated_at: String::new() },
        DomainSkill { site: "s".into(), name: "search".into(), content: "type".into(), created_at: String::new(), updated_at: String::new() },
    ];
    assert_eq!(
        text(BrowserSkillReadOutput::Success { skills }.to_content()),
        "## login\n\nstep\n\n---\n\n## search\n\ntype"
    );
    assert_eq!(text(BrowserSkillReadOutput::Success { skills: vec![] }.to_content()), "No skills found for this site");
    assert_eq!(
        text(BrowserSkillListOutput::Success { sites: vec!["github".into(), "docs".into()] }.to_content()),
        "- github\n- docs"
    );
    assert_eq!(text(BrowserSkillListOutput::Success { sites: vec![] }.to_content()), "No domain skills saved yet");
}

#[test]
fn detection_and_errors() {
    let b = BrowserDetection { path: "/usr/bin/chromium".into(), name: "Chromium", os: "macos" };
    assert_eq!(b.human_name(), "Chromium");
    assert_eq!(b.install_command(), "brew install --cask chromium");
    let msg = chrome_error(Some(&b), "linux");
    assert!(msg.starts_with("Found Chromium at /usr/bin/chromium but it cannot run in headless mode.\n\nPossible causes:\n"));
    assert!(msg.contains("/usr/bin/chromium --headless=new --no-sandbox --disable-gpu --dump-dom about:blank\n\nInstall command: brew install --cask chromium\n\n"));
    assert!(msg.contains("fewer dependencies:\nsudo apt install chromium-browser\n\nTip: Set TAU_CHROME_PATH"));
    assert!(msg.ends_with("Example: export TAU_CHROME_PATH=/usr/bin/chromium-browser"));
    let none = chrome_error(None, "windows");
    assert!(none.starts_with("No Chromium-based browser found or browser cannot run in headless mode.\n\nDetected OS: windows\n\nInstall one of these:\n  - Google Chrome: https://www.google.com/chrome/\n"));
    assert!(none.contains("headless dependencies.\n\nTip: Set TAU_CHROME_PATH environment variable to the full path of your browser executable to bypass auto-detection.\n"));
    let other = chrome_error(None, "plan9");
    assert!(other.contains("  - Any Chromium-based browser (Chrome, Chromium, Brave, Edge)\n"));
}

#[test]
fn urls_are_normalized() {
    assert_eq!(validate_url("example.com").ok(), Some("https://example.com".to_string()));
    assert_eq!(validate_url("http://example.com").ok(), Some("http://example.com".to_string()));
    assert_eq!(validate_url("file:///etc/passwd").ok(), Some("https://file:///etc/passwd".to_string()));
    assert_eq!(validate_url("javascript:alert(1)").ok(), Some("https://javascript:alert(1)".to_string()));
}

#[test]
fn tool_defaults() {
    assert_eq!(BrowserWaitToolInput { selector: "#a".into(), timeout_ms: None }.timeout_or_default(), 10000);
    assert_eq!(BrowserWaitToolInput { selector: "#a".into(), timeout_ms: Some(5) }.timeout_or_default(), 5);
    assert_eq!(BrowserWaitForLoadToolInput { timeout_ms: None }.timeout_or_default(), 15000);
    let idle = BrowserWaitForNetworkIdleToolInput { timeout_ms: None, idle_ms: None };
    assert_eq!((idle.timeout_or_default(), idle.idle_or_default()), (10000, 500));
    assert!(!BrowserFillByIndexToolInput { index: 1, value: "v".into(), clear: None }.clear_or_default());
    let key = BrowserDispatchKeyToolInput { selector: "#a".into(), key: "a".into(), event_type: None };
    assert_eq!(key.event_type_or_default(), "keypress");
    let cookie = BrowserCookiesDeleteToolInput { name: "n".into(), domain: "d".into(), path: None };
    assert_eq!(cookie.path_or_default(), "/");
}

#[test]
fn tabs_requests() {
    let list = BrowserTabsToolInput { action: "list".into(), target_id: None };
    assert!(matches!(list.request(), Ok(TabsRequest::List)));
    let switch = BrowserTabsToolInput { action: "switch".into(), target_id: Some("7".into()) };
    match switch.request() {
        Ok(TabsRequest::Switch(id)) => assert_eq!(id, "7"),
        _ => panic!("expected a switch"),
    }
    let close = BrowserTabsToolInput { action: "close".into(), target_id: None };
    assert_eq!(close.request().err(), Some("target_id required for close".to_string()));
    let bad = BrowserTabsToolInput { action: "open".into(), target_id: None };
    assert_eq!(bad.request().err(), Some("Unknown action: open. Use 'list', 'switch', or 'close'".to_string()));
}

#[test]
fn downloads_requests() {
    assert!(matches!(BrowserDownloadsToolInput { action: None }.request(), Ok(DownloadsRequest::List)));
    assert!(matches!(BrowserDownloadsToolInput { action: Some("start".into()) }.request(), Ok(DownloadsRequest::Start)));
    assert_eq!(
        BrowserDownloadsToolInput { action: Some("stop".into()) }.request().err(),
        Some("Unknown action: stop. Use 'start' or 'list'".to_string())
    );
}
