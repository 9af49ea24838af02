use tau_agent::browser_detection::{
    custom_browser, custom_headless_warning, find_browser_candidates, headless_exit_message,
    headless_step, probe_response_ready, which_browser_name, which_command, which_detection,
    which_lookup_names, ChromeSearch, HeadlessStatus, HeadlessStep, ProbeOutcome,
    HEADLESS_TIMEOUT_MESSAGE,
};
use tau_agent::browser_runtime::{
    not_functional_message, system_chrome_candidates, system_runtime, DownloadAttempts,
    FetchOutcome, SystemCandidate,
};

fn view(c: &SystemCandidate) -> (bool, String, String) {
    match c {
        SystemCandidate::InPath { dir, name } => (true, dir.clone(), name.to_string()),
        SystemCandidate::Fixed(p) => (false, p.clone(), String::new()),
    }
}

#[test]
fn linux_candidates_start_with_google_chrome() {
    let c = find_browser_candidates("linux", "", "", "");
    assert_eq!(c.len(), 12);
    assert_eq!(c[0].path, "/usr/bin/google-chrome");
    assert_eq!(c[0].name, "Google Chrome");
    assert_eq!(c[6].path, "/snap/bin/chromium");
    assert_eq!(c[6].name, "Chromium (Snap)");
    assert!(c.iter().all(|d| d.os == "linux"));
}

#[test]
fn unknown_os_uses_linux_paths() {
    let c = find_browser_candidates("unknown", "", "", "");
    assert_eq!(c.len(), 12);
    assert_eq!(c[11].path, "/usr/bin/microsoft-edge-stable");
}

#[test]
fn macos_and_windows_candidates() {
    let m = find_browser_candidates("macos", "", "", "");
    assert_eq!(m.len(), 6);
    assert_eq!(m[5].path, "/Applications/Arc.app/Contents/MacOS/Arc");
    let w = find_browser_candidates("windows", "C:\\Local", "C:\\PF", "C:\\PF86");
    assert_eq!(w.len(), 6);
    assert_eq!(w[0].path, "C:\\Local\\Google\\Chrome\\Application\\chrome.exe");
    assert_eq!(w[4].path, "C:\\PF86\\Microsoft\\Edge\\Application\\msedge.exe");
    assert_eq!(w[5].name, "Brave Browser");
}

#[test]
fn which_lookups() {
    assert_eq!(which_command(true), "where");
    assert_eq!(which_command(false), "which");
    let names = which_lookup_names();
    assert_eq!(names, vec!["google-chrome", "chromium", "chromium-browser", "chrome", "brave-browser", "microsoft-edge"]);
    assert_eq!(which_browser_name("chrome"), "Google Chrome");
    assert_eq!(which_browser_name("chromium-browser"), "Chromium");
    assert_eq!(which_browser_name("other"), "Chromium-based browser");
    let d = which_detection("brave-browser", b"  /usr/bin/brave-browser\n", "linux").unwrap();
    assert_eq!(d.path, "/usr/bin/brave-browser");
    assert_eq!(d.name, "Brave Browser");
    assert!(which_detection("chromium", b" \n", "linux").is_none());
}

#[test]
fn custom_path_is_trimmed() {
    let d = custom_browser("  /opt/chrome/chrome \n", "linux").unwrap();
    assert_eq!(d.path, "/opt/chrome/chrome");
    assert_eq!(d.name, "Custom Browser");
    assert!(custom_browser("   ", "linux").is_none());
    assert_eq!(
        custom_headless_warning("/opt/chrome"),
        "TAU_CHROME_PATH is set but browser cannot run headless: /opt/chrome"
    );
}

#[test]
fn search_lists_browsers_that_failed() {
    let c = find_browser_candidates("linux", "", "", "");
    let mut search = ChromeSearch::new();
    assert!(search.warning().is_none());
    assert!(!search.record(&c[0], ProbeOutcome::Missing));
    assert!(!search.record(&c[4], ProbeOutcome::Failed));
    assert!(!search.record(&c[8], ProbeOutcome::Failed));
    assert_eq!(search.failed.len(), 2);
    assert_eq!(
        search.warning().unwrap(),
        "Found browsers but none can run headless: Chromium (/usr/bin/chromium), Brave Browser (/usr/bin/brave-browser)"
    );
    assert!(search.record(&c[1], ProbeOutcome::Works));
    assert_eq!(search.failed.len(), 2);
}

#[test]
fn headless_check_steps() {
    assert!(probe_response_ready(b"HTTP/1.1 200 OK\r\n\r\n{\"webSocketDebuggerUrl\": \"ws://x\"}"));
    assert!(!probe_response_ready(b"HTTP/1.1 404 Not Found\r\n\r\n"));
    assert_eq!(
        headless_exit_message(Some(1), "line one\nline two\r\nline three\nline four"),
        "Chrome headless test failed (exit 1): line one | line two | line three"
    );
    assert_eq!(headless_exit_message(None, ""), "Chrome headless test failed (exit -1): ");
    assert_eq!(headless_exit_message(Some(-11), "crash"), "Chrome headless test failed (exit -11): crash");
    match headless_step(HeadlessStatus::Running, true) {
        HeadlessStep::KillAndFail(m) => assert_eq!(m, HEADLESS_TIMEOUT_MESSAGE),
        _ => panic!("expected a timeout"),
    }
    assert!(matches!(headless_step(HeadlessStatus::Running, false), HeadlessStep::Probe));
    match headless_step(HeadlessStatus::WaitFailed("gone".to_string()), false) {
        HeadlessStep::Fail(m) => assert_eq!(m, "Failed to check Chrome headless test status: gone"),
        _ => panic!("expected a failure"),
    }
    match headless_step(HeadlessStatus::Exited { code: Some(2), stderr: "bad".to_string() }, false) {
        HeadlessStep::Fail(m) => assert_eq!(m, "Chrome headless test failed (exit 2): bad"),
        _ => panic!("expected a failure"),
    }
}

#[test]
fn system_candidates_in_search_path_then_fixed() {
    let dirs = vec!["/usr/local/bin".to_string(), "/usr/bin".to_string()];
    let c = system_chrome_candidates("linux", &dirs, None, None, None);
    let v: Vec<_> = c.iter().map(view).collect();
    assert_eq!(v.len(), 8);
    assert_eq!(v[0], (true, "/usr/local/bin".to_string(), "google-chrome".to_string()));
    assert_eq!(v[3], (true, "/usr/local/bin".to_string(), "chromium".to_string()));
    assert_eq!(v[4], (true, "/usr/bin".to_string(), "google-chrome".to_string()));

    let mac = system_chrome_candidates("macos", &vec!["/bin".to_string()], None, None, None);
    assert_eq!(mac.len(), 5);
    assert_eq!(view(&mac[3]), (false, "/Applications/Google Chrome.app/Contents/MacOS/Google Chrome".to_string(), String::new()));

    let win = system_chrome_candidates("windows", &vec![], Some("C:\\PF"), None, Some("C:\\L"));
    let v: Vec<_> = win.iter().map(view).collect();
    assert_eq!(v.len(), 4);
    assert_eq!(v[0].1, "C:\\PF\\Google\\Chrome\\Application\\chrome.exe");
    assert_eq!(v[1].1, "C:\\PF\\Chromium\\Application\\chrome.exe");
    assert_eq!(v[2].1, "C:\\L\\Google\\Chrome\\Application\\chrome.exe");
}

#[test]
fn download_attempts_remember_last_error() {
    let mut a = DownloadAttempts::new();
    assert!(!a.record(FetchOutcome::Status { code: 404, text: "404 Not Found".to_string() }));
    assert_eq!(a.last_error, "HTTP 404 Not Found");
    assert!(!a.record(FetchOutcome::Failed("connection refused".to_string())));
    assert_eq!(
        a.failure_message(),
        "Failed to download Chrome for Testing from all sources. Last error: connection refused. Try installing Chrome/Chromium on your system so the browser tool can use it directly."
    );
    assert!(a.record(FetchOutcome::Status { code: 200, text: "200 OK".to_string() }));
    assert_eq!(a.last_error, "connection refused");
    assert_eq!(
        not_functional_message("/x/chrome-headless-shell"),
        "Downloaded Chrome for Testing binary at /x/chrome-headless-shell is not functional"
    );
    let rt = system_runtime("/usr/bin/chromium".to_string());
    assert_eq!(rt.version, "system");
}
