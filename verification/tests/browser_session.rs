use tau_agent::cdp_session::{
    exited_message, launch_args, message_kind, probe_args, CdpMessageKind, DownloadLog, JsonField,
    StartupPoll, StartupStep, STARTUP_ATTEMPTS,
};
use tau_agent::rag_search::{RagDomain, RAG_DOMAIN};

fn field_text(f: &JsonField) -> (bool, String) {
    match f {
        JsonField::Str(s) => (true, s.clone()),
        JsonField::Raw(s) => (false, s.clone()),
    }
}

fn record_of(log: &DownloadLog, guid: &str) -> Option<Vec<(String, (bool, String))>> {
    for (g, record) in log.entries().iter() {
        if g == guid {
            return Some(
                record.entries().iter().map(|(k, v)| (k.clone(), field_text(v))).collect(),
            );
        }
    }
    None
}

fn value<'a>(record: &'a [(String, (bool, String))], key: &str) -> Option<&'a (bool, String)> {
    record.iter().find(|(k, _)| k == key).map(|(_, v)| v)
}

#[test]
fn launch_args_carry_port_and_profile() {
    let args = launch_args(9222, "/tmp/profile");
    assert_eq!(
        args,
        vec![
            "--headless=new",
            "--disable-gpu",
            "--no-sandbox",
            "--disable-dev-shm-usage",
            "--disable-extensions",
            "--window-size=1280,720",
            "--remote-debugging-port=9222",
            "--user-data-dir=/tmp/profile",
            "about:blank",
        ]
    );
}

#[test]
fn probe_args_carry_port() {
    let args = probe_args(0);
    assert_eq!(args[5], "--remote-debugging-port=0");
    assert_eq!(args.len(), 7);
    assert_eq!(args[6], "about:blank");
}

#[test]
fn startup_poll_connects_on_url() {
    let mut poll = StartupPoll::new();
    match poll.record(false, Ok("ws://127.0.0.1/devtools".to_string())) {
        StartupStep::Connect(url) => assert_eq!(url, "ws://127.0.0.1/devtools"),
        _ => panic!("expected connect"),
    }
    assert_eq!(poll.attempt, 0);
}

#[test]
fn startup_poll_reports_exit() {
    let mut poll = StartupPoll::new();
    assert!(matches!(poll.record(true, Err("refused".to_string())), StartupStep::Exited));
    assert_eq!(
        exited_message(9333, "/usr/bin/chromium"),
        "Browser process exited early during startup on port 9333. Check that '/usr/bin/chromium' is a valid Chrome/Chromium binary."
    );
}

#[test]
fn startup_poll_gives_up_after_last_attempt() {
    let mut poll = StartupPoll::new();
    assert_eq!(poll.last_error, "no attempts made");
    for i in 1..STARTUP_ATTEMPTS {
        assert!(matches!(poll.record(false, Err(format!("error {i}"))), StartupStep::Wait));
    }
    assert!(matches!(poll.record(false, Err("last".to_string())), StartupStep::GiveUp));
    assert_eq!(poll.attempt, STARTUP_ATTEMPTS);
    assert_eq!(
        poll.give_up_message(9222),
        "Failed to get WebSocket URL from browser debug port 9222. Last error: last"
    );
}

#[test]
fn message_kinds() {
    assert!(matches!(message_kind(7, Some(7), None, false), CdpMessageKind::Reply));
    assert!(matches!(message_kind(7, Some(8), Some("Page.downloadWillBegin"), true), CdpMessageKind::Other));
    assert!(matches!(message_kind(7, None, Some("Page.downloadWillBegin"), true), CdpMessageKind::DownloadBegin));
    assert!(matches!(message_kind(7, None, Some("Browser.downloadWillBegin"), true), CdpMessageKind::DownloadBegin));
    assert!(matches!(message_kind(7, None, Some("Browser.downloadProgress"), true), CdpMessageKind::DownloadProgress));
    assert!(matches!(message_kind(7, None, Some("Page.downloadProgress"), false), CdpMessageKind::Other));
    assert!(matches!(message_kind(7, None, Some("Page.loadEventFired"), true), CdpMessageKind::Other));
    assert!(matches!(message_kind(7, None, None, true), CdpMessageKind::Other));
}

#[test]
fn download_begin_then_progress() {
    let mut log = DownloadLog::new();
    let begin = vec![
        ("guid".to_string(), JsonField::Str("g1".to_string())),
        ("url".to_string(), JsonField::Str("https://example.com/a.zip".to_string())),
        ("suggestedFilename".to_string(), JsonField::Str("a.zip".to_string())),
    ];
    log.begin(&begin);
    let record = record_of(&log, "g1").unwrap();
    assert_eq!(value(&record, "state"), Some(&(true, "in_progress".to_string())));
    assert_eq!(value(&record, "suggestedFilename"), Some(&(true, "a.zip".to_string())));

    let progress = vec![
        ("guid".to_string(), JsonField::Str("g1".to_string())),
        ("state".to_string(), JsonField::Str("completed".to_string())),
        ("receivedBytes".to_string(), JsonField::Raw("10".to_string())),
        ("totalBytes".to_string(), JsonField::Raw("10".to_string())),
        ("other".to_string(), JsonField::Raw("1".to_string())),
    ];
    log.progress(&progress);
    let record = record_of(&log, "g1").unwrap();
    assert_eq!(value(&record, "state"), Some(&(true, "completed".to_string())));
    assert_eq!(value(&record, "receivedBytes"), Some(&(false, "10".to_string())));
    assert_eq!(value(&record, "url"), Some(&(true, "https://example.com/a.zip".to_string())));
    assert_eq!(value(&record, "other"), None);
    assert_eq!(log.entries().len(), 1);
}

#[test]
fn download_progress_without_begin_starts_record() {
    let mut log = DownloadLog::new();
    log.progress(&vec![
        ("guid".to_string(), JsonField::Str("g2".to_string())),
        ("receivedBytes".to_string(), JsonField::Raw("3".to_string())),
    ]);
    let record = record_of(&log, "g2").unwrap();
    assert_eq!(record.len(), 2);
    assert_eq!(value(&record, "guid"), Some(&(true, "g2".to_string())));
    assert_eq!(value(&record, "receivedBytes"), Some(&(false, "3".to_string())));
}

#[test]
fn download_events_without_guid_are_dropped() {
    let mut log = DownloadLog::new();
    log.begin(&vec![("url".to_string(), JsonField::Str("x".to_string()))]);
    log.progress(&vec![("guid".to_string(), JsonField::Raw("5".to_string()))]);
    assert!(log.entries().is_empty());
}

#[test]
fn rag_domain_names_and_migrations() {
    assert_eq!(RagDomain::name(), RAG_DOMAIN);
    assert_eq!(RagDomain::name(), "rag_store");
    let migrations = RagDomain::migrations();
    assert_eq!(migrations.len(), 8);
    assert!(migrations[0].starts_with("CREATE TABLE IF NOT EXISTS files"));
    assert!(migrations[1].starts_with("CREATE TABLE IF NOT EXISTS chunks"));
    assert!(migrations[4].contains("fts5"));
}
