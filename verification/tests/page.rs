use tau_agent::page_scripts::{
    click_script, cookie_params, cookie_rejected_message, element_exists_script,
    element_timeout_message, event_key_code, fill_script, focus_script, key_event_script,
    load_timeout_message, navigation_error, navigation_ready, navigation_timeout_message,
    no_element_at_index_message, shadow_script, upload_target_missing_message, CookieFields,
    IdleStep, IdleWatch, ShadowAction,
};
use tau_agent::page_targets::{frame_list, page_tabs, FrameInfo, FrameTree, TargetInfo};

#[test]
fn selector_scripts() {
    assert_eq!(click_script("#go"), "document.querySelector('#go').click()");
    assert_eq!(focus_script("input"), "document.querySelector('input').focus()");
    assert_eq!(
        element_exists_script("a[title='x\\y']"),
        "document.querySelector('a[title=\\'x\\y\\']') !== null"
    );
    let fill = fill_script("a[title='x']");
    assert!(fill.starts_with("(() => {\n"));
    assert!(fill.contains("document.querySelector('a[title=\\'x\\']');"));
    assert!(fill.ends_with("el.select();\n                })()"));
}

#[test]
fn shadow_scripts_escape_both_selectors() {
    let q = shadow_script(ShadowAction::Query, "my-el", "b'c");
    assert!(q.contains("document.querySelector('my-el')"));
    assert!(q.contains("el.shadowRoot.querySelector('b\\'c')"));
    assert!(q.contains("return inner.outerHTML;"));
    let c = shadow_script(ShadowAction::Click, "x", "y");
    assert!(c.contains("inner.click();"));
    let f = shadow_script(ShadowAction::Focus, "x", "y");
    assert!(f.contains("inner.select();"));
}

#[test]
fn key_events() {
    assert_eq!(event_key_code("Enter"), 13);
    assert_eq!(event_key_code("ArrowDown"), 40);
    assert_eq!(event_key_code("a"), 97);
    assert_eq!(event_key_code(""), 0);
    let s = key_event_script("#q", "\"", "keydown");
    assert!(s.contains("new KeyboardEvent('keydown', {"));
    assert!(s.contains("key: '\\\"',"));
    assert!(s.contains("keyCode: 34,"));
    assert!(s.contains("which: 34,"));
}

#[test]
fn navigation_decisions() {
    assert!(navigation_ready("complete"));
    assert!(navigation_ready("interactive"));
    assert!(!navigation_ready("loading"));
    assert_eq!(navigation_error(Some("net::ERR_NAME_NOT_RESOLVED")).unwrap(), "Navigation failed: net::ERR_NAME_NOT_RESOLVED");
    assert!(navigation_error(Some("")).is_none());
    assert!(navigation_error(None).is_none());
    assert_eq!(
        navigation_timeout_message(30, "loading"),
        "Page did not reach readyState 'complete' or 'interactive' within 30s (last state: 'loading')"
    );
    assert_eq!(load_timeout_message(5000), "Page did not reach readyState 'complete' within 5000ms");
    assert_eq!(element_timeout_message("#x", 250), "Timeout waiting for element '#x' after 250ms");
    assert_eq!(upload_target_missing_message("#f"), "No element found for selector: #f");
    assert_eq!(no_element_at_index_message(12), "No element found at index 12");
}

#[test]
fn network_idle_wait() {
    let mut w = IdleWatch::new(1_000, 5_000, 500);
    assert!(matches!(w.observe(1_100, true), IdleStep::Wait));
    assert!(matches!(w.observe(1_200, false), IdleStep::Wait));
    assert_eq!(w.last_activity, 1_200);
    assert!(matches!(w.observe(1_600, true), IdleStep::Wait));
    assert!(matches!(w.observe(1_700, true), IdleStep::Idle));
    let mut busy = IdleWatch::new(0, 1_000, 500);
    assert!(matches!(busy.observe(1_001, false), IdleStep::TimedOut));
}

#[test]
fn cookie_defaults() {
    let c = cookie_params(&CookieFields {
        name: Some("sid".to_string()),
        value: None,
        domain: Some("example.com".to_string()),
        path: None,
        secure: Some(true),
        http_only: None,
        same_site: None,
    })
    .unwrap();
    assert_eq!(c.name, "sid");
    assert_eq!(c.value, "");
    assert_eq!(c.path, "/");
    assert!(c.secure);
    assert!(!c.http_only);
    assert_eq!(c.same_site, "None");
    let missing = CookieFields { name: None, value: None, domain: None, path: None, secure: None, http_only: None, same_site: None };
    assert!(cookie_params(&missing).is_none());
    assert_eq!(cookie_rejected_message("sid", "example.com"), "Failed to set cookie 'sid' for domain 'example.com'");
}

#[test]
fn tabs_are_page_targets() {
    let t = |k: &str, id: &str| TargetInfo {
        target_type: Some(k.to_string()),
        target_id: Some(id.to_string()),
        title: Some(format!("title {id}")),
        url: None,
        attached: Some(true),
    };
    let tabs = page_tabs(&vec![t("page", "A"), t("iframe", "B"), t("page", "C")]);
    assert_eq!(tabs.len(), 2);
    assert_eq!(tabs[0].target_id, "A");
    assert_eq!(tabs[1].title, "title C");
    assert_eq!(tabs[1].url, "");
    assert!(tabs[1].is_attached);
}

#[test]
fn frames_in_pre_order() {
    let frame = |id: Option<&str>, url: &str, children: Vec<FrameTree>| FrameTree {
        frame: Some(FrameInfo { id: id.map(|s| s.to_string()), title: None, url: Some(url.to_string()) }),
        children,
    };
    let tree = frame(
        Some("main"),
        "https://a.example/",
        vec![
            frame(Some("f1"), "https://b.example/", vec![frame(Some("f1a"), "https://c.example/", vec![])]),
            frame(None, "https://skip.example/", vec![frame(Some("f2a"), "https://d.example/", vec![])]),
        ],
    );
    let frames = frame_list(&tree);
    let ids: Vec<&str> = frames.iter().map(|f| f.target_id.as_str()).collect();
    assert_eq!(ids, vec!["main", "f1", "f1a", "f2a"]);
    assert!(frames.iter().all(|f| f.is_attached));
    assert_eq!(frames[2].url, "https://c.example/");
}
