use vstd::prelude::*;
use vstd::string::StringExecFns;
use crate::cdp::{escape_js_single_quoted, spec_escape_js};
use crate::text::{chars_of, dec_string, spec_dec, str_eq, string_from_chars, usize_dec_string};

verus! {

// ---- escaping ----

/// How one character is written when only single quotes are escaped.
pub open spec fn quote_escape_char(c: char) -> Seq<char> {
    if c == '\'' {
        seq!['\\', '\'']
    } else {
        seq![c]
    }
}

/// `s` with single quotes escaped and backslashes kept, as
/// `s.replace('\'', "\\'")` gives it.
pub open spec fn spec_escape_quotes(s: Seq<char>) -> Seq<char>
    decreases s.len(),
{
    if s.len() == 0 {
        seq![]
    } else {
        spec_escape_quotes(s.drop_last()) + quote_escape_char(s.last())
    }
}

/// How one character is written inside a double-quoted JavaScript string.
pub open spec fn dq_escape_char(c: char) -> Seq<char> {
    if c == '\\' {
        seq!['\\', '\\']
    } else if c == '"' {
        seq!['\\', '"']
    } else {
        seq![c]
    }
}

/// `s` with backslashes doubled and double quotes escaped, as
/// `s.replace('\\', "\\\\").replace('"', "\\\"")` gives it.
pub open spec fn spec_escape_dq(s: Seq<char>) -> Seq<char>
    decreases s.len(),
{
    if s.len() == 0 {
        seq![]
    } else {
        spec_escape_dq(s.drop_last()) + dq_escape_char(s.last())
    }
}

fn escape_quotes(s: &str) -> (r: String)
    ensures
        r@ == spec_escape_quotes(s@),
{
    let chars = chars_of(s);
    let mut out: Vec<char> = Vec::new();
    let mut i: usize = 0;
    while i < chars.len()
        invariant
            i <= chars@.len(),
            out@ == spec_escape_quotes(chars@.take(i as int)),
        decreases chars@.len() - i,
    {
        let c = chars[i];
        proof {
            assert(chars@.take(i + 1).drop_last() =~= chars@.take(i as int));
        }
        if c == '\'' {
            out.push('\\');
            out.push('\'');
        } else {
            out.push(c);
        }
        proof {
            assert(out@ =~= spec_escape_quotes(chars@.take(i + 1)));
        }
        i = i + 1;
    }
    proof {
        assert(chars@.take(chars@.len() as int) =~= chars@);
    }
    string_from_chars(&out)
}

fn escape_dq(s: &str) -> (r: String)
    ensures
        r@ == spec_escape_dq(s@),
{
    let chars = chars_of(s);
    let mut out: Vec<char> = Vec::new();
    let mut i: usize = 0;
    while i < chars.len()
        invariant
            i <= chars@.len(),
            out@ == spec_escape_dq(chars@.take(i as int)),
        decreases chars@.len() - i,
    {
        let c = chars[i];
        proof {
            assert(chars@.take(i + 1).drop_last() =~= chars@.take(i as int));
        }
        if c == '\\' {
            out.push('\\');
            out.push('\\');
        } else if c == '"' {
            out.push('\\');
            out.push('"');
        } else {
            out.push(c);
        }
        proof {
            assert(out@ =~= spec_escape_dq(chars@.take(i + 1)));
        }
        i = i + 1;
    }
    proof {
        assert(chars@.take(chars@.len() as int) =~= chars@);
    }
    string_from_chars(&out)
}

// ---- scripts run in the page ----

/// The script that clicks the first element matching `selector` (taken as
/// it is).
pub fn click_script(selector: &str) -> (r: String)
    ensures
        r@ == "document.querySelector('"@ + selector@ + "').click()"@,
{
    let mut s = String::from_str("document.querySelector('");
    s.append(selector);
    s.append("').click()");
    s
}

/// The script that focuses the first element matching `selector` (taken as
/// it is).
pub fn focus_script(selector: &str) -> (r: String)
    ensures
        r@ == "document.querySelector('"@ + selector@ + "').focus()"@,
{
    let mut s = String::from_str("document.querySelector('");
    s.append(selector);
    s.append("').focus()");
    s
}

/// The script that tells whether an element matches `selector` (its single
/// quotes escaped).
pub fn element_exists_script(selector: &str) -> (r: String)
    ensures
        r@ == "document.querySelector('"@ + spec_escape_quotes(selector@) + "') !== null"@,
{
    let mut s = String::from_str("document.querySelector('");
    let e = escape_quotes(selector);
    s.append(e.as_str());
    s.append("') !== null");
    s
}

pub const FILL_SCRIPT_START: &'static str = "(() => {\n                    const el = document.querySelector('";
pub const FILL_SCRIPT_END: &'static str = "');\n                    if (!el) return;\n                    el.focus();\n                    el.select();\n                })()";

/// The script that focuses and selects the first element matching
/// `selector` before its value is typed over.
pub fn fill_script(selector: &str) -> (r: String)
    ensures
        r@ == FILL_SCRIPT_START@ + spec_escape_js(selector@) + FILL_SCRIPT_END@,
{
    let mut s = String::from_str(FILL_SCRIPT_START);
    let e = escape_js_single_quoted(selector);
    s.append(e.as_str());
    s.append(FILL_SCRIPT_END);
    s
}

pub const SHADOW_HOST_START: &'static str = "(() => {\n                const el = document.querySelector('";
pub const SHADOW_QUERY_MIDDLE: &'static str = "');\n                if (!el || !el.shadowRoot) return null;\n                const inner = el.shadowRoot.querySelector('";
pub const SHADOW_QUERY_END: &'static str = "');\n                if (!inner) return null;\n                return inner.outerHTML;\n            })()";
pub const SHADOW_ACTION_MIDDLE: &'static str = "');\n                if (!el || !el.shadowRoot) return false;\n                const inner = el.shadowRoot.querySelector('";
pub const SHADOW_CLICK_END: &'static str = "');\n                if (!inner) return false;\n                inner.click();\n                return true;\n            })()";
pub const SHADOW_FILL_END: &'static str = "');\n                if (!inner) return false;\n                inner.focus();\n                inner.select();\n                return true;\n            })()";

/// What a script does with the element inside a shadow root.
pub enum ShadowAction {
    /// Gives its HTML, or null.
    Query,
    /// Clicks it; gives whether it was found.
    Click,
    /// Focuses and selects it; gives whether it was found.
    Focus,
}

/// The script that finds `inner_selector` inside the shadow root of the
/// element matching `shadow_selector` (both escaped) and acts on it.
pub open spec fn spec_shadow_script(action: ShadowAction, shadow: Seq<char>, inner: Seq<char>) -> Seq<char> {
    let (middle, end) = match action {
        ShadowAction::Query => (SHADOW_QUERY_MIDDLE@, SHADOW_QUERY_END@),
        ShadowAction::Click => (SHADOW_ACTION_MIDDLE@, SHADOW_CLICK_END@),
        ShadowAction::Focus => (SHADOW_ACTION_MIDDLE@, SHADOW_FILL_END@),
    };
    SHADOW_HOST_START@ + spec_escape_js(shadow) + middle + spec_escape_js(inner) + end
}

pub fn shadow_script(action: ShadowAction, shadow_selector: &str, inner_selector: &str) -> (r: String)
    ensures
        r@ == spec_shadow_script(action, shadow_selector@, inner_selector@),
{
    let mut s = String::from_str(SHADOW_HOST_START);
    let shadow = escape_js_single_quoted(shadow_selector);
    s.append(shadow.as_str());
    match action {
        ShadowAction::Query => s.append(SHADOW_QUERY_MIDDLE),
        _ => s.append(SHADOW_ACTION_MIDDLE),
    }
    let inner = escape_js_single_quoted(inner_selector);
    s.append(inner.as_str());
    match action {
        ShadowAction::Query => s.append(SHADOW_QUERY_END),
        ShadowAction::Click => s.append(SHADOW_CLICK_END),
        ShadowAction::Focus => s.append(SHADOW_FILL_END),
    }
    s
}

/// The key code sent with a key event: the usual code of a named key, else
/// the code of the key's first character (0 for an empty key).
pub open spec fn spec_event_key_code(key: Seq<char>) -> u32 {
    if key == "Enter"@ {
        13
    } else if key == "Tab"@ {
        9
    } else if key == "Escape"@ {
        27
    } else if key == "Backspace"@ {
        8
    } else if key == "Delete"@ {
        46
    } else if key == " "@ {
        32
    } else if key == "ArrowLeft"@ {
        37
    } else if key == "ArrowUp"@ {
        38
    } else if key == "ArrowRight"@ {
        39
    } else if key == "ArrowDown"@ {
        40
    } else if key.len() > 0 {
        key[0] as u32
    } else {
        0
    }
}

pub fn event_key_code(key: &str) -> (r: u32)
    ensures
        r == spec_event_key_code(key@),
{
    if str_eq(key, "Enter") {
        13
    } else if str_eq(key, "Tab") {
        9
    } else if str_eq(key, "Escape") {
        27
    } else if str_eq(key, "Backspace") {
        8
    } else if str_eq(key, "Delete") {
        46
    } else if str_eq(key, " ") {
        32
    } else if str_eq(key, "ArrowLeft") {
        37
    } else if str_eq(key, "ArrowUp") {
        38
    } else if str_eq(key, "ArrowRight") {
        39
    } else if str_eq(key, "ArrowDown") {
        40
    } else {
        let chars = chars_of(key);
        if chars.len() > 0 {
            chars[0] as u32
        } else {
            0
        }
    }
}

pub const KEY_EVENT_START: &'static str = "(() => {\n                const e = document.querySelector('";
pub const KEY_EVENT_TYPE: &'static str = "');\n                if (e) {\n                    e.focus();\n                    e.dispatchEvent(new KeyboardEvent('";
pub const KEY_EVENT_KEY: &'static str = "', {\n                        key: '";
pub const KEY_EVENT_CODE: &'static str = "',\n                        code: '";
pub const KEY_EVENT_KEY_CODE: &'static str = "',\n                        keyCode: ";
pub const KEY_EVENT_WHICH: &'static str = ",\n                        which: ";
pub const KEY_EVENT_END: &'static str = ",\n                        bubbles: true\n                    }));\n                }\n            })()";

/// The script that focuses the element matching `selector` and sends it a
/// keyboard event of type `event_type` for `key`.
pub open spec fn spec_key_event_script(selector: Seq<char>, key: Seq<char>, event_type: Seq<char>) -> Seq<char> {
    let code = spec_dec(spec_event_key_code(key) as nat);
    KEY_EVENT_START@ + spec_escape_js(selector) + KEY_EVENT_TYPE@ + event_type + KEY_EVENT_KEY@
        + spec_escape_dq(key) + KEY_EVENT_CODE@ + spec_escape_dq(key) + KEY_EVENT_KEY_CODE@ + code
        + KEY_EVENT_WHICH@ + code + KEY_EVENT_END@
}

pub fn key_event_script(selector: &str, key: &str, event_type: &str) -> (r: String)
    ensures
        r@ == spec_key_event_script(selector@, key@, event_type@),
{
    let code = event_key_code(key);
    let digits = dec_string(code as u64);
    let escaped_key = escape_dq(key);
    let escaped_selector = escape_js_single_quoted(selector);
    let mut s = String::from_str(KEY_EVENT_START);
    s.append(escaped_selector.as_str());
    s.append(KEY_EVENT_TYPE);
    s.append(event_type);
    s.append(KEY_EVENT_KEY);
    s.append(escaped_key.as_str());
    s.append(KEY_EVENT_CODE);
    s.append(escaped_key.as_str());
    s.append(KEY_EVENT_KEY_CODE);
    s.append(digits.as_str());
    s.append(KEY_EVENT_WHICH);
    s.append(digits.as_str());
    s.append(KEY_EVENT_END);
    s
}

/// The script that tells whether the network has been quiet: `idle` when no
/// resource loaded or the last one finished over half a second ago, else
/// `busy`.
pub const NETWORK_IDLE_SCRIPT: &'static str = "\n                (() => {\n                    const entries = performance.getEntriesByType('resource');\n                    if (entries.length === 0) return 'idle';\n                    const lastEntry = entries[entries.length - 1];\n                    const elapsed = Date.now() - lastEntry.responseEnd;\n                    return elapsed > 500 ? 'idle' : 'busy';\n                })()\n            ";

// ---- waiting for the page ----

/// Whether a navigation may stop waiting: the document is complete or at
/// least interactive.
pub fn navigation_ready(state: &str) -> (r: bool)
    ensures
        r == (state@ == "complete"@ || state@ == "interactive"@),
{
    str_eq(state, "complete") || str_eq(state, "interactive")
}

/// The error of a navigation the browser refused, when its error text is
/// not empty.
pub fn navigation_error(error_text: Option<&str>) -> (r: Option<String>)
    ensures
        match error_text {
            Some(e) => if e@.len() > 0 {
                r matches Some(m) && m@ == "Navigation failed: "@ + e@
            } else {
                r is None
            },
            None => r is None,
        },
{
    match error_text {
        Some(e) => if !e.is_empty() {
            let mut m = String::from_str("Navigation failed: ");
            m.append(e);
            Some(m)
        } else {
            None
        },
        None => None,
    }
}

/// The error when a navigation did not get ready in time.
pub fn navigation_timeout_message(timeout_secs: u64, last_state: &str) -> (r: String)
    ensures
        r@ == "Page did not reach readyState 'complete' or 'interactive' within "@ + spec_dec(
            timeout_secs as nat,
        ) + "s (last state: '"@ + last_state@ + "')"@,
{
    let mut m = String::from_str("Page did not reach readyState 'complete' or 'interactive' within ");
    let d = dec_string(timeout_secs);
    m.append(d.as_str());
    m.append("s (last state: '");
    m.append(last_state);
    m.append("')");
    m
}

/// The error when the page did not finish loading in time.
pub fn load_timeout_message(timeout_ms: u64) -> (r: String)
    ensures
        r@ == "Page did not reach readyState 'complete' within "@ + spec_dec(timeout_ms as nat) + "ms"@,
{
    let mut m = String::from_str("Page did not reach readyState 'complete' within ");
    let d = dec_string(timeout_ms);
    m.append(d.as_str());
    m.append("ms");
    m
}

/// The error when an element did not appear in time.
pub fn element_timeout_message(selector: &str, timeout_ms: u64) -> (r: String)
    ensures
        r@ == "Timeout waiting for element '"@ + selector@ + "' after "@ + spec_dec(timeout_ms as nat)
            + "ms"@,
{
    let mut m = String::from_str("Timeout waiting for element '");
    m.append(selector);
    m.append("' after ");
    let d = dec_string(timeout_ms);
    m.append(d.as_str());
    m.append("ms");
    m
}

/// What the wait for a quiet network does after one look.
pub enum IdleStep {
    /// The network has been quiet long enough.
    Idle,
    /// The time is up without that.
    TimedOut,
    /// Look again later.
    Wait,
}

/// The wait for a quiet network: when it started and when activity was
/// last seen, in milliseconds of a monotonic clock.
pub struct IdleWatch {
    pub started_at: u64,
    pub last_activity: u64,
    pub timeout_ms: u64,
    pub idle_ms: u64,
}

impl IdleWatch {
    /// A wait starting at `now`.
    pub fn new(now: u64, timeout_ms: u64, idle_ms: u64) -> (r: Self)
        ensures
            r.started_at == now,
            r.last_activity == now,
            r.timeout_ms == timeout_ms,
            r.idle_ms == idle_ms,
    {
        IdleWatch { started_at: now, last_activity: now, timeout_ms, idle_ms }
    }

    /// Takes one look at `now`: the page reported `idle` or not. Quiet for
    /// the idle time ends the wait; activity restarts the quiet time; past
    /// the timeout the wait ends without quiet.
    pub fn observe(&mut self, now: u64, idle: bool) -> (r: IdleStep)
        requires
            old(self).started_at <= now,
            old(self).last_activity <= now,
        ensures
            final(self).started_at == old(self).started_at,
            final(self).timeout_ms == old(self).timeout_ms,
            final(self).idle_ms == old(self).idle_ms,
            final(self).last_activity == if idle { old(self).last_activity } else { now },
            r is Idle <==> (idle && now - old(self).last_activity >= old(self).idle_ms),
            r is TimedOut <==> (!(idle && now - old(self).last_activity >= old(self).idle_ms) && now
                - old(self).started_at > old(self).timeout_ms),
    {
        if idle {
            if now - self.last_activity >= self.idle_ms {
                return IdleStep::Idle;
            }
        } else {
            self.last_activity = now;
        }
        if now - self.started_at > self.timeout_ms {
            IdleStep::TimedOut
        } else {
            IdleStep::Wait
        }
    }
}

// ---- cookies ----

/// The fields of a cookie as the tool's caller gave them.
pub struct CookieFields {
    pub name: Option<String>,
    pub value: Option<String>,
    pub domain: Option<String>,
    pub path: Option<String>,
    pub secure: Option<bool>,
    pub http_only: Option<bool>,
    pub same_site: Option<String>,
}

/// The cookie sent to the browser, with the defaults filled in (the expiry
/// is passed on separately).
pub struct CookieParams {
    pub name: String,
    pub value: String,
    pub domain: String,
    pub path: String,
    pub secure: bool,
    pub http_only: bool,
    pub same_site: String,
}

pub open spec fn or_text(o: Option<String>, default: Seq<char>) -> Seq<char> {
    match o {
        Some(s) => s@,
        None => default,
    }
}

fn flag_or_false(o: Option<bool>) -> (r: bool)
    ensures
        r == (o == Some(true)),
{
    match o {
        Some(b) => b,
        None => false,
    }
}

fn text_or(o: &Option<String>, default: &str) -> (r: String)
    ensures
        r@ == or_text(*o, default@),
{
    match o {
        Some(s) => s.clone(),
        None => String::from_str(default),
    }
}

/// The cookie to set: a name is required; the value and domain default to
/// empty, the path to `/`, the flags to false and `sameSite` to `None`.
pub fn cookie_params(fields: &CookieFields) -> (r: Option<CookieParams>)
    ensures
        match fields.name {
            None => r is None,
            Some(n) => r matches Some(c) && {
                &&& c.name@ == n@
                &&& c.value@ == or_text(fields.value, Seq::<char>::empty())
                &&& c.domain@ == or_text(fields.domain, Seq::<char>::empty())
                &&& c.path@ == or_text(fields.path, "/"@)
                &&& c.secure == (fields.secure == Some(true))
                &&& c.http_only == (fields.http_only == Some(true))
                &&& c.same_site@ == or_text(fields.same_site, "None"@)
            },
        },
{
    let name = match &fields.name {
        None => {
            return None;
        },
        Some(n) => n.clone(),
    };
    proof {
        reveal_strlit("");
    }
    Some(
        CookieParams {
            name,
            value: text_or(&fields.value, ""),
            domain: text_or(&fields.domain, ""),
            path: text_or(&fields.path, "/"),
            secure: flag_or_false(fields.secure),
            http_only: flag_or_false(fields.http_only),
            same_site: text_or(&fields.same_site, "None"),
        },
    )
}

/// The error when the browser rejected a cookie.
pub fn cookie_rejected_message(name: &str, domain: &str) -> (r: String)
    ensures
        r@ == "Failed to set cookie '"@ + name@ + "' for domain '"@ + domain@ + "'"@,
{
    let mut m = String::from_str("Failed to set cookie '");
    m.append(name);
    m.append("' for domain '");
    m.append(domain);
    m.append("'");
    m
}

/// The error when an upload target was not found.
pub fn upload_target_missing_message(selector: &str) -> (r: String)
    ensures
        r@ == "No element found for selector: "@ + selector@,
{
    let mut m = String::from_str("No element found for selector: ");
    m.append(selector);
    m
}

/// The error when no element has the index an action names.
pub fn no_element_at_index_message(index: usize) -> (r: String)
    ensures
        r@ == "No element found at index "@ + spec_dec(index as nat),
{
    let mut m = String::from_str("No element found at index ");
    let d = usize_dec_string(index);
    m.append(d.as_str());
    m
}

} // verus!
