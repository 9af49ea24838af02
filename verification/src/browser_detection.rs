use vstd::prelude::*;
use vstd::string::StringExecFns;
use crate::browser_tool::BrowserDetection;
use crate::cdp::{utf8_lossy, utf8_lossy_of};
use crate::text::{
    chars_of, contains_seq, copy_range, dec_string, join_chars, join_strings, lines_of, spec_dec, spec_join,
    spec_lines, spec_trim, str_contains, str_eq, string_from_chars, string_views, trim_chars, vviews,
};

verus! {

// ---- where browsers are looked for ----

/// The places a browser is looked for on an operating system, each with the
/// browser's name, in the order they are tried. On Windows the paths start
/// at the `LOCALAPPDATA`, `PROGRAMFILES` and `PROGRAMFILES(X86)` folders.
pub open spec fn spec_browser_candidates(
    os: Seq<char>,
    local_app_data: Seq<char>,
    program_files: Seq<char>,
    program_files_x86: Seq<char>,
) -> Seq<(Seq<char>, Seq<char>)> {
    if os == "macos"@ {
        seq![
            ("/Applications/Google Chrome.app/Contents/MacOS/Google Chrome"@, "Google Chrome"@),
            ("/Applications/Chromium.app/Contents/MacOS/Chromium"@, "Chromium"@),
            ("/Applications/Google Chrome Canary.app/Contents/MacOS/Google Chrome Canary"@, "Chrome Canary"@),
            ("/Applications/Brave Browser.app/Contents/MacOS/Brave Browser"@, "Brave Browser"@),
            ("/Applications/Microsoft Edge.app/Contents/MacOS/Microsoft Edge"@, "Microsoft Edge"@),
            ("/Applications/Arc.app/Contents/MacOS/Arc"@, "Arc"@),
        ]
    } else if os == "windows"@ {
        seq![
            (local_app_data + "\\Google\\Chrome\\Application\\chrome.exe"@, "Google Chrome"@),
            (program_files + "\\Google\\Chrome\\Application\\chrome.exe"@, "Google Chrome"@),
            (program_files_x86 + "\\Google\\Chrome\\Application\\chrome.exe"@, "Google Chrome"@),
            (program_files + "\\Microsoft\\Edge\\Application\\msedge.exe"@, "Microsoft Edge"@),
            (program_files_x86 + "\\Microsoft\\Edge\\Application\\msedge.exe"@, "Microsoft Edge"@),
            (local_app_data + "\\BraveSoftware\\Brave-Browser\\Application\\brave.exe"@, "Brave Browser"@),
        ]
    } else {
        seq![
            ("/usr/bin/google-chrome"@, "Google Chrome"@),
            ("/usr/bin/google-chrome-stable"@, "Google Chrome"@),
            ("/usr/bin/google-chrome-beta"@, "Chrome Beta"@),
            ("/usr/bin/google-chrome-dev"@, "Chrome Dev"@),
            ("/usr/bin/chromium"@, "Chromium"@),
            ("/usr/bin/chromium-browser"@, "Chromium"@),
            ("/snap/bin/chromium"@, "Chromium (Snap)"@),
            ("/usr/bin/org.chromium.Chromium"@, "Chromium"@),
            ("/usr/bin/brave-browser"@, "Brave Browser"@),
            ("/usr/bin/brave-browser-stable"@, "Brave Browser"@),
            ("/usr/bin/microsoft-edge"@, "Microsoft Edge"@),
            ("/usr/bin/microsoft-edge-stable"@, "Microsoft Edge"@),
        ]
    }
}

/// The path and name of a detection.
pub open spec fn detection_view(d: BrowserDetection) -> (Seq<char>, Seq<char>) {
    (d.path@, d.name@)
}

fn detection(path: String, name: &'static str, os: &'static str) -> (r: BrowserDetection)
    ensures
        r.path == path,
        r.name == name,
        r.os == os,
{
    BrowserDetection { path, name, os }
}

fn fixed(path: &str, name: &'static str, os: &'static str) -> (r: BrowserDetection)
    ensures
        r.path@ == path@,
        r.name == name,
        r.os == os,
{
    detection(String::from_str(path), name, os)
}

fn under(base: &str, rest: &str, name: &'static str, os: &'static str) -> (r: BrowserDetection)
    ensures
        r.path@ == base@ + rest@,
        r.name == name,
        r.os == os,
{
    let mut p = String::from_str(base);
    p.append(rest);
    detection(p, name, os)
}

/// The browsers looked for on `os`, in order.
pub fn find_browser_candidates(
    os: &'static str,
    local_app_data: &str,
    program_files: &str,
    program_files_x86: &str,
) -> (r: Vec<BrowserDetection>)
    ensures
        r@.map_values(|d: BrowserDetection| detection_view(d)) == spec_browser_candidates(
            os@,
            local_app_data@,
            program_files@,
            program_files_x86@,
        ),
        forall|i: int| 0 <= i < r@.len() ==> (#[trigger] r@[i]).os == os,
{
    let mut r: Vec<BrowserDetection> = Vec::new();
    if str_eq(os, "macos") {
        r.push(fixed("/Applications/Google Chrome.app/Contents/MacOS/Google Chrome", "Google Chrome", os));
        r.push(fixed("/Applications/Chromium.app/Contents/MacOS/Chromium", "Chromium", os));
        r.push(
            fixed(
                "/Applications/Google Chrome Canary.app/Contents/MacOS/Google Chrome Canary",
                "Chrome Canary",
                os,
            ),
        );
        r.push(fixed("/Applications/Brave Browser.app/Contents/MacOS/Brave Browser", "Brave Browser", os));
        r.push(fixed("/Applications/Microsoft Edge.app/Contents/MacOS/Microsoft Edge", "Microsoft Edge", os));
        r.push(fixed("/Applications/Arc.app/Contents/MacOS/Arc", "Arc", os));
    } else if str_eq(os, "windows") {
        r.push(under(local_app_data, "\\Google\\Chrome\\Application\\chrome.exe", "Google Chrome", os));
        r.push(under(program_files, "\\Google\\Chrome\\Application\\chrome.exe", "Google Chrome", os));
        r.push(under(program_files_x86, "\\Google\\Chrome\\Application\\chrome.exe", "Google Chrome", os));
        r.push(under(program_files, "\\Microsoft\\Edge\\Application\\msedge.exe", "Microsoft Edge", os));
        r.push(under(program_files_x86, "\\Microsoft\\Edge\\Application\\msedge.exe", "Microsoft Edge", os));
        r.push(
            under(local_app_data, "\\BraveSoftware\\Brave-Browser\\Application\\brave.exe", "Brave Browser", os),
        );
    } else {
        r.push(fixed("/usr/bin/google-chrome", "Google Chrome", os));
        r.push(fixed("/usr/bin/google-chrome-stable", "Google Chrome", os));
        r.push(fixed("/usr/bin/google-chrome-beta", "Chrome Beta", os));
        r.push(fixed("/usr/bin/google-chrome-dev", "Chrome Dev", os));
        r.push(fixed("/usr/bin/chromium", "Chromium", os));
        r.push(fixed("/usr/bin/chromium-browser", "Chromium", os));
        r.push(fixed("/snap/bin/chromium", "Chromium (Snap)", os));
        r.push(fixed("/usr/bin/org.chromium.Chromium", "Chromium", os));
        r.push(fixed("/usr/bin/brave-browser", "Brave Browser", os));
        r.push(fixed("/usr/bin/brave-browser-stable", "Brave Browser", os));
        r.push(fixed("/usr/bin/microsoft-edge", "Microsoft Edge", os));
        r.push(fixed("/usr/bin/microsoft-edge-stable", "Microsoft Edge", os));
    }
    proof {
        assert(r@.map_values(|d: BrowserDetection| detection_view(d)) =~= spec_browser_candidates(
            os@,
            local_app_data@,
            program_files@,
            program_files_x86@,
        ));
    }
    r
}

/// The names asked of the system's command lookup, in order.
pub open spec fn which_names() -> Seq<Seq<char>> {
    seq!["google-chrome"@, "chromium"@, "chromium-browser"@, "chrome"@, "brave-browser"@, "microsoft-edge"@]
}

/// The names asked of the system's command lookup, in order.
pub fn which_lookup_names() -> (r: Vec<&'static str>)
    ensures
        r@.map_values(|s: &'static str| s@) == which_names(),
{
    let mut r: Vec<&'static str> = Vec::new();
    r.push("google-chrome");
    r.push("chromium");
    r.push("chromium-browser");
    r.push("chrome");
    r.push("brave-browser");
    r.push("microsoft-edge");
    proof {
        assert(r@.map_values(|s: &'static str| s@) =~= which_names());
    }
    r
}

/// The command that finds a program on the search path.
pub fn which_command(windows: bool) -> (r: &'static str)
    ensures
        r@ == (if windows { "where"@ } else { "which"@ }),
{
    if windows {
        "where"
    } else {
        "which"
    }
}

/// The name shown for a browser found by its command name.
pub open spec fn spec_which_browser_name(name: Seq<char>) -> Seq<char> {
    if name == "google-chrome"@ || name == "chrome"@ {
        "Google Chrome"@
    } else if name == "chromium"@ || name == "chromium-browser"@ {
        "Chromium"@
    } else if name == "brave-browser"@ {
        "Brave Browser"@
    } else if name == "microsoft-edge"@ {
        "Microsoft Edge"@
    } else {
        "Chromium-based browser"@
    }
}

/// The name shown for a browser found by its command name.
pub fn which_browser_name(name: &str) -> (r: &'static str)
    ensures
        r@ == spec_which_browser_name(name@),
{
    if str_eq(name, "google-chrome") || str_eq(name, "chrome") {
        "Google Chrome"
    } else if str_eq(name, "chromium") || str_eq(name, "chromium-browser") {
        "Chromium"
    } else if str_eq(name, "brave-browser") {
        "Brave Browser"
    } else if str_eq(name, "microsoft-edge") {
        "Microsoft Edge"
    } else {
        "Chromium-based browser"
    }
}

fn trimmed(s: &str) -> (r: String)
    ensures
        r@ == spec_trim(s@),
{
    let chars = chars_of(s);
    let t = trim_chars(chars.as_slice());
    string_from_chars(t.as_slice())
}

/// The browser a successful lookup of `name` printed: the output, decoded
/// and trimmed, as a path; none when that is empty.
pub fn which_detection(name: &str, stdout: &[u8], os: &'static str) -> (r: Option<BrowserDetection>)
    ensures
        match r {
            Some(d) => {
                &&& d.path@ == spec_trim(utf8_lossy_of(stdout@))
                &&& d.path@.len() > 0
                &&& d.name@ == spec_which_browser_name(name@)
                &&& d.os == os
            },
            None => spec_trim(utf8_lossy_of(stdout@)).len() == 0,
        },
{
    let text = utf8_lossy(stdout);
    let path = trimmed(text.as_str());
    if path.as_str().is_empty() {
        None
    } else {
        Some(detection(path, which_browser_name(name), os))
    }
}

/// The browser named by the `TAU_CHROME_PATH` setting: the value trimmed,
/// when that is not empty.
pub fn custom_browser(custom: &str, os: &'static str) -> (r: Option<BrowserDetection>)
    ensures
        match r {
            Some(d) => d.path@ == spec_trim(custom@) && d.path@.len() > 0 && d.name@ == "Custom Browser"@
                && d.os == os,
            None => spec_trim(custom@).len() == 0,
        },
{
    let path = trimmed(custom);
    if path.as_str().is_empty() {
        None
    } else {
        Some(detection(path, "Custom Browser", os))
    }
}

/// The warning when the browser of `TAU_CHROME_PATH` cannot run headless.
pub fn custom_headless_warning(path: &str) -> (r: String)
    ensures
        r@ == "TAU_CHROME_PATH is set but browser cannot run headless: "@ + path@,
{
    let mut m = String::from_str("TAU_CHROME_PATH is set but browser cannot run headless: ");
    m.append(path);
    m
}

/// What checking a found browser gave.
pub enum ProbeOutcome {
    /// Its path does not exist.
    Missing,
    /// It exists but cannot run headless.
    Failed,
    /// It runs headless.
    Works,
}

/// How a browser that exists but failed is listed.
pub open spec fn failed_entry(d: BrowserDetection) -> Seq<char> {
    d.name@ + " ("@ + d.path@ + ")"@
}

/// The search through the candidates and the command lookups: the browsers
/// that exist but could not run headless, in the order they were found.
pub struct ChromeSearch {
    pub failed: Vec<String>,
}

impl ChromeSearch {
    /// Nothing checked yet.
    pub fn new() -> (r: Self)
        ensures
            r.failed@.len() == 0,
    {
        ChromeSearch { failed: Vec::new() }
    }

    /// Takes the outcome for one browser; true when the search ends with it.
    pub fn record(&mut self, d: &BrowserDetection, outcome: ProbeOutcome) -> (r: bool)
        ensures
            r == (outcome is Works),
            outcome is Failed ==> string_views(final(self).failed@) == string_views(old(self).failed@).push(
                failed_entry(*d),
            ),
            !(outcome is Failed) ==> final(self).failed@ == old(self).failed@,
    {
        match outcome {
            ProbeOutcome::Works => true,
            ProbeOutcome::Missing => false,
            ProbeOutcome::Failed => {
                let mut e = String::from_str(d.name);
                e.append(" (");
                e.append(d.path.as_str());
                e.append(")");
                let ghost before = self.failed@;
                self.failed.push(e);
                proof {
                    assert(string_views(self.failed@) =~= string_views(before).push(failed_entry(*d)));
                }
                false
            },
        }
    }

    /// The warning when browsers were found but none ran headless.
    pub fn warning(&self) -> (r: Option<String>)
        ensures
            match r {
                None => self.failed@.len() == 0,
                Some(w) => self.failed@.len() > 0 && w@ == "Found browsers but none can run headless: "@
                    + spec_join(string_views(self.failed@), ", "@),
            },
    {
        if self.failed.len() == 0 {
            None
        } else {
            let mut w = String::from_str("Found browsers but none can run headless: ");
            let joined = join_strings(&self.failed, ", ");
            w.append(joined.as_str());
            Some(w)
        }
    }
}

// ---- the headless check ----

/// The request that asks a starting browser for its version.
pub const HEADLESS_PROBE_REQUEST: &'static str = "GET /json/version HTTP/1.1\r\nHost: 127.0.0.1\r\nConnection: close\r\n\r\n";

/// The error when the headless check ran out of time.
pub const HEADLESS_TIMEOUT_MESSAGE: &'static str = "Chrome headless test timed out after 10s \u{2014} browser may be hanging";

/// Whether the answer to the probe shows that the debug port is up.
pub fn probe_response_ready(bytes: &[u8]) -> (r: bool)
    ensures
        r == contains_seq(utf8_lossy_of(bytes@), "webSocketDebuggerUrl"@),
{
    let text = utf8_lossy(bytes);
    str_contains(text.as_str(), "webSocketDebuggerUrl")
}

/// An integer in decimal, with a minus sign when negative.
pub open spec fn spec_int_dec(i: int) -> Seq<char> {
    if i < 0 {
        "-"@ + spec_dec((-i) as nat)
    } else {
        spec_dec(i as nat)
    }
}

fn i32_dec_string(i: i32) -> (r: String)
    ensures
        r@ == spec_int_dec(i as int),
{
    if i < 0 {
        let magnitude: u64 = (0i64 - (i as i64)) as u64;
        let mut r = String::from_str("-");
        let digits = dec_string(magnitude);
        r.append(digits.as_str());
        r
    } else {
        dec_string(i as u64)
    }
}

/// The first three lines of a text, or all when it has fewer.
pub open spec fn first_lines(s: Seq<char>) -> Seq<Seq<char>> {
    let ls = spec_lines(s);
    if ls.len() <= 3 {
        ls
    } else {
        ls.take(3)
    }
}

/// The error when the browser exited during the headless check: its exit
/// code (-1 when it has none) and the first lines of what it printed.
pub fn headless_exit_message(code: Option<i32>, stderr: &str) -> (r: String)
    ensures
        r@ == "Chrome headless test failed (exit "@ + spec_int_dec(
            match code {
                Some(c) => c as int,
                None => -1,
            },
        ) + "): "@ + spec_join(first_lines(stderr@), " | "@),
{
    let c: i32 = match code {
        Some(c) => c,
        None => -1,
    };
    let mut m = String::from_str("Chrome headless test failed (exit ");
    let digits = i32_dec_string(c);
    m.append(digits.as_str());
    m.append("): ");
    let chars = chars_of(stderr);
    let lines = lines_of(chars.as_slice());
    let mut first: Vec<Vec<char>> = Vec::new();
    let mut i: usize = 0;
    while i < lines.len() && i < 3
        invariant
            i <= lines@.len(),
            i <= 3,
            vviews(lines@) == spec_lines(stderr@),
            vviews(first@) == vviews(lines@).take(i as int),
        decreases 3 - i,
    {
        let line = copy_range(lines[i].as_slice(), 0, lines[i].len());
        proof {
            assert(line@ =~= lines@[i as int]@);
        }
        let ghost before = first@;
        first.push(line);
        i = i + 1;
        proof {
            assert(vviews(first@) =~= vviews(before).push(line@));
            assert(vviews(first@) =~= vviews(lines@).take(i as int));
        }
    }
    proof {
        if lines@.len() <= 3 {
            assert(vviews(lines@).take(lines@.len() as int) =~= vviews(lines@));
        }
    }
    let sep = chars_of(" | ");
    let joined = join_chars(&first, sep.as_slice());
    let text = string_from_chars(joined.as_slice());
    m.append(text.as_str());
    m
}

/// How the started browser stood at one look.
pub enum HeadlessStatus {
    /// It exited, with this code if it gave one, having printed this.
    Exited { code: Option<i32>, stderr: String },
    /// It is still running.
    Running,
    /// Its state could not be read.
    WaitFailed(String),
}

/// What the headless check does after one look at the browser.
pub enum HeadlessStep {
    /// Fail with this error.
    Fail(String),
    /// Stop the browser and fail with this error.
    KillAndFail(String),
    /// Ask the debug port for its version, then judge the answer with
    /// `probe_response_ready`.
    Probe,
}

/// The decision after one look: an exited browser failed; one still
/// running past the deadline is stopped; else its port is probed.
pub fn headless_step(status: HeadlessStatus, past_deadline: bool) -> (r: HeadlessStep)
    ensures
        match status {
            HeadlessStatus::Exited { code, stderr } => r matches HeadlessStep::Fail(m) && m@
                == "Chrome headless test failed (exit "@ + spec_int_dec(
                match code {
                    Some(c) => c as int,
                    None => -1,
                },
            ) + "): "@ + spec_join(first_lines(stderr@), " | "@),
            HeadlessStatus::Running => if past_deadline {
                r matches HeadlessStep::KillAndFail(m) && m@ == HEADLESS_TIMEOUT_MESSAGE@
            } else {
                r is Probe
            },
            HeadlessStatus::WaitFailed(e) => r matches HeadlessStep::Fail(m) && m@
                == "Failed to check Chrome headless test status: "@ + e@,
        },
{
    match status {
        HeadlessStatus::Exited { code, stderr } => HeadlessStep::Fail(headless_exit_message(code, stderr.as_str())),
        HeadlessStatus::Running => if past_deadline {
            HeadlessStep::KillAndFail(String::from_str(HEADLESS_TIMEOUT_MESSAGE))
        } else {
            HeadlessStep::Probe
        },
        HeadlessStatus::WaitFailed(e) => {
            let mut m = String::from_str("Failed to check Chrome headless test status: ");
            m.append(e.as_str());
            HeadlessStep::Fail(m)
        },
    }
}

} // verus!
