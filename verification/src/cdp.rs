use vstd::prelude::*;
use vstd::string::StringExecFns;
use crate::text::{
    chars_of, contains_chars, contains_seq, copy_range, find_char_from, index_of_char,
    lemma_index_of_char, lines_of, spec_lines, spec_split_second, spec_trim, split_second,
    str_contains, str_eq, string_from_chars, trim_chars, vviews,
};

verus! {

/// The position of the first `\r\n\r\n` in `bytes`, at or after `from`.
pub open spec fn headers_end_from(bytes: Seq<u8>, from: int) -> Option<int>
    decreases bytes.len() - from,
{
    if from < 0 || from + 4 > bytes.len() {
        None
    } else if bytes[from] == 13 && bytes[from + 1] == 10 && bytes[from + 2] == 13 && bytes[from + 3] == 10 {
        Some(from)
    } else {
        headers_end_from(bytes, from + 1)
    }
}

/// What `String::from_utf8_lossy` makes of the bytes.
pub uninterp spec fn utf8_lossy_of(bytes: Seq<u8>) -> Seq<char>;

/// Decodes bytes as UTF-8 with `String::from_utf8_lossy`, which replaces
/// invalid sequences (the result is named) and decodes valid UTF-8 as it
/// is.
#[verifier::external_body]
pub(crate) fn utf8_lossy(bytes: &[u8]) -> (s: String)
    ensures
        s@ == utf8_lossy_of(bytes@),
        vstd::utf8::valid_utf8(bytes@) ==> s@ == vstd::utf8::decode_utf8(bytes@),
{
    String::from_utf8_lossy(bytes).into_owned()
}

/// The code of a character after ASCII lower-casing; other characters keep
/// their code.
pub open spec fn ascii_lower_code(c: char) -> u32 {
    if 65 <= (c as u32) <= 90 { ((c as u32) + 32) as u32 } else { c as u32 }
}

/// `str::eq_ignore_ascii_case`.
pub open spec fn eq_ignore_ascii_case(a: Seq<char>, b: Seq<char>) -> bool {
    a.len() == b.len() && forall|i: int|
        0 <= i < a.len() ==> ascii_lower_code(#[trigger] a[i]) == ascii_lower_code(b[i])
}

fn lower_code(c: char) -> (r: u32)
    ensures
        r == ascii_lower_code(c),
{
    let u = c as u32;
    if 65 <= u && u <= 90 {
        u + 32
    } else {
        u
    }
}

fn chars_eq_ignore_ascii_case(a: &[char], b: &[char]) -> (r: bool)
    ensures
        r == eq_ignore_ascii_case(a@, b@),
{
    if a.len() != b.len() {
        return false;
    }
    let mut i: usize = 0;
    while i < a.len()
        invariant
            a@.len() == b@.len(),
            i <= a@.len(),
            forall|j: int| 0 <= j < i ==> ascii_lower_code(#[trigger] a@[j]) == ascii_lower_code(b@[j]),
        decreases a@.len() - i,
    {
        if lower_code(a[i]) != lower_code(b[i]) {
            return false;
        }
        i = i + 1;
    }
    true
}

/// The value of a string of decimal digits.
pub open spec fn digits_value(s: Seq<char>) -> nat
    decreases s.len(),
{
    if s.len() == 0 {
        0
    } else {
        digits_value(s.drop_last()) * 10 + ((s.last() as u32) - 48) as nat
    }
}

pub open spec fn all_digits(s: Seq<char>) -> bool {
    forall|i: int| 0 <= i < s.len() ==> '0' <= #[trigger] s[i] <= '9'
}

/// What `str::parse::<usize>` accepts: an optional `+`, then one or more
/// decimal digits whose value fits in `usize`.
pub open spec fn spec_parse_usize(s: Seq<char>) -> Option<nat> {
    let d = if s.len() > 1 && s[0] == '+' { s.drop_first() } else { s };
    if d.len() == 0 || !all_digits(d) {
        None
    } else if digits_value(d) > usize::MAX {
        None
    } else {
        Some(digits_value(d))
    }
}

pub proof fn lemma_digits_value_mono(s: Seq<char>, i: int, j: int)
    requires
        0 <= i <= j <= s.len(),
        all_digits(s),
    ensures
        digits_value(s.take(i)) <= digits_value(s.take(j)),
    decreases j - i,
{
    if i < j {
        lemma_digits_value_mono(s, i, j - 1);
        assert(s.take(j).drop_last() =~= s.take(j - 1));
        assert('0' <= s[j - 1] <= '9');
    }
}

/// Parses a decimal `usize` as `str::parse` does.
pub fn parse_usize(s: &[char]) -> (r: Option<usize>)
    ensures
        match r {
            Some(n) => spec_parse_usize(s@) == Some(n as nat),
            None => spec_parse_usize(s@) is None,
        },
{
    let start: usize = if s.len() > 1 && s[0] == '+' { 1 } else { 0 };
    let ghost d = if s@.len() > 1 && s@[0] == '+' { s@.drop_first() } else { s@ };
    proof {
        assert(d =~= s@.skip(start as int));
    }
    if start == s.len() {
        return None;
    }
    let mut i: usize = start;
    let mut value: usize = 0;
    while i < s.len()
        invariant
            start <= i <= s@.len(),
            d == s@.skip(start as int),
            d == (if s@.len() > 1 && s@[0] == '+' { s@.drop_first() } else { s@ }),
            forall|k: int| start <= k < i ==> '0' <= #[trigger] s@[k] <= '9',
            value == digits_value(d.take(i - start)),
        decreases s@.len() - i,
    {
        let c = s[i];
        if c < '0' || c > '9' {
            proof {
                assert(d[i - start] == c);
            }
            return None;
        }
        let digit = (c as u32 - 48) as usize;
        proof {
            assert(d.take(i - start + 1).drop_last() =~= d.take(i - start));
            assert(d.take(i - start + 1).last() == c);
        }
        let next = match value.checked_mul(10) {
            Some(v) => v.checked_add(digit),
            None => None,
        };
        match next {
            Some(v) => {
                value = v;
            },
            None => {
                let mut j: usize = i + 1;
                while j < s.len()
                    invariant
                        i < j <= s@.len(),
                        start <= i,
                        d == s@.skip(start as int),
                        d == (if s@.len() > 1 && s@[0] == '+' { s@.drop_first() } else { s@ }),
                        digits_value(d.take(i - start + 1)) > usize::MAX,
                        forall|k: int| start <= k < j ==> '0' <= #[trigger] s@[k] <= '9',
                    decreases s@.len() - j,
                {
                    if s[j] < '0' || s[j] > '9' {
                        proof {
                            assert(d[j - start] == s@[j as int]);
                        }
                        return None;
                    }
                    j = j + 1;
                }
                proof {
                    assert(all_digits(d)) by {
                        assert forall|k: int| 0 <= k < d.len() implies '0' <= #[trigger] d[k] <= '9' by {
                            assert(d[k] == s@[start + k]);
                        }
                    }
                    assert(digits_value(d.take(i - start + 1)) > usize::MAX);
                    lemma_digits_value_mono(d, i - start + 1, d.len() as int);
                    assert(d.take(d.len() as int) =~= d);
                }
                return None;
            },
        }
        i = i + 1;
    }
    proof {
        assert(d.take(i - start) =~= d);
        assert(all_digits(d)) by {
            assert forall|k: int| 0 <= k < d.len() implies '0' <= #[trigger] d[k] <= '9' by {
                assert(d[k] == s@[start + k]);
            }
        }
    }
    Some(value)
}

/// The header name compared against.
pub open spec fn content_length_name() -> Seq<char> {
    seq!['c', 'o', 'n', 't', 'e', 'n', 't', '-', 'l', 'e', 'n', 'g', 't', 'h']
}

/// What one header line says of the body length: for `name: value`, split at
/// the first colon, the value parsed as a `usize` when the trimmed name is
/// `content-length` in any ASCII case.
pub open spec fn header_line_content_length(line: Seq<char>) -> Option<nat> {
    match index_of_char(line, ':', 0) {
        None => None,
        Some(k) => if eq_ignore_ascii_case(spec_trim(line.take(k)), content_length_name()) {
            spec_parse_usize(spec_trim(line.skip(k + 1)))
        } else {
            None
        },
    }
}

/// The first line from `i` on that gives a content length.
pub open spec fn content_length_from(lines: Seq<Seq<char>>, i: int) -> Option<nat>
    decreases lines.len() - i,
{
    if i < 0 || i >= lines.len() {
        None
    } else {
        match header_line_content_length(lines[i]) {
            Some(n) => Some(n),
            None => content_length_from(lines, i + 1),
        }
    }
}

/// The content length that a block of header text declares.
pub open spec fn spec_content_length(headers: Seq<char>) -> Option<nat> {
    content_length_from(spec_lines(headers), 0)
}

/// Whether `response` holds a header block ended by a blank line and at least
/// as many body bytes as its `Content-Length` header declares; the header
/// block is read as `String::from_utf8_lossy` decodes it.
pub open spec fn spec_http_response_complete(response: Seq<u8>) -> bool {
    match headers_end_from(response, 0) {
        None => false,
        Some(end) => match spec_content_length(utf8_lossy_of(response.take(end))) {
            None => false,
            Some(n) => response.len() >= end + 4 + n,
        },
    }
}

fn header_line_length(line: &[char]) -> (r: Option<usize>)
    ensures
        match r {
            Some(n) => header_line_content_length(line@) == Some(n as nat),
            None => header_line_content_length(line@) is None,
        },
{
    let mut k: usize = 0;
    while k < line.len() && line[k] != ':'
        invariant
            k <= line@.len(),
            index_of_char(line@, ':', 0) == index_of_char(line@, ':', k as int),
        decreases line@.len() - k,
    {
        k = k + 1;
    }
    if k == line.len() {
        return None;
    }
    proof {
        lemma_index_of_char(line@, ':', k as int);
    }
    let name = copy_range(line, 0, k);
    let name = trim_chars(&name);
    let expected: [char; 14] = ['c', 'o', 'n', 't', 'e', 'n', 't', '-', 'l', 'e', 'n', 'g', 't', 'h'];
    proof {
        assert(line@.subrange(0, k as int) =~= line@.take(k as int));
        assert(expected@ =~= content_length_name());
    }
    if !chars_eq_ignore_ascii_case(&name, &expected) {
        return None;
    }
    let value = copy_range(line, k + 1, line.len());
    let value = trim_chars(&value);
    proof {
        assert(line@.subrange(k + 1, line@.len() as int) =~= line@.skip(k + 1));
    }
    parse_usize(&value)
}

/// The body length that a block of header text declares: the value of the
/// first `Content-Length` line (any ASCII case, surrounding whitespace
/// trimmed) whose value parses as a `usize`.
pub fn content_length(headers: &str) -> (r: Option<usize>)
    ensures
        match r {
            Some(n) => spec_content_length(headers@) == Some(n as nat),
            None => spec_content_length(headers@) is None,
        },
{
    let chars = chars_of(headers);
    let lines = lines_of(&chars);
    let ghost ls = spec_lines(headers@);
    let mut i: usize = 0;
    while i < lines.len()
        invariant
            vviews(lines@) == ls,
            ls == spec_lines(headers@),
            i <= lines@.len(),
            content_length_from(ls, 0) == content_length_from(ls, i as int),
        decreases lines@.len() - i,
    {
        let found = header_line_length(&lines[i]);
        proof {
            assert(ls[i as int] == lines@[i as int]@);
        }
        match found {
            Some(n) => {
                return Some(n);
            },
            None => {},
        }
        i = i + 1;
    }
    None
}

pub proof fn lemma_headers_end_from(bytes: Seq<u8>, from: int)
    requires
        0 <= from,
    ensures
        headers_end_from(bytes, from) matches Some(k) ==> from <= k && k + 4 <= bytes.len(),
    decreases bytes.len() - from,
{
    if from + 4 <= bytes.len() && !(bytes[from] == 13 && bytes[from + 1] == 10 && bytes[from + 2]
        == 13 && bytes[from + 3] == 10) {
        lemma_headers_end_from(bytes, from + 1);
    }
}

fn find_headers_end(bytes: &[u8]) -> (r: Option<usize>)
    ensures
        match r {
            Some(k) => headers_end_from(bytes@, 0) == Some(k as int),
            None => headers_end_from(bytes@, 0) is None,
        },
{
    if bytes.len() < 4 {
        return None;
    }
    let last: usize = bytes.len() - 3;
    let mut i: usize = 0;
    while i < last
        invariant
            last == bytes@.len() - 3,
            i <= last,
            headers_end_from(bytes@, 0) == headers_end_from(bytes@, i as int),
        decreases bytes@.len() - i,
    {
        if bytes[i] == 13 && bytes[i + 1] == 10 && bytes[i + 2] == 13 && bytes[i + 3] == 10 {
            return Some(i);
        }
        i = i + 1;
    }
    None
}

/// Whether an HTTP response read so far is complete: its header block has
/// ended and the body holds at least the `Content-Length` bytes it declares.
/// A response without a usable `Content-Length` is never complete.
pub fn http_response_complete(response: &[u8]) -> (r: bool)
    ensures
        r == spec_http_response_complete(response@),
{
    let end = match find_headers_end(response) {
        Some(e) => e,
        None => {
            return false;
        },
    };
    proof {
        lemma_headers_end_from(response@, 0);
    }
    let head = &response[0..end];
    proof {
        assert(head@ =~= response@.take(end as int));
    }
    let text = utf8_lossy(head);
    match content_length(text.as_str()) {
        Some(n) => response.len() - end - 4 >= n,
        None => false,
    }
}

/// A page, frame or worker that the browser lists.
#[derive(Debug, Clone)]
pub struct TabInfo {
    pub target_id: String,
    pub title: String,
    pub url: String,
    pub is_attached: bool,
}

impl TabInfo {
    /// A copy of the entry, field by field.
    pub fn duplicate(&self) -> (r: TabInfo)
        ensures
            r == *self,
    {
        TabInfo {
            target_id: self.target_id.clone(),
            title: self.title.clone(),
            url: self.url.clone(),
            is_attached: self.is_attached,
        }
    }
}

/// The position of the first frame, from `i` on, whose URL contains `part`.
pub open spec fn first_frame_matching(frames: Seq<TabInfo>, part: Seq<char>, i: int) -> Option<int>
    decreases frames.len() - i,
{
    if i < 0 || i >= frames.len() {
        None
    } else if contains_seq(frames[i].url@, part) {
        Some(i)
    } else {
        first_frame_matching(frames, part, i + 1)
    }
}

/// The first frame whose URL contains `url_substring`.
pub fn find_iframe(frames: &[TabInfo], url_substring: &str) -> (r: Option<TabInfo>)
    ensures
        match first_frame_matching(frames@, url_substring@, 0) {
            Some(i) => r == Some(frames@[i]),
            None => r is None,
        },
{
    let mut i: usize = 0;
    while i < frames.len()
        invariant
            i <= frames@.len(),
            first_frame_matching(frames@, url_substring@, 0) == first_frame_matching(
                frames@,
                url_substring@,
                i as int,
            ),
        decreases frames@.len() - i,
    {
        if str_contains(frames[i].url.as_str(), url_substring) {
            return Some(frames[i].duplicate());
        }
        i = i + 1;
    }
    None
}

/// A debuggable target as the browser's `/json/list` describes it: what the
/// choice of a WebSocket URL reads of it.
pub struct DebugTarget {
    pub target_type: Option<String>,
    pub web_socket_debugger_url: Option<String>,
}

/// Why no WebSocket URL could be taken from the list of targets.
pub enum WsUrlError {
    NoTargets,
    NoDebuggerUrl,
}

impl WsUrlError {
    /// The message shown for the error.
    pub fn message(&self) -> (r: String)
        ensures
            r@ == match self {
                WsUrlError::NoTargets => "/json/list returned no debuggable targets yet"@,
                WsUrlError::NoDebuggerUrl => "No webSocketDebuggerUrl found in /json/list targets"@,
            },
    {
        match self {
            WsUrlError::NoTargets => String::from_str("/json/list returned no debuggable targets yet"),
            WsUrlError::NoDebuggerUrl => String::from_str(
                "No webSocketDebuggerUrl found in /json/list targets",
            ),
        }
    }
}

/// Whether a target is a page.
pub open spec fn is_page(t: DebugTarget) -> bool {
    match t.target_type {
        Some(k) => k@ == "page"@,
        None => false,
    }
}

/// The first target from `i` on that has a debugger URL and, when
/// `pages_only`, is a page.
pub open spec fn first_target_with_url(targets: Seq<DebugTarget>, pages_only: bool, i: int) -> Option<
    int,
>
    decreases targets.len() - i,
{
    if i < 0 || i >= targets.len() {
        None
    } else if targets[i].web_socket_debugger_url is Some && (!pages_only || is_page(targets[i])) {
        Some(i)
    } else {
        first_target_with_url(targets, pages_only, i + 1)
    }
}

/// The target whose WebSocket is used: the first page with a debugger URL,
/// else the first target with one.
pub open spec fn chosen_target(targets: Seq<DebugTarget>) -> Option<int> {
    match first_target_with_url(targets, true, 0) {
        Some(i) => Some(i),
        None => first_target_with_url(targets, false, 0),
    }
}

fn first_with_url(targets: &[DebugTarget], pages_only: bool) -> (r: Option<usize>)
    ensures
        match r {
            Some(i) => first_target_with_url(targets@, pages_only, 0) == Some(i as int),
            None => first_target_with_url(targets@, pages_only, 0) is None,
        },
{
    let mut i: usize = 0;
    while i < targets.len()
        invariant
            i <= targets@.len(),
            first_target_with_url(targets@, pages_only, 0) == first_target_with_url(
                targets@,
                pages_only,
                i as int,
            ),
        decreases targets@.len() - i,
    {
        let t = &targets[i];
        let page = match &t.target_type {
            Some(k) => str_eq(k.as_str(), "page"),
            None => false,
        };
        if t.web_socket_debugger_url.is_some() && (!pages_only || page) {
            return Some(i);
        }
        i = i + 1;
    }
    None
}

/// The WebSocket URL to connect to, chosen from the browser's list of
/// targets; page targets come first.
pub fn select_ws_url(targets: &[DebugTarget]) -> (r: Result<String, WsUrlError>)
    ensures
        targets@.len() == 0 ==> r matches Err(WsUrlError::NoTargets),
        targets@.len() > 0 ==> match chosen_target(targets@) {
            Some(i) => (r matches Ok(u) && targets@[i].web_socket_debugger_url == Some(u)),
            None => (r matches Err(WsUrlError::NoDebuggerUrl)),
        },
{
    if targets.len() == 0 {
        return Err(WsUrlError::NoTargets);
    }
    let chosen = match first_with_url(targets, true) {
        Some(i) => Some(i),
        None => first_with_url(targets, false),
    };
    match chosen {
        Some(i) => {
            proof {
                lemma_first_target_with_url(targets@, true, 0);
                lemma_first_target_with_url(targets@, false, 0);
            }
            match &targets[i].web_socket_debugger_url {
                Some(u) => Ok(u.clone()),
                None => Err(WsUrlError::NoDebuggerUrl),
            }
        },
        None => Err(WsUrlError::NoDebuggerUrl),
    }
}

pub proof fn lemma_first_target_with_url(targets: Seq<DebugTarget>, pages_only: bool, i: int)
    requires
        0 <= i,
    ensures
        first_target_with_url(targets, pages_only, i) matches Some(k) ==> i <= k < targets.len()
            && targets[k].web_socket_debugger_url is Some,
    decreases targets.len() - i,
{
    if 0 <= i < targets.len() && !(targets[i].web_socket_debugger_url is Some && (!pages_only
        || is_page(targets[i]))) {
        lemma_first_target_with_url(targets, pages_only, i + 1);
    }
}

/// The status line of a response that was not `200`.
pub struct HttpStatusError {
    pub status_line: String,
}

/// The first line of a response, or nothing.
pub open spec fn status_line_of(response: Seq<char>) -> Seq<char> {
    if spec_lines(response).len() > 0 { spec_lines(response)[0] } else { seq![] }
}

/// The text after the header block, up to any further blank line.
pub open spec fn body_of(response: Seq<char>) -> Seq<char> {
    match spec_split_second(response, seq!['\r', '\n', '\r', '\n']) {
        Some(b) => b,
        None => seq![],
    }
}

/// The body of an HTTP response read as text, or its status line when that
/// line does not contain `200`.
pub fn http_body(response: &str) -> (r: Result<String, HttpStatusError>)
    ensures
        match r {
            Ok(b) => contains_seq(status_line_of(response@), "200"@) && b@ == body_of(response@),
            Err(e) => !contains_seq(status_line_of(response@), "200"@) && e.status_line@
                == status_line_of(response@),
        },
{
    let chars = chars_of(response);
    let lines = lines_of(&chars);
    let status: Vec<char> = if lines.len() > 0 {
        copy_range(&lines[0], 0, lines[0].len())
    } else {
        Vec::new()
    };
    proof {
        assert(spec_lines(response@) == vviews(lines@));
        if lines@.len() > 0 {
            assert(status@ =~= lines@[0]@);
        }
        assert(status@ =~= status_line_of(response@));
    }
    let ok = chars_of("200");
    if !contains_chars(&status, &ok) {
        return Err(HttpStatusError { status_line: string_from_chars(&status) });
    }
    let sep: [char; 4] = ['\r', '\n', '\r', '\n'];
    proof {
        assert(sep@ =~= seq!['\r', '\n', '\r', '\n']);
    }
    match split_second(&chars, &sep) {
        Some(b) => Ok(string_from_chars(&b)),
        None => Ok(String::new()),
    }
}

/// How a key press is sent: a modifier chord (`Control+C`) as a modifier
/// down, a character and a modifier up; any other key as a down and an up.
pub enum KeyPress {
    Chord { modifier_code: u32, modifier: String, key_code: u32, code: String, key: String },
    Single { key_code: u32, code: String, key: String },
}

/// The virtual key code and name of a modifier.
pub open spec fn spec_modifier(m: Seq<char>) -> (u32, Seq<char>) {
    if m == "Control"@ || m == "Ctrl"@ {
        (17, "Control"@)
    } else if m == "Shift"@ {
        (16, "Shift"@)
    } else if m == "Alt"@ {
        (18, "Alt"@)
    } else if m == "Meta"@ || m == "Command"@ || m == "Cmd"@ {
        (91, "Meta"@)
    } else {
        (0, m)
    }
}

/// The code of the first character, or 0 for none.
pub open spec fn first_char_code(s: Seq<char>) -> u32 {
    if s.len() > 0 { s[0] as u32 } else { 0 }
}

/// The virtual key code, code and key name of the key pressed with a modifier.
pub open spec fn spec_chord_key(k: Seq<char>) -> (u32, Seq<char>, Seq<char>) {
    if k == "c"@ || k == "C"@ {
        (67, "KeyC"@, "c"@)
    } else if k == "v"@ || k == "V"@ {
        (86, "KeyV"@, "v"@)
    } else if k == "a"@ || k == "A"@ {
        (65, "KeyA"@, "a"@)
    } else if k == "x"@ || k == "X"@ {
        (88, "KeyX"@, "x"@)
    } else if k == "z"@ || k == "Z"@ {
        (90, "KeyZ"@, "z"@)
    } else {
        (first_char_code(k), k, k)
    }
}

/// The virtual key code and code of a named key (0 and the key itself for
/// others).
pub open spec fn spec_named_key(k: Seq<char>) -> (u32, Seq<char>) {
    if k == "Enter"@ {
        (13, "Enter"@)
    } else if k == "Tab"@ {
        (9, "Tab"@)
    } else if k == "Escape"@ {
        (27, "Escape"@)
    } else if k == "Backspace"@ {
        (8, "Backspace"@)
    } else if k == "Delete"@ {
        (46, "Delete"@)
    } else if k == "ArrowUp"@ {
        (38, "ArrowUp"@)
    } else if k == "ArrowDown"@ {
        (40, "ArrowDown"@)
    } else if k == "ArrowLeft"@ {
        (37, "ArrowLeft"@)
    } else if k == "ArrowRight"@ {
        (39, "ArrowRight"@)
    } else if k == "Space"@ {
        (32, "Space"@)
    } else {
        (0, k)
    }
}

/// Whether a key press is as `press_key` sends it for `key`: split at the
/// first `+` into a trimmed modifier and a trimmed key, else a single key.
pub open spec fn is_key_press_for(p: KeyPress, key: Seq<char>) -> bool {
    match index_of_char(key, '+', 0) {
        Some(k) => {
            let m = spec_modifier(spec_trim(key.take(k)));
            let c = spec_chord_key(spec_trim(key.skip(k + 1)));
            p matches KeyPress::Chord { modifier_code, modifier, key_code, code, key: name }
                && modifier_code == m.0 && modifier@ == m.1 && key_code == c.0 && code@ == c.1
                && name@ == c.2
        },
        None => {
            let n = spec_named_key(key);
            p matches KeyPress::Single { key_code, code, key: name } && key_code == n.0 && code@
                == n.1 && name@ == key
        },
    }
}

fn modifier_of(m: &str) -> (r: (u32, String))
    ensures
        r.0 == spec_modifier(m@).0,
        r.1@ == spec_modifier(m@).1,
{
    if str_eq(m, "Control") || str_eq(m, "Ctrl") {
        (17, String::from_str("Control"))
    } else if str_eq(m, "Shift") {
        (16, String::from_str("Shift"))
    } else if str_eq(m, "Alt") {
        (18, String::from_str("Alt"))
    } else if str_eq(m, "Meta") || str_eq(m, "Command") || str_eq(m, "Cmd") {
        (91, String::from_str("Meta"))
    } else {
        (0, String::from_str(m))
    }
}

fn chord_key_of(k: &str) -> (r: (u32, String, String))
    ensures
        r.0 == spec_chord_key(k@).0,
        r.1@ == spec_chord_key(k@).1,
        r.2@ == spec_chord_key(k@).2,
{
    if str_eq(k, "c") || str_eq(k, "C") {
        (67, String::from_str("KeyC"), String::from_str("c"))
    } else if str_eq(k, "v") || str_eq(k, "V") {
        (86, String::from_str("KeyV"), String::from_str("v"))
    } else if str_eq(k, "a") || str_eq(k, "A") {
        (65, String::from_str("KeyA"), String::from_str("a"))
    } else if str_eq(k, "x") || str_eq(k, "X") {
        (88, String::from_str("KeyX"), String::from_str("x"))
    } else if str_eq(k, "z") || str_eq(k, "Z") {
        (90, String::from_str("KeyZ"), String::from_str("z"))
    } else {
        let chars = chars_of(k);
        let code: u32 = if chars.len() > 0 { chars[0] as u32 } else { 0 };
        (code, String::from_str(k), String::from_str(k))
    }
}

fn named_key_of(k: &str) -> (r: (u32, String))
    ensures
        r.0 == spec_named_key(k@).0,
        r.1@ == spec_named_key(k@).1,
{
    if str_eq(k, "Enter") {
        (13, String::from_str("Enter"))
    } else if str_eq(k, "Tab") {
        (9, String::from_str("Tab"))
    } else if str_eq(k, "Escape") {
        (27, String::from_str("Escape"))
    } else if str_eq(k, "Backspace") {
        (8, String::from_str("Backspace"))
    } else if str_eq(k, "Delete") {
        (46, String::from_str("Delete"))
    } else if str_eq(k, "ArrowUp") {
        (38, String::from_str("ArrowUp"))
    } else if str_eq(k, "ArrowDown") {
        (40, String::from_str("ArrowDown"))
    } else if str_eq(k, "ArrowLeft") {
        (37, String::from_str("ArrowLeft"))
    } else if str_eq(k, "ArrowRight") {
        (39, String::from_str("ArrowRight"))
    } else if str_eq(k, "Space") {
        (32, String::from_str("Space"))
    } else {
        (0, String::from_str(k))
    }
}

/// How `press_key` sends `key`.
pub fn plan_key_press(key: &str) -> (r: KeyPress)
    ensures
        is_key_press_for(r, key@),
{
    let chars = chars_of(key);
    match find_char_from(&chars, '+', 0) {
        Some(k) => {
            proof {
                lemma_index_of_char(chars@, '+', 0);
            }
            let before = copy_range(&chars, 0, k);
            let after = copy_range(&chars, k + 1, chars.len());
            let m = string_from_chars(&trim_chars(&before));
            let c = string_from_chars(&trim_chars(&after));
            proof {
                assert(before@ =~= key@.take(k as int));
                assert(after@ =~= key@.skip(k + 1));
            }
            let (modifier_code, modifier) = modifier_of(m.as_str());
            let (key_code, code, name) = chord_key_of(c.as_str());
            KeyPress::Chord { modifier_code, modifier, key_code, code, key: name }
        },
        None => {
            let (key_code, code) = named_key_of(key);
            KeyPress::Single { key_code, code, key: String::from_str(key) }
        },
    }
}

/// The kind of a key event sent with `Input.dispatchKeyEvent`.
#[derive(Clone, Copy, Debug, PartialEq, Eq, Structural)]
pub enum KeyEventType {
    RawKeyDown,
    Char,
    KeyDown,
    KeyUp,
}

impl KeyEventType {
    /// The event's `type` as the protocol names it.
    pub fn name(&self) -> (r: &'static str)
        ensures
            r@ == match self {
                KeyEventType::RawKeyDown => "rawKeyDown"@,
                KeyEventType::Char => "char"@,
                KeyEventType::KeyDown => "keyDown"@,
                KeyEventType::KeyUp => "keyUp"@,
            },
    {
        match self {
            KeyEventType::RawKeyDown => "rawKeyDown",
            KeyEventType::Char => "char",
            KeyEventType::KeyDown => "keyDown",
            KeyEventType::KeyUp => "keyUp",
        }
    }
}

/// One key event: its type, virtual key code, code and key name, and the
/// text it types, if any.
pub struct KeyEvent {
    pub kind: KeyEventType,
    pub key_code: u32,
    pub code: String,
    pub key: String,
    pub text: Option<String>,
}

/// The plain form of a key event.
pub open spec fn key_event_view(e: KeyEvent) -> (KeyEventType, u32, Seq<char>, Seq<char>, Option<Seq<char>>) {
    (
        e.kind,
        e.key_code,
        e.code@,
        e.key@,
        match e.text {
            None => None,
            Some(t) => Some(t@),
        },
    )
}

/// The events that send a key press, in order: for a chord, the modifier
/// down (raw), the key as a typed character and the modifier up; for a
/// single key, its down and its up.
pub open spec fn spec_key_events(p: KeyPress) -> Seq<(KeyEventType, u32, Seq<char>, Seq<char>, Option<Seq<char>>)> {
    match p {
        KeyPress::Chord { modifier_code, modifier, key_code, code, key } => seq![
            (KeyEventType::RawKeyDown, modifier_code, modifier@, modifier@, None),
            (KeyEventType::Char, key_code, code@, key@, Some(key@)),
            (KeyEventType::KeyUp, modifier_code, modifier@, modifier@, None),
        ],
        KeyPress::Single { key_code, code, key } => seq![
            (KeyEventType::KeyDown, key_code, code@, key@, None),
            (KeyEventType::KeyUp, key_code, code@, key@, None),
        ],
    }
}

fn key_event(kind: KeyEventType, key_code: u32, code: &String, key: &String, typed: bool) -> (r: KeyEvent)
    ensures
        key_event_view(r) == (kind, key_code, code@, key@, if typed { Some(key@) } else { None::<Seq<char>> }),
{
    KeyEvent {
        kind,
        key_code,
        code: code.clone(),
        key: key.clone(),
        text: if typed { Some(key.clone()) } else { None },
    }
}

/// The key events that send a planned key press, to be sent in order; the
/// press stops at the first that fails.
pub fn key_events(press: &KeyPress) -> (r: Vec<KeyEvent>)
    ensures
        r@.map_values(|e: KeyEvent| key_event_view(e)) == spec_key_events(*press),
{
    let mut r: Vec<KeyEvent> = Vec::new();
    match press {
        KeyPress::Chord { modifier_code, modifier, key_code, code, key } => {
            r.push(key_event(KeyEventType::RawKeyDown, *modifier_code, modifier, modifier, false));
            r.push(key_event(KeyEventType::Char, *key_code, code, key, true));
            r.push(key_event(KeyEventType::KeyUp, *modifier_code, modifier, modifier, false));
        },
        KeyPress::Single { key_code, code, key } => {
            r.push(key_event(KeyEventType::KeyDown, *key_code, code, key, false));
            r.push(key_event(KeyEventType::KeyUp, *key_code, code, key, false));
        },
    }
    assert(r@.map_values(|e: KeyEvent| key_event_view(e)) =~= spec_key_events(*press));
    r
}

/// How one character is written inside a single-quoted JavaScript string.
pub open spec fn escape_char(c: char) -> Seq<char> {
    if c == '\\' {
        seq!['\\', '\\']
    } else if c == '\'' {
        seq!['\\', '\'']
    } else {
        seq![c]
    }
}

/// `s` with backslashes doubled and single quotes escaped, as
/// `s.replace('\\', "\\\\").replace('\'', "\\'")` gives it.
pub open spec fn spec_escape_js(s: Seq<char>) -> Seq<char>
    decreases s.len(),
{
    if s.len() == 0 {
        seq![]
    } else {
        spec_escape_js(s.drop_last()) + escape_char(s.last())
    }
}

/// What a single-quoted JavaScript string literal reads back: a backslash
/// makes the next character literal.
pub open spec fn spec_unescape_js(t: Seq<char>) -> Seq<char>
    decreases t.len(),
{
    if t.len() == 0 {
        seq![]
    } else if t[0] == '\\' && t.len() >= 2 {
        seq![t[1]] + spec_unescape_js(t.skip(2))
    } else {
        seq![t[0]] + spec_unescape_js(t.drop_first())
    }
}

pub proof fn lemma_escape_js_concat(a: Seq<char>, b: Seq<char>)
    ensures
        spec_escape_js(a + b) == spec_escape_js(a) + spec_escape_js(b),
    decreases b.len(),
{
    if b.len() == 0 {
        assert(a + b =~= a);
    } else {
        lemma_escape_js_concat(a, b.drop_last());
        assert((a + b).drop_last() =~= a + b.drop_last());
        assert(spec_escape_js(a + b) =~= spec_escape_js(a) + spec_escape_js(b));
    }
}

/// Escaping loses nothing: a JavaScript string literal written with the
/// escaped text reads back the text that was escaped.
pub proof fn lemma_escape_js_round_trip(s: Seq<char>)
    ensures
        spec_unescape_js(spec_escape_js(s)) == s,
    decreases s.len(),
{
    if s.len() > 0 {
        let rest = s.drop_first();
        lemma_escape_js_round_trip(rest);
        lemma_escape_js_concat(seq![s[0]], rest);
        assert(seq![s[0]] + rest =~= s);
        assert(spec_escape_js(seq![s[0]]) =~= escape_char(s[0])) by {
            let one = seq![s[0]];
            assert(one.drop_last() =~= Seq::<char>::empty());
            assert(one.last() == s[0]);
            assert(spec_escape_js(one.drop_last()) =~= Seq::<char>::empty());
            assert(spec_escape_js(one) == spec_escape_js(one.drop_last()) + escape_char(one.last()));
        }
        let t = escape_char(s[0]) + spec_escape_js(rest);
        if s[0] == '\\' || s[0] == '\'' {
            assert(t.skip(2) =~= spec_escape_js(rest));
        } else {
            assert(t.drop_first() =~= spec_escape_js(rest));
        }
        assert(seq![s[0]] + rest =~= s);
    }
}

/// `s` escaped for a single-quoted JavaScript string.
pub fn escape_js_single_quoted(s: &str) -> (r: String)
    ensures
        r@ == spec_escape_js(s@),
{
    let chars = chars_of(s);
    let mut out: Vec<char> = Vec::new();
    let mut i: usize = 0;
    while i < chars.len()
        invariant
            i <= chars@.len(),
            out@ == spec_escape_js(chars@.take(i as int)),
        decreases chars@.len() - i,
    {
        let c = chars[i];
        proof {
            assert(chars@.take(i + 1).drop_last() =~= chars@.take(i as int));
        }
        if c == '\\' {
            out.push('\\');
            out.push('\\');
        } else if c == '\'' {
            out.push('\\');
            out.push('\'');
        } else {
            out.push(c);
        }
        proof {
            assert(out@ =~= spec_escape_js(chars@.take(i + 1)));
        }
        i = i + 1;
    }
    proof {
        assert(chars@.take(chars@.len() as int) =~= chars@);
    }
    string_from_chars(&out)
}

} // verus!
