use vstd::prelude::*;
use vstd::string::StringExecFns;
use crate::text::{
    chars_of, is_blank, join_strings, normalize_whitespace, spec_join, spec_normalize_whitespace,
    str_eq, string_views, all_whitespace,
};

verus! {

/// One hit of a web search.
pub struct WebSearchResult {
    pub title: String,
    pub url: String,
    pub text: String,
}

/// The hits of a web search, in the order the engine ranked them.
pub struct WebSearchResponse {
    pub results: Vec<WebSearchResult>,
}

/// The plain form of a hit: title, URL and text.
pub open spec fn result_view(r: WebSearchResult) -> (Seq<char>, Seq<char>, Seq<char>) {
    (r.title@, r.url@, r.text@)
}

/// The plain form of a list of hits.
pub open spec fn results_view(rs: Seq<WebSearchResult>) -> Seq<(Seq<char>, Seq<char>, Seq<char>)> {
    rs.map_values(|r: WebSearchResult| result_view(r))
}

// ---- URLs ----

/// A URL as the url crate parsed it: its serialization and its decoded query
/// pairs, in order.
pub struct ParsedUrl {
    pub serialization: String,
    pub query_pairs: Vec<(String, String)>,
}

/// The plain form of a parsed URL.
pub open spec fn parsed_view(p: ParsedUrl) -> (Seq<char>, Seq<(Seq<char>, Seq<char>)>) {
    (p.serialization@, p.query_pairs@.map_values(|kv: (String, String)| (kv.0@, kv.1@)))
}

/// What `url::Url::parse` makes of a string: none when it is no absolute
/// URL; else the serialization and the query pairs.
pub uninterp spec fn url_parse_of(input: Seq<char>) -> Option<(Seq<char>, Seq<(Seq<char>, Seq<char>)>)>;

/// Parses an absolute URL with `url::Url::parse`, and reads back its
/// serialization (`to_string`) and its percent-decoded query pairs
/// (`query_pairs`). The contract only names the result: it is the same
/// whenever the input is.
#[verifier::external_body]
fn parse_url(input: &str) -> (r: Option<ParsedUrl>)
    ensures
        match r {
            Some(p) => url_parse_of(input@) == Some(parsed_view(p)),
            None => url_parse_of(input@) is None,
        },
{
    url::Url::parse(input).ok().map(
        |u| ParsedUrl {
            serialization: u.to_string(),
            query_pairs: u.query_pairs().map(|(k, v)| (k.into_owned(), v.into_owned())).collect(),
        },
    )
}

/// The value of the first query pair whose key is `key`.
pub open spec fn first_value_for(pairs: Seq<(Seq<char>, Seq<char>)>, key: Seq<char>, i: int) -> Option<
    Seq<char>,
>
    decreases pairs.len() - i,
{
    if i < 0 || i >= pairs.len() {
        None
    } else if pairs[i].0 == key {
        Some(pairs[i].1)
    } else {
        first_value_for(pairs, key, i + 1)
    }
}

/// The origin put in front of DuckDuckGo's relative links.
pub const DDG_ORIGIN: &'static str = "https://duckduckgo.com";

/// The URL behind a DuckDuckGo result link: the `uddg` query parameter of
/// its redirect, else the link itself; a relative link is read against
/// DuckDuckGo's origin. None when neither form parses.
pub open spec fn spec_decode_ddg_url(href: Seq<char>) -> Option<Seq<char>> {
    let parsed = match url_parse_of(href) {
        Some(p) => Some(p),
        None => url_parse_of(DDG_ORIGIN@ + href),
    };
    match parsed {
        None => None,
        Some((serialization, pairs)) => match first_value_for(pairs, "uddg"@, 0) {
            Some(target) => Some(target),
            None => Some(serialization),
        },
    }
}

/// A result link that is no URL, even against DuckDuckGo's origin.
#[derive(Debug)]
pub struct InvalidLink {
    pub href: String,
}

/// The URL behind a DuckDuckGo result link.
pub fn decode_ddg_url(href: &str) -> (r: Result<String, InvalidLink>)
    ensures
        match r {
            Ok(u) => spec_decode_ddg_url(href@) == Some(u@),
            Err(e) => spec_decode_ddg_url(href@) is None && e.href@ == href@,
        },
{
    let parsed = match parse_url(href) {
        Some(p) => Some(p),
        None => {
            let mut absolute = String::from_str(DDG_ORIGIN);
            absolute.append(href);
            parse_url(absolute.as_str())
        },
    };
    let p = match parsed {
        Some(p) => p,
        None => {
            return Err(InvalidLink { href: String::from_str(href) });
        },
    };
    let ghost pairs = parsed_view(p).1;
    assert(spec_decode_ddg_url(href@) == match first_value_for(pairs, "uddg"@, 0) {
        Some(t) => Some(t),
        None => Some(p.serialization@),
    });
    let mut i: usize = 0;
    while i < p.query_pairs.len()
        invariant
            i <= p.query_pairs@.len(),
            pairs == parsed_view(p).1,
            spec_decode_ddg_url(href@) == match first_value_for(pairs, "uddg"@, 0) {
                Some(t) => Some(t),
                None => Some(p.serialization@),
            },
            first_value_for(pairs, "uddg"@, 0) == first_value_for(pairs, "uddg"@, i as int),
        decreases p.query_pairs@.len() - i,
    {
        assert(pairs[i as int] == (p.query_pairs@[i as int].0@, p.query_pairs@[i as int].1@));
        if str_eq(p.query_pairs[i].0.as_str(), "uddg") {
            return Ok(p.query_pairs[i].1.clone());
        }
        i = i + 1;
    }
    Ok(p.serialization)
}

// ---- result pages ----

/// What a DuckDuckGo result block holds, as the page gives it: its first
/// result link (with the link's `href`, if any, and its text) and the text
/// of its first snippet.
pub struct DdgBlock {
    pub link: Option<(Option<String>, String)>,
    pub snippet: Option<String>,
}

/// What a Brave web result block holds: its first `http` link (its `href`
/// and text), its title element (the `title` attribute and the text), and
/// the text of its snippet's content and of the snippet itself.
pub struct BraveBlock {
    pub link: Option<(Option<String>, String)>,
    pub title: Option<(Option<String>, String)>,
    pub snippet_content: Option<String>,
    pub snippet: Option<String>,
}

/// The hit a DuckDuckGo block gives, if any: none without a link, without
/// an `href`, or with a blank title; else an error when the link does not
/// decode.
pub open spec fn spec_ddg_hit(b: DdgBlock) -> Option<Option<(Seq<char>, Seq<char>, Seq<char>)>> {
    match b.link {
        None => None,
        Some((href, text)) => match href {
            None => None,
            Some(h) => {
                let title = spec_normalize_whitespace(text@);
                if title.len() == 0 {
                    None
                } else {
                    match spec_decode_ddg_url(h@) {
                        None => Some(None),
                        Some(url) => Some(
                            Some(
                                (
                                    title,
                                    url,
                                    match b.snippet {
                                        Some(s) => spec_normalize_whitespace(s@),
                                        None => seq![],
                                    },
                                ),
                            ),
                        ),
                    }
                }
            },
        },
    }
}

/// The hits of DuckDuckGo blocks from `i` on, or none when a link fails
/// to decode.
pub open spec fn spec_ddg_results(blocks: Seq<DdgBlock>, i: int) -> Option<
    Seq<(Seq<char>, Seq<char>, Seq<char>)>,
>
    decreases blocks.len() - i,
{
    if i < 0 || i >= blocks.len() {
        Some(seq![])
    } else {
        match spec_ddg_hit(blocks[i]) {
            None => spec_ddg_results(blocks, i + 1),
            Some(None) => None,
            Some(Some(hit)) => match spec_ddg_results(blocks, i + 1) {
                Some(rest) => Some(seq![hit] + rest),
                None => None,
            },
        }
    }
}

fn ddg_hit(b: &DdgBlock) -> (r: Option<Result<WebSearchResult, InvalidLink>>)
    ensures
        match r {
            None => spec_ddg_hit(*b) is None,
            Some(Err(e)) => spec_ddg_hit(*b) == Some(None::<(Seq<char>, Seq<char>, Seq<char>)>)
                && spec_decode_ddg_url(e.href@) is None,
            Some(Ok(hit)) => spec_ddg_hit(*b) == Some(Some(result_view(hit))),
        },
{
    let (href, text) = match &b.link {
        None => {
            return None;
        },
        Some(l) => (&l.0, &l.1),
    };
    let h = match href {
        None => {
            return None;
        },
        Some(h) => h,
    };
    let title = normalize_whitespace(text.as_str());
    if title.as_str().is_empty() {
        return None;
    }
    let url = match decode_ddg_url(h.as_str()) {
        Ok(u) => u,
        Err(e) => {
            return Some(Err(e));
        },
    };
    let text = match &b.snippet {
        Some(s) => normalize_whitespace(s.as_str()),
        None => String::new(),
    };
    Some(Ok(WebSearchResult { title, url, text }))
}

/// The hits of a DuckDuckGo result page, read from its result blocks in
/// page order: blocks without a link, an `href` or a title are skipped; a
/// link that does not decode fails the whole page.
pub fn ddg_results(blocks: &Vec<DdgBlock>) -> (r: Result<WebSearchResponse, InvalidLink>)
    ensures
        match r {
            Ok(resp) => spec_ddg_results(blocks@, 0) == Some(results_view(resp.results@)),
            Err(e) => spec_ddg_results(blocks@, 0) is None && spec_decode_ddg_url(e.href@) is None,
        },
{
    let mut hits: Vec<WebSearchResult> = Vec::new();
    let mut i: usize = 0;
    while i < blocks.len()
        invariant
            i <= blocks@.len(),
            spec_ddg_results(blocks@, 0) == match spec_ddg_results(blocks@, i as int) {
                Some(rest) => Some(results_view(hits@) + rest),
                None => None,
            },
        decreases blocks@.len() - i,
    {
        match ddg_hit(&blocks[i]) {
            None => {},
            Some(Err(e)) => {
                return Err(e);
            },
            Some(Ok(hit)) => {
                let ghost before = hits@;
                hits.push(hit);
                proof {
                    assert(results_view(hits@) =~= results_view(before).push(result_view(hit)));
                    match spec_ddg_results(blocks@, i + 1) {
                        Some(rest) => {
                            assert(results_view(before) + (seq![result_view(hit)] + rest)
                                =~= results_view(hits@) + rest);
                        },
                        None => {},
                    }
                }
            },
        }
        i = i + 1;
    }
    proof {
        assert(results_view(hits@) + seq![] =~= results_view(hits@));
    }
    Ok(WebSearchResponse { results: hits })
}

/// The title of a Brave block: the title element's non-blank `title`
/// attribute, else that element's text, else the link's text.
pub open spec fn spec_brave_title(b: BraveBlock, link_text: Seq<char>) -> Seq<char> {
    match b.title {
        Some((attr, text)) => match attr {
            Some(a) => if !is_blank(a@) { a@ } else { text@ },
            None => text@,
        },
        None => link_text,
    }
}

/// The hit a Brave block gives, if any.
pub open spec fn spec_brave_hit(b: BraveBlock) -> Option<(Seq<char>, Seq<char>, Seq<char>)> {
    match b.link {
        None => None,
        Some((href, link_text)) => match href {
            None => None,
            Some(h) => {
                let title = spec_normalize_whitespace(spec_brave_title(b, link_text@));
                if title.len() == 0 {
                    None
                } else {
                    let text = match b.snippet_content {
                        Some(c) => spec_normalize_whitespace(c@),
                        None => match b.snippet {
                            Some(s) => spec_normalize_whitespace(s@),
                            None => seq![],
                        },
                    };
                    Some((title, h@, text))
                }
            },
        },
    }
}

/// The hits of Brave blocks, in order.
pub open spec fn spec_brave_results(blocks: Seq<BraveBlock>, i: int) -> Seq<(Seq<char>, Seq<char>, Seq<char>)>
    decreases blocks.len() - i,
{
    if i < 0 || i >= blocks.len() {
        seq![]
    } else {
        match spec_brave_hit(blocks[i]) {
            None => spec_brave_results(blocks, i + 1),
            Some(hit) => seq![hit] + spec_brave_results(blocks, i + 1),
        }
    }
}

fn brave_hit(b: &BraveBlock) -> (r: Option<WebSearchResult>)
    ensures
        match r {
            None => spec_brave_hit(*b) is None,
            Some(hit) => spec_brave_hit(*b) == Some(result_view(hit)),
        },
{
    let (href, link_text) = match &b.link {
        None => {
            return None;
        },
        Some(l) => (&l.0, &l.1),
    };
    let h = match href {
        None => {
            return None;
        },
        Some(h) => h,
    };
    let raw_title: &String = match &b.title {
        Some(t) => match &t.0 {
            Some(a) => {
                let chars = chars_of(a.as_str());
                if !all_whitespace(&chars) {
                    a
                } else {
                    &t.1
                }
            },
            None => &t.1,
        },
        None => link_text,
    };
    let title = normalize_whitespace(raw_title.as_str());
    if title.as_str().is_empty() {
        return None;
    }
    let text = match &b.snippet_content {
        Some(c) => normalize_whitespace(c.as_str()),
        None => match &b.snippet {
            Some(s) => normalize_whitespace(s.as_str()),
            None => String::new(),
        },
    };
    Some(WebSearchResult { title, url: h.clone(), text })
}

/// The hits of a Brave result page, read from its web result blocks in
/// page order; blocks without a link, an `href` or a title are skipped.
pub fn brave_results(blocks: &Vec<BraveBlock>) -> (r: WebSearchResponse)
    ensures
        results_view(r.results@) == spec_brave_results(blocks@, 0),
{
    let mut hits: Vec<WebSearchResult> = Vec::new();
    let mut i: usize = 0;
    while i < blocks.len()
        invariant
            i <= blocks@.len(),
            spec_brave_results(blocks@, 0) == results_view(hits@) + spec_brave_results(
                blocks@,
                i as int,
            ),
        decreases blocks@.len() - i,
    {
        match brave_hit(&blocks[i]) {
            None => {},
            Some(hit) => {
                let ghost before = hits@;
                hits.push(hit);
                proof {
                    assert(results_view(hits@) =~= results_view(before).push(result_view(hit)));
                    assert(results_view(before) + (seq![result_view(hit)] + spec_brave_results(
                        blocks@,
                        i + 1,
                    )) =~= results_view(hits@) + spec_brave_results(blocks@, i + 1));
                }
            },
        }
        i = i + 1;
    }
    proof {
        assert(results_view(hits@) + seq![] =~= results_view(hits@));
    }
    WebSearchResponse { results: hits }
}

// ---- trying the engines in turn ----

/// The engines tried, in order.
pub open spec fn engine_names() -> Seq<Seq<char>> {
    seq!["DuckDuckGo (html)"@, "DuckDuckGo (lite)"@, "Brave"@]
}

/// The name of the engine at a position of the chain.
pub fn engine_name(i: usize) -> (r: &'static str)
    requires
        i < 3,
    ensures
        r@ == engine_names()[i as int],
{
    if i == 0 {
        "DuckDuckGo (html)"
    } else if i == 1 {
        "DuckDuckGo (lite)"
    } else {
        "Brave"
    }
}

/// What `format!("{:?}", s)` writes for a string.
pub uninterp spec fn debug_str_of(s: Seq<char>) -> Seq<char>;

/// A string written as Rust's `Debug` writes it (quoted and escaped), with
/// std's `format!`. The contract only names the result.
#[verifier::external_body]
fn debug_str(s: &str) -> (r: String)
    ensures
        r@ == debug_str_of(s@),
{
    format!("{:?}", s)
}

/// What one engine's attempt came to.
pub enum EngineOutcome {
    Answered(WebSearchResponse),
    Failed(String),
}

/// What the chain does next.
pub enum ChainStep {
    Done(WebSearchResponse),
    TryEngine(usize),
    AllFailed(String),
}

/// The state of a search that tries the engines in turn.
pub struct SearchChain {
    pub errors: Vec<String>,
    pub next_engine: usize,
}

/// The note kept for an engine that gave nothing.
pub open spec fn spec_engine_note(engine: Seq<char>, query: Seq<char>, failure: Option<Seq<char>>) -> Seq<
    char,
> {
    match failure {
        None => engine + " returned no results for query "@ + debug_str_of(query),
        Some(e) => engine + " failed: "@ + e,
    }
}

/// The message when every engine failed.
pub open spec fn spec_all_failed(notes: Seq<Seq<char>>) -> Seq<char> {
    "all web search engines failed: "@ + spec_join(notes, "; "@)
}

impl SearchChain {
    /// A search that has tried nothing yet.
    pub fn new() -> (r: Self)
        ensures
            r.errors@.len() == 0,
            r.next_engine == 0,
    {
        SearchChain { errors: Vec::new(), next_engine: 0 }
    }

    /// Takes in what the engine `next_engine` gave: a response with results
    /// ends the search; otherwise a note is kept and the next engine is
    /// tried, or, after the last, the search fails with all notes.
    pub fn record(&mut self, query: &str, outcome: EngineOutcome) -> (r: ChainStep)
        requires
            old(self).next_engine < 3,
        ensures
            match outcome {
                EngineOutcome::Answered(resp) => resp.results@.len() > 0 ==> r == ChainStep::Done(resp),
                _ => true,
            },
            !(outcome matches EngineOutcome::Answered(resp) && resp.results@.len() > 0) ==> {
                &&& final(self).next_engine == old(self).next_engine + 1
                &&& string_views(final(self).errors@) == string_views(old(self).errors@).push(
                    spec_engine_note(
                        engine_names()[old(self).next_engine as int],
                        query@,
                        match outcome {
                            EngineOutcome::Failed(e) => Some(e@),
                            EngineOutcome::Answered(_) => None,
                        },
                    ),
                )
                &&& final(self).next_engine < 3 ==> r == ChainStep::TryEngine(final(self).next_engine)
                &&& final(self).next_engine == 3 ==> (r matches ChainStep::AllFailed(m) && m@
                    == spec_all_failed(string_views(final(self).errors@)))
            },
    {
        let engine = engine_name(self.next_engine);
        let note = match outcome {
            EngineOutcome::Answered(resp) => {
                if resp.results.len() > 0 {
                    return ChainStep::Done(resp);
                }
                let mut n = String::from_str(engine);
                n.append(" returned no results for query ");
                let q = debug_str(query);
                n.append(q.as_str());
                n
            },
            EngineOutcome::Failed(e) => {
                let mut n = String::from_str(engine);
                n.append(" failed: ");
                n.append(e.as_str());
                n
            },
        };
        let ghost before = self.errors@;
        self.errors.push(note);
        proof {
            assert(string_views(self.errors@) =~= string_views(before).push(note@));
        }
        self.next_engine = self.next_engine + 1;
        if self.next_engine < 3 {
            ChainStep::TryEngine(self.next_engine)
        } else {
            let mut m = String::from_str("all web search engines failed: ");
            let joined = join_strings(&self.errors, "; ");
            m.append(joined.as_str());
            ChainStep::AllFailed(m)
        }
    }
}

// ---- fetching result pages ----

/// The largest page body read, in bytes.
pub const MAX_HTML_BODY_BYTES: usize = 5 * 1024 * 1024;

/// What `url::Url::parse_with_params(base, [(key, value)])` serializes to,
/// when `base` parses.
pub uninterp spec fn url_with_param_of(base: Seq<char>, key: Seq<char>, value: Seq<char>) -> Option<
    Seq<char>,
>;

/// Builds a URL with one query parameter with
/// `url::Url::parse_with_params`, and writes it out with `to_string`. The
/// contract only names the result.
#[verifier::external_body]
fn url_with_param(base: &str, key: &str, value: &str) -> (r: Option<String>)
    ensures
        match r {
            Some(u) => url_with_param_of(base@, key@, value@) == Some(u@),
            None => url_with_param_of(base@, key@, value@) is None,
        },
{
    url::Url::parse_with_params(base, &[(key, value)]).ok().map(|u| u.to_string())
}

/// The search endpoint could not be made into a URL.
pub struct UrlBuildError;

/// The URL that asks an engine's endpoint for `query` (as its `q` parameter).
pub fn build_search_url(base: &str, query: &str) -> (r: Result<String, UrlBuildError>)
    ensures
        match r {
            Ok(u) => url_with_param_of(base@, "q"@, query@) == Some(u@),
            Err(_) => url_with_param_of(base@, "q"@, query@) is None,
        },
{
    match url_with_param(base, "q", query) {
        Some(u) => Ok(u),
        None => Err(UrlBuildError),
    }
}

/// DuckDuckGo's HTML endpoint.
pub const HTML_SEARCH_URL: &'static str = "https://html.duckduckgo.com/html/";

/// DuckDuckGo's lite endpoint.
pub const LITE_SEARCH_URL: &'static str = "https://lite.duckduckgo.com/lite/";

/// Brave's endpoint.
pub const BRAVE_SEARCH_URL: &'static str = "https://search.brave.com/search";

/// Decodes bytes as UTF-8 with `String::from_utf8`, which accepts exactly
/// the valid UTF-8 sequences and then holds the characters they encode.
#[verifier::external_body]
fn string_from_utf8(bytes: Vec<u8>) -> (r: Option<String>)
    ensures
        r is Some <==> vstd::utf8::valid_utf8(bytes@),
        r matches Some(s) ==> s@ == vstd::utf8::decode_utf8(bytes@),
{
    String::from_utf8(bytes).ok()
}

/// Why a page body was refused.
pub enum BodyError {
    TooLarge,
    NotUtf8,
}

impl BodyError {
    /// The message shown for the page at `url`.
    pub fn message(&self, url: &str) -> (r: String)
        ensures
            r@ == "response body from "@ + url@ + match self {
                BodyError::TooLarge => " exceeded 5242880 bytes"@,
                BodyError::NotUtf8 => " was not valid UTF-8"@,
            },
    {
        let mut m = String::from_str("response body from ");
        m.append(url);
        match self {
            BodyError::TooLarge => m.append(" exceeded 5242880 bytes"),
            BodyError::NotUtf8 => m.append(" was not valid UTF-8"),
        }
        m
    }
}

/// A page body read in chunks, refused once it grows past the cap.
pub struct HtmlBody {
    bytes: Vec<u8>,
}

impl HtmlBody {
    /// The bytes read so far.
    pub closed spec fn content(&self) -> Seq<u8> {
        self.bytes@
    }

    /// Nothing read yet.
    pub fn new() -> (r: Self)
        ensures
            r.content() == Seq::<u8>::empty(),
    {
        HtmlBody { bytes: Vec::new() }
    }

    /// Adds a chunk; fails when the body then exceeds the cap.
    pub fn push_chunk(&mut self, chunk: &[u8]) -> (r: Result<(), BodyError>)
        requires
            old(self).content().len() <= MAX_HTML_BODY_BYTES,
        ensures
            final(self).content() == old(self).content() + chunk@,
            r is Ok <==> final(self).content().len() <= MAX_HTML_BODY_BYTES,
            r matches Err(e) ==> e is TooLarge,
    {
        let mut i: usize = 0;
        let ghost start = self.bytes@;
        while i < chunk.len()
            invariant
                i <= chunk@.len(),
                self.bytes@ == start + chunk@.take(i as int),
            decreases chunk@.len() - i,
        {
            self.bytes.push(chunk[i]);
            proof {
                assert(start + chunk@.take(i + 1) =~= (start + chunk@.take(i as int)).push(chunk@[i as int]));
            }
            i = i + 1;
        }
        proof {
            assert(chunk@.take(chunk@.len() as int) =~= chunk@);
        }
        if self.bytes.len() > MAX_HTML_BODY_BYTES {
            Err(BodyError::TooLarge)
        } else {
            Ok(())
        }
    }

    /// The body as text; fails unless it is valid UTF-8.
    pub fn finish(self) -> (r: Result<String, BodyError>)
        ensures
            r is Ok <==> vstd::utf8::valid_utf8(self.content()),
            r matches Ok(s) ==> s@ == vstd::utf8::decode_utf8(self.content()),
            r matches Err(e) ==> e is NotUtf8,
    {
        match string_from_utf8(self.bytes) {
            Some(s) => Ok(s),
            None => Err(BodyError::NotUtf8),
        }
    }
}

} // verus!
