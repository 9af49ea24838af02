use vstd::prelude::*;
use vstd::string::StringExecFns;
use scraper::{Html, Selector};
use crate::web_search::{
    brave_results, ddg_results, results_view, spec_brave_results, spec_ddg_results, spec_decode_ddg_url, BraveBlock,
    DdgBlock, InvalidLink, WebSearchResponse,
};

verus! {

/// What one query part found inside a block: the value of the part's
/// attribute on the first element that matches the part's selector (none
/// when the element has no such attribute) and that element's text.
pub type Part = Option<(Option<String>, String)>;

/// The plain form of a found part.
pub open spec fn part_view(p: Part) -> Option<(Option<Seq<char>>, Seq<char>)> {
    match p {
        None => None,
        Some((attr, text)) => Some(
            (
                match attr {
                    None => None,
                    Some(v) => Some(v@),
                },
                text@,
            ),
        ),
    }
}

/// The plain form of what was found: per block, per part.
pub open spec fn found_view(found: Seq<Vec<Part>>) -> Seq<Seq<Option<(Option<Seq<char>>, Seq<char>)>>> {
    found.map_values(|b: Vec<Part>| b@.map_values(|p: Part| part_view(p)))
}

/// The plain form of a page selection.
pub open spec fn selection_view(r: Result<Vec<Vec<Part>>, (String, String)>) -> Result<
    Seq<Seq<Option<(Option<Seq<char>>, Seq<char>)>>>,
    (Seq<char>, Seq<char>),
> {
    match r {
        Ok(found) => Ok(found_view(found@)),
        Err((selector, message)) => Err((selector@, message@)),
    }
}

/// The plain form of the query parts: selector and attribute name.
pub open spec fn queries_view(parts: Seq<(String, String)>) -> Seq<(Seq<char>, Seq<char>)> {
    parts.map_values(|q: (String, String)| (q.0@, q.1@))
}

/// What scraper makes of a page: either the first selector (of `block`,
/// then of the parts in order) that `Selector::parse` refuses, with the
/// text of its error; or, for each element of the page that matches `block`
/// in document order, for each part, the first element inside it that
/// matches the part's selector, by the value of the part's attribute and its
/// text.
pub uninterp spec fn page_parts(
    html: Seq<char>,
    block: Seq<char>,
    parts: Seq<(Seq<char>, Seq<char>)>,
) -> Result<Seq<Seq<Option<(Option<Seq<char>>, Seq<char>)>>>, (Seq<char>, Seq<char>)>;

/// Reads a page with scraper: `Html::parse_document` (which accepts any
/// text), `Selector::parse` for each selector (its error by its `Display`
/// text, with the selector), `Html::select` and `ElementRef::select` for the
/// matches, `ElementRef::attr` and `ElementRef::text` for what they hold.
/// Each block gets one entry per part.
#[verifier::external_body]
fn select_parts(html: &str, block: &str, parts: &Vec<(String, String)>) -> (r: Result<
    Vec<Vec<Part>>,
    (String, String),
>)
    ensures
        selection_view(r) == page_parts(html@, block@, queries_view(parts@)),
        r matches Ok(found) ==> forall|i: int| 0 <= i < found@.len() ==> #[trigger] found@[i]@.len() == parts@.len(),
{
    let parse = |raw: &str| Selector::parse(raw).map_err(|e| (raw.to_string(), format!("{e}")));
    let block = parse(block)?;
    let sels = parts.iter().map(|(s, a)| parse(s).map(|sel| (sel, a))).collect::<Result<Vec<_>, _>>()?;
    let doc = Html::parse_document(html);
    Ok(doc.select(&block).map(|el| sels.iter().map(|(sel, attr)| el.select(sel).next()
        .map(|e| (e.attr(attr).map(String::from), e.text().collect()))).collect()).collect())
}

/// Why a result page could not be read.
#[derive(Debug)]
pub enum PageError {
    /// A selector of the library did not parse.
    InvalidSelector { selector: String, message: String },
    /// A result link was no URL.
    InvalidLink(InvalidLink),
}

impl PageError {
    /// The error's text.
    pub fn message(&self) -> (r: String)
        ensures
            match self {
                PageError::InvalidSelector { selector, message } => r@ == "invalid css selector \""@
                    + selector@ + "\": "@ + message@,
                PageError::InvalidLink(e) => r@ == "invalid result link: "@ + e.href@,
            },
    {
        match self {
            PageError::InvalidSelector { selector, message } => {
                let mut m = String::from_str("invalid css selector \"");
                m.append(selector.as_str());
                m.append("\": ");
                m.append(message.as_str());
                m
            },
            PageError::InvalidLink(e) => {
                let mut m = String::from_str("invalid result link: ");
                m.append(e.href.as_str());
                m
            },
        }
    }
}

/// A copy of a found part.
fn copy_part(p: &Part) -> (r: Part)
    ensures
        part_view(r) == part_view(*p),
{
    match p {
        None => None,
        Some((attr, text)) => {
            let a = match attr {
                None => None,
                Some(v) => Some(v.clone()),
            };
            Some((a, text.clone()))
        },
    }
}

/// The text of a found part.
fn part_text(p: &Part) -> (r: Option<String>)
    ensures
        match r {
            None => part_view(*p) is None,
            Some(t) => part_view(*p) matches Some((_, text)) && t@ == text,
        },
{
    match p {
        None => None,
        Some((_, text)) => Some(text.clone()),
    }
}

/// The text of a found part, in plain form.
pub open spec fn text_of(p: Option<(Option<Seq<char>>, Seq<char>)>) -> Option<Seq<char>> {
    match p {
        None => None,
        Some((_, text)) => Some(text),
    }
}

/// The plain form of an optional text.
pub open spec fn opt_text_view(t: Option<String>) -> Option<Seq<char>> {
    match t {
        None => None,
        Some(v) => Some(v@),
    }
}

/// The query parts of a DuckDuckGo page: the result link, read by its
/// `href`, and the snippet, read by its text.
pub open spec fn ddg_queries(link: Seq<char>, snippet: Seq<char>) -> Seq<(Seq<char>, Seq<char>)> {
    seq![(link, "href"@), (snippet, ""@)]
}

/// Whether a DuckDuckGo block holds what was found for it.
pub open spec fn ddg_block_holds(b: DdgBlock, parts: Seq<Option<(Option<Seq<char>>, Seq<char>)>>) -> bool {
    &&& part_view(b.link) == parts[0]
    &&& opt_text_view(b.snippet) == text_of(parts[1])
}

/// Whether the blocks hold, in order, what was found for each.
pub open spec fn ddg_blocks_hold(blocks: Seq<DdgBlock>, found: Seq<Seq<Option<(Option<Seq<char>>, Seq<char>)>>>) -> bool {
    &&& blocks.len() == found.len()
    &&& forall|i: int| 0 <= i < blocks.len() ==> #[trigger] ddg_block_holds(blocks[i], found[i])
}

/// What reading a DuckDuckGo page with the given link and snippet
/// selectors gives: the error of the first selector that does not parse;
/// else, over the result blocks (`div.result`) with their first link and
/// snippet, the hits that `ddg_results` reads from them, or the error of a
/// result link that does not decode.
pub open spec fn ddg_page_outcome(
    html: Seq<char>,
    link: Seq<char>,
    snippet: Seq<char>,
    r: Result<WebSearchResponse, PageError>,
) -> bool {
    match page_parts(html, "div.result"@, ddg_queries(link, snippet)) {
        Err((sel, msg)) => r matches Err(PageError::InvalidSelector { selector, message }) && selector@ == sel
            && message@ == msg,
        Ok(found) => exists|blocks: Seq<DdgBlock>|
            #[trigger] ddg_blocks_hold(blocks, found) && match r {
                Ok(resp) => spec_ddg_results(blocks, 0) == Some(results_view(resp.results@)),
                Err(PageError::InvalidLink(e)) => spec_ddg_results(blocks, 0) is None && spec_decode_ddg_url(
                    e.href@,
                ) is None,
                Err(PageError::InvalidSelector { .. }) => false,
            },
    }
}

fn ddg_page(html: &str, link_raw: &str, snippet_raw: &str) -> (r: Result<WebSearchResponse, PageError>)
    ensures
        ddg_page_outcome(html@, link_raw@, snippet_raw@, r),
{
    let mut parts: Vec<(String, String)> = Vec::new();
    parts.push((String::from_str(link_raw), String::from_str("href")));
    parts.push((String::from_str(snippet_raw), String::from_str("")));
    proof {
        reveal_strlit("href");
        reveal_strlit("");
        assert(queries_view(parts@) =~= ddg_queries(link_raw@, snippet_raw@));
    }
    let found = match select_parts(html, "div.result", &parts) {
        Ok(found) => found,
        Err((selector, message)) => return Err(PageError::InvalidSelector { selector, message }),
    };
    let mut blocks: Vec<DdgBlock> = Vec::new();
    let mut i: usize = 0;
    while i < found.len()
        invariant
            i <= found@.len(),
            blocks@.len() == i,
            forall|j: int| 0 <= j < found@.len() ==> #[trigger] found@[j]@.len() == 2,
            forall|j: int| 0 <= j < i ==> #[trigger] ddg_block_holds(blocks@[j], found_view(found@)[j]),
        decreases found@.len() - i,
    {
        assert(found@[i as int]@.len() == 2);
        let block = DdgBlock { link: copy_part(&found[i][0]), snippet: part_text(&found[i][1]) };
        proof {
            assert(found_view(found@)[i as int] == found@[i as int]@.map_values(|p: Part| part_view(p)));
        }
        blocks.push(block);
        i = i + 1;
    }
    assert(ddg_blocks_hold(blocks@, found_view(found@)));
    let r = match ddg_results(&blocks) {
        Ok(resp) => Ok(resp),
        Err(e) => Err(PageError::InvalidLink(e)),
    };
    assert(page_parts(html@, "div.result"@, ddg_queries(link_raw@, snippet_raw@))->Ok_0 == found_view(found@));
    r
}

/// The hits of a page of DuckDuckGo's HTML search: the result blocks as
/// scraper finds them, read by `ddg_results`.
pub fn parse_html_results(html: &str) -> (r: Result<WebSearchResponse, PageError>)
    ensures
        ddg_page_outcome(html@, "a.result__a"@, "a.result__snippet, .result__snippet"@, r),
{
    ddg_page(html, "a.result__a", "a.result__snippet, .result__snippet")
}

/// The hits of a page of DuckDuckGo's lite search, read as
/// `parse_html_results` reads the HTML one, by the lite page's selectors.
pub fn parse_lite_results(html: &str) -> (r: Result<WebSearchResponse, PageError>)
    ensures
        ddg_page_outcome(html@, "a.result-link"@, "td.result-snippet"@, r),
{
    ddg_page(html, "a.result-link", "td.result-snippet")
}

/// The result block selector of a Brave page.
pub open spec fn brave_block_selector() -> Seq<char> {
    "div.snippet[data-type=\"web\"]"@
}

/// The query parts of a Brave page: its first `http` link by `href`, its
/// title element by `title`, and its snippet's content and the snippet
/// itself by their text.
pub open spec fn brave_queries() -> Seq<(Seq<char>, Seq<char>)> {
    seq![
        ("a[href^=\"http\"]"@, "href"@),
        ("div.title.search-snippet-title"@, "title"@),
        ("div.generic-snippet .content"@, ""@),
        ("div.generic-snippet"@, ""@),
    ]
}

/// Whether a Brave block holds what was found for it.
pub open spec fn brave_block_holds(b: BraveBlock, parts: Seq<Option<(Option<Seq<char>>, Seq<char>)>>) -> bool {
    &&& part_view(b.link) == parts[0]
    &&& part_view(b.title) == parts[1]
    &&& opt_text_view(b.snippet_content) == text_of(parts[2])
    &&& opt_text_view(b.snippet) == text_of(parts[3])
}

/// Whether the blocks hold, in order, what was found for each.
pub open spec fn brave_blocks_hold(blocks: Seq<BraveBlock>, found: Seq<Seq<Option<(Option<Seq<char>>, Seq<char>)>>>) -> bool {
    &&& blocks.len() == found.len()
    &&& forall|i: int| 0 <= i < blocks.len() ==> #[trigger] brave_block_holds(blocks[i], found[i])
}

/// The hits of a Brave search page: its web result blocks as scraper finds
/// them, read by `brave_results`; the error of the first selector that does
/// not parse.
pub fn parse_brave_results(html: &str) -> (r: Result<WebSearchResponse, PageError>)
    ensures
        match page_parts(html@, brave_block_selector(), brave_queries()) {
            Err((sel, msg)) => r matches Err(PageError::InvalidSelector { selector, message }) && selector@ == sel
                && message@ == msg,
            Ok(found) => r matches Ok(resp) && exists|blocks: Seq<BraveBlock>|
                #[trigger] brave_blocks_hold(blocks, found) && spec_brave_results(blocks, 0) == results_view(
                    resp.results@,
                ),
        },
{
    let mut parts: Vec<(String, String)> = Vec::new();
    parts.push((String::from_str("a[href^=\"http\"]"), String::from_str("href")));
    parts.push((String::from_str("div.title.search-snippet-title"), String::from_str("title")));
    parts.push((String::from_str("div.generic-snippet .content"), String::from_str("")));
    parts.push((String::from_str("div.generic-snippet"), String::from_str("")));
    proof {
        assert(queries_view(parts@) =~= brave_queries());
    }
    let found = match select_parts(html, "div.snippet[data-type=\"web\"]", &parts) {
        Ok(found) => found,
        Err((selector, message)) => return Err(PageError::InvalidSelector { selector, message }),
    };
    let mut blocks: Vec<BraveBlock> = Vec::new();
    let mut i: usize = 0;
    while i < found.len()
        invariant
            i <= found@.len(),
            blocks@.len() == i,
            forall|j: int| 0 <= j < found@.len() ==> #[trigger] found@[j]@.len() == 4,
            forall|j: int| 0 <= j < i ==> #[trigger] brave_block_holds(blocks@[j], found_view(found@)[j]),
        decreases found@.len() - i,
    {
        assert(found@[i as int]@.len() == 4);
        let block = BraveBlock {
            link: copy_part(&found[i][0]),
            title: copy_part(&found[i][1]),
            snippet_content: part_text(&found[i][2]),
            snippet: part_text(&found[i][3]),
        };
        proof {
            assert(found_view(found@)[i as int] == found@[i as int]@.map_values(|p: Part| part_view(p)));
        }
        blocks.push(block);
        i = i + 1;
    }
    assert(brave_blocks_hold(blocks@, found_view(found@)));
    let resp = brave_results(&blocks);
    assert(page_parts(html@, brave_block_selector(), brave_queries())->Ok_0 == found_view(found@));
    Ok(resp)
}

} // verus!
