use tau_agent::result_pages::{parse_brave_results, parse_html_results, parse_lite_results, PageError};
use tau_agent::web_search::InvalidLink;

#[test]
fn test_parse_results() {
    let html = r#"
        <div class="snippet svelte-jmfu5f" data-pos="1" data-type="web">
            <div class="title search-snippet-title line-clamp-1 svelte-14r20fy" title="Rust Programming Language">Rust Programming Language</div>
            <a href="https://www.rust-lang.org/" class="svelte-14r20fy l1">Rust Programming Language</a>
            <div class="generic-snippet svelte-1cwdgg3">
                <div class="content">A language empowering everyone to build reliable and efficient software.</div>
            </div>
        </div>
        <div class="snippet svelte-jmfu5f" data-pos="2" data-type="news">
            <a href="https://news.example.com/story">A news story</a>
            <div class="generic-snippet svelte-1cwdgg3">
                <div class="content">Not a web result.</div>
            </div>
        </div>
        <div class="snippet svelte-jmfu5f" data-pos="3" data-type="web">
            <a href="https://docs.rs/" class="svelte-14r20fy l1">docs.rs</a>
        </div>
    "#;
    let response = parse_brave_results(html).unwrap();
    assert_eq!(response.results.len(), 2);
    assert_eq!(response.results[0].title, "Rust Programming Language");
    assert_eq!(response.results[0].url, "https://www.rust-lang.org/");
    assert_eq!(
        response.results[0].text,
        "A language empowering everyone to build reliable and efficient software."
    );
    assert_eq!(response.results[1].title, "docs.rs");
    assert_eq!(response.results[1].text, "");
}

#[test]
fn test_parse_results_ignores_shell_page() {
    let html = r#"<html><head><title>Brave Search</title></head><body>no results</body></html>"#;
    let response = parse_brave_results(html).unwrap();
    assert!(response.results.is_empty());
}

#[test]
fn test_parse_html_results() {
    let html = r#"
        <div class="result">
            <a class="result__a" href="/l/?uddg=https%3A%2F%2Frust-lang.org&amp;rut=1">The Rust Programming Language</a>
            <a class="result__snippet" href="/l/?uddg=https%3A%2F%2Frust-lang.org&amp;rut=2">A language empowering everyone to build reliable software.</a>
        </div>
        <div class="result">
            <a class="result__a" href="/l/?uddg=https%3A%2F%2Fdocs.rs&amp;rut=3">docs.rs</a>
        </div>
    "#;
    let response = parse_html_results(html).unwrap();
    assert_eq!(response.results.len(), 2);
    assert_eq!(response.results[0].title, "The Rust Programming Language");
    assert_eq!(response.results[0].url, "https://rust-lang.org");
    assert_eq!(
        response.results[0].text,
        "A language empowering everyone to build reliable software."
    );
    assert_eq!(response.results[1].title, "docs.rs");
    assert_eq!(response.results[1].text, "");
}

#[test]
fn test_parse_lite_results() {
    let html = r#"
        <div class='result'>
            <table>
                <tr class='result-link'>
                    <td><a rel="nofollow" class='result-link' href='//duckduckgo.com/l/?uddg=https%3A%2F%2Fexample.com&amp;rut=1'>Example Domain</a></td>
                </tr>
                <tr class='result-snippet'>
                    <td class='result-snippet'>This domain is for use in illustrative examples.</td>
                </tr>
            </table>
        </div>
    "#;
    let response = parse_lite_results(html).unwrap();
    assert_eq!(response.results.len(), 1);
    assert_eq!(response.results[0].title, "Example Domain");
    assert_eq!(response.results[0].url, "https://example.com");
    assert_eq!(
        response.results[0].text,
        "This domain is for use in illustrative examples."
    );
}

#[test]
fn html_results_skip_blocks_without_title_or_href() {
    let html = r#"
        <div class="result"><a class="result__a" href="/l/?uddg=https%3A%2F%2Fa.example">   </a></div>
        <div class="result"><a class="result__a">No link</a></div>
        <div class="result"><span>nothing</span></div>
        <div class="result"><a class="result__a" href="https://b.example/x">  B   title </a></div>
    "#;
    let response = parse_html_results(html).unwrap();
    assert_eq!(response.results.len(), 1);
    assert_eq!(response.results[0].title, "B title");
    assert_eq!(response.results[0].url, "https://b.example/x");
}

#[test]
fn brave_title_falls_back_to_element_text_then_link_text() {
    let html = r#"
        <div class="snippet" data-type="web">
            <div class="title search-snippet-title" title="   ">Shown  title</div>
            <a href="https://one.example/">link one</a>
            <div class="generic-snippet">Plain snippet</div>
        </div>
        <div class="snippet" data-type="web">
            <a href="https://two.example/">Link   two</a>
        </div>
    "#;
    let response = parse_brave_results(html).unwrap();
    assert_eq!(response.results.len(), 2);
    assert_eq!(response.results[0].title, "Shown title");
    assert_eq!(response.results[0].text, "Plain snippet");
    assert_eq!(response.results[1].title, "Link two");
    assert_eq!(response.results[1].url, "https://two.example/");
}

#[test]
fn page_error_messages() {
    let e = PageError::InvalidLink(InvalidLink { href: "::".to_string() });
    assert_eq!(e.message(), "invalid result link: ::");
    let e = PageError::InvalidSelector { selector: "a[".to_string(), message: "bad".to_string() };
    assert_eq!(e.message(), "invalid css selector \"a[\": bad");
}
