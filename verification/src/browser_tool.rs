use vstd::prelude::*;
use vstd::string::StringExecFns;
use crate::browser_skills::DomainSkill;
use crate::cdp::TabInfo;
use crate::text::{
    chars_of, copy_range, find_char_from, join_strings, lemma_index_of_char, spec_join, str_eq,
    str_starts_with, string_from_chars, string_views,
};

verus! {

/// What a tool hands back to the model: text, or an image as base64.
pub enum ToolResultContent {
    Text(String),
    Image(String),
}

/// The text shown for a page that was opened.
pub open spec fn navigation_text(title: Seq<char>, url: Seq<char>, content: Seq<char>) -> Seq<char> {
    "# "@ + title + "\n\nURL: "@ + url + "\n\n"@ + content
}

/// One line of the list of tabs.
pub open spec fn tab_line(t: TabInfo) -> Seq<char> {
    "- "@ + t.target_id@ + " ("@ + t.title@ + "): "@ + t.url@
}

/// The lines of the list of tabs.
pub open spec fn tab_lines(tabs: Seq<TabInfo>) -> Seq<Seq<char>> {
    tabs.map_values(|t: TabInfo| tab_line(t))
}

/// The text shown for the frame search.
pub open spec fn iframe_text(found: Option<TabInfo>) -> Seq<char> {
    match found {
        Some(info) => "Found iframe: "@ + info.title@ + " ("@ + info.url@ + ")"@,
        None => "No iframe found matching the URL substring"@,
    }
}

/// The section shown for one skill.
pub open spec fn skill_section(s: DomainSkill) -> Seq<char> {
    "## "@ + s.name@ + "\n\n"@ + s.content@
}

/// The text shown for the skills of a site.
pub open spec fn skills_text(skills: Seq<DomainSkill>) -> Seq<char> {
    if skills.len() == 0 {
        "No skills found for this site"@
    } else {
        spec_join(skills.map_values(|s: DomainSkill| skill_section(s)), "\n\n---\n\n"@)
    }
}

/// The text shown for the list of sites with skills.
pub open spec fn sites_text(sites: Seq<Seq<char>>) -> Seq<char> {
    if sites.len() == 0 {
        "No domain skills saved yet"@
    } else {
        spec_join(sites.map_values(|s: Seq<char>| "- "@ + s), "\n"@)
    }
}

/// The text that a tool result shows when it is text.
pub open spec fn text_of(c: ToolResultContent) -> Option<Seq<char>> {
    match c {
        ToolResultContent::Text(t) => Some(t@),
        ToolResultContent::Image(_) => None,
    }
}

// ---- browser_navigate ----

/// The arguments of `browser_navigate`.
pub struct BrowserNavigateToolInput {
    pub url: String,
}

/// What `browser_navigate` reports.
pub enum BrowserToolOutput {
    Success { title: String, content: String, url: String },
    Error { error: String },
}

impl BrowserToolOutput {
    /// The result as the model sees it.
    pub fn to_content(self) -> (r: ToolResultContent)
        ensures
            match self {
                BrowserToolOutput::Success { title, content, url } => text_of(r) == Some(navigation_text(title@, url@, content@)),
                BrowserToolOutput::Error { error } => r == ToolResultContent::Text(error),
            },
    {
        match self {
            BrowserToolOutput::Success { title, content, url } => {
                let mut t = String::from_str("# ");
                t.append(title.as_str());
                t.append("\n\nURL: ");
                t.append(url.as_str());
                t.append("\n\n");
                t.append(content.as_str());
                proof {
                    assert(t@ =~= navigation_text(title@, url@, content@));
                }
                ToolResultContent::Text(t)
            },
            BrowserToolOutput::Error { error } => ToolResultContent::Text(error),
        }
    }
}

/// The `browser_navigate` tool.
pub struct BrowserNavigateTool;

impl BrowserNavigateTool {
    /// The name under which the model calls the tool.
    pub fn name() -> (r: &'static str)
        ensures
            r@ == "browser_navigate"@,
    {
        "browser_navigate"
    }

    /// The title shown while the tool runs.
    pub fn initial_title(&self) -> (r: String)
        ensures
            r@ == "Browsing the web"@,
    {
        String::from_str("Browsing the web")
    }
}

// ---- browser_screenshot ----

/// The arguments of `browser_screenshot`.
pub struct BrowserScreenshotToolInput {
    pub url: String,
}

/// What `browser_screenshot` reports.
pub enum BrowserScreenshotOutput {
    Success { screenshot_base64: String },
    Error { error: String },
}

impl BrowserScreenshotOutput {
    /// The result as the model sees it.
    pub fn to_content(self) -> (r: ToolResultContent)
        ensures
            match self {
                BrowserScreenshotOutput::Success { screenshot_base64 } => r == ToolResultContent::Image(screenshot_base64),
                BrowserScreenshotOutput::Error { error } => r == ToolResultContent::Text(error),
            },
    {
        match self {
            BrowserScreenshotOutput::Success { screenshot_base64 } => ToolResultContent::Image(screenshot_base64),
            BrowserScreenshotOutput::Error { error } => ToolResultContent::Text(error),
        }
    }
}

/// The `browser_screenshot` tool.
pub struct BrowserScreenshotTool;

impl BrowserScreenshotTool {
    /// The name under which the model calls the tool.
    pub fn name() -> (r: &'static str)
        ensures
            r@ == "browser_screenshot"@,
    {
        "browser_screenshot"
    }

    /// The title shown while the tool runs.
    pub fn initial_title(&self) -> (r: String)
        ensures
            r@ == "Taking screenshot"@,
    {
        String::from_str("Taking screenshot")
    }
}

// ---- browser_click ----

/// The arguments of `browser_click`.
pub struct BrowserClickToolInput {
    pub selector: String,
}

/// What `browser_click` reports.
pub enum BrowserClickOutput {
    Success { success: bool },
    Error { error: String },
}

impl BrowserClickOutput {
    /// The result as the model sees it.
    pub fn to_content(self) -> (r: ToolResultContent)
        ensures
            match self {
                BrowserClickOutput::Success { .. } => text_of(r) == Some("Element clicked successfully"@),
                BrowserClickOutput::Error { error } => r == ToolResultContent::Text(error),
            },
    {
        match self {
            BrowserClickOutput::Success { .. } => ToolResultContent::Text(String::from_str("Element clicked successfully")),
            BrowserClickOutput::Error { error } => ToolResultContent::Text(error),
        }
    }
}

/// The `browser_click` tool.
pub struct BrowserClickTool;

impl BrowserClickTool {
    /// The name under which the model calls the tool.
    pub fn name() -> (r: &'static str)
        ensures
            r@ == "browser_click"@,
    {
        "browser_click"
    }

    /// The title shown while the tool runs.
    pub fn initial_title(&self) -> (r: String)
        ensures
            r@ == "Clicking element"@,
    {
        String::from_str("Clicking element")
    }
}

// ---- browser_type ----

/// The arguments of `browser_type`.
pub struct BrowserTypeToolInput {
    pub selector: String,
    pub text: String,
}

/// What `browser_type` reports.
pub enum BrowserTypeOutput {
    Success { success: bool },
    Error { error: String },
}

impl BrowserTypeOutput {
    /// The result as the model sees it.
    pub fn to_content(self) -> (r: ToolResultContent)
        ensures
            match self {
                BrowserTypeOutput::Success { .. } => text_of(r) == Some("Text typed successfully"@),
                BrowserTypeOutput::Error { error } => r == ToolResultContent::Text(error),
            },
    {
        match self {
            BrowserTypeOutput::Success { .. } => ToolResultContent::Text(String::from_str("Text typed successfully")),
            BrowserTypeOutput::Error { error } => ToolResultContent::Text(error),
        }
    }
}

/// The `browser_type` tool.
pub struct BrowserTypeTool;

impl BrowserTypeTool {
    /// The name under which the model calls the tool.
    pub fn name() -> (r: &'static str)
        ensures
            r@ == "browser_type"@,
    {
        "browser_type"
    }

    /// The title shown while the tool runs.
    pub fn initial_title(&self) -> (r: String)
        ensures
            r@ == "Typing text"@,
    {
        String::from_str("Typing text")
    }
}

// ---- browser_fill ----

/// The arguments of `browser_fill`.
pub struct BrowserFillToolInput {
    pub selector: String,
    pub value: String,
}

/// What `browser_fill` reports.
pub enum BrowserFillOutput {
    Success { success: bool },
    Error { error: String },
}

impl BrowserFillOutput {
    /// The result as the model sees it.
    pub fn to_content(self) -> (r: ToolResultContent)
        ensures
            match self {
                BrowserFillOutput::Success { .. } => text_of(r) == Some("Field filled successfully"@),
                BrowserFillOutput::Error { error } => r == ToolResultContent::Text(error),
            },
    {
        match self {
            BrowserFillOutput::Success { .. } => ToolResultContent::Text(String::from_str("Field filled successfully")),
            BrowserFillOutput::Error { error } => ToolResultContent::Text(error),
        }
    }
}

/// The `browser_fill` tool.
pub struct BrowserFillTool;

impl BrowserFillTool {
    /// The name under which the model calls the tool.
    pub fn name() -> (r: &'static str)
        ensures
            r@ == "browser_fill"@,
    {
        "browser_fill"
    }

    /// The title shown while the tool runs.
    pub fn initial_title(&self) -> (r: String)
        ensures
            r@ == "Filling form field"@,
    {
        String::from_str("Filling form field")
    }
}

// ---- browser_scroll ----

/// The arguments of `browser_scroll`.
pub struct BrowserScrollToolInput {
    pub delta_x: i64,
    pub delta_y: i64,
}

/// What `browser_scroll` reports.
pub enum BrowserScrollOutput {
    Success { success: bool },
    Error { error: String },
}

impl BrowserScrollOutput {
    /// The result as the model sees it.
    pub fn to_content(self) -> (r: ToolResultContent)
        ensures
            match self {
                BrowserScrollOutput::Success { .. } => text_of(r) == Some("Page scrolled successfully"@),
                BrowserScrollOutput::Error { error } => r == ToolResultContent::Text(error),
            },
    {
        match self {
            BrowserScrollOutput::Success { .. } => ToolResultContent::Text(String::from_str("Page scrolled successfully")),
            BrowserScrollOutput::Error { error } => ToolResultContent::Text(error),
        }
    }
}

/// The `browser_scroll` tool.
pub struct BrowserScrollTool;

impl BrowserScrollTool {
    /// The name under which the model calls the tool.
    pub fn name() -> (r: &'static str)
        ensures
            r@ == "browser_scroll"@,
    {
        "browser_scroll"
    }

    /// The title shown while the tool runs.
    pub fn initial_title(&self) -> (r: String)
        ensures
            r@ == "Scrolling page"@,
    {
        String::from_str("Scrolling page")
    }
}

// ---- browser_press_key ----

/// The arguments of `browser_press_key`.
pub struct BrowserPressKeyToolInput {
    pub key: String,
}

/// What `browser_press_key` reports.
pub enum BrowserPressKeyOutput {
    Success { success: bool },
    Error { error: String },
}

impl BrowserPressKeyOutput {
    /// The result as the model sees it.
    pub fn to_content(self) -> (r: ToolResultContent)
        ensures
            match self {
                BrowserPressKeyOutput::Success { .. } => text_of(r) == Some("Key pressed successfully"@),
                BrowserPressKeyOutput::Error { error } => r == ToolResultContent::Text(error),
            },
    {
        match self {
            BrowserPressKeyOutput::Success { .. } => ToolResultContent::Text(String::from_str("Key pressed successfully")),
            BrowserPressKeyOutput::Error { error } => ToolResultContent::Text(error),
        }
    }
}

/// The `browser_press_key` tool.
pub struct BrowserPressKeyTool;

impl BrowserPressKeyTool {
    /// The name under which the model calls the tool.
    pub fn name() -> (r: &'static str)
        ensures
            r@ == "browser_press_key"@,
    {
        "browser_press_key"
    }

    /// The title shown while the tool runs.
    pub fn initial_title(&self) -> (r: String)
        ensures
            r@ == "Pressing key"@,
    {
        String::from_str("Pressing key")
    }
}

// ---- browser_wait ----

/// The arguments of `browser_wait`.
pub struct BrowserWaitToolInput {
    pub selector: String,
    pub timeout_ms: Option<u64>,
}

/// What `browser_wait` reports.
pub enum BrowserWaitOutput {
    Success { found: bool },
    Error { error: String },
}

impl BrowserWaitOutput {
    /// The result as the model sees it.
    pub fn to_content(self) -> (r: ToolResultContent)
        ensures
            match self {
                BrowserWaitOutput::Success { .. } => text_of(r) == Some("Element found"@),
                BrowserWaitOutput::Error { error } => r == ToolResultContent::Text(error),
            },
    {
        match self {
            BrowserWaitOutput::Success { .. } => ToolResultContent::Text(String::from_str("Element found")),
            BrowserWaitOutput::Error { error } => ToolResultContent::Text(error),
        }
    }
}

/// The `browser_wait` tool.
pub struct BrowserWaitTool;

impl BrowserWaitTool {
    /// The name under which the model calls the tool.
    pub fn name() -> (r: &'static str)
        ensures
            r@ == "browser_wait"@,
    {
        "browser_wait"
    }

    /// The title shown while the tool runs.
    pub fn initial_title(&self) -> (r: String)
        ensures
            r@ == "Waiting for element"@,
    {
        String::from_str("Waiting for element")
    }
}

// ---- browser_close ----

/// The arguments of `browser_close`.
pub struct BrowserCloseToolInput {}

/// What `browser_close` reports.
pub enum BrowserCloseOutput {
    Success { success: bool },
    Error { error: String },
}

impl BrowserCloseOutput {
    /// The result as the model sees it.
    pub fn to_content(self) -> (r: ToolResultContent)
        ensures
            match self {
                BrowserCloseOutput::Success { .. } => text_of(r) == Some("Browser closed"@),
                BrowserCloseOutput::Error { error } => r == ToolResultContent::Text(error),
            },
    {
        match self {
            BrowserCloseOutput::Success { .. } => ToolResultContent::Text(String::from_str("Browser closed")),
            BrowserCloseOutput::Error { error } => ToolResultContent::Text(error),
        }
    }
}

/// The `browser_close` tool.
pub struct BrowserCloseTool;

impl BrowserCloseTool {
    /// The name under which the model calls the tool.
    pub fn name() -> (r: &'static str)
        ensures
            r@ == "browser_close"@,
    {
        "browser_close"
    }

    /// The title shown while the tool runs.
    pub fn initial_title(&self) -> (r: String)
        ensures
            r@ == "Closing browser"@,
    {
        String::from_str("Closing browser")
    }
}

// ---- browser_accessibility_tree ----

/// The arguments of `browser_accessibility_tree`.
pub struct BrowserAccessibilityTreeToolInput {}

/// What `browser_accessibility_tree` reports.
pub enum BrowserAccessibilityTreeOutput {
    Success { tree: String },
    Error { error: String },
}

impl BrowserAccessibilityTreeOutput {
    /// The result as the model sees it.
    pub fn to_content(self) -> (r: ToolResultContent)
        ensures
            match self {
                BrowserAccessibilityTreeOutput::Success { tree } => r == ToolResultContent::Text(tree),
                BrowserAccessibilityTreeOutput::Error { error } => r == ToolResultContent::Text(error),
            },
    {
        match self {
            BrowserAccessibilityTreeOutput::Success { tree } => ToolResultContent::Text(tree),
            BrowserAccessibilityTreeOutput::Error { error } => ToolResultContent::Text(error),
        }
    }
}

/// The `browser_accessibility_tree` tool.
pub struct BrowserAccessibilityTreeTool;

impl BrowserAccessibilityTreeTool {
    /// The name under which the model calls the tool.
    pub fn name() -> (r: &'static str)
        ensures
            r@ == "browser_accessibility_tree"@,
    {
        "browser_accessibility_tree"
    }

    /// The title shown while the tool runs.
    pub fn initial_title(&self) -> (r: String)
        ensures
            r@ == "Getting accessibility tree"@,
    {
        String::from_str("Getting accessibility tree")
    }
}

// ---- browser_click_by_index ----

/// The arguments of `browser_click_by_index`.
pub struct BrowserClickByIndexToolInput {
    pub index: usize,
}

/// What `browser_click_by_index` reports.
pub enum BrowserClickByIndexOutput {
    Success { success: bool },
    Error { error: String },
}

impl BrowserClickByIndexOutput {
    /// The result as the model sees it.
    pub fn to_content(self) -> (r: ToolResultContent)
        ensures
            match self {
                BrowserClickByIndexOutput::Success { .. } => text_of(r) == Some("Element clicked successfully"@),
                BrowserClickByIndexOutput::Error { error } => r == ToolResultContent::Text(error),
            },
    {
        match self {
            BrowserClickByIndexOutput::Success { .. } => ToolResultContent::Text(String::from_str("Element clicked successfully")),
            BrowserClickByIndexOutput::Error { error } => ToolResultContent::Text(error),
        }
    }
}

/// The `browser_click_by_index` tool.
pub struct BrowserClickByIndexTool;

impl BrowserClickByIndexTool {
    /// The name under which the model calls the tool.
    pub fn name() -> (r: &'static str)
        ensures
            r@ == "browser_click_by_index"@,
    {
        "browser_click_by_index"
    }

    /// The title shown while the tool runs.
    pub fn initial_title(&self) -> (r: String)
        ensures
            r@ == "Clicking element by index"@,
    {
        String::from_str("Clicking element by index")
    }
}

// ---- browser_type_by_index ----

/// The arguments of `browser_type_by_index`.
pub struct BrowserTypeByIndexToolInput {
    pub index: usize,
    pub text: String,
}

/// What `browser_type_by_index` reports.
pub enum BrowserTypeByIndexOutput {
    Success { success: bool },
    Error { error: String },
}

impl BrowserTypeByIndexOutput {
    /// The result as the model sees it.
    pub fn to_content(self) -> (r: ToolResultContent)
        ensures
            match self {
                BrowserTypeByIndexOutput::Success { .. } => text_of(r) == Some("Text typed successfully"@),
                BrowserTypeByIndexOutput::Error { error } => r == ToolResultContent::Text(error),
            },
    {
        match self {
            BrowserTypeByIndexOutput::Success { .. } => ToolResultContent::Text(String::from_str("Text typed successfully")),
            BrowserTypeByIndexOutput::Error { error } => ToolResultContent::Text(error),
        }
    }
}

/// The `browser_type_by_index` tool.
pub struct BrowserTypeByIndexTool;

impl BrowserTypeByIndexTool {
    /// The name under which the model calls the tool.
    pub fn name() -> (r: &'static str)
        ensures
            r@ == "browser_type_by_index"@,
    {
        "browser_type_by_index"
    }

    /// The title shown while the tool runs.
    pub fn initial_title(&self) -> (r: String)
        ensures
            r@ == "Typing text by index"@,
    {
        String::from_str("Typing text by index")
    }
}

// ---- browser_fill_by_index ----

/// The arguments of `browser_fill_by_index`.
pub struct BrowserFillByIndexToolInput {
    pub index: usize,
    pub value: String,
    pub clear: Option<bool>,
}

/// What `browser_fill_by_index` reports.
pub enum BrowserFillByIndexOutput {
    Success { success: bool },
    Error { error: String },
}

impl BrowserFillByIndexOutput {
    /// The result as the model sees it.
    pub fn to_content(self) -> (r: ToolResultContent)
        ensures
            match self {
                BrowserFillByIndexOutput::Success { .. } => text_of(r) == Some("Field filled successfully"@),
                BrowserFillByIndexOutput::Error { error } => r == ToolResultContent::Text(error),
            },
    {
        match self {
            BrowserFillByIndexOutput::Success { .. } => ToolResultContent::Text(String::from_str("Field filled successfully")),
            BrowserFillByIndexOutput::Error { error } => ToolResultContent::Text(error),
        }
    }
}

/// The `browser_fill_by_index` tool.
pub struct BrowserFillByIndexTool;

impl BrowserFillByIndexTool {
    /// The name under which the model calls the tool.
    pub fn name() -> (r: &'static str)
        ensures
            r@ == "browser_fill_by_index"@,
    {
        "browser_fill_by_index"
    }

    /// The title shown while the tool runs.
    pub fn initial_title(&self) -> (r: String)
        ensures
            r@ == "Filling form field by index"@,
    {
        String::from_str("Filling form field by index")
    }
}

// ---- browser_evaluate ----

/// The arguments of `browser_evaluate`.
pub struct BrowserEvaluateToolInput {
    pub expression: String,
}

/// The `browser_evaluate` tool.
pub struct BrowserEvaluateTool;

impl BrowserEvaluateTool {
    /// The name under which the model calls the tool.
    pub fn name() -> (r: &'static str)
        ensures
            r@ == "browser_evaluate"@,
    {
        "browser_evaluate"
    }

    /// The title shown while the tool runs.
    pub fn initial_title(&self) -> (r: String)
        ensures
            r@ == "Evaluating JavaScript"@,
    {
        String::from_str("Evaluating JavaScript")
    }
}

// ---- browser_tabs ----

/// The arguments of `browser_tabs`.
pub struct BrowserTabsToolInput {
    pub action: String,
    pub target_id: Option<String>,
}

/// What `browser_tabs` reports.
pub enum BrowserTabsOutput {
    Success { tabs: Vec<TabInfo> },
    Error { error: String },
}

impl BrowserTabsOutput {
    /// The result as the model sees it.
    pub fn to_content(self) -> (r: ToolResultContent)
        ensures
            match self {
                BrowserTabsOutput::Success { tabs } => text_of(r) == Some(spec_join(tab_lines(tabs@), "\n"@)),
                BrowserTabsOutput::Error { error } => r == ToolResultContent::Text(error),
            },
    {
        match self {
            BrowserTabsOutput::Success { tabs } => {
                let mut lines: Vec<String> = Vec::new();
                let mut i: usize = 0;
                while i < tabs.len()
                    invariant
                        i <= tabs@.len(),
                        lines@.len() == i,
                        forall|j: int| 0 <= j < i ==> #[trigger] lines@[j]@ == tab_line(tabs@[j]),
                    decreases tabs@.len() - i,
                {
                    let tab = &tabs[i];
                    let mut line = String::from_str("- ");
                    line.append(tab.target_id.as_str());
                    line.append(" (");
                    line.append(tab.title.as_str());
                    line.append("): ");
                    line.append(tab.url.as_str());
                    proof {
                        assert(line@ =~= tab_line(tabs@[i as int]));
                    }
                    lines.push(line);
                    i = i + 1;
                }
                proof {
                    assert(string_views(lines@) =~= tab_lines(tabs@));
                }
                ToolResultContent::Text(join_strings(&lines, "\n"))
            },
            BrowserTabsOutput::Error { error } => ToolResultContent::Text(error),
        }
    }
}

/// The `browser_tabs` tool.
pub struct BrowserTabsTool;

impl BrowserTabsTool {
    /// The name under which the model calls the tool.
    pub fn name() -> (r: &'static str)
        ensures
            r@ == "browser_tabs"@,
    {
        "browser_tabs"
    }

    /// The title shown while the tool runs.
    pub fn initial_title(&self) -> (r: String)
        ensures
            r@ == "Managing browser tabs"@,
    {
        String::from_str("Managing browser tabs")
    }
}

// ---- browser_page_info ----

/// The arguments of `browser_page_info`.
pub struct BrowserPageInfoToolInput {}

/// The `browser_page_info` tool.
pub struct BrowserPageInfoTool;

impl BrowserPageInfoTool {
    /// The name under which the model calls the tool.
    pub fn name() -> (r: &'static str)
        ensures
            r@ == "browser_page_info"@,
    {
        "browser_page_info"
    }

    /// The title shown while the tool runs.
    pub fn initial_title(&self) -> (r: String)
        ensures
            r@ == "Getting page info"@,
    {
        String::from_str("Getting page info")
    }
}

// ---- browser_click_at_xy ----

/// What `browser_click_at_xy` reports.
pub enum BrowserClickAtXyOutput {
    Success { success: bool },
    Error { error: String },
}

impl BrowserClickAtXyOutput {
    /// The result as the model sees it.
    pub fn to_content(self) -> (r: ToolResultContent)
        ensures
            match self {
                BrowserClickAtXyOutput::Success { .. } => text_of(r) == Some("Clicked at coordinates successfully"@),
                BrowserClickAtXyOutput::Error { error } => r == ToolResultContent::Text(error),
            },
    {
        match self {
            BrowserClickAtXyOutput::Success { .. } => ToolResultContent::Text(String::from_str("Clicked at coordinates successfully")),
            BrowserClickAtXyOutput::Error { error } => ToolResultContent::Text(error),
        }
    }
}

/// The `browser_click_at_xy` tool.
pub struct BrowserClickAtXyTool;

impl BrowserClickAtXyTool {
    /// The name under which the model calls the tool.
    pub fn name() -> (r: &'static str)
        ensures
            r@ == "browser_click_at_xy"@,
    {
        "browser_click_at_xy"
    }

    /// The title shown while the tool runs.
    pub fn initial_title(&self) -> (r: String)
        ensures
            r@ == "Clicking at coordinates"@,
    {
        String::from_str("Clicking at coordinates")
    }
}

// ---- browser_wait_for_load ----

/// The arguments of `browser_wait_for_load`.
pub struct BrowserWaitForLoadToolInput {
    pub timeout_ms: Option<u64>,
}

/// What `browser_wait_for_load` reports.
pub enum BrowserWaitForLoadOutput {
    Success { loaded: bool },
    Error { error: String },
}

impl BrowserWaitForLoadOutput {
    /// The result as the model sees it.
    pub fn to_content(self) -> (r: ToolResultContent)
        ensures
            match self {
                BrowserWaitForLoadOutput::Success { loaded } => text_of(r) == Some(if loaded { "Page loaded successfully"@ } else { "Page load timed out"@ }),
                BrowserWaitForLoadOutput::Error { error } => r == ToolResultContent::Text(error),
            },
    {
        match self {
            BrowserWaitForLoadOutput::Success { loaded } => if loaded {
                ToolResultContent::Text(String::from_str("Page loaded successfully"))
            } else {
                ToolResultContent::Text(String::from_str("Page load timed out"))
            },
            BrowserWaitForLoadOutput::Error { error } => ToolResultContent::Text(error),
        }
    }
}

/// The `browser_wait_for_load` tool.
pub struct BrowserWaitForLoadTool;

impl BrowserWaitForLoadTool {
    /// The name under which the model calls the tool.
    pub fn name() -> (r: &'static str)
        ensures
            r@ == "browser_wait_for_load"@,
    {
        "browser_wait_for_load"
    }

    /// The title shown while the tool runs.
    pub fn initial_title(&self) -> (r: String)
        ensures
            r@ == "Waiting for page load"@,
    {
        String::from_str("Waiting for page load")
    }
}

// ---- browser_wait_for_network_idle ----

/// The arguments of `browser_wait_for_network_idle`.
pub struct BrowserWaitForNetworkIdleToolInput {
    pub timeout_ms: Option<u64>,
    pub idle_ms: Option<u64>,
}

/// What `browser_wait_for_network_idle` reports.
pub enum BrowserWaitForNetworkIdleOutput {
    Success { idle: bool },
    Error { error: String },
}

impl BrowserWaitForNetworkIdleOutput {
    /// The result as the model sees it.
    pub fn to_content(self) -> (r: ToolResultContent)
        ensures
            match self {
                BrowserWaitForNetworkIdleOutput::Success { idle } => text_of(r) == Some(if idle { "Network is idle"@ } else { "Network idle timed out"@ }),
                BrowserWaitForNetworkIdleOutput::Error { error } => r == ToolResultContent::Text(error),
            },
    {
        match self {
            BrowserWaitForNetworkIdleOutput::Success { idle } => if idle {
                ToolResultContent::Text(String::from_str("Network is idle"))
            } else {
                ToolResultContent::Text(String::from_str("Network idle timed out"))
            },
            BrowserWaitForNetworkIdleOutput::Error { error } => ToolResultContent::Text(error),
        }
    }
}

/// The `browser_wait_for_network_idle` tool.
pub struct BrowserWaitForNetworkIdleTool;

impl BrowserWaitForNetworkIdleTool {
    /// The name under which the model calls the tool.
    pub fn name() -> (r: &'static str)
        ensures
            r@ == "browser_wait_for_network_idle"@,
    {
        "browser_wait_for_network_idle"
    }

    /// The title shown while the tool runs.
    pub fn initial_title(&self) -> (r: String)
        ensures
            r@ == "Waiting for network idle"@,
    {
        String::from_str("Waiting for network idle")
    }
}

// ---- browser_upload_file ----

/// The arguments of `browser_upload_file`.
pub struct BrowserUploadFileToolInput {
    pub selector: String,
    pub file_path: String,
}

/// What `browser_upload_file` reports.
pub enum BrowserUploadFileOutput {
    Success { success: bool },
    Error { error: String },
}

impl BrowserUploadFileOutput {
    /// The result as the model sees it.
    pub fn to_content(self) -> (r: ToolResultContent)
        ensures
            match self {
                BrowserUploadFileOutput::Success { .. } => text_of(r) == Some("File uploaded successfully"@),
                BrowserUploadFileOutput::Error { error } => r == ToolResultContent::Text(error),
            },
    {
        match self {
            BrowserUploadFileOutput::Success { .. } => ToolResultContent::Text(String::from_str("File uploaded successfully")),
            BrowserUploadFileOutput::Error { error } => ToolResultContent::Text(error),
        }
    }
}

/// The `browser_upload_file` tool.
pub struct BrowserUploadFileTool;

impl BrowserUploadFileTool {
    /// The name under which the model calls the tool.
    pub fn name() -> (r: &'static str)
        ensures
            r@ == "browser_upload_file"@,
    {
        "browser_upload_file"
    }

    /// The title shown while the tool runs.
    pub fn initial_title(&self) -> (r: String)
        ensures
            r@ == "Uploading file"@,
    {
        String::from_str("Uploading file")
    }
}

// ---- browser_dispatch_key ----

/// The arguments of `browser_dispatch_key`.
pub struct BrowserDispatchKeyToolInput {
    pub selector: String,
    pub key: String,
    pub event_type: Option<String>,
}

/// What `browser_dispatch_key` reports.
pub enum BrowserDispatchKeyOutput {
    Success { success: bool },
    Error { error: String },
}

impl BrowserDispatchKeyOutput {
    /// The result as the model sees it.
    pub fn to_content(self) -> (r: ToolResultContent)
        ensures
            match self {
                BrowserDispatchKeyOutput::Success { .. } => text_of(r) == Some("Key event dispatched successfully"@),
                BrowserDispatchKeyOutput::Error { error } => r == ToolResultContent::Text(error),
            },
    {
        match self {
            BrowserDispatchKeyOutput::Success { .. } => ToolResultContent::Text(String::from_str("Key event dispatched successfully")),
            BrowserDispatchKeyOutput::Error { error } => ToolResultContent::Text(error),
        }
    }
}

/// The `browser_dispatch_key` tool.
pub struct BrowserDispatchKeyTool;

impl BrowserDispatchKeyTool {
    /// The name under which the model calls the tool.
    pub fn name() -> (r: &'static str)
        ensures
            r@ == "browser_dispatch_key"@,
    {
        "browser_dispatch_key"
    }

    /// The title shown while the tool runs.
    pub fn initial_title(&self) -> (r: String)
        ensures
            r@ == "Dispatching key event"@,
    {
        String::from_str("Dispatching key event")
    }
}

// ---- browser_iframe ----

/// The arguments of `browser_iframe`.
pub struct BrowserIframeToolInput {
    pub url_substring: String,
}

/// What `browser_iframe` reports.
pub enum BrowserIframeOutput {
    Success { iframe: Option<TabInfo> },
    Error { error: String },
}

impl BrowserIframeOutput {
    /// The result as the model sees it.
    pub fn to_content(self) -> (r: ToolResultContent)
        ensures
            match self {
                BrowserIframeOutput::Success { iframe } => text_of(r) == Some(iframe_text(iframe)),
                BrowserIframeOutput::Error { error } => r == ToolResultContent::Text(error),
            },
    {
        match self {
            BrowserIframeOutput::Success { iframe } => {
                match iframe {
                    Some(info) => {
                        let mut t = String::from_str("Found iframe: ");
                        t.append(info.title.as_str());
                        t.append(" (");
                        t.append(info.url.as_str());
                        t.append(")");
                        proof {
                            assert(t@ =~= iframe_text(Some(info)));
                        }
                        ToolResultContent::Text(t)
                    },
                    None => ToolResultContent::Text(
                        String::from_str("No iframe found matching the URL substring"),
                    ),
                }
            },
            BrowserIframeOutput::Error { error } => ToolResultContent::Text(error),
        }
    }
}

/// The `browser_iframe` tool.
pub struct BrowserIframeTool;

impl BrowserIframeTool {
    /// The name under which the model calls the tool.
    pub fn name() -> (r: &'static str)
        ensures
            r@ == "browser_iframe"@,
    {
        "browser_iframe"
    }

    /// The title shown while the tool runs.
    pub fn initial_title(&self) -> (r: String)
        ensures
            r@ == "Finding iframe"@,
    {
        String::from_str("Finding iframe")
    }
}

// ---- browser_skill_read ----

/// The arguments of `browser_skill_read`.
pub struct BrowserSkillReadToolInput {
    pub site: String,
    pub name: Option<String>,
}

/// What `browser_skill_read` reports.
pub enum BrowserSkillReadOutput {
    Success { skills: Vec<DomainSkill> },
    Error { error: String },
}

impl BrowserSkillReadOutput {
    /// The result as the model sees it.
    pub fn to_content(self) -> (r: ToolResultContent)
        ensures
            match self {
                BrowserSkillReadOutput::Success { skills } => text_of(r) == Some(skills_text(skills@)),
                BrowserSkillReadOutput::Error { error } => r == ToolResultContent::Text(error),
            },
    {
        match self {
            BrowserSkillReadOutput::Success { skills } => {
                if skills.len() == 0 {
                    return ToolResultContent::Text(String::from_str("No skills found for this site"));
                }
                let mut parts: Vec<String> = Vec::new();
                let mut i: usize = 0;
                while i < skills.len()
                    invariant
                        i <= skills@.len(),
                        parts@.len() == i,
                        forall|j: int| 0 <= j < i ==> #[trigger] parts@[j]@ == skill_section(skills@[j]),
                    decreases skills@.len() - i,
                {
                    let skill = &skills[i];
                    let mut part = String::from_str("## ");
                    part.append(skill.name.as_str());
                    part.append("\n\n");
                    part.append(skill.content.as_str());
                    proof {
                        assert(part@ =~= skill_section(skills@[i as int]));
                    }
                    parts.push(part);
                    i = i + 1;
                }
                proof {
                    assert(string_views(parts@) =~= skills@.map_values(|s: DomainSkill| skill_section(s)));
                }
                ToolResultContent::Text(join_strings(&parts, "\n\n---\n\n"))
            },
            BrowserSkillReadOutput::Error { error } => ToolResultContent::Text(error),
        }
    }
}

/// The `browser_skill_read` tool.
pub struct BrowserSkillReadTool;

impl BrowserSkillReadTool {
    /// The name under which the model calls the tool.
    pub fn name() -> (r: &'static str)
        ensures
            r@ == "browser_skill_read"@,
    {
        "browser_skill_read"
    }

    /// The title shown while the tool runs.
    pub fn initial_title(&self) -> (r: String)
        ensures
            r@ == "Reading domain skills"@,
    {
        String::from_str("Reading domain skills")
    }
}

// ---- browser_skill_write ----

/// The arguments of `browser_skill_write`.
pub struct BrowserSkillWriteToolInput {
    pub site: String,
    pub name: String,
    pub content: String,
}

/// What `browser_skill_write` reports.
pub enum BrowserSkillWriteOutput {
    Success { success: bool },
    Error { error: String },
}

impl BrowserSkillWriteOutput {
    /// The result as the model sees it.
    pub fn to_content(self) -> (r: ToolResultContent)
        ensures
            match self {
                BrowserSkillWriteOutput::Success { .. } => text_of(r) == Some("Skill saved successfully"@),
                BrowserSkillWriteOutput::Error { error } => r == ToolResultContent::Text(error),
            },
    {
        match self {
            BrowserSkillWriteOutput::Success { .. } => ToolResultContent::Text(String::from_str("Skill saved successfully")),
            BrowserSkillWriteOutput::Error { error } => ToolResultContent::Text(error),
        }
    }
}

/// The `browser_skill_write` tool.
pub struct BrowserSkillWriteTool;

impl BrowserSkillWriteTool {
    /// The name under which the model calls the tool.
    pub fn name() -> (r: &'static str)
        ensures
            r@ == "browser_skill_write"@,
    {
        "browser_skill_write"
    }

    /// The title shown while the tool runs.
    pub fn initial_title(&self) -> (r: String)
        ensures
            r@ == "Writing domain skill"@,
    {
        String::from_str("Writing domain skill")
    }
}

// ---- browser_skill_list ----

/// The arguments of `browser_skill_list`.
pub struct BrowserSkillListToolInput {}

/// What `browser_skill_list` reports.
pub enum BrowserSkillListOutput {
    Success { sites: Vec<String> },
    Error { error: String },
}

impl BrowserSkillListOutput {
    /// The result as the model sees it.
    pub fn to_content(self) -> (r: ToolResultContent)
        ensures
            match self {
                BrowserSkillListOutput::Success { sites } => text_of(r) == Some(sites_text(string_views(sites@))),
                BrowserSkillListOutput::Error { error } => r == ToolResultContent::Text(error),
            },
    {
        match self {
            BrowserSkillListOutput::Success { sites } => {
                if sites.len() == 0 {
                    return ToolResultContent::Text(String::from_str("No domain skills saved yet"));
                }
                let mut parts: Vec<String> = Vec::new();
                let mut i: usize = 0;
                while i < sites.len()
                    invariant
                        i <= sites@.len(),
                        parts@.len() == i,
                        forall|j: int| 0 <= j < i ==> #[trigger] parts@[j]@ == "- "@ + sites@[j]@,
                    decreases sites@.len() - i,
                {
                    let mut part = String::from_str("- ");
                    part.append(sites[i].as_str());
                    parts.push(part);
                    i = i + 1;
                }
                proof {
                    assert(string_views(parts@) =~= string_views(sites@).map_values(|s: Seq<char>| "- "@ + s));
                }
                ToolResultContent::Text(join_strings(&parts, "\n"))
            },
            BrowserSkillListOutput::Error { error } => ToolResultContent::Text(error),
        }
    }
}

/// The `browser_skill_list` tool.
pub struct BrowserSkillListTool;

impl BrowserSkillListTool {
    /// The name under which the model calls the tool.
    pub fn name() -> (r: &'static str)
        ensures
            r@ == "browser_skill_list"@,
    {
        "browser_skill_list"
    }

    /// The title shown while the tool runs.
    pub fn initial_title(&self) -> (r: String)
        ensures
            r@ == "Listing domain skills"@,
    {
        String::from_str("Listing domain skills")
    }
}

// ---- browser_cookies_get ----

/// The arguments of `browser_cookies_get`.
pub struct BrowserCookiesGetToolInput {
    pub urls: Option<Vec<String>>,
}

/// The `browser_cookies_get` tool.
pub struct BrowserCookiesGetTool;

impl BrowserCookiesGetTool {
    /// The name under which the model calls the tool.
    pub fn name() -> (r: &'static str)
        ensures
            r@ == "browser_cookies_get"@,
    {
        "browser_cookies_get"
    }

    /// The title shown while the tool runs.
    pub fn initial_title(&self) -> (r: String)
        ensures
            r@ == "Getting cookies"@,
    {
        String::from_str("Getting cookies")
    }
}

// ---- browser_cookies_set ----

/// What `browser_cookies_set` reports.
pub enum BrowserCookiesSetOutput {
    Success { success: bool },
    Error { error: String },
}

impl BrowserCookiesSetOutput {
    /// The result as the model sees it.
    pub fn to_content(self) -> (r: ToolResultContent)
        ensures
            match self {
                BrowserCookiesSetOutput::Success { .. } => text_of(r) == Some("Cookie set successfully"@),
                BrowserCookiesSetOutput::Error { error } => r == ToolResultContent::Text(error),
            },
    {
        match self {
            BrowserCookiesSetOutput::Success { .. } => ToolResultContent::Text(String::from_str("Cookie set successfully")),
            BrowserCookiesSetOutput::Error { error } => ToolResultContent::Text(error),
        }
    }
}

/// The `browser_cookies_set` tool.
pub struct BrowserCookiesSetTool;

impl BrowserCookiesSetTool {
    /// The name under which the model calls the tool.
    pub fn name() -> (r: &'static str)
        ensures
            r@ == "browser_cookies_set"@,
    {
        "browser_cookies_set"
    }

    /// The title shown while the tool runs.
    pub fn initial_title(&self) -> (r: String)
        ensures
            r@ == "Setting cookie"@,
    {
        String::from_str("Setting cookie")
    }
}

// ---- browser_cookies_delete ----

/// The arguments of `browser_cookies_delete`.
pub struct BrowserCookiesDeleteToolInput {
    pub name: String,
    pub domain: String,
    pub path: Option<String>,
}

/// What `browser_cookies_delete` reports.
pub enum BrowserCookiesDeleteOutput {
    Success { success: bool },
    Error { error: String },
}

impl BrowserCookiesDeleteOutput {
    /// The result as the model sees it.
    pub fn to_content(self) -> (r: ToolResultContent)
        ensures
            match self {
                BrowserCookiesDeleteOutput::Success { .. } => text_of(r) == Some("Cookie deleted successfully"@),
                BrowserCookiesDeleteOutput::Error { error } => r == ToolResultContent::Text(error),
            },
    {
        match self {
            BrowserCookiesDeleteOutput::Success { .. } => ToolResultContent::Text(String::from_str("Cookie deleted successfully")),
            BrowserCookiesDeleteOutput::Error { error } => ToolResultContent::Text(error),
        }
    }
}

/// The `browser_cookies_delete` tool.
pub struct BrowserCookiesDeleteTool;

impl BrowserCookiesDeleteTool {
    /// The name under which the model calls the tool.
    pub fn name() -> (r: &'static str)
        ensures
            r@ == "browser_cookies_delete"@,
    {
        "browser_cookies_delete"
    }

    /// The title shown while the tool runs.
    pub fn initial_title(&self) -> (r: String)
        ensures
            r@ == "Deleting cookie"@,
    {
        String::from_str("Deleting cookie")
    }
}

// ---- browser_shadow_dom_query ----

/// The arguments of `browser_shadow_dom_query`.
pub struct BrowserShadowDomQueryToolInput {
    pub shadow_selector: String,
    pub inner_selector: String,
}

/// What `browser_shadow_dom_query` reports.
pub enum BrowserShadowDomQueryOutput {
    Success { result: String },
    Error { error: String },
}

impl BrowserShadowDomQueryOutput {
    /// The result as the model sees it.
    pub fn to_content(self) -> (r: ToolResultContent)
        ensures
            match self {
                BrowserShadowDomQueryOutput::Success { result } => r == ToolResultContent::Text(result),
                BrowserShadowDomQueryOutput::Error { error } => r == ToolResultContent::Text(error),
            },
    {
        match self {
            BrowserShadowDomQueryOutput::Success { result } => ToolResultContent::Text(result),
            BrowserShadowDomQueryOutput::Error { error } => ToolResultContent::Text(error),
        }
    }
}

/// The `browser_shadow_dom_query` tool.
pub struct BrowserShadowDomQueryTool;

impl BrowserShadowDomQueryTool {
    /// The name under which the model calls the tool.
    pub fn name() -> (r: &'static str)
        ensures
            r@ == "browser_shadow_dom_query"@,
    {
        "browser_shadow_dom_query"
    }

    /// The title shown while the tool runs.
    pub fn initial_title(&self) -> (r: String)
        ensures
            r@ == "Querying shadow DOM"@,
    {
        String::from_str("Querying shadow DOM")
    }
}

// ---- browser_shadow_dom_click ----

/// The arguments of `browser_shadow_dom_click`.
pub struct BrowserShadowDomClickToolInput {
    pub shadow_selector: String,
    pub inner_selector: String,
}

/// What `browser_shadow_dom_click` reports.
pub enum BrowserShadowDomClickOutput {
    Success { success: bool },
    Error { error: String },
}

impl BrowserShadowDomClickOutput {
    /// The result as the model sees it.
    pub fn to_content(self) -> (r: ToolResultContent)
        ensures
            match self {
                BrowserShadowDomClickOutput::Success { .. } => text_of(r) == Some("Clicked in shadow DOM"@),
                BrowserShadowDomClickOutput::Error { error } => r == ToolResultContent::Text(error),
            },
    {
        match self {
            BrowserShadowDomClickOutput::Success { .. } => ToolResultContent::Text(String::from_str("Clicked in shadow DOM")),
            BrowserShadowDomClickOutput::Error { error } => ToolResultContent::Text(error),
        }
    }
}

/// The `browser_shadow_dom_click` tool.
pub struct BrowserShadowDomClickTool;

impl BrowserShadowDomClickTool {
    /// The name under which the model calls the tool.
    pub fn name() -> (r: &'static str)
        ensures
            r@ == "browser_shadow_dom_click"@,
    {
        "browser_shadow_dom_click"
    }

    /// The title shown while the tool runs.
    pub fn initial_title(&self) -> (r: String)
        ensures
            r@ == "Clicking in shadow DOM"@,
    {
        String::from_str("Clicking in shadow DOM")
    }
}

// ---- browser_shadow_dom_fill ----

/// The arguments of `browser_shadow_dom_fill`.
pub struct BrowserShadowDomFillToolInput {
    pub shadow_selector: String,
    pub inner_selector: String,
    pub value: String,
}

/// What `browser_shadow_dom_fill` reports.
pub enum BrowserShadowDomFillOutput {
    Success { success: bool },
    Error { error: String },
}

impl BrowserShadowDomFillOutput {
    /// The result as the model sees it.
    pub fn to_content(self) -> (r: ToolResultContent)
        ensures
            match self {
                BrowserShadowDomFillOutput::Success { .. } => text_of(r) == Some("Filled in shadow DOM"@),
                BrowserShadowDomFillOutput::Error { error } => r == ToolResultContent::Text(error),
            },
    {
        match self {
            BrowserShadowDomFillOutput::Success { .. } => ToolResultContent::Text(String::from_str("Filled in shadow DOM")),
            BrowserShadowDomFillOutput::Error { error } => ToolResultContent::Text(error),
        }
    }
}

/// The `browser_shadow_dom_fill` tool.
pub struct BrowserShadowDomFillTool;

impl BrowserShadowDomFillTool {
    /// The name under which the model calls the tool.
    pub fn name() -> (r: &'static str)
        ensures
            r@ == "browser_shadow_dom_fill"@,
    {
        "browser_shadow_dom_fill"
    }

    /// The title shown while the tool runs.
    pub fn initial_title(&self) -> (r: String)
        ensures
            r@ == "Filling in shadow DOM"@,
    {
        String::from_str("Filling in shadow DOM")
    }
}

// ---- browser_downloads ----

/// The arguments of `browser_downloads`.
pub struct BrowserDownloadsToolInput {
    pub action: Option<String>,
}

/// The `browser_downloads` tool.
pub struct BrowserDownloadsTool;

impl BrowserDownloadsTool {
    /// The name under which the model calls the tool.
    pub fn name() -> (r: &'static str)
        ensures
            r@ == "browser_downloads"@,
    {
        "browser_downloads"
    }

    /// The title shown while the tool runs.
    pub fn initial_title(&self) -> (r: String)
        ensures
            r@ == "Managing downloads"@,
    {
        String::from_str("Managing downloads")
    }
}

// ---- browser detection and errors ----

/// A browser found on the machine.
#[derive(Debug, Clone)]
pub struct BrowserDetection {
    pub path: String,
    pub name: &'static str,
    pub os: &'static str,
}

/// The command that installs Chromium on an operating system.
pub open spec fn spec_install_command(os: Seq<char>) -> Seq<char> {
    if os == "linux"@ {
        "sudo apt install chromium-browser"@
    } else if os == "macos"@ {
        "brew install --cask chromium"@
    } else if os == "windows"@ {
        "https://www.google.com/chrome/"@
    } else {
        "install a Chromium-based browser"@
    }
}

impl BrowserDetection {
    /// The browser's name as shown to people.
    pub fn human_name(&self) -> (r: &str)
        ensures
            r@ == self.name@,
    {
        self.name
    }

    /// How to install Chromium on the detected operating system.
    pub fn install_command(&self) -> (r: &'static str)
        ensures
            r@ == spec_install_command(self.os@),
    {
        if str_eq(self.os, "linux") {
            "sudo apt install chromium-browser"
        } else if str_eq(self.os, "macos") {
            "brew install --cask chromium"
        } else if str_eq(self.os, "windows") {
            "https://www.google.com/chrome/"
        } else {
            "install a Chromium-based browser"
        }
    }
}

/// The hint that closes every browser error.
pub const CHROME_PATH_HINT: &'static str = "\n\nTip: Set TAU_CHROME_PATH environment variable to the full path of your \
    browser executable to bypass auto-detection.\n\
    Example: export TAU_CHROME_PATH=/usr/bin/chromium-browser";

/// What follows the browser's path when it cannot run headless.
pub const HEADLESS_CAUSES: &'static str = " but it cannot run in headless mode.\n\n\
    Possible causes:\n\
    - Missing system libraries (common on headless/Linux servers)\n\
    - Chrome is too old and does not support --headless=new (requires Chrome 112+)\n\
    - Another Chrome instance is blocking the debug port\n\n\
    Debug: try running this command to check:\n";

/// The flags of the suggested check, and the start of the install line.
pub const HEADLESS_CHECK_FLAGS: &'static str = " --headless=new --no-sandbox --disable-gpu --dump-dom about:blank\n\n\
    Install command: ";

/// The start of the suggestion to install Chromium.
pub const CHROMIUM_ALTERNATIVE: &'static str = "\n\nAlternative: install Chromium which has fewer dependencies:\n";

/// The start of the message when no browser was found.
pub const NO_BROWSER_FOUND: &'static str = "No Chromium-based browser found or browser cannot run in headless mode.\n\n";

/// The browsers suggested on Linux.
pub const LINUX_BROWSERS: &'static str = "  - Chromium: sudo apt install chromium-browser\n  - Google Chrome: wget https://dl.google.com/linux/direct/google-chrome-stable_current_amd64.deb && sudo dpkg -i google-chrome-stable_current_amd64.deb\n  - Brave: sudo apt install brave-browser\n";

/// The browsers suggested on macOS.
pub const MACOS_BROWSERS: &'static str = "  - Chromium: brew install --cask chromium\n  - Google Chrome: brew install --cask google-chrome\n  - Brave: brew install --cask brave-browser\n";

/// The browsers suggested on Windows.
pub const WINDOWS_BROWSERS: &'static str = "  - Google Chrome: https://www.google.com/chrome/\n  - Microsoft Edge: https://www.microsoft.com/edge\n  - Brave: https://brave.com/download/\n";

/// The browsers suggested elsewhere.
pub const ANY_BROWSER: &'static str = "  - Any Chromium-based browser (Chrome, Chromium, Brave, Edge)\n";

/// The note on missing headless dependencies.
pub const HEADLESS_DEPENDENCIES_NOTE: &'static str = "\nIf a browser is already installed, it may be missing headless dependencies.";

/// The browsers suggested for an operating system.
pub open spec fn suggested_browsers(os: Seq<char>) -> Seq<char> {
    if os == "linux"@ {
        LINUX_BROWSERS@
    } else if os == "macos"@ {
        MACOS_BROWSERS@
    } else if os == "windows"@ {
        WINDOWS_BROWSERS@
    } else {
        ANY_BROWSER@
    }
}

/// The message for a browser that cannot be used, or for none found, on the
/// operating system `os`.
pub open spec fn spec_chrome_error(detection: Option<BrowserDetection>, os: Seq<char>) -> Seq<char> {
    match detection {
        Some(b) => {
            let install = spec_install_command(b.os@);
            "Found "@ + b.name@ + " at "@ + b.path@ + HEADLESS_CAUSES@ + b.path@ + HEADLESS_CHECK_FLAGS@
                + install + CHROMIUM_ALTERNATIVE@ + (if os == "linux"@ {
                "sudo apt install chromium-browser"@
            } else {
                install
            }) + CHROME_PATH_HINT@
        },
        None => NO_BROWSER_FOUND@ + "Detected OS: "@ + os + "\n\n"@ + "Install one of these:\n"@
            + suggested_browsers(os) + HEADLESS_DEPENDENCIES_NOTE@ + CHROME_PATH_HINT@,
    }
}

/// The error shown when no usable browser is at hand.
pub fn chrome_error(detection: Option<&BrowserDetection>, os: &str) -> (r: String)
    ensures
        r@ == spec_chrome_error(
            match detection {
                Some(b) => Some(*b),
                None => None,
            },
            os@,
        ),
{
    match detection {
        Some(browser) => {
            let install = browser.install_command();
            let mut msg = String::from_str("Found ");
            msg.append(browser.human_name());
            msg.append(" at ");
            msg.append(browser.path.as_str());
            msg.append(HEADLESS_CAUSES);
            msg.append(browser.path.as_str());
            msg.append(HEADLESS_CHECK_FLAGS);
            msg.append(install);
            msg.append(CHROMIUM_ALTERNATIVE);
            if str_eq(os, "linux") {
                msg.append("sudo apt install chromium-browser");
            } else {
                msg.append(install);
            }
            msg.append(CHROME_PATH_HINT);
            proof {
                assert(msg@ =~= spec_chrome_error(Some(*browser), os@));
            }
            msg
        },
        None => {
            let mut msg = String::from_str(NO_BROWSER_FOUND);
            msg.append("Detected OS: ");
            msg.append(os);
            msg.append("\n\n");
            msg.append("Install one of these:\n");
            if str_eq(os, "linux") {
                msg.append(LINUX_BROWSERS);
            } else if str_eq(os, "macos") {
                msg.append(MACOS_BROWSERS);
            } else if str_eq(os, "windows") {
                msg.append(WINDOWS_BROWSERS);
            } else {
                msg.append(ANY_BROWSER);
            }
            msg.append(HEADLESS_DEPENDENCIES_NOTE);
            msg.append(CHROME_PATH_HINT);
            proof {
                assert(msg@ =~= spec_chrome_error(None, os@));
            }
            msg
        },
    }
}

/// A URL whose scheme the browser tools refuse.
pub struct DisallowedScheme {
    pub scheme: String,
}

impl DisallowedScheme {
    /// The message shown for the refused URL.
    pub fn message(&self) -> (r: String)
        ensures
            r@ == "URL scheme not allowed: "@ + self.scheme@
                + ". Only http:// and https:// URLs are supported."@,
    {
        let mut m = String::from_str("URL scheme not allowed: ");
        m.append(self.scheme.as_str());
        m.append(". Only http:// and https:// URLs are supported.");
        m
    }
}

/// Whether `s` starts with `p`.
pub open spec fn has_prefix(s: Seq<char>, p: Seq<char>) -> bool {
    p.len() <= s.len() && s.take(p.len() as int) == p
}

pub proof fn lemma_prefix_first(s: Seq<char>, p: Seq<char>)
    requires
        has_prefix(s, p),
        p.len() > 0,
    ensures
        s[0] == p[0],
{
    assert(s.take(p.len() as int)[0] == s[0]);
}

/// The URL the browser is sent to: as given when it starts with `http://` or
/// `https://`, else with `https://` put in front.
pub open spec fn spec_normalize_url(url: Seq<char>) -> Seq<char> {
    if has_prefix(url, "http://"@) || has_prefix(url, "https://"@) {
        url
    } else {
        "https://"@ + url
    }
}

/// The URL to open for `url`. Every normalized URL starts with `http://` or
/// `https://`, so the schemes that are refused (`file:`, `chrome:`,
/// `chrome-extension:`, `data:`, `javascript:`) never get through.
pub fn validate_url(url: &str) -> (r: Result<String, DisallowedScheme>)
    ensures
        r matches Ok(u) && u@ == spec_normalize_url(url@),
{
    proof {
        reveal_strlit("http://");
        reveal_strlit("https://");
        reveal_strlit("file://");
        reveal_strlit("chrome://");
        reveal_strlit("chrome-extension://");
        reveal_strlit("data:");
        reveal_strlit("javascript:");
    }
    let normalized = if !str_starts_with(url, "http://") && !str_starts_with(url, "https://") {
        let mut n = String::from_str("https://");
        n.append(url);
        proof {
            assert(n@[0] == "https://"@[0]);
        }
        n
    } else {
        proof {
            if has_prefix(url@, "http://"@) {
                lemma_prefix_first(url@, "http://"@);
            } else {
                lemma_prefix_first(url@, "https://"@);
            }
        }
        String::from_str(url)
    };
    assert(normalized@[0] == 'h');
    let n = normalized.as_str();
    if str_starts_with(n, "file://") || str_starts_with(n, "chrome://") || str_starts_with(
        n,
        "chrome-extension://",
    ) || str_starts_with(n, "data:") || str_starts_with(n, "javascript:") {
        proof {
            if has_prefix(n@, "file://"@) {
                lemma_prefix_first(n@, "file://"@);
            } else if has_prefix(n@, "chrome://"@) {
                lemma_prefix_first(n@, "chrome://"@);
            } else if has_prefix(n@, "chrome-extension://"@) {
                lemma_prefix_first(n@, "chrome-extension://"@);
            } else if has_prefix(n@, "data:"@) {
                lemma_prefix_first(n@, "data:"@);
            } else {
                lemma_prefix_first(n@, "javascript:"@);
            }
            assert(false);
        }
        let chars = chars_of(n);
        let scheme = match find_char_from(&chars, ':', 0) {
            Some(k) => {
                proof {
                    lemma_index_of_char(chars@, ':', 0);
                }
                copy_range(&chars, 0, k)
            },
            None => copy_range(&chars, 0, chars.len()),
        };
        return Err(DisallowedScheme { scheme: string_from_chars(&scheme) });
    }
    Ok(normalized)
}

// ---- what the tools decide from their arguments ----

/// What `browser_tabs` was asked to do.
pub enum TabsRequest {
    List,
    Switch(String),
    Close(String),
}

/// What `browser_downloads` was asked to do.
pub enum DownloadsRequest {
    Start,
    List,
}

impl BrowserWaitToolInput {
    /// How long to wait for the element, in milliseconds (ten seconds unless given).
    pub fn timeout_or_default(&self) -> (r: u64)
        ensures
            r == match self.timeout_ms {
                Some(t) => t,
                None => 10000,
            },
    {
        match self.timeout_ms {
            Some(t) => t,
            None => 10000,
        }
    }
}

impl BrowserFillByIndexToolInput {
    /// Whether to clear the field first (no unless asked).
    pub fn clear_or_default(&self) -> (r: bool)
        ensures
            r == match self.clear {
                Some(c) => c,
                None => false,
            },
    {
        match self.clear {
            Some(c) => c,
            None => false,
        }
    }
}

impl BrowserWaitForLoadToolInput {
    /// How long to wait for the page, in milliseconds (fifteen seconds unless given).
    pub fn timeout_or_default(&self) -> (r: u64)
        ensures
            r == match self.timeout_ms {
                Some(t) => t,
                None => 15000,
            },
    {
        match self.timeout_ms {
            Some(t) => t,
            None => 15000,
        }
    }
}

impl BrowserWaitForNetworkIdleToolInput {
    /// How long to wait in all, in milliseconds (ten seconds unless given).
    pub fn timeout_or_default(&self) -> (r: u64)
        ensures
            r == match self.timeout_ms {
                Some(t) => t,
                None => 10000,
            },
    {
        match self.timeout_ms {
            Some(t) => t,
            None => 10000,
        }
    }

    /// How long the network must stay quiet, in milliseconds (half a second
    /// unless given).
    pub fn idle_or_default(&self) -> (r: u64)
        ensures
            r == match self.idle_ms {
                Some(t) => t,
                None => 500,
            },
    {
        match self.idle_ms {
            Some(t) => t,
            None => 500,
        }
    }
}

impl BrowserDispatchKeyToolInput {
    /// The DOM event to dispatch (`keypress` unless given).
    pub fn event_type_or_default(&self) -> (r: String)
        ensures
            r@ == match self.event_type {
                Some(t) => t@,
                None => "keypress"@,
            },
    {
        match &self.event_type {
            Some(t) => t.clone(),
            None => String::from_str("keypress"),
        }
    }
}

impl BrowserCookiesDeleteToolInput {
    /// The cookie path (`/` unless given).
    pub fn path_or_default(&self) -> (r: String)
        ensures
            r@ == match self.path {
                Some(p) => p@,
                None => "/"@,
            },
    {
        match &self.path {
            Some(p) => p.clone(),
            None => String::from_str("/"),
        }
    }
}

/// What `browser_tabs` does for an action and target, or the error it reports.
pub open spec fn spec_tabs_request(action: Seq<char>, target: Option<Seq<char>>) -> Result<
    Option<(bool, Seq<char>)>,
    Seq<char>,
> {
    if action == "list"@ {
        Ok(None)
    } else if action == "switch"@ {
        match target {
            Some(id) => Ok(Some((true, id))),
            None => Err("target_id required for switch"@),
        }
    } else if action == "close"@ {
        match target {
            Some(id) => Ok(Some((false, id))),
            None => Err("target_id required for close"@),
        }
    } else {
        Err("Unknown action: "@ + action + ". Use 'list', 'switch', or 'close'"@)
    }
}

/// The plain form of a tabs request: none to list, else whether to switch
/// (or close) and the target.
pub open spec fn tabs_request_view(r: TabsRequest) -> Option<(bool, Seq<char>)> {
    match r {
        TabsRequest::List => None,
        TabsRequest::Switch(id) => Some((true, id@)),
        TabsRequest::Close(id) => Some((false, id@)),
    }
}

impl BrowserTabsToolInput {
    /// What the tabs tool is asked to do, or the error it reports.
    pub fn request(&self) -> (r: Result<TabsRequest, String>)
        ensures
            match r {
                Ok(q) => spec_tabs_request(
                    self.action@,
                    match self.target_id {
                        Some(t) => Some(t@),
                        None => None,
                    },
                ) == Ok::<Option<(bool, Seq<char>)>, Seq<char>>(tabs_request_view(q)),
                Err(e) => spec_tabs_request(
                    self.action@,
                    match self.target_id {
                        Some(t) => Some(t@),
                        None => None,
                    },
                ) == Err::<Option<(bool, Seq<char>)>, Seq<char>>(e@),
            },
    {
        let action = self.action.as_str();
        if str_eq(action, "list") {
            Ok(TabsRequest::List)
        } else if str_eq(action, "switch") {
            match &self.target_id {
                Some(id) => Ok(TabsRequest::Switch(id.clone())),
                None => Err(String::from_str("target_id required for switch")),
            }
        } else if str_eq(action, "close") {
            match &self.target_id {
                Some(id) => Ok(TabsRequest::Close(id.clone())),
                None => Err(String::from_str("target_id required for close")),
            }
        } else {
            let mut e = String::from_str("Unknown action: ");
            e.append(action);
            e.append(". Use 'list', 'switch', or 'close'");
            Err(e)
        }
    }
}

/// What `browser_downloads` does for an action (listing unless given), or
/// the error it reports: `true` to start watching, `false` to list.
pub open spec fn spec_downloads_request(action: Option<Seq<char>>) -> Result<bool, Seq<char>> {
    let a = match action {
        Some(a) => a,
        None => "list"@,
    };
    if a == "start"@ {
        Ok(true)
    } else if a == "list"@ {
        Ok(false)
    } else {
        Err("Unknown action: "@ + a + ". Use 'start' or 'list'"@)
    }
}

impl BrowserDownloadsToolInput {
    /// What the downloads tool is asked to do, or the error it reports.
    pub fn request(&self) -> (r: Result<DownloadsRequest, String>)
        ensures
            match r {
                Ok(q) => spec_downloads_request(
                    match self.action {
                        Some(a) => Some(a@),
                        None => None,
                    },
                ) == Ok::<bool, Seq<char>>(q is Start),
                Err(e) => spec_downloads_request(
                    match self.action {
                        Some(a) => Some(a@),
                        None => None,
                    },
                ) == Err::<bool, Seq<char>>(e@),
            },
    {
        let action = match &self.action {
            Some(a) => a.clone(),
            None => String::from_str("list"),
        };
        let a = action.as_str();
        if str_eq(a, "start") {
            Ok(DownloadsRequest::Start)
        } else if str_eq(a, "list") {
            Ok(DownloadsRequest::List)
        } else {
            let mut e = String::from_str("Unknown action: ");
            e.append(a);
            e.append(". Use 'start' or 'list'");
            Err(e)
        }
    }
}

} // verus!
