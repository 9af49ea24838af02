use vstd::prelude::*;
use vstd::string::StringExecFns;
use crate::browser_tool::ToolResultContent;
use crate::text::{spec_dec, usize_dec_string};

verus! {

/// The arguments of `search_semantic`: what to look for, how many results
/// to give and an optional filter on file paths.
pub struct SearchSemanticToolInput {
    pub query: String,
    pub limit: usize,
    pub file_filter: Option<String>,
}

/// The number of results given when no limit is named.
pub fn default_limit() -> (r: usize)
    ensures
        r == 10,
{
    10
}

/// What `search_semantic` reports.
pub enum SearchSemanticToolOutput {
    Success(String),
    Error { error: String },
}

impl SearchSemanticToolOutput {
    /// The result as the model sees it.
    pub fn to_content(self) -> (r: ToolResultContent)
        ensures
            match self {
                SearchSemanticToolOutput::Success(s) => r == ToolResultContent::Text(s),
                SearchSemanticToolOutput::Error { error } => r == ToolResultContent::Text(error),
            },
    {
        match self {
            SearchSemanticToolOutput::Success(s) => ToolResultContent::Text(s),
            SearchSemanticToolOutput::Error { error } => ToolResultContent::Text(error),
        }
    }
}

/// The answer when nothing matched.
pub const NO_MATCHES: &'static str = "No matching code found. Try a different query or use `grep` for exact pattern matching.";

/// The line that opens the list of results.
pub open spec fn spec_results_header(count: nat, query: Seq<char>) -> Seq<char> {
    "Found "@ + spec_dec(count) + " relevant result(s) for \""@ + query + "\":\n\n"@
}

/// The line that opens the list of results.
pub fn results_header(count: usize, query: &str) -> (r: String)
    ensures
        r@ == spec_results_header(count as nat, query@),
{
    let mut h = String::from_str("Found ");
    let n = usize_dec_string(count);
    h.append(n.as_str());
    h.append(" relevant result(s) for \"");
    h.append(query);
    h.append("\":\n\n");
    h
}

/// The title shown once results are in.
pub fn matches_title(count: usize) -> (r: String)
    ensures
        r@ == "Found "@ + spec_dec(count as nat) + " semantic matches"@,
{
    let mut t = String::from_str("Found ");
    let n = usize_dec_string(count);
    t.append(n.as_str());
    t.append(" semantic matches");
    t
}

/// The answer when the search found nothing.
pub fn no_matches_output() -> (r: SearchSemanticToolOutput)
    ensures
        r matches SearchSemanticToolOutput::Success(s) && s@ == NO_MATCHES@,
{
    SearchSemanticToolOutput::Success(String::from_str(NO_MATCHES))
}

} // verus!
