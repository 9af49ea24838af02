use vstd::prelude::*;
use vstd::string::StringExecFns;
use crate::text::str_eq;

verus! {

// ---- the reply being streamed ----

/// A tool call as the model streams it: its id, the tool's name, the raw
/// input text, the input as parsed so far (JSON text), and whether the input
/// is complete.
pub struct ToolUse {
    pub id: String,
    pub name: String,
    pub raw_input: String,
    pub input: String,
    pub is_input_complete: bool,
}

/// One piece of the model's reply.
pub enum ReplyPart {
    Text(String),
    /// Reasoning text, with the signature that the provider sent last.
    Thinking { text: String, signature: Option<String> },
    RedactedThinking(String),
    ToolUse(ToolUse),
}

/// The plain form of a tool call.
pub struct ToolUseView {
    pub id: Seq<char>,
    pub name: Seq<char>,
    pub raw_input: Seq<char>,
    pub input: Seq<char>,
    pub complete: bool,
}

/// The plain form of a piece of the reply.
pub enum PartView {
    Text(Seq<char>),
    Thinking(Seq<char>, Option<Seq<char>>),
    RedactedThinking(Seq<char>),
    ToolUse(ToolUseView),
}

pub open spec fn opt_view(o: Option<String>) -> Option<Seq<char>> {
    match o {
        Some(s) => Some(s@),
        None => None,
    }
}

pub open spec fn tool_use_view(t: ToolUse) -> ToolUseView {
    ToolUseView {
        id: t.id@,
        name: t.name@,
        raw_input: t.raw_input@,
        input: t.input@,
        complete: t.is_input_complete,
    }
}

pub open spec fn part_view(p: ReplyPart) -> PartView {
    match p {
        ReplyPart::Text(t) => PartView::Text(t@),
        ReplyPart::Thinking { text, signature } => PartView::Thinking(text@, opt_view(signature)),
        ReplyPart::RedactedThinking(d) => PartView::RedactedThinking(d@),
        ReplyPart::ToolUse(t) => PartView::ToolUse(tool_use_view(t)),
    }
}

pub open spec fn parts_view(ps: Seq<ReplyPart>) -> Seq<PartView> {
    ps.map_values(|p: ReplyPart| part_view(p))
}

/// The reply after more text: it extends a text piece at the end, else it
/// starts a new one.
pub open spec fn spec_push_text(ps: Seq<PartView>, t: Seq<char>) -> Seq<PartView> {
    if ps.len() > 0 && ps.last() is Text {
        ps.update(ps.len() - 1, PartView::Text(ps.last()->Text_0 + t))
    } else {
        ps.push(PartView::Text(t))
    }
}

/// The reply after more reasoning: it extends reasoning at the end, keeping
/// its signature unless a new one came, else it starts new reasoning.
pub open spec fn spec_push_thinking(ps: Seq<PartView>, t: Seq<char>, sig: Option<Seq<char>>) -> Seq<PartView> {
    if ps.len() > 0 && ps.last() is Thinking {
        let old_sig = ps.last()->Thinking_1;
        ps.update(
            ps.len() - 1,
            PartView::Thinking(
                ps.last()->Thinking_0 + t,
                if sig is Some {
                    sig
                } else {
                    old_sig
                },
            ),
        )
    } else {
        ps.push(PartView::Thinking(t, sig))
    }
}

/// Text streamed in two pieces makes the same reply as the two pieces
/// streamed as one.
pub proof fn lemma_text_pieces_join(ps: Seq<PartView>, a: Seq<char>, b: Seq<char>)
    ensures
        spec_push_text(spec_push_text(ps, a), b) == spec_push_text(ps, a + b),
{
    if ps.len() > 0 && ps.last() is Text {
        let t = ps.last()->Text_0;
        assert(t + a + b =~= t + (a + b));
        assert(spec_push_text(spec_push_text(ps, a), b) =~= spec_push_text(ps, a + b));
    } else {
        assert(spec_push_text(spec_push_text(ps, a), b) =~= spec_push_text(ps, a + b));
    }
}

/// Reasoning streamed in two pieces makes the same reply as the two pieces
/// streamed as one, under the later signature if the second piece has one.
pub proof fn lemma_thinking_pieces_join(
    ps: Seq<PartView>,
    a: Seq<char>,
    sig_a: Option<Seq<char>>,
    b: Seq<char>,
    sig_b: Option<Seq<char>>,
)
    ensures
        spec_push_thinking(spec_push_thinking(ps, a, sig_a), b, sig_b) == spec_push_thinking(
            ps,
            a + b,
            if sig_b is Some {
                sig_b
            } else {
                sig_a
            },
        ),
{
    if ps.len() > 0 && ps.last() is Thinking {
        let t = ps.last()->Thinking_0;
        assert(t + a + b =~= t + (a + b));
    }
    assert(spec_push_thinking(spec_push_thinking(ps, a, sig_a), b, sig_b) =~= spec_push_thinking(
        ps,
        a + b,
        if sig_b is Some {
            sig_b
        } else {
            sig_a
        },
    ));
}

/// The last position before `end` of a call with id `id`.
pub open spec fn last_call_with_id(ps: Seq<PartView>, id: Seq<char>, end: int) -> Option<int>
    decreases end,
{
    if end <= 0 || end > ps.len() {
        None
    } else if ps[end - 1] matches PartView::ToolUse(t) && t.id == id {
        Some(end - 1)
    } else {
        last_call_with_id(ps, id, end - 1)
    }
}

pub proof fn lemma_last_call_in_range(ps: Seq<PartView>, id: Seq<char>, end: int)
    ensures
        last_call_with_id(ps, id, end) matches Some(i) ==> 0 <= i < end <= ps.len(),
    decreases end,
{
    if 0 < end <= ps.len() {
        lemma_last_call_in_range(ps, id, end - 1);
    }
}

/// The reply after a streamed tool call: it replaces the latest call with
/// the same id, else it is added at the end.
pub open spec fn spec_upsert_call(ps: Seq<PartView>, t: ToolUseView) -> Seq<PartView> {
    match last_call_with_id(ps, t.id, ps.len() as int) {
        Some(i) => ps.update(i, PartView::ToolUse(t)),
        None => ps.push(PartView::ToolUse(t)),
    }
}

proof fn lemma_last_call_after_update(ps: Seq<PartView>, id: Seq<char>, end: int, i: int, t: ToolUseView)
    requires
        last_call_with_id(ps, id, end) == Some(i),
        t.id == id,
    ensures
        last_call_with_id(ps.update(i, PartView::ToolUse(t)), id, end) == Some(i),
    decreases end,
{
    lemma_last_call_in_range(ps, id, end);
    if end - 1 != i {
        lemma_last_call_after_update(ps, id, end - 1, i, t);
    }
}

/// A tool call streamed again and again stays one piece of the reply, in
/// its latest state: taking two states of a call is taking the last alone.
pub proof fn lemma_repeated_call_kept_once(ps: Seq<PartView>, first: ToolUseView, latest: ToolUseView)
    requires
        first.id == latest.id,
    ensures
        spec_upsert_call(spec_upsert_call(ps, first), latest) == spec_upsert_call(ps, latest),
{
    let id = first.id;
    lemma_last_call_in_range(ps, id, ps.len() as int);
    match last_call_with_id(ps, id, ps.len() as int) {
        Some(i) => {
            lemma_last_call_after_update(ps, id, ps.len() as int, i, first);
            assert(ps.update(i, PartView::ToolUse(first)).update(i, PartView::ToolUse(latest)) =~= ps.update(
                i,
                PartView::ToolUse(latest),
            ));
        },
        None => {
            let ps1 = ps.push(PartView::ToolUse(first));
            assert(last_call_with_id(ps1, id, ps1.len() as int) == Some(ps.len() as int));
            assert(ps1.update(ps.len() as int, PartView::ToolUse(latest)) =~= ps.push(PartView::ToolUse(latest)));
        },
    }
}

/// The reply being streamed.
pub struct PendingReply {
    pub content: Vec<ReplyPart>,
    /// The last reasoning details the provider sent, as JSON text.
    pub reasoning_details: Option<String>,
}

impl PendingReply {
    /// A reply that has just started.
    pub fn new() -> (r: Self)
        ensures
            r.content@.len() == 0,
            r.reasoning_details is None,
    {
        PendingReply { content: Vec::new(), reasoning_details: None }
    }

    /// Takes streamed text.
    pub fn push_text(&mut self, new_text: String)
        ensures
            parts_view(final(self).content@) == spec_push_text(parts_view(old(self).content@), new_text@),
            final(self).reasoning_details == old(self).reasoning_details,
    {
        let n = self.content.len();
        let ghost before = self.content@;
        if n > 0 {
            if let ReplyPart::Text(t) = &self.content[n - 1] {
                let mut joined = t.clone();
                joined.append(new_text.as_str());
                self.content.set(n - 1, ReplyPart::Text(joined));
                proof {
                    assert(parts_view(self.content@) =~= spec_push_text(parts_view(before), new_text@));
                }
                return;
            }
        }
        self.content.push(ReplyPart::Text(new_text));
        proof {
            assert(parts_view(self.content@) =~= spec_push_text(parts_view(before), new_text@));
        }
    }

    /// Takes streamed reasoning and its signature, if one came.
    pub fn push_thinking(&mut self, new_text: String, new_signature: Option<String>)
        ensures
            parts_view(final(self).content@) == spec_push_thinking(
                parts_view(old(self).content@),
                new_text@,
                opt_view(new_signature),
            ),
            final(self).reasoning_details == old(self).reasoning_details,
    {
        let n = self.content.len();
        let ghost before = self.content@;
        let ghost sig = opt_view(new_signature);
        if n > 0 {
            if let ReplyPart::Thinking { text, signature } = &self.content[n - 1] {
                let mut joined = text.clone();
                joined.append(new_text.as_str());
                let kept = match new_signature {
                    Some(s) => Some(s),
                    None => match signature {
                        Some(s) => Some(s.clone()),
                        None => None,
                    },
                };
                self.content.set(n - 1, ReplyPart::Thinking { text: joined, signature: kept });
                proof {
                    assert(parts_view(self.content@) =~= spec_push_thinking(parts_view(before), new_text@, sig));
                }
                return;
            }
        }
        self.content.push(ReplyPart::Thinking { text: new_text, signature: new_signature });
        proof {
            assert(parts_view(self.content@) =~= spec_push_thinking(parts_view(before), new_text@, sig));
        }
    }

    /// Takes redacted reasoning, which is kept as it came.
    pub fn push_redacted_thinking(&mut self, data: String)
        ensures
            parts_view(final(self).content@) == parts_view(old(self).content@).push(
                PartView::RedactedThinking(data@),
            ),
            final(self).reasoning_details == old(self).reasoning_details,
    {
        let ghost before = self.content@;
        self.content.push(ReplyPart::RedactedThinking(data));
        proof {
            assert(parts_view(self.content@) =~= parts_view(before).push(PartView::RedactedThinking(data@)));
        }
    }

    /// Takes reasoning details: they replace the kept ones unless they are
    /// an empty array.
    pub fn set_reasoning_details(&mut self, details: String, is_empty_array: bool)
        ensures
            final(self).content == old(self).content,
            is_empty_array ==> final(self).reasoning_details == old(self).reasoning_details,
            !is_empty_array ==> final(self).reasoning_details == Some(details),
    {
        if !is_empty_array {
            self.reasoning_details = Some(details);
        }
    }

    fn last_call_position(&self, id: &str) -> (r: Option<usize>)
        ensures
            match r {
                Some(i) => last_call_with_id(parts_view(self.content@), id@, self.content@.len() as int)
                    == Some(i as int),
                None => last_call_with_id(parts_view(self.content@), id@, self.content@.len() as int)
                    is None,
            },
    {
        let ghost ps = parts_view(self.content@);
        let mut end: usize = self.content.len();
        while end > 0
            invariant
                end <= self.content@.len(),
                ps == parts_view(self.content@),
                last_call_with_id(ps, id@, self.content@.len() as int) == last_call_with_id(ps, id@, end as int),
            decreases end,
        {
            if let ReplyPart::ToolUse(t) = &self.content[end - 1] {
                if str_eq(t.id.as_str(), id) {
                    return Some(end - 1);
                }
            }
            end = end - 1;
        }
        None
    }

    /// Takes a streamed tool call; true when it replaced an earlier state
    /// of the same call.
    pub fn upsert_tool_use(&mut self, tool_use: ToolUse) -> (r: bool)
        ensures
            parts_view(final(self).content@) == spec_upsert_call(
                parts_view(old(self).content@),
                tool_use_view(tool_use),
            ),
            r == (last_call_with_id(
                parts_view(old(self).content@),
                tool_use.id@,
                old(self).content@.len() as int,
            ) is Some),
            final(self).reasoning_details == old(self).reasoning_details,
    {
        let ghost before = self.content@;
        let ghost tv = tool_use_view(tool_use);
        proof {
            lemma_last_call_in_range(parts_view(before), tool_use.id@, before.len() as int);
        }
        match self.last_call_position(tool_use.id.as_str()) {
            Some(i) => {
                self.content.set(i, ReplyPart::ToolUse(tool_use));
                proof {
                    assert(parts_view(self.content@) =~= spec_upsert_call(parts_view(before), tv));
                }
                true
            },
            None => {
                self.content.push(ReplyPart::ToolUse(tool_use));
                proof {
                    assert(parts_view(self.content@) =~= spec_upsert_call(parts_view(before), tv));
                }
                false
            },
        }
    }
}

// ---- what a streamed tool call starts ----

/// What to do with a streamed tool call.
pub enum ToolUseAction {
    /// There is no such tool: answer the call with this error at once.
    NoSuchTool(String),
    /// Nothing more to do now.
    Skip,
    /// Pass the partial input to the call's running stream.
    StreamPartial,
    /// Open a stream for the call, pass it the partial input, and run the tool.
    StartStreaming,
    /// Close the call's stream with the complete input.
    FinishStream,
    /// Run the tool with the complete input.
    Run,
}

/// The error for a call of a tool that does not exist.
pub open spec fn no_such_tool_message(name: Seq<char>) -> Seq<char> {
    "No tool named "@ + name + " exists"@
}

fn no_such_tool(name: &str) -> (r: String)
    ensures
        r@ == no_such_tool_message(name@),
{
    let mut m = String::from_str("No tool named ");
    m.append(name);
    m.append(" exists");
    m
}

/// Decides what a streamed tool call starts: an unknown tool is answered
/// with an error; a partial input feeds a stream (only for tools that stream
/// their input, and only in a running turn); a complete input closes the
/// call's stream if it has one, else runs the tool (in a running turn).
pub fn tool_use_action(
    tool_name: &str,
    tool_exists: bool,
    supports_streaming: bool,
    input_complete: bool,
    has_running_turn: bool,
    has_stream: bool,
) -> (r: ToolUseAction)
    ensures
        match r {
            ToolUseAction::NoSuchTool(m) => !tool_exists && m@ == no_such_tool_message(tool_name@),
            ToolUseAction::Skip => tool_exists && (if input_complete {
                !has_running_turn
            } else {
                !supports_streaming || !has_running_turn
            }),
            ToolUseAction::StreamPartial => tool_exists && !input_complete && supports_streaming
                && has_running_turn && has_stream,
            ToolUseAction::StartStreaming => tool_exists && !input_complete && supports_streaming
                && has_running_turn && !has_stream,
            ToolUseAction::FinishStream => tool_exists && input_complete && has_running_turn && has_stream,
            ToolUseAction::Run => tool_exists && input_complete && has_running_turn && !has_stream,
        },
{
    if !tool_exists {
        ToolUseAction::NoSuchTool(no_such_tool(tool_name))
    } else if !input_complete {
        if !supports_streaming || !has_running_turn {
            ToolUseAction::Skip
        } else if has_stream {
            ToolUseAction::StreamPartial
        } else {
            ToolUseAction::StartStreaming
        }
    } else if !has_running_turn {
        ToolUseAction::Skip
    } else if has_stream {
        ToolUseAction::FinishStream
    } else {
        ToolUseAction::Run
    }
}

/// What to do with a tool call whose input was not valid JSON.
pub enum InvalidInputAction {
    /// There is no such tool: answer the call with this error at once.
    NoSuchTool(String),
    /// Nothing more to do now.
    Skip,
    /// Close the call's stream with this error.
    FailStream(String),
    /// Run the tool with this error in place of its input.
    RunWithError(String),
}

/// The error a tool gets for input that was not valid JSON.
pub open spec fn invalid_json_message(error: Seq<char>) -> Seq<char> {
    "Error parsing input JSON: "@ + error
}

/// Decides what a call with invalid input starts: an unknown tool is
/// answered with an error; a streaming tool outside a running turn gets
/// nothing; a streaming call's stream is closed with the error; otherwise
/// the tool runs with the error.
pub fn invalid_input_action(
    tool_name: &str,
    json_error: &str,
    tool_exists: bool,
    supports_streaming: bool,
    has_running_turn: bool,
    has_stream: bool,
) -> (r: InvalidInputAction)
    ensures
        match r {
            InvalidInputAction::NoSuchTool(m) => !tool_exists && m@ == no_such_tool_message(tool_name@),
            InvalidInputAction::Skip => tool_exists && supports_streaming && !has_running_turn,
            InvalidInputAction::FailStream(m) => tool_exists && supports_streaming && has_running_turn
                && has_stream && m@ == invalid_json_message(json_error@),
            InvalidInputAction::RunWithError(m) => tool_exists && !(supports_streaming && (!has_running_turn
                || has_stream)) && m@ == invalid_json_message(json_error@),
        },
{
    if !tool_exists {
        return InvalidInputAction::NoSuchTool(no_such_tool(tool_name));
    }
    let mut message = String::from_str("Error parsing input JSON: ");
    message.append(json_error);
    if supports_streaming {
        if !has_running_turn {
            return InvalidInputAction::Skip;
        }
        if has_stream {
            return InvalidInputAction::FailStream(message);
        }
    }
    InvalidInputAction::RunWithError(message)
}

} // verus!
