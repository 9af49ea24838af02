use vstd::prelude::*;
use vstd::string::StringExecFns;
use crate::turn::AgentContent;
use std::collections::HashMap;
use crate::compaction::{
    clone_contents, lemma_same_views_bytes, lemma_same_views_truncate, view_bytes,
    lemma_truncated_fits_budget, lemma_view_bytes_concat,
    TokenUsage, AutoCompactThreshold, MessageContent, RequestMessage, Role, ContentView,
    views, contents_bytes, sat_add, spec_total_input_tokens, spec_threshold_token_count,
    spec_truncate_contents, total_input_tokens, auto_compact_threshold_token_count,
    user_message_byte_len, truncate_user_message_to_byte_budget,
};

verus! {

broadcast use vstd::std_specs::hash::group_hash_axioms;

/// Models with a context window below this many tokens are never compacted.
pub const MIN_COMPACTION_CONTEXT_WINDOW: u64 = 80_000;

/// Bytes of earlier user messages kept in front of a compaction summary.
pub const COMPACTION_RETAINED_USER_MESSAGES_BYTE_BUDGET: usize = 80_000;

/// A message the user sent, with its request content.
pub struct UserMessage {
    pub id: u64,
    pub content: Vec<MessageContent>,
}

/// What a compaction left behind.
pub enum CompactionInfo {
    /// A summary written by the model.
    Summary(String),
    /// The provider compacted the history itself.
    ProviderNative,
}

/// A tool's answer to a call: the call's id, the tool's name, whether the
/// call failed, and the text handed back to the model.
pub struct ToolResult {
    pub tool_use_id: String,
    pub tool_name: String,
    pub is_error: bool,
    pub text: String,
}

/// A reply of the model: its pieces, and the tool results gathered for its
/// calls, in the order they came.
pub struct AgentMessage {
    pub content: Vec<AgentContent>,
    pub tool_results: Vec<ToolResult>,
}

/// What the model is told of a call that was cut short.
pub const TOOL_CANCELED_MESSAGE: &'static str = "Tool canceled by user";

/// The plain form of a tool result.
pub open spec fn tool_result_view(r: ToolResult) -> (Seq<char>, Seq<char>, bool, Seq<char>) {
    (r.tool_use_id@, r.tool_name@, r.is_error, r.text@)
}

/// The plain forms of tool results.
pub open spec fn tool_results_view(rs: Seq<ToolResult>) -> Seq<(Seq<char>, Seq<char>, bool, Seq<char>)> {
    rs.map_values(|r: ToolResult| tool_result_view(r))
}

/// Whether some result answers the call `id`.
pub open spec fn has_result_for(rs: Seq<(Seq<char>, Seq<char>, bool, Seq<char>)>, id: Seq<char>) -> bool {
    exists|i: int| 0 <= i < rs.len() && (#[trigger] rs[i]).0 == id
}

/// The results after every call among `content` that has none yet gets a
/// failed result saying it was canceled, in the order of the calls.
pub open spec fn spec_close_tool_uses(
    content: Seq<AgentContent>,
    results: Seq<(Seq<char>, Seq<char>, bool, Seq<char>)>,
) -> Seq<(Seq<char>, Seq<char>, bool, Seq<char>)>
    decreases content.len(),
{
    if content.len() == 0 {
        results
    } else {
        let rest = spec_close_tool_uses(content.drop_last(), results);
        match content.last() {
            AgentContent::ToolUse { id, name } => if has_result_for(rest, id@) {
                rest
            } else {
                rest.push((id@, name@, true, TOOL_CANCELED_MESSAGE@))
            },
            _ => rest,
        }
    }
}

impl AgentMessage {
    /// A reply made of one piece of text.
    pub fn from_text(text: String) -> (r: Self)
        ensures
            r.content@.len() == 1,
            r.content@[0] matches AgentContent::Text(t) && t@ == text@,
            r.tool_results@.len() == 0,
    {
        let mut content: Vec<AgentContent> = Vec::new();
        content.push(AgentContent::Text(text));
        AgentMessage { content, tool_results: Vec::new() }
    }
}

/// Whether some result answers the call `id`, computed.
fn has_result(results: &Vec<ToolResult>, id: &str) -> (r: bool)
    ensures
        r == has_result_for(tool_results_view(results@), id@),
{
    let mut i: usize = 0;
    while i < results.len()
        invariant
            i <= results@.len(),
            forall|j: int| 0 <= j < i ==> (#[trigger] results@[j]).tool_use_id@ != id@,
        decreases results@.len() - i,
    {
        if crate::text::str_eq(results[i].tool_use_id.as_str(), id) {
            proof {
                assert(tool_results_view(results@)[i as int].0 == id@);
            }
            return true;
        }
        i = i + 1;
    }
    proof {
        assert forall|j: int| 0 <= j < results@.len() implies (#[trigger] tool_results_view(results@)[j]).0 != id@ by {
            assert(tool_results_view(results@)[j].0 == results@[j].tool_use_id@);
        }
    }
    false
}

/// Gives every call of the reply that has no result yet a failed result
/// saying it was canceled.
pub fn close_tool_uses(message: &mut AgentMessage)
    ensures
        final(message).content@ == old(message).content@,
        tool_results_view(final(message).tool_results@) == spec_close_tool_uses(
            old(message).content@,
            tool_results_view(old(message).tool_results@),
        ),
{
    let ghost start = tool_results_view(message.tool_results@);
    let mut i: usize = 0;
    while i < message.content.len()
        invariant
            i <= message.content@.len(),
            message.content@ == old(message).content@,
            start == tool_results_view(old(message).tool_results@),
            tool_results_view(message.tool_results@) == spec_close_tool_uses(
                message.content@.take(i as int),
                start,
            ),
        decreases message.content@.len() - i,
    {
        proof {
            assert(message.content@.take(i + 1).drop_last() =~= message.content@.take(i as int));
            assert(message.content@.take(i + 1).last() == message.content@[i as int]);
        }
        let ghost before = message.tool_results@;
        let next: Option<ToolResult> = match &message.content[i] {
            AgentContent::ToolUse { id, name } => {
                if has_result(&message.tool_results, id.as_str()) {
                    None
                } else {
                    Some(
                        ToolResult {
                            tool_use_id: id.clone(),
                            tool_name: name.clone(),
                            is_error: true,
                            text: String::from_str(TOOL_CANCELED_MESSAGE),
                        },
                    )
                }
            },
            _ => None,
        };
        match next {
            Some(r) => {
                message.tool_results.push(r);
                proof {
                    assert(tool_results_view(message.tool_results@) =~= tool_results_view(before).push(
                        tool_result_view(message.tool_results@.last()),
                    ));
                }
            },
            None => {},
        }
        i = i + 1;
    }
    proof {
        assert(message.content@.take(message.content@.len() as int) =~= message.content@);
    }
}

/// One entry of a thread's history.
pub enum ThreadMessage {
    User(UserMessage),
    /// A reply of the model.
    Agent(AgentMessage),
    Resume,
    Compaction(CompactionInfo),
}

/// The history of a thread with the token usage reported per user request.
pub struct ThreadHistory {
    messages: Vec<ThreadMessage>,
    request_token_usage: HashMap<u64, TokenUsage>,
    current_request_token_usage: TokenUsage,
    cumulative_token_usage: TokenUsage,
    summary: Option<String>,
}

pub open spec fn is_compaction(m: ThreadMessage) -> bool {
    m is Compaction
}

pub open spec fn is_user_with_id(m: ThreadMessage, id: u64) -> bool {
    match m {
        ThreadMessage::User(u) => u.id == id,
        _ => false,
    }
}

pub open spec fn user_bytes_ok(m: ThreadMessage) -> bool {
    match m {
        ThreadMessage::User(u) => contents_bytes(u.content@) <= usize::MAX,
        _ => true,
    }
}

/// The index of the last compaction among the first `end` messages.
pub open spec fn last_compaction_before(msgs: Seq<ThreadMessage>, end: int) -> Option<int>
    decreases end,
{
    if end <= 0 {
        None
    } else if is_compaction(msgs[end - 1]) {
        Some(end - 1)
    } else {
        last_compaction_before(msgs, end - 1)
    }
}

/// The index of the last user message among the first `end` messages.
pub open spec fn last_user_before(msgs: Seq<ThreadMessage>, end: int) -> Option<int>
    decreases end,
{
    if end <= 0 {
        None
    } else if msgs[end - 1] is User {
        Some(end - 1)
    } else {
        last_user_before(msgs, end - 1)
    }
}

pub proof fn lemma_last_user_before(msgs: Seq<ThreadMessage>, end: int)
    ensures
        last_user_before(msgs, end) matches Some(i) ==> 0 <= i < end && msgs[i] is User,
        last_user_before(msgs, end) is None ==> forall|j: int| 0 <= j < end ==> !(#[trigger] msgs[j] is User),
    decreases end,
{
    if end > 0 {
        lemma_last_user_before(msgs, end - 1);
    }
}

pub proof fn lemma_first_user_with_id(msgs: Seq<ThreadMessage>, id: u64, start: int)
    ensures
        first_user_with_id(msgs, id, start) matches Some(p) ==> start <= p < msgs.len()
            && is_user_with_id(msgs[p], id),
    decreases msgs.len() - start,
{
    if 0 <= start < msgs.len() && !is_user_with_id(msgs[start], id) {
        lemma_first_user_with_id(msgs, id, start + 1);
    }
}

pub proof fn lemma_last_compaction_before(msgs: Seq<ThreadMessage>, end: int)
    ensures
        last_compaction_before(msgs, end) matches Some(i) ==> 0 <= i < end && is_compaction(msgs[i])
            && forall|j: int| i < j < end ==> !is_compaction(#[trigger] msgs[j]),
        last_compaction_before(msgs, end) is None ==> forall|j: int|
            0 <= j < end ==> !is_compaction(#[trigger] msgs[j]),
    decreases end,
{
    if end > 0 {
        lemma_last_compaction_before(msgs, end - 1);
    }
}

pub proof fn lemma_last_user_with_usage(msgs: Seq<ThreadMessage>, usage: Map<u64, TokenUsage>, end: int)
    ensures
        last_user_with_usage(msgs, usage, end) matches Some(i) ==> 0 <= i < end && msgs[i] is User
            && usage.contains_key(user_id(msgs[i])),
    decreases end,
{
    if end > 0 {
        lemma_last_user_with_usage(msgs, usage, end - 1);
    }
}

/// The index of the first user message with the given id at or after `start`.
pub open spec fn first_user_with_id(msgs: Seq<ThreadMessage>, id: u64, start: int) -> Option<int>
    decreases msgs.len() - start,
{
    if start < 0 || start >= msgs.len() {
        None
    } else if is_user_with_id(msgs[start], id) {
        Some(start)
    } else {
        first_user_with_id(msgs, id, start + 1)
    }
}

/// The index of the last user message among the first `end` whose request
/// has a recorded usage.
pub open spec fn last_user_with_usage(msgs: Seq<ThreadMessage>, usage: Map<u64, TokenUsage>, end: int) -> Option<int>
    decreases end,
{
    if end <= 0 {
        None
    } else if msgs[end - 1] matches ThreadMessage::User(u) && usage.contains_key(u.id) {
        Some(end - 1)
    } else {
        last_user_with_usage(msgs, usage, end - 1)
    }
}

pub open spec fn user_id(m: ThreadMessage) -> u64 {
    match m {
        ThreadMessage::User(u) => u.id,
        _ => 0,
    }
}

/// The last message is a user message whose request has no usage yet.
pub open spec fn ends_with_unanswered_user(msgs: Seq<ThreadMessage>, usage: Map<u64, TokenUsage>) -> bool {
    msgs.len() > 0 && msgs.last() is User && !usage.contains_key(user_id(msgs.last()))
}

/// Where automatic compaction should insert its summary, if it should run:
/// it is enabled, the window is large enough, the latest request with a
/// usage comes after the latest compaction, and that request used at least
/// the threshold. The summary goes before a trailing unanswered user message.
pub open spec fn spec_compaction_target(
    msgs: Seq<ThreadMessage>,
    usage: Map<u64, TokenUsage>,
    enabled: bool,
    threshold: AutoCompactThreshold,
    max_token_count: Option<u64>,
) -> Option<nat> {
    if !enabled {
        None
    } else if max_token_count is None {
        None
    } else if max_token_count.unwrap() < MIN_COMPACTION_CONTEXT_WINDOW {
        None
    } else {
        match last_user_with_usage(msgs, usage, msgs.len() as int) {
            None => None,
            Some(usage_ix) => {
                let u = usage[user_id(msgs[usage_ix])];
                let active = sat_add(spec_total_input_tokens(u), u.output_tokens as nat);
                if last_compaction_before(msgs, msgs.len() as int) matches Some(c) && c > usage_ix {
                    None
                } else if active < spec_threshold_token_count(threshold, max_token_count.unwrap() as nat) {
                    None
                } else if msgs.len() > 0 && ends_with_unanswered_user(msgs, usage) {
                    Some((msgs.len() - 1) as nat)
                } else {
                    Some(msgs.len())
                }
            },
        }
    }
}

/// Input tokens of the request before the given user message's request: the
/// usage recorded for the user message preceding the first one with `target`.
pub open spec fn spec_tokens_before(msgs: Seq<ThreadMessage>, usage: Map<u64, TokenUsage>, target: u64) -> Option<nat> {
    match first_user_with_id(msgs, target, 0) {
        None => None,
        Some(i) => match last_user_before(msgs, i) {
            None => None,
            Some(p) => if usage.contains_key(user_id(msgs[p])) {
                Some(spec_total_input_tokens(usage[user_id(msgs[p])]))
            } else {
                None
            },
        },
    }
}

/// The ids of the user messages at or after index `start`.
pub open spec fn user_ids_from(msgs: Seq<ThreadMessage>, start: int, end: int) -> Set<u64> {
    Set::new(|k: u64| exists|j: int| start <= j < end && #[trigger] is_user_with_id(msgs[j], k))
}

pub proof fn lemma_user_ids_step(msgs: Seq<ThreadMessage>, start: int, j: int)
    requires
        start <= j < msgs.len(),
    ensures
        user_ids_from(msgs, start, j + 1) == (if msgs[j] is User {
            user_ids_from(msgs, start, j).insert(user_id(msgs[j]))
        } else {
            user_ids_from(msgs, start, j)
        }),
{
    let lhs = user_ids_from(msgs, start, j + 1);
    let rhs = if msgs[j] is User {
        user_ids_from(msgs, start, j).insert(user_id(msgs[j]))
    } else {
        user_ids_from(msgs, start, j)
    };
    assert forall|k: u64| lhs.contains(k) <==> rhs.contains(k) by {
        if lhs.contains(k) {
            let w = choose|w: int| start <= w < j + 1 && #[trigger] is_user_with_id(msgs[w], k);
            if w < j {
                assert(user_ids_from(msgs, start, j).contains(k));
            }
        }
        if rhs.contains(k) {
            if user_ids_from(msgs, start, j).contains(k) {
                let w = choose|w: int| start <= w < j && #[trigger] is_user_with_id(msgs[w], k);
                assert(is_user_with_id(msgs[w], k));
            } else {
                assert(is_user_with_id(msgs[j], k));
            }
        }
    }
    assert(lhs =~= rhs);
}

/// The earlier user messages kept in front of a compaction that sits at
/// `end`, newest first: whole messages while they fit in `budget` bytes,
/// then the first one that does not fit, cut to what is left.
pub open spec fn spec_retained(msgs: Seq<ThreadMessage>, end: int, budget: nat) -> Seq<Seq<ContentView>>
    decreases end,
{
    if end <= 0 {
        seq![]
    } else {
        match msgs[end - 1] {
            ThreadMessage::User(u) => {
                if u.content@.len() == 0 {
                    spec_retained(msgs, end - 1, budget)
                } else {
                    let b = contents_bytes(u.content@);
                    if b <= budget {
                        seq![views(u.content@)] + spec_retained(msgs, end - 1, (budget - b) as nat)
                    } else if budget > 0 && spec_truncate_contents(u.content@, budget).len() > 0 {
                        seq![spec_truncate_contents(u.content@, budget)]
                    } else {
                        seq![]
                    }
                }
            },
            _ => spec_retained(msgs, end - 1, budget),
        }
    }
}

/// Why a history operation was refused.
#[derive(Clone, Copy, Debug, PartialEq, Eq)]
pub enum HistoryError {
    /// No user message has the given id.
    MessageNotFound,
}

/// Field-wise running maximum of two usages.
pub open spec fn usage_max(a: TokenUsage, b: TokenUsage) -> TokenUsage {
    TokenUsage {
        input_tokens: if a.input_tokens >= b.input_tokens { a.input_tokens } else { b.input_tokens },
        output_tokens: if a.output_tokens >= b.output_tokens { a.output_tokens } else { b.output_tokens },
        cache_creation_input_tokens: if a.cache_creation_input_tokens >= b.cache_creation_input_tokens {
            a.cache_creation_input_tokens
        } else {
            b.cache_creation_input_tokens
        },
        cache_read_input_tokens: if a.cache_read_input_tokens >= b.cache_read_input_tokens {
            a.cache_read_input_tokens
        } else {
            b.cache_read_input_tokens
        },
    }
}

/// `total + (new - old)` field by field, as integers.
pub open spec fn usage_plus_delta(total: TokenUsage, new: TokenUsage, old: TokenUsage) -> (int, int, int, int) {
    (
        total.input_tokens + new.input_tokens - old.input_tokens,
        total.output_tokens + new.output_tokens - old.output_tokens,
        total.cache_creation_input_tokens + new.cache_creation_input_tokens - old.cache_creation_input_tokens,
        total.cache_read_input_tokens + new.cache_read_input_tokens - old.cache_read_input_tokens,
    )
}

pub open spec fn usage_tuple(u: TokenUsage) -> (int, int, int, int) {
    (
        u.input_tokens as int,
        u.output_tokens as int,
        u.cache_creation_input_tokens as int,
        u.cache_read_input_tokens as int,
    )
}

/// Whether accumulating `update` into the cumulative usage stays within `u64`.
pub open spec fn accumulation_fits(total: TokenUsage, current: TokenUsage, update: TokenUsage) -> bool {
    let t = usage_plus_delta(total, usage_max(current, update), current);
    t.0 <= u64::MAX && t.1 <= u64::MAX && t.2 <= u64::MAX && t.3 <= u64::MAX
}

fn max_u64(a: u64, b: u64) -> (m: u64)
    ensures
        m == if a >= b { a } else { b },
{
    if a >= b { a } else { b }
}

impl ThreadHistory {
    pub closed spec fn messages(&self) -> Seq<ThreadMessage> {
        self.messages@
    }

    pub closed spec fn usage(&self) -> Map<u64, TokenUsage> {
        self.request_token_usage@
    }

    pub closed spec fn current_usage(&self) -> TokenUsage {
        self.current_request_token_usage
    }

    pub closed spec fn cumulative_usage(&self) -> TokenUsage {
        self.cumulative_token_usage
    }

    /// The detailed summary of the thread, once one was made.
    pub closed spec fn summary(&self) -> Option<Seq<char>> {
        match self.summary {
            None => None,
            Some(s) => Some(s@),
        }
    }

    /// Every user message's text and images fit in `usize` bytes.
    pub open spec fn wf(&self) -> bool {
        forall|i: int| 0 <= i < self.messages().len() ==> user_bytes_ok(#[trigger] self.messages()[i])
    }

    /// An empty history.
    pub fn new() -> (h: Self)
        ensures
            h.messages() == Seq::<ThreadMessage>::empty(),
            h.usage() == Map::<u64, TokenUsage>::empty(),
            usage_tuple(h.current_usage()) == (0int, 0int, 0int, 0int),
            usage_tuple(h.cumulative_usage()) == (0int, 0int, 0int, 0int),
            h.summary() is None,
            h.wf(),
    {
        ThreadHistory {
            messages: Vec::new(),
            request_token_usage: HashMap::new(),
            current_request_token_usage: TokenUsage::zero(),
            cumulative_token_usage: TokenUsage::zero(),
            summary: None,
        }
    }

    /// Adds the reply being streamed, if any and if it holds anything, to
    /// the history once its turn ends: every call in it that got no result
    /// is answered as canceled, and the thread's summary is dropped.
    pub fn flush_pending_message(&mut self, pending: Option<AgentMessage>)
        requires
            old(self).wf(),
        ensures
            final(self).wf(),
            final(self).usage() == old(self).usage(),
            final(self).current_usage() == old(self).current_usage(),
            final(self).cumulative_usage() == old(self).cumulative_usage(),
            match pending {
                Some(m) if m.content@.len() > 0 => {
                    &&& final(self).messages().len() == old(self).messages().len() + 1
                    &&& final(self).messages().take(old(self).messages().len() as int) == old(self).messages()
                    &&& final(self).messages().last() matches ThreadMessage::Agent(a) && a.content@ == m.content@
                        && tool_results_view(a.tool_results@) == spec_close_tool_uses(
                        m.content@,
                        tool_results_view(m.tool_results@),
                    )
                    &&& final(self).summary() is None
                },
                _ => final(self).messages() == old(self).messages() && final(self).summary()
                    == old(self).summary(),
            },
    {
        let mut message = match pending {
            Some(m) => m,
            None => {
                return;
            },
        };
        if message.content.len() == 0 {
            return;
        }
        close_tool_uses(&mut message);
        self.push_message(ThreadMessage::Agent(message));
        self.summary = None;
        proof {
            assert(self.messages().take(old(self).messages().len() as int) =~= old(self).messages());
        }
    }

    /// Keeps the detailed summary made of the thread.
    pub fn set_summary(&mut self, summary: String)
        ensures
            final(self).summary() == Some(summary@),
            final(self).messages() == old(self).messages(),
            final(self).usage() == old(self).usage(),
            final(self).current_usage() == old(self).current_usage(),
            final(self).cumulative_usage() == old(self).cumulative_usage(),
    {
        self.summary = Some(summary);
    }

    /// The detailed summary of the thread, if one was made since the thread
    /// last changed its past.
    pub fn detailed_summary(&self) -> (r: Option<String>)
        ensures
            match r {
                None => self.summary() is None,
                Some(t) => self.summary() == Some(t@),
            },
    {
        match &self.summary {
            None => None,
            Some(t) => Some(t.clone()),
        }
    }

    /// Appends a message to the history.
    pub fn push_message(&mut self, message: ThreadMessage)
        requires
            old(self).wf(),
            user_bytes_ok(message),
        ensures
            final(self).summary() == old(self).summary(),
            final(self).messages() == old(self).messages().push(message),
            final(self).usage() == old(self).usage(),
            final(self).current_usage() == old(self).current_usage(),
            final(self).cumulative_usage() == old(self).cumulative_usage(),
            final(self).wf(),
    {
        self.messages.push(message);
        proof {
            assert forall|i: int| 0 <= i < self.messages().len() implies user_bytes_ok(
                #[trigger] self.messages()[i],
            ) by {
                if i < old(self).messages().len() {
                    assert(self.messages()[i] == old(self).messages()[i]);
                }
            }
        }
    }

    /// The message at position `i`, if there is one.
    pub fn message(&self, i: usize) -> (r: Option<&ThreadMessage>)
        ensures
            match r {
                Some(m) => i < self.messages().len() && *m == self.messages()[i as int],
                None => i >= self.messages().len(),
            },
    {
        if i < self.messages.len() {
            Some(&self.messages[i])
        } else {
            None
        }
    }

    /// Number of messages.
    pub fn len(&self) -> (n: usize)
        ensures
            n == self.messages().len(),
    {
        self.messages.len()
    }

    /// The token usage recorded for the request of the given user message.
    pub fn request_usage(&self, id: u64) -> (u: Option<TokenUsage>)
        ensures
            u == (if self.usage().contains_key(id) { Some(self.usage()[id]) } else { None }),
    {
        match self.request_token_usage.get(&id) {
            Some(u) => Some(*u),
            None => None,
        }
    }

    /// Usage of the request being streamed.
    pub fn current_request_usage(&self) -> (u: TokenUsage)
        ensures
            u == self.current_usage(),
    {
        self.current_request_token_usage
    }

    /// Usage summed over every request of the thread.
    pub fn cumulative_token_usage(&self) -> (u: TokenUsage)
        ensures
            u == self.cumulative_usage(),
    {
        self.cumulative_token_usage
    }

    /// A new request starts: its running usage is zero.
    pub fn start_request(&mut self)
        ensures
            final(self).summary() == old(self).summary(),
            final(self).messages() == old(self).messages(),
            final(self).usage() == old(self).usage(),
            usage_tuple(final(self).current_usage()) == (0int, 0int, 0int, 0int),
            final(self).cumulative_usage() == old(self).cumulative_usage(),
    {
        self.current_request_token_usage = TokenUsage::zero();
    }

    /// Folds a streamed usage report into the running request usage (each
    /// count only grows) and adds what grew to the cumulative usage.
    pub fn accumulate_token_usage(&mut self, update: TokenUsage)
        requires
            accumulation_fits(old(self).cumulative_usage(), old(self).current_usage(), update),
        ensures
            final(self).summary() == old(self).summary(),
            final(self).messages() == old(self).messages(),
            final(self).usage() == old(self).usage(),
            final(self).current_usage() == usage_max(old(self).current_usage(), update),
            usage_tuple(final(self).cumulative_usage()) == usage_plus_delta(
                old(self).cumulative_usage(),
                usage_max(old(self).current_usage(), update),
                old(self).current_usage(),
            ),
    {
        let prev = self.current_request_token_usage;
        let cur = TokenUsage {
            input_tokens: max_u64(prev.input_tokens, update.input_tokens),
            output_tokens: max_u64(prev.output_tokens, update.output_tokens),
            cache_creation_input_tokens: max_u64(
                prev.cache_creation_input_tokens,
                update.cache_creation_input_tokens,
            ),
            cache_read_input_tokens: max_u64(prev.cache_read_input_tokens, update.cache_read_input_tokens),
        };
        self.current_request_token_usage = cur;
        let total = self.cumulative_token_usage;
        self.cumulative_token_usage = TokenUsage {
            input_tokens: total.input_tokens + (cur.input_tokens - prev.input_tokens),
            output_tokens: total.output_tokens + (cur.output_tokens - prev.output_tokens),
            cache_creation_input_tokens: total.cache_creation_input_tokens + (
            cur.cache_creation_input_tokens - prev.cache_creation_input_tokens),
            cache_read_input_tokens: total.cache_read_input_tokens + (cur.cache_read_input_tokens
                - prev.cache_read_input_tokens),
        };
    }

    /// The index of the last user message, if any.
    pub fn last_user_message_ix(&self) -> (r: Option<usize>)
        ensures
            match r {
                Some(i) => last_user_before(self.messages(), self.messages().len() as int) == Some(i as int),
                None => last_user_before(self.messages(), self.messages().len() as int) is None,
            },
    {
        let mut end = self.messages.len();
        while end > 0
            invariant
                end <= self.messages@.len(),
                last_user_before(self.messages(), self.messages().len() as int)
                    == last_user_before(self.messages(), end as int),
            decreases end,
        {
            if let ThreadMessage::User(_) = &self.messages[end - 1] {
                return Some(end - 1);
            }
            end = end - 1;
        }
        None
    }

    /// Records a streamed usage report: accumulates it and files it under
    /// the last user message, when there is one.
    pub fn update_token_usage(&mut self, update: TokenUsage)
        requires
            accumulation_fits(old(self).cumulative_usage(), old(self).current_usage(), update),
        ensures
            final(self).summary() == old(self).summary(),
            final(self).messages() == old(self).messages(),
            final(self).current_usage() == usage_max(old(self).current_usage(), update),
            usage_tuple(final(self).cumulative_usage()) == usage_plus_delta(
                old(self).cumulative_usage(),
                usage_max(old(self).current_usage(), update),
                old(self).current_usage(),
            ),
            final(self).usage() == match last_user_before(
                old(self).messages(),
                old(self).messages().len() as int,
            ) {
                Some(i) => old(self).usage().insert(
                    user_id(old(self).messages().index(i)),
                    update,
                ),
                None => old(self).usage(),
            },
    {
        self.accumulate_token_usage(update);
        match self.last_user_message_ix() {
            Some(i) => {
                proof {
                    lemma_last_user_before(self.messages(), self.messages().len() as int);
                }
                let id = match &self.messages[i] {
                    ThreadMessage::User(u) => u.id,
                    _ => 0,
                };
                self.request_token_usage.insert(id, update);
            },
            None => {},
        }
    }

    /// The index of the last compaction among the first `end_ix` messages.
    pub fn latest_compaction_message_ix_before(&self, end_ix: usize) -> (r: Option<usize>)
        requires
            end_ix <= self.messages().len(),
        ensures
            match r {
                Some(i) => last_compaction_before(self.messages(), end_ix as int) == Some(i as int),
                None => last_compaction_before(self.messages(), end_ix as int) is None,
            },
    {
        let mut end = end_ix;
        while end > 0
            invariant
                end <= end_ix <= self.messages@.len(),
                last_compaction_before(self.messages(), end_ix as int) == last_compaction_before(
                    self.messages(),
                    end as int,
                ),
            decreases end,
        {
            if let ThreadMessage::Compaction(_) = &self.messages[end - 1] {
                return Some(end - 1);
            }
            end = end - 1;
        }
        None
    }

    /// The index and recorded usage of the last user message whose request
    /// has a usage.
    fn last_user_with_usage_ix(&self) -> (r: Option<(usize, TokenUsage)>)
        ensures
            match r {
                Some((i, u)) => last_user_with_usage(self.messages(), self.usage(), self.messages().len() as int)
                    == Some(i as int) && u == self.usage()[user_id(self.messages()[i as int])],
                None => last_user_with_usage(self.messages(), self.usage(), self.messages().len() as int) is None,
            },
    {
        let mut end = self.messages.len();
        while end > 0
            invariant
                end <= self.messages@.len(),
                last_user_with_usage(self.messages(), self.usage(), self.messages().len() as int)
                    == last_user_with_usage(self.messages(), self.usage(), end as int),
            decreases end,
        {
            if let ThreadMessage::User(u) = &self.messages[end - 1] {
                match self.request_token_usage.get(&u.id) {
                    Some(us) => {
                        return Some((end - 1, *us));
                    },
                    None => {},
                }
            }
            end = end - 1;
        }
        None
    }

    /// Where automatic compaction should insert its summary, if it should
    /// run now. `max_token_count` is the model's context window, if a model
    /// is configured.
    pub fn compaction_message_target_ix(
        &self,
        enabled: bool,
        threshold: AutoCompactThreshold,
        max_token_count: Option<u64>,
    ) -> (r: Option<usize>)
        ensures
            match r {
                Some(i) => spec_compaction_target(self.messages(), self.usage(), enabled, threshold, max_token_count)
                    == Some(i as nat),
                None => spec_compaction_target(self.messages(), self.usage(), enabled, threshold, max_token_count)
                    is None,
            },
    {
        if !enabled {
            return None;
        }
        let max = match max_token_count {
            Some(m) => m,
            None => return None,
        };
        if max < MIN_COMPACTION_CONTEXT_WINDOW {
            return None;
        }
        let (usage_ix, usage) = match self.last_user_with_usage_ix() {
            Some(found) => found,
            None => return None,
        };
        let n = self.messages.len();
        match self.latest_compaction_message_ix_before(n) {
            Some(c) => {
                if c > usage_ix {
                    return None;
                }
            },
            None => {},
        }
        let active = total_input_tokens(usage).saturating_add(usage.output_tokens);
        let threshold_tokens = auto_compact_threshold_token_count(threshold, max);
        if active < threshold_tokens {
            return None;
        }
        if n > 0 {
            if let ThreadMessage::User(last) = &self.messages[n - 1] {
                if !self.request_token_usage.contains_key(&last.id) {
                    return Some(n - 1);
                }
            }
        }
        Some(n)
    }

    /// Input tokens of the request before the given user message's request;
    /// `None` for the first user message, a message without a recorded usage
    /// before it, or an unknown id.
    pub fn tokens_before_message(&self, target_id: u64) -> (r: Option<u64>)
        ensures
            match r {
                Some(n) => spec_tokens_before(self.messages(), self.usage(), target_id) == Some(n as nat),
                None => spec_tokens_before(self.messages(), self.usage(), target_id) is None,
            },
    {
        let mut previous: Option<u64> = None;
        let mut i: usize = 0;
        proof {
            lemma_last_user_before(self.messages(), 0);
        }
        while i < self.messages.len()
            invariant
                i <= self.messages@.len(),
                first_user_with_id(self.messages(), target_id, 0) == first_user_with_id(
                    self.messages(),
                    target_id,
                    i as int,
                ),
                previous == match last_user_before(self.messages(), i as int) {
                    Some(p) => Some(user_id(self.messages()[p])),
                    None => None::<u64>,
                },
            decreases self.messages@.len() - i,
        {
            if let ThreadMessage::User(u) = &self.messages[i] {
                if u.id == target_id {
                    match previous {
                        None => return None,
                        Some(prev_id) => {
                            match self.request_token_usage.get(&prev_id) {
                                Some(usage) => return Some(total_input_tokens(*usage)),
                                None => return None,
                            }
                        },
                    }
                }
                previous = Some(u.id);
            }
            i = i + 1;
        }
        None
    }

    /// The index of the first user message with the given id.
    pub fn find_user_message(&self, id: u64) -> (r: Option<usize>)
        ensures
            match r {
                Some(p) => first_user_with_id(self.messages(), id, 0) == Some(p as int)
                    && p < self.messages().len(),
                None => first_user_with_id(self.messages(), id, 0) is None,
            },
    {
        let n = self.messages.len();
        let mut position: usize = 0;
        while position < n
            invariant
                n == self.messages@.len(),
                position <= n,
                first_user_with_id(self.messages(), id, 0) == first_user_with_id(
                    self.messages(),
                    id,
                    position as int,
                ),
            decreases n - position,
        {
            if let ThreadMessage::User(u) = &self.messages[position] {
                if u.id == id {
                    proof {
                        lemma_first_user_with_id(self.messages(), id, position as int);
                    }
                    return Some(position);
                }
            }
            position = position + 1;
        }
        None
    }

    /// Drops the user message with the given id and everything after it,
    /// together with the usage recorded for the dropped user messages; the
    /// thread's summary no longer holds and is dropped too.
    pub fn truncate(&mut self, message_id: u64) -> (r: Result<(), HistoryError>)
        requires
            old(self).wf(),
        ensures
            final(self).wf(),
            final(self).current_usage() == old(self).current_usage(),
            final(self).cumulative_usage() == old(self).cumulative_usage(),
            match first_user_with_id(old(self).messages(), message_id, 0) {
                None => r == Err::<(), HistoryError>(HistoryError::MessageNotFound)
                    && final(self).messages() == old(self).messages()
                    && final(self).usage() == old(self).usage()
                    && final(self).summary() == old(self).summary(),
                Some(p) => r is Ok && final(self).summary() is None && final(self).messages() == old(self).messages().take(p)
                    && final(self).usage() == old(self).usage().remove_keys(
                    user_ids_from(old(self).messages(), p, old(self).messages().len() as int),
                ),
            },
    {
        let n = self.messages.len();
        let position = match self.find_user_message(message_id) {
            Some(p) => p,
            None => return Err(HistoryError::MessageNotFound),
        };
        let ghost old_usage = self.request_token_usage@;
        let mut j: usize = position;
        while j < n
            invariant
                n == self.messages@.len(),
                position <= j <= n,
                self.messages@ == old(self).messages(),
                self.current_request_token_usage == old(self).current_usage(),
                self.cumulative_token_usage == old(self).cumulative_usage(),
                self.request_token_usage@ == old_usage.remove_keys(
                    user_ids_from(self.messages@, position as int, j as int),
                ),
            decreases n - j,
        {
            let ghost before = self.request_token_usage@;
            if let ThreadMessage::User(u) = &self.messages[j] {
                let id = u.id;
                self.request_token_usage.remove(&id);
            }
            proof {
                lemma_user_ids_step(self.messages@, position as int, j as int);
            }
            proof {
                assert(self.request_token_usage@ =~= old_usage.remove_keys(
                    user_ids_from(self.messages@, position as int, j + 1),
                ));
            }
            j = j + 1;
        }
        self.messages.truncate(position);
        proof {
            assert(self.messages@ =~= old(self).messages().take(position as int));
            assert forall|i: int| 0 <= i < self.messages().len() implies user_bytes_ok(
                #[trigger] self.messages()[i],
            ) by {
                assert(self.messages()[i] == old(self).messages()[i]);
            }
        }
        self.summary = None;
        Ok(())
    }

    /// The earlier user messages to keep in front of the compaction at
    /// `compaction_ix`, oldest first, within the retention byte budget.
    pub fn retained_user_request_messages_before(&self, compaction_ix: usize) -> (r: Vec<RequestMessage>)
        requires
            self.wf(),
            compaction_ix <= self.messages().len(),
        ensures
            r@.len() == spec_retained(
                self.messages(),
                compaction_ix as int,
                COMPACTION_RETAINED_USER_MESSAGES_BYTE_BUDGET as nat,
            ).len(),
            forall|i: int| #![trigger r@[i]] 0 <= i < r@.len() ==> {
                let kept = spec_retained(
                    self.messages(),
                    compaction_ix as int,
                    COMPACTION_RETAINED_USER_MESSAGES_BYTE_BUDGET as nat,
                );
                &&& views(r@[i].content@) == kept[kept.len() - 1 - i]
                &&& r@[i].role == Role::User
                &&& r@[i].cache == false
            },
    {
        let ghost full = spec_retained(
            self.messages(),
            compaction_ix as int,
            COMPACTION_RETAINED_USER_MESSAGES_BYTE_BUDGET as nat,
        );
        let mut remaining: usize = COMPACTION_RETAINED_USER_MESSAGES_BYTE_BUDGET;
        let mut newest_first: Vec<RequestMessage> = Vec::new();
        let mut end: usize = compaction_ix;
        let mut done = false;
        while end > 0 && !done
            invariant
                end <= compaction_ix <= self.messages@.len(),
                self.wf(),
                !done ==> full =~= Seq::new(newest_first@.len(), |k: int| views(newest_first@[k].content@))
                    + spec_retained(self.messages(), end as int, remaining as nat),
                done ==> full =~= Seq::new(newest_first@.len(), |k: int| views(newest_first@[k].content@)),
                forall|k: int| 0 <= k < newest_first@.len() ==> (#[trigger] newest_first@[k]).role == Role::User
                    && newest_first@[k].cache == false,
            decreases end, (if done { 0int } else { 1int }),
        {
            let ghost before = newest_first@;
            let ghost r0 = remaining as nat;
            if let ThreadMessage::User(u) = &self.messages[end - 1] {
                if u.content.len() > 0 {
                    proof {
                        assert(user_bytes_ok(self.messages()[end - 1]));
                    }
                    let request = RequestMessage {
                        role: Role::User,
                        content: clone_contents(&u.content),
                        cache: false,
                    };
                    proof {
                        lemma_same_views_bytes(request.content@, u.content@);
                        lemma_same_views_truncate(request.content@, u.content@, r0);
                    }
                    let byte_count = user_message_byte_len(&request);
                    if byte_count <= remaining {
                        remaining = remaining - byte_count;
                        newest_first.push(request);
                    } else {
                        if remaining > 0 {
                            match truncate_user_message_to_byte_budget(request, remaining) {
                                Some(m) => {
                                    newest_first.push(m);
                                },
                                None => {},
                            }
                        }
                        done = true;
                    }
                }
            }
            end = end - 1;
            proof {
                if !done {
                    assert(Seq::new(newest_first@.len(), |k: int| views(newest_first@[k].content@))
                        =~= Seq::new(before.len(), |k: int| views(before[k].content@))
                        + Seq::new((newest_first@.len() - before.len()) as nat, |k: int| views(newest_first@[before.len() + k].content@)));
                }
            }
        }
        let ghost stacked = newest_first@;
        let mut r: Vec<RequestMessage> = Vec::new();
        while newest_first.len() > 0
            invariant
                r@.len() + newest_first@.len() == stacked.len(),
                newest_first@ == stacked.take(newest_first@.len() as int),
                forall|k: int| 0 <= k < r@.len() ==> #[trigger] r@[k] == stacked[stacked.len() - 1 - k],
            decreases newest_first@.len(),
        {
            let m = newest_first.pop().unwrap();
            r.push(m);
            proof {
                assert(newest_first@ =~= stacked.take(newest_first@.len() as int));
            }
        }
        r
    }

    /// Where a manual compaction inserts its summary: at the end, unless the
    /// thread is empty or already ends with a compaction.
    pub fn forced_compaction_target_ix(&self) -> (r: Option<usize>)
        ensures
            r == (if self.messages().len() == 0 || is_compaction(self.messages().last()) {
                None
            } else {
                Some(self.messages().len() as usize)
            }),
    {
        let n = self.messages.len();
        if n == 0 {
            return None;
        }
        if let ThreadMessage::Compaction(_) = &self.messages[n - 1] {
            return None;
        }
        Some(n)
    }
}

/// Streaming usage reports counts every token once. Folding a report
/// into the running request usage adds exactly its growth to the cumulative
/// usage, so "cumulative minus current" is unchanged; folding the same
/// report again changes nothing.
pub proof fn lemma_usage_counted_once(total: TokenUsage, current: TokenUsage, update: TokenUsage)
    ensures
        ({
            let new_current = usage_max(current, update);
            let t = usage_plus_delta(total, new_current, current);
            &&& t.0 - new_current.input_tokens == total.input_tokens - current.input_tokens
            &&& t.1 - new_current.output_tokens == total.output_tokens - current.output_tokens
            &&& t.2 - new_current.cache_creation_input_tokens == total.cache_creation_input_tokens
                - current.cache_creation_input_tokens
            &&& t.3 - new_current.cache_read_input_tokens == total.cache_read_input_tokens
                - current.cache_read_input_tokens
            &&& new_current.input_tokens >= current.input_tokens
            &&& new_current.output_tokens >= current.output_tokens
            &&& new_current.cache_creation_input_tokens >= current.cache_creation_input_tokens
            &&& new_current.cache_read_input_tokens >= current.cache_read_input_tokens
        }),
        usage_max(usage_max(current, update), update) == usage_max(current, update),
        usage_plus_delta(total, usage_max(usage_max(current, update), update), usage_max(current, update))
            == usage_tuple(total),
{
}

/// The running request usage after the reports `us`, from zero: each count
/// is the largest any report gave.
pub open spec fn usage_max_all(us: Seq<TokenUsage>) -> TokenUsage
    decreases us.len(),
{
    if us.len() == 0 {
        TokenUsage { input_tokens: 0, output_tokens: 0, cache_creation_input_tokens: 0, cache_read_input_tokens: 0 }
    } else {
        usage_max(usage_max_all(us.drop_last()), us.last())
    }
}

/// Two usages added count by count.
pub open spec fn usage_sum(a: (int, int, int, int), b: (int, int, int, int)) -> (int, int, int, int) {
    (a.0 + b.0, a.1 + b.1, a.2 + b.2, a.3 + b.3)
}

/// Streaming reports `us` for one request, from a zero running usage
/// (`start_request`) and each folded in by `accumulate_token_usage`, add to
/// the cumulative usage exactly the largest value each count reached:
/// `totals` and `currents` are the cumulative and running usage before each
/// report and after the last.
pub proof fn lemma_usage_over_reports(totals: Seq<TokenUsage>, currents: Seq<TokenUsage>, us: Seq<TokenUsage>)
    requires
        totals.len() == us.len() + 1,
        currents.len() == us.len() + 1,
        usage_tuple(currents[0]) == (0int, 0int, 0int, 0int),
        forall|i: int|
            0 <= i < us.len() ==> currents[i + 1] == usage_max(currents[i], #[trigger] us[i])
                && usage_tuple(totals[i + 1]) == usage_plus_delta(totals[i], currents[i + 1], currents[i]),
    ensures
        currents[us.len() as int] == usage_max_all(us),
        usage_tuple(totals[us.len() as int]) == usage_sum(usage_tuple(totals[0]), usage_tuple(usage_max_all(us))),
    decreases us.len(),
{
    if us.len() == 0 {
        assert(currents[0] == usage_max_all(us));
    } else {
        let n = us.len() - 1;
        let ps = us.drop_last();
        assert forall|i: int| 0 <= i < ps.len() implies currents.take(n + 1)[i + 1] == usage_max(
            currents.take(n + 1)[i],
            #[trigger] ps[i],
        ) && usage_tuple(totals.take(n + 1)[i + 1]) == usage_plus_delta(
            totals.take(n + 1)[i],
            currents.take(n + 1)[i + 1],
            currents.take(n + 1)[i],
        ) by {
            assert(ps[i] == us[i]);
        }
        lemma_usage_over_reports(totals.take(n + 1), currents.take(n + 1), ps);
        assert(us[n] == us.last());
        assert(currents.take(n + 1)[n] == currents[n]);
        assert(totals.take(n + 1)[n] == totals[n]);
        assert(totals.take(n + 1)[0] == totals[0]);
    }
}

/// Automatic compaction inserts its summary at the end of the thread or
/// just before a trailing user message that has not been answered yet, only
/// for windows of at least `MIN_COMPACTION_CONTEXT_WINDOW` tokens, and never
/// when a compaction already follows the latest answered request.
pub proof fn lemma_compaction_target_position(
    msgs: Seq<ThreadMessage>,
    usage: Map<u64, TokenUsage>,
    enabled: bool,
    threshold: AutoCompactThreshold,
    max_token_count: Option<u64>,
)
    ensures
        spec_compaction_target(msgs, usage, enabled, threshold, max_token_count) matches Some(ix) ==> {
            &&& enabled
            &&& max_token_count matches Some(m) && m >= MIN_COMPACTION_CONTEXT_WINDOW
            &&& (ix == msgs.len() || (ix == msgs.len() - 1 && ends_with_unanswered_user(msgs, usage)))
            &&& last_user_with_usage(msgs, usage, msgs.len() as int) matches Some(u)
                && !(last_compaction_before(msgs, msgs.len() as int) matches Some(c) && c > u)
        },
{
}

/// After a successful `truncate(id)` no message with that id remains.
pub proof fn lemma_truncate_removes_message(msgs: Seq<ThreadMessage>, id: u64)
    ensures
        first_user_with_id(msgs, id, 0) matches Some(p) ==> first_user_with_id(msgs.take(p), id, 0) is None,
{
    if first_user_with_id(msgs, id, 0) is Some {
        let p = first_user_with_id(msgs, id, 0).unwrap();
        lemma_first_user_with_id(msgs, id, 0);
        lemma_first_user_prefix(msgs, id, 0, p);
    }
}

proof fn lemma_first_user_prefix(msgs: Seq<ThreadMessage>, id: u64, start: int, p: int)
    requires
        0 <= start <= p <= msgs.len(),
        first_user_with_id(msgs, id, start) == Some(p),
    ensures
        first_user_with_id(msgs.take(p), id, start) is None,
    decreases p - start,
{
    if start < p {
        assert(msgs.take(p)[start] == msgs[start]);
        lemma_first_user_prefix(msgs, id, start + 1, p);
    }
}

/// Bytes of text and images over all kept messages.
pub open spec fn kept_bytes(kept: Seq<Seq<ContentView>>) -> nat
    decreases kept.len(),
{
    if kept.len() == 0 {
        0
    } else {
        view_bytes(kept[0]) + kept_bytes(kept.drop_first())
    }
}

pub proof fn lemma_views_bytes(items: Seq<MessageContent>)
    ensures
        view_bytes(views(items)) == contents_bytes(items),
    decreases items.len(),
{
    if items.len() > 0 {
        lemma_views_bytes(items.drop_last());
        assert(views(items) =~= views(items.drop_last()) + seq![items.last()@]);
        lemma_view_bytes_concat(views(items.drop_last()), seq![items.last()@]);
        let single = seq![items.last()@];
        assert(single.drop_first() =~= Seq::<ContentView>::empty());
        assert(view_bytes(single.drop_first()) == 0);
    }
}

/// The user messages kept in front of a compaction hold at most the
/// retention budget of text and image bytes.
pub proof fn lemma_retained_within_budget(msgs: Seq<ThreadMessage>, end: int, budget: nat)
    ensures
        kept_bytes(spec_retained(msgs, end, budget)) <= budget,
    decreases end,
{
    if end > 0 {
        match msgs[end - 1] {
            ThreadMessage::User(u) => {
                if u.content@.len() == 0 {
                    lemma_retained_within_budget(msgs, end - 1, budget);
                } else {
                    let b = contents_bytes(u.content@);
                    if b <= budget {
                        lemma_retained_within_budget(msgs, end - 1, (budget - b) as nat);
                        lemma_views_bytes(u.content@);
                        let kept = seq![views(u.content@)] + spec_retained(msgs, end - 1, (budget - b) as nat);
                        assert(kept[0] == views(u.content@));
                        assert(kept.drop_first() =~= spec_retained(msgs, end - 1, (budget - b) as nat));
                    } else if budget > 0 && spec_truncate_contents(u.content@, budget).len() > 0 {
                        lemma_truncated_fits_budget(u.content@, budget);
                        let kept = seq![spec_truncate_contents(u.content@, budget)];
                        assert(kept.drop_first() =~= Seq::<Seq<ContentView>>::empty());
                        assert(kept_bytes(kept.drop_first()) == 0);
                    } else {
                        assert(kept_bytes(Seq::<Seq<ContentView>>::empty()) == 0);
                    }
                }
            },
            _ => {
                lemma_retained_within_budget(msgs, end - 1, budget);
            },
        }
    } else {
        assert(kept_bytes(Seq::<Seq<ContentView>>::empty()) == 0);
    }
}

/// Where a compaction summary goes.
pub enum CompactionInsertion {
    /// At an index computed up front (before a trailing unanswered user
    /// message).
    Auto { insertion_ix: usize },
    /// At the end, after an empty user message that marks the request.
    Manual { marker_id: u64 },
}

/// The summary kept from what the model wrote: the text trimmed, or none
/// when nothing is left.
pub fn compaction_summary(raw: &str) -> (r: Option<String>)
    ensures
        match r {
            Some(s) => s@ == crate::text::spec_trim(raw@) && s@.len() > 0,
            None => crate::text::spec_trim(raw@).len() == 0,
        },
{
    let chars = crate::text::chars_of(raw);
    let trimmed = crate::text::trim_chars(&chars);
    if trimmed.len() == 0 {
        None
    } else {
        Some(crate::text::string_from_chars(&trimmed))
    }
}

impl ThreadHistory {
    /// Adds a compaction summary to the history: at the computed index (at
    /// the end when the index is past it), or at the end after an empty user
    /// message with the marker's id.
    pub fn insert_compaction(&mut self, summary: String, insertion: CompactionInsertion)
        requires
            old(self).wf(),
        ensures
            final(self).summary() == old(self).summary(),
            final(self).wf(),
            final(self).usage() == old(self).usage(),
            final(self).current_usage() == old(self).current_usage(),
            final(self).cumulative_usage() == old(self).cumulative_usage(),
            match insertion {
                CompactionInsertion::Auto { insertion_ix } => final(self).messages() == if insertion_ix
                    <= old(self).messages().len() {
                    old(self).messages().insert(
                        insertion_ix as int,
                        ThreadMessage::Compaction(CompactionInfo::Summary(summary)),
                    )
                } else {
                    old(self).messages().push(ThreadMessage::Compaction(CompactionInfo::Summary(summary)))
                },
                CompactionInsertion::Manual { marker_id } => {
                    let n = old(self).messages().len() as int;
                    &&& final(self).messages().len() == n + 2
                    &&& final(self).messages().take(n) == old(self).messages()
                    &&& final(self).messages()[n] matches ThreadMessage::User(u) && u.id == marker_id
                        && u.content@.len() == 0
                    &&& final(self).messages()[n + 1] == ThreadMessage::Compaction(
                        CompactionInfo::Summary(summary),
                    )
                },
            },
    {
        let compaction = ThreadMessage::Compaction(CompactionInfo::Summary(summary));
        match insertion {
            CompactionInsertion::Auto { insertion_ix } => {
                if insertion_ix <= self.messages.len() {
                    self.messages.insert(insertion_ix, compaction);
                    proof {
                        assert forall|i: int| 0 <= i < self.messages().len() implies user_bytes_ok(
                            #[trigger] self.messages()[i],
                        ) by {
                            if i < insertion_ix {
                                assert(self.messages()[i] == old(self).messages()[i]);
                            } else if i > insertion_ix {
                                assert(self.messages()[i] == old(self).messages()[i - 1]);
                            }
                        }
                    }
                } else {
                    self.push_message(compaction);
                }
            },
            CompactionInsertion::Manual { marker_id } => {
                let marker = ThreadMessage::User(UserMessage { id: marker_id, content: Vec::new() });
                proof {
                    assert(contents_bytes(Seq::<MessageContent>::empty()) == 0);
                }
                self.push_message(marker);
                self.push_message(compaction);
                proof {
                    assert(self.messages().take(old(self).messages().len() as int) =~= old(self).messages());
                }
            },
        }
    }
}

/// A summary inserted automatically is the latest compaction up to its
/// place.
pub proof fn lemma_inserted_compaction_is_latest(msgs: Seq<ThreadMessage>, ix: int, summary: String)
    requires
        0 <= ix <= msgs.len(),
    ensures
        last_compaction_before(
            msgs.insert(ix, ThreadMessage::Compaction(CompactionInfo::Summary(summary))),
            ix + 1,
        ) == Some(ix),
{
}

} // verus!
