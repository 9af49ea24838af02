use vstd::prelude::*;
use vstd::string::StrSliceExecFns;
use vstd::string::StringExecFns;
use crate::text::{utf8_len, char_width, chars_of, byte_len};
use crate::text::{lemma_utf8_len_push, lemma_utf8_len_take_mono};

verus! {

/// Token counts reported for one completion request.
#[derive(Clone, Copy, Debug, PartialEq, Eq)]
pub struct TokenUsage {
    pub input_tokens: u64,
    pub output_tokens: u64,
    pub cache_creation_input_tokens: u64,
    pub cache_read_input_tokens: u64,
}

impl TokenUsage {
    /// A usage with every count at zero.
    pub fn zero() -> (u: Self)
        ensures
            u.input_tokens == 0,
            u.output_tokens == 0,
            u.cache_creation_input_tokens == 0,
            u.cache_read_input_tokens == 0,
    {
        TokenUsage {
            input_tokens: 0,
            output_tokens: 0,
            cache_creation_input_tokens: 0,
            cache_read_input_tokens: 0,
        }
    }
}

/// `a + b`, capped at `u64::MAX`.
pub open spec fn sat_add(a: nat, b: nat) -> nat {
    if a + b > u64::MAX { u64::MAX as nat } else { a + b }
}

/// The prompt-side token count of a usage: plain, cache-creation and cache-read
/// input tokens, capped at `u64::MAX`.
pub open spec fn spec_total_input_tokens(u: TokenUsage) -> nat {
    sat_add(
        sat_add(u.input_tokens as nat, u.cache_creation_input_tokens as nat),
        u.cache_read_input_tokens as nat,
    )
}

/// The input tokens of a request, cache tokens included (saturating).
pub fn total_input_tokens(usage: TokenUsage) -> (n: u64)
    ensures
        n == spec_total_input_tokens(usage),
{
    usage.input_tokens.saturating_add(usage.cache_creation_input_tokens).saturating_add(
        usage.cache_read_input_tokens,
    )
}

/// When automatic compaction starts, in tokens. A percentage threshold is
/// turned into `TokensUsed` by its caller.
#[derive(Clone, Copy, Debug, PartialEq, Eq)]
pub enum AutoCompactThreshold {
    /// Compact once this many tokens are in use.
    TokensUsed(u64),
    /// Compact once no more than this many tokens remain in the window.
    TokensRemaining(u64),
}

pub open spec fn spec_threshold_token_count(threshold: AutoCompactThreshold, max_token_count: nat) -> nat {
    match threshold {
        AutoCompactThreshold::TokensUsed(tokens) => tokens as nat,
        AutoCompactThreshold::TokensRemaining(tokens) => {
            let left: nat = if max_token_count >= tokens { (max_token_count - tokens) as nat } else { 0 };
            sat_add(left, 1)
        },
    }
}

/// The token count at which automatic compaction triggers for a window of
/// `max_token_count` tokens.
pub fn auto_compact_threshold_token_count(threshold: AutoCompactThreshold, max_token_count: u64) -> (n: u64)
    ensures
        n == spec_threshold_token_count(threshold, max_token_count as nat),
{
    match threshold {
        AutoCompactThreshold::TokensUsed(tokens) => tokens,
        AutoCompactThreshold::TokensRemaining(tokens) => max_token_count.saturating_sub(
            tokens,
        ).saturating_add(1),
    }
}

/// Who a request message is from.
#[derive(Clone, Copy, Debug, PartialEq, Eq)]
pub enum Role {
    User,
    Assistant,
    System,
}

/// One piece of a request message.
#[derive(Clone, Debug, PartialEq, Eq)]
pub enum MessageContent {
    Text(String),
    /// An image, by its encoded source.
    Image(String),
    Thinking(String),
    RedactedThinking(String),
    ToolUse(String),
    ToolResult(String),
}

/// The mathematical content of a `MessageContent`.
pub enum ContentView {
    Text(Seq<char>),
    Image(Seq<char>),
    Thinking(Seq<char>),
    RedactedThinking(Seq<char>),
    ToolUse(Seq<char>),
    ToolResult(Seq<char>),
}

impl View for MessageContent {
    type V = ContentView;

    open spec fn view(&self) -> ContentView {
        match self {
            MessageContent::Text(t) => ContentView::Text(t@),
            MessageContent::Image(s) => ContentView::Image(s@),
            MessageContent::Thinking(s) => ContentView::Thinking(s@),
            MessageContent::RedactedThinking(s) => ContentView::RedactedThinking(s@),
            MessageContent::ToolUse(s) => ContentView::ToolUse(s@),
            MessageContent::ToolResult(s) => ContentView::ToolResult(s@),
        }
    }
}

/// The views of a content list.
pub open spec fn views(items: Seq<MessageContent>) -> Seq<ContentView> {
    items.map_values(|c: MessageContent| c@)
}

/// A copy of a content piece.
pub fn clone_content(c: &MessageContent) -> (r: MessageContent)
    ensures
        r@ == c@,
{
    match c {
        MessageContent::Text(t) => MessageContent::Text(t.clone()),
        MessageContent::Image(s) => MessageContent::Image(s.clone()),
        MessageContent::Thinking(s) => MessageContent::Thinking(s.clone()),
        MessageContent::RedactedThinking(s) => MessageContent::RedactedThinking(s.clone()),
        MessageContent::ToolUse(s) => MessageContent::ToolUse(s.clone()),
        MessageContent::ToolResult(s) => MessageContent::ToolResult(s.clone()),
    }
}

/// A copy of a content list.
pub fn clone_contents(items: &Vec<MessageContent>) -> (r: Vec<MessageContent>)
    ensures
        views(r@) == views(items@),
        forall|i: int| 0 <= i < items@.len() ==> #[trigger] r@[i]@ == items@[i]@,
        r@.len() == items@.len(),
{
    let mut r: Vec<MessageContent> = Vec::new();
    let mut i: usize = 0;
    while i < items.len()
        invariant
            i <= items@.len(),
            r@.len() == i,
            forall|j: int| 0 <= j < i ==> #[trigger] r@[j]@ == items@[j]@,
        decreases items@.len() - i,
    {
        r.push(clone_content(&items[i]));
        i = i + 1;
    }
    proof {
        assert(views(r@) =~= views(items@));
    }
    r
}

/// A message sent to the language model.
#[derive(Clone, Debug, PartialEq, Eq)]
pub struct RequestMessage {
    pub role: Role,
    pub content: Vec<MessageContent>,
    pub cache: bool,
}

/// Bytes that one piece of a user message counts for: its text or image
/// source; other kinds never occur in user messages and count nothing.
pub open spec fn content_bytes(c: MessageContent) -> nat {
    match c {
        MessageContent::Text(t) => utf8_len(t@),
        MessageContent::Image(src) => utf8_len(src@),
        _ => 0,
    }
}

/// Bytes of a whole content list.
pub open spec fn contents_bytes(items: Seq<MessageContent>) -> nat
    decreases items.len(),
{
    if items.len() == 0 {
        0
    } else {
        contents_bytes(items.drop_last()) + content_bytes(items.last())
    }
}

/// Byte length of a user message's text and images.
pub fn user_message_byte_len(message: &RequestMessage) -> (n: usize)
    requires
        contents_bytes(message.content@) <= usize::MAX,
    ensures
        n == contents_bytes(message.content@),
{
    let mut total: usize = 0;
    let mut i: usize = 0;
    while i < message.content.len()
        invariant
            i <= message.content@.len(),
            total == contents_bytes(message.content@.take(i as int)),
            contents_bytes(message.content@) <= usize::MAX,
        decreases message.content@.len() - i,
    {
        proof {
            lemma_contents_bytes_take_mono(message.content@, i as int + 1, message.content@.len() as int);
            assert(message.content@.take(i as int + 1).drop_last() =~= message.content@.take(i as int));
            assert(message.content@.take(message.content@.len() as int) =~= message.content@);
        }
        let n = match &message.content[i] {
            MessageContent::Text(t) => byte_len(t.as_str()),
            MessageContent::Image(src) => byte_len(src.as_str()),
            _ => 0,
        };
        total = total + n;
        i = i + 1;
    }
    proof {
        assert(message.content@.take(i as int) =~= message.content@);
    }
    total
}

pub proof fn lemma_contents_bytes_take_mono(items: Seq<MessageContent>, i: int, j: int)
    requires
        0 <= i <= j <= items.len(),
    ensures
        contents_bytes(items.take(i)) <= contents_bytes(items.take(j)),
    decreases j - i,
{
    if i < j {
        lemma_contents_bytes_take_mono(items, i, j - 1);
        assert(items.take(j).drop_last() =~= items.take(j - 1));
    }
}

/// The largest number of leading characters of `s` whose encoding fits in
/// `budget` bytes.
pub open spec fn fit_len(s: Seq<char>, budget: nat) -> nat
    decreases s.len(),
{
    if s.len() == 0 {
        0
    } else if utf8_len(s) <= budget {
        s.len()
    } else {
        fit_len(s.drop_last(), budget)
    }
}

pub proof fn lemma_fit_len(s: Seq<char>, budget: nat)
    ensures
        fit_len(s, budget) <= s.len(),
        utf8_len(s.take(fit_len(s, budget) as int)) <= budget,
        fit_len(s, budget) < s.len() ==> utf8_len(s.take(fit_len(s, budget) as int + 1)) > budget,
    decreases s.len(),
{
    if s.len() == 0 {
        assert(s.take(0).len() == 0);
    } else if utf8_len(s) <= budget {
        assert(s.take(s.len() as int) =~= s);
    } else {
        lemma_fit_len(s.drop_last(), budget);
        let k = fit_len(s.drop_last(), budget);
        assert(s.drop_last().take(k as int) =~= s.take(k as int));
        if k < s.drop_last().len() {
            assert(s.drop_last().take(k as int + 1) =~= s.take(k as int + 1));
        } else {
            assert(s.take(k as int + 1) =~= s);
        }
    }
}

/// What `take_text_within_byte_budget` keeps of `text` with `budget` bytes left.
pub open spec fn spec_take_text(text: Seq<char>, budget: nat) -> Option<Seq<char>> {
    if text.len() == 0 || budget == 0 {
        None
    } else if utf8_len(text) <= budget {
        Some(text)
    } else if fit_len(text, budget) == 0 {
        None
    } else {
        Some(text.take(fit_len(text, budget) as int))
    }
}

/// The budget left after `take_text_within_byte_budget`.
pub open spec fn spec_budget_after_text(text: Seq<char>, budget: nat) -> nat {
    if text.len() == 0 || budget == 0 {
        budget
    } else if utf8_len(text) <= budget {
        (budget - utf8_len(text)) as nat
    } else {
        0
    }
}

/// Number of leading characters of `chars` that fit in `budget` bytes.
fn fitting_char_count(chars: &Vec<char>, budget: usize) -> (k: usize)
    ensures
        k == fit_len(chars@, budget as nat),
{
    let mut used: usize = 0;
    let mut k: usize = 0;
    proof {
        lemma_fit_len(chars@, budget as nat);
    }
    while k < chars.len()
        invariant
            k <= chars@.len(),
            used == utf8_len(chars@.take(k as int)),
            used <= budget,
            k <= fit_len(chars@, budget as nat),
            fit_len(chars@, budget as nat) <= chars@.len(),
            utf8_len(chars@.take(fit_len(chars@, budget as nat) as int)) <= budget,
            fit_len(chars@, budget as nat) < chars@.len() ==> utf8_len(
                chars@.take(fit_len(chars@, budget as nat) as int + 1),
            ) > budget,
        decreases chars@.len() - k,
    {
        let w = char_width(chars[k]);
        proof {
            assert(chars@.take(k as int + 1) =~= chars@.take(k as int).push(chars@[k as int]));
            lemma_utf8_len_push(chars@.take(k as int), chars@[k as int]);
        }
        if w > budget - used {
            proof {
                let f = fit_len(chars@, budget as nat);
                if f > k {
                    lemma_utf8_len_take_mono(chars@, k as int + 1, f as int);
                }
            }
            return k;
        }
        used = used + w;
        k = k + 1;
        proof {
            let f = fit_len(chars@, budget as nat);
            if k > f {
                assert(k == f + 1);
            }
        }
    }
    k
}

/// Takes as much of `text` as fits in `remaining_bytes`, cutting at a
/// character boundary, and lowers the budget by what was taken; a cut text
/// uses up the budget.
pub fn take_text_within_byte_budget(text: String, remaining_bytes: &mut usize) -> (r: Option<String>)
    ensures
        match (r, spec_take_text(text@, *old(remaining_bytes) as nat)) {
            (Some(t), Some(s)) => t@ == s,
            (None, None) => true,
            _ => false,
        },
        *final(remaining_bytes) == spec_budget_after_text(text@, *old(remaining_bytes) as nat),
{
    let n = text.as_str().unicode_len();
    if n == 0 || *remaining_bytes == 0 {
        return None;
    }
    let len = byte_len(text.as_str());
    if len <= *remaining_bytes {
        *remaining_bytes = *remaining_bytes - len;
        return Some(text);
    }
    let chars = chars_of(text.as_str());
    let k = fitting_char_count(&chars, *remaining_bytes);
    proof {
        lemma_fit_len(text@, *remaining_bytes as nat);
    }
    *remaining_bytes = 0;
    if k == 0 {
        return None;
    }
    let prefix = text.as_str().substring_char(0, k);
    Some(String::from_str(prefix))
}

/// What survives of a user message's content when cut to `budget` bytes:
/// texts and images are kept while they fit, the first text that does not
/// fit is cut at a character boundary and ends the message, an image that
/// does not fit ends it, and kinds that never occur in user messages drop out.
pub open spec fn spec_truncate_contents(items: Seq<MessageContent>, budget: nat) -> Seq<ContentView>
    decreases items.len(),
{
    if items.len() == 0 {
        seq![]
    } else {
        let rest = items.drop_first();
        match items[0] {
            MessageContent::Text(t) => {
                let head: Seq<ContentView> = match spec_take_text(t@, budget) {
                    Some(p) => seq![ContentView::Text(p)],
                    None => seq![],
                };
                if utf8_len(t@) <= budget {
                    head + spec_truncate_contents(rest, spec_budget_after_text(t@, budget))
                } else {
                    head
                }
            },
            MessageContent::Image(src) => {
                if utf8_len(src@) <= budget {
                    seq![ContentView::Image(src@)] + spec_truncate_contents(
                        rest,
                        (budget - utf8_len(src@)) as nat,
                    )
                } else {
                    seq![]
                }
            },
            _ => spec_truncate_contents(rest, budget),
        }
    }
}

/// Cuts a user message down to `byte_budget` bytes of text and images;
/// `None` when nothing survives.
pub fn truncate_user_message_to_byte_budget(message: RequestMessage, byte_budget: usize) -> (r: Option<RequestMessage>)
    ensures
        match r {
            Some(m) => {
                &&& views(m.content@) == spec_truncate_contents(message.content@, byte_budget as nat)
                &&& spec_truncate_contents(message.content@, byte_budget as nat).len() > 0
                &&& m.role == message.role
                &&& m.cache == message.cache
            },
            None => spec_truncate_contents(message.content@, byte_budget as nat).len() == 0,
        },
{
    let ghost items = message.content@;
    let mut remaining: usize = byte_budget;
    let mut content: Vec<MessageContent> = Vec::new();
    let mut i: usize = 0;
    let mut done = false;
    proof {
        assert(items.skip(0) =~= items);
        assert(views(content@) =~= Seq::<ContentView>::empty());
        assert(views(content@) + spec_truncate_contents(items, byte_budget as nat)
            =~= spec_truncate_contents(items, byte_budget as nat));
    }
    while i < message.content.len() && !done
        invariant
            items == message.content@,
            i <= items.len(),
            !done ==> spec_truncate_contents(items, byte_budget as nat) == views(content@)
                + spec_truncate_contents(items.skip(i as int), remaining as nat),
            done ==> spec_truncate_contents(items, byte_budget as nat) == views(content@),
        decreases items.len() - i, (if done { 0int } else { 1int }),
    {
        let ghost before = content@;
        proof {
            assert(items.skip(i as int)[0] == items[i as int]);
            assert(items.skip(i as int).drop_first() =~= items.skip(i as int + 1));
        }
        match &message.content[i] {
            MessageContent::Text(t) => {
                let fits = byte_len(t.as_str()) <= remaining;
                let ghost r0 = remaining as nat;
                let taken = take_text_within_byte_budget(t.clone(), &mut remaining);
                match taken {
                    Some(p) => {
                        content.push(MessageContent::Text(p));
                    },
                    None => {},
                }
                proof {
                    assert(views(content@) =~= views(before) + match spec_take_text(t@, r0) {
                        Some(p) => seq![ContentView::Text(p)],
                        None => Seq::<ContentView>::empty(),
                    });
                }
                if !fits {
                    done = true;
                }
            },
            MessageContent::Image(src) => {
                let n = byte_len(src.as_str());
                if n <= remaining {
                    remaining = remaining - n;
                    content.push(MessageContent::Image(src.clone()));
                    proof {
                        assert(views(content@) =~= views(before) + seq![ContentView::Image(src@)]);
                    }
                } else {
                    done = true;
                }
            },
            _ => {},
        }
        i = i + 1;
        proof {
            if !done {
                assert(views(content@) + spec_truncate_contents(items.skip(i as int), remaining as nat)
                    =~= views(content@) + spec_truncate_contents(items.skip(i as int), remaining as nat));
            }
        }
    }
    proof {
        if !done {
            assert(items.skip(i as int).len() == 0);
            assert(views(content@) + Seq::<ContentView>::empty() =~= views(content@));
        }
    }
    if content.len() == 0 {
        None
    } else {
        Some(RequestMessage { role: message.role, content, cache: message.cache })
    }
}

/// Bytes of text and image content in a list of content views.
pub open spec fn view_bytes(items: Seq<ContentView>) -> nat
    decreases items.len(),
{
    if items.len() == 0 {
        0
    } else {
        let head: nat = match items[0] {
            ContentView::Text(t) => utf8_len(t),
            ContentView::Image(s) => utf8_len(s),
            _ => 0,
        };
        head + view_bytes(items.drop_first())
    }
}

/// What `take_text_within_byte_budget` keeps, plus what it leaves in the
/// budget, never exceeds the budget it was given.
pub proof fn lemma_take_text_within_budget(text: Seq<char>, budget: nat)
    ensures
        match spec_take_text(text, budget) {
            Some(p) => utf8_len(p) + spec_budget_after_text(text, budget) <= budget && p.len() > 0,
            None => spec_budget_after_text(text, budget) <= budget,
        },
{
    lemma_fit_len(text, budget);
}

/// A user message cut to a byte budget holds at most that many bytes of
/// text and images.
pub proof fn lemma_truncated_fits_budget(items: Seq<MessageContent>, budget: nat)
    ensures
        view_bytes(spec_truncate_contents(items, budget)) <= budget,
    decreases items.len(),
{
    if items.len() > 0 {
        let rest = items.drop_first();
        match items[0] {
            MessageContent::Text(t) => {
                lemma_take_text_within_budget(t@, budget);
                let after = spec_budget_after_text(t@, budget);
                lemma_truncated_fits_budget(rest, after);
                let head: Seq<ContentView> = match spec_take_text(t@, budget) {
                    Some(p) => seq![ContentView::Text(p)],
                    None => seq![],
                };
                lemma_view_bytes_concat(head, spec_truncate_contents(rest, after));
                match spec_take_text(t@, budget) {
                    Some(p) => {
                        assert(head.drop_first() =~= Seq::<ContentView>::empty());
                        assert(head[0] == ContentView::Text(p));
                        assert(view_bytes(head.drop_first()) == 0);
                        assert(view_bytes(head) == utf8_len(p));
                    },
                    None => {
                        assert(view_bytes(head) == 0);
                    },
                }
                if utf8_len(t@) > budget {
                    assert(spec_truncate_contents(items, budget) == head);
                } else {
                    assert(spec_truncate_contents(items, budget) == head + spec_truncate_contents(rest, after));
                }
            },
            MessageContent::Image(src) => {
                if utf8_len(src@) <= budget {
                    let after = (budget - utf8_len(src@)) as nat;
                    lemma_truncated_fits_budget(rest, after);
                    let head = seq![ContentView::Image(src@)];
                    lemma_view_bytes_concat(head, spec_truncate_contents(rest, after));
                    assert(head.drop_first() =~= Seq::<ContentView>::empty());
                    assert(view_bytes(head.drop_first()) == 0);
                    assert(spec_truncate_contents(items, budget) == head + spec_truncate_contents(rest, after));
                } else {
                    assert(spec_truncate_contents(items, budget) == Seq::<ContentView>::empty());
                    assert(view_bytes(Seq::<ContentView>::empty()) == 0);
                }
            },
            _ => {
                lemma_truncated_fits_budget(rest, budget);
            },
        }
    }
}

pub proof fn lemma_view_bytes_concat(a: Seq<ContentView>, b: Seq<ContentView>)
    ensures
        view_bytes(a + b) == view_bytes(a) + view_bytes(b),
    decreases a.len(),
{
    if a.len() == 0 {
        assert(a + b =~= b);
    } else {
        lemma_view_bytes_concat(a.drop_first(), b);
        assert((a + b).drop_first() =~= a.drop_first() + b);
        assert((a + b)[0] == a[0]);
    }
}

/// Content lists with the same views count the same bytes.
pub proof fn lemma_same_views_bytes(a: Seq<MessageContent>, b: Seq<MessageContent>)
    requires
        a.len() == b.len(),
        forall|i: int| 0 <= i < a.len() ==> #[trigger] a[i]@ == b[i]@,
    ensures
        contents_bytes(a) == contents_bytes(b),
    decreases a.len(),
{
    if a.len() > 0 {
        lemma_same_views_bytes(a.drop_last(), b.drop_last());
        assert(a.last()@ == b.last()@);
    }
}

/// Content lists with the same views are cut the same way.
pub proof fn lemma_same_views_truncate(a: Seq<MessageContent>, b: Seq<MessageContent>, budget: nat)
    requires
        a.len() == b.len(),
        forall|i: int| 0 <= i < a.len() ==> #[trigger] a[i]@ == b[i]@,
    ensures
        spec_truncate_contents(a, budget) == spec_truncate_contents(b, budget),
    decreases a.len(),
{
    if a.len() > 0 {
        assert(a[0]@ == b[0]@);
        assert forall|i: int| 0 <= i < a.drop_first().len() implies #[trigger] a.drop_first()[i]@
            == b.drop_first()[i]@ by {
            assert(a[i + 1]@ == b[i + 1]@);
        }
        match a[0] {
            MessageContent::Text(t) => {
                lemma_same_views_truncate(a.drop_first(), b.drop_first(), spec_budget_after_text(t@, budget));
            },
            MessageContent::Image(src) => {
                if utf8_len(src@) <= budget {
                    lemma_same_views_truncate(a.drop_first(), b.drop_first(), (budget - utf8_len(src@)) as nat);
                }
            },
            _ => {
                lemma_same_views_truncate(a.drop_first(), b.drop_first(), budget);
            },
        }
    }
}

} // verus!
