use vstd::prelude::*;
use vstd::string::StringExecFns;
use crate::reply::{part_view, parts_view, PartView, PendingReply, ReplyPart};
use crate::text::str_eq;
use crate::turn::ToolCallStatus;

verus! {

/// The result recorded for a tool call that was cut off before it answered.
pub const TOOL_CANCELED_MESSAGE: &'static str = "Tool canceled by user";

/// One piece of what a tool answered to the model.
pub enum ToolResultPart {
    Text(String),
    /// An image, by its encoded source.
    Image(String),
}

/// A tool's answer as the thread keeps it: whether it failed, what the model
/// was told, and whether raw output for the user was kept.
pub struct RecordedToolResult {
    pub is_error: bool,
    pub content: Vec<ToolResultPart>,
    pub has_output: bool,
}

/// Whether a piece is the text `t`.
pub open spec fn is_text_part(p: ToolResultPart, t: Seq<char>) -> bool {
    p matches ToolResultPart::Text(s) && s@ == t
}

/// Whether a result is the one recorded for a canceled call: a failure
/// whose only piece is the cancel message.
pub open spec fn spec_is_canceled(r: RecordedToolResult) -> bool {
    r.is_error && r.content@.len() == 1 && is_text_part(r.content@[0], TOOL_CANCELED_MESSAGE@)
}

/// The result recorded for a call that never answered.
pub fn canceled_result() -> (r: RecordedToolResult)
    ensures
        spec_is_canceled(r),
        !r.has_output,
{
    let mut content: Vec<ToolResultPart> = Vec::new();
    content.push(ToolResultPart::Text(String::from_str(TOOL_CANCELED_MESSAGE)));
    RecordedToolResult { is_error: true, content, has_output: false }
}

/// Whether a result is the one recorded for a canceled call.
pub fn is_canceled_tool_result(r: &RecordedToolResult) -> (b: bool)
    ensures
        b == spec_is_canceled(*r),
{
    if !r.is_error || r.content.len() != 1 {
        return false;
    }
    match &r.content[0] {
        ToolResultPart::Text(t) => str_eq(t.as_str(), TOOL_CANCELED_MESSAGE),
        ToolResultPart::Image(_) => false,
    }
}

// ---- showing a recorded call again ----

/// What the user is shown of a result when a thread is reopened.
pub enum ReplayItem {
    Text(String),
    /// A PNG image, by its encoded source.
    Image(String),
}

pub open spec fn replay_item_view(i: ReplayItem) -> (bool, Seq<char>) {
    match i {
        ReplayItem::Text(t) => (true, t@),
        ReplayItem::Image(s) => (false, s@),
    }
}

/// The items shown for the pieces from `i` on: non-empty texts and images.
pub open spec fn replay_items(parts: Seq<ToolResultPart>) -> Seq<(bool, Seq<char>)>
    decreases parts.len(),
{
    if parts.len() == 0 {
        seq![]
    } else {
        replay_items(parts.drop_last()) + match parts.last() {
            ToolResultPart::Text(t) => if t@.len() == 0 {
                seq![]
            } else {
                seq![(true, t@)]
            },
            ToolResultPart::Image(s) => seq![(false, s@)],
        }
    }
}

pub open spec fn has_image(parts: Seq<ToolResultPart>) -> bool {
    exists|i: int| 0 <= i < parts.len() && (#[trigger] parts[i]) is Image
}

/// The content replayed for a result: none when it has no image and raw
/// output was kept (the output is shown instead) or when nothing is left to
/// show; else its non-empty texts and its images, in order.
pub open spec fn spec_replay_content(r: RecordedToolResult) -> Option<Seq<(bool, Seq<char>)>> {
    if !has_image(r.content@) && r.has_output {
        None
    } else if replay_items(r.content@).len() == 0 {
        None
    } else {
        Some(replay_items(r.content@))
    }
}

/// The content replayed for a result.
pub fn replay_content(r: &RecordedToolResult) -> (out: Option<Vec<ReplayItem>>)
    ensures
        match out {
            Some(items) => spec_replay_content(*r) == Some(
                items@.map_values(|i: ReplayItem| replay_item_view(i)),
            ),
            None => spec_replay_content(*r) is None,
        },
{
    let mut image = false;
    let mut k: usize = 0;
    while k < r.content.len()
        invariant
            k <= r.content@.len(),
            image == exists|i: int| 0 <= i < k && (#[trigger] r.content@[i]) is Image,
        decreases r.content@.len() - k,
    {
        if let ToolResultPart::Image(_) = &r.content[k] {
            image = true;
        }
        k = k + 1;
    }
    if !image && r.has_output {
        return None;
    }
    let mut items: Vec<ReplayItem> = Vec::new();
    let mut i: usize = 0;
    proof {
        assert(r.content@.take(0) =~= Seq::<ToolResultPart>::empty());
        assert(items@.map_values(|x: ReplayItem| replay_item_view(x)) =~= replay_items(r.content@.take(0)));
    }
    while i < r.content.len()
        invariant
            i <= r.content@.len(),
            items@.map_values(|x: ReplayItem| replay_item_view(x)) == replay_items(r.content@.take(i as int)),
        decreases r.content@.len() - i,
    {
        let ghost before = items@;
        proof {
            assert(r.content@.take(i + 1).drop_last() =~= r.content@.take(i as int));
            assert(r.content@.take(i + 1).last() == r.content@[i as int]);
        }
        match &r.content[i] {
            ToolResultPart::Text(t) => {
                if !t.as_str().is_empty() {
                    items.push(ReplayItem::Text(t.clone()));
                    proof {
                        assert(items@.map_values(|x: ReplayItem| replay_item_view(x)) =~= before.map_values(
                            |x: ReplayItem| replay_item_view(x),
                        ).push((true, t@)));
                    }
                } else {
                    proof {
                        assert(replay_items(r.content@.take(i + 1)) =~= replay_items(r.content@.take(i as int)));
                    }
                }
            },
            ToolResultPart::Image(s) => {
                items.push(ReplayItem::Image(s.clone()));
                proof {
                    assert(items@.map_values(|x: ReplayItem| replay_item_view(x)) =~= before.map_values(
                        |x: ReplayItem| replay_item_view(x),
                    ).push((false, s@)));
                }
            },
        }
        i = i + 1;
    }
    proof {
        assert(r.content@.take(r.content@.len() as int) =~= r.content@);
    }
    if items.len() == 0 {
        None
    } else {
        Some(items)
    }
}

/// How a recorded call is shown again.
pub enum ReplayPlan {
    /// Not at all: it was canceled before it answered.
    Skip,
    /// With this status and, if any, this content.
    Show { status: ToolCallStatus, content: Option<Vec<ReplayItem>> },
}

/// Decides how a recorded call is shown when the thread is reopened: a
/// canceled call is not shown; a call failed when it has no result or its
/// result is an error.
pub fn plan_replay(result: Option<&RecordedToolResult>) -> (p: ReplayPlan)
    ensures
        match result {
            Some(r) => if spec_is_canceled(*r) {
                p is Skip
            } else {
                p matches ReplayPlan::Show { status, content } && (status is Failed <==> r.is_error)
                    && match content {
                    Some(items) => spec_replay_content(*r) == Some(
                        items@.map_values(|i: ReplayItem| replay_item_view(i)),
                    ),
                    None => spec_replay_content(*r) is None,
                }
            },
            None => p matches ReplayPlan::Show { status, content } && status is Failed && content is None,
        },
{
    match result {
        None => ReplayPlan::Show { status: ToolCallStatus::Failed, content: None },
        Some(r) => {
            if is_canceled_tool_result(r) {
                return ReplayPlan::Skip;
            }
            let status = if r.is_error {
                ToolCallStatus::Failed
            } else {
                ToolCallStatus::Completed
            };
            ReplayPlan::Show { status, content: replay_content(r) }
        },
    }
}

// ---- closing a streamed reply ----

/// Whether the id `id` occurs among `ids`.
pub open spec fn id_in(ids: Seq<String>, id: Seq<char>) -> bool {
    exists|i: int| 0 <= i < ids.len() && (#[trigger] ids[i])@ == id
}

/// The calls of a reply that have no result, each once, in reply order: by
/// id and tool name.
pub open spec fn unanswered(parts: Seq<PartView>, answered: Seq<String>, seen: Seq<Seq<char>>) -> Seq<
    (Seq<char>, Seq<char>),
>
    decreases parts.len(),
{
    if parts.len() == 0 {
        seq![]
    } else {
        match parts[0] {
            PartView::ToolUse(t) => if !id_in(answered, t.id) && !seen.contains(t.id) {
                seq![(t.id, t.name)] + unanswered(parts.drop_first(), answered, seen.push(t.id))
            } else {
                unanswered(parts.drop_first(), answered, seen)
            },
            _ => unanswered(parts.drop_first(), answered, seen),
        }
    }
}

fn contains_id(ids: &Vec<String>, id: &str) -> (r: bool)
    ensures
        r == id_in(ids@, id@),
{
    let mut i: usize = 0;
    while i < ids.len()
        invariant
            i <= ids@.len(),
            forall|j: int| 0 <= j < i ==> (#[trigger] ids@[j])@ != id@,
        decreases ids@.len() - i,
    {
        if str_eq(ids[i].as_str(), id) {
            return true;
        }
        i = i + 1;
    }
    false
}

impl PendingReply {
    /// The calls of the reply that have no result among `answered` (by
    /// id), each once, in reply order; they are closed with
    /// `canceled_result` when the reply is filed.
    pub fn unanswered_calls(&self, answered: &Vec<String>) -> (r: Vec<(String, String)>)
        ensures
            r@.map_values(|c: (String, String)| (c.0@, c.1@)) == unanswered(
                parts_view(self.content@),
                answered@,
                seq![],
            ),
    {
        let ghost ps = parts_view(self.content@);
        let mut out: Vec<(String, String)> = Vec::new();
        let mut seen: Vec<String> = Vec::new();
        let mut i: usize = 0;
        proof {
            assert(seen@.map_values(|s: String| s@) =~= Seq::<Seq<char>>::empty());
            assert(ps.skip(0) =~= ps);
            assert(out@.map_values(|c: (String, String)| (c.0@, c.1@)) + unanswered(ps.skip(0), answered@, seq![])
                =~= unanswered(ps, answered@, seq![]));
        }
        while i < self.content.len()
            invariant
                i <= self.content@.len(),
                ps == parts_view(self.content@),
                out@.map_values(|c: (String, String)| (c.0@, c.1@)) + unanswered(
                    ps.skip(i as int),
                    answered@,
                    seen@.map_values(|s: String| s@),
                ) == unanswered(ps, answered@, seq![]),
            decreases self.content@.len() - i,
        {
            let ghost rest = ps.skip(i as int);
            let ghost before = out@;
            let ghost seen_before = seen@.map_values(|s: String| s@);
            proof {
                assert(rest.drop_first() =~= ps.skip(i + 1));
                assert(rest[0] == part_view(self.content@[i as int]));
            }
            if let ReplyPart::ToolUse(t) = &self.content[i] {
                if !contains_id(answered, t.id.as_str()) && !contains_id(&seen, t.id.as_str()) {
                    proof {
                        assert(id_in(seen@, t.id@) == seen_before.contains(t.id@)) by {
                            if seen_before.contains(t.id@) {
                                let j = choose|j: int| 0 <= j < seen_before.len() && seen_before[j] == t.id@;
                                assert(seen@[j]@ == t.id@);
                            }
                            if id_in(seen@, t.id@) {
                                let j = choose|j: int| 0 <= j < seen@.len() && (#[trigger] seen@[j])@ == t.id@;
                                assert(seen_before[j] == t.id@);
                            }
                        }
                    }
                    out.push((t.id.clone(), t.name.clone()));
                    seen.push(t.id.clone());
                    proof {
                        assert(seen@.map_values(|s: String| s@) =~= seen_before.push(t.id@));
                        assert(out@.map_values(|c: (String, String)| (c.0@, c.1@)) =~= before.map_values(
                            |c: (String, String)| (c.0@, c.1@),
                        ).push((t.id@, t.name@)));
                    }
                } else {
                    proof {
                        assert(id_in(seen@, t.id@) == seen_before.contains(t.id@)) by {
                            if seen_before.contains(t.id@) {
                                let j = choose|j: int| 0 <= j < seen_before.len() && seen_before[j] == t.id@;
                                assert(seen@[j]@ == t.id@);
                            }
                            if id_in(seen@, t.id@) {
                                let j = choose|j: int| 0 <= j < seen@.len() && (#[trigger] seen@[j])@ == t.id@;
                                assert(seen_before[j] == t.id@);
                            }
                        }
                    }
                }
            }
            i = i + 1;
        }
        proof {
            assert(ps.skip(self.content@.len() as int) =~= Seq::<PartView>::empty());
            assert(out@.map_values(|c: (String, String)| (c.0@, c.1@)) + unanswered(
                ps.skip(self.content@.len() as int),
                answered@,
                seen@.map_values(|s: String| s@),
            ) =~= out@.map_values(|c: (String, String)| (c.0@, c.1@)));
        }
        out
    }
}

/// The id of the call at a piece of a reply, if it is one.
pub open spec fn call_id(p: PartView) -> Option<Seq<char>> {
    match p {
        PartView::ToolUse(t) => Some(t.id),
        _ => None,
    }
}

/// Whether some entry of a list of calls has the id `id`.
pub open spec fn listed(calls: Seq<(Seq<char>, Seq<char>)>, id: Seq<char>) -> bool {
    exists|j: int| 0 <= j < calls.len() && (#[trigger] calls[j]).0 == id
}

proof fn lemma_calls_covered(parts: Seq<PartView>, answered: Seq<String>, seen: Seq<Seq<char>>)
    ensures
        forall|i: int|
            0 <= i < parts.len() && #[trigger] call_id(parts[i]) is Some ==> id_in(
                answered,
                call_id(parts[i])->0,
            ) || seen.contains(call_id(parts[i])->0) || listed(
                unanswered(parts, answered, seen),
                call_id(parts[i])->0,
            ),
    decreases parts.len(),
{
    if parts.len() > 0 {
        let rest = parts.drop_first();
        let u = unanswered(parts, answered, seen);
        match parts[0] {
            PartView::ToolUse(t) => {
                if !id_in(answered, t.id) && !seen.contains(t.id) {
                    let seen2 = seen.push(t.id);
                    lemma_calls_covered(rest, answered, seen2);
                    let u2 = unanswered(rest, answered, seen2);
                    assert(u == seq![(t.id, t.name)] + u2);
                    assert forall|i: int|
                        0 <= i < parts.len() && #[trigger] call_id(parts[i]) is Some implies id_in(
                            answered,
                            call_id(parts[i])->0,
                        ) || seen.contains(call_id(parts[i])->0) || listed(u, call_id(parts[i])->0) by {
                        let id = call_id(parts[i])->0;
                        if i == 0 {
                            assert(u[0].0 == id);
                        } else {
                            assert(parts[i] == rest[i - 1]);
                            if seen2.contains(id) && !seen.contains(id) {
                                let k = choose|k: int| 0 <= k < seen2.len() && seen2[k] == id;
                                if k < seen.len() {
                                    assert(seen[k] == id);
                                }
                                assert(id == t.id);
                                assert(u[0].0 == id);
                            } else if listed(u2, id) {
                                let j = choose|j: int| 0 <= j < u2.len() && (#[trigger] u2[j]).0 == id;
                                assert(u[j + 1] == u2[j]);
                            }
                        }
                    }
                } else {
                    lemma_calls_covered(rest, answered, seen);
                    assert forall|i: int|
                        0 <= i < parts.len() && #[trigger] call_id(parts[i]) is Some implies id_in(
                            answered,
                            call_id(parts[i])->0,
                        ) || seen.contains(call_id(parts[i])->0) || listed(u, call_id(parts[i])->0) by {
                        if i > 0 {
                            assert(parts[i] == rest[i - 1]);
                        }
                    }
                }
            },
            _ => {
                lemma_calls_covered(rest, answered, seen);
                assert forall|i: int|
                    0 <= i < parts.len() && #[trigger] call_id(parts[i]) is Some implies id_in(
                        answered,
                        call_id(parts[i])->0,
                    ) || seen.contains(call_id(parts[i])->0) || listed(u, call_id(parts[i])->0) by {
                    if i > 0 {
                        assert(parts[i] == rest[i - 1]);
                    }
                }
            },
        }
    }
}

/// Filing a reply leaves no tool call without a result: every call of the
/// reply either has a result already or is among the calls that
/// `unanswered_calls` lists to be closed as canceled.
pub proof fn lemma_every_call_gets_a_result(parts: Seq<PartView>, answered: Seq<String>)
    ensures
        forall|i: int|
            0 <= i < parts.len() && #[trigger] call_id(parts[i]) is Some ==> id_in(
                answered,
                call_id(parts[i])->0,
            ) || listed(unanswered(parts, answered, seq![]), call_id(parts[i])->0),
{
    lemma_calls_covered(parts, answered, seq![]);
}

} // verus!
