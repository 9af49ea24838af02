use vstd::prelude::*;
use vstd::string::StringExecFns;
use crate::text::{
    chars_of, contains_seq, join_strings, spec_join, str_contains, str_eq, string_from_chars,
    string_views,
};

verus! {

// ---- the plan a turn announces ----

/// How far a plan step has come.
pub enum PlanStepStatus {
    Pending,
    Completed,
    Failed(String),
}

/// One step of a plan: a tool call the model asked for.
pub struct PlanStep {
    pub description: String,
    pub tool_name: Option<String>,
    pub status: PlanStepStatus,
}

/// The plan announced for a turn: a goal and the steps in order.
pub struct AgentPlan {
    pub goal: String,
    pub steps: Vec<PlanStep>,
}

/// One piece of a reply of the model.
pub enum AgentContent {
    Text(String),
    Thinking(String),
    RedactedThinking(String),
    /// A call of a tool: the call's id and the tool's name.
    ToolUse { id: String, name: String },
}

/// The longest goal taken from the model's thinking, in characters.
pub const PLAN_GOAL_CHARS: usize = 200;

/// The first thinking text from `i` on.
pub open spec fn first_thinking(content: Seq<AgentContent>, i: int) -> Option<Seq<char>>
    decreases content.len() - i,
{
    if i < 0 || i >= content.len() {
        None
    } else {
        match content[i] {
            AgentContent::Thinking(t) => Some(t@),
            _ => first_thinking(content, i + 1),
        }
    }
}

/// The goal of a plan: the first thinking text, cut to 200 characters, or
/// nothing.
pub open spec fn spec_plan_goal(content: Seq<AgentContent>) -> Seq<char> {
    match first_thinking(content, 0) {
        Some(t) => if t.len() <= PLAN_GOAL_CHARS { t } else { t.take(PLAN_GOAL_CHARS as int) },
        None => seq![],
    }
}

/// The names of the tools called, in order.
pub open spec fn tool_calls(content: Seq<AgentContent>) -> Seq<Seq<char>>
    decreases content.len(),
{
    if content.len() == 0 {
        seq![]
    } else {
        tool_calls(content.drop_last()) + match content.last() {
            AgentContent::ToolUse { name, .. } => seq![name@],
            _ => seq![],
        }
    }
}

/// Whether a step is the pending step for a call of `name`.
pub open spec fn is_pending_step(s: PlanStep, name: Seq<char>) -> bool {
    &&& s.description@ == name
    &&& s.tool_name matches Some(t) && t@ == name
    &&& s.status is Pending
}

/// The plan for the first round of tool calls: none without tool calls;
/// else one pending step per call, in order, under the goal read from the
/// model's thinking.
pub fn plan_from_reply(content: &Vec<AgentContent>) -> (r: Option<AgentPlan>)
    ensures
        tool_calls(content@).len() == 0 ==> r is None,
        tool_calls(content@).len() > 0 ==> (r matches Some(p) && p.goal@ == spec_plan_goal(content@)
            && p.steps@.len() == tool_calls(content@).len() && forall|i: int|
            0 <= i < p.steps@.len() ==> is_pending_step(#[trigger] p.steps@[i], tool_calls(content@)[i])),
{
    let mut steps: Vec<PlanStep> = Vec::new();
    let mut goal: Option<String> = None;
    let mut i: usize = 0;
    while i < content.len()
        invariant
            i <= content@.len(),
            steps@.len() == tool_calls(content@.take(i as int)).len(),
            forall|k: int|
                0 <= k < steps@.len() ==> is_pending_step(#[trigger] steps@[k], tool_calls(content@.take(i as int))[k]),
            match goal {
                Some(g) => first_thinking(content@, 0) is Some && g@ == spec_plan_goal(content@),
                None => first_thinking(content@, 0) == first_thinking(content@, i as int),
            },
        decreases content@.len() - i,
    {
        proof {
            assert(content@.take(i + 1).drop_last() =~= content@.take(i as int));
        }
        match &content[i] {
            AgentContent::ToolUse { name, .. } => {
                steps.push(
                    PlanStep {
                        description: name.clone(),
                        tool_name: Some(name.clone()),
                        status: PlanStepStatus::Pending,
                    },
                );
            },
            AgentContent::Thinking(t) => {
                if goal.is_none() {
                    let chars = chars_of(t.as_str());
                    let cut = if chars.len() <= PLAN_GOAL_CHARS {
                        chars.len()
                    } else {
                        PLAN_GOAL_CHARS
                    };
                    let prefix = crate::text::copy_range(&chars, 0, cut);
                    proof {
                        if chars@.len() <= PLAN_GOAL_CHARS {
                            assert(prefix@ =~= t@);
                        } else {
                            assert(prefix@ =~= t@.take(PLAN_GOAL_CHARS as int));
                        }
                    }
                    goal = Some(string_from_chars(&prefix));
                }
            },
            _ => {},
        }
        i = i + 1;
    }
    proof {
        assert(content@.take(content@.len() as int) =~= content@);
    }
    if steps.len() == 0 {
        return None;
    }
    let goal = match goal {
        Some(g) => g,
        None => String::new(),
    };
    Some(AgentPlan { goal, steps })
}

// ---- what a finished tool call changes ----

/// Tools whose success means files were changed.
pub open spec fn modification_tools() -> Seq<Seq<char>> {
    seq![
        "write_file"@,
        "edit_file"@,
        "create_directory"@,
        "delete_path"@,
        "move_path"@,
        "copy_path"@,
        "rename_symbol"@,
        "apply_code_action"@,
    ]
}

/// Whether `name` is a tool that changes files.
pub fn is_modification_tool(name: &str) -> (r: bool)
    ensures
        r == modification_tools().contains(name@),
{
    let tools: [&str; 8] = [
        "write_file",
        "edit_file",
        "create_directory",
        "delete_path",
        "move_path",
        "copy_path",
        "rename_symbol",
        "apply_code_action",
    ];
    let mut i: usize = 0;
    while i < 8
        invariant
            i <= 8,
            forall|k: int| 0 <= k < 8 ==> (#[trigger] tools@[k])@ == modification_tools()[k],
            forall|k: int| 0 <= k < i ==> modification_tools()[k] != name@,
        decreases 8 - i,
    {
        if str_eq(tools[i], name) {
            proof {
                assert(modification_tools()[i as int] == name@);
            }
            return true;
        }
        i = i + 1;
    }
    false
}

/// What `str::to_lowercase` makes of a string.
pub uninterp spec fn lowercase_of(s: Seq<char>) -> Seq<char>;

/// Lower-cases a string with std's `str::to_lowercase` (Unicode's
/// lowercase mapping). The contract only names the result.
#[verifier::external_body]
fn to_lowercase(s: &str) -> (r: String)
    ensures
        r@ == lowercase_of(s@),
{
    s.to_lowercase()
}

/// Words that give away a failure in output that reports success.
pub open spec fn failure_words() -> Seq<Seq<char>> {
    seq!["failed"@, "error"@, "timed out"@, "denied"@, "not found"@]
}

/// Whether a successful result hides a failure: its output is not empty and,
/// lower-cased, contains one of the failure words.
pub open spec fn spec_hidden_failure(is_error: bool, output: Seq<char>) -> bool {
    !is_error && output.len() > 0 && exists|k: int|
        0 <= k < 5 && contains_seq(lowercase_of(output), #[trigger] failure_words()[k])
}

/// Whether a successful result hides a failure.
pub fn has_hidden_failure(is_error: bool, output: &str) -> (r: bool)
    ensures
        r == spec_hidden_failure(is_error, output@),
{
    if is_error || output.is_empty() {
        return false;
    }
    let lower = to_lowercase(output);
    let words: [&str; 5] = ["failed", "error", "timed out", "denied", "not found"];
    let mut i: usize = 0;
    while i < 5
        invariant
            i <= 5,
            !is_error,
            output@.len() > 0,
            lower@ == lowercase_of(output@),
            forall|k: int| 0 <= k < 5 ==> (#[trigger] words@[k])@ == failure_words()[k],
            forall|k: int| 0 <= k < i ==> !contains_seq(lowercase_of(output@), #[trigger] failure_words()[k]),
        decreases 5 - i,
    {
        if str_contains(lower.as_str(), words[i]) {
            proof {
                assert(contains_seq(lowercase_of(output@), failure_words()[i as int]));
            }
            return true;
        }
        i = i + 1;
    }
    false
}

/// The status shown for a finished tool call.
pub enum ToolCallStatus {
    Completed,
    Failed,
}

/// The state of a running turn that tool results update.
pub struct RunningTurn {
    pub has_modifications: bool,
    pub gate_triggered: bool,
    pub plan: Option<AgentPlan>,
    pub pending_verification: Vec<String>,
}

/// The status of a plan step after a call of its tool: failed, with the
/// reason, or completed.
pub open spec fn step_status_after(name: Seq<char>, is_error: bool, hidden: bool) -> Option<Seq<char>> {
    if is_error {
        Some("Tool "@ + name + " failed"@)
    } else if hidden {
        Some("Tool "@ + name + " returned suspicious output"@)
    } else {
        None
    }
}

/// Whether a step's status says what `step_status_after` says.
pub open spec fn has_status(s: PlanStepStatus, failure: Option<Seq<char>>) -> bool {
    match failure {
        Some(reason) => s matches PlanStepStatus::Failed(r) && r@ == reason,
        None => s is Completed,
    }
}

/// Whether a step is for the tool `name`.
pub open spec fn step_is_for(s: PlanStep, name: Seq<char>) -> bool {
    s.tool_name matches Some(t) && t@ == name
}

fn status_for(name: &str, is_error: bool, hidden: bool) -> (r: PlanStepStatus)
    ensures
        has_status(r, step_status_after(name@, is_error, hidden)),
{
    if is_error {
        let mut m = String::from_str("Tool ");
        m.append(name);
        m.append(" failed");
        PlanStepStatus::Failed(m)
    } else if hidden {
        let mut m = String::from_str("Tool ");
        m.append(name);
        m.append(" returned suspicious output");
        PlanStepStatus::Failed(m)
    } else {
        PlanStepStatus::Completed
    }
}

impl RunningTurn {
    /// A turn that has changed nothing yet.
    pub fn new() -> (r: Self)
        ensures
            !r.has_modifications,
            !r.gate_triggered,
            r.plan is None,
            r.pending_verification@.len() == 0,
    {
        RunningTurn {
            has_modifications: false,
            gate_triggered: false,
            plan: None,
            pending_verification: Vec::new(),
        }
    }

    /// Takes in a finished tool call: notes changed files, updates the plan
    /// steps for the tool, and queues a failed or suspicious tool for
    /// verification. Returns the status to show for the call.
    pub fn record_tool_result(&mut self, tool_name: &str, is_error: bool, output: &str) -> (r:
        ToolCallStatus)
        ensures
            ({
                let failed = is_error || spec_hidden_failure(is_error, output@);
                &&& (r is Failed) == failed
                &&& final(self).has_modifications == (old(self).has_modifications
                    || modification_tools().contains(tool_name@))
                &&& final(self).gate_triggered == old(self).gate_triggered
                &&& string_views(final(self).pending_verification@) == if failed {
                    string_views(old(self).pending_verification@).push(tool_name@)
                } else {
                    string_views(old(self).pending_verification@)
                }
                &&& match old(self).plan {
                    None => final(self).plan is None,
                    Some(p0) => (final(self).plan matches Some(p1) && {
                    &&& p1.goal == p0.goal
                    &&& p1.steps@.len() == p0.steps@.len()
                    &&& forall|i: int|
                        0 <= i < p0.steps@.len() ==> {
                            let s0 = #[trigger] p0.steps@[i];
                            let s1 = p1.steps@[i];
                            &&& s1.description == s0.description
                            &&& s1.tool_name == s0.tool_name
                            &&& if step_is_for(s0, tool_name@) {
                                has_status(
                                    s1.status,
                                    step_status_after(
                                        tool_name@,
                                        is_error,
                                        spec_hidden_failure(is_error, output@),
                                    ),
                                )
                            } else {
                                s1.status == s0.status
                            }
                        }
                    }),
                }
            }),
    {
        let hidden = has_hidden_failure(is_error, output);
        let failed = is_error || hidden;
        if is_modification_tool(tool_name) {
            self.has_modifications = true;
        }
        let plan = self.plan.take();
        match plan {
            Some(p) => {
                let goal = p.goal;
                let old_steps = p.steps;
                let mut steps: Vec<PlanStep> = Vec::new();
                let mut i: usize = 0;
                while i < old_steps.len()
                    invariant
                        i <= old_steps@.len(),
                        steps@.len() == i,
                        forall|k: int|
                            0 <= k < i ==> {
                                let s0 = #[trigger] old_steps@[k];
                                let s1 = steps@[k];
                                &&& s1.description == s0.description
                                &&& s1.tool_name == s0.tool_name
                                &&& if step_is_for(s0, tool_name@) {
                                    has_status(s1.status, step_status_after(tool_name@, is_error, hidden))
                                } else {
                                    s1.status == s0.status
                                }
                            },
                    decreases old_steps@.len() - i,
                {
                    let s = &old_steps[i];
                    let matches = match &s.tool_name {
                        Some(t) => str_eq(t.as_str(), tool_name),
                        None => false,
                    };
                    let status = if matches {
                        status_for(tool_name, is_error, hidden)
                    } else {
                        copy_status(&s.status)
                    };
                    steps.push(
                        PlanStep {
                            description: s.description.clone(),
                            tool_name: copy_name(&s.tool_name),
                            status,
                        },
                    );
                    i = i + 1;
                }
                self.plan = Some(AgentPlan { goal, steps });
            },
            None => {},
        }
        if failed {
            let ghost before = self.pending_verification@;
            self.pending_verification.push(String::from_str(tool_name));
            proof {
                assert(string_views(self.pending_verification@) =~= string_views(before).push(
                    tool_name@,
                ));
            }
        }
        if failed {
            ToolCallStatus::Failed
        } else {
            ToolCallStatus::Completed
        }
    }

    /// The note injected before the next request when tools failed: it names
    /// them, and the list is cleared. Nothing when no tool failed.
    pub fn take_verification_context(&mut self) -> (r: Option<String>)
        ensures
            final(self).has_modifications == old(self).has_modifications,
            final(self).gate_triggered == old(self).gate_triggered,
            final(self).pending_verification@.len() == 0,
            old(self).pending_verification@.len() == 0 ==> r is None,
            old(self).pending_verification@.len() > 0 ==> (r matches Some(m) && m@
                == "[System] The following tools reported failures: "@ + spec_join(
                string_views(old(self).pending_verification@),
                ", "@,
            ) + ". Their output may contain errors. Verify and retry if needed."@),
    {
        if self.pending_verification.len() == 0 {
            return None;
        }
        let mut m = String::from_str("[System] The following tools reported failures: ");
        let joined = join_strings(&self.pending_verification, ", ");
        m.append(joined.as_str());
        m.append(". Their output may contain errors. Verify and retry if needed.");
        self.pending_verification = Vec::new();
        Some(m)
    }
}

fn copy_status(s: &PlanStepStatus) -> (r: PlanStepStatus)
    ensures
        r == *s,
{
    match s {
        PlanStepStatus::Pending => PlanStepStatus::Pending,
        PlanStepStatus::Completed => PlanStepStatus::Completed,
        PlanStepStatus::Failed(m) => PlanStepStatus::Failed(m.clone()),
    }
}

fn copy_name(n: &Option<String>) -> (r: Option<String>)
    ensures
        r == *n,
{
    match n {
        Some(s) => Some(s.clone()),
        None => None,
    }
}

// ---- what a turn does after a round with the model ----

/// Why the next request is made.
pub enum CompletionIntent {
    UserPrompt,
    ToolResults,
}

/// What a round with the model came to.
pub struct RoundOutcome {
    /// The model refused the request.
    pub refused: bool,
    /// A fallback model is configured and available for a refusal.
    pub fallback_available: bool,
    /// The user cancelled the turn.
    pub cancelled: bool,
    /// The completion failed.
    pub failed: bool,
    /// The model called no tool in this round.
    pub no_tool_calls: bool,
    /// A message is queued behind the turn.
    pub has_queued_message: bool,
}

/// What the turn does next.
pub enum TurnStep {
    /// Retry the request with the refusal fallback model.
    RetryWithFallback,
    /// End the turn with a refusal error.
    FailRefused,
    /// End the turn.
    Finish,
    /// Wait out the retry delay and ask again.
    RetryAfterError,
    /// Ask the model to verify its changes before concluding.
    GateForVerification,
    /// Send the tool results to the model.
    ContinueWithToolResults,
}

/// The step after a round: a refusal falls back or fails; a cancelled turn
/// ends; a failed completion is retried; a reply without tool calls ends the
/// turn, unless files changed and the verification gate has not fired yet; a
/// queued message ends the turn at the message boundary; otherwise the tool
/// results go back to the model.
pub open spec fn spec_next_step(o: RoundOutcome, has_modifications: bool, gate_triggered: bool) -> TurnStep {
    if o.refused {
        if o.fallback_available { TurnStep::RetryWithFallback } else { TurnStep::FailRefused }
    } else if o.cancelled {
        TurnStep::Finish
    } else if o.failed {
        TurnStep::RetryAfterError
    } else if o.no_tool_calls {
        if has_modifications && !gate_triggered {
            TurnStep::GateForVerification
        } else {
            TurnStep::Finish
        }
    } else if o.has_queued_message {
        TurnStep::Finish
    } else {
        TurnStep::ContinueWithToolResults
    }
}

/// The prompt that makes the model verify its changes.
pub const VERIFICATION_PROMPT: &'static str = "## Verification Required\n\nBefore concluding, you must verify your changes work:\n1. Run `cargo check` (or the project's build command) to confirm compilation.\n2. Run `cargo test` (or the project's test command) to confirm tests pass.\n3. Report what you ran and the results.\n\nDo NOT skip this step.";

impl RunningTurn {
    /// Decides the step after a round; the verification gate fires at most
    /// once per turn.
    pub fn next_step(&mut self, o: &RoundOutcome) -> (r: TurnStep)
        ensures
            r == spec_next_step(*o, old(self).has_modifications, old(self).gate_triggered),
            final(self).gate_triggered == (old(self).gate_triggered || r is GateForVerification),
            final(self).has_modifications == old(self).has_modifications,
            final(self).plan == old(self).plan,
            final(self).pending_verification == old(self).pending_verification,
    {
        if o.refused {
            if o.fallback_available {
                TurnStep::RetryWithFallback
            } else {
                TurnStep::FailRefused
            }
        } else if o.cancelled {
            TurnStep::Finish
        } else if o.failed {
            TurnStep::RetryAfterError
        } else if o.no_tool_calls {
            if self.has_modifications && !self.gate_triggered {
                self.gate_triggered = true;
                TurnStep::GateForVerification
            } else {
                TurnStep::Finish
            }
        } else if o.has_queued_message {
            TurnStep::Finish
        } else {
            TurnStep::ContinueWithToolResults
        }
    }
}

/// The intent and attempt count of the next request. When the turn
/// continues with tool results or the verification gate, the attempt count
/// is reset to zero; after an error it grows by one, and a reply left
/// without tool results is resumed as a user prompt.
pub open spec fn spec_next_request(
    step: TurnStep,
    attempt: u8,
    intent: CompletionIntent,
    last_reply_without_tool_results: bool,
) -> (u8, CompletionIntent, bool) {
    match step {
        TurnStep::RetryAfterError => (
            if attempt < 255 { (attempt + 1) as u8 } else { 255 },
            if last_reply_without_tool_results { CompletionIntent::UserPrompt } else { intent },
            last_reply_without_tool_results,
        ),
        TurnStep::GateForVerification | TurnStep::ContinueWithToolResults => (
            0,
            CompletionIntent::ToolResults,
            false,
        ),
        _ => (attempt, intent, false),
    }
}

/// The attempt count and intent of the next request, and whether a resume
/// marker is added to the history first.
pub fn next_request(
    step: &TurnStep,
    attempt: u8,
    intent: CompletionIntent,
    last_reply_without_tool_results: bool,
) -> (r: (u8, CompletionIntent, bool))
    ensures
        r == spec_next_request(*step, attempt, intent, last_reply_without_tool_results),
{
    match step {
        TurnStep::RetryAfterError => {
            let a = attempt.saturating_add(1);
            if last_reply_without_tool_results {
                (a, CompletionIntent::UserPrompt, true)
            } else {
                (a, intent, false)
            }
        },
        TurnStep::GateForVerification | TurnStep::ContinueWithToolResults => (
            0,
            CompletionIntent::ToolResults,
            false,
        ),
        _ => (attempt, intent, false),
    }
}

/// The verification gate fires at most once in a turn: once it fired, no
/// later round leads to it again.
pub proof fn lemma_gate_fires_once(o: RoundOutcome, has_modifications: bool)
    ensures
        !(spec_next_step(o, has_modifications, true) is GateForVerification),
{
}

/// A turn without changed files never stops for verification.
pub proof fn lemma_no_gate_without_changes(o: RoundOutcome, gate_triggered: bool)
    ensures
        !(spec_next_step(o, false, gate_triggered) is GateForVerification),
{
}


/// What a round's outcome leads to, whatever the turn's state: a refusal
/// always falls back or fails; otherwise a cancelled turn always ends (it is
/// never retried, gated or continued); otherwise a failed completion is
/// always retried. The tool results go back to the model exactly when the
/// round was neither refused, cancelled nor failed, the model called a tool
/// and no message waits; the verification gate fires only for a reply
/// without tool calls after changes, and never twice.
pub proof fn lemma_round_outcome_decides(o: RoundOutcome, has_modifications: bool, gate_triggered: bool)
    ensures
        o.refused ==> (spec_next_step(o, has_modifications, gate_triggered) is RetryWithFallback
            <==> o.fallback_available),
        o.refused ==> (spec_next_step(o, has_modifications, gate_triggered) is RetryWithFallback
            || spec_next_step(o, has_modifications, gate_triggered) is FailRefused),
        !o.refused && o.cancelled ==> spec_next_step(o, has_modifications, gate_triggered) is Finish,
        !o.refused && !o.cancelled && o.failed ==> spec_next_step(o, has_modifications, gate_triggered)
            is RetryAfterError,
        spec_next_step(o, has_modifications, gate_triggered) is ContinueWithToolResults <==> (!o.refused
            && !o.cancelled && !o.failed && !o.no_tool_calls && !o.has_queued_message),
        spec_next_step(o, has_modifications, gate_triggered) is GateForVerification <==> (!o.refused
            && !o.cancelled && !o.failed && o.no_tool_calls && has_modifications && !gate_triggered),
        spec_next_step(o, has_modifications, gate_triggered) is RetryAfterError <==> (!o.refused
            && !o.cancelled && o.failed),
{
}


/// A turn ends exactly when the round was not refused and the user
/// cancelled, or the round did not fail and either the model called no
/// tool (with no verification owed) or a message waits behind the turn.
pub proof fn lemma_turn_finishes(o: RoundOutcome, has_modifications: bool, gate_triggered: bool)
    ensures
        spec_next_step(o, has_modifications, gate_triggered) is Finish <==> (!o.refused && (o.cancelled
            || (!o.failed && ((o.no_tool_calls && !(has_modifications && !gate_triggered)) || (
        !o.no_tool_calls && o.has_queued_message))))),
{
}

/// How the next request follows a step: a retry after an error counts one
/// more attempt (up to 255) and, when the last reply got no tool results,
/// asks again as a user prompt after a resume marker; sending tool results
/// or the verification prompt starts the attempts over at zero as a tool
/// result request; any other step changes nothing.
pub proof fn lemma_next_request(step: TurnStep, attempt: u8, intent: CompletionIntent, resumed: bool)
    ensures
        step is RetryAfterError ==> spec_next_request(step, attempt, intent, resumed).0 == if attempt
            == 255 {
            255
        } else {
            attempt + 1
        },
        step is RetryAfterError && resumed ==> spec_next_request(step, attempt, intent, resumed).1
            is UserPrompt && spec_next_request(step, attempt, intent, resumed).2,
        step is RetryAfterError && !resumed ==> spec_next_request(step, attempt, intent, resumed).1 == intent
            && !spec_next_request(step, attempt, intent, resumed).2,
        (step is ContinueWithToolResults || step is GateForVerification) ==> spec_next_request(
            step,
            attempt,
            intent,
            resumed,
        ).0 == 0 && spec_next_request(step, attempt, intent, resumed).1 is ToolResults
            && !spec_next_request(step, attempt, intent, resumed).2,
        !(step is RetryAfterError || step is ContinueWithToolResults || step is GateForVerification)
            ==> spec_next_request(step, attempt, intent, resumed) == (attempt, intent, false),
{
}

/// The tools whose success means files changed are exactly the writing,
/// editing, creating, deleting, moving, copying, renaming and code-action
/// tools.
pub proof fn lemma_modification_tools(name: Seq<char>)
    ensures
        modification_tools().contains(name) <==> (name == "write_file"@ || name == "edit_file"@ || name
            == "create_directory"@ || name == "delete_path"@ || name == "move_path"@ || name == "copy_path"@
            || name == "rename_symbol"@ || name == "apply_code_action"@),
{
    if name == "write_file"@ || name == "edit_file"@ || name == "create_directory"@ || name == "delete_path"@
        || name == "move_path"@ || name == "copy_path"@ || name == "rename_symbol"@ || name
        == "apply_code_action"@ {
        assert(modification_tools()[0] == "write_file"@);
        assert(exists|k: int| 0 <= k < modification_tools().len() && modification_tools()[k] == name);
    }
}

/// A successful result counts as failed exactly when its output is not
/// empty and, lower-cased, says "failed", "error", "timed out", "denied"
/// or "not found"; a result reported as an error never counts as hiding a
/// failure.
pub proof fn lemma_hidden_failure(is_error: bool, output: Seq<char>)
    ensures
        spec_hidden_failure(is_error, output) <==> (!is_error && output.len() > 0 && (contains_seq(
            lowercase_of(output),
            "failed"@,
        ) || contains_seq(lowercase_of(output), "error"@) || contains_seq(lowercase_of(output), "timed out"@)
            || contains_seq(lowercase_of(output), "denied"@) || contains_seq(lowercase_of(output), "not found"@))),
{
    if !is_error && output.len() > 0 {
        assert(failure_words()[0] == "failed"@);
        assert(failure_words()[1] == "error"@);
        assert(failure_words()[2] == "timed out"@);
        assert(failure_words()[3] == "denied"@);
        assert(failure_words()[4] == "not found"@);
    }
}

/// A call's step fails with "Tool <name> failed" when the tool reported an
/// error, with "Tool <name> returned suspicious output" when its output
/// gives a failure away, and completes otherwise.
pub proof fn lemma_step_status(name: Seq<char>, is_error: bool, hidden: bool)
    ensures
        is_error ==> step_status_after(name, is_error, hidden) == Some("Tool "@ + name + " failed"@),
        !is_error && hidden ==> step_status_after(name, is_error, hidden) == Some(
            "Tool "@ + name + " returned suspicious output"@,
        ),
        !is_error && !hidden ==> step_status_after(name, is_error, hidden) is None,
{
}


/// A plan's goal is the start of the model's first thinking: its first
/// 200 characters (all of it when shorter), or nothing when the reply has
/// no thinking.
pub proof fn lemma_plan_goal(content: Seq<AgentContent>)
    ensures
        spec_plan_goal(content).len() <= 200,
        first_thinking(content, 0) matches Some(t) ==> spec_plan_goal(content) == t.take(
            if t.len() <= 200 { t.len() as int } else { 200 },
        ),
        first_thinking(content, 0) is None ==> spec_plan_goal(content).len() == 0,
        forall|i: int|
            0 <= i < content.len() && content[i] is Thinking && (forall|j: int| 0 <= j < i ==> !(#[trigger] content[j] is Thinking))
                ==> first_thinking(content, 0) == Some(content[i]->Thinking_0@),
{
    match first_thinking(content, 0) {
        Some(t) => {
            if t.len() <= 200 {
                assert(t.take(t.len() as int) =~= t);
            }
        },
        None => {},
    }
    assert forall|i: int|
        0 <= i < content.len() && content[i] is Thinking && (forall|j: int| 0 <= j < i ==> !(#[trigger] content[j] is Thinking))
            implies first_thinking(content, 0) == Some(content[i]->Thinking_0@) by {
        lemma_first_thinking_at(content, 0, i);
    }
}

proof fn lemma_first_thinking_at(content: Seq<AgentContent>, k: int, i: int)
    requires
        0 <= k <= i < content.len(),
        content[i] is Thinking,
        forall|j: int| k <= j < i ==> !(#[trigger] content[j] is Thinking),
    ensures
        first_thinking(content, k) == Some(content[i]->Thinking_0@),
    decreases i - k,
{
    if k < i {
        lemma_first_thinking_at(content, k + 1, i);
    }
}

} // verus!
