use tau_agent::authorization::{
    on_settings_changed, permission_edits, permission_outcome, sandbox_decision, sandbox_edits,
    sandbox_options, PermissionOptionKind, PromptStep, SandboxEdit, SandboxPermission, SandboxRequest, SettingsEdit,
    ToolPermissionDecision, ToolPermissionMode,
};
use tau_agent::compaction::{
    auto_compact_threshold_token_count, take_text_within_byte_budget, total_input_tokens,
    truncate_user_message_to_byte_budget, AutoCompactThreshold, MessageContent, RequestMessage, Role,
    TokenUsage,
};
use tau_agent::retry::{retry_strategy_for, CompletionError, RetryStrategy};
use tau_agent::thread_history::{
    compaction_summary, AgentMessage, CompactionInfo, CompactionInsertion, ThreadHistory, ThreadMessage,
    ToolResult, UserMessage,
};
use tau_agent::thread_types::{thread_settings_from_row, NoModelConfiguredError, PromptId, TitleAccumulator};
use tau_agent::turn::{
    has_hidden_failure, next_request, plan_from_reply, AgentContent, CompletionIntent, PlanStepStatus,
    RoundOutcome, RunningTurn, ToolCallStatus, TurnStep,
};

fn usage(input: u64, output: u64) -> TokenUsage {
    TokenUsage { input_tokens: input, output_tokens: output, cache_creation_input_tokens: 0, cache_read_input_tokens: 0 }
}

fn user(id: u64, text: &str) -> ThreadMessage {
    ThreadMessage::User(UserMessage { id, content: vec![MessageContent::Text(text.to_string())] })
}

#[test]
fn test_truncate_text_utf8_boundary() {
    let message = RequestMessage {
        role: Role::User,
        content: vec![MessageContent::Text("hello 👋 world".to_string())],
        cache: false,
    };

    let truncated = truncate_user_message_to_byte_budget(message, 8).unwrap();
    assert_eq!(truncated.content, vec![MessageContent::Text("hello ".to_string())]);
}

#[test]
fn test_truncate_keeps_fitting_images() {
    let image = "image".to_string();
    let message = RequestMessage {
        role: Role::User,
        content: vec![MessageContent::Text("abc".to_string()), MessageContent::Image(image.clone())],
        cache: false,
    };

    let truncated = truncate_user_message_to_byte_budget(message, 8).unwrap();
    assert_eq!(
        truncated.content,
        vec![MessageContent::Text("abc".to_string()), MessageContent::Image(image)]
    );
}

#[test]
fn truncation_drops_what_does_not_fit() {
    let message = RequestMessage {
        role: Role::User,
        content: vec![MessageContent::Image("a-long-image-source".to_string())],
        cache: true,
    };
    assert!(truncate_user_message_to_byte_budget(message, 4).is_none());
    let mut remaining = 4usize;
    assert_eq!(take_text_within_byte_budget("abcdef".to_string(), &mut remaining), Some("abcd".to_string()));
    assert_eq!(remaining, 0);
    let mut remaining = 10usize;
    assert_eq!(take_text_within_byte_budget("abc".to_string(), &mut remaining), Some("abc".to_string()));
    assert_eq!(remaining, 7);
}

#[test]
fn token_counts() {
    let u = TokenUsage { input_tokens: 10, output_tokens: 5, cache_creation_input_tokens: 3, cache_read_input_tokens: 2 };
    assert_eq!(total_input_tokens(u), 15);
    let big = TokenUsage { input_tokens: u64::MAX, output_tokens: 0, cache_creation_input_tokens: 1, cache_read_input_tokens: 0 };
    assert_eq!(total_input_tokens(big), u64::MAX);
    assert_eq!(auto_compact_threshold_token_count(AutoCompactThreshold::TokensUsed(1000), 200_000), 1000);
    assert_eq!(auto_compact_threshold_token_count(AutoCompactThreshold::TokensRemaining(50_000), 200_000), 150_001);
    assert_eq!(auto_compact_threshold_token_count(AutoCompactThreshold::TokensRemaining(300_000), 200_000), 1);
}

#[test]
fn retry_policy() {
    assert_eq!(
        retry_strategy_for(&CompletionError::HttpResponseError { status_code: 429 }),
        Some(RetryStrategy::ExponentialBackoff { initial_delay_millis: 5000, max_attempts: 4 })
    );
    assert_eq!(
        retry_strategy_for(&CompletionError::ServerOverloaded { retry_after_millis: Some(1500) }),
        Some(RetryStrategy::Fixed { delay_millis: 1500, max_attempts: 4 })
    );
    assert_eq!(
        retry_strategy_for(&CompletionError::UpstreamProviderError { status: 500, retry_after_millis: None }),
        Some(RetryStrategy::Fixed { delay_millis: 5000, max_attempts: 3 })
    );
    assert_eq!(
        retry_strategy_for(&CompletionError::UpstreamProviderError { status: 529, retry_after_millis: None }),
        Some(RetryStrategy::Fixed { delay_millis: 5000, max_attempts: 4 })
    );
    assert_eq!(
        retry_strategy_for(&CompletionError::UpstreamProviderError { status: 502, retry_after_millis: Some(7) }),
        Some(RetryStrategy::Fixed { delay_millis: 7, max_attempts: 2 })
    );
    assert_eq!(retry_strategy_for(&CompletionError::HttpResponseError { status_code: 401 }), None);
    assert_eq!(retry_strategy_for(&CompletionError::PromptTooLarge), None);
    assert_eq!(
        retry_strategy_for(&CompletionError::StreamEndedUnexpectedly),
        Some(RetryStrategy::Fixed { delay_millis: 5000, max_attempts: 1 })
    );
    assert_eq!(
        retry_strategy_for(&CompletionError::HttpResponseError { status_code: 500 }),
        Some(RetryStrategy::Fixed { delay_millis: 5000, max_attempts: 1 })
    );
    assert_eq!(
        retry_strategy_for(&CompletionError::HttpResponseError { status_code: 418 }),
        Some(RetryStrategy::Fixed { delay_millis: 5000, max_attempts: 1 })
    );
    assert_eq!(retry_strategy_for(&CompletionError::HttpResponseError { status_code: 302 }), None);
    assert_eq!(retry_strategy_for(&CompletionError::Other), None);
}

fn history_with_usage() -> ThreadHistory {
    let mut h = ThreadHistory::new();
    h.push_message(user(1, "hi"));
    h.update_token_usage(usage(150_000, 1_000));
    h.push_message(ThreadMessage::Agent(AgentMessage::from_text("reply".into())));
    h.push_message(user(2, "next"));
    h
}

#[test]
fn compaction_target() {
    let h = history_with_usage();
    assert_eq!(h.compaction_message_target_ix(true, AutoCompactThreshold::TokensUsed(100_000), Some(200_000)), Some(2));
    assert_eq!(h.compaction_message_target_ix(false, AutoCompactThreshold::TokensUsed(100_000), Some(200_000)), None);
    assert_eq!(h.compaction_message_target_ix(true, AutoCompactThreshold::TokensUsed(100_000), Some(79_999)), None);
    assert_eq!(h.compaction_message_target_ix(true, AutoCompactThreshold::TokensUsed(200_000), Some(200_000)), None);
    assert_eq!(h.compaction_message_target_ix(true, AutoCompactThreshold::TokensUsed(100_000), None), None);
}

#[test]
fn history_queries() {
    let mut h = history_with_usage();
    assert_eq!(h.tokens_before_message(2), Some(150_000));
    assert_eq!(h.tokens_before_message(1), None);
    assert_eq!(h.find_user_message(2), Some(2));
    assert_eq!(h.last_user_message_ix(), Some(2));
    assert!(h.truncate(9).is_err());
    assert!(h.truncate(1).is_ok());
    assert_eq!(h.len(), 0);
    assert!(h.request_usage(1).is_none());
}

#[test]
fn compaction_insertion() {
    let mut h = history_with_usage();
    h.insert_compaction("summary".into(), CompactionInsertion::Auto { insertion_ix: 2 });
    assert_eq!(h.len(), 4);
    assert_eq!(h.latest_compaction_message_ix_before(3), Some(2));
    let mut m = history_with_usage();
    m.insert_compaction("s".into(), CompactionInsertion::Manual { marker_id: 7 });
    assert_eq!(m.len(), 5);
    assert_eq!(m.find_user_message(7), Some(3));
    assert_eq!(m.latest_compaction_message_ix_before(5), Some(4));
    assert_eq!(compaction_summary("  text \n"), Some("text".to_string()));
    assert_eq!(compaction_summary(" \n\t"), None);
}

#[test]
fn message_helpers() {
    assert_eq!(NoModelConfiguredError.message(), "no language model configured");
    let info = CompactionInfo::Summary("S".into());
    let req = info.to_request();
    assert_eq!(req.len(), 1);
    assert_eq!(
        req[0].content,
        vec![MessageContent::Text("The previous conversation was compacted. Use this summary as context:\n\nS".into())]
    );
    assert!(CompactionInfo::ProviderNative.to_request().is_empty());
    assert_eq!(ThreadMessage::Agent(AgentMessage::from_text("x".into())).role(), Role::Assistant);
    assert_eq!(ThreadMessage::Resume.role(), Role::User);
    assert_eq!(ThreadMessage::resume_request().content, vec![MessageContent::Text("Continue where you left off".into())]);
    assert_eq!(ThreadMessage::Resume.marker_markdown(), Some("[resume]\n".to_string()));
    assert_eq!(ThreadMessage::Agent(AgentMessage::from_text("x".into())).marker_markdown(), None);
}

#[test]
fn prompt_ids_are_uuids() {
    let id = PromptId::new();
    let s = id.to_display_string();
    assert_eq!(s.len(), 36);
    assert_eq!(s.as_bytes()[14], b'4');
    assert_ne!(PromptId::new().0, id.0);
}

#[test]
fn titles_stop_at_line_breaks() {
    let mut t = TitleAccumulator::new();
    t.push_text("Fixing ");
    t.push_text("the parser\nand more");
    t.push_text(" ignored");
    assert_eq!(t.title, "Fixing the parser");
    assert!(t.done);
    let mut r = TitleAccumulator::new();
    r.push_text("A\rB");
    assert_eq!(r.title, "A");
}

#[test]
fn plans_from_tool_calls() {
    let thinking = "t".repeat(250);
    let content = vec![
        AgentContent::Text("ok".into()),
        AgentContent::Thinking(thinking.clone()),
        AgentContent::ToolUse { id: "t1".into(), name: "read_file".into() },
        AgentContent::Thinking("second".into()),
        AgentContent::ToolUse { id: "t2".into(), name: "edit_file".into() },
    ];
    let plan = plan_from_reply(&content).expect("plan");
    assert_eq!(plan.goal, "t".repeat(200));
    assert_eq!(plan.steps.len(), 2);
    assert_eq!(plan.steps[1].tool_name.as_deref(), Some("edit_file"));
    assert!(matches!(plan.steps[0].status, PlanStepStatus::Pending));
    assert!(plan_from_reply(&vec![AgentContent::Text("no tools".into())]).is_none());
}

#[test]
fn tool_results_update_the_turn() {
    let mut turn = RunningTurn::new();
    turn.plan = plan_from_reply(&vec![AgentContent::ToolUse { id: "t2".into(), name: "edit_file".into() }, AgentContent::ToolUse { id: "t3".into(), name: "grep".into() }]);
    assert!(matches!(turn.record_tool_result("edit_file", false, "done"), ToolCallStatus::Completed));
    assert!(turn.has_modifications);
    assert!(matches!(turn.record_tool_result("grep", false, "File NOT FOUND"), ToolCallStatus::Failed));
    let plan = turn.plan.as_ref().unwrap();
    assert!(matches!(plan.steps[0].status, PlanStepStatus::Completed));
    match &plan.steps[1].status {
        PlanStepStatus::Failed(reason) => assert_eq!(reason, "Tool grep returned suspicious output"),
        _ => panic!("expected a failure"),
    }
    assert_eq!(
        turn.take_verification_context(),
        Some("[System] The following tools reported failures: grep. Their output may contain errors. Verify and retry if needed.".to_string())
    );
    assert_eq!(turn.take_verification_context(), None);
    assert!(!has_hidden_failure(true, "error"));
    assert!(!has_hidden_failure(false, ""));
    assert!(has_hidden_failure(false, "Permission Denied"));
}

fn round(no_tool_calls: bool) -> RoundOutcome {
    RoundOutcome {
        refused: false,
        fallback_available: false,
        cancelled: false,
        failed: false,
        no_tool_calls,
        has_queued_message: false,
    }
}

#[test]
fn turn_steps() {
    let mut turn = RunningTurn::new();
    assert!(matches!(turn.next_step(&round(true)), TurnStep::Finish));
    turn.has_modifications = true;
    assert!(matches!(turn.next_step(&round(true)), TurnStep::GateForVerification));
    assert!(matches!(turn.next_step(&round(true)), TurnStep::Finish));
    assert!(matches!(turn.next_step(&round(false)), TurnStep::ContinueWithToolResults));
    let mut refused = round(false);
    refused.refused = true;
    assert!(matches!(turn.next_step(&refused), TurnStep::FailRefused));
    let mut failed = round(false);
    failed.failed = true;
    assert!(matches!(turn.next_step(&failed), TurnStep::RetryAfterError));
    let (attempt, intent, resume) = next_request(&TurnStep::RetryAfterError, 1, CompletionIntent::ToolResults, true);
    assert_eq!(attempt, 2);
    assert!(matches!(intent, CompletionIntent::UserPrompt));
    assert!(resume);
    let (attempt, intent, resume) = next_request(&TurnStep::ContinueWithToolResults, 3, CompletionIntent::UserPrompt, true);
    assert_eq!(attempt, 0);
    assert!(matches!(intent, CompletionIntent::ToolResults));
    assert!(!resume);
}

#[test]
fn permission_choices() {
    let o = permission_outcome("always_allow:terminal");
    assert!(o.allowed);
    assert_eq!(o.persist, Some(("terminal".to_string(), ToolPermissionMode::Allow)));
    let d = permission_outcome("always_deny_mcp:server/tool");
    assert!(!d.allowed);
    assert_eq!(d.persist, Some(("server/tool".to_string(), ToolPermissionMode::Deny)));
    assert!(permission_outcome("allow").allowed);
    assert!(!permission_outcome("deny").allowed);
    assert!(!permission_outcome("something").allowed);
    assert!(permission_outcome("allow").persist.is_none());
}

#[test]
fn settings_and_sandbox_decisions() {
    assert!(matches!(on_settings_changed(ToolPermissionDecision::Allow), PromptStep::ResolveAllowed));
    assert!(matches!(on_settings_changed(ToolPermissionDecision::Confirm), PromptStep::KeepWaiting));
    match on_settings_changed(ToolPermissionDecision::Deny("no".into())) {
        PromptStep::ResolveDenied(r) => assert_eq!(r, "no"),
        _ => panic!("expected a denial"),
    }
    let d = sandbox_decision(Some(SandboxPermission::AllowAlways));
    assert!(d.allowed && d.grant_for_thread && d.persist);
    let t = sandbox_decision(Some(SandboxPermission::AllowThread));
    assert!(t.allowed && t.grant_for_thread && !t.persist);
    assert!(!sandbox_decision(Some(SandboxPermission::Deny)).allowed);
    assert!(!sandbox_decision(None).allowed);
}

#[test]
fn settings_edits() {
    let patterns = vec!["git *".to_string(), "ls".to_string()];
    let edits = permission_edits("terminal", ToolPermissionMode::Allow, Some(&patterns));
    assert_eq!(edits.len(), 2);
    match &edits[1] {
        SettingsEdit::AddAllowPattern { tool, pattern } => assert_eq!((tool.as_str(), pattern.as_str()), ("terminal", "ls")),
        _ => panic!("expected an allow pattern"),
    }
    assert!(permission_edits("terminal", ToolPermissionMode::Confirm, Some(&patterns)).is_empty());
    match &permission_edits("grep", ToolPermissionMode::Deny, None)[0] {
        SettingsEdit::SetDefaultPermission { tool, mode } => {
            assert_eq!(tool, "grep");
            assert_eq!(*mode, ToolPermissionMode::Deny);
        }
        _ => panic!("expected a default permission"),
    }
    let request = SandboxRequest { network: true, allow_fs_write_all: false, unsandboxed: true, write_paths: vec!["/tmp/x".into()] };
    let edits = sandbox_edits(&request);
    assert_eq!(edits.len(), 3);
    assert!(matches!(edits[0], SandboxEdit::AllowNetwork));
    assert!(matches!(edits[1], SandboxEdit::AllowUnsandboxed));
    match &edits[2] {
        SandboxEdit::AddWritePath(p) => assert_eq!(p, "/tmp/x"),
        _ => panic!("expected a path"),
    }
}

#[test]
fn test_summary_compaction_renders_for_request_and_markdown() {
    let message = ThreadMessage::Compaction(CompactionInfo::Summary("Older context".into()));

    assert_eq!(message.role(), Role::User);
    assert_eq!(message.marker_markdown().as_deref(), Some("--- Context Compacted ---\n"));

    let ThreadMessage::Compaction(info) = &message else {
        panic!("expected a compaction");
    };
    let request_messages = info.to_request();
    assert_eq!(request_messages.len(), 1);
    assert_eq!(request_messages[0].role, Role::User);
    assert!(!request_messages[0].cache);
    assert_eq!(request_messages[0].content.len(), 1);
    let MessageContent::Text(text) = &request_messages[0].content[0] else {
        panic!("expected text summary context");
    };
    assert_eq!(
        text.as_str(),
        "The previous conversation was compacted. Use this summary as context:\n\nOlder context"
    );
}

fn model(provider: &str, id: &str) -> (String, String) {
    (provider.to_string(), id.to_string())
}

#[test]
fn restored_thread_prefers_default_then_saved_then_profile_model() {
    let profiles = vec![("write".to_string(), model("p", "profile-model"))];
    let s = thread_settings_from_row(
        None,
        "write".to_string(),
        Some(model("p", "default")),
        Some(model("p", "saved")),
        &profiles,
        "Title".to_string(),
    );
    assert_eq!(s.profile_id, "write");
    assert_eq!(s.model, Some(model("p", "default")));
    assert_eq!(s.title, Some("Title".to_string()));

    let s = thread_settings_from_row(
        Some("ask".to_string()),
        "write".to_string(),
        None,
        Some(model("p", "saved")),
        &profiles,
        String::new(),
    );
    assert_eq!(s.profile_id, "ask");
    assert_eq!(s.model, Some(model("p", "saved")));
    assert_eq!(s.title, None);

    let s = thread_settings_from_row(None, "write".to_string(), None, None, &profiles, String::new());
    assert_eq!(s.model, Some(model("p", "profile-model")));
    let s = thread_settings_from_row(Some("ask".to_string()), "write".to_string(), None, None, &profiles, String::new());
    assert_eq!(s.model, None);
}

#[test]
fn sandbox_prompt_offers_four_options_in_order() {
    let options = sandbox_options();
    let names: Vec<&str> = options.iter().map(|o| o.name.as_str()).collect();
    assert_eq!(names, vec!["Allow once", "Allow for this thread", "Allow always", "Deny"]);
    assert_eq!(options[0].choice, SandboxPermission::AllowOnce);
    assert_eq!(options[1].kind, PermissionOptionKind::AllowAlways);
    assert_eq!(options[3].choice, SandboxPermission::Deny);
    assert_eq!(options[3].kind, PermissionOptionKind::RejectOnce);
}

#[test]
fn usage_snapshots_add_their_fieldwise_maximum() {
    let mut h = ThreadHistory::new();
    h.start_request();
    h.accumulate_token_usage(usage(960_000, 25));
    h.start_request();
    h.accumulate_token_usage(TokenUsage { input_tokens: 40, output_tokens: 4, cache_creation_input_tokens: 0, cache_read_input_tokens: 0 });
    h.accumulate_token_usage(TokenUsage { input_tokens: 40, output_tokens: 9, cache_creation_input_tokens: 2, cache_read_input_tokens: 3 });
    h.accumulate_token_usage(TokenUsage { input_tokens: 40, output_tokens: 9, cache_creation_input_tokens: 2, cache_read_input_tokens: 3 });
    assert_eq!(
        h.cumulative_token_usage(),
        TokenUsage { input_tokens: 960_040, output_tokens: 34, cache_creation_input_tokens: 2, cache_read_input_tokens: 3 }
    );
}

#[test]
fn truncate_drops_the_summary() {
    let mut h = history_with_usage();
    h.set_summary("what happened".to_string());
    assert_eq!(h.detailed_summary(), Some("what happened".to_string()));
    assert!(h.truncate(99).is_err());
    assert_eq!(h.detailed_summary(), Some("what happened".to_string()));
    assert!(h.truncate(2).is_ok());
    assert_eq!(h.detailed_summary(), None);
}

#[test]
fn flushing_a_reply_closes_its_open_tool_calls() {
    let mut h = history_with_usage();
    h.set_summary("s".to_string());
    h.flush_pending_message(None);
    h.flush_pending_message(Some(AgentMessage { content: vec![], tool_results: vec![] }));
    assert_eq!(h.len(), 3);
    assert!(h.detailed_summary().is_some());

    let done = ToolResult { tool_use_id: "a".into(), tool_name: "grep".into(), is_error: false, text: "ok".into() };
    let reply = AgentMessage {
        content: vec![
            AgentContent::Text("working".into()),
            AgentContent::ToolUse { id: "a".into(), name: "grep".into() },
            AgentContent::ToolUse { id: "b".into(), name: "edit".into() },
            AgentContent::ToolUse { id: "b".into(), name: "edit".into() },
        ],
        tool_results: vec![done],
    };
    h.flush_pending_message(Some(reply));
    assert_eq!(h.len(), 4);
    assert!(h.detailed_summary().is_none());
    match h.message(3) {
        Some(ThreadMessage::Agent(a)) => {
            let results: Vec<(&str, &str, bool, &str)> = a
                .tool_results
                .iter()
                .map(|r| (r.tool_use_id.as_str(), r.tool_name.as_str(), r.is_error, r.text.as_str()))
                .collect();
            assert_eq!(results, vec![("a", "grep", false, "ok"), ("b", "edit", true, "Tool canceled by user")]);
        }
        _ => panic!("expected the reply"),
    }
}
