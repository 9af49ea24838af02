use tau_agent::reply::{
    invalid_input_action, tool_use_action, InvalidInputAction, PendingReply, ReplyPart, ToolUse,
    ToolUseAction,
};
use tau_agent::retry::{completion_retry, CompletionError, RetryPlan};

fn call(id: &str, input: &str, complete: bool) -> ToolUse {
    ToolUse {
        id: id.to_string(),
        name: "grep".to_string(),
        raw_input: input.to_string(),
        input: input.to_string(),
        is_input_complete: complete,
    }
}

#[test]
fn streamed_text_joins_into_one_piece() {
    let mut reply = PendingReply::new();
    reply.push_text("Hel".to_string());
    reply.push_text("lo".to_string());
    assert_eq!(reply.content.len(), 1);
    match &reply.content[0] {
        ReplyPart::Text(t) => assert_eq!(t, "Hello"),
        _ => panic!("expected text"),
    }
    reply.push_redacted_thinking("xyz".to_string());
    reply.push_text("again".to_string());
    assert_eq!(reply.content.len(), 3);
}

#[test]
fn thinking_keeps_signature_until_a_new_one() {
    let mut reply = PendingReply::new();
    reply.push_thinking("a".to_string(), Some("s1".to_string()));
    reply.push_thinking("b".to_string(), None);
    match &reply.content[0] {
        ReplyPart::Thinking { text, signature } => {
            assert_eq!(text, "ab");
            assert_eq!(signature.as_deref(), Some("s1"));
        }
        _ => panic!("expected thinking"),
    }
    reply.push_thinking("c".to_string(), Some("s2".to_string()));
    match &reply.content[0] {
        ReplyPart::Thinking { text, signature } => {
            assert_eq!(text, "abc");
            assert_eq!(signature.as_deref(), Some("s2"));
        }
        _ => panic!("expected thinking"),
    }
}

#[test]
fn tool_call_is_updated_in_place() {
    let mut reply = PendingReply::new();
    reply.push_text("Looking".to_string());
    assert!(!reply.upsert_tool_use(call("t1", "{\"q\":", false)));
    reply.push_text("...".to_string());
    assert!(reply.upsert_tool_use(call("t1", "{\"q\":1}", true)));
    assert_eq!(reply.content.len(), 3);
    match &reply.content[1] {
        ReplyPart::ToolUse(t) => {
            assert_eq!(t.input, "{\"q\":1}");
            assert!(t.is_input_complete);
        }
        _ => panic!("expected a tool call"),
    }
    assert!(!reply.upsert_tool_use(call("t2", "{}", true)));
    assert_eq!(reply.content.len(), 4);
}

#[test]
fn reasoning_details_skip_empty_arrays() {
    let mut reply = PendingReply::new();
    reply.set_reasoning_details("[{\"a\":1}]".to_string(), false);
    reply.set_reasoning_details("[]".to_string(), true);
    assert_eq!(reply.reasoning_details.as_deref(), Some("[{\"a\":1}]"));
}

#[test]
fn tool_use_actions() {
    match tool_use_action("nope", false, false, true, true, false) {
        ToolUseAction::NoSuchTool(m) => assert_eq!(m, "No tool named nope exists"),
        _ => panic!("expected an error"),
    }
    assert!(matches!(tool_use_action("t", true, false, false, true, false), ToolUseAction::Skip));
    assert!(matches!(tool_use_action("t", true, true, false, false, false), ToolUseAction::Skip));
    assert!(matches!(tool_use_action("t", true, true, false, true, false), ToolUseAction::StartStreaming));
    assert!(matches!(tool_use_action("t", true, true, false, true, true), ToolUseAction::StreamPartial));
    assert!(matches!(tool_use_action("t", true, true, true, true, true), ToolUseAction::FinishStream));
    assert!(matches!(tool_use_action("t", true, false, true, true, false), ToolUseAction::Run));
    assert!(matches!(tool_use_action("t", true, false, true, false, false), ToolUseAction::Skip));
}

#[test]
fn invalid_input_actions() {
    match invalid_input_action("t", "expected value", true, false, false, false) {
        InvalidInputAction::RunWithError(m) => assert_eq!(m, "Error parsing input JSON: expected value"),
        _ => panic!("expected a run"),
    }
    match invalid_input_action("t", "eof", true, true, true, true) {
        InvalidInputAction::FailStream(m) => assert_eq!(m, "Error parsing input JSON: eof"),
        _ => panic!("expected the stream to fail"),
    }
    assert!(matches!(invalid_input_action("t", "eof", true, true, false, true), InvalidInputAction::Skip));
    assert!(matches!(
        invalid_input_action("t", "eof", true, true, true, false),
        InvalidInputAction::RunWithError(_)
    ));
    assert!(matches!(
        invalid_input_action("x", "eof", false, true, true, false),
        InvalidInputAction::NoSuchTool(_)
    ));
}

#[test]
fn completion_retry_backs_off_exponentially() {
    let e = CompletionError::HttpResponseError { status_code: 429 };
    assert_eq!(
        completion_retry(&e, 1, true, false, false),
        Some(RetryPlan { attempt: 1, max_attempts: 4, delay_millis: 5_000 })
    );
    assert_eq!(completion_retry(&e, 3, true, false, false).unwrap().delay_millis, 20_000);
    assert_eq!(completion_retry(&e, 4, true, false, false).unwrap().delay_millis, 40_000);
    assert_eq!(completion_retry(&e, 5, true, false, false), None);
}

#[test]
fn completion_retry_needs_model_and_plan_on_cloud() {
    let e = CompletionError::ServerOverloaded { retry_after_millis: Some(1_500) };
    assert_eq!(completion_retry(&e, 1, false, false, false), None);
    assert_eq!(completion_retry(&e, 1, true, true, false), None);
    assert_eq!(
        completion_retry(&e, 2, true, true, true),
        Some(RetryPlan { attempt: 2, max_attempts: 4, delay_millis: 1_500 })
    );
    assert_eq!(completion_retry(&CompletionError::NoApiKey, 1, true, false, false), None);
}
