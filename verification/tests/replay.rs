use tau_agent::replay::{
    canceled_result, is_canceled_tool_result, plan_replay, replay_content, RecordedToolResult,
    ReplayItem, ReplayPlan, ToolResultPart, TOOL_CANCELED_MESSAGE,
};
use tau_agent::reply::{PendingReply, ToolUse};
use tau_agent::turn::ToolCallStatus;

fn result(is_error: bool, parts: Vec<ToolResultPart>, has_output: bool) -> RecordedToolResult {
    RecordedToolResult { is_error, content: parts, has_output }
}

fn call(id: &str, name: &str) -> ToolUse {
    ToolUse {
        id: id.to_string(),
        name: name.to_string(),
        raw_input: "{}".to_string(),
        input: "{}".to_string(),
        is_input_complete: true,
    }
}

#[test]
fn canceled_results_are_recognized() {
    let r = canceled_result();
    assert!(is_canceled_tool_result(&r));
    assert!(matches!(plan_replay(Some(&r)), ReplayPlan::Skip));
    let not_error = result(false, vec![ToolResultPart::Text(TOOL_CANCELED_MESSAGE.to_string())], false);
    assert!(!is_canceled_tool_result(&not_error));
    let other_text = result(true, vec![ToolResultPart::Text("boom".to_string())], false);
    assert!(!is_canceled_tool_result(&other_text));
}

#[test]
fn replay_shows_texts_and_images_unless_output_was_kept() {
    let with_output = result(false, vec![ToolResultPart::Text("done".to_string())], true);
    assert!(replay_content(&with_output).is_none());
    let mixed = result(
        false,
        vec![
            ToolResultPart::Text(String::new()),
            ToolResultPart::Image("iVBOR".to_string()),
            ToolResultPart::Text("caption".to_string()),
        ],
        true,
    );
    let items = replay_content(&mixed).unwrap();
    assert_eq!(items.len(), 2);
    assert!(matches!(&items[0], ReplayItem::Image(s) if s == "iVBOR"));
    assert!(matches!(&items[1], ReplayItem::Text(t) if t == "caption"));
    let empty = result(false, vec![ToolResultPart::Text(String::new())], false);
    assert!(replay_content(&empty).is_none());
}

#[test]
fn replay_status_follows_the_result() {
    match plan_replay(None) {
        ReplayPlan::Show { status, content } => {
            assert!(matches!(status, ToolCallStatus::Failed));
            assert!(content.is_none());
        }
        ReplayPlan::Skip => panic!("expected the call to be shown"),
    }
    let failed = result(true, vec![ToolResultPart::Text("error: x".to_string())], false);
    match plan_replay(Some(&failed)) {
        ReplayPlan::Show { status, content } => {
            assert!(matches!(status, ToolCallStatus::Failed));
            assert_eq!(content.unwrap().len(), 1);
        }
        ReplayPlan::Skip => panic!("expected the call to be shown"),
    }
    let ok = result(false, vec![ToolResultPart::Text("fine".to_string())], true);
    assert!(matches!(plan_replay(Some(&ok)), ReplayPlan::Show { status: ToolCallStatus::Completed, content: None }));
}

#[test]
fn unanswered_calls_are_listed_once_in_order() {
    let mut reply = PendingReply::new();
    reply.push_text("Let me look.".to_string());
    reply.upsert_tool_use(call("a", "grep"));
    reply.upsert_tool_use(call("b", "read_file"));
    reply.upsert_tool_use(call("c", "terminal"));
    let answered = vec!["b".to_string()];
    let open = reply.unanswered_calls(&answered);
    assert_eq!(open, vec![("a".to_string(), "grep".to_string()), ("c".to_string(), "terminal".to_string())]);
    assert!(PendingReply::new().unanswered_calls(&vec![]).is_empty());
}
