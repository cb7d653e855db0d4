//! Event naming and response aggregation.

use pi::events::{
    EventDispatcher, ExtensionEvent, InputEventResult, SessionGuardResult, ToolCallEventResult,
    ToolResultEventResult,
};
use pi::hostcall::JsonValue;
use pi::model::{ContentBlock, TextContent};

#[test]
fn event_name_matches_expected_strings() {
    let event = ExtensionEvent::ToolCall {
        tool_name: "read".to_string(),
        tool_call_id: "call-1".to_string(),
        input: JsonValue::Null,
    };
    assert_eq!(event.event_name(), "tool_call");
}

#[test]
fn event_names_are_snake_case_variants() {
    let startup = ExtensionEvent::Startup {
        version: "0.1.0".to_string(),
        session_file: None,
    };
    assert_eq!(startup.event_name(), "startup");
    let fork = ExtensionEvent::SessionBeforeFork {
        current_session: None,
        fork_entry_id: "e1".to_string(),
    };
    assert_eq!(fork.event_name(), "session_before_fork");
    let input = ExtensionEvent::Input {
        content: "hi".to_string(),
        attachments: Vec::new(),
    };
    assert_eq!(input.event_name(), "input");
}

#[test]
fn tool_call_first_block_wins() {
    let d = EventDispatcher::new();
    let responses = vec![
        None,
        Some(ToolCallEventResult { block: false, reason: None }),
        Some(ToolCallEventResult { block: true, reason: Some("first".to_string()) }),
        Some(ToolCallEventResult { block: true, reason: Some("second".to_string()) }),
    ];
    let verdict = d.aggregate_tool_call(&responses).expect("blocked");
    assert!(verdict.block);
    assert_eq!(verdict.reason.as_deref(), Some("first"));
}

#[test]
fn tool_call_no_block_proceeds() {
    let d = EventDispatcher::new();
    let responses = vec![
        None,
        Some(ToolCallEventResult { block: false, reason: Some("note".to_string()) }),
    ];
    assert!(d.aggregate_tool_call(&responses).is_none());
}

#[test]
fn tool_result_rewrites_compose_and_unset_fields_survive() {
    let d = EventDispatcher::new();
    let original = vec![ContentBlock::Text(TextContent::new("original".to_string()))];
    let details = Some(JsonValue::Text("details".to_string()));

    // first handler rewrites content only; details survive
    let (content1, details1) = d.apply_tool_result_rewrite(
        original,
        details,
        ToolResultEventResult {
            content: Some(vec![ContentBlock::Text(TextContent::new(
                "rewritten".to_string(),
            ))]),
            details: None,
        },
    );
    assert!(matches!(&details1, Some(JsonValue::Text(t)) if t == "details"));

    // second handler sees the first rewrite and changes details only
    let (content2, details2) = d.apply_tool_result_rewrite(
        content1,
        details1,
        ToolResultEventResult {
            content: None,
            details: Some(JsonValue::Text("new-details".to_string())),
        },
    );
    assert!(matches!(
        content2.as_slice(),
        [ContentBlock::Text(t)] if t.text == "rewritten"
    ));
    assert!(matches!(&details2, Some(JsonValue::Text(t)) if t == "new-details"));
}

#[test]
fn input_first_block_blocks() {
    let d = EventDispatcher::new();
    let responses = vec![
        None,
        Some(InputEventResult { content: None, block: true, reason: None }),
    ];
    assert!(d.input_blocked(&responses));
}

#[test]
fn input_last_content_override_wins() {
    let d = EventDispatcher::new();
    let responses = vec![
        Some(InputEventResult {
            content: Some("first".to_string()),
            block: false,
            reason: None,
        }),
        None,
        Some(InputEventResult {
            content: Some("last".to_string()),
            block: false,
            reason: None,
        }),
    ];
    assert!(!d.input_blocked(&responses));
    assert_eq!(d.input_content("original", &responses), "last");
}

#[test]
fn input_without_overrides_keeps_original() {
    let d = EventDispatcher::new();
    let responses = vec![None, Some(InputEventResult { content: None, block: false, reason: None })];
    assert_eq!(d.input_content("original", &responses), "original");
}

#[test]
fn any_cancel_cancels_session_switch() {
    let d = EventDispatcher::new();
    let responses = vec![
        None,
        Some(SessionGuardResult { cancel: false }),
        Some(SessionGuardResult { cancel: true }),
    ];
    assert!(d.session_cancelled(&responses));
    let calm = vec![None, Some(SessionGuardResult { cancel: false })];
    assert!(!d.session_cancelled(&calm));
}
