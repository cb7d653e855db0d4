//! Session entries, appends, the pending host-call table, and the small
//! text helpers around sessions.

use pi::hostcall::{json_text, JsonValue, PendingHostcalls};
use pi::session::{encode_cwd, escape_html, generate_entry_id, Session, SessionEntry, SessionMessage};
use pi::session_index::{
    build_meta, parse_pick_selection, prepare_pick_entries, session_stats, PickChoice,
    SessionIndex, SessionPickEntry,
};
use pi::model::{ContentBlock, TextContent, ToolCallContent, UserContent};
use pi::session::{render_blocks, render_session_message, render_user_content};
use pi::auth::{env_key_for_provider, AuthCredential, AuthStorage};

#[test]
fn append_message_links_parent_and_leaf() {
    let mut session = Session::in_memory();
    assert!(session.leaf_id.is_none());

    let first = session.append_message(SessionMessage::User {
        content: UserContent::Text("hello".to_string()),
        timestamp: Some(1),
    });
    assert_eq!(session.leaf_id.as_deref(), Some(first.as_str()));
    assert_eq!(session.entries.len(), 1);

    let second = session.append_model_change("anthropic".to_string(), "model-x".to_string());
    assert_eq!(session.leaf_id.as_deref(), Some(second.as_str()));
    match &session.entries[1] {
        SessionEntry::ModelChange(e) => {
            assert_eq!(e.base.parent_id.as_deref(), Some(first.as_str()));
            assert_eq!(e.provider, "anthropic");
        }
        other => panic!("unexpected entry {other:?}"),
    }
}

#[test]
fn generate_entry_id_avoids_existing() {
    let existing = vec!["deadbeef".to_string()];
    let id = generate_entry_id(&existing);
    assert!(id.len() == 8 || id.len() == 36);
    assert_ne!(id, "deadbeef");
}

#[test]
fn set_model_header_keeps_unset_fields() {
    let mut session = Session::in_memory();
    session.set_model_header(Some("anthropic".to_string()), None, None);
    session.set_model_header(None, Some("model-x".to_string()), None);
    assert_eq!(session.header.provider.as_deref(), Some("anthropic"));
    assert_eq!(session.header.model_id.as_deref(), Some("model-x"));
    assert!(session.header.thinking_level.is_none());
}

#[test]
fn escape_html_escapes_reserved_characters() {
    assert_eq!(
        escape_html("<a href=\"x\">&'q'</a>"),
        "&lt;a href=&quot;x&quot;&gt;&amp;&#39;q&#39;&lt;/a&gt;"
    );
    assert_eq!(escape_html("plain"), "plain");
}

#[test]
fn encode_cwd_wraps_and_replaces() {
    assert_eq!(encode_cwd("/home/user/project"), "--home-user-project--");
    assert_eq!(encode_cwd("C:\\work\\repo"), "--C--work-repo--");
}

#[test]
fn session_stats_counts_messages_and_finds_last_name() {
    let mut session = Session::in_memory();
    session.append_message(SessionMessage::User {
        content: UserContent::Text("one".to_string()),
        timestamp: None,
    });
    session.append_session_info(Some("early".to_string()));
    session.append_message(SessionMessage::User {
        content: UserContent::Text("two".to_string()),
        timestamp: None,
    });
    session.append_session_info(Some("late".to_string()));

    let (count, name) = session_stats(&session.entries);
    assert_eq!(count, 2);
    assert_eq!(name.as_deref(), Some("late"));

    let meta = build_meta("/tmp/x.jsonl", &session.header, &session.entries, 7, 42);
    assert_eq!(meta.message_count, 2);
    assert_eq!(meta.last_modified_ms, 7);
    assert_eq!(meta.size_bytes, 42);
    assert_eq!(meta.name.as_deref(), Some("late"));
}

#[test]
fn session_index_paths_derive_from_directory() {
    let index = SessionIndex::new_in("/data/agent");
    assert_eq!(index.db_path, "/data/agent/session-index.sqlite");
    assert_eq!(index.lock_path, "/data/agent/session-index.lock");
}

#[test]
fn pick_selection_parses_blank_number_and_garbage() {
    assert_eq!(parse_pick_selection("", 5), PickChoice::StartNew);
    assert_eq!(parse_pick_selection("  ", 5), PickChoice::StartNew);
    assert_eq!(parse_pick_selection("3", 5), PickChoice::Pick(3));
    assert_eq!(parse_pick_selection(" 5 ", 5), PickChoice::Pick(5));
    assert_eq!(parse_pick_selection("0", 5), PickChoice::Invalid);
    assert_eq!(parse_pick_selection("6", 5), PickChoice::Invalid);
    assert_eq!(parse_pick_selection("abc", 5), PickChoice::Invalid);
}

#[test]
fn pending_hostcalls_complete_exactly_once() {
    let mut table: PendingHostcalls<(u32, u32)> = PendingHostcalls::new();
    let id1 = table.next_call_id();
    let id2 = table.next_call_id();
    assert_eq!(id1, "call-1");
    assert_eq!(id2, "call-2");

    table.register(id1.clone(), (10, 11));
    table.register(id2.clone(), (20, 21));
    assert_eq!(table.len(), 2);
    assert!(!table.is_empty());

    assert_eq!(table.complete("call-1"), Some((10, 11)));
    assert_eq!(table.complete("call-1"), None, "a second completion finds nothing");
    assert_eq!(table.cancel("call-2"), Some((20, 21)));
    assert!(table.is_empty());
    assert_eq!(table.complete("call-9"), None);
}

#[test]
fn reregistering_a_call_id_replaces_without_growing() {
    let mut table: PendingHostcalls<u8> = PendingHostcalls::new();
    table.register("call-1".to_string(), 1);
    table.register("call-2".to_string(), 2);
    // same id again: the resolvers are replaced, the table does not grow
    table.register("call-1".to_string(), 9);
    assert_eq!(table.len(), 2);
    assert_eq!(table.pending_ids(), vec!["call-1".to_string(), "call-2".to_string()]);
    assert_eq!(table.complete("call-1"), Some(9));
    assert_eq!(table.len(), 1);
    assert_eq!(table.complete("call-1"), None);
    assert_eq!(table.len(), 1);
}

#[test]
fn pending_ids_lists_registration_order() {
    let mut table: PendingHostcalls<u8> = PendingHostcalls::new();
    let a = table.next_call_id();
    let b = table.next_call_id();
    table.register(a.clone(), 1);
    table.register(b.clone(), 2);
    assert_eq!(table.pending_ids(), vec![a, b]);
}

#[test]
fn auth_api_key_precedence() {
    let storage = AuthStorage::from_entries(
        "/tmp/auth.json",
        vec![
            (
                "anthropic".to_string(),
                AuthCredential::ApiKey { key: "sk-file".to_string() },
            ),
            (
                "openai".to_string(),
                AuthCredential::OAuth {
                    access_token: "tok".to_string(),
                    refresh_token: "ref".to_string(),
                    expires: 1_000,
                },
            ),
        ],
    );

    // explicit override wins
    assert_eq!(
        storage
            .resolve_api_key("anthropic", Some("sk-cli"), Some("sk-env"), 0)
            .as_deref(),
        Some("sk-cli")
    );
    // stored key next
    assert_eq!(
        storage
            .resolve_api_key("anthropic", None, Some("sk-env"), 0)
            .as_deref(),
        Some("sk-file")
    );
    // unexpired oauth token serves as the key
    assert_eq!(
        storage.api_key_at("openai", 999).as_deref(),
        Some("tok")
    );
    // expired oauth falls through to the environment
    assert_eq!(
        storage
            .resolve_api_key("openai", None, Some("sk-env"), 2_000)
            .as_deref(),
        Some("sk-env")
    );
    // empty environment value resolves to nothing
    assert_eq!(storage.resolve_api_key("openai", None, Some(""), 2_000), None);
}

#[test]
fn env_key_for_provider_maps_known_names() {
    assert_eq!(env_key_for_provider("anthropic"), Some("ANTHROPIC_API_KEY"));
    assert_eq!(env_key_for_provider("mistral"), Some("MISTRAL_API_KEY"));
    assert_eq!(env_key_for_provider("unknown-provider"), None);
}

fn pick(id: &str, modified: i64) -> SessionPickEntry {
    SessionPickEntry {
        path: format!("/tmp/{id}.jsonl"),
        id: id.to_string(),
        timestamp: "2026-01-01T00:00:00.000Z".to_string(),
        message_count: 1,
        name: None,
        last_modified_ms: modified,
    }
}

#[test]
fn picker_orders_newest_first_and_caps_the_list() {
    let entries = vec![pick("a", 10), pick("b", 30), pick("c", 20), pick("d", 40)];
    let ordered = prepare_pick_entries(entries, 3);
    let ids: Vec<&str> = ordered.iter().map(|e| e.id.as_str()).collect();
    assert_eq!(ids, vec!["d", "b", "c"]);

    let few = prepare_pick_entries(vec![pick("x", 5)], 20);
    assert_eq!(few.len(), 1);
}

#[test]
fn render_blocks_escapes_and_wraps() {
    let blocks = vec![
        ContentBlock::Text(TextContent::new("a < b".to_string())),
        ContentBlock::ToolCall(ToolCallContent {
            id: "t1".to_string(),
            name: "read".to_string(),
            arguments: JsonValue::Object(vec![(
                "path".to_string(),
                JsonValue::Text("/tmp/x".to_string()),
            )]),
        }),
    ];
    let html = render_blocks(&blocks);
    assert!(html.contains("<pre>a &lt; b</pre>"));
    assert!(html.contains("Tool call: read"));
    assert!(html.contains("{&quot;path&quot;:&quot;/tmp/x&quot;}"));
}

#[test]
fn render_user_content_text_is_preformatted() {
    let html = render_user_content(&UserContent::Text("hi".to_string()));
    assert_eq!(html, "<pre>hi</pre>");
}

#[test]
fn render_session_message_marks_tool_errors() {
    let message = SessionMessage::ToolResult {
        tool_call_id: "c1".to_string(),
        tool_name: "read".to_string(),
        content: vec![ContentBlock::Text(TextContent::new("boom".to_string()))],
        details: Some(JsonValue::Int(-7)),
        is_error: true,
        timestamp: None,
    };
    let html = render_session_message(&message);
    assert!(html.starts_with("<div class=\"msg tool\"><div class=\"role\">Tool Error: read</div>"));
    assert!(html.contains("<pre>-7</pre>"));
}

#[test]
fn to_html_wraps_entries_in_a_document() {
    let mut session = Session::in_memory();
    session.header.cwd = "/w & d".to_string();
    session.append_message(SessionMessage::User {
        content: UserContent::Text("hello".to_string()),
        timestamp: None,
    });
    session.append_session_info(Some("my session".to_string()));
    let html = session.to_html();
    assert!(html.starts_with("<!doctype html>"));
    assert!(html.ends_with("</body></html>"));
    assert!(html.contains("cwd: /w &amp; d"));
    assert!(html.contains("<pre>hello</pre>"));
    assert!(html.contains("Session Name"));
}

#[test]
fn json_text_renders_values_compactly() {
    let value = JsonValue::Object(vec![
        ("a".to_string(), JsonValue::Array(vec![
            JsonValue::Int(1),
            JsonValue::Null,
            JsonValue::Bool(true),
        ])),
        ("b \"q\"".to_string(), JsonValue::Text("x\ny".to_string())),
    ]);
    assert_eq!(
        json_text(&value),
        "{\"a\":[1,null,true],\"b \\\"q\\\"\":\"x\\ny\"}"
    );
}
