//! Registration catalog behavior: name uniqueness with last-write-wins,
//! collision reporting, and hook ordering.

use pi::hostcall::JsonValue;
use pi::registry::{ExtensionRegistry, HookRegistration, Registration, RegistrationTable};

fn reg(ext: &str, name: &str) -> Registration {
    Registration {
        extension_id: ext.to_string(),
        name: name.to_string(),
        payload: JsonValue::Null,
    }
}

#[test]
fn later_registration_wins_and_reports_the_earlier_owner() {
    let mut tools = RegistrationTable::new();
    assert_eq!(tools.register(reg("ext-a", "fmt")), None);
    assert_eq!(tools.register(reg("ext-a", "lint")), None);
    // same name, other extension: replaced in place, collision reported
    let prev = tools.register(reg("ext-b", "fmt"));
    assert_eq!(prev.as_deref(), Some("ext-a"));
    assert_eq!(tools.len(), 2);
    let entry = tools.get("fmt").expect("fmt registered");
    assert_eq!(entry.extension_id, "ext-b");
    assert!(tools.get("unknown").is_none());
}

#[test]
fn list_keeps_registration_positions() {
    let mut commands = RegistrationTable::new();
    commands.register(reg("ext-a", "one"));
    commands.register(reg("ext-a", "two"));
    commands.register(reg("ext-b", "one"));
    let names: Vec<&str> = commands.list().iter().map(|e| e.name.as_str()).collect();
    assert_eq!(names, vec!["one", "two"]);
}

#[test]
fn event_hooks_keep_installation_order_per_event() {
    let mut registry = ExtensionRegistry::new();
    registry.register_event_hook(HookRegistration {
        extension_id: "ext-a".to_string(),
        event: "tool_call".to_string(),
        handler: "first".to_string(),
    });
    registry.register_event_hook(HookRegistration {
        extension_id: "ext-b".to_string(),
        event: "input".to_string(),
        handler: "other".to_string(),
    });
    registry.register_event_hook(HookRegistration {
        extension_id: "ext-c".to_string(),
        event: "tool_call".to_string(),
        handler: "second".to_string(),
    });
    let hooks = registry.list_event_hooks("tool_call");
    let handlers: Vec<&str> = hooks.iter().map(|h| h.handler.as_str()).collect();
    assert_eq!(handlers, vec!["first", "second"]);
    assert!(registry.list_event_hooks("startup").is_empty());
}

#[test]
fn kinds_are_registered_independently() {
    let mut registry = ExtensionRegistry::new();
    registry.tools.register(reg("ext-a", "fmt"));
    registry.commands.register(reg("ext-a", "fmt"));
    assert_eq!(registry.tools.len(), 1);
    assert_eq!(registry.commands.len(), 1);
}
