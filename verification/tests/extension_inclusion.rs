//! Classification and rationale tests for the inclusion list.

use pi::inclusion::{build_rationale, classify_registrations, ExtensionCategory};

#[test]
fn classify_single_tool() {
    assert_eq!(
        classify_registrations(&["registerTool".into()]),
        ExtensionCategory::Tool
    );
}

#[test]
fn classify_single_command() {
    assert_eq!(
        classify_registrations(&["registerCommand".into()]),
        ExtensionCategory::Command
    );
}

#[test]
fn classify_provider() {
    assert_eq!(
        classify_registrations(&["registerProvider".into()]),
        ExtensionCategory::Provider
    );
}

#[test]
fn classify_multi() {
    assert_eq!(
        classify_registrations(&["registerTool".into(), "registerCommand".into()]),
        ExtensionCategory::Multi
    );
}

#[test]
fn classify_empty() {
    assert_eq!(classify_registrations(&[]), ExtensionCategory::General);
}

#[test]
fn classify_flag_is_configuration() {
    assert_eq!(
        classify_registrations(&["registerFlag".into()]),
        ExtensionCategory::Configuration
    );
}

#[test]
fn classify_event() {
    assert_eq!(
        classify_registrations(&["registerEventHook".into()]),
        ExtensionCategory::EventHook
    );
}

#[test]
fn classify_renderer() {
    assert_eq!(
        classify_registrations(&["registerMessageRenderer".into()]),
        ExtensionCategory::UiComponent
    );
}

#[test]
fn rationale_tier0() {
    let r = build_rationale("tier-0", 60, &ExtensionCategory::Tool, "official-pi-mono");
    assert!(r.contains("Official pi-mono baseline"));
    assert!(r.contains("tool registration"));
    assert!(r.contains("official"));
}

#[test]
fn rationale_tier2() {
    let r = build_rationale("tier-2", 52, &ExtensionCategory::Provider, "community");
    assert!(r.contains("52/100"));
    assert!(r.contains("custom provider"));
}

#[test]
fn rationale_tier1_exact() {
    let r = build_rationale("tier-1", 87, &ExtensionCategory::Command, "npm-registry");
    assert_eq!(
        r,
        "High score (87/100); passes all gates. Covers command/slash-command registration. Source: npm."
    );
}

#[test]
fn rationale_unknown_tier_and_source() {
    let r = build_rationale("tier-9", 5, &ExtensionCategory::General, "somewhere-else");
    assert_eq!(
        r,
        "Excluded. General extension (export default). Source: somewhere-else."
    );
}

#[test]
fn classify_two_commands_is_not_multi() {
    assert_eq!(
        classify_registrations(&["registerCommand".into(), "registerSlashCommand".into()]),
        ExtensionCategory::Command
    );
}
