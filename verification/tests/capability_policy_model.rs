//! Capability policy model tests: parsing, profiles, overrides, and the
//! five-layer precedence chain.

use pi::policy::{
    all_capabilities, Capability, ExtensionOverride, ExtensionPolicy, ExtensionPolicyMode,
    PolicyDecision, PolicyProfile,
};

#[test]
fn capability_parse_all_known_tokens() {
    let expected = [
        ("read", Capability::Read),
        ("write", Capability::Write),
        ("http", Capability::Http),
        ("events", Capability::Events),
        ("session", Capability::Session),
        ("ui", Capability::Ui),
        ("exec", Capability::Exec),
        ("env", Capability::Env),
        ("tool", Capability::Tool),
        ("log", Capability::Log),
    ];
    for (token, cap) in &expected {
        assert_eq!(Capability::parse(token), Some(*cap), "parse({token})");
    }
}

#[test]
fn capability_parse_case_insensitive() {
    assert_eq!(Capability::parse("READ"), Some(Capability::Read));
    assert_eq!(Capability::parse("Exec"), Some(Capability::Exec));
    assert_eq!(Capability::parse("  Http  "), Some(Capability::Http));
}

#[test]
fn capability_parse_unknown_returns_none() {
    assert_eq!(Capability::parse(""), None);
    assert_eq!(Capability::parse("network"), None);
    assert_eq!(Capability::parse("filesystem"), None);
}

#[test]
fn capability_as_str_roundtrips() {
    for cap in all_capabilities() {
        let s = cap.as_str();
        assert_eq!(Capability::parse(s), Some(cap), "roundtrip for {s}");
    }
}

#[test]
fn capability_dangerous_classification() {
    let dangerous: Vec<Capability> = all_capabilities()
        .iter()
        .copied()
        .filter(|c| c.is_dangerous())
        .collect();
    assert_eq!(dangerous, vec![Capability::Exec, Capability::Env]);
}

#[test]
fn capability_safe_classification() {
    let safe: Vec<Capability> = all_capabilities()
        .iter()
        .copied()
        .filter(|c| !c.is_dangerous())
        .collect();
    assert_eq!(safe.len(), all_capabilities().len() - 2);
    for cap in &safe {
        assert!(
            !matches!(cap, Capability::Exec | Capability::Env),
            "{} should be safe",
            cap.as_str()
        );
    }
}

#[test]
fn profile_safe_is_strict_with_safe_defaults() {
    let policy = PolicyProfile::Safe.to_policy();
    assert_eq!(policy.mode, ExtensionPolicyMode::Strict);
    assert!(policy.default_caps.contains(&"read".to_string()));
    assert!(policy.deny_caps.contains(&"exec".to_string()));
    assert!(policy.deny_caps.contains(&"env".to_string()));
    let check = policy.evaluate("exec");
    assert_eq!(check.decision, PolicyDecision::Deny);
    let check = policy.evaluate("tool");
    assert_eq!(check.decision, PolicyDecision::Deny);
}

#[test]
fn profile_standard_matches_default() {
    let standard = PolicyProfile::Standard.to_policy();
    let default_policy = ExtensionPolicy::default();
    assert_eq!(standard.mode, default_policy.mode);
    assert_eq!(standard.default_caps, default_policy.default_caps);
    assert_eq!(standard.deny_caps, default_policy.deny_caps);
}

#[test]
fn profile_permissive_allows_everything() {
    let policy = PolicyProfile::Permissive.to_policy();
    assert_eq!(policy.mode, ExtensionPolicyMode::Permissive);
    assert!(policy.deny_caps.is_empty());
    for cap in all_capabilities() {
        let check = policy.evaluate(cap.as_str());
        assert_eq!(
            check.decision,
            PolicyDecision::Allow,
            "permissive should allow {}",
            cap.as_str()
        );
    }
}

#[test]
fn from_profile_is_equivalent_to_to_policy() {
    let a = PolicyProfile::Safe.to_policy();
    let b = ExtensionPolicy::from_profile(PolicyProfile::Safe);
    assert_eq!(a.mode, b.mode);
    assert_eq!(a.default_caps, b.default_caps);
    assert_eq!(a.deny_caps, b.deny_caps);
}

#[test]
fn extension_override_deny_takes_highest_precedence() {
    let mut policy = ExtensionPolicy::default();
    policy.per_extension.insert(
        "malicious-ext".to_string(),
        ExtensionOverride {
            deny: vec!["read".to_string()],
            ..Default::default()
        },
    );

    let check = policy.evaluate("read");
    assert_eq!(check.decision, PolicyDecision::Allow);

    let check = policy.evaluate_for("read", Some("malicious-ext"));
    assert_eq!(check.decision, PolicyDecision::Deny);
    assert_eq!(check.reason, "extension_deny");
}

#[test]
fn extension_override_allow_bypasses_prompt() {
    let mut policy = ExtensionPolicy::default();
    policy.deny_caps.clear();
    policy.per_extension.insert(
        "trusted-ext".to_string(),
        ExtensionOverride {
            allow: vec!["exec".to_string()],
            ..Default::default()
        },
    );

    let check = policy.evaluate("exec");
    assert_eq!(check.decision, PolicyDecision::Prompt);

    let check = policy.evaluate_for("exec", Some("trusted-ext"));
    assert_eq!(check.decision, PolicyDecision::Allow);
    assert_eq!(check.reason, "extension_allow");
}

#[test]
fn extension_deny_overrides_global_default_caps() {
    let mut policy = ExtensionPolicy::default();
    policy.per_extension.insert(
        "sandbox-ext".to_string(),
        ExtensionOverride {
            deny: vec!["http".to_string()],
            ..Default::default()
        },
    );

    let check = policy.evaluate_for("http", Some("sandbox-ext"));
    assert_eq!(check.decision, PolicyDecision::Deny);
    assert_eq!(check.reason, "extension_deny");

    let check = policy.evaluate_for("http", Some("other-ext"));
    assert_eq!(check.decision, PolicyDecision::Allow);
    assert_eq!(check.reason, "default_caps");
}

#[test]
fn extension_allow_cannot_override_global_deny() {
    let mut policy = ExtensionPolicy::default();
    policy.per_extension.insert(
        "risky-ext".to_string(),
        ExtensionOverride {
            allow: vec!["exec".to_string()],
            ..Default::default()
        },
    );

    let check = policy.evaluate_for("exec", Some("risky-ext"));
    assert_eq!(check.decision, PolicyDecision::Deny);
    assert_eq!(check.reason, "deny_caps");
}

#[test]
fn extension_mode_override() {
    let mut policy = ExtensionPolicy::default();
    policy.deny_caps.clear();
    policy.per_extension.insert(
        "auto-ext".to_string(),
        ExtensionOverride {
            mode: Some(ExtensionPolicyMode::Permissive),
            ..Default::default()
        },
    );

    let check = policy.evaluate_for("tool", None);
    assert_eq!(check.decision, PolicyDecision::Prompt);

    let check = policy.evaluate_for("tool", Some("auto-ext"));
    assert_eq!(check.decision, PolicyDecision::Allow);
    assert_eq!(check.reason, "permissive");
}

#[test]
fn extension_mode_strict_restricts_more_than_global() {
    let mut policy = ExtensionPolicy::default();
    policy.deny_caps.clear();
    policy.per_extension.insert(
        "restricted-ext".to_string(),
        ExtensionOverride {
            mode: Some(ExtensionPolicyMode::Strict),
            ..Default::default()
        },
    );

    let check = policy.evaluate_for("tool", None);
    assert_eq!(check.decision, PolicyDecision::Prompt);

    let check = policy.evaluate_for("tool", Some("restricted-ext"));
    assert_eq!(check.decision, PolicyDecision::Deny);
    assert_eq!(check.reason, "not_in_default_caps");
}

#[test]
fn has_override_reflects_presence() {
    let mut policy = ExtensionPolicy::default();
    assert!(!policy.has_override("some-ext"));
    policy
        .per_extension
        .insert("some-ext".to_string(), ExtensionOverride::default());
    assert!(policy.has_override("some-ext"));
    assert!(!policy.has_override("other-ext"));
}

#[test]
fn precedence_layer1_extension_deny_beats_everything() {
    let mut policy = ExtensionPolicy::default();
    policy.mode = ExtensionPolicyMode::Permissive;
    policy.deny_caps.clear();
    policy.default_caps.push("exec".to_string());
    policy.per_extension.insert(
        "ext".to_string(),
        ExtensionOverride {
            allow: vec!["exec".to_string()],
            deny: vec!["exec".to_string()],
            ..Default::default()
        },
    );

    let check = policy.evaluate_for("exec", Some("ext"));
    assert_eq!(check.decision, PolicyDecision::Deny);
    assert_eq!(check.reason, "extension_deny");
}

#[test]
fn precedence_layer2_global_deny_beats_extension_allow() {
    let mut policy = ExtensionPolicy::default();
    policy.per_extension.insert(
        "ext".to_string(),
        ExtensionOverride {
            allow: vec!["exec".to_string()],
            ..Default::default()
        },
    );

    let check = policy.evaluate_for("exec", Some("ext"));
    assert_eq!(check.decision, PolicyDecision::Deny);
    assert_eq!(check.reason, "deny_caps");
}

#[test]
fn precedence_layer3_extension_allow_beats_mode_fallback() {
    let mut policy = ExtensionPolicy::default();
    policy.mode = ExtensionPolicyMode::Strict;
    policy.deny_caps = Vec::new();
    policy.per_extension.insert(
        "ext".to_string(),
        ExtensionOverride {
            allow: vec!["tool".to_string()],
            ..Default::default()
        },
    );

    let check = policy.evaluate_for("tool", Some("ext"));
    assert_eq!(check.decision, PolicyDecision::Allow);
    assert_eq!(check.reason, "extension_allow");
}

#[test]
fn precedence_layer4_default_caps_allows_before_mode() {
    let policy = ExtensionPolicy::default();
    let check = policy.evaluate("read");
    assert_eq!(check.decision, PolicyDecision::Allow);
    assert_eq!(check.reason, "default_caps");
}

#[test]
fn precedence_layer5_mode_fallback_when_nothing_matches() {
    let mut policy = ExtensionPolicy::default();
    policy.mode = ExtensionPolicyMode::Prompt;
    policy.deny_caps = Vec::new();
    let check = policy.evaluate("tool");
    assert_eq!(check.decision, PolicyDecision::Prompt);
    assert_eq!(check.reason, "prompt_required");

    policy.mode = ExtensionPolicyMode::Strict;
    let check = policy.evaluate("tool");
    assert_eq!(check.decision, PolicyDecision::Deny);
    assert_eq!(check.reason, "not_in_default_caps");

    policy.mode = ExtensionPolicyMode::Permissive;
    let check = policy.evaluate("tool");
    assert_eq!(check.decision, PolicyDecision::Allow);
    assert_eq!(check.reason, "permissive");
}

#[test]
fn evaluate_empty_capability_denied() {
    let policy = ExtensionPolicy::default();
    let check = policy.evaluate("");
    assert_eq!(check.decision, PolicyDecision::Deny);
    assert_eq!(check.reason, "empty_capability");
}

#[test]
fn evaluate_whitespace_only_denied() {
    let policy = ExtensionPolicy::default();
    let check = policy.evaluate("   ");
    assert_eq!(check.decision, PolicyDecision::Deny);
    assert_eq!(check.reason, "empty_capability");
}

#[test]
fn evaluate_for_unknown_extension_falls_through_to_global() {
    let policy = ExtensionPolicy::default();
    let check = policy.evaluate_for("read", Some("nonexistent"));
    assert_eq!(check.decision, PolicyDecision::Allow);
    assert_eq!(check.reason, "default_caps");
}

#[test]
fn evaluate_for_none_extension_same_as_evaluate() {
    let policy = ExtensionPolicy::default();
    let a = policy.evaluate("read");
    let b = policy.evaluate_for("read", None);
    assert_eq!(a.decision, b.decision);
    assert_eq!(a.reason, b.reason);
    assert_eq!(a.capability, b.capability);
}

#[test]
fn extension_override_case_insensitive_matching() {
    let mut policy = ExtensionPolicy::default();
    policy.deny_caps.clear();
    policy.per_extension.insert(
        "ext".to_string(),
        ExtensionOverride {
            allow: vec!["EXEC".to_string()],
            ..Default::default()
        },
    );

    let check = policy.evaluate_for("exec", Some("ext"));
    assert_eq!(check.decision, PolicyDecision::Allow);
    assert_eq!(check.reason, "extension_allow");
}

#[test]
fn multiple_extensions_independent() {
    let mut policy = ExtensionPolicy::default();
    policy.deny_caps.clear();
    policy.per_extension.insert(
        "ext-a".to_string(),
        ExtensionOverride {
            deny: vec!["http".to_string()],
            ..Default::default()
        },
    );
    policy.per_extension.insert(
        "ext-b".to_string(),
        ExtensionOverride {
            allow: vec!["exec".to_string()],
            ..Default::default()
        },
    );

    let check = policy.evaluate_for("http", Some("ext-a"));
    assert_eq!(check.decision, PolicyDecision::Deny);
    let check = policy.evaluate_for("exec", Some("ext-a"));
    assert_eq!(check.decision, PolicyDecision::Prompt);

    let check = policy.evaluate_for("http", Some("ext-b"));
    assert_eq!(check.decision, PolicyDecision::Allow);
    let check = policy.evaluate_for("exec", Some("ext-b"));
    assert_eq!(check.decision, PolicyDecision::Allow);
}
