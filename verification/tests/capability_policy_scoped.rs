//! Scoped policy enforcement through the host-call pipeline: the
//! method-to-capability mapping, request validation, and the dispatch plan
//! with the prompt cache.

use pi::hostcall::{
    plan_host_call, required_capability_for_host_call, DispatchPlan, HostCallErrorCode,
    HostCallPayload, JsonValue,
};
use pi::perms::PermissionStore;
use pi::policy::{ExtensionPolicy, ExtensionPolicyMode, PolicyProfile};

fn obj(fields: Vec<(&str, JsonValue)>) -> JsonValue {
    JsonValue::Object(
        fields
            .into_iter()
            .map(|(k, v)| (k.to_string(), v))
            .collect(),
    )
}

fn make_call(call_id: &str, method: &str, capability: &str, params: JsonValue) -> HostCallPayload {
    HostCallPayload {
        call_id: call_id.to_string(),
        capability: capability.to_string(),
        method: method.to_string(),
        params,
        timeout_ms: None,
        cancel_token: None,
        context: None,
    }
}

fn tool_call(tool_name: &str) -> HostCallPayload {
    make_call(
        "test-tool",
        "tool",
        "tool",
        obj(vec![
            ("name", JsonValue::Text(tool_name.to_string())),
            ("input", JsonValue::Object(Vec::new())),
        ]),
    )
}

fn fs_call(op: &str) -> HostCallPayload {
    make_call(
        "test-fs",
        "fs",
        "read",
        obj(vec![
            ("op", JsonValue::Text(op.to_string())),
            ("path", JsonValue::Text("/tmp/test".to_string())),
        ]),
    )
}

fn method_call(method: &str) -> HostCallPayload {
    make_call("test-method", method, method, obj(Vec::new()))
}

#[test]
fn tool_read_maps_to_read() {
    assert_eq!(
        required_capability_for_host_call(&tool_call("read")).as_deref(),
        Some("read")
    );
}

#[test]
fn tool_grep_maps_to_read() {
    assert_eq!(
        required_capability_for_host_call(&tool_call("grep")).as_deref(),
        Some("read")
    );
}

#[test]
fn tool_find_maps_to_read() {
    assert_eq!(
        required_capability_for_host_call(&tool_call("find")).as_deref(),
        Some("read")
    );
}

#[test]
fn tool_ls_maps_to_read() {
    assert_eq!(
        required_capability_for_host_call(&tool_call("ls")).as_deref(),
        Some("read")
    );
}

#[test]
fn tool_write_maps_to_write() {
    assert_eq!(
        required_capability_for_host_call(&tool_call("write")).as_deref(),
        Some("write")
    );
}

#[test]
fn tool_edit_maps_to_write() {
    assert_eq!(
        required_capability_for_host_call(&tool_call("edit")).as_deref(),
        Some("write")
    );
}

#[test]
fn tool_bash_maps_to_exec() {
    assert_eq!(
        required_capability_for_host_call(&tool_call("bash")).as_deref(),
        Some("exec")
    );
}

#[test]
fn tool_unknown_maps_to_tool() {
    assert_eq!(
        required_capability_for_host_call(&tool_call("custom-tool")).as_deref(),
        Some("tool")
    );
}

#[test]
fn tool_name_case_insensitive() {
    assert_eq!(
        required_capability_for_host_call(&tool_call("READ")).as_deref(),
        Some("read")
    );
    assert_eq!(
        required_capability_for_host_call(&tool_call("BASH")).as_deref(),
        Some("exec")
    );
    assert_eq!(
        required_capability_for_host_call(&tool_call("Edit")).as_deref(),
        Some("write")
    );
}

#[test]
fn tool_name_trimmed() {
    assert_eq!(
        required_capability_for_host_call(&tool_call("  read  ")).as_deref(),
        Some("read")
    );
}

#[test]
fn tool_empty_name_returns_none() {
    assert!(required_capability_for_host_call(&tool_call("")).is_none());
}

#[test]
fn tool_missing_name_returns_none() {
    let call = make_call("test-tool-no-name", "tool", "tool", obj(Vec::new()));
    assert!(required_capability_for_host_call(&call).is_none());
}

#[test]
fn fs_read_ops_map_to_read() {
    for op in ["read", "list", "readdir", "stat"] {
        assert_eq!(
            required_capability_for_host_call(&fs_call(op)).as_deref(),
            Some("read"),
            "fs op {op}"
        );
    }
}

#[test]
fn fs_write_ops_map_to_write() {
    for op in ["write", "mkdir", "delete", "remove", "rm"] {
        assert_eq!(
            required_capability_for_host_call(&fs_call(op)).as_deref(),
            Some("write"),
            "fs op {op}"
        );
    }
}

#[test]
fn fs_op_case_insensitive() {
    assert_eq!(
        required_capability_for_host_call(&fs_call("READ")).as_deref(),
        Some("read")
    );
    assert_eq!(
        required_capability_for_host_call(&fs_call("DELETE")).as_deref(),
        Some("write")
    );
}

#[test]
fn fs_unknown_op_returns_none() {
    assert!(required_capability_for_host_call(&fs_call("truncate")).is_none());
}

#[test]
fn fs_missing_op_returns_none() {
    let call = make_call(
        "test-fs-no-op",
        "fs",
        "read",
        obj(vec![("path", JsonValue::Text("/tmp/test".to_string()))]),
    );
    assert!(required_capability_for_host_call(&call).is_none());
}

#[test]
fn all_direct_methods_map_correctly() {
    let expected = [
        ("exec", "exec"),
        ("env", "env"),
        ("http", "http"),
        ("session", "session"),
        ("ui", "ui"),
        ("events", "events"),
        ("log", "log"),
    ];
    for (method, expected_cap) in expected {
        assert_eq!(
            required_capability_for_host_call(&method_call(method)).as_deref(),
            Some(expected_cap),
            "method {method} should map to {expected_cap}"
        );
    }
}

#[test]
fn unknown_method_returns_none() {
    assert!(required_capability_for_host_call(&method_call("compute")).is_none());
    assert!(required_capability_for_host_call(&method_call("gpu")).is_none());
}

#[test]
fn method_case_insensitive() {
    assert_eq!(
        required_capability_for_host_call(&method_call("EXEC")).as_deref(),
        Some("exec")
    );
    assert_eq!(
        required_capability_for_host_call(&method_call("Http")).as_deref(),
        Some("http")
    );
}

#[test]
fn method_trimmed() {
    let call = make_call("test-trim", "  exec  ", "exec", obj(Vec::new()));
    assert_eq!(
        required_capability_for_host_call(&call).as_deref(),
        Some("exec")
    );
}

fn expect_reject(plan: DispatchPlan, code: HostCallErrorCode, call_id: &str) -> String {
    match plan {
        DispatchPlan::Reject(res) => {
            assert!(res.is_error);
            assert_eq!(res.call_id, call_id);
            let err = res.error.expect("error");
            assert_eq!(err.code, code);
            err.message
        }
        other => panic!("expected a rejection, got {other:?}"),
    }
}

#[test]
fn empty_call_id_returns_invalid_request() {
    let policy = ExtensionPolicy::default();
    let cache = PermissionStore::new();
    let call = make_call("", "tool", "read", obj(Vec::new()));
    let plan = plan_host_call(&policy, &cache, Some("ext"), false, &call);
    expect_reject(plan, HostCallErrorCode::InvalidRequest, "");
}

#[test]
fn whitespace_only_call_id_returns_invalid_request() {
    let policy = ExtensionPolicy::default();
    let cache = PermissionStore::new();
    let call = make_call("   ", "tool", "read", obj(Vec::new()));
    let plan = plan_host_call(&policy, &cache, Some("ext"), false, &call);
    expect_reject(plan, HostCallErrorCode::InvalidRequest, "   ");
}

#[test]
fn empty_capability_returns_invalid_request() {
    let policy = ExtensionPolicy::default();
    let cache = PermissionStore::new();
    let call = make_call("empty-cap", "tool", "", obj(Vec::new()));
    let plan = plan_host_call(&policy, &cache, None, false, &call);
    expect_reject(plan, HostCallErrorCode::InvalidRequest, "empty-cap");
}

#[test]
fn empty_method_returns_invalid_request() {
    let policy = ExtensionPolicy::default();
    let cache = PermissionStore::new();
    let call = make_call("empty-method", "", "read", obj(Vec::new()));
    let plan = plan_host_call(&policy, &cache, None, false, &call);
    expect_reject(plan, HostCallErrorCode::InvalidRequest, "empty-method");
}

#[test]
fn non_object_params_returns_invalid_request() {
    let policy = ExtensionPolicy::default();
    let cache = PermissionStore::new();
    let call = make_call(
        "bad-params",
        "tool",
        "read",
        JsonValue::Text("not an object".to_string()),
    );
    let plan = plan_host_call(&policy, &cache, None, false, &call);
    expect_reject(plan, HostCallErrorCode::InvalidRequest, "bad-params");
}

#[test]
fn safe_profile_denies_exec() {
    let policy = PolicyProfile::Safe.to_policy();
    let cache = PermissionStore::new();
    let call = make_call("exec-1", "exec", "exec", obj(Vec::new()));
    let plan = plan_host_call(&policy, &cache, None, false, &call);
    let message = expect_reject(plan, HostCallErrorCode::Denied, "exec-1");
    assert!(message.contains("deny_caps"));
}

#[test]
fn tool_name_maps_to_denied_capability() {
    let policy = PolicyProfile::Standard.to_policy();
    let cache = PermissionStore::new();
    let call = make_call(
        "bash-1",
        "tool",
        "tool",
        obj(vec![
            ("name", JsonValue::Text("bash".to_string())),
            (
                "input",
                obj(vec![("command", JsonValue::Text("ls".to_string()))]),
            ),
        ]),
    );
    let plan = plan_host_call(&policy, &cache, None, false, &call);
    let message = expect_reject(plan, HostCallErrorCode::Denied, "bash-1");
    assert!(message.contains("deny_caps"));
    assert!(message.contains("exec"));
}

#[test]
fn extension_override_deny_beats_global_allow() {
    let mut policy = PolicyProfile::Standard.to_policy();
    policy.per_extension.insert(
        "ext-a".to_string(),
        pi::policy::ExtensionOverride {
            deny: vec!["http".to_string()],
            ..Default::default()
        },
    );
    let cache = PermissionStore::new();

    let call_a = make_call("http-a", "http", "http", obj(Vec::new()));
    let plan_a = plan_host_call(&policy, &cache, Some("ext-a"), false, &call_a);
    let message = expect_reject(plan_a, HostCallErrorCode::Denied, "http-a");
    assert!(message.contains("extension_deny"));

    let call_b = make_call("http-b", "http", "http", obj(Vec::new()));
    let plan_b = plan_host_call(&policy, &cache, Some("ext-b"), false, &call_b);
    assert!(matches!(
        plan_b,
        DispatchPlan::Execute { capability } if capability == "http"
    ));
}

#[test]
fn prompt_cache_hit_allows() {
    let mut policy = ExtensionPolicy::default();
    policy.mode = ExtensionPolicyMode::Prompt;
    policy.deny_caps = Vec::new();
    policy.default_caps = vec!["read".to_string()];

    let mut cache = PermissionStore::new();
    cache.record("ext-a", "exec", true);

    let call = make_call("cached-allow", "exec", "exec", obj(Vec::new()));
    let plan = plan_host_call(&policy, &cache, Some("ext-a"), false, &call);
    assert!(matches!(
        plan,
        DispatchPlan::Execute { capability } if capability == "exec"
    ));
}

#[test]
fn prompt_cache_deny_blocks() {
    let mut policy = ExtensionPolicy::default();
    policy.mode = ExtensionPolicyMode::Prompt;
    policy.deny_caps = Vec::new();
    policy.default_caps = vec!["read".to_string()];

    let mut cache = PermissionStore::new();
    cache.record("test-ext", "exec", false);

    let call = make_call("cached-deny", "exec", "exec", obj(Vec::new()));
    let plan = plan_host_call(&policy, &cache, Some("test-ext"), false, &call);
    expect_reject(plan, HostCallErrorCode::Denied, "cached-deny");
}

#[test]
fn prompt_without_ui_falls_to_deny() {
    let mut policy = ExtensionPolicy::default();
    policy.mode = ExtensionPolicyMode::Prompt;
    policy.deny_caps = Vec::new();
    policy.default_caps = vec!["read".to_string()];
    let cache = PermissionStore::new();

    let call = make_call("prompt-deny", "exec", "exec", obj(Vec::new()));
    let plan = plan_host_call(&policy, &cache, Some("test-ext"), false, &call);
    expect_reject(plan, HostCallErrorCode::Denied, "prompt-deny");
}

#[test]
fn prompt_with_ui_asks() {
    let mut policy = ExtensionPolicy::default();
    policy.mode = ExtensionPolicyMode::Prompt;
    policy.deny_caps = Vec::new();
    policy.default_caps = vec!["read".to_string()];
    let cache = PermissionStore::new();

    let call = make_call("prompt-ask", "exec", "exec", obj(Vec::new()));
    let plan = plan_host_call(&policy, &cache, Some("test-ext"), true, &call);
    assert!(matches!(
        plan,
        DispatchPlan::NeedsPrompt { capability } if capability == "exec"
    ));
}

#[test]
fn prompt_cache_keyed_by_extension_id() {
    let mut policy = ExtensionPolicy::default();
    policy.mode = ExtensionPolicyMode::Prompt;
    policy.deny_caps = Vec::new();
    policy.default_caps = vec!["read".to_string()];

    let mut cache = PermissionStore::new();
    cache.record("ext-a", "exec", true);

    let call_a = make_call("ext-a-exec", "exec", "exec", obj(Vec::new()));
    let plan_a = plan_host_call(&policy, &cache, Some("ext-a"), false, &call_a);
    assert!(matches!(plan_a, DispatchPlan::Execute { .. }));

    let call_b = make_call("ext-b-exec", "exec", "exec", obj(Vec::new()));
    let plan_b = plan_host_call(&policy, &cache, Some("ext-b"), false, &call_b);
    expect_reject(plan_b, HostCallErrorCode::Denied, "ext-b-exec");
}

#[test]
fn safe_profile_denies_all_dangerous_caps() {
    let policy = PolicyProfile::Safe.to_policy();
    for cap in pi::policy::Capability::dangerous_list() {
        let check = policy.evaluate(cap.as_str());
        assert_eq!(
            check.decision,
            pi::policy::PolicyDecision::Deny,
            "Safe profile should deny {}",
            cap.as_str()
        );
    }
}

#[test]
fn safe_profile_denies_unknown_caps() {
    let policy = PolicyProfile::Safe.to_policy();
    for cap in ["ui", "log", "tool"] {
        let check = policy.evaluate(cap);
        assert_eq!(
            check.decision,
            pi::policy::PolicyDecision::Deny,
            "Safe/Strict should deny {cap}"
        );
    }
}

#[test]
fn standard_profile_prompts_for_unknown_caps() {
    let policy = PolicyProfile::Standard.to_policy();
    for cap in ["ui", "log", "tool"] {
        let check = policy.evaluate(cap);
        assert_eq!(
            check.decision,
            pi::policy::PolicyDecision::Prompt,
            "Standard should prompt for {cap}"
        );
    }
}

#[test]
fn all_profiles_allow_default_safe_caps() {
    let safe_caps = ["read", "write", "http", "events", "session"];
    for profile in [
        PolicyProfile::Safe,
        PolicyProfile::Standard,
        PolicyProfile::Permissive,
    ] {
        let policy = profile.to_policy();
        for cap in &safe_caps {
            let check = policy.evaluate(cap);
            assert_eq!(
                check.decision,
                pi::policy::PolicyDecision::Allow,
                "{profile:?} should allow {cap}"
            );
        }
    }
}

#[test]
fn resolve_policy_allow_dangerous_unlocks_exec() {
    let config = pi::policy::ExtensionPolicyConfig {
        profile: Some("standard".to_string()),
        allow_dangerous: Some(true),
    };
    let policy = pi::policy::resolve_policy(&config);
    assert!(policy.deny_caps.is_empty());

    let config2 = pi::policy::ExtensionPolicyConfig {
        profile: Some("standard".to_string()),
        allow_dangerous: Some(false),
    };
    let policy2 = pi::policy::resolve_policy(&config2);
    assert!(policy2.deny_caps.contains(&"exec".to_string()));
}

#[test]
fn unknown_profile_name_falls_to_standard() {
    assert_eq!(
        pi::policy::parse_profile("fancy"),
        PolicyProfile::Standard
    );
    assert_eq!(pi::policy::parse_profile(" SAFE "), PolicyProfile::Safe);
    assert_eq!(
        pi::policy::parse_profile("Permissive"),
        PolicyProfile::Permissive
    );
}
