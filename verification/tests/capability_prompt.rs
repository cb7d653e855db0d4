//! Permission store and prompt cache behavior.

use pi::perms::PermissionStore;

#[test]
fn lookup_missing_extension_returns_none() {
    let store = PermissionStore::new();
    assert_eq!(store.lookup("nonexistent", "exec"), None);
}

#[test]
fn lookup_missing_capability_returns_none() {
    let mut store = PermissionStore::new();
    store.record("ext", "exec", true);
    assert_eq!(store.lookup("ext", "http"), None);
}

#[test]
fn record_then_lookup_returns_last_value() {
    let mut store = PermissionStore::new();
    store.record("ext", "exec", true);
    assert_eq!(store.lookup("ext", "exec"), Some(true));
    store.record("ext", "exec", false);
    assert_eq!(store.lookup("ext", "exec"), Some(false));
}

#[test]
fn store_multiple_extensions_independent() {
    let mut store = PermissionStore::new();
    store.record("ext-a", "exec", true);
    store.record("ext-b", "exec", false);
    store.record("ext-a", "http", false);

    assert_eq!(store.lookup("ext-a", "exec"), Some(true));
    assert_eq!(store.lookup("ext-b", "exec"), Some(false));
    assert_eq!(store.lookup("ext-a", "http"), Some(false));
    assert_eq!(store.lookup("ext-b", "http"), None);

    store.revoke_extension("ext-a");
    assert_eq!(store.lookup("ext-a", "exec"), None);
    assert_eq!(store.lookup("ext-b", "exec"), Some(false));
}

#[test]
fn revoke_extension_clears_only_that_extension() {
    let mut store = PermissionStore::new();
    store.record("ext", "exec", true);
    store.record("ext", "http", true);
    store.record("other", "exec", true);
    store.revoke_extension("ext");
    assert_eq!(store.lookup("ext", "exec"), None);
    assert_eq!(store.lookup("ext", "http"), None);
    assert_eq!(store.lookup("other", "exec"), Some(true));
}

#[test]
fn revoke_nonexistent_extension_is_noop() {
    let mut store = PermissionStore::new();
    store.record("ext", "exec", true);
    store.revoke_extension("nonexistent-extension-xyz");
    assert_eq!(store.lookup("ext", "exec"), Some(true));
}

#[test]
fn reset_all_clears_all_cache_entries() {
    let mut store = PermissionStore::new();
    store.record("ext-a", "exec", true);
    store.record("ext-b", "http", false);
    store.reset_all();
    assert_eq!(store.lookup("ext-a", "exec"), None);
    assert_eq!(store.lookup("ext-b", "http"), None);
}

#[test]
fn record_after_revoke_takes_effect() {
    let mut store = PermissionStore::new();
    store.record("ext", "exec", true);
    store.revoke_extension("ext");
    store.record("ext", "exec", false);
    assert_eq!(store.lookup("ext", "exec"), Some(false));
}
