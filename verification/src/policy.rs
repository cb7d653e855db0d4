//! Capability policy: a closed capability set and the five-layer precedence
//! evaluation that decides whether a host call is allowed, denied, or needs a
//! user prompt.
//!
//! Layer order, first match wins: extension deny, global deny, extension
//! allow, global default capabilities, mode fallback. Capability tokens are
//! compared after trimming surrounding whitespace and lowering ASCII case.

use vstd::prelude::*;
use crate::text::{chars_eq, chars_eq_str, normalize_str, normalize_token, str_eq};

verus! {

/// Host-accessible resource classes, a closed set.
#[derive(Clone, Copy, Debug, Hash, PartialEq, Eq, Structural)]
pub enum Capability {
    Read,
    Write,
    Http,
    Events,
    Session,
    Ui,
    Exec,
    Env,
    Tool,
    Log,
}

/// The canonical token of a capability.
pub open spec fn spec_cap_token(c: Capability) -> Seq<char> {
    match c {
        Capability::Read => "read"@,
        Capability::Write => "write"@,
        Capability::Http => "http"@,
        Capability::Events => "events"@,
        Capability::Session => "session"@,
        Capability::Ui => "ui"@,
        Capability::Exec => "exec"@,
        Capability::Env => "env"@,
        Capability::Tool => "tool"@,
        Capability::Log => "log"@,
    }
}

/// The capability whose canonical token equals the normalized input, if any.
pub open spec fn spec_parse_cap(s: Seq<char>) -> Option<Capability> {
    let n = normalize_token(s);
    if n == "read"@ {
        Some(Capability::Read)
    } else if n == "write"@ {
        Some(Capability::Write)
    } else if n == "http"@ {
        Some(Capability::Http)
    } else if n == "events"@ {
        Some(Capability::Events)
    } else if n == "session"@ {
        Some(Capability::Session)
    } else if n == "ui"@ {
        Some(Capability::Ui)
    } else if n == "exec"@ {
        Some(Capability::Exec)
    } else if n == "env"@ {
        Some(Capability::Env)
    } else if n == "tool"@ {
        Some(Capability::Tool)
    } else if n == "log"@ {
        Some(Capability::Log)
    } else {
        None
    }
}

/// Every capability, in declaration order.
pub fn all_capabilities() -> (r: Vec<Capability>)
    ensures
        r@.len() == 10,
        r@[0] == Capability::Read,
        r@[1] == Capability::Write,
        r@[2] == Capability::Http,
        r@[3] == Capability::Events,
        r@[4] == Capability::Session,
        r@[5] == Capability::Ui,
        r@[6] == Capability::Exec,
        r@[7] == Capability::Env,
        r@[8] == Capability::Tool,
        r@[9] == Capability::Log,
{
    let mut v: Vec<Capability> = Vec::new();
    v.push(Capability::Read);
    v.push(Capability::Write);
    v.push(Capability::Http);
    v.push(Capability::Events);
    v.push(Capability::Session);
    v.push(Capability::Ui);
    v.push(Capability::Exec);
    v.push(Capability::Env);
    v.push(Capability::Tool);
    v.push(Capability::Log);
    v
}

impl Capability {
    /// Parse a capability token, case-insensitively, ignoring surrounding
    /// whitespace. Unknown tokens yield `None`.
    pub fn parse(s: &str) -> (r: Option<Capability>)
        ensures
            r == spec_parse_cap(s@),
    {
        let n = normalize_str(s);
        if chars_eq_str(&n, "read") {
            Some(Capability::Read)
        } else if chars_eq_str(&n, "write") {
            Some(Capability::Write)
        } else if chars_eq_str(&n, "http") {
            Some(Capability::Http)
        } else if chars_eq_str(&n, "events") {
            Some(Capability::Events)
        } else if chars_eq_str(&n, "session") {
            Some(Capability::Session)
        } else if chars_eq_str(&n, "ui") {
            Some(Capability::Ui)
        } else if chars_eq_str(&n, "exec") {
            Some(Capability::Exec)
        } else if chars_eq_str(&n, "env") {
            Some(Capability::Env)
        } else if chars_eq_str(&n, "tool") {
            Some(Capability::Tool)
        } else if chars_eq_str(&n, "log") {
            Some(Capability::Log)
        } else {
            None
        }
    }

    /// The canonical token of this capability.
    pub fn as_str(&self) -> (r: &'static str)
        ensures
            r@ == spec_cap_token(*self),
    {
        match self {
            Capability::Read => "read",
            Capability::Write => "write",
            Capability::Http => "http",
            Capability::Events => "events",
            Capability::Session => "session",
            Capability::Ui => "ui",
            Capability::Exec => "exec",
            Capability::Env => "env",
            Capability::Tool => "tool",
            Capability::Log => "log",
        }
    }

    /// Only `exec` and `env` are dangerous.
    pub fn is_dangerous(&self) -> (r: bool)
        ensures
            r == (*self == Capability::Exec || *self == Capability::Env),
    {
        match self {
            Capability::Exec => true,
            Capability::Env => true,
            _ => false,
        }
    }

    /// The dangerous capabilities, in declaration order.
    pub fn dangerous_list() -> (r: Vec<Capability>)
        ensures
            r@.len() == 2,
            r@[0] == Capability::Exec,
            r@[1] == Capability::Env,
    {
        let mut v: Vec<Capability> = Vec::new();
        v.push(Capability::Exec);
        v.push(Capability::Env);
        v
    }
}

/// The fallback behavior when no list matches a capability.
#[derive(Clone, Copy, Debug, PartialEq, Eq, Structural)]
pub enum ExtensionPolicyMode {
    /// Unlisted capabilities are denied.
    Strict,
    /// Unlisted capabilities require a user prompt.
    Prompt,
    /// Unlisted capabilities are allowed.
    Permissive,
}

/// What the policy decided for one capability.
#[derive(Clone, Copy, Debug, PartialEq, Eq, Structural)]
pub enum PolicyDecision {
    Allow,
    Deny,
    Prompt,
}

/// Per-extension exceptions to the global policy.
#[derive(Debug)]
pub struct ExtensionOverride {
    /// Mode that replaces the global mode for this extension, if set.
    pub mode: Option<ExtensionPolicyMode>,
    /// Capabilities always allowed for this extension (below global deny).
    pub allow: Vec<String>,
    /// Capabilities always denied for this extension (highest precedence).
    pub deny: Vec<String>,
}

impl Default for ExtensionOverride {
    /// An override with nothing set.
    fn default() -> (r: Self)
        ensures
            r.mode is None,
            r.allow@ =~= Seq::<String>::empty(),
            r.deny@ =~= Seq::<String>::empty(),
    {
        ExtensionOverride { mode: None, allow: Vec::new(), deny: Vec::new() }
    }
}

/// A capability list contains the given normalized token.
pub open spec fn spec_list_has(l: Seq<String>, cap: Seq<char>) -> bool {
    exists|i: int| 0 <= i < l.len() && normalize_token(#[trigger] l[i]@) == cap
}

/// Whether any entry of the list normalizes to the given token.
pub fn list_has_cap(l: &Vec<String>, cap: &Vec<char>) -> (r: bool)
    ensures
        r == spec_list_has(l@, cap@),
{
    let n = l.len();
    let mut i: usize = 0;
    while i < n
        invariant
            n == l@.len(),
            i <= n,
            forall|k: int| 0 <= k < i ==> normalize_token(#[trigger] l@[k]@) != cap@,
        decreases n - i,
    {
        let entry = normalize_str(l[i].as_str());
        if chars_eq(&entry, cap) {
            return true;
        }
        i = i + 1;
    }
    false
}

/// Per-extension override table keyed by extension id; a later insertion of
/// the same id shadows the earlier one.
#[derive(Debug)]
pub struct OverrideMap {
    entries: Vec<(String, ExtensionOverride)>,
}

/// The override that a lookup of `k` finds: the most recently inserted entry
/// whose key equals `k`.
pub open spec fn spec_lookup(entries: Seq<(String, ExtensionOverride)>, k: Seq<char>) -> Option<
    ExtensionOverride,
>
    decreases entries.len(),
{
    if entries.len() == 0 {
        None
    } else if entries.last().0@ == k {
        Some(entries.last().1)
    } else {
        spec_lookup(entries.drop_last(), k)
    }
}

impl OverrideMap {
    /// The table's abstract lookup function.
    pub closed spec fn spec_get(&self, k: Seq<char>) -> Option<ExtensionOverride> {
        spec_lookup(self.entries@, k)
    }

    /// An empty table.
    pub fn new() -> (r: Self)
        ensures
            forall|k: Seq<char>| r.spec_get(k) is None,
    {
        OverrideMap { entries: Vec::new() }
    }

    /// Register an override for an extension id, shadowing any earlier one.
    pub fn insert(&mut self, key: String, value: ExtensionOverride)
        ensures
            final(self).spec_get(key@) == Some::<ExtensionOverride>(value),
            forall|k: Seq<char>|
                k != key@ ==> final(self).spec_get(k) == old(self).spec_get(k),
    {
        self.entries.push((key, value));
        proof {
            assert(self.entries@.drop_last() =~= old(self).entries@);
        }
    }

    /// Index of the entry a lookup of `k` finds, if any.
    fn find(&self, k: &str) -> (r: Option<usize>)
        ensures
            match r {
                Some(i) => i < self.entries@.len() && self.entries@[i as int].0@ == k@
                    && self.spec_get(k@) == Some(self.entries@[i as int].1),
                None => self.spec_get(k@) is None,
            },
{
        let n = self.entries.len();
        let mut i: usize = n;
        proof {
            assert(self.entries@.subrange(0, n as int) =~= self.entries@);
        }
        while i > 0
            invariant
                n == self.entries@.len(),
                i <= n,
                spec_lookup(self.entries@, k@) == spec_lookup(
                    self.entries@.subrange(0, i as int),
                    k@,
                ),
        decreases i,
        {
            let hit = str_eq(self.entries[i - 1].0.as_str(), k);
            proof {
                let pre = self.entries@.subrange(0, i as int);
                assert(pre.last() == self.entries@[i - 1]);
                assert(pre.drop_last() =~= self.entries@.subrange(0, i - 1));
            }
            if hit {
                return Some(i - 1);
            }
            i = i - 1;
        }
        proof {
            assert(self.entries@.subrange(0, 0) =~= Seq::<(String, ExtensionOverride)>::empty());
        }
        None
    }

    /// Whether an override is registered for this extension id.
    pub fn contains_key(&self, k: &str) -> (r: bool)
        ensures
            r == (self.spec_get(k@) is Some),
    {
        self.find(k).is_some()
    }

    /// The mode override for this extension id, if one is set.
    pub fn mode_for(&self, k: &str) -> (r: Option<ExtensionPolicyMode>)
        ensures
            r == match self.spec_get(k@) {
                Some(o) => o.mode,
                None => None::<ExtensionPolicyMode>,
            },
    {
        match self.find(k) {
            Some(i) => self.entries[i].1.mode,
            None => None,
        }
    }

    /// Whether the extension's override denies the normalized capability.
    pub fn denies(&self, k: &str, ncap: &Vec<char>) -> (r: bool)
        ensures
            r == match self.spec_get(k@) {
                Some(o) => spec_list_has(o.deny@, ncap@),
                None => false,
            },
    {
        match self.find(k) {
            Some(i) => list_has_cap(&self.entries[i].1.deny, ncap),
            None => false,
        }
    }

    /// Whether the extension's override allows the normalized capability.
    pub fn allows(&self, k: &str, ncap: &Vec<char>) -> (r: bool)
        ensures
            r == match self.spec_get(k@) {
                Some(o) => spec_list_has(o.allow@, ncap@),
                None => false,
            },
    {
        match self.find(k) {
            Some(i) => list_has_cap(&self.entries[i].1.allow, ncap),
            None => false,
        }
    }
}

/// The views of the strings in a list.
pub open spec fn views_of(l: Seq<String>) -> Seq<Seq<char>> {
    Seq::new(l.len(), |i: int| l[i]@)
}

/// The view of an optional string slice.
pub open spec fn opt_str_view(s: Option<&str>) -> Option<Seq<char>> {
    match s {
        None => None,
        Some(e) => Some(e@),
    }
}

/// The global policy with per-extension overrides.
#[derive(Debug)]
pub struct ExtensionPolicy {
    /// Fallback behavior for capabilities no list mentions.
    pub mode: ExtensionPolicyMode,
    /// Capabilities allowed by default.
    pub default_caps: Vec<String>,
    /// Capabilities denied globally; extension allows cannot lift these.
    pub deny_caps: Vec<String>,
    /// Per-extension exceptions.
    pub per_extension: OverrideMap,
}

/// The mode that governs an extension: its override's mode if one is set,
/// else the global mode.
pub open spec fn spec_effective_mode(
    p: &ExtensionPolicy,
    ext: Option<Seq<char>>,
) -> ExtensionPolicyMode {
    match ext {
        None => p.mode,
        Some(e) => match p.per_extension.spec_get(e) {
            Some(o) => match o.mode {
                Some(m) => m,
                None => p.mode,
            },
            None => p.mode,
        },
    }
}

/// The target extension's override denies the normalized capability.
pub open spec fn spec_ext_denies(
    p: &ExtensionPolicy,
    ext: Option<Seq<char>>,
    ncap: Seq<char>,
) -> bool {
    match ext {
        None => false,
        Some(e) => match p.per_extension.spec_get(e) {
            Some(o) => spec_list_has(o.deny@, ncap),
            None => false,
        },
    }
}

/// The target extension's override allows the normalized capability.
pub open spec fn spec_ext_allows(
    p: &ExtensionPolicy,
    ext: Option<Seq<char>>,
    ncap: Seq<char>,
) -> bool {
    match ext {
        None => false,
        Some(e) => match p.per_extension.spec_get(e) {
            Some(o) => spec_list_has(o.allow@, ncap),
            None => false,
        },
    }
}

/// The five-layer decision, first match wins: extension deny, global deny,
/// extension allow, default capabilities, mode fallback. An empty capability
/// is denied outright.
pub open spec fn spec_decision(
    p: &ExtensionPolicy,
    cap: Seq<char>,
    ext: Option<Seq<char>>,
) -> PolicyDecision {
    let n = normalize_token(cap);
    if n.len() == 0 {
        PolicyDecision::Deny
    } else if spec_ext_denies(p, ext, n) {
        PolicyDecision::Deny
    } else if spec_list_has(p.deny_caps@, n) {
        PolicyDecision::Deny
    } else if spec_ext_allows(p, ext, n) {
        PolicyDecision::Allow
    } else if spec_list_has(p.default_caps@, n) {
        PolicyDecision::Allow
    } else {
        match spec_effective_mode(p, ext) {
            ExtensionPolicyMode::Strict => PolicyDecision::Deny,
            ExtensionPolicyMode::Prompt => PolicyDecision::Prompt,
            ExtensionPolicyMode::Permissive => PolicyDecision::Allow,
        }
    }
}

/// The machine-readable reason that accompanies each decision; the same
/// layer order as `spec_decision`.
pub open spec fn spec_reason(
    p: &ExtensionPolicy,
    cap: Seq<char>,
    ext: Option<Seq<char>>,
) -> Seq<char> {
    let n = normalize_token(cap);
    if n.len() == 0 {
        "empty_capability"@
    } else if spec_ext_denies(p, ext, n) {
        "extension_deny"@
    } else if spec_list_has(p.deny_caps@, n) {
        "deny_caps"@
    } else if spec_ext_allows(p, ext, n) {
        "extension_allow"@
    } else if spec_list_has(p.default_caps@, n) {
        "default_caps"@
    } else {
        match spec_effective_mode(p, ext) {
            ExtensionPolicyMode::Strict => "not_in_default_caps"@,
            ExtensionPolicyMode::Prompt => "prompt_required"@,
            ExtensionPolicyMode::Permissive => "permissive"@,
        }
    }
}

/// One policy decision together with its reason and the normalized
/// capability it was made for.
#[derive(Debug)]
pub struct PolicyCheck {
    pub decision: PolicyDecision,
    pub reason: String,
    pub capability: String,
}

impl ExtensionPolicy {
    /// Evaluate a capability for a target extension (or none). Decision and
    /// reason follow the five layers exactly.
    pub fn evaluate_for(&self, capability: &str, extension_id: Option<&str>) -> (r: PolicyCheck)
        ensures
            r.decision == spec_decision(self, capability@, opt_str_view(extension_id)),
            r.reason@ == spec_reason(self, capability@, opt_str_view(extension_id)),
            r.capability@ == normalize_token(capability@),
    {
        let ncap = crate::text::normalize_str(capability);
        let cap_string = crate::text::chars_to_string(&ncap);
        if ncap.len() == 0 {
            return PolicyCheck {
                decision: PolicyDecision::Deny,
                reason: "empty_capability".to_owned(),
                capability: cap_string,
            };
        }
        let ext_denies = match extension_id {
            Some(e) => self.per_extension.denies(e, &ncap),
            None => false,
        };
        if ext_denies {
            return PolicyCheck {
                decision: PolicyDecision::Deny,
                reason: "extension_deny".to_owned(),
                capability: cap_string,
            };
        }
        if list_has_cap(&self.deny_caps, &ncap) {
            return PolicyCheck {
                decision: PolicyDecision::Deny,
                reason: "deny_caps".to_owned(),
                capability: cap_string,
            };
        }
        let ext_allows = match extension_id {
            Some(e) => self.per_extension.allows(e, &ncap),
            None => false,
        };
        if ext_allows {
            return PolicyCheck {
                decision: PolicyDecision::Allow,
                reason: "extension_allow".to_owned(),
                capability: cap_string,
            };
        }
        if list_has_cap(&self.default_caps, &ncap) {
            return PolicyCheck {
                decision: PolicyDecision::Allow,
                reason: "default_caps".to_owned(),
                capability: cap_string,
            };
        }
        let effective = match extension_id {
            Some(e) => match self.per_extension.mode_for(e) {
                Some(m) => m,
                None => self.mode,
            },
            None => self.mode,
        };
        match effective {
            ExtensionPolicyMode::Strict => PolicyCheck {
                decision: PolicyDecision::Deny,
                reason: "not_in_default_caps".to_owned(),
                capability: cap_string,
            },
            ExtensionPolicyMode::Prompt => PolicyCheck {
                decision: PolicyDecision::Prompt,
                reason: "prompt_required".to_owned(),
                capability: cap_string,
            },
            ExtensionPolicyMode::Permissive => PolicyCheck {
                decision: PolicyDecision::Allow,
                reason: "permissive".to_owned(),
                capability: cap_string,
            },
        }
    }

    /// Evaluate a capability against the global rules alone.
    pub fn evaluate(&self, capability: &str) -> (r: PolicyCheck)
        ensures
            r.decision == spec_decision(self, capability@, None),
            r.reason@ == spec_reason(self, capability@, None),
            r.capability@ == normalize_token(capability@),
    {
        self.evaluate_for(capability, None)
    }

    /// Whether a per-extension override is registered for this id.
    pub fn has_override(&self, extension_id: &str) -> (r: bool)
        ensures
            r == (self.per_extension.spec_get(extension_id@) is Some),
    {
        self.per_extension.contains_key(extension_id)
    }

    /// The policy of a named profile.
    pub fn from_profile(profile: PolicyProfile) -> (r: ExtensionPolicy)
        ensures
            r.mode == spec_profile_mode(profile),
            views_of(r.default_caps@) =~= spec_profile_default_caps(),
            views_of(r.deny_caps@) =~= spec_profile_deny_caps(profile),
            forall|k: Seq<char>| r.per_extension.spec_get(k) is None,
    {
        profile.to_policy()
    }
}

impl Default for ExtensionPolicy {
    /// The standard profile: prompt mode, the safe defaults allowed, the
    /// dangerous capabilities denied.
    fn default() -> (r: Self)
        ensures
            r.mode == ExtensionPolicyMode::Prompt,
            views_of(r.default_caps@) =~= spec_profile_default_caps(),
            views_of(r.deny_caps@) =~= spec_profile_deny_caps(PolicyProfile::Standard),
            forall|k: Seq<char>| r.per_extension.spec_get(k) is None,
    {
        PolicyProfile::Standard.to_policy()
    }
}

/// Named policy presets.
#[derive(Clone, Copy, Debug, PartialEq, Eq, Structural)]
pub enum PolicyProfile {
    Safe,
    Standard,
    Permissive,
}

/// The mode each profile selects.
pub open spec fn spec_profile_mode(p: PolicyProfile) -> ExtensionPolicyMode {
    match p {
        PolicyProfile::Safe => ExtensionPolicyMode::Strict,
        PolicyProfile::Standard => ExtensionPolicyMode::Prompt,
        PolicyProfile::Permissive => ExtensionPolicyMode::Permissive,
    }
}

/// The default capabilities every profile allows.
pub open spec fn spec_profile_default_caps() -> Seq<Seq<char>> {
    seq!["read"@, "write"@, "http"@, "events"@, "session"@]
}

/// The capabilities each profile denies globally.
pub open spec fn spec_profile_deny_caps(p: PolicyProfile) -> Seq<Seq<char>> {
    match p {
        PolicyProfile::Safe => seq!["exec"@, "env"@],
        PolicyProfile::Standard => seq!["exec"@, "env"@],
        PolicyProfile::Permissive => Seq::empty(),
    }
}

impl PolicyProfile {
    /// Build the concrete policy of this profile.
    pub fn to_policy(&self) -> (r: ExtensionPolicy)
        ensures
            r.mode == spec_profile_mode(*self),
            views_of(r.default_caps@) =~= spec_profile_default_caps(),
            views_of(r.deny_caps@) =~= spec_profile_deny_caps(*self),
            forall|k: Seq<char>| r.per_extension.spec_get(k) is None,
    {
        let mut default_caps: Vec<String> = Vec::new();
        default_caps.push("read".to_owned());
        default_caps.push("write".to_owned());
        default_caps.push("http".to_owned());
        default_caps.push("events".to_owned());
        default_caps.push("session".to_owned());
        let mut deny_caps: Vec<String> = Vec::new();
        let mode = match self {
            PolicyProfile::Safe => ExtensionPolicyMode::Strict,
            PolicyProfile::Standard => ExtensionPolicyMode::Prompt,
            PolicyProfile::Permissive => ExtensionPolicyMode::Permissive,
        };
        match self {
            PolicyProfile::Permissive => {},
            _ => {
                deny_caps.push("exec".to_owned());
                deny_caps.push("env".to_owned());
            },
        }
        ExtensionPolicy { mode, default_caps, deny_caps, per_extension: OverrideMap::new() }
    }
}

/// The profile a configuration name selects; unknown names fall back to the
/// standard profile.
pub open spec fn spec_parse_profile(s: Seq<char>) -> PolicyProfile {
    let n = normalize_token(s);
    if n == "safe"@ {
        PolicyProfile::Safe
    } else if n == "permissive"@ {
        PolicyProfile::Permissive
    } else {
        PolicyProfile::Standard
    }
}

/// Parse a profile name, case-insensitively, ignoring surrounding
/// whitespace; unknown names fall back to the standard profile.
pub fn parse_profile(name: &str) -> (r: PolicyProfile)
    ensures
        r == spec_parse_profile(name@),
{
    let n = normalize_str(name);
    if chars_eq_str(&n, "safe") {
        PolicyProfile::Safe
    } else if chars_eq_str(&n, "permissive") {
        PolicyProfile::Permissive
    } else {
        PolicyProfile::Standard
    }
}

/// Extension policy settings as they arrive from configuration or the
/// command line.
#[derive(Debug)]
pub struct ExtensionPolicyConfig {
    /// Profile name; `None` or an unknown name selects the standard profile.
    pub profile: Option<String>,
    /// When set, the dangerous capabilities are removed from the global deny
    /// list after the profile is applied.
    pub allow_dangerous: Option<bool>,
}

/// A deny list entry survives the dangerous-capability exemption iff it
/// normalizes to neither `exec` nor `env`.
pub open spec fn keeps_on_allow_dangerous(s: String) -> bool {
    normalize_token(s@) != "exec"@ && normalize_token(s@) != "env"@
}

/// The exemption predicate as a function value, for use with `filter`.
pub open spec fn keep_pred() -> spec_fn(String) -> bool {
    |s: String| keeps_on_allow_dangerous(s)
}

/// Build the policy a configuration selects: its profile's policy, with
/// `exec` and `env` removed from the global deny list when
/// `allow_dangerous` is set.
pub fn resolve_policy(config: &ExtensionPolicyConfig) -> (r: ExtensionPolicy)
    ensures
        ({
            let profile = match config.profile {
                Some(ref p) => spec_parse_profile(p@),
                None => PolicyProfile::Standard,
            };
            &&& r.mode == spec_profile_mode(profile)
            &&& views_of(r.default_caps@) =~= spec_profile_default_caps()
            &&& (forall|k: Seq<char>| r.per_extension.spec_get(k) is None)
            &&& if config.allow_dangerous == Some(true) {
                exists|base: Vec<String>|
                    views_of(#[trigger] base@) =~= spec_profile_deny_caps(profile)
                        && r.deny_caps@ == base@.filter(keep_pred())
            } else {
                views_of(r.deny_caps@) =~= spec_profile_deny_caps(profile)
            }
        }),
{
    let profile = match config.profile {
        Some(ref p) => parse_profile(p.as_str()),
        None => PolicyProfile::Standard,
    };
    let mut policy = profile.to_policy();
    let allow_dangerous = match config.allow_dangerous {
        Some(b) => b,
        None => false,
    };
    if allow_dangerous {
        let ghost base = policy.deny_caps;
        let filtered = remove_dangerous_caps(&policy.deny_caps);
        policy.deny_caps = filtered;
        proof {
            assert(views_of(base@) =~= spec_profile_deny_caps(profile));
        }
    }
    policy
}

/// Copy a deny list, leaving out entries that normalize to `exec` or `env`.
fn remove_dangerous_caps(l: &Vec<String>) -> (r: Vec<String>)
    ensures
        r@ == l@.filter(keep_pred()),
{
    let n = l.len();
    let mut r: Vec<String> = Vec::new();
    let mut i: usize = 0;
    proof {
        assert(l@.subrange(0, 0) =~= Seq::<String>::empty());
        reveal(Seq::filter);
    }
    while i < n
        invariant
            n == l@.len(),
            i <= n,
            r@ == l@.subrange(0, i as int).filter(keep_pred()),
        decreases n - i,
    {
        let entry = normalize_str(l[i].as_str());
        let keep = !chars_eq_str(&entry, "exec") && !chars_eq_str(&entry, "env");
        if keep {
            r.push(l[i].clone());
        }
        proof {
            let pred = keep_pred();
            let pre = l@.subrange(0, i as int);
            let post = l@.subrange(0, i + 1);
            assert(post.drop_last() =~= pre);
            assert(post.last() == l@[i as int]);
            assert(post.filter(pred) == if pred(l@[i as int]) {
                pre.filter(pred).push(l@[i as int])
            } else {
                pre.filter(pred)
            }) by {
                reveal(Seq::filter);
            }
        }
        i = i + 1;
    }
    proof {
        assert(l@.subrange(0, n as int) =~= l@);
    }
    r
}

/// Copy a string, keeping its characters.
pub fn copy_string(s: &String) -> (r: String)
    ensures
        r@ == s@,
{
    let v = crate::text::str_to_chars(s.as_str());
    crate::text::chars_to_string(&v)
}

/// Exactly one decision comes back, and its reason is drawn from the fixed
/// set of stable reason strings.
pub proof fn lemma_reason_is_stable(p: &ExtensionPolicy, cap: Seq<char>, ext: Option<Seq<char>>)
    ensures
        spec_reason(p, cap, ext) == "empty_capability"@ || spec_reason(p, cap, ext)
            == "extension_deny"@ || spec_reason(p, cap, ext) == "deny_caps"@ || spec_reason(
            p,
            cap,
            ext,
        ) == "extension_allow"@ || spec_reason(p, cap, ext) == "default_caps"@ || spec_reason(
            p,
            cap,
            ext,
        ) == "not_in_default_caps"@ || spec_reason(p, cap, ext) == "prompt_required"@
            || spec_reason(p, cap, ext) == "permissive"@,
{
}

/// A capability in the global deny list is denied for every extension, no
/// matter what its override allows.
pub proof fn lemma_global_deny_wins(p: &ExtensionPolicy, cap: Seq<char>, ext: Option<Seq<char>>)
    requires
        spec_list_has(p.deny_caps@, normalize_token(cap)),
    ensures
        spec_decision(p, cap, ext) == PolicyDecision::Deny,
{
}

/// A capability in the target extension's override deny list is denied, no
/// matter what the global lists or modes say.
pub proof fn lemma_extension_deny_wins(p: &ExtensionPolicy, cap: Seq<char>, e: Seq<char>)
    requires
        match p.per_extension.spec_get(e) {
            Some(o) => spec_list_has(o.deny@, normalize_token(cap)),
            None => false,
        },
    ensures
        spec_decision(p, cap, Some(e)) == PolicyDecision::Deny,
{
}

} // verus!
