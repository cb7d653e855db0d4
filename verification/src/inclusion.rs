//! Inclusion-list generation for extension candidates: classification by
//! registration kinds and the rationale text for each included entry.

use vstd::prelude::*;
use crate::text::{dec_digits, str_eq, u64_to_string};

verus! {

/// Version pin strategy for an included extension.
#[derive(Debug, Clone)]
pub enum VersionPin {
    /// npm package with exact version.
    Npm { package: String, version: String, registry_url: String },
    /// Git repository with path and commit hash if available.
    Git { repo: String, path: Option<String>, commit: Option<String> },
    /// Direct URL.
    Url { url: String },
    /// Checksum-only pin, no upstream reference available.
    Checksum,
}

/// Extension category based on registration types.
#[derive(Debug, Clone, Copy, PartialEq, Eq, Structural)]
pub enum ExtensionCategory {
    /// Registers a custom tool.
    Tool,
    /// Registers a slash command.
    Command,
    /// Registers a custom provider.
    Provider,
    /// Registers event hooks.
    EventHook,
    /// Registers UI components (message renderer).
    UiComponent,
    /// Registers flags or shortcuts.
    Configuration,
    /// Multiple registration types.
    Multi,
    /// No specific registrations detected.
    General,
}

/// A single entry in the final inclusion list.
#[derive(Debug, Clone)]
pub struct InclusionEntry {
    pub id: String,
    pub name: String,
    pub tier: String,
    pub score: u32,
    pub category: ExtensionCategory,
    pub registrations: Vec<String>,
    pub version_pin: VersionPin,
    pub sha256: Option<String>,
    pub artifact_path: Option<String>,
    pub license: String,
    pub source_tier: String,
    pub rationale: String,
}

/// Exclusion note for high-scoring items not selected.
#[derive(Debug, Clone)]
pub struct ExclusionNote {
    pub id: String,
    pub score: u32,
    pub reason: String,
}

/// Aggregate statistics over the inclusion list.
#[derive(Debug, Clone)]
pub struct InclusionStats {
    pub total_included: usize,
    pub tier0_count: usize,
    pub tier1_count: usize,
    pub tier2_count: usize,
    pub excluded_count: usize,
    pub pinned_npm: usize,
    pub pinned_git: usize,
    pub pinned_url: usize,
    pub pinned_checksum_only: usize,
}

/// The final inclusion list document.
#[derive(Debug, Clone)]
pub struct InclusionList {
    pub schema: String,
    pub generated_at: String,
    pub task: String,
    pub stats: InclusionStats,
    pub tier0: Vec<InclusionEntry>,
    pub tier1: Vec<InclusionEntry>,
    pub tier2: Vec<InclusionEntry>,
    pub exclusions: Vec<ExclusionNote>,
    pub category_coverage: Vec<(String, usize)>,
}

/// A registration list mentions the given method name.
pub open spec fn regs_have(regs: Seq<String>, name: Seq<char>) -> bool {
    exists|i: int| 0 <= i < regs.len() && #[trigger] regs[i]@ == name
}

/// The category a registration list classifies to: more than one distinct
/// kind is `Multi`, none is `General`, otherwise the first entry decides.
pub open spec fn spec_classify(regs: Seq<String>) -> ExtensionCategory {
    let has_tool = regs_have(regs, "registerTool"@);
    let has_cmd = regs_have(regs, "registerCommand"@) || regs_have(regs, "registerSlashCommand"@);
    let has_provider = regs_have(regs, "registerProvider"@);
    let has_event = regs_have(regs, "registerEvent"@) || regs_have(regs, "registerEventHook"@);
    let has_ui = regs_have(regs, "registerMessageRenderer"@);
    let distinct = (if has_tool { 1int } else { 0int }) + (if has_cmd { 1int } else { 0int }) + (
        if has_provider { 1int } else { 0int }) + (if has_event { 1int } else { 0int }) + (
        if has_ui { 1int } else { 0int });
    if regs.len() > 1 && distinct > 1 {
        ExtensionCategory::Multi
    } else if regs.len() == 0 {
        ExtensionCategory::General
    } else if regs[0]@ == "registerTool"@ {
        ExtensionCategory::Tool
    } else if regs[0]@ == "registerCommand"@ || regs[0]@ == "registerSlashCommand"@ {
        ExtensionCategory::Command
    } else if regs[0]@ == "registerProvider"@ {
        ExtensionCategory::Provider
    } else if regs[0]@ == "registerEvent"@ || regs[0]@ == "registerEventHook"@ {
        ExtensionCategory::EventHook
    } else if regs[0]@ == "registerMessageRenderer"@ {
        ExtensionCategory::UiComponent
    } else if regs[0]@ == "registerFlag"@ || regs[0]@ == "registerShortcut"@ {
        ExtensionCategory::Configuration
    } else {
        ExtensionCategory::General
    }
}

/// Whether any entry of the list equals the given name.
fn regs_contain(regs: &[String], name: &str) -> (r: bool)
    ensures
        r == regs_have(regs@, name@),
{
    let n = regs.len();
    let mut i: usize = 0;
    while i < n
        invariant
            n == regs@.len(),
            i <= n,
            forall|k: int| 0 <= k < i ==> #[trigger] regs@[k]@ != name@,
        decreases n - i,
    {
        if str_eq(regs[i].as_str(), name) {
            return true;
        }
        i = i + 1;
    }
    false
}

/// Classify an extension by its registration types.
pub fn classify_registrations(registrations: &[String]) -> (r: ExtensionCategory)
    ensures
        r == spec_classify(registrations@),
{
    if registrations.len() > 1 {
        let has_tool = regs_contain(registrations, "registerTool");
        let has_cmd = regs_contain(registrations, "registerCommand") || regs_contain(
            registrations,
            "registerSlashCommand",
        );
        let has_provider = regs_contain(registrations, "registerProvider");
        let has_event = regs_contain(registrations, "registerEvent") || regs_contain(
            registrations,
            "registerEventHook",
        );
        let has_ui = regs_contain(registrations, "registerMessageRenderer");
        let mut distinct: u32 = 0;
        if has_tool {
            distinct = distinct + 1;
        }
        if has_cmd {
            distinct = distinct + 1;
        }
        if has_provider {
            distinct = distinct + 1;
        }
        if has_event {
            distinct = distinct + 1;
        }
        if has_ui {
            distinct = distinct + 1;
        }
        if distinct > 1 {
            return ExtensionCategory::Multi;
        }
    }
    if registrations.len() == 0 {
        return ExtensionCategory::General;
    }
    let first = registrations[0].as_str();
    if str_eq(first, "registerTool") {
        ExtensionCategory::Tool
    } else if str_eq(first, "registerCommand") || str_eq(first, "registerSlashCommand") {
        ExtensionCategory::Command
    } else if str_eq(first, "registerProvider") {
        ExtensionCategory::Provider
    } else if str_eq(first, "registerEvent") || str_eq(first, "registerEventHook") {
        ExtensionCategory::EventHook
    } else if str_eq(first, "registerMessageRenderer") {
        ExtensionCategory::UiComponent
    } else if str_eq(first, "registerFlag") || str_eq(first, "registerShortcut") {
        ExtensionCategory::Configuration
    } else {
        ExtensionCategory::General
    }
}

/// The tier part of a rationale.
pub open spec fn spec_tier_reason(tier: Seq<char>, score: int) -> Seq<char> {
    if tier == "tier-0"@ {
        "Official pi-mono baseline; must-pass conformance target"@
    } else if tier == "tier-1"@ {
        "High score ("@ + dec_digits(score) + "/100); passes all gates"@
    } else if tier == "tier-2"@ {
        "Moderate score ("@ + dec_digits(score) + "/100); stretch conformance target"@
    } else {
        "Excluded"@
    }
}

/// The category part of a rationale.
pub open spec fn spec_cat_reason(category: ExtensionCategory) -> Seq<char> {
    match category {
        ExtensionCategory::Tool => "Covers tool registration path"@,
        ExtensionCategory::Command => "Covers command/slash-command registration"@,
        ExtensionCategory::Provider => "Covers custom provider registration"@,
        ExtensionCategory::EventHook => "Covers event hook lifecycle"@,
        ExtensionCategory::UiComponent => "Covers UI component rendering"@,
        ExtensionCategory::Configuration => "Covers flag/shortcut configuration"@,
        ExtensionCategory::Multi => "Multi-type: covers multiple registration paths"@,
        ExtensionCategory::General => "General extension (export default)"@,
    }
}

/// The source part of a rationale.
pub open spec fn spec_source_reason(source_tier: Seq<char>) -> Seq<char> {
    if source_tier == "official-pi-mono"@ {
        "official"@
    } else if source_tier == "community"@ || source_tier == "agents-mikeastock"@ {
        "community"@
    } else if source_tier == "npm-registry"@ || source_tier == "npm-registry-pi"@ {
        "npm"@
    } else {
        source_tier
    }
}

/// The rationale line: tier, category and source reasons, joined with
/// periods.
pub open spec fn spec_rationale(
    tier: Seq<char>,
    score: int,
    category: ExtensionCategory,
    source_tier: Seq<char>,
) -> Seq<char> {
    spec_tier_reason(tier, score) + ". "@ + spec_cat_reason(category) + ". Source: "@
        + spec_source_reason(source_tier) + "."@
}

/// Build the inclusion rationale from tier, score, category and source.
pub fn build_rationale(
    tier: &str,
    score: u32,
    category: &ExtensionCategory,
    source_tier: &str,
) -> (r: String)
    ensures
        r@ == spec_rationale(tier@, score as int, *category, source_tier@),
{
    let mut out = String::new();
    if str_eq(tier, "tier-0") {
        out.append("Official pi-mono baseline; must-pass conformance target");
    } else if str_eq(tier, "tier-1") {
        out.append("High score (");
        let digits = u64_to_string(score as u64);
        out.append(digits.as_str());
        out.append("/100); passes all gates");
    } else if str_eq(tier, "tier-2") {
        out.append("Moderate score (");
        let digits = u64_to_string(score as u64);
        out.append(digits.as_str());
        out.append("/100); stretch conformance target");
    } else {
        out.append("Excluded");
    }
    out.append(". ");
    match category {
        ExtensionCategory::Tool => out.append("Covers tool registration path"),
        ExtensionCategory::Command => out.append("Covers command/slash-command registration"),
        ExtensionCategory::Provider => out.append("Covers custom provider registration"),
        ExtensionCategory::EventHook => out.append("Covers event hook lifecycle"),
        ExtensionCategory::UiComponent => out.append("Covers UI component rendering"),
        ExtensionCategory::Configuration => out.append("Covers flag/shortcut configuration"),
        ExtensionCategory::Multi => out.append("Multi-type: covers multiple registration paths"),
        ExtensionCategory::General => out.append("General extension (export default)"),
    }
    out.append(". Source: ");
    if str_eq(source_tier, "official-pi-mono") {
        out.append("official");
    } else if str_eq(source_tier, "community") || str_eq(source_tier, "agents-mikeastock") {
        out.append("community");
    } else if str_eq(source_tier, "npm-registry") || str_eq(source_tier, "npm-registry-pi") {
        out.append("npm");
    } else {
        out.append(source_tier);
    }
    out.append(".");
    out
}

} // verus!
