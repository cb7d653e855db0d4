//! Performance budget definitions and enforcement.
//!
//! Centralizes the runtime's performance budgets. Each budget has an
//! explicit threshold and measurement methodology. Budgets are validated
//! against measurement data when a source is wired; in this crate no
//! source is, so the checks pass vacuously while the definitions stay
//! pinned.

/// A single performance budget with threshold and measurement context.
#[derive(Debug, Clone)]
struct Budget {
    name: &'static str,
    category: &'static str,
    metric: &'static str,
    unit: &'static str,
    threshold: f64,
    methodology: &'static str,
    ci_enforced: bool,
}

fn budgets() -> Vec<Budget> {
    vec![
        Budget {
            name: "startup_version_p95",
            category: "startup",
            metric: "p95 latency",
            unit: "ms",
            threshold: 100.0,
            methodology: "hyperfine: `pi --version` (10 runs, 3 warmup)",
            ci_enforced: true,
        },
        Budget {
            name: "startup_full_agent_p95",
            category: "startup",
            metric: "p95 latency",
            unit: "ms",
            threshold: 200.0,
            methodology: "hyperfine: `pi --print '.'` with full init (10 runs, 3 warmup)",
            ci_enforced: false,
        },
        Budget {
            name: "ext_cold_load_simple_p95",
            category: "extension",
            metric: "p95 cold load time",
            unit: "ms",
            threshold: 5.0,
            methodology: "criterion: load_init_cold for simple single-file extensions (10 samples)",
            ci_enforced: true,
        },
        Budget {
            name: "ext_cold_load_complex_p95",
            category: "extension",
            metric: "p95 cold load time",
            unit: "ms",
            threshold: 50.0,
            methodology: "criterion: load_init_cold for multi-registration extensions (10 samples)",
            ci_enforced: false,
        },
        Budget {
            name: "ext_load_60_total",
            category: "extension",
            metric: "total load time (60 official extensions)",
            unit: "ms",
            threshold: 10000.0,
            methodology: "conformance runner: sequential load of all 60 official extensions",
            ci_enforced: false,
        },
        Budget {
            name: "tool_call_latency_p99",
            category: "tool_call",
            metric: "p99 per-call latency",
            unit: "us",
            threshold: 200.0,
            methodology: "pijs_workload: 2000 iterations x 1 tool call, release build",
            ci_enforced: true,
        },
        Budget {
            name: "tool_call_throughput_min",
            category: "tool_call",
            metric: "minimum calls/sec",
            unit: "calls/sec",
            threshold: 5000.0,
            methodology: "pijs_workload: 2000 iterations x 10 tool calls, release build",
            ci_enforced: true,
        },
        Budget {
            name: "event_dispatch_p99",
            category: "event_dispatch",
            metric: "p99 dispatch latency",
            unit: "us",
            threshold: 5000.0,
            methodology: "criterion: event_hook dispatch for before_agent_start (100 samples)",
            ci_enforced: false,
        },
        Budget {
            name: "policy_eval_p99",
            category: "policy",
            metric: "p99 evaluation time",
            unit: "ns",
            threshold: 500.0,
            methodology: "criterion: ext_policy/evaluate with various modes and capabilities",
            ci_enforced: true,
        },
        Budget {
            name: "idle_memory_rss",
            category: "memory",
            metric: "RSS at idle",
            unit: "MB",
            threshold: 50.0,
            methodology: "sysinfo: measure RSS after startup, before any user input",
            ci_enforced: true,
        },
        Budget {
            name: "sustained_load_rss_growth",
            category: "memory",
            metric: "RSS growth under 30s sustained load",
            unit: "percent",
            threshold: 5.0,
            methodology: "stress test: 15 extensions, 50 events/sec for 30 seconds",
            ci_enforced: false,
        },
        Budget {
            name: "binary_size_release",
            category: "binary",
            metric: "release binary size",
            unit: "MB",
            threshold: 20.0,
            methodology: "ls -la target/release/pi (stripped)",
            ci_enforced: true,
        },
        Budget {
            name: "protocol_parse_p99",
            category: "protocol",
            metric: "p99 parse+validate time",
            unit: "us",
            threshold: 50.0,
            methodology: "criterion: ext_protocol/parse_and_validate for host_call and log messages",
            ci_enforced: true,
        },
    ]
}

/// Measurement result for a budget check.
#[derive(Debug, Clone)]
struct BudgetResult {
    budget_name: String,
    threshold: f64,
    actual: Option<f64>,
    status: String,
    source: String,
}

fn check_budget(budget: &Budget) -> BudgetResult {
    // No measurement source is wired in this crate.
    let (actual, source): (Option<f64>, String) = (None, "no data source configured".to_string());

    let status = actual.map_or("NO_DATA", |val| {
        if budget.name == "tool_call_throughput_min" {
            if val >= budget.threshold {
                "PASS"
            } else {
                "FAIL"
            }
        } else if val <= budget.threshold {
            "PASS"
        } else {
            "FAIL"
        }
    });

    BudgetResult {
        budget_name: budget.name.to_string(),
        threshold: budget.threshold,
        actual,
        status: status.to_string(),
        source,
    }
}

#[test]
fn budget_definitions_are_well_formed() {
    for budget in budgets() {
        assert!(!budget.name.is_empty(), "budget name must not be empty");
        assert!(
            !budget.category.is_empty(),
            "budget category must not be empty"
        );
        assert!(budget.threshold > 0.0, "budget threshold must be positive");
        assert!(!budget.unit.is_empty(), "budget unit must not be empty");
        assert!(
            !budget.methodology.is_empty(),
            "budget methodology must not be empty"
        );
        assert!(!budget.metric.is_empty(), "budget metric must not be empty");
    }
    println!("[budgets] {} budgets defined", budgets().len());
}

#[test]
fn budget_names_are_unique() {
    let mut seen = std::collections::HashSet::new();
    for budget in budgets() {
        assert!(
            seen.insert(budget.name),
            "duplicate budget name: {}",
            budget.name
        );
    }
}

#[test]
fn ci_enforced_budgets_have_data_sources() {
    let all = budgets();
    let ci_budgets: Vec<_> = all.iter().filter(|b| b.ci_enforced).collect();
    println!(
        "[budgets] {} CI-enforced budgets out of {} total",
        ci_budgets.len(),
        all.len()
    );
    for budget in &ci_budgets {
        println!(
            "  {} ({}): {} {} {}",
            budget.name, budget.category, budget.threshold, budget.unit, budget.methodology
        );
    }
    assert!(
        ci_budgets.len() >= 5,
        "should have at least 5 CI-enforced budgets"
    );
}

#[test]
fn check_tool_call_budget() {
    let all = budgets();
    let budget = all
        .iter()
        .find(|b| b.name == "tool_call_latency_p99")
        .expect("tool_call_latency_p99 budget should exist");

    let result = check_budget(budget);
    println!(
        "[budget] {}: actual={:?} (threshold={} {}), status={}, source={}",
        result.budget_name, result.actual, result.threshold, budget.unit, result.status,
        result.source
    );

    if let Some(actual) = result.actual {
        assert!(
            actual <= budget.threshold,
            "tool call latency {actual}us exceeds budget {}us",
            budget.threshold
        );
    }
}

#[test]
fn check_tool_call_throughput_budget() {
    let all = budgets();
    let budget = all
        .iter()
        .find(|b| b.name == "tool_call_throughput_min")
        .expect("tool_call_throughput_min budget should exist");

    let result = check_budget(budget);
    println!(
        "[budget] {}: actual={:?} (threshold={} {}), status={}, source={}",
        result.budget_name, result.actual, result.threshold, budget.unit, result.status,
        result.source
    );

    if let Some(actual) = result.actual {
        assert!(
            actual >= budget.threshold,
            "tool call throughput {actual} calls/sec below budget {} calls/sec",
            budget.threshold
        );
    }
}

#[test]
fn check_extension_load_budget() {
    let all = budgets();
    let budget = all
        .iter()
        .find(|b| b.name == "ext_cold_load_simple_p95")
        .expect("ext_cold_load_simple_p95 budget should exist");

    let result = check_budget(budget);
    println!(
        "[budget] {}: actual={:?} (threshold={} {}), status={}, source={}",
        result.budget_name, result.actual, result.threshold, budget.unit, result.status,
        result.source
    );

    if let Some(actual) = result.actual {
        assert!(
            actual <= budget.threshold,
            "extension cold load {actual}ms exceeds budget {}ms",
            budget.threshold
        );
    }
}
