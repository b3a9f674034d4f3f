//! Compliance of the browser's memory use with its budget.

use vstd::prelude::*;
use vstd::string::StringExecFns;
use crate::memory_profiler::{BudgetReport, MemoryBudget, MemoryProfiler};

verus! {

/// How serious a violation is.
#[derive(Debug, Clone, Copy, PartialEq, Eq, Structural)]
pub enum ViolationSeverity {
    Low,
    Medium,
    High,
    Critical,
}

/// A limit that was exceeded, with its severity.
#[derive(Debug)]
pub struct BudgetViolation {
    pub metric: String,
    pub limit_mb: u64,
    pub actual_mb: u64,
    pub severity: ViolationSeverity,
}

/// Mathematical value of a [`BudgetViolation`].
pub struct ViolationView {
    pub metric: Seq<char>,
    pub limit_mb: u64,
    pub actual_mb: u64,
    pub severity: ViolationSeverity,
}

impl View for BudgetViolation {
    type V = ViolationView;

    open spec fn view(&self) -> ViolationView {
        ViolationView {
            metric: self.metric@,
            limit_mb: self.limit_mb,
            actual_mb: self.actual_mb,
            severity: self.severity,
        }
    }
}

/// The views of a sequence of violations.
pub open spec fn violation_views(vs: Seq<BudgetViolation>) -> Seq<ViolationView> {
    Seq::new(vs.len(), |i: int| vs[i]@)
}

/// The verdict on the current memory use.
#[derive(Debug)]
pub struct BudgetCompliance {
    pub is_compliant: bool,
    pub violations: Vec<BudgetViolation>,
    pub current_usage_mb: u64,
}

/// One violation, if `usage` exceeds `limit`.
pub open spec fn violation_if(
    usage: u64,
    limit: u64,
    metric: Seq<char>,
    severity: ViolationSeverity,
) -> Seq<ViolationView> {
    if usage > limit {
        seq![ViolationView { metric, limit_mb: limit, actual_mb: usage, severity }]
    } else {
        Seq::empty()
    }
}

/// The violations for a usage in mebibytes: cold start (high), idle tab
/// (medium) and ten tabs (critical), each when the usage exceeds the limit.
pub open spec fn violations_for(usage: u64, budget: MemoryBudget) -> Seq<ViolationView> {
    violation_if(usage, budget.cold_start_mb, "cold_start"@, ViolationSeverity::High)
        + violation_if(usage, budget.idle_tab_mb, "idle_tab"@, ViolationSeverity::Medium)
        + violation_if(usage, budget.ten_tabs_mb, "ten_tabs"@, ViolationSeverity::Critical)
}

/// Checks a usage in mebibytes against a budget.
pub fn check_compliance(usage_mb: u64, budget: &MemoryBudget) -> (c: BudgetCompliance)
    ensures
        c.current_usage_mb == usage_mb,
        violation_views(c.violations@) == violations_for(usage_mb, *budget),
        c.is_compliant == (violations_for(usage_mb, *budget).len() == 0),
{
    let mut violations: Vec<BudgetViolation> = Vec::new();
    if usage_mb > budget.cold_start_mb {
        violations.push(
            BudgetViolation {
                metric: String::from_str("cold_start"),
                limit_mb: budget.cold_start_mb,
                actual_mb: usage_mb,
                severity: ViolationSeverity::High,
            },
        );
    }
    if usage_mb > budget.idle_tab_mb {
        violations.push(
            BudgetViolation {
                metric: String::from_str("idle_tab"),
                limit_mb: budget.idle_tab_mb,
                actual_mb: usage_mb,
                severity: ViolationSeverity::Medium,
            },
        );
    }
    if usage_mb > budget.ten_tabs_mb {
        violations.push(
            BudgetViolation {
                metric: String::from_str("ten_tabs"),
                limit_mb: budget.ten_tabs_mb,
                actual_mb: usage_mb,
                severity: ViolationSeverity::Critical,
            },
        );
    }
    assert(violation_views(violations@) =~= violations_for(usage_mb, *budget));
    BudgetCompliance {
        is_compliant: violations.len() == 0,
        violations,
        current_usage_mb: usage_mb,
    }
}

/// Watches the shell's own memory.
#[derive(Debug)]
pub struct MemoryManager {
    profiler: MemoryProfiler,
    budget: MemoryBudget,
}

impl MemoryManager {
    /// The budget as a value.
    pub closed spec fn budget_value(&self) -> MemoryBudget {
        self.budget
    }

    /// The profiler as a value.
    pub closed spec fn profiler_value(&self) -> MemoryProfiler {
        self.profiler
    }

    /// A manager for the processes named `process_name`, with the default budget.
    pub fn new(process_name: &str) -> (m: MemoryManager)
        ensures
            m.profiler_value().name() == process_name@,
            m.budget_value() == (MemoryBudget {
                cold_start_mb: 80,
                idle_tab_mb: 120,
                ten_tabs_mb: 450,
                email_sync_mb: 40,
                vpn_control_mb: 10,
            }),
    {
        MemoryManager { profiler: MemoryProfiler::new(process_name), budget: MemoryBudget::default() }
    }

    /// The budget.
    pub fn get_budget(&self) -> (b: &MemoryBudget)
        ensures
            *b == self.budget_value(),
    {
        &self.budget
    }

    /// The profiler.
    pub fn profiler(&self) -> (p: &MemoryProfiler)
        ensures
            *p == self.profiler_value(),
    {
        &self.profiler
    }

    /// Checks the resident total of a report against the budget.
    pub fn check_budget_compliance(&self, report: &BudgetReport) -> (c: BudgetCompliance)
        ensures
            c.current_usage_mb == report.total_rss_mb,
            violation_views(c.violations@) == violations_for(
                report.total_rss_mb,
                self.budget_value(),
            ),
            c.is_compliant == (violations_for(report.total_rss_mb, self.budget_value()).len()
                == 0),
    {
        check_compliance(report.total_rss_mb, &self.budget)
    }
}

} // verus!
