//! Memory accounting against a budget: totals over the browser's
//! processes, budget violations, and suggestions drawn from a report.
//!
//! Reading the process table is the caller's part; the functions here
//! work on the figures it hands over.

use vstd::prelude::*;
use vstd::string::StringExecFns;
use crate::text::{chars_of, contains, has_infix};

verus! {

/// Bytes in a mebibyte.
pub const MB: u64 = 1048576;

/// Number of snapshots that are kept.
pub const MAX_SNAPSHOTS: usize = 100;

/// Memory figures of one process.
#[derive(Debug)]
pub struct ProcessMemoryInfo {
    pub pid: u32,
    pub name: String,
    pub virtual_memory: u64,
    pub resident_memory: u64,
    pub threads: usize,
}

/// Mathematical value of a [`ProcessMemoryInfo`].
pub struct ProcessView {
    pub pid: u32,
    pub name: Seq<char>,
    pub virtual_memory: u64,
    pub resident_memory: u64,
    pub threads: usize,
}

impl View for ProcessMemoryInfo {
    type V = ProcessView;

    open spec fn view(&self) -> ProcessView {
        ProcessView {
            pid: self.pid,
            name: self.name@,
            virtual_memory: self.virtual_memory,
            resident_memory: self.resident_memory,
            threads: self.threads,
        }
    }
}

impl ProcessMemoryInfo {
    /// A copy of the figures.
    pub fn duplicate(&self) -> (p: ProcessMemoryInfo)
        ensures
            p@ == self@,
    {
        ProcessMemoryInfo {
            pid: self.pid,
            name: self.name.clone(),
            virtual_memory: self.virtual_memory,
            resident_memory: self.resident_memory,
            threads: self.threads,
        }
    }
}

/// The views of a sequence of processes.
pub open spec fn process_views(ps: Seq<ProcessMemoryInfo>) -> Seq<ProcessView> {
    Seq::new(ps.len(), |i: int| ps[i]@)
}

/// The state of memory at one moment.
#[derive(Debug)]
pub struct MemorySnapshot {
    pub timestamp: i64,
    pub total_memory: u64,
    pub available_memory: u64,
    pub processes: Vec<ProcessMemoryInfo>,
}

/// Memory limits in mebibytes for the browser's typical states.
#[derive(Debug, Clone, Copy, PartialEq, Eq, Structural)]
pub struct MemoryBudget {
    pub cold_start_mb: u64,
    pub idle_tab_mb: u64,
    pub ten_tabs_mb: u64,
    pub email_sync_mb: u64,
    pub vpn_control_mb: u64,
}

impl Default for MemoryBudget {
    fn default() -> (budget: MemoryBudget)
        ensures
            budget == (MemoryBudget {
                cold_start_mb: 80,
                idle_tab_mb: 120,
                ten_tabs_mb: 450,
                email_sync_mb: 40,
                vpn_control_mb: 10,
            }),
    {
        MemoryBudget {
            cold_start_mb: 80,
            idle_tab_mb: 120,
            ten_tabs_mb: 450,
            email_sync_mb: 40,
            vpn_control_mb: 10,
        }
    }
}

/// A limit that was exceeded.
#[derive(Debug)]
pub struct BudgetViolation {
    pub metric: String,
    pub limit_mb: u64,
    pub actual_mb: u64,
}

/// Mathematical value of a [`BudgetViolation`].
pub struct ViolationView {
    pub metric: Seq<char>,
    pub limit_mb: u64,
    pub actual_mb: u64,
}

impl View for BudgetViolation {
    type V = ViolationView;

    open spec fn view(&self) -> ViolationView {
        ViolationView { metric: self.metric@, limit_mb: self.limit_mb, actual_mb: self.actual_mb }
    }
}

/// The views of a sequence of violations.
pub open spec fn violation_views(vs: Seq<BudgetViolation>) -> Seq<ViolationView> {
    Seq::new(vs.len(), |i: int| vs[i]@)
}

/// Totals and violations at one moment.
#[derive(Debug)]
pub struct BudgetReport {
    pub timestamp: i64,
    pub total_rss_mb: u64,
    pub total_virtual_mb: u64,
    pub process_count: usize,
    pub violations: Vec<BudgetViolation>,
    pub processes: Vec<ProcessMemoryInfo>,
}

/// Snapshots and the budget report made from the latest figures.
#[derive(Debug)]
pub struct MemoryReport {
    pub snapshots: Vec<MemorySnapshot>,
    pub budget_report: BudgetReport,
    pub generated_at: i64,
}

/// How urgent a suggestion is.
#[derive(Debug, Clone, Copy, PartialEq, Eq, Structural)]
pub enum OptimizationPriority {
    Low,
    Medium,
    High,
    Critical,
}

/// Advice drawn from a budget report.
#[derive(Debug)]
pub struct OptimizationSuggestion {
    pub priority: OptimizationPriority,
    pub category: String,
    pub description: String,
    pub action: String,
}

/// Which of the three pieces of advice a suggestion is.
#[derive(Debug, Clone, Copy, PartialEq, Eq, Structural)]
pub enum SuggestionKind {
    MemoryBudget,
    VirtualMemory,
    ProcessCount,
}

/// The kind of a suggestion, read from its category.
pub open spec fn kind_of(category: Seq<char>) -> Option<SuggestionKind> {
    if category == "Memory Budget"@ {
        Some(SuggestionKind::MemoryBudget)
    } else if category == "Virtual Memory"@ {
        Some(SuggestionKind::VirtualMemory)
    } else if category == "Process Count"@ {
        Some(SuggestionKind::ProcessCount)
    } else {
        None
    }
}

/// Sum of the resident memory of all processes.
pub open spec fn sum_resident(ps: Seq<ProcessView>) -> nat
    decreases ps.len(),
{
    if ps.len() == 0 {
        0
    } else {
        sum_resident(ps.drop_last()) + ps.last().resident_memory as nat
    }
}

/// Sum of the virtual memory of all processes.
pub open spec fn sum_virtual(ps: Seq<ProcessView>) -> nat
    decreases ps.len(),
{
    if ps.len() == 0 {
        0
    } else {
        sum_virtual(ps.drop_last()) + ps.last().virtual_memory as nat
    }
}

/// A sum as it is reported: capped at the largest 64-bit value.
pub open spec fn capped(n: nat) -> u64 {
    if n > u64::MAX {
        u64::MAX
    } else {
        n as u64
    }
}

/// The processes whose name contains `name`.
pub open spec fn named(ps: Seq<ProcessView>, name: Seq<char>) -> Seq<ProcessView> {
    ps.filter(|p: ProcessView| has_infix(p.name, name))
}

/// The violations for a resident total of `rss` bytes: the cold-start
/// limit first, then the idle-tab limit, each when the total exceeds it.
pub open spec fn violations_for(rss: u64, budget: MemoryBudget) -> Seq<ViolationView> {
    let cold = if rss > budget.cold_start_mb * MB {
        seq![
            ViolationView {
                metric: "cold_start"@,
                limit_mb: budget.cold_start_mb,
                actual_mb: rss / MB,
            },
        ]
    } else {
        Seq::empty()
    };
    let idle = if rss > budget.idle_tab_mb * MB {
        seq![
            ViolationView {
                metric: "idle_tab"@,
                limit_mb: budget.idle_tab_mb,
                actual_mb: rss / MB,
            },
        ]
    } else {
        Seq::empty()
    };
    cold + idle
}

/// The kinds of advice for a report, in the order given: budget
/// violations, virtual memory above three times the resident memory, more
/// than ten processes.
pub open spec fn advice_for(
    has_violations: bool,
    total_virtual_mb: u64,
    total_rss_mb: u64,
    process_count: usize,
) -> Seq<SuggestionKind> {
    let a = if has_violations {
        seq![SuggestionKind::MemoryBudget]
    } else {
        Seq::empty()
    };
    let b = if total_virtual_mb > total_rss_mb * 3 {
        seq![SuggestionKind::VirtualMemory]
    } else {
        Seq::empty()
    };
    let c = if process_count > 10 {
        seq![SuggestionKind::ProcessCount]
    } else {
        Seq::empty()
    };
    a + b + c
}

/// The kinds of a sequence of suggestions.
pub open spec fn kinds(s: Seq<OptimizationSuggestion>) -> Seq<Option<SuggestionKind>> {
    Seq::new(s.len(), |i: int| kind_of(s[i].category@))
}

/// Priority of each kind of advice.
pub open spec fn priority_of(kind: SuggestionKind) -> OptimizationPriority {
    match kind {
        SuggestionKind::MemoryBudget => OptimizationPriority::High,
        SuggestionKind::VirtualMemory => OptimizationPriority::Medium,
        SuggestionKind::ProcessCount => OptimizationPriority::Medium,
    }
}

/// The sum of resident memory and the sum of virtual memory, each capped.
pub fn totals(processes: &Vec<ProcessMemoryInfo>) -> (t: (u64, u64))
    ensures
        t.0 == capped(sum_resident(process_views(processes@))),
        t.1 == capped(sum_virtual(process_views(processes@))),
{
    let ghost ps = process_views(processes@);
    let mut rss: u64 = 0;
    let mut virt: u64 = 0;
    let mut i: usize = 0;
    while i < processes.len()
        invariant
            i <= processes.len(),
            ps == process_views(processes@),
            rss == capped(sum_resident(ps.take(i as int))),
            virt == capped(sum_virtual(ps.take(i as int))),
        decreases processes.len() - i,
    {
        proof {
            assert(ps.take(i + 1).drop_last() =~= ps.take(i as int));
            assert(ps.take(i + 1).last() == processes@[i as int]@);
        }
        let p = &processes[i];
        rss = if p.resident_memory <= u64::MAX - rss {
            rss + p.resident_memory
        } else {
            u64::MAX
        };
        virt = if p.virtual_memory <= u64::MAX - virt {
            virt + p.virtual_memory
        } else {
            u64::MAX
        };
        i += 1;
    }
    assert(ps.take(processes.len() as int) =~= ps);
    (rss, virt)
}

/// The violations for a resident total of `rss` bytes.
pub fn find_violations(rss: u64, budget: &MemoryBudget) -> (v: Vec<BudgetViolation>)
    ensures
        violation_views(v@) == violations_for(rss, *budget),
{
    let mut v: Vec<BudgetViolation> = Vec::new();
    if rss as u128 > budget.cold_start_mb as u128 * MB as u128 {
        v.push(
            BudgetViolation {
                metric: String::from_str("cold_start"),
                limit_mb: budget.cold_start_mb,
                actual_mb: rss / MB,
            },
        );
    }
    if rss as u128 > budget.idle_tab_mb as u128 * MB as u128 {
        v.push(
            BudgetViolation {
                metric: String::from_str("idle_tab"),
                limit_mb: budget.idle_tab_mb,
                actual_mb: rss / MB,
            },
        );
    }
    assert(violation_views(v@) =~= violations_for(rss, *budget));
    v
}

/// The processes whose name contains `name`, in their old order.
pub fn select_processes(all: &Vec<ProcessMemoryInfo>, name: &str) -> (found: Vec<
    ProcessMemoryInfo,
>)
    ensures
        process_views(found@) == named(process_views(all@), name@),
{
    let ghost ps = process_views(all@);
    let ghost p = |x: ProcessView| has_infix(x.name, name@);
    let pattern = chars_of(name);
    let mut found: Vec<ProcessMemoryInfo> = Vec::new();
    let mut i: usize = 0;
    proof {
        assert(ps.take(0).filter(p) =~= Seq::<ProcessView>::empty()) by {
            reveal(Seq::filter);
        }
        assert(process_views(found@) =~= ps.take(0).filter(p));
    }
    while i < all.len()
        invariant
            i <= all.len(),
            ps == process_views(all@),
            pattern@ == name@,
            p == (|x: ProcessView| has_infix(x.name, name@)),
            process_views(found@) == ps.take(i as int).filter(p),
        decreases all.len() - i,
    {
        proof {
            crate::seq_lemmas::lemma_filter_take_step(ps, p, i as int);
            assert(all@[i as int]@ == ps[i as int]);
        }
        let chars = chars_of(all[i].name.as_str());
        if contains(chars.as_slice(), pattern.as_slice()) {
            let ghost before = process_views(found@);
            found.push(all[i].duplicate());
            assert(process_views(found@) =~= before.push(ps[i as int]));
        }
        i += 1;
    }
    assert(ps.take(i as int) =~= ps);
    found
}

/// Watches the memory of the processes with a given name.
#[derive(Debug)]
pub struct MemoryProfiler {
    snapshots: Vec<MemorySnapshot>,
    budget: MemoryBudget,
    process_name: String,
}

impl MemoryProfiler {
    /// The budget as a value.
    pub closed spec fn budget_value(&self) -> MemoryBudget {
        self.budget
    }

    /// The watched process name.
    pub closed spec fn name(&self) -> Seq<char> {
        self.process_name@
    }

    /// The kept snapshots, oldest first.
    pub closed spec fn kept(&self) -> Seq<MemorySnapshot> {
        self.snapshots@
    }

    /// A profiler for the processes named `process_name`, with the default
    /// budget and no snapshots.
    pub fn new(process_name: &str) -> (p: MemoryProfiler)
        ensures
            p.name() == process_name@,
            p.budget_value() == (MemoryBudget {
                cold_start_mb: 80,
                idle_tab_mb: 120,
                ten_tabs_mb: 450,
                email_sync_mb: 40,
                vpn_control_mb: 10,
            }),
            p.kept() == Seq::<MemorySnapshot>::empty(),
    {
        MemoryProfiler {
            snapshots: Vec::new(),
            budget: MemoryBudget::default(),
            process_name: process_name.to_owned(),
        }
    }

    /// The budget.
    pub fn budget(&self) -> (b: &MemoryBudget)
        ensures
            *b == self.budget_value(),
    {
        &self.budget
    }

    /// The watched process name.
    pub fn process_name(&self) -> (n: &str)
        ensures
            n@ == self.name(),
    {
        self.process_name.as_str()
    }

    /// Keeps a snapshot. Of more than a hundred snapshots the oldest is dropped.
    pub fn record_snapshot(&mut self, snapshot: MemorySnapshot)
        ensures
            final(self).budget_value() == old(self).budget_value(),
            final(self).name() == old(self).name(),
            final(self).kept() == if old(self).kept().len() < MAX_SNAPSHOTS {
                old(self).kept().push(snapshot)
            } else {
                old(self).kept().push(snapshot).drop_first()
            },
    {
        self.snapshots.push(snapshot);
        if self.snapshots.len() > MAX_SNAPSHOTS {
            self.snapshots.remove(0);
            assert(self.snapshots@ =~= old(self).kept().push(snapshot).drop_first());
        }
    }

    /// The kept snapshots, oldest first.
    pub fn get_snapshots(&self) -> (s: &Vec<MemorySnapshot>)
        ensures
            s@ == self.kept(),
    {
        &self.snapshots
    }

    /// Of all processes, those that this profiler watches.
    pub fn get_process_memory(&self, all: &Vec<ProcessMemoryInfo>) -> (found: Vec<
        ProcessMemoryInfo,
    >)
        ensures
            process_views(found@) == named(process_views(all@), self.name()),
    {
        select_processes(all, self.process_name.as_str())
    }

    /// The report for the watched processes at `now`: totals in whole
    /// mebibytes, the number of processes, and the limits that the
    /// resident total exceeds.
    pub fn monitor_budget(&self, processes: Vec<ProcessMemoryInfo>, now: i64) -> (report:
        BudgetReport)
        ensures
            report.timestamp == now,
            report.processes == processes,
            report.process_count == processes@.len(),
            report.total_rss_mb == capped(sum_resident(process_views(processes@))) / MB,
            report.total_virtual_mb == capped(sum_virtual(process_views(processes@))) / MB,
            violation_views(report.violations@) == violations_for(
                capped(sum_resident(process_views(processes@))),
                self.budget_value(),
            ),
    {
        let (rss, virt) = totals(&processes);
        let violations = find_violations(rss, &self.budget);
        BudgetReport {
            timestamp: now,
            total_rss_mb: rss / MB,
            total_virtual_mb: virt / MB,
            process_count: processes.len(),
            violations,
            processes,
        }
    }
}

/// Draws advice from budget reports.
#[derive(Debug)]
pub struct MemoryOptimizer {
    profiler: MemoryProfiler,
}

impl MemoryOptimizer {
    /// The profiler as a value.
    pub closed spec fn profiler_value(&self) -> MemoryProfiler {
        self.profiler
    }

    /// An optimizer for the processes named `process_name`.
    pub fn new(process_name: &str) -> (o: MemoryOptimizer)
        ensures
            o.profiler_value().name() == process_name@,
    {
        MemoryOptimizer { profiler: MemoryProfiler::new(process_name) }
    }

    /// The profiler.
    pub fn profiler(&self) -> (p: &MemoryProfiler)
        ensures
            *p == self.profiler_value(),
    {
        &self.profiler
    }

    /// The advice for a report.
    pub fn suggest_optimizations(&self, report: &BudgetReport) -> (s: Vec<OptimizationSuggestion>)
        ensures
            kinds(s@) == advice_for(
                report.violations@.len() > 0,
                report.total_virtual_mb,
                report.total_rss_mb,
                report.process_count,
            ).map_values(|k: SuggestionKind| Some(k)),
            forall|i: int|
                0 <= i < s@.len() ==> kind_of((#[trigger] s@[i]).category@) is Some && s@[i].priority
                    == priority_of(kind_of(s@[i].category@)->0),
    {
        suggest(report)
    }
}

/// The advice for a report.
pub fn suggest(report: &BudgetReport) -> (s: Vec<OptimizationSuggestion>)
    ensures
        kinds(s@) == advice_for(
            report.violations@.len() > 0,
            report.total_virtual_mb,
            report.total_rss_mb,
            report.process_count,
        ).map_values(|k: SuggestionKind| Some(k)),
        forall|i: int|
            0 <= i < s@.len() ==> kind_of((#[trigger] s@[i]).category@) is Some && s@[i].priority
                == priority_of(kind_of(s@[i].category@)->0),
{
    proof {
        reveal_strlit("Memory Budget");
        reveal_strlit("Virtual Memory");
        reveal_strlit("Process Count");
        assert("Memory Budget"@ != "Virtual Memory"@) by {
            assert("Memory Budget"@[0] != "Virtual Memory"@[0]);
        }
        assert("Memory Budget"@ != "Process Count"@) by {
            assert("Memory Budget"@[0] != "Process Count"@[0]);
        }
        assert("Virtual Memory"@ != "Process Count"@) by {
            assert("Virtual Memory"@[0] != "Process Count"@[0]);
        }
    }
    let mut s: Vec<OptimizationSuggestion> = Vec::new();
    if report.violations.len() > 0 {
        s.push(
            OptimizationSuggestion {
                priority: OptimizationPriority::High,
                category: String::from_str("Memory Budget"),
                description: String::from_str("Process exceeds memory budget limits"),
                action: String::from_str("Implement lazy loading and process sharing"),
            },
        );
    }
    if report.total_virtual_mb as u128 > report.total_rss_mb as u128 * 3 {
        s.push(
            OptimizationSuggestion {
                priority: OptimizationPriority::Medium,
                category: String::from_str("Virtual Memory"),
                description: String::from_str("High virtual memory usage detected"),
                action: String::from_str("Review memory allocation patterns"),
            },
        );
    }
    if report.process_count > 10 {
        s.push(
            OptimizationSuggestion {
                priority: OptimizationPriority::Medium,
                category: String::from_str("Process Count"),
                description: String::from_str("High number of processes detected"),
                action: String::from_str("Consider process consolidation"),
            },
        );
    }
    assert(kinds(s@) =~= advice_for(
        report.violations@.len() > 0,
        report.total_virtual_mb,
        report.total_rss_mb,
        report.process_count,
    ).map_values(|k: SuggestionKind| Some(k)));
    s
}

} // verus!
