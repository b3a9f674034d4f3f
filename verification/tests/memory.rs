use crynn::memory_profiler::{
    find_violations, select_processes, suggest, totals, BudgetReport, MemoryBudget,
    MemoryOptimizer, MemoryProfiler, MemorySnapshot, OptimizationPriority, ProcessMemoryInfo, MB,
};
use crynn::shell::memory::{check_compliance, MemoryManager, ViolationSeverity};

fn process(name: &str, resident: u64, virt: u64) -> ProcessMemoryInfo {
    ProcessMemoryInfo {
        pid: 1,
        name: name.to_string(),
        virtual_memory: virt,
        resident_memory: resident,
        threads: 1,
    }
}

fn report(rss_mb: u64, virt_mb: u64, count: usize, violations: usize) -> BudgetReport {
    BudgetReport {
        timestamp: 0,
        total_rss_mb: rss_mb,
        total_virtual_mb: virt_mb,
        process_count: count,
        violations: find_violations(if violations > 0 { u64::MAX } else { 0 }, &MemoryBudget::default()),
        processes: vec![],
    }
}

#[test]
fn memory_budget_defaults() {
    let b = MemoryBudget::default();
    assert_eq!(b.cold_start_mb, 80);
    assert_eq!(b.idle_tab_mb, 120);
    assert_eq!(b.ten_tabs_mb, 450);
    assert_eq!(b.email_sync_mb, 40);
    assert_eq!(b.vpn_control_mb, 10);
}

#[test]
fn memory_totals_add_up_and_cap() {
    let ps = vec![process("a", 10, 100), process("b", 20, 200)];
    assert_eq!(totals(&ps), (30, 300));
    assert_eq!(totals(&vec![]), (0, 0));
    let big = vec![process("a", u64::MAX, 1), process("b", 5, u64::MAX - 1)];
    assert_eq!(totals(&big), (u64::MAX, u64::MAX));
}

#[test]
fn memory_violations_by_limit() {
    let b = MemoryBudget::default();
    assert!(find_violations(80 * MB, &b).is_empty());
    let cold = find_violations(80 * MB + 1, &b);
    assert_eq!(cold.len(), 1);
    assert_eq!(cold[0].metric, "cold_start");
    assert_eq!(cold[0].limit_mb, 80);
    assert_eq!(cold[0].actual_mb, 80);
    let both = find_violations(200 * MB, &b);
    assert_eq!(both.len(), 2);
    assert_eq!(both[1].metric, "idle_tab");
    assert_eq!(both[1].limit_mb, 120);
    assert_eq!(both[1].actual_mb, 200);
}

#[test]
fn memory_process_selection() {
    let all = vec![process("crynn-shell", 1, 1), process("firefox", 2, 2), process("my-crynn", 3, 3)];
    let found = select_processes(&all, "crynn");
    let names: Vec<String> = found.iter().map(|p| p.name.clone()).collect();
    assert_eq!(names, vec!["crynn-shell", "my-crynn"]);
    assert_eq!(select_processes(&all, "").len(), 3);
    assert!(select_processes(&all, "chrome").is_empty());
}

#[test]
fn memory_monitor_budget_report() {
    let profiler = MemoryProfiler::new("crynn");
    assert_eq!(profiler.process_name(), "crynn");
    assert_eq!(*profiler.budget(), MemoryBudget::default());
    let ps = vec![process("crynn", 100 * MB, 500 * MB), process("crynn", 50 * MB + 7, MB - 1)];
    let r = profiler.monitor_budget(ps, 77);
    assert_eq!(r.timestamp, 77);
    assert_eq!(r.total_rss_mb, 150);
    assert_eq!(r.total_virtual_mb, 500);
    assert_eq!(r.process_count, 2);
    assert_eq!(r.processes.len(), 2);
    assert_eq!(r.violations.len(), 2);
    assert_eq!(r.violations[0].actual_mb, 150);
    let picked = profiler.get_process_memory(&vec![process("other", 1, 1)]);
    assert!(picked.is_empty());
}

#[test]
fn memory_snapshots_keep_last_hundred() {
    let mut profiler = MemoryProfiler::new("p");
    for i in 0..105 {
        profiler.record_snapshot(MemorySnapshot {
            timestamp: i,
            total_memory: 0,
            available_memory: 0,
            processes: vec![],
        });
    }
    let s = profiler.get_snapshots();
    assert_eq!(s.len(), 100);
    assert_eq!(s[0].timestamp, 5);
    assert_eq!(s[99].timestamp, 104);
}

#[test]
fn memory_suggestions() {
    assert!(suggest(&report(10, 30, 10, 0)).is_empty());
    let all = suggest(&report(10, 31, 11, 1));
    assert_eq!(all.len(), 3);
    assert_eq!(all[0].category, "Memory Budget");
    assert_eq!(all[0].priority, OptimizationPriority::High);
    assert_eq!(all[0].description, "Process exceeds memory budget limits");
    assert_eq!(all[0].action, "Implement lazy loading and process sharing");
    assert_eq!(all[1].category, "Virtual Memory");
    assert_eq!(all[1].priority, OptimizationPriority::Medium);
    assert_eq!(all[2].category, "Process Count");
    let one = suggest(&report(u64::MAX, u64::MAX, 0, 0));
    assert!(one.is_empty());
    let optimizer = MemoryOptimizer::new("crynn-shell");
    assert_eq!(optimizer.profiler().process_name(), "crynn-shell");
    assert_eq!(optimizer.suggest_optimizations(&report(1, 4, 0, 0)).len(), 1);
}

#[test]
fn memory_compliance() {
    let b = MemoryBudget::default();
    let ok = check_compliance(80, &b);
    assert!(ok.is_compliant);
    assert!(ok.violations.is_empty());
    assert_eq!(ok.current_usage_mb, 80);
    let bad = check_compliance(451, &b);
    assert!(!bad.is_compliant);
    assert_eq!(bad.violations.len(), 3);
    assert_eq!(bad.violations[0].metric, "cold_start");
    assert_eq!(bad.violations[0].severity, ViolationSeverity::High);
    assert_eq!(bad.violations[1].metric, "idle_tab");
    assert_eq!(bad.violations[1].severity, ViolationSeverity::Medium);
    assert_eq!(bad.violations[2].metric, "ten_tabs");
    assert_eq!(bad.violations[2].severity, ViolationSeverity::Critical);
    assert_eq!(bad.violations[2].limit_mb, 450);
    assert_eq!(bad.violations[2].actual_mb, 451);
    let m = MemoryManager::new("crynn-shell");
    assert_eq!(*m.get_budget(), b);
    assert_eq!(m.profiler().process_name(), "crynn-shell");
    let c = m.check_budget_compliance(&report(121, 0, 0, 0));
    assert_eq!(c.violations.len(), 2);
}
