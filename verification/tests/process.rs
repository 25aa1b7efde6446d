use itop::metrics::sums_fit;
use itop::process::{
    get_processes, rank, summarize, summarize_all, ProcessMeta, ProcessSample, Sort, CPU_RANK_UNIT,
    CPU_SCALE, MAX_ROWS,
};

fn sample(name: &str, cpu: u64, memory: u64) -> ProcessSample {
    ProcessSample { name: name.to_string(), cpu, memory }
}

fn row(name: &str, cpu_usage: u64, memory: u64, count: usize) -> ProcessMeta {
    ProcessMeta { name: name.to_string(), cpu_usage, memory, count }
}

fn names(rows: &Vec<ProcessMeta>) -> Vec<String> {
    rows.iter().map(|r| r.name.clone()).collect()
}

#[test]
fn constants_have_their_values() {
    assert_eq!(CPU_SCALE, 10_000);
    assert_eq!(CPU_RANK_UNIT, 100);
    assert_eq!(MAX_ROWS, 100);
}

#[test]
fn empty_process_list_gives_empty_snapshot() {
    let rows = get_processes(&Vec::new(), Sort::Cpu);
    assert!(rows.is_empty());
    let rows = get_processes(&Vec::new(), Sort::Memory);
    assert!(rows.is_empty());
}

#[test]
fn processes_of_one_name_become_one_row_with_exact_sums() {
    let procs = vec![
        sample("firefox", 125_000, 1_000),
        sample("bash", 10_000, 50),
        sample("firefox", 5_000, 2_000),
        sample("firefox", 1, 3),
    ];
    let rows = get_processes(&procs, Sort::Cpu);
    assert_eq!(rows.len(), 2);
    assert_eq!(rows[0], row("firefox", 130_001, 3_003, 3));
    assert_eq!(rows[1], row("bash", 10_000, 50, 1));
}

#[test]
fn one_row_for_each_distinct_name() {
    let procs = vec![
        sample("a", 1, 1),
        sample("b", 2, 2),
        sample("a", 3, 3),
        sample("c", 4, 4),
        sample("b", 5, 5),
        sample("a", 6, 6),
    ];
    let rows = get_processes(&procs, Sort::Memory);
    assert_eq!(rows.len(), 3);
    let mut seen = names(&rows);
    seen.sort();
    assert_eq!(seen, vec!["a".to_string(), "b".to_string(), "c".to_string()]);
    let total: usize = rows.iter().map(|r| r.count).sum();
    assert_eq!(total, procs.len());
}

#[test]
fn rows_are_ordered_by_descending_cpu() {
    let procs = vec![
        sample("low", 100, 900),
        sample("high", 990_000, 100),
        sample("mid", 40_000, 500),
        sample("mid", 40_000, 1),
    ];
    let rows = get_processes(&procs, Sort::Cpu);
    assert_eq!(names(&rows), vec!["high".to_string(), "mid".to_string(), "low".to_string()]);
    assert_eq!(rows[1].cpu_usage, 80_000);
    assert_eq!(rows[1].count, 2);
}

#[test]
fn rows_are_ordered_by_descending_memory() {
    let procs = vec![
        sample("low", 100, 900),
        sample("high", 990_000, 100),
        sample("mid", 40_000, 500),
        sample("mid", 40_000, 1),
    ];
    let rows = get_processes(&procs, Sort::Memory);
    assert_eq!(names(&rows), vec!["low".to_string(), "mid".to_string(), "high".to_string()]);
    assert_eq!(rows[1].memory, 501);
}

#[test]
fn memory_order_compares_whole_byte_counts() {
    let big = 1u64 << 32;
    let procs = vec![sample("small", 0, 5), sample("huge", 0, big), sample("large", 0, big - 1)];
    let rows = get_processes(&procs, Sort::Memory);
    assert_eq!(names(&rows), vec!["huge".to_string(), "large".to_string(), "small".to_string()]);
}

#[test]
fn cpu_key_is_whole_hundredths_of_a_percent() {
    assert_eq!(row("a", 12_345, 0, 1).key(Sort::Cpu), 123);
    assert_eq!(row("a", 99, 0, 1).key(Sort::Cpu), 0);
    assert_eq!(row("a", 100, 0, 1).key(Sort::Cpu), 1);
    assert_eq!(row("a", u64::MAX, 0, 1).key(Sort::Cpu), u64::MAX / 100);
    assert_eq!(row("a", 12_345, 777, 1).key(Sort::Memory), 777);
}

#[test]
fn cpu_usages_within_one_hundredth_rank_as_equal() {
    let all = vec![row("first", 1_201, 0, 1), row("second", 1_299, 0, 1), row("third", 1_300, 0, 1)];
    let rows = rank(all, Sort::Cpu);
    assert_eq!(names(&rows), vec!["third".to_string(), "first".to_string(), "second".to_string()]);
}

#[test]
fn snapshot_is_cut_off_after_a_hundred_rows() {
    let mut procs = Vec::new();
    for i in 0..150u64 {
        procs.push(sample(&format!("p{}", i), i * 100, 150 - i));
    }
    let rows = get_processes(&procs, Sort::Cpu);
    assert_eq!(rows.len(), 100);
    for (at, r) in rows.iter().enumerate() {
        let i = 149 - at as u64;
        assert_eq!(r.name, format!("p{}", i));
        assert_eq!(r.cpu_usage, i * 100);
        assert_eq!(r.count, 1);
    }
    let rows = get_processes(&procs, Sort::Memory);
    assert_eq!(rows.len(), 100);
    for (at, r) in rows.iter().enumerate() {
        assert_eq!(r.name, format!("p{}", at));
        assert_eq!(r.memory, 150 - at as u64);
    }
}

#[test]
fn exactly_a_hundred_names_all_stay() {
    let mut procs = Vec::new();
    for i in 0..100u64 {
        procs.push(sample(&format!("p{}", i), i, i));
        procs.push(sample(&format!("p{}", i), i, i));
    }
    let rows = get_processes(&procs, Sort::Cpu);
    assert_eq!(rows.len(), 100);
    assert!(rows.iter().all(|r| r.count == 2));
}

#[test]
fn rank_keeps_every_entry_once_and_orders_them() {
    let all = vec![row("a", 0, 30, 1), row("b", 0, 10, 1), row("c", 0, 20, 1), row("d", 0, 40, 1)];
    let rows = rank(all, Sort::Memory);
    assert_eq!(
        rows,
        vec![row("d", 0, 40, 1), row("a", 0, 30, 1), row("c", 0, 20, 1), row("b", 0, 10, 1)]
    );
}

#[test]
fn rank_of_nothing_is_nothing() {
    assert!(rank(Vec::new(), Sort::Cpu).is_empty());
}

#[test]
fn rank_drops_the_smallest_beyond_a_hundred() {
    let mut all = Vec::new();
    for i in 0..130u64 {
        all.push(row(&format!("p{}", i), 0, (i * 37) % 130, 1));
    }
    let rows = rank(all, Sort::Memory);
    assert_eq!(rows.len(), 100);
    for (at, r) in rows.iter().enumerate() {
        assert_eq!(r.memory, 129 - at as u64);
    }
}

#[test]
fn summarize_adds_up_each_column() {
    let m = summarize("x".to_string(), &vec![(1, 10), (2, 20), (3, 30)]);
    assert_eq!(m, row("x", 6, 60, 3));
    let m = summarize("empty".to_string(), &Vec::new());
    assert_eq!(m, row("empty", 0, 0, 0));
    let m = summarize("max".to_string(), &vec![(u64::MAX - 1, 0), (1, u64::MAX)]);
    assert_eq!(m, row("max", u64::MAX, u64::MAX, 2));
}

#[test]
fn summarize_all_keeps_the_order_of_the_groups() {
    let groups = vec![
        ("b".to_string(), vec![(1, 2), (3, 4)]),
        ("a".to_string(), vec![(5, 6)]),
    ];
    let all = summarize_all(groups);
    assert_eq!(all, vec![row("b", 4, 6, 2), row("a", 5, 6, 1)]);
}

#[test]
fn sums_fit_tells_when_the_totals_pass_64_bits() {
    assert!(sums_fit(&Vec::new()));
    assert!(sums_fit(&vec![sample("a", u64::MAX - 1, 0), sample("b", 1, u64::MAX)]));
    assert!(!sums_fit(&vec![sample("a", u64::MAX, 0), sample("b", 1, 0)]));
    assert!(!sums_fit(&vec![sample("a", 0, u64::MAX), sample("b", 0, 1)]));
    assert!(!sums_fit(&vec![sample("a", 0, u64::MAX), sample("a", 0, 1), sample("c", 0, 0)]));
}

#[test]
fn names_are_told_apart_exactly() {
    let procs = vec![sample("sh", 1, 1), sample("Sh", 2, 2), sample("sh ", 4, 4), sample("", 8, 8)];
    let rows = get_processes(&procs, Sort::Cpu);
    assert_eq!(rows.len(), 4);
    assert!(rows.iter().all(|r| r.count == 1));
}
