use ollama_monitor::models::SystemMetric;
use ollama_monitor::system::{
    cpu_tick_deltas, parse_meminfo, parse_proc_stat, sum_ticks, system_metric, SystemParseError,
};

const PROC_STAT: &str = "cpu  74608 2520 24433 1117073 6176 4054 0 0 0 0\n\
cpu0 37784 1260 12201 558599 3080 2027 0 0 0 0\n\
intr 4434367 11 2 0 0\n\
ctxt 8751234\n";

const MEMINFO: &str = "MemTotal:       16384000 kB\n\
MemFree:         2048000 kB\n\
MemAvailable:    8192000 kB\n\
Buffers:          512000 kB\n";

#[test]
fn test_proc_stat_parses() {
    let ticks = parse_proc_stat(PROC_STAT).expect("Could not read /proc/stat");
    assert!(
        ticks.len() >= 4,
        "/proc/stat should have at least 4 tick fields (user, nice, system, idle)"
    );
    assert!(ticks.iter().any(|&t| t > 0), "At least one tick value should be positive");
    assert_eq!(ticks, vec![74608, 2520, 24433, 1117073, 6176, 4054, 0, 0, 0, 0]);
}

#[test]
fn test_meminfo_parses() {
    let (total, available) = parse_meminfo(MEMINFO).expect("Could not read /proc/meminfo");
    assert!(total > 0, "Total memory should be positive");
    assert!(available <= total, "Available memory should not exceed total");
    assert_eq!((total, available), (16384000, 8192000));
}

#[test]
fn test_system_metric_placeholder() {
    let p = SystemMetric::<f64>::placeholder();
    assert!(p.memory_used_mib.is_none());
    assert!(p.memory_total_mib.is_none());
    assert!(p.memory_remaining_mib.is_none());
    assert!(p.memory_usage_pct.is_none());
    assert!(p.cpu_utilization_pct.is_none());
}

#[test]
fn proc_stat_without_cpu_line() {
    assert!(matches!(parse_proc_stat("cpu0 1 2 3\nintr 5\n"), Err(SystemParseError::NoCpuLine)));
    assert!(matches!(parse_proc_stat(""), Err(SystemParseError::NoCpuLine)));
}

#[test]
fn proc_stat_with_invalid_tick() {
    match parse_proc_stat("cpu  1 2 x3 4\n") {
        Err(SystemParseError::InvalidTick(t)) => assert_eq!(t, "x3"),
        _ => panic!("expected an invalid tick"),
    }
}

#[test]
fn proc_stat_takes_first_cpu_line_and_crlf() {
    let ticks = parse_proc_stat("intr 1\r\ncpu 5 6 7 8\r\ncpu 9 9 9 9\r\n").unwrap();
    assert_eq!(ticks, vec![5, 6, 7, 8]);
}

#[test]
fn meminfo_missing_lines() {
    assert!(matches!(parse_meminfo("MemFree: 5 kB\n"), Err(SystemParseError::MemTotalMissing)));
    assert!(matches!(
        parse_meminfo("MemTotal: 5 kB\n"),
        Err(SystemParseError::MemAvailableMissing)
    ));
    assert!(matches!(
        parse_meminfo("MemTotal: x kB\nMemAvailable: 4 kB\n"),
        Err(SystemParseError::MemTotalMissing)
    ));
}

#[test]
fn meminfo_stops_once_both_found() {
    let text = "MemAvailable: 3 kB\nMemTotal: 10 kB\nMemTotal: 99 kB\n";
    assert_eq!(parse_meminfo(text).unwrap(), (10, 3));
}

#[test]
fn tick_sums_and_deltas() {
    assert_eq!(sum_ticks(&vec![1, 2, 3]), Some(6));
    assert_eq!(sum_ticks(&vec![u64::MAX, 1]), None);
    let before = vec![100, 0, 50, 1000];
    let after = vec![150, 0, 70, 1030];
    assert_eq!(cpu_tick_deltas(&before, &after), (100, 30));
    assert_eq!(cpu_tick_deltas(&after, &before), (0, 0));
    assert_eq!(cpu_tick_deltas(&vec![1, 2], &vec![5, 6]), (8, 0));
}

#[test]
fn system_metric_keeps_each_part() {
    let m = system_metric(Some((16384000, 8192000)), Some(50.0), Some(35.0));
    assert_eq!(m.memory_used_mib, Some(8000));
    assert_eq!(m.memory_total_mib, Some(16000));
    assert_eq!(m.memory_remaining_mib, Some(8000));
    assert_eq!(m.memory_usage_pct, Some(50.0));
    assert_eq!(m.cpu_utilization_pct, Some(35.0));

    let no_memory = system_metric(None, Some(1.0), Some(35.0));
    assert_eq!(no_memory.memory_total_mib, None);
    assert_eq!(no_memory.memory_usage_pct, None);
    assert_eq!(no_memory.cpu_utilization_pct, Some(35.0));

    let no_cpu = system_metric::<f64>(Some((2048, 4096)), Some(0.0), None);
    assert_eq!(no_cpu.memory_used_mib, Some(0));
    assert_eq!(no_cpu.cpu_utilization_pct, None);
}
