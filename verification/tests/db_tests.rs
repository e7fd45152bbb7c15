use ollama_monitor::db::{
    column_additions, decode_check_row, INSERT_CHECK_RESULT, PRUNE_CHECK_RESULTS,
    SELECT_CHECK_RESULTS, encode_check_result, gpu_history_points, gpu_history_query,
    system_history_points, system_history_query, HistoryRange,
};
use ollama_monitor::models::CheckResult;

fn make_sample_check() -> CheckResult<f64> {
    CheckResult {
        ollama_url: "http://127.0.0.1:11434".into(),
        ollama_reachable: true,
        loaded_model: Some("llama3:8b".into()),
        available_models_count: 3,
        gpu_name: Some("NVIDIA GeForce RTX 3080".into()),
        gpu_temperature_c: Some(67.5),
        gpu_memory_used_mib: Some(6144),
        gpu_memory_total_mib: Some(10240),
        gpu_utilization_pct: Some(82.0),
        gpu_power_watts: Some(245.0),
        sys_memory_used_mib: Some(8192),
        sys_memory_total_mib: Some(16384),
        sys_memory_remaining_mib: Some(8192),
        sys_memory_usage_pct: Some(50.0),
        sys_cpu_utilization_pct: Some(35.0),
    }
}

#[test]
fn check_result_row_round_trip() {
    let sample = make_sample_check();
    let row = encode_check_result(make_sample_check());
    assert_eq!(row.ollama_reachable, 1);
    assert_eq!(row.available_models_count, 3);
    assert_eq!(row.gpu_memory_used_mib, Some(6144));
    let back = decode_check_row(row);
    assert_eq!(back.ollama_url, sample.ollama_url);
    assert_eq!(back.ollama_reachable, sample.ollama_reachable);
    assert_eq!(back.loaded_model, sample.loaded_model);
    assert_eq!(back.available_models_count, sample.available_models_count);
    assert_eq!(back.gpu_name, sample.gpu_name);
    assert_eq!(back.gpu_temperature_c, sample.gpu_temperature_c);
    assert_eq!(back.gpu_memory_used_mib, sample.gpu_memory_used_mib);
    assert_eq!(back.gpu_memory_total_mib, sample.gpu_memory_total_mib);
    assert_eq!(back.gpu_utilization_pct, sample.gpu_utilization_pct);
    assert_eq!(back.gpu_power_watts, sample.gpu_power_watts);
    assert_eq!(back.sys_memory_used_mib, sample.sys_memory_used_mib);
    assert_eq!(back.sys_cpu_utilization_pct, sample.sys_cpu_utilization_pct);
}

#[test]
fn null_fields_row_round_trip() {
    let null_check = CheckResult::<f64> {
        ollama_url: "http://127.0.0.1:11434".into(),
        ollama_reachable: false,
        loaded_model: None,
        available_models_count: 0,
        gpu_name: None,
        gpu_temperature_c: None,
        gpu_memory_used_mib: None,
        gpu_memory_total_mib: None,
        gpu_utilization_pct: None,
        gpu_power_watts: None,
        sys_memory_used_mib: None,
        sys_memory_total_mib: None,
        sys_memory_remaining_mib: None,
        sys_memory_usage_pct: None,
        sys_cpu_utilization_pct: None,
    };
    let row = encode_check_result(null_check);
    assert_eq!(row.ollama_reachable, 0);
    let back = decode_check_row(row);
    assert_eq!(back.ollama_url, "http://127.0.0.1:11434");
    assert!(!back.ollama_reachable);
    assert!(back.loaded_model.is_none());
    assert_eq!(back.available_models_count, 0);
    assert!(back.gpu_name.is_none());
    assert!(back.gpu_temperature_c.is_none());
    assert!(back.gpu_memory_used_mib.is_none());
    assert!(back.gpu_memory_total_mib.is_none());
    assert!(back.gpu_utilization_pct.is_none());
    assert!(back.gpu_power_watts.is_none());
}

#[test]
fn large_mib_values_survive_the_round_trip() {
    let mut c = make_sample_check();
    c.gpu_memory_used_mib = Some(u64::MAX);
    let row = encode_check_result(c);
    assert_eq!(row.gpu_memory_used_mib, Some(-1));
    assert_eq!(decode_check_row(row).gpu_memory_used_mib, Some(u64::MAX));
}

#[test]
fn range_parsing() {
    assert_eq!(HistoryRange::parse("15m"), HistoryRange::Last15Minutes);
    assert_eq!(HistoryRange::parse("last15min"), HistoryRange::Last15Minutes);
    assert_eq!(HistoryRange::parse("1h"), HistoryRange::LastHour);
    assert_eq!(HistoryRange::parse("last1h"), HistoryRange::LastHour);
    assert_eq!(HistoryRange::parse("6h"), HistoryRange::Last6Hours);
    assert_eq!(HistoryRange::parse("1d"), HistoryRange::LastDay);
    assert_eq!(HistoryRange::parse("last1d"), HistoryRange::LastDay);
    assert_eq!(HistoryRange::parse("7d"), HistoryRange::LastWeek);
    assert_eq!(HistoryRange::parse("last1w"), HistoryRange::LastWeek);
    assert_eq!(HistoryRange::parse("30d"), HistoryRange::LastMonth);
    assert_eq!(HistoryRange::parse("last1m"), HistoryRange::LastMonth);
    assert_eq!(HistoryRange::parse("2y"), HistoryRange::Last15Minutes);
    assert_eq!(HistoryRange::parse(""), HistoryRange::Last15Minutes);
}

#[test]
fn range_intervals() {
    assert_eq!(HistoryRange::Last15Minutes.sqlite_interval(), "-15 minutes");
    assert_eq!(HistoryRange::LastHour.sqlite_interval(), "-1 hour");
    assert_eq!(HistoryRange::Last6Hours.sqlite_interval(), "-6 hours");
    assert_eq!(HistoryRange::LastDay.sqlite_interval(), "-24 hours");
    assert_eq!(HistoryRange::LastWeek.sqlite_interval(), "-7 days");
    assert_eq!(HistoryRange::LastMonth.sqlite_interval(), "-30 days");
}

#[test]
fn history_queries() {
    assert_eq!(
        gpu_history_query(HistoryRange::LastHour),
        "SELECT strftime('%s', recorded_at) * 1000 as ts, gpu_memory_used_mib, gpu_temperature_c FROM check_results WHERE recorded_at >= datetime('now', '-1 hour') ORDER BY recorded_at ASC"
    );
    assert_eq!(
        system_history_query(HistoryRange::LastWeek),
        "SELECT strftime('%s', recorded_at) * 1000 as ts, sys_memory_used_mib, sys_cpu_utilization_pct FROM check_results WHERE recorded_at >= datetime('now', '-7 days') ORDER BY recorded_at ASC"
    );
}

#[test]
fn history_points_keep_order_and_values() {
    let rows = vec![(1000i64, Some(6144i64), Some(67.5f64)), (2000, None, None)];
    let points = gpu_history_points(&rows);
    assert_eq!(points.len(), 2);
    assert_eq!(points[0].timestamp, 1000);
    assert_eq!(points[0].memory_used_mib, Some(6144));
    assert_eq!(points[0].temperature_c, Some(67.5));
    assert_eq!(points[1].timestamp, 2000);
    assert_eq!(points[1].memory_used_mib, None);
    let sys = system_history_points(&rows);
    assert_eq!(sys[0].memory_used_mib, Some(6144));
    assert_eq!(sys[0].cpu_utilization_pct, Some(67.5));
}

#[test]
fn history_point_shows_stored_record() {
    let row = encode_check_result(make_sample_check());
    let gpu = gpu_history_points(&vec![(5000i64, row.gpu_memory_used_mib, row.gpu_temperature_c)]);
    assert_eq!(gpu[0].memory_used_mib, Some(6144));
    assert_eq!(gpu[0].temperature_c, Some(67.5));
    let sys = system_history_points(&vec![(5000i64, row.sys_memory_used_mib, row.sys_cpu_utilization_pct)]);
    assert_eq!(sys[0].memory_used_mib, Some(8192));
    assert_eq!(sys[0].cpu_utilization_pct, Some(35.0));
}

#[test]
fn row_read_back_stores_the_same_row() {
    let row = encode_check_result(make_sample_check());
    let again = encode_check_result(decode_check_row(row));
    assert_eq!(again.ollama_reachable, 1);
    assert_eq!(again.available_models_count, 3);
    assert_eq!(again.gpu_memory_total_mib, Some(10240));
    assert_eq!(again.sys_memory_remaining_mib, Some(8192));
}

#[test]
fn statements_of_the_store() {
    let additions = column_additions();
    assert_eq!(additions.len(), 6);
    assert_eq!(additions[0], "ALTER TABLE check_results ADD COLUMN gpu_power_watts REAL");
    assert!(additions.iter().all(|a| a.starts_with("ALTER TABLE check_results ADD COLUMN ")));
    assert_eq!(
        PRUNE_CHECK_RESULTS,
        "DELETE FROM check_results WHERE recorded_at < datetime('now', '-30 days')"
    );
    assert!(SELECT_CHECK_RESULTS.ends_with("ORDER BY id DESC"));
    assert_eq!(INSERT_CHECK_RESULT.matches('?').count(), 16);
}
