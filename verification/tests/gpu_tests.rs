use ollama_monitor::gpu::{gpu_metric_from_output, parse_gpu_csv_line, parse_optional_u64, GpuParseError};

const DEFAULT_GPU_CSV: &str = "0, NVIDIA GeForce RTX 3080, 67.5, 6144, 10240, 82.0, 245.0\n";

#[test]
fn parses_mock_nvidia_smi_output() {
    let m = gpu_metric_from_output(DEFAULT_GPU_CSV, 0).unwrap();
    assert_eq!(m.name, Some("NVIDIA GeForce RTX 3080".to_string()));
    assert_eq!(m.temperature_c, Some("67.5".to_string()));
    assert_eq!(m.memory_used_mib, Some(6144));
    assert_eq!(m.memory_total_mib, Some(10240));
    assert_eq!(m.memory_remaining_mib, Some(4096));
    assert_eq!(m.utilization_pct, Some("82.0".to_string()));
    assert_eq!(m.power_watts, Some("245.0".to_string()));
}

#[test]
fn name_with_separator_is_rejoined() {
    let m = parse_gpu_csv_line("1, Tesla, Rev B, 40, 100, 50, 3.5, 70.25", 1).unwrap();
    assert_eq!(m.name, Some("Tesla, Rev B".to_string()));
    assert_eq!(m.temperature_c, Some("40".to_string()));
    assert_eq!(m.memory_used_mib, Some(100));
    assert_eq!(m.memory_total_mib, Some(50));
    assert_eq!(m.memory_remaining_mib, Some(0));
    assert_eq!(m.utilization_pct, Some("3.5".to_string()));
    assert_eq!(m.power_watts, Some("70.25".to_string()));
}

#[test]
fn unreadable_memory_gives_none() {
    let m = parse_gpu_csv_line("0, GPU, 50, [N/A], 8000, 1, [N/A]", 0).unwrap();
    assert_eq!(m.memory_used_mib, None);
    assert_eq!(m.memory_total_mib, Some(8000));
    assert_eq!(m.memory_remaining_mib, None);
    assert_eq!(m.power_watts, Some("[N/A]".to_string()));
}

#[test]
fn too_few_fields_is_refused() {
    assert_eq!(
        parse_gpu_csv_line("0, 67.5, 6144, 10240, 82.0, 245.0", 0).unwrap_err(),
        GpuParseError::FieldCount(6)
    );
    assert_eq!(parse_gpu_csv_line("", 0).unwrap_err(), GpuParseError::FieldCount(1));
}

#[test]
fn other_index_is_refused() {
    assert_eq!(
        parse_gpu_csv_line(DEFAULT_GPU_CSV.trim(), 1).unwrap_err(),
        GpuParseError::IndexMismatch { expected: 1, found: Some(0) }
    );
    assert_eq!(
        parse_gpu_csv_line("x, GPU, 1, 2, 3, 4, 5", 0).unwrap_err(),
        GpuParseError::IndexMismatch { expected: 0, found: None }
    );
}

#[test]
fn index_field_is_trimmed() {
    let m = parse_gpu_csv_line(" 3 , GPU, 1, 2, 3, 4, 5", 3).unwrap();
    assert_eq!(m.name, Some("GPU".to_string()));
    assert_eq!(m.memory_remaining_mib, Some(1));
}

#[test]
fn optional_u64_reading() {
    assert_eq!(parse_optional_u64(Some(" 6144 ")), Some(6144));
    assert_eq!(parse_optional_u64(Some("+7")), Some(7));
    assert_eq!(parse_optional_u64(Some("18446744073709551615")), Some(u64::MAX));
    assert_eq!(parse_optional_u64(Some("18446744073709551616")), None);
    assert_eq!(parse_optional_u64(Some("12a")), None);
    assert_eq!(parse_optional_u64(Some("")), None);
    assert_eq!(parse_optional_u64(Some("+")), None);
    assert_eq!(parse_optional_u64(None), None);
}
