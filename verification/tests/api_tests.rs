use ollama_monitor::api::{
    format_uptime, gpu_view, history_failure, history_range_param, models_view, now_ts,
    refresh_step, status_view, system_view,
};
use ollama_monitor::config::{cfg_for_ollama, Config};
use ollama_monitor::db::HistoryRange;
use ollama_monitor::gpu::gpu_metric_from_output;
use ollama_monitor::models::{
    GpuMetric, MonitorStatus, OllamaModelEntry, OllamaTagsResponse, SystemMetric,
};
use ollama_monitor::ollama::{tags_answer, tags_url, TagsError};
use std::time::{Duration, Instant};

fn mock_tags() -> OllamaTagsResponse {
    OllamaTagsResponse {
        models: vec![
            OllamaModelEntry {
                model_name: "llama3:8b".to_string(),
                size_bytes: Some(4_700_000_000),
                digest: Some("sha256:abc123".to_string()),
                modified_at: Some("2025-01-01T00:00:00Z".to_string()),
            },
            OllamaModelEntry {
                model_name: "mistral:7b".to_string(),
                size_bytes: Some(4_100_000_000),
                digest: Some("sha256:def456".to_string()),
                modified_at: Some("2025-02-01T00:00:00Z".to_string()),
            },
        ],
    }
}

fn mock_gpu() -> GpuMetric<f64> {
    let text = gpu_metric_from_output("0, NVIDIA GeForce RTX 3080, 67.5, 6144, 10240, 82.0, 245.0\n", 0)
        .unwrap();
    GpuMetric {
        name: text.name,
        temperature_c: text.temperature_c.and_then(|t| t.parse().ok()),
        memory_used_mib: text.memory_used_mib,
        memory_total_mib: text.memory_total_mib,
        memory_remaining_mib: text.memory_remaining_mib,
        utilization_pct: text.utilization_pct.and_then(|t| t.parse().ok()),
        power_watts: text.power_watts.and_then(|t| t.parse().ok()),
    }
}

#[test]
fn refresh_with_ollama_and_gpu() {
    let config = cfg_for_ollama("http://127.0.0.1:40000");
    let (status, check) = refresh_step(
        &config,
        Some(mock_tags()),
        mock_gpu(),
        SystemMetric::placeholder(),
        "0 days 12:30".to_string(),
    );
    assert!(status.ollama_reachable);
    assert_eq!(status.ollama_url, "http://127.0.0.1:40000");
    assert_eq!(status.loaded_model, Some("llama3:8b".to_string()));
    assert_eq!(status.available_models, vec!["llama3:8b".to_string(), "mistral:7b".to_string()]);
    assert_eq!(status.gpu.name, Some("NVIDIA GeForce RTX 3080".to_string()));
    assert_eq!(status.timestamp, "0 days 12:30");
    assert!(check.ollama_reachable);
    assert_eq!(check.loaded_model, Some("llama3:8b".to_string()));
    assert_eq!(check.available_models_count, 2);
    assert_eq!(check.gpu_name, Some("NVIDIA GeForce RTX 3080".to_string()));
    assert_eq!(check.gpu_temperature_c, Some(67.5));
    assert_eq!(check.gpu_memory_used_mib, Some(6144));
    assert_eq!(check.gpu_memory_total_mib, Some(10240));
    assert_eq!(check.gpu_utilization_pct, Some(82.0));
    assert_eq!(check.gpu_power_watts, Some(245.0));
}

#[test]
fn refresh_with_ollama_unreachable() {
    let mut config = Config::default();
    config.ollama_host = "http://127.0.0.1:59999".to_string();
    config.ollama_port = 0;
    let (status, check) =
        refresh_step(&config, None, mock_gpu(), SystemMetric::placeholder(), "t".to_string());
    assert!(!status.ollama_reachable);
    assert_eq!(status.ollama_url, "http://127.0.0.1:59999");
    assert!(status.available_models.is_empty());
    assert_eq!(check.loaded_model, None);
    assert_eq!(check.available_models_count, 0);
    assert_eq!(check.gpu_name, Some("NVIDIA GeForce RTX 3080".to_string()));
    assert_eq!(check.gpu_temperature_c, Some(67.5));
    assert_eq!(check.gpu_memory_used_mib, Some(6144));
}

#[test]
fn refresh_without_gpu() {
    let config = cfg_for_ollama("http://127.0.0.1:40000");
    let (_, check) = refresh_step(
        &config,
        Some(mock_tags()),
        GpuMetric::<f64>::placeholder(),
        SystemMetric::placeholder(),
        "t".to_string(),
    );
    assert!(check.ollama_reachable);
    assert_eq!(check.loaded_model, Some("llama3:8b".to_string()));
    assert_eq!(check.gpu_name, None);
    assert_eq!(check.gpu_temperature_c, None);
    assert_eq!(check.gpu_memory_used_mib, None);
    assert_eq!(check.gpu_memory_total_mib, None);
    assert_eq!(check.gpu_utilization_pct, None);
    assert_eq!(check.gpu_power_watts, None);
}

#[test]
fn refresh_with_empty_model_list() {
    let config = cfg_for_ollama("http://127.0.0.1:40000");
    let (status, check) = refresh_step(
        &config,
        Some(OllamaTagsResponse { models: vec![] }),
        GpuMetric::<f64>::placeholder(),
        SystemMetric::placeholder(),
        "t".to_string(),
    );
    assert!(status.ollama_reachable);
    assert_eq!(status.loaded_model, None);
    assert_eq!(check.available_models_count, 0);
}

#[test]
fn views_before_first_refresh_are_unavailable() {
    let latest: Option<MonitorStatus<f64>> = None;
    for err in [
        status_view(&latest).err().unwrap(),
        gpu_view(&latest).err().unwrap(),
        system_view(&latest).err().unwrap(),
        models_view(&latest).err().unwrap(),
    ] {
        assert_eq!(err.status, 503);
        assert_eq!(err.message, "First refresh not yet complete");
    }
}

#[test]
fn views_after_refresh() {
    let config = cfg_for_ollama("http://127.0.0.1:40000");
    let system = SystemMetric { memory_used_mib: Some(8192), memory_total_mib: Some(16384), memory_remaining_mib: Some(8192), memory_usage_pct: Some(50.0), cpu_utilization_pct: Some(35.0) };
    let (status, _) =
        refresh_step(&config, Some(mock_tags()), mock_gpu(), system, "0 days 12:30".to_string());
    let latest = Some(status);
    let s = status_view(&latest).ok().unwrap();
    assert!(s.ollama_reachable);
    assert_eq!(s.loaded_model, Some("llama3:8b".to_string()));
    assert_eq!(s.gpu.temperature_c, Some(67.5));
    let g = gpu_view(&latest).ok().unwrap();
    assert_eq!(g.gpu.temperature_c, Some(67.5));
    assert_eq!(g.timestamp, "0 days 12:30");
    let m = models_view(&latest).ok().unwrap();
    assert_eq!(m.total_count, 2);
    assert_eq!(m.loaded_model, Some("llama3:8b".to_string()));
    let sys = system_view(&latest).ok().unwrap();
    assert_eq!(sys.system.cpu_utilization_pct, Some(35.0));
}

#[test]
fn history_parameter_defaults_to_fifteen_minutes() {
    assert_eq!(history_range_param(None), HistoryRange::Last15Minutes);
    assert_eq!(history_range_param(Some("15m")), HistoryRange::Last15Minutes);
    assert_eq!(history_range_param(Some("7d")), HistoryRange::LastWeek);
}

#[test]
fn history_failure_message() {
    let e = history_failure("database is locked");
    assert_eq!(e.status, 500);
    assert_eq!(e.message, "Failed to query history: database is locked");
}

#[test]
fn uptime_format() {
    assert_eq!(format_uptime(0), "0 days 00:00");
    assert_eq!(format_uptime(45000), "0 days 12:30");
    assert_eq!(format_uptime(86399), "0 days 23:59");
    assert_eq!(format_uptime(86400 * 3 + 3600 + 125), "3 days 01:02");
    assert_eq!(format_uptime(1_700_000_000), "19675 days 22:13");
}

#[test]
fn now_ts_counts_from_the_start() {
    let started = Instant::now();
    assert_eq!(now_ts(&started), "0 days 00:00");
    if let Some(earlier) = Instant::now().checked_sub(Duration::from_secs(2 * 3600 + 5 * 60)) {
        assert_eq!(now_ts(&earlier), "0 days 02:05");
    }
}

#[test]
fn tags_url_appends_endpoint() {
    assert_eq!(tags_url("http://127.0.0.1:11434"), "http://127.0.0.1:11434/api/tags");
}

#[test]
fn tags_answer_needs_status_200() {
    assert_eq!(tags_answer(404, Some(mock_tags())).err(), Some(TagsError::Status(404)));
    assert_eq!(tags_answer(500, None).err(), Some(TagsError::Status(500)));
    assert_eq!(tags_answer(200, None).err(), Some(TagsError::InvalidBody));
    let tags = tags_answer(200, Some(mock_tags())).expect("a 200 answer with a list");
    assert_eq!(tags.models.len(), mock_tags().models.len());
    assert_eq!(tags.models[0].model_name, mock_tags().models[0].model_name);
}
