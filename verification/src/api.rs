//! The decisions of the HTTP API and of the refresh loop: one refresh turns
//! what Ollama, the GPU and the host reported into the status snapshot and
//! the record to store; each endpoint answers from the latest snapshot, or
//! with 503 before the first refresh has finished.

use vstd::prelude::*;
use crate::config::{Config, base_url};
use crate::db::{HistoryRange, range_of};
use crate::models::{
    ApiGpuResponse, ApiModelResponse, ApiSystemResponse, CheckResult, GpuMetric, MonitorStatus,
    OllamaTagsResponse, SystemMetric, copy_opt_string, copy_strings,
};
use crate::ollama::{first_model_name, model_names, names_of};
use crate::text::{chars_of, decimal, decimal_pad2, push_chars, push_decimal, push_decimal_pad2};

verus! {

broadcast use vstd::string::group_string_axioms;

/// `std::time::Instant`, a reading of the monotonic clock, opaque here.
#[verifier::external_type_specification]
#[verifier::external_body]
pub struct ExInstant(std::time::Instant);

/// Whole seconds that have passed since `started` (`Instant::elapsed`, then
/// `Duration::as_secs`; `elapsed` gives zero where the clock reads earlier
/// than `started`). Nothing is stated of the number: it is what the clock
/// reads now.
#[verifier::external_body]
fn seconds_since(started: &std::time::Instant) -> u64 {
    started.elapsed().as_secs()
}

/// The text of an uptime of `secs` seconds: the whole days, `" days "`, then
/// the hour within the day and the minute within the hour, each in two
/// digits, separated by `:`.
pub open spec fn uptime_text(secs: u64) -> Seq<char> {
    decimal((secs / 86400) as nat) + " days "@ + decimal_pad2(((secs % 86400) / 3600) as nat)
        + seq![':'] + decimal_pad2(((secs % 3600) / 60) as nat)
}

/// The text of an uptime of `secs` seconds (see `uptime_text`).
pub fn format_uptime(secs: u64) -> (res: String)
    ensures
        res@ == uptime_text(secs),
{
    let mut res = String::new();
    push_decimal(&mut res, secs / 86400);
    push_chars(&mut res, &chars_of(" days "));
    push_decimal_pad2(&mut res, (secs % 86400) / 3600);
    push_chars(&mut res, &chars_of(":"));
    push_decimal_pad2(&mut res, (secs % 3600) / 60);
    proof {
        reveal_strlit(":");
    }
    assert(res@ =~= uptime_text(secs));
    res
}

/// The timestamp of a status snapshot: the time that has passed since
/// `started` (the moment the monitor started), as `uptime_text` writes it.
pub fn now_ts(started: &std::time::Instant) -> (res: String)
    ensures
        exists|secs: u64| res@ == uptime_text(secs),
{
    let secs = seconds_since(started);
    format_uptime(secs)
}

/// The models that a refresh found: those of the model list, or none where
/// Ollama did not answer.
pub open spec fn available_of(tags: Option<OllamaTagsResponse>) -> Seq<String> {
    match tags {
        Some(t) => names_of(t),
        None => Seq::empty(),
    }
}

/// The loaded model: the first of the model list, if Ollama answered with a
/// list that holds any.
pub open spec fn loaded_of(tags: Option<OllamaTagsResponse>) -> Option<String> {
    match tags {
        Some(t) => if t.models@.len() > 0 {
            Some(t.models@[0].model_name)
        } else {
            None
        },
        None => None,
    }
}

/// The record that stores a status snapshot: its URL, reachability, loaded
/// model, the number of available models, and its GPU and host metrics
/// (the GPU's remaining memory is not stored).
pub open spec fn record_of_status<F>(s: MonitorStatus<F>) -> CheckResult<F> {
    CheckResult {
        ollama_url: s.ollama_url,
        ollama_reachable: s.ollama_reachable,
        loaded_model: s.loaded_model,
        available_models_count: s.available_models@.len() as usize,
        gpu_name: s.gpu.name,
        gpu_temperature_c: s.gpu.temperature_c,
        gpu_memory_used_mib: s.gpu.memory_used_mib,
        gpu_memory_total_mib: s.gpu.memory_total_mib,
        gpu_utilization_pct: s.gpu.utilization_pct,
        gpu_power_watts: s.gpu.power_watts,
        sys_memory_used_mib: s.system.memory_used_mib,
        sys_memory_total_mib: s.system.memory_total_mib,
        sys_memory_remaining_mib: s.system.memory_remaining_mib,
        sys_memory_usage_pct: s.system.memory_usage_pct,
        sys_cpu_utilization_pct: s.system.cpu_utilization_pct,
    }
}

/// Whether `status` and `record` are what one refresh makes of the model list
/// `tags` (`None` where Ollama did not answer), the GPU and host metrics and
/// the timestamp, with the Ollama server that `config` names.
pub open spec fn refreshed<F>(
    config: Config,
    tags: Option<OllamaTagsResponse>,
    gpu: GpuMetric<F>,
    system: SystemMetric<F>,
    timestamp: String,
    status: MonitorStatus<F>,
    record: CheckResult<F>,
) -> bool {
    &&& status.ollama_url@ == base_url(config.ollama_host@, config.ollama_port)
    &&& status.ollama_reachable == tags is Some
    &&& status.loaded_model == loaded_of(tags)
    &&& status.available_models@ == available_of(tags)
    &&& status.gpu == gpu
    &&& status.system == system
    &&& status.timestamp == timestamp
    &&& record == record_of_status(status)
}

/// One refresh: the status snapshot and the record to store, from the model
/// list that Ollama answered with (`None` where it did not), the GPU and host
/// metrics and the timestamp.
pub fn refresh_step<F: Copy>(
    config: &Config,
    tags: Option<OllamaTagsResponse>,
    gpu: GpuMetric<F>,
    system: SystemMetric<F>,
    timestamp: String,
) -> (res: (MonitorStatus<F>, CheckResult<F>))
    ensures
        refreshed(*config, tags, gpu, system, timestamp, res.0, res.1),
        res.1.sys_memory_used_mib == system.memory_used_mib,
        res.1.sys_memory_total_mib == system.memory_total_mib,
        res.1.sys_memory_remaining_mib == system.memory_remaining_mib,
        res.1.sys_memory_usage_pct == system.memory_usage_pct,
        res.1.sys_cpu_utilization_pct == system.cpu_utilization_pct,
        res.1.gpu_name == gpu.name,
        res.1.gpu_temperature_c == gpu.temperature_c,
        res.1.gpu_memory_used_mib == gpu.memory_used_mib,
        res.1.gpu_memory_total_mib == gpu.memory_total_mib,
        res.1.gpu_utilization_pct == gpu.utilization_pct,
        res.1.gpu_power_watts == gpu.power_watts,
{
    let (available, loaded_model) = match &tags {
        Some(t) => (model_names(t), first_model_name(t)),
        None => (Vec::new(), None),
    };
    assert(available@ == available_of(tags));
    let record = CheckResult {
        ollama_url: config.ollama_base_url(),
        ollama_reachable: tags.is_some(),
        loaded_model: copy_opt_string(&loaded_model),
        available_models_count: available.len(),
        gpu_name: copy_opt_string(&gpu.name),
        gpu_temperature_c: gpu.temperature_c,
        gpu_memory_used_mib: gpu.memory_used_mib,
        gpu_memory_total_mib: gpu.memory_total_mib,
        gpu_utilization_pct: gpu.utilization_pct,
        gpu_power_watts: gpu.power_watts,
        sys_memory_used_mib: system.memory_used_mib,
        sys_memory_total_mib: system.memory_total_mib,
        sys_memory_remaining_mib: system.memory_remaining_mib,
        sys_memory_usage_pct: system.memory_usage_pct,
        sys_cpu_utilization_pct: system.cpu_utilization_pct,
    };
    let status = MonitorStatus {
        ollama_url: record.ollama_url.clone(),
        ollama_reachable: record.ollama_reachable,
        loaded_model,
        available_models: available,
        gpu,
        system,
        timestamp,
    };
    (status, record)
}

/// The answer of an endpoint that failed: the HTTP status code and the text
/// of the body.
#[derive(Debug)]
pub struct ApiError {
    pub status: u16,
    pub message: String,
}

/// The body of the answer before the first refresh has finished.
pub open spec fn not_ready_message() -> Seq<char> {
    "First refresh not yet complete"@
}

/// Whether `e` is the answer before the first refresh has finished: 503
/// (Service Unavailable) with `not_ready_message`.
pub open spec fn is_not_ready(e: ApiError) -> bool {
    e.status == 503 && e.message@ == not_ready_message()
}

fn not_ready() -> (res: ApiError)
    ensures
        is_not_ready(res),
{
    ApiError { status: 503, message: String::from_str("First refresh not yet complete") }
}

/// The answer of `/api/status`: the latest snapshot.
pub fn status_view<F: Copy>(latest: &Option<MonitorStatus<F>>) -> (res: Result<
    MonitorStatus<F>,
    ApiError,
>)
    ensures
        match *latest {
            Some(s) => res matches Ok(v) && v.same(s),
            None => res matches Err(e) && is_not_ready(e),
        },
{
    match latest {
        Some(s) => Ok(s.duplicate()),
        None => Err(not_ready()),
    }
}

/// The answer of `/api/gpu`: the GPU metrics and timestamp of the latest
/// snapshot.
pub fn gpu_view<F: Copy>(latest: &Option<MonitorStatus<F>>) -> (res: Result<
    ApiGpuResponse<F>,
    ApiError,
>)
    ensures
        match *latest {
            Some(s) => res matches Ok(v) && v.gpu == s.gpu && v.timestamp == s.timestamp,
            None => res matches Err(e) && is_not_ready(e),
        },
{
    match latest {
        Some(s) => Ok(ApiGpuResponse { gpu: s.gpu.duplicate(), timestamp: s.timestamp.clone() }),
        None => Err(not_ready()),
    }
}

/// The answer of `/api/system`: the host metrics and timestamp of the latest
/// snapshot.
pub fn system_view<F: Copy>(latest: &Option<MonitorStatus<F>>) -> (res: Result<
    ApiSystemResponse<F>,
    ApiError,
>)
    ensures
        match *latest {
            Some(s) => res matches Ok(v) && v.system == s.system && v.timestamp == s.timestamp,
            None => res matches Err(e) && is_not_ready(e),
        },
{
    match latest {
        Some(s) => Ok(
            ApiSystemResponse { system: s.system.duplicate(), timestamp: s.timestamp.clone() },
        ),
        None => Err(not_ready()),
    }
}

/// Whether `v` is the model part of the snapshot `s`.
pub open spec fn models_of<F>(s: MonitorStatus<F>, v: ApiModelResponse) -> bool {
    &&& v.loaded_model == s.loaded_model
    &&& v.available_models@ == s.available_models@
    &&& v.total_count == s.available_models@.len()
}

/// The answer of `/api/models`: the loaded model, the available models and
/// how many there are, from the latest snapshot.
pub fn models_view<F>(latest: &Option<MonitorStatus<F>>) -> (res: Result<
    ApiModelResponse,
    ApiError,
>)
    ensures
        match *latest {
            Some(s) => res matches Ok(v) && models_of(s, v),
            None => res matches Err(e) && is_not_ready(e),
        },
{
    match latest {
        Some(s) => Ok(
            ApiModelResponse {
                loaded_model: copy_opt_string(&s.loaded_model),
                available_models: copy_strings(&s.available_models),
                total_count: s.available_models.len(),
            },
        ),
        None => Err(not_ready()),
    }
}

/// The range that the `range` query parameter of `/api/history` asks for;
/// without the parameter, the last 15 minutes.
pub fn history_range_param(range: Option<&str>) -> (res: HistoryRange)
    ensures
        match range {
            Some(r) => res == range_of(r@),
            None => res == HistoryRange::Last15Minutes,
        },
{
    match range {
        Some(r) => HistoryRange::parse(r),
        None => HistoryRange::Last15Minutes,
    }
}

/// The answer of a history endpoint whose query failed: 500 (Internal Server
/// Error) with `Failed to query history: ` and the failure's description.
pub fn history_failure(detail: &str) -> (res: ApiError)
    ensures
        res.status == 500,
        res.message@ == "Failed to query history: "@ + detail@,
{
    let mut message = String::new();
    push_chars(&mut message, &chars_of("Failed to query history: "));
    push_chars(&mut message, &chars_of(detail));
    ApiError { status: 500, message }
}

/// After a refresh, `/api/models` counts the models of the list that Ollama
/// answered with (none where it did not answer), names the first of them as
/// loaded, and `/api/gpu` and `/api/system` show the metrics that the refresh
/// was given; the stored record counts the same models.
pub proof fn lemma_refresh_then_views<F>(
    config: Config,
    tags: Option<OllamaTagsResponse>,
    gpu: GpuMetric<F>,
    system: SystemMetric<F>,
    timestamp: String,
    status: MonitorStatus<F>,
    record: CheckResult<F>,
    models: ApiModelResponse,
    gpu_answer: ApiGpuResponse<F>,
    system_answer: ApiSystemResponse<F>,
)
    requires
        refreshed(config, tags, gpu, system, timestamp, status, record),
        models_of(status, models),
        gpu_answer.gpu == status.gpu && gpu_answer.timestamp == status.timestamp,
        system_answer.system == status.system && system_answer.timestamp == status.timestamp,
    ensures
        models.total_count == (match tags {
            Some(t) => t.models@.len(),
            None => 0,
        }),
        models.total_count == record.available_models_count,
        models.loaded_model == loaded_of(tags),
        gpu_answer.gpu == gpu,
        system_answer.system == system,
        gpu_answer.timestamp == timestamp,
{
}

/// The record that a refresh stores describes that refresh: the Ollama URL
/// of the configuration, whether Ollama answered, the first model of its list
/// as the loaded one and the length of the list as the model count, and each
/// GPU and host metric field exactly as the refresh was given it (the host's
/// memory in use as memory in use, its free memory as free memory).
pub proof fn lemma_refresh_record<F>(
    config: Config,
    tags: Option<OllamaTagsResponse>,
    gpu: GpuMetric<F>,
    system: SystemMetric<F>,
    timestamp: String,
    status: MonitorStatus<F>,
    record: CheckResult<F>,
)
    requires
        refreshed(config, tags, gpu, system, timestamp, status, record),
    ensures
        record.ollama_url@ == base_url(config.ollama_host@, config.ollama_port),
        record.ollama_reachable == tags is Some,
        record.loaded_model == (match tags {
            Some(t) => if t.models@.len() > 0 {
                Some(t.models@[0].model_name)
            } else {
                None
            },
            None => None,
        }),
        record.available_models_count == (match tags {
            Some(t) => t.models@.len() as usize,
            None => 0,
        }),
        record.gpu_name == gpu.name,
        record.gpu_temperature_c == gpu.temperature_c,
        record.gpu_memory_used_mib == gpu.memory_used_mib,
        record.gpu_memory_total_mib == gpu.memory_total_mib,
        record.gpu_utilization_pct == gpu.utilization_pct,
        record.gpu_power_watts == gpu.power_watts,
        record.sys_memory_used_mib == system.memory_used_mib,
        record.sys_memory_total_mib == system.memory_total_mib,
        record.sys_memory_remaining_mib == system.memory_remaining_mib,
        record.sys_memory_usage_pct == system.memory_usage_pct,
        record.sys_cpu_utilization_pct == system.cpu_utilization_pct,
        status.gpu == gpu,
        status.system == system,
        status.timestamp == timestamp,
{
}

} // verus!
