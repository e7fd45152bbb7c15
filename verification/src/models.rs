//! Data exchanged between the parts of the monitor: the Ollama model list,
//! GPU and host metrics, the status snapshot served over HTTP, the views of
//! it, history points and the stored record of one refresh.
//!
//! Measurements that are fractional (temperatures, percentages, power) are a
//! type parameter `F`: the logic here carries them without computing on them.

use vstd::prelude::*;

verus! {

/// The model list that Ollama's `/api/tags` answers with.
#[derive(Debug)]
pub struct OllamaTagsResponse {
    pub models: Vec<OllamaModelEntry>,
}

/// One model of Ollama's model list.
#[derive(Debug)]
pub struct OllamaModelEntry {
    /// The model's name (`name` in the JSON).
    pub model_name: String,
    /// The model's size in bytes (`size` in the JSON).
    pub size_bytes: Option<u64>,
    pub digest: Option<String>,
    pub modified_at: Option<String>,
}

/// The metrics of one GPU; `None` where they could not be read.
#[derive(Debug)]
pub struct GpuMetric<F> {
    pub name: Option<String>,
    pub temperature_c: Option<F>,
    pub memory_used_mib: Option<u64>,
    pub memory_total_mib: Option<u64>,
    pub memory_remaining_mib: Option<u64>,
    pub utilization_pct: Option<F>,
    pub power_watts: Option<F>,
}

/// The host's memory and CPU metrics; `None` where they could not be read.
#[derive(Debug)]
pub struct SystemMetric<F> {
    pub memory_used_mib: Option<u64>,
    pub memory_total_mib: Option<u64>,
    pub memory_remaining_mib: Option<u64>,
    pub memory_usage_pct: Option<F>,
    pub cpu_utilization_pct: Option<F>,
}

/// Everything one refresh found out, as `/api/status` serves it.
#[derive(Debug)]
pub struct MonitorStatus<F> {
    pub ollama_url: String,
    pub ollama_reachable: bool,
    pub loaded_model: Option<String>,
    pub available_models: Vec<String>,
    pub gpu: GpuMetric<F>,
    pub system: SystemMetric<F>,
    pub timestamp: String,
}

/// The model part of the status (`/api/models`).
#[derive(Debug)]
pub struct ApiModelResponse {
    pub loaded_model: Option<String>,
    pub available_models: Vec<String>,
    pub total_count: usize,
}

/// The GPU part of the status (`/api/gpu`).
#[derive(Debug)]
pub struct ApiGpuResponse<F> {
    pub gpu: GpuMetric<F>,
    pub timestamp: String,
}

/// The host part of the status (`/api/system`).
#[derive(Debug)]
pub struct ApiSystemResponse<F> {
    pub system: SystemMetric<F>,
    pub timestamp: String,
}

/// One point of the GPU history: milliseconds since the epoch, memory in use
/// and temperature.
#[derive(Debug)]
pub struct GpuHistoryPoint<F> {
    pub timestamp: i64,
    pub memory_used_mib: Option<u64>,
    pub temperature_c: Option<F>,
}

/// The GPU history (`/api/history`).
#[derive(Debug)]
pub struct ApiHistoryResponse<F> {
    pub points: Vec<GpuHistoryPoint<F>>,
}

/// One point of the host history: milliseconds since the epoch, memory in use
/// and CPU utilisation.
#[derive(Debug)]
pub struct SystemHistoryPoint<F> {
    pub timestamp: i64,
    pub memory_used_mib: Option<u64>,
    pub cpu_utilization_pct: Option<F>,
}

/// The host history (`/api/sys-history`).
#[derive(Debug)]
pub struct ApiSystemHistoryResponse<F> {
    pub points: Vec<SystemHistoryPoint<F>>,
}

/// The record of one refresh, as one row of the database stores it.
#[derive(Debug)]
pub struct CheckResult<F> {
    pub ollama_url: String,
    pub ollama_reachable: bool,
    pub loaded_model: Option<String>,
    pub available_models_count: usize,
    pub gpu_name: Option<String>,
    pub gpu_temperature_c: Option<F>,
    pub gpu_memory_used_mib: Option<u64>,
    pub gpu_memory_total_mib: Option<u64>,
    pub gpu_utilization_pct: Option<F>,
    pub gpu_power_watts: Option<F>,
    pub sys_memory_used_mib: Option<u64>,
    pub sys_memory_total_mib: Option<u64>,
    pub sys_memory_remaining_mib: Option<u64>,
    pub sys_memory_usage_pct: Option<F>,
    pub sys_cpu_utilization_pct: Option<F>,
}

/// A copy of an optional string.
pub fn copy_opt_string(s: &Option<String>) -> (res: Option<String>)
    ensures
        res == *s,
{
    match s {
        Some(v) => Some(v.clone()),
        None => None,
    }
}

/// A copy of a list of strings.
pub fn copy_strings(v: &Vec<String>) -> (res: Vec<String>)
    ensures
        res@ == v@,
{
    let mut res: Vec<String> = Vec::new();
    for i in 0..v.len()
        invariant
            res@ == v@.take(i as int),
    {
        res.push(v[i].clone());
        assert(res@ =~= v@.take(i + 1));
    }
    assert(res@ =~= v@);
    res
}

impl<F> GpuMetric<F> {
    /// The metric of a GPU that could not be read: every field `None`.
    pub open spec fn is_placeholder(&self) -> bool {
        &&& self.name is None
        &&& self.temperature_c is None
        &&& self.memory_used_mib is None
        &&& self.memory_total_mib is None
        &&& self.memory_remaining_mib is None
        &&& self.utilization_pct is None
        &&& self.power_watts is None
    }

    /// The metric of a GPU that could not be read: every field `None`.
    pub fn placeholder() -> (res: Self)
        ensures
            res.is_placeholder(),
    {
        GpuMetric {
            name: None,
            temperature_c: None,
            memory_used_mib: None,
            memory_total_mib: None,
            memory_remaining_mib: None,
            utilization_pct: None,
            power_watts: None,
        }
    }
}

impl<F: Copy> GpuMetric<F> {
    /// A copy of this metric.
    pub fn duplicate(&self) -> (res: Self)
        ensures
            res == *self,
    {
        GpuMetric {
            name: copy_opt_string(&self.name),
            temperature_c: self.temperature_c,
            memory_used_mib: self.memory_used_mib,
            memory_total_mib: self.memory_total_mib,
            memory_remaining_mib: self.memory_remaining_mib,
            utilization_pct: self.utilization_pct,
            power_watts: self.power_watts,
        }
    }
}

impl<F> SystemMetric<F> {
    /// The metric of a host that could not be read: every field `None`.
    pub open spec fn is_placeholder(&self) -> bool {
        &&& self.memory_used_mib is None
        &&& self.memory_total_mib is None
        &&& self.memory_remaining_mib is None
        &&& self.memory_usage_pct is None
        &&& self.cpu_utilization_pct is None
    }

    /// The metric of a host that could not be read: every field `None`.
    pub fn placeholder() -> (res: Self)
        ensures
            res.is_placeholder(),
    {
        SystemMetric {
            memory_used_mib: None,
            memory_total_mib: None,
            memory_remaining_mib: None,
            memory_usage_pct: None,
            cpu_utilization_pct: None,
        }
    }
}

impl<F: Copy> SystemMetric<F> {
    /// A copy of this metric.
    pub fn duplicate(&self) -> (res: Self)
        ensures
            res == *self,
    {
        SystemMetric {
            memory_used_mib: self.memory_used_mib,
            memory_total_mib: self.memory_total_mib,
            memory_remaining_mib: self.memory_remaining_mib,
            memory_usage_pct: self.memory_usage_pct,
            cpu_utilization_pct: self.cpu_utilization_pct,
        }
    }
}

impl<F> MonitorStatus<F> {
    /// Whether `self` and `other` hold the same values.
    pub open spec fn same(self, other: Self) -> bool {
        &&& self.ollama_url == other.ollama_url
        &&& self.ollama_reachable == other.ollama_reachable
        &&& self.loaded_model == other.loaded_model
        &&& self.available_models@ == other.available_models@
        &&& self.gpu == other.gpu
        &&& self.system == other.system
        &&& self.timestamp == other.timestamp
    }
}

impl<F: Copy> MonitorStatus<F> {
    /// A copy of this status.
    pub fn duplicate(&self) -> (res: Self)
        ensures
            res.same(*self),
    {
        let res = MonitorStatus {
            ollama_url: self.ollama_url.clone(),
            ollama_reachable: self.ollama_reachable,
            loaded_model: copy_opt_string(&self.loaded_model),
            available_models: copy_strings(&self.available_models),
            gpu: self.gpu.duplicate(),
            system: self.system.duplicate(),
            timestamp: self.timestamp.clone(),
        };
        res
    }
}

} // verus!
