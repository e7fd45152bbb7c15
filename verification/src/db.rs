//! What the database stores: the time ranges of the history view and the
//! queries that select them, and the columns of the `check_results` row that
//! holds the record of one refresh, with the conversions between a record and
//! its row.

use vstd::prelude::*;
use crate::models::{CheckResult, GpuHistoryPoint, SystemHistoryPoint};
use crate::text::{chars_equal, chars_of, push_chars};

verus! {

broadcast use vstd::string::group_string_axioms;

/// The time ranges of the dashboard's history view.
#[derive(Debug, Clone, Copy, PartialEq, Eq, Structural)]
pub enum HistoryRange {
    Last15Minutes,
    LastHour,
    Last6Hours,
    LastDay,
    LastWeek,
    LastMonth,
}

/// The SQLite `datetime` modifier that reaches back over `r`.
pub open spec fn interval_of(r: HistoryRange) -> Seq<char> {
    match r {
        HistoryRange::Last15Minutes => "-15 minutes"@,
        HistoryRange::LastHour => "-1 hour"@,
        HistoryRange::Last6Hours => "-6 hours"@,
        HistoryRange::LastDay => "-24 hours"@,
        HistoryRange::LastWeek => "-7 days"@,
        HistoryRange::LastMonth => "-30 days"@,
    }
}

/// The range that the query parameter `s` names: `15m`, `1h`, `6h`, `1d`,
/// `7d` or `30d` (or `last15min`, `last1h`, `last1d`, `last1w`, `last1m`);
/// any other text names the last 15 minutes.
pub open spec fn range_of(s: Seq<char>) -> HistoryRange {
    if s == "15m"@ || s == "last15min"@ {
        HistoryRange::Last15Minutes
    } else if s == "1h"@ || s == "last1h"@ {
        HistoryRange::LastHour
    } else if s == "6h"@ {
        HistoryRange::Last6Hours
    } else if s == "1d"@ || s == "last1d"@ {
        HistoryRange::LastDay
    } else if s == "7d"@ || s == "last1w"@ {
        HistoryRange::LastWeek
    } else if s == "30d"@ || s == "last1m"@ {
        HistoryRange::LastMonth
    } else {
        HistoryRange::Last15Minutes
    }
}

/// The query parameter that the dashboard's buttons send for `r`.
pub open spec fn token_of(r: HistoryRange) -> Seq<char> {
    match r {
        HistoryRange::Last15Minutes => "15m"@,
        HistoryRange::LastHour => "1h"@,
        HistoryRange::Last6Hours => "6h"@,
        HistoryRange::LastDay => "1d"@,
        HistoryRange::LastWeek => "7d"@,
        HistoryRange::LastMonth => "30d"@,
    }
}

fn text_is(c: &Vec<char>, lit: &str) -> (res: bool)
    ensures
        res == (c@ == lit@),
{
    chars_equal(c, &chars_of(lit))
}

impl HistoryRange {
    /// The SQLite `datetime` modifier that reaches back over this range.
    pub fn sqlite_interval(&self) -> (res: &'static str)
        ensures
            res@ == interval_of(*self),
    {
        match self {
            HistoryRange::Last15Minutes => "-15 minutes",
            HistoryRange::LastHour => "-1 hour",
            HistoryRange::Last6Hours => "-6 hours",
            HistoryRange::LastDay => "-24 hours",
            HistoryRange::LastWeek => "-7 days",
            HistoryRange::LastMonth => "-30 days",
        }
    }

    /// The range that the query parameter `s` names (see `range_of`).
    pub fn parse(s: &str) -> (res: HistoryRange)
        ensures
            res == range_of(s@),
    {
        let c = chars_of(s);
        if text_is(&c, "15m") || text_is(&c, "last15min") {
            HistoryRange::Last15Minutes
        } else if text_is(&c, "1h") || text_is(&c, "last1h") {
            HistoryRange::LastHour
        } else if text_is(&c, "6h") {
            HistoryRange::Last6Hours
        } else if text_is(&c, "1d") || text_is(&c, "last1d") {
            HistoryRange::LastDay
        } else if text_is(&c, "7d") || text_is(&c, "last1w") {
            HistoryRange::LastWeek
        } else if text_is(&c, "30d") || text_is(&c, "last1m") {
            HistoryRange::LastMonth
        } else {
            HistoryRange::Last15Minutes
        }
    }
}

/// Each range is what the query parameter that the dashboard sends for it
/// names.
pub proof fn lemma_parse_token(r: HistoryRange)
    ensures
        range_of(token_of(r)) == r,
{
    reveal_strlit("15m");
    reveal_strlit("last15min");
    reveal_strlit("1h");
    reveal_strlit("last1h");
    reveal_strlit("6h");
    reveal_strlit("1d");
    reveal_strlit("last1d");
    reveal_strlit("7d");
    reveal_strlit("last1w");
    reveal_strlit("30d");
    reveal_strlit("last1m");
    let t = token_of(r);
    assert("15m"@.len() == 3 && "last15min"@.len() == 9);
    assert("1h"@.len() == 2 && "last1h"@.len() == 6);
    assert("6h"@.len() == 2 && "1d"@.len() == 2 && "7d"@.len() == 2 && "30d"@.len() == 3);
    assert("last1d"@.len() == 6 && "last1w"@.len() == 6 && "last1m"@.len() == 6);
    assert("1h"@[1] == 'h' && "6h"@[0] == '6' && "1d"@[0] == '1' && "1d"@[1] == 'd');
    assert("7d"@[0] == '7' && "30d"@[0] == '3' && "15m"@[0] == '1');
    match r {
        HistoryRange::Last15Minutes => {},
        HistoryRange::LastHour => {
            assert(t != "15m"@ && t != "last15min"@);
        },
        HistoryRange::Last6Hours => {
            assert(t != "15m"@ && t != "last15min"@);
            assert(t != "1h"@ && t != "last1h"@);
        },
        HistoryRange::LastDay => {
            assert(t != "15m"@ && t != "last15min"@);
            assert(t != "1h"@ && t != "last1h"@);
            assert(t != "6h"@);
        },
        HistoryRange::LastWeek => {
            assert(t != "15m"@ && t != "last15min"@);
            assert(t != "1h"@ && t != "last1h"@);
            assert(t != "6h"@);
            assert(t != "1d"@ && t != "last1d"@);
        },
        HistoryRange::LastMonth => {
            assert(t != "15m"@ && t != "last15min"@);
            assert(t != "1h"@ && t != "last1h"@);
            assert(t != "6h"@);
            assert(t != "1d"@ && t != "last1d"@);
            assert(t != "7d"@ && t != "last1w"@);
        },
    }
}

/// The start of the query for the GPU history.
pub const GPU_HISTORY_QUERY_HEAD: &'static str = "SELECT strftime('%s', recorded_at) * 1000 as ts, gpu_memory_used_mib, gpu_temperature_c FROM check_results WHERE recorded_at >= datetime('now', '";

/// The start of the query for the host history.
pub const SYSTEM_HISTORY_QUERY_HEAD: &'static str = "SELECT strftime('%s', recorded_at) * 1000 as ts, sys_memory_used_mib, sys_cpu_utilization_pct FROM check_results WHERE recorded_at >= datetime('now', '";

/// The end of both history queries.
pub const HISTORY_QUERY_TAIL: &'static str = "') ORDER BY recorded_at ASC";

/// Creates the table that stores one row per refresh, where it does not exist.
pub const CREATE_CHECK_RESULTS: &'static str = "CREATE TABLE IF NOT EXISTS check_results (
    id            INTEGER PRIMARY KEY AUTOINCREMENT,
    recorded_at   TEXT    NOT NULL,
    ollama_url    TEXT    NOT NULL,
    ollama_reachable INTEGER NOT NULL,
    loaded_model  TEXT,
    available_models_count INTEGER NOT NULL DEFAULT 0,
    gpu_name      TEXT,
    gpu_temperature_c REAL,
    gpu_memory_used_mib INTEGER,
    gpu_memory_total_mib INTEGER,
    gpu_utilization_pct REAL,
    gpu_power_watts REAL,
    sys_memory_used_mib INTEGER,
    sys_memory_total_mib INTEGER,
    sys_memory_remaining_mib INTEGER,
    sys_memory_usage_pct REAL,
    sys_cpu_utilization_pct REAL
)";

/// Adds the GPU power column to a table made before it existed.
pub const ADD_GPU_POWER_WATTS: &'static str =
    "ALTER TABLE check_results ADD COLUMN gpu_power_watts REAL";

/// Adds the host memory-in-use column to a table made before it existed.
pub const ADD_SYS_MEMORY_USED_MIB: &'static str =
    "ALTER TABLE check_results ADD COLUMN sys_memory_used_mib INTEGER";

/// Adds the host total-memory column to a table made before it existed.
pub const ADD_SYS_MEMORY_TOTAL_MIB: &'static str =
    "ALTER TABLE check_results ADD COLUMN sys_memory_total_mib INTEGER";

/// Adds the host free-memory column to a table made before it existed.
pub const ADD_SYS_MEMORY_REMAINING_MIB: &'static str =
    "ALTER TABLE check_results ADD COLUMN sys_memory_remaining_mib INTEGER";

/// Adds the host memory-usage column to a table made before it existed.
pub const ADD_SYS_MEMORY_USAGE_PCT: &'static str =
    "ALTER TABLE check_results ADD COLUMN sys_memory_usage_pct REAL";

/// Adds the CPU utilisation column to a table made before it existed.
pub const ADD_SYS_CPU_UTILIZATION_PCT: &'static str =
    "ALTER TABLE check_results ADD COLUMN sys_cpu_utilization_pct REAL";

/// Deletes the rows recorded more than 30 days ago.
pub const PRUNE_CHECK_RESULTS: &'static str =
    "DELETE FROM check_results WHERE recorded_at < datetime('now', '-30 days')";

/// Stores one record: its time (bound first), then the columns of its row
/// (see `CheckRow`) in their order.
pub const INSERT_CHECK_RESULT: &'static str = "INSERT INTO check_results (
    recorded_at, ollama_url, ollama_reachable,
    loaded_model, available_models_count,
    gpu_name, gpu_temperature_c,
    gpu_memory_used_mib, gpu_memory_total_mib,
    gpu_utilization_pct, gpu_power_watts,
    sys_memory_used_mib, sys_memory_total_mib,
    sys_memory_remaining_mib, sys_memory_usage_pct,
    sys_cpu_utilization_pct
) VALUES (?, ?, ?, ?, ?, ?, ?, ?, ?, ?, ?, ?, ?, ?, ?, ?)";

/// Reads the rows of all records, newest first, with the columns of
/// `CheckRow` in their order.
pub const SELECT_CHECK_RESULTS: &'static str = "SELECT ollama_url, ollama_reachable, loaded_model, available_models_count,
       gpu_name, gpu_temperature_c, gpu_memory_used_mib, gpu_memory_total_mib,
       gpu_utilization_pct, gpu_power_watts,
       sys_memory_used_mib, sys_memory_total_mib, sys_memory_remaining_mib,
       sys_memory_usage_pct, sys_cpu_utilization_pct
FROM check_results
ORDER BY id DESC";

/// The statements that bring a table made by an older schema up to date, in
/// the order they run. Each adds one column; where the column exists the
/// statement fails, and the failure is of no consequence.
pub fn column_additions() -> (res: Vec<&'static str>)
    ensures
        res@ == seq![
            ADD_GPU_POWER_WATTS,
            ADD_SYS_MEMORY_USED_MIB,
            ADD_SYS_MEMORY_TOTAL_MIB,
            ADD_SYS_MEMORY_REMAINING_MIB,
            ADD_SYS_MEMORY_USAGE_PCT,
            ADD_SYS_CPU_UTILIZATION_PCT,
        ],
{
    let res = vec![
        ADD_GPU_POWER_WATTS,
        ADD_SYS_MEMORY_USED_MIB,
        ADD_SYS_MEMORY_TOTAL_MIB,
        ADD_SYS_MEMORY_REMAINING_MIB,
        ADD_SYS_MEMORY_USAGE_PCT,
        ADD_SYS_CPU_UTILIZATION_PCT,
    ];
    assert(res@ =~= seq![
        ADD_GPU_POWER_WATTS,
        ADD_SYS_MEMORY_USED_MIB,
        ADD_SYS_MEMORY_TOTAL_MIB,
        ADD_SYS_MEMORY_REMAINING_MIB,
        ADD_SYS_MEMORY_USAGE_PCT,
        ADD_SYS_CPU_UTILIZATION_PCT,
    ]);
    res
}

fn history_query(head: &str, range: HistoryRange) -> (res: String)
    ensures
        res@ == head@ + interval_of(range) + HISTORY_QUERY_TAIL@,
{
    let mut res = String::new();
    push_chars(&mut res, &chars_of(head));
    push_chars(&mut res, &chars_of(range.sqlite_interval()));
    push_chars(&mut res, &chars_of(HISTORY_QUERY_TAIL));
    assert(res@ =~= head@ + interval_of(range) + HISTORY_QUERY_TAIL@);
    res
}

/// The query that selects, oldest first, the time (in ms since the epoch),
/// GPU memory in use and GPU temperature of the records within `range`.
pub fn gpu_history_query(range: HistoryRange) -> (res: String)
    ensures
        res@ == GPU_HISTORY_QUERY_HEAD@ + interval_of(range) + HISTORY_QUERY_TAIL@,
{
    history_query(GPU_HISTORY_QUERY_HEAD, range)
}

/// The query that selects, oldest first, the time (in ms since the epoch),
/// host memory in use and CPU utilisation of the records within `range`.
pub fn system_history_query(range: HistoryRange) -> (res: String)
    ensures
        res@ == SYSTEM_HISTORY_QUERY_HEAD@ + interval_of(range) + HISTORY_QUERY_TAIL@,
{
    history_query(SYSTEM_HISTORY_QUERY_HEAD, range)
}

/// The columns of a `check_results` row (besides its id and time): flags and
/// counts as SQLite `INTEGER`s of 32 bits, MiB as `INTEGER`s of 64 bits.
#[derive(Debug)]
pub struct CheckRow<F> {
    pub ollama_url: String,
    pub ollama_reachable: i32,
    pub loaded_model: Option<String>,
    pub available_models_count: i32,
    pub gpu_name: Option<String>,
    pub gpu_temperature_c: Option<F>,
    pub gpu_memory_used_mib: Option<i64>,
    pub gpu_memory_total_mib: Option<i64>,
    pub gpu_utilization_pct: Option<F>,
    pub gpu_power_watts: Option<F>,
    pub sys_memory_used_mib: Option<i64>,
    pub sys_memory_total_mib: Option<i64>,
    pub sys_memory_remaining_mib: Option<i64>,
    pub sys_memory_usage_pct: Option<F>,
    pub sys_cpu_utilization_pct: Option<F>,
}

/// A MiB value as the database stores it: the `i64` with the same bits.
pub open spec fn stored_mib(v: Option<u64>) -> Option<i64> {
    match v {
        Some(x) => Some(x as i64),
        None => None,
    }
}

/// A stored MiB value as read back: the `u64` with the same bits.
pub open spec fn loaded_mib(v: Option<i64>) -> Option<u64> {
    match v {
        Some(x) => Some(x as u64),
        None => None,
    }
}

/// The row that stores `c`: the flag as 1 or 0, the count cut to 32 bits, the
/// MiB values as `i64` of the same bits, everything else as it is.
pub open spec fn row_of<F>(c: CheckResult<F>) -> CheckRow<F> {
    CheckRow {
        ollama_url: c.ollama_url,
        ollama_reachable: if c.ollama_reachable { 1 } else { 0 },
        loaded_model: c.loaded_model,
        available_models_count: c.available_models_count as i32,
        gpu_name: c.gpu_name,
        gpu_temperature_c: c.gpu_temperature_c,
        gpu_memory_used_mib: stored_mib(c.gpu_memory_used_mib),
        gpu_memory_total_mib: stored_mib(c.gpu_memory_total_mib),
        gpu_utilization_pct: c.gpu_utilization_pct,
        gpu_power_watts: c.gpu_power_watts,
        sys_memory_used_mib: stored_mib(c.sys_memory_used_mib),
        sys_memory_total_mib: stored_mib(c.sys_memory_total_mib),
        sys_memory_remaining_mib: stored_mib(c.sys_memory_remaining_mib),
        sys_memory_usage_pct: c.sys_memory_usage_pct,
        sys_cpu_utilization_pct: c.sys_cpu_utilization_pct,
    }
}

/// The record that the row `r` holds: the flag is set where it is not 0, the
/// count is the 32-bit value taken as a `usize`, the MiB values are the `u64`
/// of the same bits.
pub open spec fn record_of<F>(r: CheckRow<F>) -> CheckResult<F> {
    CheckResult {
        ollama_url: r.ollama_url,
        ollama_reachable: r.ollama_reachable != 0,
        loaded_model: r.loaded_model,
        available_models_count: r.available_models_count as usize,
        gpu_name: r.gpu_name,
        gpu_temperature_c: r.gpu_temperature_c,
        gpu_memory_used_mib: loaded_mib(r.gpu_memory_used_mib),
        gpu_memory_total_mib: loaded_mib(r.gpu_memory_total_mib),
        gpu_utilization_pct: r.gpu_utilization_pct,
        gpu_power_watts: r.gpu_power_watts,
        sys_memory_used_mib: loaded_mib(r.sys_memory_used_mib),
        sys_memory_total_mib: loaded_mib(r.sys_memory_total_mib),
        sys_memory_remaining_mib: loaded_mib(r.sys_memory_remaining_mib),
        sys_memory_usage_pct: r.sys_memory_usage_pct,
        sys_cpu_utilization_pct: r.sys_cpu_utilization_pct,
    }
}

fn store_mib(v: Option<u64>) -> (res: Option<i64>)
    ensures
        res == stored_mib(v),
{
    match v {
        Some(x) => Some(x as i64),
        None => None,
    }
}

fn load_mib(v: Option<i64>) -> (res: Option<u64>)
    ensures
        res == loaded_mib(v),
{
    match v {
        Some(x) => Some(x as u64),
        None => None,
    }
}

/// The row that stores the record `c` (see `row_of`).
pub fn encode_check_result<F>(c: CheckResult<F>) -> (res: CheckRow<F>)
    ensures
        res == row_of(c),
{
    CheckRow {
        ollama_url: c.ollama_url,
        ollama_reachable: if c.ollama_reachable {
            1
        } else {
            0
        },
        loaded_model: c.loaded_model,
        available_models_count: c.available_models_count as i32,
        gpu_name: c.gpu_name,
        gpu_temperature_c: c.gpu_temperature_c,
        gpu_memory_used_mib: store_mib(c.gpu_memory_used_mib),
        gpu_memory_total_mib: store_mib(c.gpu_memory_total_mib),
        gpu_utilization_pct: c.gpu_utilization_pct,
        gpu_power_watts: c.gpu_power_watts,
        sys_memory_used_mib: store_mib(c.sys_memory_used_mib),
        sys_memory_total_mib: store_mib(c.sys_memory_total_mib),
        sys_memory_remaining_mib: store_mib(c.sys_memory_remaining_mib),
        sys_memory_usage_pct: c.sys_memory_usage_pct,
        sys_cpu_utilization_pct: c.sys_cpu_utilization_pct,
    }
}

/// The record that the row `r` holds (see `record_of`).
pub fn decode_check_row<F>(r: CheckRow<F>) -> (res: CheckResult<F>)
    ensures
        res == record_of(r),
{
    CheckResult {
        ollama_url: r.ollama_url,
        ollama_reachable: r.ollama_reachable != 0,
        loaded_model: r.loaded_model,
        available_models_count: r.available_models_count as usize,
        gpu_name: r.gpu_name,
        gpu_temperature_c: r.gpu_temperature_c,
        gpu_memory_used_mib: load_mib(r.gpu_memory_used_mib),
        gpu_memory_total_mib: load_mib(r.gpu_memory_total_mib),
        gpu_utilization_pct: r.gpu_utilization_pct,
        gpu_power_watts: r.gpu_power_watts,
        sys_memory_used_mib: load_mib(r.sys_memory_used_mib),
        sys_memory_total_mib: load_mib(r.sys_memory_total_mib),
        sys_memory_remaining_mib: load_mib(r.sys_memory_remaining_mib),
        sys_memory_usage_pct: r.sys_memory_usage_pct,
        sys_cpu_utilization_pct: r.sys_cpu_utilization_pct,
    }
}

proof fn lemma_mib_round_trip(v: Option<u64>)
    ensures
        loaded_mib(stored_mib(v)) == v,
{
    if let Some(x) = v {
        assert((x as i64) as u64 == x) by (bit_vector);
    }
}

proof fn lemma_row_mib_round_trip(v: Option<i64>)
    ensures
        stored_mib(loaded_mib(v)) == v,
{
    if let Some(x) = v {
        assert((x as u64) as i64 == x) by (bit_vector);
    }
}

/// Reading back the row that stores a record gives the record, where its
/// model count fits in the row's 32-bit column.
pub proof fn lemma_record_round_trip<F>(c: CheckResult<F>)
    requires
        c.available_models_count <= i32::MAX,
    ensures
        record_of(row_of(c)) == c,
{
    lemma_mib_round_trip(c.gpu_memory_used_mib);
    lemma_mib_round_trip(c.gpu_memory_total_mib);
    lemma_mib_round_trip(c.sys_memory_used_mib);
    lemma_mib_round_trip(c.sys_memory_total_mib);
    lemma_mib_round_trip(c.sys_memory_remaining_mib);
}

/// Storing the record that a row holds gives the row back, where its flag
/// column is 0 or 1.
pub proof fn lemma_row_round_trip<F>(r: CheckRow<F>)
    requires
        r.ollama_reachable == 0 || r.ollama_reachable == 1,
    ensures
        row_of(record_of(r)) == r,
{
    let n: i32 = r.available_models_count;
    assert((n as usize) as i32 == n) by (bit_vector);
    lemma_row_mib_round_trip(r.gpu_memory_used_mib);
    lemma_row_mib_round_trip(r.gpu_memory_total_mib);
    lemma_row_mib_round_trip(r.sys_memory_used_mib);
    lemma_row_mib_round_trip(r.sys_memory_total_mib);
    lemma_row_mib_round_trip(r.sys_memory_remaining_mib);
}

/// Each column of the row that stores a record holds the record's field of
/// the same name: the flag as 1 or 0, the model count cut to 32 bits, each
/// MiB value as the `i64` of the same bits, every other field as it is.
pub proof fn lemma_row_columns<F>(c: CheckResult<F>)
    ensures
        row_of(c).ollama_url == c.ollama_url,
        row_of(c).loaded_model == c.loaded_model,
        row_of(c).gpu_name == c.gpu_name,
        row_of(c).gpu_temperature_c == c.gpu_temperature_c,
        row_of(c).gpu_utilization_pct == c.gpu_utilization_pct,
        row_of(c).gpu_power_watts == c.gpu_power_watts,
        row_of(c).sys_memory_usage_pct == c.sys_memory_usage_pct,
        row_of(c).sys_cpu_utilization_pct == c.sys_cpu_utilization_pct,
        row_of(c).ollama_reachable == (if c.ollama_reachable { 1i32 } else { 0i32 }),
        row_of(c).available_models_count == c.available_models_count as i32,
        c.gpu_memory_used_mib is None ==> row_of(c).gpu_memory_used_mib is None,
        c.gpu_memory_used_mib matches Some(v) ==> row_of(c).gpu_memory_used_mib == Some(v as i64),
        c.gpu_memory_total_mib is None ==> row_of(c).gpu_memory_total_mib is None,
        c.gpu_memory_total_mib matches Some(v) ==> row_of(c).gpu_memory_total_mib == Some(v as i64),
        c.sys_memory_used_mib is None ==> row_of(c).sys_memory_used_mib is None,
        c.sys_memory_used_mib matches Some(v) ==> row_of(c).sys_memory_used_mib == Some(v as i64),
        c.sys_memory_total_mib is None ==> row_of(c).sys_memory_total_mib is None,
        c.sys_memory_total_mib matches Some(v) ==> row_of(c).sys_memory_total_mib == Some(v as i64),
        c.sys_memory_remaining_mib is None ==> row_of(c).sys_memory_remaining_mib is None,
        c.sys_memory_remaining_mib matches Some(v) ==> row_of(c).sys_memory_remaining_mib == Some(v as i64),
{
}

/// Each field of the record that a row holds is read from the column of the
/// same name: the flag is set where the column is not 0, the model count is
/// the column's value as a `usize`, each MiB value is the `u64` of the same
/// bits, every other field is the column as it is.
pub proof fn lemma_record_fields<F>(r: CheckRow<F>)
    ensures
        record_of(r).ollama_url == r.ollama_url,
        record_of(r).loaded_model == r.loaded_model,
        record_of(r).gpu_name == r.gpu_name,
        record_of(r).gpu_temperature_c == r.gpu_temperature_c,
        record_of(r).gpu_utilization_pct == r.gpu_utilization_pct,
        record_of(r).gpu_power_watts == r.gpu_power_watts,
        record_of(r).sys_memory_usage_pct == r.sys_memory_usage_pct,
        record_of(r).sys_cpu_utilization_pct == r.sys_cpu_utilization_pct,
        record_of(r).ollama_reachable == (r.ollama_reachable != 0),
        record_of(r).available_models_count == r.available_models_count as usize,
        r.gpu_memory_used_mib is None ==> record_of(r).gpu_memory_used_mib is None,
        r.gpu_memory_used_mib matches Some(v) ==> record_of(r).gpu_memory_used_mib == Some(v as u64),
        r.gpu_memory_total_mib is None ==> record_of(r).gpu_memory_total_mib is None,
        r.gpu_memory_total_mib matches Some(v) ==> record_of(r).gpu_memory_total_mib == Some(v as u64),
        r.sys_memory_used_mib is None ==> record_of(r).sys_memory_used_mib is None,
        r.sys_memory_used_mib matches Some(v) ==> record_of(r).sys_memory_used_mib == Some(v as u64),
        r.sys_memory_total_mib is None ==> record_of(r).sys_memory_total_mib is None,
        r.sys_memory_total_mib matches Some(v) ==> record_of(r).sys_memory_total_mib == Some(v as u64),
        r.sys_memory_remaining_mib is None ==> record_of(r).sys_memory_remaining_mib is None,
        r.sys_memory_remaining_mib matches Some(v) ==> record_of(r).sys_memory_remaining_mib == Some(v as u64),
{
}

/// A row of the GPU history query (time, memory in use, temperature) as a
/// point of the GPU history.
pub open spec fn gpu_point_of<F>(row: (i64, Option<i64>, Option<F>)) -> GpuHistoryPoint<F> {
    GpuHistoryPoint { timestamp: row.0, memory_used_mib: loaded_mib(row.1), temperature_c: row.2 }
}

/// A row of the host history query (time, memory in use, CPU utilisation) as
/// a point of the host history.
pub open spec fn system_point_of<F>(row: (i64, Option<i64>, Option<F>)) -> SystemHistoryPoint<F> {
    SystemHistoryPoint {
        timestamp: row.0,
        memory_used_mib: loaded_mib(row.1),
        cpu_utilization_pct: row.2,
    }
}

/// The rows of the GPU history query as points of the GPU history, in the
/// same order.
pub fn gpu_history_points<F: Copy>(rows: &Vec<(i64, Option<i64>, Option<F>)>) -> (res: Vec<
    GpuHistoryPoint<F>,
>)
    ensures
        res@.len() == rows@.len(),
        forall|i: int| 0 <= i < rows@.len() ==> #[trigger] res@[i] == gpu_point_of(rows@[i]),
{
    let mut res: Vec<GpuHistoryPoint<F>> = Vec::new();
    for i in 0..rows.len()
        invariant
            res@.len() == i,
            forall|j: int| 0 <= j < i ==> #[trigger] res@[j] == gpu_point_of(rows@[j]),
    {
        let row = rows[i];
        res.push(
            GpuHistoryPoint { timestamp: row.0, memory_used_mib: load_mib(row.1), temperature_c: row.2 },
        );
    }
    res
}

/// The rows of the host history query as points of the host history, in the
/// same order.
pub fn system_history_points<F: Copy>(rows: &Vec<(i64, Option<i64>, Option<F>)>) -> (res: Vec<
    SystemHistoryPoint<F>,
>)
    ensures
        res@.len() == rows@.len(),
        forall|i: int| 0 <= i < rows@.len() ==> #[trigger] res@[i] == system_point_of(rows@[i]),
{
    let mut res: Vec<SystemHistoryPoint<F>> = Vec::new();
    for i in 0..rows.len()
        invariant
            res@.len() == i,
            forall|j: int| 0 <= j < i ==> #[trigger] res@[j] == system_point_of(rows@[j]),
    {
        let row = rows[i];
        res.push(
            SystemHistoryPoint {
                timestamp: row.0,
                memory_used_mib: load_mib(row.1),
                cpu_utilization_pct: row.2,
            },
        );
    }
    res
}

/// A history point read from the row that stores a record shows the record's
/// GPU memory in use and temperature.
pub proof fn lemma_history_shows_record<F>(c: CheckResult<F>, timestamp: i64)
    ensures
        ({
            let r = row_of(c);
            let p = gpu_point_of((timestamp, r.gpu_memory_used_mib, r.gpu_temperature_c));
            p.memory_used_mib == c.gpu_memory_used_mib && p.temperature_c == c.gpu_temperature_c
        }),
        ({
            let r = row_of(c);
            let p = system_point_of((timestamp, r.sys_memory_used_mib, r.sys_cpu_utilization_pct));
            p.memory_used_mib == c.sys_memory_used_mib && p.cpu_utilization_pct
                == c.sys_cpu_utilization_pct
        }),
{
    lemma_mib_round_trip(c.gpu_memory_used_mib);
    lemma_mib_round_trip(c.sys_memory_used_mib);
}

} // verus!
