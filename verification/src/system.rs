//! Host metrics from the Linux `/proc` files: reading the tick counters of the
//! `cpu` line of `/proc/stat` and the `MemTotal` and `MemAvailable` lines of
//! `/proc/meminfo`, the tick differences between two readings, and the
//! assembly of the host metric.
//!
//! Lines are the pieces between line feeds. A carriage return before a line
//! feed is whitespace, and the readers below look at a line only through its
//! whitespace-separated words and its first four characters, so whether it
//! counts as part of the line makes no difference to them.

use vstd::prelude::*;
use crate::models::SystemMetric;
use crate::config::has_prefix;
use crate::text::{
    chars_equal, chars_of, parse_unsigned, parse_unsigned_spec, split, split_chars,
    starts_with, string_of, words, words_of,
};

verus! {

broadcast use vstd::string::group_string_axioms;

/// Why a `/proc` file could not be read.
#[derive(Debug)]
pub enum SystemParseError {
    /// `/proc/stat` has no line that begins with `"cpu "`.
    NoCpuLine,
    /// A tick counter of the `cpu` line is not a `u64`: that field.
    InvalidTick(String),
    /// `/proc/meminfo` has no readable `MemTotal:` line.
    MemTotalMissing,
    /// `/proc/meminfo` has no readable `MemAvailable:` line.
    MemAvailableMissing,
}

/// The lines of `content`.
pub open spec fn lines(content: Seq<char>) -> Seq<Seq<char>> {
    split(content, seq!['\n'])
}

/// The index of the first line, from `k` on, that begins with `"cpu "`.
pub open spec fn cpu_line_from(ls: Seq<Seq<char>>, k: int) -> Option<int>
    decreases ls.len() - k,
{
    if k < 0 || k >= ls.len() {
        None
    } else if has_prefix(ls[k], "cpu "@) {
        Some(k)
    } else {
        cpu_line_from(ls, k + 1)
    }
}

/// The fields of the first `cpu` line of `content` that follow the word
/// `cpu`, if it has such a line.
pub open spec fn cpu_tick_fields(content: Seq<char>) -> Option<Seq<Seq<char>>> {
    match cpu_line_from(lines(content), 0) {
        Some(k) => Some(words(lines(content)[k]).skip(1)),
        None => None,
    }
}

/// The value of a tick counter's text.
pub open spec fn tick_value(s: Seq<char>) -> Option<nat> {
    parse_unsigned_spec(s, u64::MAX as nat)
}

/// Whether every field reads as a `u64`.
pub open spec fn all_ticks_valid(fields: Seq<Seq<char>>) -> bool {
    forall|i: int| 0 <= i < fields.len() ==> #[trigger] tick_value(fields[i]) is Some
}

/// Whether `j` is the first field that does not read as a `u64`.
pub open spec fn first_invalid_tick(fields: Seq<Seq<char>>, j: int) -> bool {
    &&& 0 <= j < fields.len()
    &&& tick_value(fields[j]) is None
    &&& forall|i: int| 0 <= i < j ==> #[trigger] tick_value(fields[i]) is Some
}

proof fn lemma_cpu_line_from(ls: Seq<Seq<char>>, k: int)
    requires
        0 <= k <= ls.len(),
    ensures
        match cpu_line_from(ls, k) {
            Some(j) => k <= j < ls.len() && has_prefix(ls[j], "cpu "@) && forall|i: int|
                k <= i < j ==> !has_prefix(#[trigger] ls[i], "cpu "@),
            None => forall|i: int| k <= i < ls.len() ==> !has_prefix(#[trigger] ls[i], "cpu "@),
        },
    decreases ls.len() - k,
{
    if k < ls.len() && !has_prefix(ls[k], "cpu "@) {
        lemma_cpu_line_from(ls, k + 1);
    }
}

/// The lines of `content`.
fn lines_of(content: &str) -> (res: Vec<Vec<char>>)
    ensures
        res@.map_values(|v: Vec<char>| v@) == lines(content@),
{
    let chars = chars_of(content);
    let newline = chars_of("\n");
    proof {
        reveal_strlit("\n");
        assert(newline@ =~= seq!['\n']);
    }
    split_chars(&chars, &newline)
}

/// The index of the first line that begins with `"cpu "`.
fn find_cpu_line(ls: &Vec<Vec<char>>) -> (res: Option<usize>)
    ensures
        match res {
            Some(k) => cpu_line_from(ls@.map_values(|v: Vec<char>| v@), 0) == Some(k as int),
            None => cpu_line_from(ls@.map_values(|v: Vec<char>| v@), 0) is None,
        },
{
    let ghost lsv = ls@.map_values(|v: Vec<char>| v@);
    let prefix = chars_of("cpu ");
    for k in 0..ls.len()
        invariant
            ls@.len() == lsv.len(),
            lsv == ls@.map_values(|v: Vec<char>| v@),
            prefix@ == "cpu "@,
            cpu_line_from(lsv, 0) == cpu_line_from(lsv, k as int),
    {
        assert(ls@[k as int]@ == lsv[k as int]);
        if starts_with(&ls[k], &prefix) {
            return Some(k);
        }
    }
    None
}

/// The tick counters of the first line of `/proc/stat` that begins with
/// `"cpu "`: the numbers after the word `cpu`, in order.
pub fn parse_proc_stat(content: &str) -> (res: Result<Vec<u64>, SystemParseError>)
    ensures
        match res {
            Ok(ticks) => cpu_tick_fields(content@) matches Some(f) && all_ticks_valid(f)
                && ticks@.len() == f.len() && forall|i: int|
                0 <= i < f.len() ==> tick_value(f[i]) == Some(#[trigger] ticks@[i] as nat),
            Err(SystemParseError::NoCpuLine) => cpu_tick_fields(content@) is None,
            Err(SystemParseError::InvalidTick(t)) => cpu_tick_fields(content@) matches Some(f)
                && exists|j: int| first_invalid_tick(f, j) && f[j] == t@,
            Err(_) => false,
        },
{
    let ls = lines_of(content);
    let ghost lsv = lines(content@);
    let k: usize = match find_cpu_line(&ls) {
        Some(k) => k,
        None => {
            return Err(SystemParseError::NoCpuLine);
        },
    };
    proof {
        lemma_cpu_line_from(lsv, 0);
        reveal_strlit("cpu ");
    }
    assert(ls@[k as int]@ == lsv[k as int]);
    let fields = words_of(&ls[k]);
    let ghost w = words(lsv[k as int]);
    assert(w.len() >= 1) by {
        let l = lsv[k as int];
        assert(l[0] == l.subrange(0, 4)[0]);
    }
    let ghost f = w.skip(1);
    assert(cpu_tick_fields(content@) == Some(f));
    let mut ticks: Vec<u64> = Vec::new();
    let mut i: usize = 1;
    while i < fields.len()
        invariant
            1 <= i <= fields@.len() == w.len(),
            fields@.map_values(|v: Vec<char>| v@) == w,
            f == w.skip(1),
            cpu_tick_fields(content@) == Some(f),
            ticks@.len() == i - 1,
            forall|j: int| 0 <= j < i - 1 ==> tick_value(f[j]) == Some(#[trigger] ticks@[j] as nat),
        decreases fields.len() - i,
    {
        assert(fields@[i as int]@ == f[i - 1]);
        match parse_unsigned(&fields[i], u64::MAX) {
            Some(v) => {
                ticks.push(v);
            },
            None => {
                let bad = string_of(&fields[i]);
                assert forall|j: int| 0 <= j < i - 1 implies #[trigger] tick_value(f[j]) is Some by {
                    assert(tick_value(f[j]) == Some(ticks@[j] as nat));
                }
                assert(first_invalid_tick(f, i - 1));
                return Err(SystemParseError::InvalidTick(bad));
            },
        }
        i = i + 1;
    }
    assert forall|j: int| 0 <= j < f.len() implies #[trigger] tick_value(f[j]) is Some by {
        assert(tick_value(f[j]) == Some(ticks@[j] as nat));
    }
    Ok(ticks)
}

/// The value of the second word of a line, if it has one that reads as a `u64`.
pub open spec fn second_word_value(w: Seq<Seq<char>>) -> Option<u64> {
    if w.len() > 1 {
        match parse_unsigned_spec(w[1], u64::MAX as nat) {
            Some(n) => Some(n as u64),
            None => None,
        }
    } else {
        None
    }
}

/// What the line `line` of `/proc/meminfo` makes of the total and available
/// memory found so far: a `MemTotal:` line sets the total to its value (or to
/// nothing, if it has no readable value), a `MemAvailable:` line sets the
/// available memory likewise, any other line leaves both.
pub open spec fn meminfo_step(found: (Option<u64>, Option<u64>), line: Seq<char>) -> (
    Option<u64>,
    Option<u64>,
) {
    let w = words(line);
    if w.len() == 0 {
        found
    } else if w[0] == "MemTotal:"@ {
        (second_word_value(w), found.1)
    } else if w[0] == "MemAvailable:"@ {
        (found.0, second_word_value(w))
    } else {
        found
    }
}

/// The total and available memory found in the first `n` lines; reading
/// stops once both are known.
pub open spec fn meminfo_scan(ls: Seq<Seq<char>>, n: int) -> (Option<u64>, Option<u64>)
    decreases n,
{
    if n <= 0 {
        (None, None)
    } else {
        let found = meminfo_scan(ls, n - 1);
        if found.0 is Some && found.1 is Some {
            found
        } else {
            meminfo_step(found, ls[n - 1])
        }
    }
}

/// The total and available memory, in kB, that `/proc/meminfo` reports.
pub open spec fn meminfo_found(content: Seq<char>) -> (Option<u64>, Option<u64>) {
    meminfo_scan(lines(content), lines(content).len() as int)
}

fn word_value(w: &Vec<Vec<char>>) -> (res: Option<u64>)
    ensures
        res == second_word_value(w@.map_values(|v: Vec<char>| v@)),
{
    let ghost wv = w@.map_values(|v: Vec<char>| v@);
    if w.len() > 1 {
        assert(w@[1]@ == wv[1]);
        parse_unsigned(&w[1], u64::MAX)
    } else {
        None
    }
}

/// The total and available memory, in kB, from the `MemTotal:` and
/// `MemAvailable:` lines of `/proc/meminfo`.
pub fn parse_meminfo(content: &str) -> (res: Result<(u64, u64), SystemParseError>)
    ensures
        match res {
            Ok((total, available)) => meminfo_found(content@) == (
                Some(total),
                Some(available),
            ),
            Err(SystemParseError::MemTotalMissing) => meminfo_found(content@).0 is None,
            Err(SystemParseError::MemAvailableMissing) => meminfo_found(content@).0 is Some
                && meminfo_found(content@).1 is None,
            Err(_) => false,
        },
{
    let ls = lines_of(content);
    let ghost lsv = lines(content@);
    let mem_total = chars_of("MemTotal:");
    let mem_available = chars_of("MemAvailable:");
    let mut total: Option<u64> = None;
    let mut available: Option<u64> = None;
    for i in 0..ls.len()
        invariant
            ls@.len() == lsv.len(),
            ls@.map_values(|v: Vec<char>| v@) == lsv,
            mem_total@ == "MemTotal:"@,
            mem_available@ == "MemAvailable:"@,
            (total, available) == meminfo_scan(lsv, i as int),
    {
        assert(ls@[i as int]@ == lsv[i as int]);
        if total.is_none() || available.is_none() {
            let w = words_of(&ls[i]);
            let ghost wv = w@.map_values(|v: Vec<char>| v@);
            if w.len() > 0 {
                assert(w@[0]@ == wv[0]);
                if chars_equal(&w[0], &mem_total) {
                    total = word_value(&w);
                } else if chars_equal(&w[0], &mem_available) {
                    available = word_value(&w);
                }
            }
        }
    }
    match (total, available) {
        (Some(t), Some(a)) => Ok((t, a)),
        (None, _) => Err(SystemParseError::MemTotalMissing),
        (Some(_), None) => Err(SystemParseError::MemAvailableMissing),
    }
}

/// The sum of the tick counters.
pub open spec fn tick_total(ticks: Seq<u64>) -> nat
    decreases ticks.len(),
{
    if ticks.len() == 0 {
        0
    } else {
        tick_total(ticks.drop_last()) + ticks.last() as nat
    }
}

/// The idle counter: the fourth, or 0 where there are fewer than four.
pub open spec fn idle_ticks(ticks: Seq<u64>) -> u64 {
    if ticks.len() > 3 {
        ticks[3]
    } else {
        0
    }
}

/// The sum of the tick counters, where it fits in a `u64`.
pub fn sum_ticks(ticks: &Vec<u64>) -> (res: Option<u64>)
    ensures
        match res {
            Some(s) => s as nat == tick_total(ticks@),
            None => tick_total(ticks@) > u64::MAX,
        },
{
    let mut sum: u64 = 0;
    for i in 0..ticks.len()
        invariant
            sum as nat == tick_total(ticks@.take(i as int)),
    {
        assert(ticks@.take(i + 1).drop_last() =~= ticks@.take(i as int));
        if sum > u64::MAX - ticks[i] {
            proof {
                lemma_tick_total_grows(ticks@, i as int + 1);
            }
            return None;
        }
        sum = sum + ticks[i];
    }
    assert(ticks@.take(ticks@.len() as int) =~= ticks@);
    Some(sum)
}

/// The sum over a prefix is no larger than the sum over all.
proof fn lemma_tick_total_grows(ticks: Seq<u64>, k: int)
    requires
        0 <= k <= ticks.len(),
    ensures
        tick_total(ticks.take(k)) <= tick_total(ticks),
    decreases ticks.len() - k,
{
    if k < ticks.len() {
        lemma_tick_total_grows(ticks, k + 1);
        assert(ticks.take(k + 1).drop_last() =~= ticks.take(k));
    } else {
        assert(ticks.take(k) =~= ticks);
    }
}

/// How far the total and the idle ticks advanced between two readings of the
/// counters (0 where a counter went back).
pub fn cpu_tick_deltas(before: &Vec<u64>, after: &Vec<u64>) -> (res: (u64, u64))
    requires
        tick_total(before@) <= u64::MAX,
        tick_total(after@) <= u64::MAX,
    ensures
        res.0 as int == if tick_total(after@) >= tick_total(before@) {
            tick_total(after@) - tick_total(before@)
        } else {
            0
        },
        res.1 as int == if idle_ticks(after@) >= idle_ticks(before@) {
            idle_ticks(after@) - idle_ticks(before@)
        } else {
            0
        },
{
    let total_before: u64 = match sum_ticks(before) {
        Some(s) => s,
        None => 0,
    };
    let total_after: u64 = match sum_ticks(after) {
        Some(s) => s,
        None => 0,
    };
    let idle_before: u64 = if before.len() > 3 {
        before[3]
    } else {
        0
    };
    let idle_after: u64 = if after.len() > 3 {
        after[3]
    } else {
        0
    };
    (total_after.saturating_sub(total_before), idle_after.saturating_sub(idle_before))
}

/// The memory used, in total and available, in MiB, from the kB that
/// `/proc/meminfo` reports: used is total less available (no less than
/// zero); each is divided by 1024, rounding down.
pub open spec fn memory_mib(total_kb: u64, available_kb: u64) -> (u64, u64, u64) {
    (
        ((if total_kb >= available_kb { total_kb - available_kb } else { 0 }) / 1024) as u64,
        total_kb / 1024,
        available_kb / 1024,
    )
}

/// The host metric from the memory reading (total and available kB), if
/// there is one, its usage percentage and the CPU utilisation: the memory
/// fields are `None` where memory could not be read, the CPU field where the
/// CPU could not; each part is kept where the other failed.
pub fn system_metric<F>(
    memory_kb: Option<(u64, u64)>,
    memory_usage_pct: Option<F>,
    cpu_utilization_pct: Option<F>,
) -> (res: SystemMetric<F>)
    ensures
        match memory_kb {
            Some((t, a)) => {
                &&& res.memory_used_mib == Some(
                    ((if t >= a { t - a } else { 0 }) / 1024) as u64,
                )
                &&& res.memory_total_mib == Some(t / 1024)
                &&& res.memory_remaining_mib == Some(a / 1024)
                &&& res.memory_used_mib == Some(memory_mib(t, a).0)
                &&& res.memory_total_mib == Some(memory_mib(t, a).1)
                &&& res.memory_remaining_mib == Some(memory_mib(t, a).2)
                &&& res.memory_usage_pct == memory_usage_pct
            },
            None => {
                &&& res.memory_used_mib is None
                &&& res.memory_total_mib is None
                &&& res.memory_remaining_mib is None
                &&& res.memory_usage_pct is None
            },
        },
        res.cpu_utilization_pct == cpu_utilization_pct,
{
    match memory_kb {
        Some((total_kb, available_kb)) => {
            let used_kb: u64 = total_kb.saturating_sub(available_kb);
            SystemMetric {
                memory_used_mib: Some(used_kb / 1024),
                memory_total_mib: Some(total_kb / 1024),
                memory_remaining_mib: Some(available_kb / 1024),
                memory_usage_pct,
                cpu_utilization_pct,
            }
        },
        None => SystemMetric {
            memory_used_mib: None,
            memory_total_mib: None,
            memory_remaining_mib: None,
            memory_usage_pct: None,
            cpu_utilization_pct,
        },
    }
}

/// The host's memory in MiB from its total and available kB: the remaining
/// memory is the available memory, the total is the total, and the memory in
/// use is the rest; where the available memory is no more than the total, the
/// memory in use and the remaining memory together make up the total, short
/// of at most one MiB lost to rounding each down.
pub proof fn lemma_memory_mib(total_kb: u64, available_kb: u64)
    ensures
        memory_mib(total_kb, available_kb).2 == available_kb / 1024,
        memory_mib(total_kb, available_kb).1 == total_kb / 1024,
        available_kb <= total_kb ==> memory_mib(total_kb, available_kb).0 == (total_kb
            - available_kb) / 1024,
        available_kb <= total_kb ==> memory_mib(total_kb, available_kb).0 + memory_mib(
            total_kb,
            available_kb,
        ).2 <= memory_mib(total_kb, available_kb).1 <= memory_mib(total_kb, available_kb).0
            + memory_mib(total_kb, available_kb).2 + 1,
        available_kb > total_kb ==> memory_mib(total_kb, available_kb).0 == 0,
{
    if available_kb <= total_kb {
        let u: int = (total_kb - available_kb) as int;
        let a: int = available_kb as int;
        assert(u / 1024 + a / 1024 <= (u + a) / 1024 <= u / 1024 + a / 1024 + 1) by (nonlinear_arith);
    }
}

} // verus!
