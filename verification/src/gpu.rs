//! Reading the metrics of one GPU from the CSV line that
//! `nvidia-smi --query-gpu=index,name,temperature.gpu,memory.used,memory.total,utilization.gpu,power.draw --format=csv,noheader,nounits`
//! prints.
//!
//! The fields are separated by `", "`. The name of the GPU may itself hold
//! `", "`, so the fields are located from both ends: the index first, the five
//! numbers last, and the name is everything in between. The fractional fields
//! (temperature, utilisation, power) are handed on as their trimmed text.

use vstd::prelude::*;
use crate::models::GpuMetric;
use crate::text::{
    lemma_join_split, lemma_split_concat, lemma_split_without_separator, occurs_at,
    chars_of, copy_range, join, lemma_join_pieces, lemma_piece_bounds, match_positions,
    separator_positions, parse_unsigned, parse_unsigned_spec, piece_end, piece_start, split, split_chars,
    string_of, trim, trim_chars,
};

verus! {

broadcast use vstd::string::group_string_axioms;

/// Why a line of `nvidia-smi` output was refused.
#[derive(Debug, PartialEq, Eq)]
pub enum GpuParseError {
    /// The line has fewer than seven fields; the number it has.
    FieldCount(usize),
    /// The first field is not the index that was asked for: the index asked
    /// for, and the number the field reads as, if any.
    IndexMismatch { expected: usize, found: Option<usize> },
}

/// The separator between the fields of a line.
pub open spec fn field_separator() -> Seq<char> {
    ", "@
}

/// The fields of `line`.
pub open spec fn gpu_fields(line: Seq<char>) -> Seq<Seq<char>> {
    split(line, field_separator())
}

/// The number that the trimmed text `s` reads as, as an `N`-bit unsigned
/// integer whose largest value is `max`.
pub open spec fn read_unsigned(s: Seq<char>, max: nat) -> Option<nat> {
    parse_unsigned_spec(trim(s), max)
}

/// The `u64` that the trimmed text `s` reads as, if any.
pub open spec fn read_u64(s: Seq<char>) -> Option<u64> {
    match read_unsigned(s, u64::MAX as nat) {
        Some(n) => Some(n as u64),
        None => None,
    }
}

/// The GPU index that the first field reads as, if any.
pub open spec fn read_index(s: Seq<char>) -> Option<usize> {
    match read_unsigned(s, usize::MAX as nat) {
        Some(n) => Some(n as usize),
        None => None,
    }
}

/// Why `line` is refused when GPU `expected` was asked for, if it is.
pub open spec fn gpu_line_error(line: Seq<char>, expected: usize) -> Option<GpuParseError> {
    let p = gpu_fields(line);
    if p.len() < 7 {
        Some(GpuParseError::FieldCount(p.len() as usize))
    } else if read_index(p[0]) != Some(expected) {
        Some(GpuParseError::IndexMismatch { expected, found: read_index(p[0]) })
    } else {
        None
    }
}

/// GPU memory not in use: total less used, no less than zero, where both are
/// known.
pub open spec fn remaining_mib(used: Option<u64>, total: Option<u64>) -> Option<u64> {
    match (used, total) {
        (Some(u), Some(t)) => Some(if t >= u { (t - u) as u64 } else { 0 }),
        _ => None,
    }
}

/// Whether `m` holds what the accepted line `line` says: the name is the
/// fields between the index and the last five rejoined with `", "`; the last
/// five are temperature, memory used, memory total, utilisation and power; the
/// fractional ones are kept as their trimmed text.
pub open spec fn gpu_reading_of(line: Seq<char>, m: GpuMetric<String>) -> bool {
    let p = gpu_fields(line);
    let n: int = p.len() as int;
    &&& m.name matches Some(name) && name@ == join(p.subrange(1, n - 5), field_separator())
    &&& m.temperature_c matches Some(t) && t@ == trim(p[n - 5])
    &&& m.memory_used_mib == read_u64(p[n - 4])
    &&& m.memory_total_mib == read_u64(p[n - 3])
    &&& m.memory_remaining_mib == remaining_mib(read_u64(p[n - 4]), read_u64(p[n - 3]))
    &&& m.utilization_pct matches Some(u) && u@ == trim(p[n - 2])
    &&& m.power_watts matches Some(w) && w@ == trim(p[n - 1])
}

fn read_u64_field(s: &Vec<char>) -> (res: Option<u64>)
    ensures
        res == read_u64(s@),
{
    let t = trim_chars(s);
    match parse_unsigned(&t, u64::MAX) {
        Some(v) => Some(v),
        None => None,
    }
}

/// The number that `s` reads as once trimmed, if any (`None` where `s` is).
pub fn parse_optional_u64(s: Option<&str>) -> (res: Option<u64>)
    ensures
        match s {
            Some(v) => res == read_u64(v@),
            None => res is None,
        },
{
    match s {
        Some(v) => read_u64_field(&chars_of(v)),
        None => None,
    }
}

fn read_index_field(s: &Vec<char>) -> (res: Option<usize>)
    ensures
        res == read_index(s@),
{
    let t = trim_chars(s);
    match parse_unsigned(&t, usize::MAX as u64) {
        Some(v) => Some(v as usize),
        None => None,
    }
}

/// The metrics of GPU `expected_index` that the CSV line `line` reports, or
/// why the line is refused: it has fewer than seven fields, or its first field
/// is not that index.
pub fn parse_gpu_csv_line(line: &str, expected_index: usize) -> (res: Result<
    GpuMetric<String>,
    GpuParseError,
>)
    ensures
        match res {
            Ok(m) => gpu_line_error(line@, expected_index) is None && gpu_reading_of(line@, m),
            Err(e) => gpu_line_error(line@, expected_index) == Some(e),
        },
{
    let chars = chars_of(line);
    let sep = chars_of(", ");
    proof {
        reveal_strlit(", ");
    }
    let parts = split_chars(&chars, &sep);
    let ghost p = gpu_fields(line@);
    assert(parts@.len() == p.len());
    assert(forall|i: int| 0 <= i < parts@.len() ==> (#[trigger] parts@[i])@ == p[i]) by {
        assert forall|i: int| 0 <= i < parts@.len() implies (#[trigger] parts@[i])@ == p[i] by {
            assert(parts@.map_values(|v: Vec<char>| v@)[i] == parts@[i]@);
        }
    }
    let n: usize = parts.len();
    if n < 7 {
        return Err(GpuParseError::FieldCount(n));
    }
    let found = read_index_field(&parts[0]);
    match found {
        Some(i) => {
            if i != expected_index {
                return Err(GpuParseError::IndexMismatch { expected: expected_index, found });
            }
        },
        None => {
            return Err(GpuParseError::IndexMismatch { expected: expected_index, found });
        },
    }
    let power = string_of(&trim_chars(&parts[n - 1]));
    let utilization = string_of(&trim_chars(&parts[n - 2]));
    let memory_total = read_u64_field(&parts[n - 3]);
    let memory_used = read_u64_field(&parts[n - 4]);
    let temperature = string_of(&trim_chars(&parts[n - 5]));
    let pos = match_positions(&chars, &sep);
    proof {
        let m = separator_positions(line@, sep@);
        assert(pos@.len() == m.len());
        assert(pos@.map_values(|q: usize| q as int)[0] == pos@[0] as int);
        assert(pos@.map_values(|q: usize| q as int)[n - 6] == pos@[n - 6] as int);
        lemma_join_pieces(line@, sep@, 1, n - 6);
        lemma_piece_bounds(line@, sep@, 1);
        lemma_piece_bounds(line@, sep@, n - 6);
        assert(piece_start(line@, sep@, 1) == pos@[0] + 2);
        assert(piece_end(line@, sep@, n - 6) == pos@[n - 6]);
        assert(p.subrange(1, n - 5) == split(line@, sep@).subrange(1, (n - 6) + 1));
    }
    let name = string_of(&copy_range(&chars, pos[0] + 2, pos[n - 6]));
    let remaining = match (memory_used, memory_total) {
        (Some(u), Some(t)) => Some(t.saturating_sub(u)),
        _ => None,
    };
    Ok(
        GpuMetric {
            name: Some(name),
            temperature_c: Some(temperature),
            memory_used_mib: memory_used,
            memory_total_mib: memory_total,
            memory_remaining_mib: remaining,
            utilization_pct: Some(utilization),
            power_watts: Some(power),
        },
    )
}

/// The metrics of GPU `device_index` from what `nvidia-smi` printed: the
/// output, trimmed, is read as one CSV line.
pub fn gpu_metric_from_output(stdout: &str, device_index: usize) -> (res: Result<
    GpuMetric<String>,
    GpuParseError,
>)
    ensures
        match res {
            Ok(m) => gpu_line_error(trim(stdout@), device_index) is None && gpu_reading_of(
                trim(stdout@),
                m,
            ),
            Err(e) => gpu_line_error(trim(stdout@), device_index) == Some(e),
        },
{
    let line = string_of(&trim_chars(&chars_of(stdout)));
    parse_gpu_csv_line(line.as_str(), device_index)
}

/// Whether `s` holds no `", "`.
pub open spec fn has_no_separator(s: Seq<char>) -> bool {
    forall|k: int| !occurs_at(s, field_separator(), k)
}

/// The line that `nvidia-smi` prints for the given index, name and
/// measurements.
pub open spec fn gpu_line(
    index: Seq<char>,
    name: Seq<char>,
    temperature: Seq<char>,
    used: Seq<char>,
    total: Seq<char>,
    utilization: Seq<char>,
    power: Seq<char>,
) -> Seq<char> {
    let sep = field_separator();
    index + sep + name + sep + temperature + sep + used + sep + total + sep + utilization + sep
        + power
}

/// A line printed for an index, a GPU name and five measurements, none of
/// them but the name holding `", "`, is accepted exactly when the index is
/// the one asked for, and is read back field by field: the name comes back
/// whole, even where it holds `", "`.
pub proof fn lemma_gpu_line_round_trip(
    index: Seq<char>,
    name: Seq<char>,
    temperature: Seq<char>,
    used: Seq<char>,
    total: Seq<char>,
    utilization: Seq<char>,
    power: Seq<char>,
    expected: usize,
)
    requires
        has_no_separator(index),
        has_no_separator(temperature),
        has_no_separator(used),
        has_no_separator(total),
        has_no_separator(utilization),
        has_no_separator(power),
    ensures
        ({
            let line = gpu_line(index, name, temperature, used, total, utilization, power);
            &&& (gpu_line_error(line, expected) is None <==> read_index(index) == Some(expected))
            &&& forall|m: GpuMetric<String>| #[trigger]
                gpu_reading_of(line, m) ==> {
                    &&& m.name matches Some(n) && n@ == name
                    &&& m.temperature_c matches Some(t) && t@ == trim(temperature)
                    &&& m.memory_used_mib == read_u64(used)
                    &&& m.memory_total_mib == read_u64(total)
                    &&& m.utilization_pct matches Some(u) && u@ == trim(utilization)
                    &&& m.power_watts matches Some(w) && w@ == trim(power)
                }
        }),
{
    let sep = field_separator();
    reveal_strlit(", ");
    assert(sep.len() == 2 && sep[0] != sep[1]);
    lemma_split_without_separator(index, sep);
    lemma_split_without_separator(temperature, sep);
    lemma_split_without_separator(used, sep);
    lemma_split_without_separator(total, sep);
    lemma_split_without_separator(utilization, sep);
    lemma_split_without_separator(power, sep);
    let l1 = index + sep + name;
    let l2 = l1 + sep + temperature;
    let l3 = l2 + sep + used;
    let l4 = l3 + sep + total;
    let l5 = l4 + sep + utilization;
    let l6 = l5 + sep + power;
    lemma_split_concat(index, name, sep);
    lemma_split_concat(l1, temperature, sep);
    lemma_split_concat(l2, used, sep);
    lemma_split_concat(l3, total, sep);
    lemma_split_concat(l4, utilization, sep);
    lemma_split_concat(l5, power, sep);
    let q = split(name, sep);
    let p = gpu_fields(l6);
    assert(p =~= seq![index] + q + seq![temperature, used, total, utilization, power]);
    let n: int = p.len() as int;
    assert(q.len() >= 1);
    assert(p.subrange(1, n - 5) =~= q);
    lemma_join_split(name, sep);
    assert(p[0] == index);
    assert(p[n - 5] == temperature);
    assert(p[n - 4] == used);
    assert(p[n - 3] == total);
    assert(p[n - 2] == utilization);
    assert(p[n - 1] == power);
    assert(gpu_line(index, name, temperature, used, total, utilization, power) == l6);
}

} // verus!
