//! Character-level text utilities shared by the parsers: whitespace as Rust's
//! `char::is_whitespace` defines it, trimming, unsigned decimal numbers as
//! `str::parse` reads them, and decimal output.

use vstd::prelude::*;

verus! {

broadcast use vstd::string::group_string_axioms;

/// Unicode `White_Space`, the set that `char::is_whitespace` tests for.
pub open spec fn is_ws(c: char) -> bool {
    ||| ('\t' <= c && c <= '\r')
    ||| c == ' '
    ||| c == '\u{85}'
    ||| c == '\u{a0}'
    ||| c == '\u{1680}'
    ||| ('\u{2000}' <= c && c <= '\u{200a}')
    ||| c == '\u{2028}'
    ||| c == '\u{2029}'
    ||| c == '\u{202f}'
    ||| c == '\u{205f}'
    ||| c == '\u{3000}'
}

/// `s` without its leading whitespace.
pub open spec fn trim_start(s: Seq<char>) -> Seq<char>
    decreases s.len(),
{
    if s.len() > 0 && is_ws(s[0]) {
        trim_start(s.drop_first())
    } else {
        s
    }
}

/// `s` without its trailing whitespace.
pub open spec fn trim_end(s: Seq<char>) -> Seq<char>
    decreases s.len(),
{
    if s.len() > 0 && is_ws(s.last()) {
        trim_end(s.drop_last())
    } else {
        s
    }
}

/// `s` without leading and trailing whitespace, as `str::trim` gives it.
pub open spec fn trim(s: Seq<char>) -> Seq<char> {
    trim_end(trim_start(s))
}

pub open spec fn is_digit(c: char) -> bool {
    '0' <= c && c <= '9'
}

pub open spec fn digit_val(c: char) -> nat {
    (c as int - '0' as int) as nat
}

pub open spec fn all_digits(d: Seq<char>) -> bool {
    forall|i: int| 0 <= i < d.len() ==> is_digit(#[trigger] d[i])
}

/// The number that the decimal digits `d` denote.
pub open spec fn digits_value(d: Seq<char>) -> nat
    decreases d.len(),
{
    if d.len() == 0 {
        0
    } else {
        digits_value(d.drop_last()) * 10 + digit_val(d.last())
    }
}

/// The digits of an unsigned number's text: an optional leading `+` is dropped.
pub open spec fn unsigned_digits(s: Seq<char>) -> Seq<char> {
    if s.len() > 0 && s[0] == '+' {
        s.drop_first()
    } else {
        s
    }
}

/// What `str::parse` gives for an unsigned integer type whose largest value is
/// `max`: the value of an optional `+` followed by at least one ASCII digit,
/// and nothing else, provided it does not exceed `max`.
pub open spec fn parse_unsigned_spec(s: Seq<char>, max: nat) -> Option<nat> {
    let d = unsigned_digits(s);
    if d.len() > 0 && all_digits(d) && digits_value(d) <= max {
        Some(digits_value(d))
    } else {
        None
    }
}

pub open spec fn digit_char(d: nat) -> char {
    if d == 0 {
        '0'
    } else if d == 1 {
        '1'
    } else if d == 2 {
        '2'
    } else if d == 3 {
        '3'
    } else if d == 4 {
        '4'
    } else if d == 5 {
        '5'
    } else if d == 6 {
        '6'
    } else if d == 7 {
        '7'
    } else if d == 8 {
        '8'
    } else {
        '9'
    }
}

/// The decimal text of `n`, as `{}` formats an unsigned integer.
pub open spec fn decimal(n: nat) -> Seq<char>
    decreases n,
{
    if n < 10 {
        seq![digit_char(n)]
    } else {
        decimal(n / 10).push(digit_char(n % 10))
    }
}

/// The decimal text of `n` padded with zeros to at least two characters, as
/// `{:02}` formats it.
pub open spec fn decimal_pad2(n: nat) -> Seq<char> {
    if n < 10 {
        seq!['0'] + decimal(n)
    } else {
        decimal(n)
    }
}

/// Appends a character to a string: `String::push`, whose contract here
/// claims that the string afterwards holds its old characters followed by `c`.
#[verifier::external_body]
pub(crate) fn push_char(s: &mut String, c: char)
    ensures
        final(s)@ == old(s)@.push(c),
{
    s.push(c);
}

/// The characters of `s`, in order.
pub fn chars_of(s: &str) -> (res: Vec<char>)
    ensures
        res@ == s@,
{
    let mut res: Vec<char> = Vec::new();
    for c in it: s.chars()
        invariant
            res@ == it.seq().take(it.index() as int),
            it.seq() == s@,
    {
        res.push(c);
        assert(res@ == it.seq().take(it.index() + 1));
    }
    assert(res@ =~= s@);
    res
}

/// A string holding the characters of `v`.
pub fn string_of(v: &Vec<char>) -> (res: String)
    ensures
        res@ == v@,
{
    let mut res = String::new();
    for i in 0..v.len()
        invariant
            res@ == v@.take(i as int),
    {
        push_char(&mut res, v[i]);
        assert(res@ =~= v@.take(i + 1));
    }
    assert(res@ =~= v@);
    res
}

/// The characters `v[from..to]`.
pub fn copy_range(v: &Vec<char>, from: usize, to: usize) -> (res: Vec<char>)
    requires
        from <= to <= v.len(),
    ensures
        res@ == v@.subrange(from as int, to as int),
{
    let mut res: Vec<char> = Vec::new();
    let mut i: usize = from;
    while i < to
        invariant
            from <= i <= to <= v.len(),
            res@ == v@.subrange(from as int, i as int),
        decreases to - i,
    {
        res.push(v[i]);
        i = i + 1;
        assert(res@ =~= v@.subrange(from as int, i as int));
    }
    res
}

/// Whether two character sequences are equal.
pub fn chars_equal(a: &Vec<char>, b: &Vec<char>) -> (res: bool)
    ensures
        res == (a@ == b@),
{
    if a.len() != b.len() {
        return false;
    }
    for i in 0..a.len()
        invariant
            a.len() == b.len(),
            forall|j: int| 0 <= j < i ==> a@[j] == b@[j],
    {
        if a[i] != b[i] {
            return false;
        }
    }
    assert(a@ =~= b@);
    true
}

/// Whether `s` begins with `prefix`.
pub fn starts_with(s: &Vec<char>, prefix: &Vec<char>) -> (res: bool)
    ensures
        res == (prefix@.len() <= s@.len() && s@.subrange(0, prefix@.len() as int) == prefix@),
{
    if prefix.len() > s.len() {
        return false;
    }
    for i in 0..prefix.len()
        invariant
            prefix.len() <= s.len(),
            forall|j: int| 0 <= j < i ==> s@[j] == prefix@[j],
    {
        if s[i] != prefix[i] {
            assert(s@.subrange(0, prefix@.len() as int)[i as int] != prefix@[i as int]);
            return false;
        }
    }
    assert(s@.subrange(0, prefix@.len() as int) =~= prefix@);
    true
}

/// Whether `c` is whitespace (`char::is_whitespace`).
pub fn is_whitespace(c: char) -> (res: bool)
    ensures
        res == is_ws(c),
{
    ('\t' <= c && c <= '\r') || c == ' ' || c == '\u{85}' || c == '\u{a0}' || c == '\u{1680}'
        || ('\u{2000}' <= c && c <= '\u{200a}') || c == '\u{2028}' || c == '\u{2029}'
        || c == '\u{202f}' || c == '\u{205f}' || c == '\u{3000}'
}

/// `s` without leading and trailing whitespace (`str::trim`).
pub fn trim_chars(s: &Vec<char>) -> (res: Vec<char>)
    ensures
        res@ == trim(s@),
{
    let n: usize = s.len();
    let mut a: usize = 0;
    assert(s@.subrange(0, n as int) =~= s@);
    while a < n && is_whitespace(s[a])
        invariant
            a <= n == s.len(),
            trim_start(s@) == trim_start(s@.subrange(a as int, n as int)),
        decreases n - a,
    {
        assert(s@.subrange(a as int, n as int).drop_first() =~= s@.subrange(a + 1, n as int));
        a = a + 1;
    }
    assert(trim_start(s@) == s@.subrange(a as int, n as int));
    let mut b: usize = n;
    while b > a && is_whitespace(s[b - 1])
        invariant
            a <= b <= n == s.len(),
            trim(s@) == trim_end(s@.subrange(a as int, b as int)),
        decreases b - a,
    {
        assert(s@.subrange(a as int, b as int).drop_last() =~= s@.subrange(a as int, b - 1));
        b = b - 1;
    }
    copy_range(s, a, b)
}

/// The value of the decimal text `s` as `str::parse` reads an unsigned integer
/// type whose largest value is `max`; `None` where it fails.
pub fn parse_unsigned(s: &Vec<char>, max: u64) -> (res: Option<u64>)
    ensures
        match res {
            Some(v) => parse_unsigned_spec(s@, max as nat) == Some(v as nat),
            None => parse_unsigned_spec(s@, max as nat) is None,
        },
{
    let n: usize = s.len();
    let start: usize = if n > 0 && s[0] == '+' { 1 } else { 0 };
    let ghost d = unsigned_digits(s@);
    assert(d =~= s@.subrange(start as int, n as int));
    if start == n {
        return None;
    }
    let mut value: u64 = 0;
    let mut over = false;
    let mut i: usize = start;
    assert(d.take(0) =~= Seq::<char>::empty());
    while i < n
        invariant
            start <= i <= n == s.len(),
            start < n,
            d == s@.subrange(start as int, n as int),
            d == unsigned_digits(s@),
            all_digits(d.take(i - start)),
            over ==> digits_value(d.take(i - start)) > max,
            !over ==> value as nat == digits_value(d.take(i - start)) && value <= max,
        decreases n - i,
    {
        let c = s[i];
        if c < '0' || c > '9' {
            assert(d[i - start] == c);
            assert(!all_digits(d));
            return None;
        }
        let dv: u64 = (c as u32 - '0' as u32) as u64;
        assert(dv as nat == digit_val(c));
        let ghost k = (i - start) as int;
        assert(d.take(k + 1).drop_last() =~= d.take(k));
        assert(d.take(k + 1).last() == c);
        if !over {
            if dv > max || value > (max - dv) / 10 {
                over = true;
            } else {
                value = value * 10 + dv;
            }
        }
        i = i + 1;
    }
    assert(d.take(n - start) =~= d);
    if over {
        None
    } else {
        Some(value)
    }
}

fn digit_char_of(d: u64) -> (c: char)
    requires
        d < 10,
    ensures
        c == digit_char(d as nat),
{
    if d == 0 {
        '0'
    } else if d == 1 {
        '1'
    } else if d == 2 {
        '2'
    } else if d == 3 {
        '3'
    } else if d == 4 {
        '4'
    } else if d == 5 {
        '5'
    } else if d == 6 {
        '6'
    } else if d == 7 {
        '7'
    } else if d == 8 {
        '8'
    } else {
        '9'
    }
}

/// Appends the decimal text of `n` to `out`.
pub fn push_decimal(out: &mut String, n: u64)
    ensures
        final(out)@ == old(out)@ + decimal(n as nat),
    decreases n,
{
    if n >= 10 {
        push_decimal(out, n / 10);
    }
    push_char(out, digit_char_of(n % 10));
    proof {
        if n >= 10 {
            assert(old(out)@ + decimal(n as nat) =~= old(out)@ + decimal((n / 10) as nat) + seq![
                digit_char((n % 10) as nat),
            ]);
        } else {
            assert(n % 10 == n);
        }
    }
}

/// Appends the decimal text of `n`, zero-padded to two characters, to `out`.
pub fn push_decimal_pad2(out: &mut String, n: u64)
    ensures
        final(out)@ == old(out)@ + decimal_pad2(n as nat),
{
    if n < 10 {
        push_char(out, '0');
    }
    push_decimal(out, n);
    proof {
        if n < 10 {
            assert(old(out)@ + decimal_pad2(n as nat) =~= old(out)@.push('0') + decimal(n as nat));
        }
    }
}

/// Appends the characters of `s` to `out`.
pub fn push_chars(out: &mut String, s: &Vec<char>)
    ensures
        final(out)@ == old(out)@ + s@,
{
    let ghost start = out@;
    for i in 0..s.len()
        invariant
            out@ == start + s@.take(i as int),
    {
        push_char(out, s[i]);
        assert(start + s@.take(i + 1) =~= (start + s@.take(i as int)).push(s@[i as int]));
    }
    assert(s@.take(s@.len() as int) =~= s@);
}


/// Whether `sep` occurs in `s` at position `k`.
pub open spec fn occurs_at(s: Seq<char>, sep: Seq<char>, k: int) -> bool {
    0 <= k && k + sep.len() <= s.len() && s.subrange(k, k + sep.len()) == sep
}

/// The positions, from `k` on, at which a left-to-right scan finds `sep` in
/// `s`, each match starting after the previous one ends (the matches that
/// `str::split` splits at).
pub open spec fn matches_from(s: Seq<char>, sep: Seq<char>, k: int) -> Seq<int>
    decreases s.len() - k,
{
    if sep.len() == 0 || k < 0 || k + sep.len() > s.len() {
        Seq::empty()
    } else if occurs_at(s, sep, k) {
        seq![k] + matches_from(s, sep, k + sep.len())
    } else {
        matches_from(s, sep, k + 1)
    }
}

/// The positions at which `str::split` splits `s` by `sep`.
pub open spec fn separator_positions(s: Seq<char>, sep: Seq<char>) -> Seq<int> {
    matches_from(s, sep, 0)
}

/// Where the `j`-th piece of `s` split by `sep` begins.
pub open spec fn piece_start(s: Seq<char>, sep: Seq<char>, j: int) -> int {
    if j == 0 {
        0
    } else {
        separator_positions(s, sep)[j - 1] + sep.len()
    }
}

/// Where the `j`-th piece of `s` split by `sep` ends.
pub open spec fn piece_end(s: Seq<char>, sep: Seq<char>, j: int) -> int {
    if j == separator_positions(s, sep).len() {
        s.len() as int
    } else {
        separator_positions(s, sep)[j]
    }
}

/// The pieces of `s` between the matches of `sep`, as `str::split` yields them.
pub open spec fn split(s: Seq<char>, sep: Seq<char>) -> Seq<Seq<char>> {
    Seq::new(
        (separator_positions(s, sep).len() + 1) as nat,
        |j: int| s.subrange(piece_start(s, sep, j), piece_end(s, sep, j)),
    )
}

/// The pieces of `list` joined with `sep` between them (`join` on a slice of
/// strings).
pub open spec fn join(list: Seq<Seq<char>>, sep: Seq<char>) -> Seq<char>
    decreases list.len(),
{
    if list.len() == 0 {
        Seq::empty()
    } else if list.len() == 1 {
        list[0]
    } else {
        join(list.drop_last(), sep) + sep + list.last()
    }
}

/// The matches found from `k` on lie in `s`, in increasing order, without
/// overlapping.
pub proof fn lemma_matches_from(s: Seq<char>, sep: Seq<char>, k: int)
    requires
        sep.len() > 0,
        k >= 0,
    ensures
        forall|j: int|
            0 <= j < matches_from(s, sep, k).len() ==> k <= #[trigger] matches_from(s, sep, k)[j]
                && occurs_at(s, sep, matches_from(s, sep, k)[j]),
        forall|j: int|
            0 <= j < matches_from(s, sep, k).len() - 1 ==> #[trigger] matches_from(s, sep, k)[j]
                + sep.len() <= matches_from(s, sep, k)[j + 1],
    decreases s.len() - k,
{
    let m = matches_from(s, sep, k);
    if k + sep.len() > s.len() {
        assert(m.len() == 0);
    } else if occurs_at(s, sep, k) {
        lemma_matches_from(s, sep, k + sep.len());
        let rest = matches_from(s, sep, k + sep.len());
        assert(m == seq![k] + rest);
        assert forall|j: int| 0 <= j < m.len() implies k <= #[trigger] m[j] && occurs_at(
            s,
            sep,
            m[j],
        ) by {
            if j > 0 {
                assert(m[j] == rest[j - 1]);
            }
        }
        assert forall|j: int| 0 <= j < m.len() - 1 implies #[trigger] m[j] + sep.len() <= m[j
            + 1] by {
            assert(m[j + 1] == rest[j]);
            if j > 0 {
                assert(m[j] == rest[j - 1]);
            }
        }
    } else {
        lemma_matches_from(s, sep, k + 1);
        assert(m == matches_from(s, sep, k + 1));
    }
}

/// The `j`-th piece of a split begins no later than it ends, and lies in `s`.
pub proof fn lemma_piece_bounds(s: Seq<char>, sep: Seq<char>, j: int)
    requires
        sep.len() > 0,
        0 <= j <= separator_positions(s, sep).len(),
    ensures
        0 <= piece_start(s, sep, j) <= piece_end(s, sep, j) <= s.len(),
{
    lemma_matches_from(s, sep, 0);
    let m = separator_positions(s, sep);
    if j > 0 {
        assert(occurs_at(s, sep, m[j - 1]));
        if j < m.len() {
            assert(m[j - 1] + sep.len() <= m[j]);
            assert(occurs_at(s, sep, m[j]));
        }
    } else if j < m.len() {
        assert(occurs_at(s, sep, m[j]));
    }
}

/// The pieces of a split are well formed: each begins no later than it ends.
pub proof fn lemma_pieces(s: Seq<char>, sep: Seq<char>)
    requires
        sep.len() > 0,
    ensures
        forall|j: int|
            0 <= j <= separator_positions(s, sep).len() ==> 0 <= #[trigger] piece_start(s, sep, j)
                <= piece_end(s, sep, j) <= s.len(),
{
    assert forall|j: int| 0 <= j <= separator_positions(s, sep).len() implies 0 <= #[trigger] piece_start(
        s,
        sep,
        j,
    ) <= piece_end(s, sep, j) <= s.len() by {
        lemma_piece_bounds(s, sep, j);
    }
}

/// Joining consecutive pieces of a split with the separator gives back the
/// text they were cut from.
#[verifier::rlimit(40)]
pub proof fn lemma_join_pieces(s: Seq<char>, sep: Seq<char>, a: int, b: int)
    requires
        sep.len() > 0,
        0 <= a <= b <= separator_positions(s, sep).len(),
    ensures
        join(split(s, sep).subrange(a, b + 1), sep) == s.subrange(
            piece_start(s, sep, a),
            piece_end(s, sep, b),
        ),
        0 <= piece_start(s, sep, a) <= piece_end(s, sep, b) <= s.len(),
    decreases b - a,
{
    let p = split(s, sep);
    if a == b {
        lemma_piece_bounds(s, sep, a);
        assert(p.subrange(a, b + 1) =~= seq![p[a]]);
    } else {
        lemma_join_pieces(s, sep, a, b - 1);
        let m = separator_positions(s, sep);
        let x: int = piece_start(s, sep, a);
        let y: int = m[b - 1];
        let z: int = piece_end(s, sep, b);
        assert(0 <= x <= y && occurs_at(s, sep, y) && y + sep.len() <= z && z <= s.len()) by {
            lemma_piece_bounds(s, sep, a);
            lemma_piece_bounds(s, sep, b);
            lemma_matches_from(s, sep, 0);
            lemma_increasing(m, sep.len() as int, a, b - 1);
            assert(occurs_at(s, sep, m[b - 1]));
        }
        assert(p.subrange(a, b + 1).drop_last() =~= p.subrange(a, b));
        assert(p.subrange(a, b + 1).last() == p[b]);
        assert(s.subrange(x, z) =~= s.subrange(x, y) + s.subrange(y, y + sep.len())
            + s.subrange(y + sep.len(), z));
    }
}

/// In a sequence whose consecutive elements grow by at least `w >= 0`, an
/// element is no larger than any later one.
proof fn lemma_increasing(m: Seq<int>, w: int, i: int, j: int)
    requires
        w >= 0,
        0 <= i <= j < m.len(),
        forall|t: int| 0 <= t < m.len() - 1 ==> #[trigger] m[t] + w <= m[t + 1],
    ensures
        m[i] <= m[j],
    decreases j - i,
{
    if i < j {
        lemma_increasing(m, w, i, j - 1);
        assert(m[j - 1] + w <= m[j]);
    }
}

/// Whether `sep` occurs in `s` at position `k`.
fn occurs_at_exec(s: &Vec<char>, sep: &Vec<char>, k: usize) -> (res: bool)
    requires
        k + sep.len() <= s.len(),
    ensures
        res == occurs_at(s@, sep@, k as int),
{
    for i in 0..sep.len()
        invariant
            k + sep.len() <= s.len(),
            forall|j: int| 0 <= j < i ==> s@[k + j] == sep@[j],
    {
        if s[k + i] != sep[i] {
            assert(s@.subrange(k as int, k + sep.len())[i as int] != sep@[i as int]);
            return false;
        }
    }
    assert(s@.subrange(k as int, k + sep.len()) =~= sep@);
    true
}

/// The positions at which `str::split` splits `s` by `sep`.
pub fn match_positions(s: &Vec<char>, sep: &Vec<char>) -> (res: Vec<usize>)
    requires
        sep.len() > 0,
    ensures
        res@.map_values(|p: usize| p as int) == separator_positions(s@, sep@),
{
    let mut res: Vec<usize> = Vec::new();
    let mut k: usize = 0;
    let n: usize = s.len();
    let w: usize = sep.len();
    while k < n && w <= n - k
        invariant
            n == s.len(),
            w == sep.len() > 0,
            k <= n,
            res@.map_values(|p: usize| p as int) + matches_from(s@, sep@, k as int) == separator_positions(
                s@,
                sep@,
            ),
        decreases n - k,
    {
        let ghost before = res@.map_values(|p: usize| p as int);
        if occurs_at_exec(s, sep, k) {
            res.push(k);
            assert(res@.map_values(|p: usize| p as int) =~= before.push(k as int));
            assert(matches_from(s@, sep@, k as int) == seq![k as int] + matches_from(
                s@,
                sep@,
                k + w,
            ));
            assert(before + matches_from(s@, sep@, k as int) =~= before.push(k as int)
                + matches_from(s@, sep@, k + w));
            k = k + w;
        } else {
            k = k + 1;
        }
    }
    assert(matches_from(s@, sep@, k as int) == Seq::<int>::empty());
    assert(res@.map_values(|p: usize| p as int) =~= separator_positions(s@, sep@));
    res
}

/// `s` split by `sep`, as `str::split` gives it.
pub fn split_chars(s: &Vec<char>, sep: &Vec<char>) -> (res: Vec<Vec<char>>)
    requires
        sep.len() > 0,
    ensures
        res@.map_values(|v: Vec<char>| v@) == split(s@, sep@),
{
    let pos = match_positions(s, sep);
    proof {
        lemma_pieces(s@, sep@);
    }
    let ghost m = separator_positions(s@, sep@);
    assert(m.len() == pos.len());
    assert(forall|j: int| 0 <= j < pos.len() ==> m[j] == pos@[j] as int);
    proof {
        lemma_matches_from(s@, sep@, 0);
        assert forall|i: int| 0 <= i < pos.len() implies #[trigger] pos@[i] + sep@.len()
            <= s@.len() by {
            assert(occurs_at(s@, sep@, m[i]));
        }
    }
    let mut res: Vec<Vec<char>> = Vec::new();
    let mut start: usize = 0;
    let n: usize = s.len();
    for j in 0..pos.len()
        invariant
            n == s@.len(),
            m == separator_positions(s@, sep@),
            m.len() == pos.len(),
            forall|i: int| 0 <= i < pos.len() ==> m[i] == pos@[i] as int,
            forall|i: int| 0 <= i < pos.len() ==> #[trigger] pos@[i] + sep@.len() <= s@.len(),
            forall|i: int|
                0 <= i <= m.len() ==> 0 <= #[trigger] piece_start(s@, sep@, i) <= piece_end(
                    s@,
                    sep@,
                    i,
                ) <= s@.len(),
            start as int == piece_start(s@, sep@, j as int),
            res@.len() == j,
            forall|i: int|
                0 <= i < j ==> (#[trigger] res@[i])@ == split(s@, sep@)[i],
    {
        assert(piece_end(s@, sep@, j as int) == pos@[j as int]);
        assert(pos@[j as int] + sep@.len() <= s@.len());
        let piece = copy_range(s, start, pos[j]);
        res.push(piece);
        start = pos[j] + sep.len();
        assert(piece_start(s@, sep@, j + 1) == m[j as int] + sep@.len());
    }
    assert(piece_start(s@, sep@, pos.len() as int) <= s@.len());
    let last = copy_range(s, start, s.len());
    res.push(last);
    assert(res@.map_values(|v: Vec<char>| v@) =~= split(s@, sep@));
    res
}

/// The length of the run of non-whitespace characters that `s` begins with.
pub open spec fn word_len(s: Seq<char>) -> nat
    decreases s.len(),
{
    if s.len() == 0 || is_ws(s[0]) {
        0
    } else {
        1 + word_len(s.drop_first())
    }
}

pub proof fn lemma_word_len(s: Seq<char>)
    ensures
        word_len(s) <= s.len(),
        s.len() > 0 && !is_ws(s[0]) ==> word_len(s) >= 1,
    decreases s.len(),
{
    if s.len() > 0 && !is_ws(s[0]) {
        lemma_word_len(s.drop_first());
    }
}

/// The whitespace-separated words of `s`, as `str::split_whitespace` yields them.
pub open spec fn words(s: Seq<char>) -> Seq<Seq<char>>
    decreases s.len(),
{
    if s.len() == 0 {
        Seq::empty()
    } else if is_ws(s[0]) {
        words(s.drop_first())
    } else {
        proof {
            lemma_word_len(s);
        }
        seq![s.take(word_len(s) as int)] + words(s.skip(word_len(s) as int))
    }
}

/// The whitespace-separated words of `s` (`str::split_whitespace`).
pub fn words_of(s: &Vec<char>) -> (res: Vec<Vec<char>>)
    ensures
        res@.map_values(|v: Vec<char>| v@) == words(s@),
{
    let n: usize = s.len();
    let mut res: Vec<Vec<char>> = Vec::new();
    let mut i: usize = 0;
    assert(s@.skip(0) =~= s@);
    while i < n
        invariant
            i <= n == s.len(),
            res@.map_values(|v: Vec<char>| v@) + words(s@.skip(i as int)) == words(s@),
        decreases n - i,
    {
        let ghost before = res@.map_values(|v: Vec<char>| v@);
        let ghost rest = s@.skip(i as int);
        assert(rest[0] == s@[i as int]);
        assert(rest.drop_first() =~= s@.skip(i + 1));
        if is_whitespace(s[i]) {
            i = i + 1;
        } else {
            let mut j: usize = i;
            assert(s@.skip(j as int) == rest);
            while j < n && !is_whitespace(s[j])
                invariant
                    i <= j <= n == s.len(),
                    rest == s@.skip(i as int),
                    word_len(rest) == (j - i) + word_len(s@.skip(j as int)),
                decreases n - j,
            {
                assert(s@.skip(j as int).drop_first() =~= s@.skip(j + 1));
                j = j + 1;
            }
            assert(word_len(s@.skip(j as int)) == 0);
            let word = copy_range(s, i, j);
            res.push(word);
            assert(rest.take(word_len(rest) as int) =~= s@.subrange(i as int, j as int));
            assert(rest.skip(word_len(rest) as int) =~= s@.skip(j as int));
            assert(res@.map_values(|v: Vec<char>| v@) =~= before.push(s@.subrange(
                i as int,
                j as int,
            )));
            assert(before + words(rest) =~= before.push(s@.subrange(i as int, j as int)) + words(
                s@.skip(j as int),
            ));
            i = j;
        }
    }
    assert(words(s@.skip(n as int)) == Seq::<Seq<char>>::empty());
    assert(res@.map_values(|v: Vec<char>| v@) =~= words(s@));
    res
}

/// The positions found from `k` on in `s`, moved `d` further along.
pub open spec fn shifted(m: Seq<int>, d: int) -> Seq<int> {
    m.map_values(|p: int| p + d)
}

/// Scanning the text that follows a prefix finds the matches of the text
/// alone, moved by the prefix's length.
proof fn lemma_matches_after(pre: Seq<char>, b: Seq<char>, sep: Seq<char>, j: int)
    requires
        sep.len() > 0,
        0 <= j,
    ensures
        matches_from(pre + b, sep, pre.len() + j) == shifted(matches_from(b, sep, j), pre.len() as int),
    decreases b.len() - j,
{
    let s = pre + b;
    let d: int = pre.len() as int;
    let k: int = d + j;
    if j + sep.len() > b.len() {
        assert(shifted(matches_from(b, sep, j), d) =~= Seq::<int>::empty());
    } else {
        assert(s.subrange(k, k + sep.len()) =~= b.subrange(j, j + sep.len()));
        if occurs_at(b, sep, j) {
            lemma_matches_after(pre, b, sep, j + sep.len());
            assert(shifted(matches_from(b, sep, j), d) =~= seq![k] + shifted(
                matches_from(b, sep, j + sep.len()),
                d,
            ));
        } else {
            lemma_matches_after(pre, b, sep, j + 1);
        }
    }
}

/// Scanning `a`, a two-character separator whose characters differ, and `b`
/// from a position `k` within `a` finds the matches in `a` from `k` on, then
/// the separator, then the matches in `b`.
proof fn lemma_matches_across(a: Seq<char>, b: Seq<char>, sep: Seq<char>, k: int)
    requires
        sep.len() == 2,
        sep[0] != sep[1],
        0 <= k <= a.len(),
    ensures
        matches_from(a + sep + b, sep, k) == matches_from(a, sep, k) + seq![a.len() as int]
            + shifted(matches_from(b, sep, 0), a.len() + 2int),
    decreases a.len() - k,
{
    let s = a + sep + b;
    let n: int = a.len() as int;
    lemma_matches_after(a + sep, b, sep, 0);
    assert((a + sep).len() == n + 2);
    if k == n {
        assert(s.subrange(n, n + 2) =~= sep);
        assert(matches_from(a, sep, k) =~= Seq::<int>::empty());
    } else if k == n - 1 {
        assert(s[n] == sep[0]);
        assert(!occurs_at(s, sep, k)) by {
            if occurs_at(s, sep, k) {
                assert(s.subrange(k, k + 2)[1] == s[n]);
            }
        }
        lemma_matches_across(a, b, sep, k + 1);
        assert(matches_from(a, sep, k) =~= Seq::<int>::empty());
        assert(matches_from(a, sep, k + 1) =~= Seq::<int>::empty());
    } else {
        assert(s.subrange(k, k + 2) =~= a.subrange(k, k + 2));
        if occurs_at(a, sep, k) {
            lemma_matches_across(a, b, sep, k + 2);
        } else {
            lemma_matches_across(a, b, sep, k + 1);
        }
    }
}

/// Splitting `a`, a two-character separator whose characters differ, and `b`
/// by that separator gives the pieces of `a` followed by the pieces of `b`.
pub proof fn lemma_split_concat(a: Seq<char>, b: Seq<char>, sep: Seq<char>)
    requires
        sep.len() == 2,
        sep[0] != sep[1],
    ensures
        split(a + sep + b, sep) == split(a, sep) + split(b, sep),
{
    let s = a + sep + b;
    let n: int = a.len() as int;
    lemma_matches_across(a, b, sep, 0);
    let ma = separator_positions(a, sep);
    let mb = separator_positions(b, sep);
    let m = separator_positions(s, sep);
    assert(m == ma + seq![n] + shifted(mb, n + 2));
    lemma_pieces(a, sep);
    lemma_pieces(b, sep);
    let left = split(a, sep);
    let right = split(b, sep);
    assert forall|j: int| 0 <= j < m.len() + 1 implies #[trigger] split(s, sep)[j] == (left
        + right)[j] by {
        if j <= ma.len() {
            assert(piece_start(s, sep, j) == piece_start(a, sep, j));
            assert(piece_end(s, sep, j) == piece_end(a, sep, j));
            assert(0 <= piece_start(a, sep, j) <= piece_end(a, sep, j) <= a.len());
            assert(s.subrange(piece_start(s, sep, j), piece_end(s, sep, j)) =~= a.subrange(
                piece_start(a, sep, j),
                piece_end(a, sep, j),
            ));
        } else {
            let i: int = j - ma.len() - 1;
            assert(piece_start(s, sep, j) == piece_start(b, sep, i) + n + 2);
            assert(piece_end(s, sep, j) == piece_end(b, sep, i) + n + 2);
            assert(0 <= piece_start(b, sep, i) <= piece_end(b, sep, i) <= b.len());
            assert(s.subrange(piece_start(s, sep, j), piece_end(s, sep, j)) =~= b.subrange(
                piece_start(b, sep, i),
                piece_end(b, sep, i),
            ));
        }
    }
    assert(split(s, sep) =~= left + right);
}

/// Text in which `sep` does not occur splits into itself alone.
pub proof fn lemma_split_without_separator(s: Seq<char>, sep: Seq<char>)
    requires
        sep.len() > 0,
        forall|k: int| !occurs_at(s, sep, k),
    ensures
        split(s, sep) == seq![s],
{
    lemma_matches_from(s, sep, 0);
    assert(separator_positions(s, sep).len() == 0) by {
        if separator_positions(s, sep).len() > 0 {
            assert(occurs_at(s, sep, separator_positions(s, sep)[0]));
        }
    }
    assert(split(s, sep) =~= seq![s.subrange(0, s.len() as int)]);
    assert(s.subrange(0, s.len() as int) =~= s);
}

/// Joining the pieces of a split with the separator gives the text back.
pub proof fn lemma_join_split(s: Seq<char>, sep: Seq<char>)
    requires
        sep.len() > 0,
    ensures
        join(split(s, sep), sep) == s,
{
    let n: int = separator_positions(s, sep).len() as int;
    lemma_join_pieces(s, sep, 0, n);
    assert(split(s, sep).subrange(0, n + 1) =~= split(s, sep));
    assert(s.subrange(0, s.len() as int) =~= s);
}

/// The decimal text of a number is made of digits.
pub proof fn lemma_decimal_digits(n: nat)
    ensures
        decimal(n).len() >= 1,
        all_digits(decimal(n)),
    decreases n,
{
    if n >= 10 {
        lemma_decimal_digits(n / 10);
    }
}

/// The decimal text of a number reads back as that number, for any integer
/// type that can hold it.
pub proof fn lemma_decimal_parses(n: nat, max: nat)
    requires
        n <= max,
    ensures
        parse_unsigned_spec(decimal(n), max) == Some(n),
{
    lemma_decimal_value(n);
    lemma_decimal_digits(n);
    assert(unsigned_digits(decimal(n)) == decimal(n)) by {
        assert(is_digit(decimal(n)[0]));
    }
}

proof fn lemma_digit_char(k: nat)
    requires
        k < 10,
    ensures
        digit_val(digit_char(k)) == k,
{
}

proof fn lemma_decimal_value(n: nat)
    ensures
        digits_value(decimal(n)) == n,
    decreases n,
{
    let d = decimal(n);
    lemma_digit_char(n % 10);
    if n >= 10 {
        lemma_decimal_value(n / 10);
        assert(d.drop_last() =~= decimal(n / 10));
        assert(d.last() == digit_char(n % 10));
        assert((n / 10) * 10 + n % 10 == n);
        assert(digits_value(d) == digits_value(d.drop_last()) * 10 + digit_val(d.last()));
    } else {
        assert(d.drop_last() =~= Seq::<char>::empty());
        assert(n % 10 == n);
        assert(digits_value(d) == digits_value(d.drop_last()) * 10 + digit_val(d.last()));
    }
}

} // verus!
