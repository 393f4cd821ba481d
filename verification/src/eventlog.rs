//! The pure decisions of the event-logger service: parsing the configured
//! log-rotation interval, computing rotation deadlines and log file names,
//! and assembling a log line from a decoded event. The service's sockets,
//! files and clock live outside this crate and hand plain values in.

use vstd::prelude::*;

use std::fmt::Write;

verus! {

/// Interval unit types for log rotation intervals.
#[derive(Debug, Clone, Copy, PartialEq, Eq, Structural)]
pub enum IntervalUnit {
    Minutes,
    Hours,
    Days,
    Months,
}

/// Represents the configured log rotation interval.
/// First item is the unit quantity, second item is the unit type.
pub type Interval = (i64, IntervalUnit);

/// A decimal digit.
pub open spec fn is_dec_digit(c: char) -> bool {
    '0' <= c && c <= '9'
}

/// The position of the first decimal digit, or the length when there is
/// none.
pub open spec fn first_digit_idx(s: Seq<char>) -> int
    decreases s.len(),
{
    if s.len() == 0 {
        0
    } else if is_dec_digit(s.first()) {
        0
    } else {
        1 + first_digit_idx(s.drop_first())
    }
}

/// The end of the maximal digit run starting at `i`.
pub open spec fn digit_run_end(s: Seq<char>, i: int) -> int
    decreases s.len() - i,
{
    if i < 0 || i >= s.len() {
        i
    } else if is_dec_digit(s[i]) {
        digit_run_end(s, i + 1)
    } else {
        i
    }
}

/// The decimal value of the digits of `s` between `from` and `to`.
pub open spec fn digits_val(s: Seq<char>, from: int, to: int) -> int
    decreases to - from,
{
    if from >= to {
        0
    } else {
        digits_val(s, from, to - 1) * 10 + (s[to - 1] as int - '0' as int)
    }
}

/// The rotation unit named by the input's suffix: `min`, `h` or `hr`, `d`,
/// or `mo`. The five suffixes end in distinct characters, so at most one
/// matches.
pub open spec fn interval_unit_of(s: Seq<char>) -> Option<IntervalUnit> {
    if s.len() >= 3 && s[s.len() - 3] == 'm' && s[s.len() - 2] == 'i' && s[s.len() - 1] == 'n' {
        Some(IntervalUnit::Minutes)
    } else if s.len() >= 2 && s[s.len() - 2] == 'h' && s[s.len() - 1] == 'r' {
        Some(IntervalUnit::Hours)
    } else if s.len() >= 1 && s[s.len() - 1] == 'h' {
        Some(IntervalUnit::Hours)
    } else if s.len() >= 1 && s[s.len() - 1] == 'd' {
        Some(IntervalUnit::Days)
    } else if s.len() >= 2 && s[s.len() - 2] == 'm' && s[s.len() - 1] == 'o' {
        Some(IntervalUnit::Months)
    } else {
        None
    }
}

/// What a rotation-interval string means: the first digit run gives the
/// quantity — rejected when absent, preceded by a minus sign, starting with
/// a zero digit, or too large for 64 bits — and the suffix names the unit.
pub open spec fn interval_of(s: Seq<char>) -> Option<Interval> {
    let d = first_digit_idx(s);
    if d >= s.len() {
        None
    } else if d > 0 && s[d - 1] == '-' {
        None
    } else if s[d] == '0' {
        None
    } else {
        let e = digit_run_end(s, d);
        let q = digits_val(s, d, e);
        if q < 1 {
            None
        } else if q > i64::MAX {
            None
        } else {
            match interval_unit_of(s) {
                None => None,
                Some(u) => Some((q as i64, u)),
            }
        }
    }
}

proof fn lemma_first_digit_is_digit(s: Seq<char>)
    ensures
        0 <= first_digit_idx(s) <= s.len(),
        first_digit_idx(s) < s.len() ==> is_dec_digit(s[first_digit_idx(s)]),
    decreases s.len(),
{
    if s.len() != 0 && !is_dec_digit(s.first()) {
        lemma_first_digit_is_digit(s.drop_first());
    }
}

proof fn lemma_first_digit(s: Seq<char>, d: int)
    requires
        0 <= d <= s.len(),
        forall|k: int| 0 <= k < d ==> !is_dec_digit(s[k]),
        d < s.len() ==> is_dec_digit(s[d]),
    ensures
        first_digit_idx(s) == d,
    decreases s.len(),
{
    if s.len() != 0 && !is_dec_digit(s.first()) {
        lemma_first_digit(s.drop_first(), d - 1);
    }
}

proof fn lemma_digit_run(s: Seq<char>, i: int, e: int)
    requires
        0 <= i <= e <= s.len(),
        forall|k: int| i <= k < e ==> is_dec_digit(s[k]),
        e < s.len() ==> !is_dec_digit(s[e]),
    ensures
        digit_run_end(s, i) == e,
    decreases e - i,
{
    if i < e {
        lemma_digit_run(s, i + 1, e);
    }
}

proof fn lemma_digits_nonneg(s: Seq<char>, from: int, e: int)
    requires
        0 <= from <= e,
        forall|k: int| from <= k < e ==> is_dec_digit(s[k]),
    ensures
        digits_val(s, from, e) >= 0,
    decreases e - from,
{
    if from < e {
        lemma_digits_nonneg(s, from, e - 1);
    }
}

proof fn lemma_digits_grow(s: Seq<char>, from: int, m: int, e: int)
    requires
        0 <= from <= m <= e,
        forall|k: int| from <= k < e ==> is_dec_digit(s[k]),
    ensures
        digits_val(s, from, e) >= digits_val(s, from, m) >= 0,
    decreases e - m,
{
    lemma_digits_nonneg(s, from, m);
    if m < e {
        lemma_digits_grow(s, from, m, e - 1);
        assert(digits_val(s, from, e) == digits_val(s, from, e - 1) * 10 + (s[e - 1] as int
            - '0' as int));
        assert(digits_val(s, from, e - 1) * 10 >= digits_val(s, from, e - 1)) by (nonlinear_arith)
            requires
                digits_val(s, from, e - 1) >= 0,
        ;
    }
}

/// The position of the first decimal digit of `s`, or its length when it
/// has none.
fn find_first_digit(s: &str) -> (d: usize)
    ensures
        d as int == first_digit_idx(s@),
        d <= s@.len(),
{
    let n: usize = s.unicode_len();
    let mut d: usize = 0;
    while d < n
        invariant
            d <= n,
            n == s@.len(),
            forall|k: int| 0 <= k < d ==> !is_dec_digit(s@[k]),
        decreases n - d,
    {
        let c: char = s.get_char(d);
        if '0' <= c && c <= '9' {
            proof {
                lemma_first_digit(s@, d as int);
            }
            return d;
        }
        d = d + 1;
    }
    proof {
        lemma_first_digit(s@, n as int);
    }
    n
}

/// The end of the maximal digit run starting at `d`.
fn find_digit_run_end(s: &str, d: usize) -> (e: usize)
    requires
        d <= s@.len(),
    ensures
        d <= e <= s@.len(),
        e as int == digit_run_end(s@, d as int),
        forall|k: int| d <= k < e ==> is_dec_digit(s@[k]),
        e < s@.len() ==> !is_dec_digit(s@[e as int]),
{
    let n: usize = s.unicode_len();
    let mut e: usize = d;
    while e < n
        invariant
            d <= e <= n,
            n == s@.len(),
            forall|k: int| d <= k < e ==> is_dec_digit(s@[k]),
        decreases n - e,
    {
        let c: char = s.get_char(e);
        if !('0' <= c && c <= '9') {
            proof {
                lemma_digit_run(s@, d as int, e as int);
            }
            return e;
        }
        e = e + 1;
    }
    proof {
        lemma_digit_run(s@, d as int, n as int);
    }
    n
}

/// Parses a rotation-interval string (from the daemon configuration) into
/// an [`Interval`] tuple: the first digit run as the quantity, the suffix
/// as the unit. Nothing when the string holds no positive quantity or no
/// known unit suffix.
pub fn str_to_interval(input: &str) -> (r: Option<Interval>)
    ensures
        r == interval_of(input@),
{
    let n: usize = input.unicode_len();
    let d: usize = find_first_digit(input);
    proof {
        lemma_first_digit_is_digit(input@);
    }
    if d >= n {
        return None;
    }
    if d > 0 {
        let prev: char = input.get_char(d - 1);
        if prev == '-' {
            return None;
        }
    }
    if input.get_char(d) == '0' {
        return None;
    }
    let e: usize = find_digit_run_end(input, d);
    let mut q: i64 = 0;
    let mut idx: usize = d;
    while idx < e
        invariant
            d <= idx <= e <= n,
            d < n,
            n == input@.len(),
            d as int == first_digit_idx(input@),
            d > 0 ==> input@[d as int - 1] != '-',
            input@[d as int] != '0',
            is_dec_digit(input@[d as int]),
            e as int == digit_run_end(input@, d as int),
            forall|k: int| d <= k < e ==> is_dec_digit(input@[k]),
            0 <= q,
            q == digits_val(input@, d as int, idx as int),
        decreases e - idx,
    {
        let c: char = input.get_char(idx);
        let dig: i64 = (c as u32 as i64) - ('0' as u32 as i64);
        if q > (i64::MAX - dig) / 10 {
            // The quantity overflows a 64-bit integer.
            proof {
                assert(q * 10 + dig > i64::MAX) by (nonlinear_arith)
                    requires
                        q > (i64::MAX - dig) / 10,
                        0 <= dig <= 9,
                        q >= 0,
                ;
                assert(digits_val(input@, d as int, idx + 1 as int) == q * 10 + dig);
                lemma_digits_grow(input@, d as int, idx + 1 as int, e as int);
                assert(digits_val(input@, d as int, e as int) > i64::MAX);
            }
            return None;
        }
        q = q * 10 + dig;
        idx = idx + 1;
    }
    proof {
        assert(d < e);
        lemma_digits_grow(input@, d as int, d + 1 as int, e as int);
        assert(digits_val(input@, d as int, d as int) == 0);
        assert(digits_val(input@, d as int, d + 1 as int) == input@[d as int] as int
            - '0' as int);
        assert(input@[d as int] as int - '0' as int >= 1);
        assert(q >= 1);
    }
    // Unit suffix.
    let unit: IntervalUnit = {
        if n >= 3 && input.get_char(n - 3) == 'm' && input.get_char(n - 2) == 'i'
            && input.get_char(n - 1) == 'n' {
            IntervalUnit::Minutes
        } else if n >= 2 && input.get_char(n - 2) == 'h' && input.get_char(n - 1) == 'r' {
            IntervalUnit::Hours
        } else if n >= 1 && input.get_char(n - 1) == 'h' {
            IntervalUnit::Hours
        } else if n >= 1 && input.get_char(n - 1) == 'd' {
            IntervalUnit::Days
        } else if n >= 2 && input.get_char(n - 2) == 'm' && input.get_char(n - 1) == 'o' {
            IntervalUnit::Months
        } else {
            return None;
        }
    };
    Some((q, unit))
}

/// The length of one rotation unit in seconds; a month counts as thirty
/// days.
pub open spec fn unit_seconds(u: IntervalUnit) -> int {
    match u {
        IntervalUnit::Minutes => 60,
        IntervalUnit::Hours => 3600,
        IntervalUnit::Days => 86400,
        IntervalUnit::Months => 2592000,
    }
}

/// The unix timestamp at which a log opened at `ts` expires: `ts` plus the
/// rotation interval. Nothing when the sum leaves the 64-bit range.
pub fn next_rotation_timestamp(ts: i64, interval: &Interval) -> (r: Option<i64>)
    ensures
        match r {
            Some(v) => v == ts + interval.0 * unit_seconds(interval.1) && i64::MIN <= ts
                + interval.0 * unit_seconds(interval.1) <= i64::MAX,
            None => !(i64::MIN <= ts + interval.0 * unit_seconds(interval.1) <= i64::MAX),
        },
{
    let secs: i64 = match interval.1 {
        IntervalUnit::Minutes => 60,
        IntervalUnit::Hours => 3600,
        IntervalUnit::Days => 86400,
        IntervalUnit::Months => 2592000,
    };
    proof {
        assert((interval.0 as int) * (secs as int) <= 0x8000_0000_0000_0000 * 2592000
            && (interval.0 as int) * (secs as int) >= -0x8000_0000_0000_0000 * 2592000)
            by (nonlinear_arith)
            requires
                -0x8000_0000_0000_0000 <= interval.0 as int <= 0x7fff_ffff_ffff_ffff,
                1 <= secs as int <= 2592000,
        ;
    }
    let total: i128 = (interval.0 as i128) * (secs as i128) + (ts as i128);
    if total >= (i64::MIN as i128) && total <= (i64::MAX as i128) {
        Some(total as i64)
    } else {
        None
    }
}

/// The full log path template: the output directory — given a trailing
/// slash when it lacks one — followed by the file-name format.
pub fn log_file_path(output: &str, log_format: &str) -> (r: String)
    requires
        output@.len() > 0,
    ensures
        r@ == if output@.last() == '/' {
            output@ + log_format@
        } else {
            output@ + "/"@ + log_format@
        },
{
    let n: usize = output.unicode_len();
    let mut out: String = output.to_owned();
    if output.get_char(n - 1) != '/' {
        out.append("/");
    }
    out.append(log_format);
    out
}

/// One finished log line for a decoded event: the event must already be a
/// map — it opens with a brace — and the timestamp text is spliced in right
/// after the opening brace, with a line break at the end. Nothing when the
/// event is not a map.
pub fn format_log_entry(data: &str, timestamp: &str) -> (r: Option<String>)
    ensures
        match r {
            Some(s) => data@.len() > 0 && data@.first() == '{' && s@ == "{"@ + timestamp@
                + data@.subrange(1, data@.len() as int) + "\n"@,
            None => data@.len() == 0 || data@.first() != '{',
        },
{
    let n: usize = data.unicode_len();
    if n == 0 {
        return None;
    }
    if data.get_char(0) != '{' {
        return None;
    }
    let mut out: String = String::from_str("{");
    proof {
        reveal_strlit("{");
    }
    out.append(timestamp);
    out.append(data.substring_char(1, n));
    out.append("\n");
    proof {
        assert(out@ =~= "{"@ + timestamp@ + data@.subrange(1, data@.len() as int) + "\n"@);
    }
    Some(out)
}

/// The text chrono renders for a timestamp under a strftime-style format
/// string, in UTC: a function of the two arguments alone.
pub uninterp spec fn strftime_of(ts: i64, fmt: Seq<char>) -> Seq<char>;

/// Relies on chrono::DateTime::from_timestamp and chrono's strftime-style
/// formatting, both in UTC with fixed English names: for one timestamp and
/// one format string the rendered text is always the same, on every machine
/// and in every run. An out-of-range timestamp or a format string chrono
/// cannot render yields nothing.
#[verifier::external_body]
fn format_utc_timestamp(ts: i64, fmt: &str) -> (r: Option<String>)
    ensures
        r matches Some(s) ==> s@ == strftime_of(ts, fmt@),
{
    let date = chrono::DateTime::from_timestamp(ts, 0)?;
    let mut out = String::new();
    write!(out, "{}", date.format(fmt)).ok()?;
    Some(out)
}

/// Everything opening a new log at time `ts` decides: the file name
/// rendered from the format string, and the unix timestamp of the next
/// rotation. Nothing when the calendar library cannot render the name or
/// the rotation deadline overflows.
pub fn open_log_plan(ts: i64, log_format: &str, interval: &Interval) -> (r: Option<(String, i64)>)
    ensures
        match r {
            Some(p) => p.0@ == strftime_of(ts, log_format@) && p.1 == ts + interval.0
                * unit_seconds(interval.1),
            None => true,
        },
{
    let name: String = match format_utc_timestamp(ts, log_format) {
        Some(s) => s,
        None => {
            return None;
        },
    };
    match next_rotation_timestamp(ts, interval) {
        Some(next) => Some((name, next)),
        None => None,
    }
}

} // verus!
