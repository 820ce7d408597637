use vstd::prelude::*;
use vstd::string::*;
use crate::textutil::starts_with_seq;
use crate::textutil::str_starts_with;

verus! {

/// The whitespace that separates fields in proc files.
pub open spec fn spec_blank(c: char) -> bool {
    c == ' ' || c == '\t' || c == '\n' || c == '\r'
}

/// The first position at or after `i` that is not whitespace.
pub open spec fn spec_skip_blanks(s: Seq<char>, i: int) -> int
    decreases s.len() - i,
{
    if i < 0 || i >= s.len() || !spec_blank(s[i]) {
        i
    } else {
        spec_skip_blanks(s, i + 1)
    }
}

/// The first position at or after `i` that ends the current field.
pub open spec fn spec_field_end(s: Seq<char>, i: int) -> int
    decreases s.len() - i,
{
    if i < 0 || i >= s.len() || spec_blank(s[i]) {
        i
    } else {
        spec_field_end(s, i + 1)
    }
}

/// The bounds of the `n`-th whitespace-separated field at or after `i`,
/// if that many fields remain.
pub open spec fn spec_nth_field(s: Seq<char>, n: nat, i: int) -> Option<(int, int)>
    decreases n, s.len() - i,
{
    let start = spec_skip_blanks(s, i);
    if start < 0 || start >= s.len() {
        None
    } else if n == 0 {
        Some((start, spec_field_end(s, start)))
    } else {
        spec_nth_field(s, (n - 1) as nat, spec_field_end(s, start))
    }
}

/// The numeric value of a run of decimal digits, or nothing when the
/// run is empty, holds a non-digit, or overflows 64 bits.
pub open spec fn spec_parsed_u64(s: Seq<char>) -> Option<u64>
    decreases s.len(),
{
    if s.len() == 0 {
        None
    } else {
        let c = s.last();
        if !('0' <= c && c <= '9') {
            None
        } else if s.len() == 1 {
            Some((c as u64 - '0' as u64) as u64)
        } else {
            match spec_parsed_u64(s.drop_last()) {
                None => None,
                Some(hi) => {
                    if hi * 10 + (c as int - '0' as int) <= u64::MAX {
                        Some((hi * 10 + (c as u64 - '0' as u64)) as u64)
                    } else {
                        None
                    }
                },
            }
        }
    }
}

fn skip_blanks(s: &str, i: usize) -> (r: usize)
    requires
        i <= s@.len(),
    ensures
        r == spec_skip_blanks(s@, i as int),
        i <= r <= s@.len(),
    decreases s@.len() - i,
{
    let n = s.unicode_len();
    if i >= n {
        return i;
    }
    let c = s.get_char(i);
    if c == ' ' || c == '\t' || c == '\n' || c == '\r' {
        skip_blanks(s, i + 1)
    } else {
        i
    }
}

fn field_end(s: &str, i: usize) -> (r: usize)
    requires
        i <= s@.len(),
    ensures
        r == spec_field_end(s@, i as int),
        i <= r <= s@.len(),
    decreases s@.len() - i,
{
    let n = s.unicode_len();
    if i >= n {
        return i;
    }
    let c = s.get_char(i);
    if c == ' ' || c == '\t' || c == '\n' || c == '\r' {
        i
    } else {
        field_end(s, i + 1)
    }
}

fn nth_field(s: &str, n: usize, i: usize) -> (r: Option<(usize, usize)>)
    requires
        i <= s@.len(),
    ensures
        match r {
            Some((a, b)) => spec_nth_field(s@, n as nat, i as int) == Some((a as int, b as int))
                && a <= b <= s@.len(),
            None => spec_nth_field(s@, n as nat, i as int) is None,
        },
    decreases n, s@.len() - i,
{
    let start = skip_blanks(s, i);
    let len = s.unicode_len();
    if start >= len {
        return None;
    }
    let end = field_end(s, start);
    if n == 0 {
        Some((start, end))
    } else {
        nth_field(s, n - 1, end)
    }
}

/// Parses a run of decimal digits; anything else, or a value past 64
/// bits, is refused.
pub fn parse_u64(s: &str) -> (r: Option<u64>)
    ensures
        r == spec_parsed_u64(s@),
    decreases s@.len(),
{
    let n = s.unicode_len();
    if n == 0 {
        return None;
    }
    let c = s.get_char(n - 1);
    if !('0' <= c && c <= '9') {
        return None;
    }
    let digit = (c as u64) - ('0' as u64);
    if n == 1 {
        return Some(digit);
    }
    let prefix = s.substring_char(0, n - 1);
    proof {
        assert(prefix@ =~= s@.drop_last());
    }
    match parse_u64(prefix) {
        None => None,
        Some(hi) => {
            if hi <= (u64::MAX - digit) / 10 {
                Some(hi * 10 + digit)
            } else {
                proof {
                    assert(hi * 10 + (c as int - '0' as int) > u64::MAX) by (nonlinear_arith)
                        requires
                            hi > (u64::MAX - digit) / 10,
                            digit == c as int - '0' as int,
                            0 <= digit <= 9,
                    ;
                }
                None
            }
        },
    }
}

/// The `n`-th whitespace-separated field of the text, as its own string.
pub fn nth_field_text(s: &str, n: usize) -> (r: Option<String>)
    ensures
        match r {
            Some(t) => spec_nth_field(s@, n as nat, 0) matches Some(range) && t@ == s@.subrange(
                range.0,
                range.1,
            ),
            None => spec_nth_field(s@, n as nat, 0) is None,
        },
{
    match nth_field(s, n, 0) {
        None => None,
        Some((a, b)) => Some(s.substring_char(a, b).to_owned()),
    }
}

/// The accumulated CPU time of a leader, in scheduler ticks, read from
/// the text of its `stat` file: the sum of the user and system fields.
/// A malformed file counts as zero.
pub fn cpu_jiffies_from_stat(stat_text: &str) -> (r: u64)
    ensures
        r as int == spec_stat_field_value(stat_text@, 13) + spec_stat_field_value(
            stat_text@,
            14,
        ) || (r == 0 && spec_stat_field_value(stat_text@, 13) + spec_stat_field_value(
            stat_text@,
            14,
        ) > u64::MAX),
{
    let utime = match nth_field_text(stat_text, 13) {
        Some(t) => match parse_u64(t.as_str()) {
            Some(v) => v,
            None => 0,
        },
        None => 0,
    };
    let stime = match nth_field_text(stat_text, 14) {
        Some(t) => match parse_u64(t.as_str()) {
            Some(v) => v,
            None => 0,
        },
        None => 0,
    };
    if utime <= u64::MAX - stime {
        utime + stime
    } else {
        0
    }
}

/// The value of one whitespace-separated field of a proc file, when it
/// is there and parses as a number; zero otherwise.
pub open spec fn spec_stat_field_value(s: Seq<char>, n: nat) -> int {
    match spec_nth_field(s, n, 0) {
        None => 0,
        Some(range) => match spec_parsed_u64(s.subrange(range.0, range.1)) {
            None => 0,
            Some(v) => v as int,
        },
    }
}

/// The position where the line holding the resident-size field starts,
/// scanning from `i`: the start of the text or the position after a
/// newline, followed by the field's label.
pub open spec fn spec_rss_line_start(s: Seq<char>, i: int) -> Option<int>
    decreases s.len() - i,
{
    if i < 0 || i >= s.len() {
        None
    } else if (i == 0 || s[i - 1] == '\n') && starts_with_seq(
        s.subrange(i, s.len() as int),
        "VmRSS:"@,
    ) {
        Some(i)
    } else {
        spec_rss_line_start(s, i + 1)
    }
}

fn rss_line_start(s: &str, i: usize) -> (r: Option<usize>)
    requires
        i <= s@.len(),
    ensures
        match r {
            Some(a) => spec_rss_line_start(s@, i as int) == Some(a as int) && a < s@.len(),
            None => spec_rss_line_start(s@, i as int) is None,
        },
    decreases s@.len() - i,
{
    let n = s.unicode_len();
    if i >= n {
        return None;
    }
    let at_line_start = i == 0 || s.get_char(i - 1) == '\n';
    let tail = s.substring_char(i, n);
    proof {
        assert(tail@ =~= s@.subrange(i as int, s@.len() as int));
    }
    if at_line_start && str_starts_with(tail, "VmRSS:") {
        Some(i)
    } else {
        rss_line_start(s, i + 1)
    }
}

/// The resident set size of a leader, in bytes, read from the text of
/// its `status` file: the number after the first `VmRSS:` label at a
/// line start, times 1024. Zero when the line or the number is missing
/// or the product does not fit.
pub fn memory_usage_from_status(status_text: &str) -> (r: u64)
    ensures
        match spec_rss_line_start(status_text@, 0) {
            None => r == 0,
            Some(a) => {
                let line = status_text@.subrange(a, status_text@.len() as int);
                r as int == 1024 * spec_stat_field_value(line, 1) || (r == 0 && 1024
                    * spec_stat_field_value(line, 1) > u64::MAX)
            },
        },
{
    let n = status_text.unicode_len();
    match rss_line_start(status_text, 0) {
        None => 0,
        Some(a) => {
            let line = status_text.substring_char(a, n);
            proof {
                assert(line@ =~= status_text@.subrange(a as int, status_text@.len() as int));
            }
            let kb = match nth_field_text(line, 1) {
                Some(t) => match parse_u64(t.as_str()) {
                    Some(v) => v,
                    None => 0,
                },
                None => 0,
            };
            if kb <= u64::MAX / 1024 {
                proof {
                    assert(kb * 1024 <= u64::MAX) by (nonlinear_arith)
                        requires
                            kb <= u64::MAX / 1024,
                    ;
                }
                kb * 1024
            } else {
                0
            }
        },
    }
}

} // verus!
