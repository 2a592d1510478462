//! Parsing of clock-style time strings into milliseconds.
//!
//! The backend reports per-segment times as `MM:SS` (or `HH:MM:SS`), and the
//! probe output carries the total duration as `HH:MM:SS.cc`.  Components are
//! unsigned decimal numbers of at most nine integer digits; fractional
//! digits beyond milliseconds are truncated.

use vstd::prelude::*;

use crate::model::ExtractionError;
use crate::text::chars_of;
use crate::text::find_char;
use crate::text::find_char_idx;
use crate::text::lemma_find_char_idx;
use crate::text::subvec;

verus! {

/// Decimal digit test.
pub open spec fn is_digit(c: char) -> bool {
    '0' as u32 <= c as u32 && c as u32 <= '9' as u32
}

/// Numeric value of a decimal digit.
pub open spec fn digit_val(c: char) -> int {
    c as u32 - '0' as u32
}

/// Every character of `s` is a decimal digit.
pub open spec fn all_digits(s: Seq<char>) -> bool {
    forall|i: int| 0 <= i < s.len() ==> is_digit(s[i])
}

/// Value of a digit string read in base 10.
pub open spec fn digits_val(s: Seq<char>) -> int
    decreases s.len(),
{
    if s.len() == 0 {
        0
    } else {
        digits_val(s.drop_last()) * 10 + digit_val(s.last())
    }
}

/// Powers of ten.
pub open spec fn pow10(n: nat) -> int
    decreases n,
{
    if n == 0 {
        1
    } else {
        10 * pow10((n - 1) as nat)
    }
}

/// A digit string of length `n` has a value below `pow10(n)`.
pub proof fn lemma_digits_bound(s: Seq<char>)
    requires
        all_digits(s),
    ensures
        0 <= digits_val(s) < pow10(s.len()),
    decreases s.len(),
{
    if s.len() > 0 {
        assert(all_digits(s.drop_last()));
        lemma_digits_bound(s.drop_last());
        assert(is_digit(s.last()));
    }
}

/// Small powers of ten, spelled out for the arithmetic below.
pub proof fn lemma_pow10_values()
    ensures
        pow10(0) == 1,
        pow10(1) == 10,
        pow10(2) == 100,
        pow10(3) == 1000,
        pow10(9) == 1_000_000_000,
{
    assert(pow10(0) == 1);
    assert(pow10(1) == 10);
    assert(pow10(2) == 100);
    assert(pow10(3) == 1000);
    assert(pow10(4) == 10000);
    assert(pow10(5) == 100000);
    assert(pow10(6) == 1000000);
    assert(pow10(7) == 10000000);
    assert(pow10(8) == 100000000);
    assert(pow10(9) == 1_000_000_000);
}

/// A usable time component: plain digits, or digits around a single decimal
/// point (either side may be empty, but not both), with at most nine digits
/// before the point.
pub open spec fn valid_component(s: Seq<char>) -> bool {
    let p = find_char_idx(s, '.');
    if p < 0 {
        1 <= s.len() <= 9 && all_digits(s)
    } else {
        let ip = s.take(p);
        let fp = s.skip(p + 1);
        find_char_idx(fp, '.') < 0 && all_digits(ip) && all_digits(fp) && ip.len() <= 9 && ip.len()
            + fp.len() >= 1
    }
}

/// Milliseconds contributed by a fractional part (truncated past the third
/// digit).
pub open spec fn frac_ms(fp: Seq<char>) -> int {
    if fp.len() >= 3 {
        digits_val(fp.take(3))
    } else if fp.len() == 2 {
        digits_val(fp) * 10
    } else if fp.len() == 1 {
        digits_val(fp) * 100
    } else {
        0
    }
}

/// Value of one time component in milliseconds; an unusable component
/// counts as zero, mirroring how the pipeline treats garbage timestamps.
pub open spec fn component_ms(s: Seq<char>) -> int {
    if !valid_component(s) {
        0
    } else {
        let p = find_char_idx(s, '.');
        if p < 0 {
            digits_val(s) * 1000
        } else {
            digits_val(s.take(p)) * 1000 + frac_ms(s.skip(p + 1))
        }
    }
}

/// Every component value is below `10^12` milliseconds.
pub proof fn lemma_component_bound(s: Seq<char>)
    ensures
        0 <= component_ms(s) < 1_000_000_000_000,
{
    lemma_pow10_values();
    if valid_component(s) {
        let p = find_char_idx(s, '.');
        if p < 0 {
            lemma_digits_bound(s);
            lemma_pow10_mono(s.len(), 9);
        } else {
            lemma_find_char_idx(s, '.');
            let ip = s.take(p);
            let fp = s.skip(p + 1);
            lemma_digits_bound(ip);
            lemma_pow10_mono(ip.len(), 9);
            if fp.len() >= 3 {
                assert(all_digits(fp.take(3))) by {
                    assert(forall|i: int| 0 <= i < 3 ==> fp.take(3)[i] == fp[i]);
                }
                lemma_digits_bound(fp.take(3));
            } else {
                lemma_digits_bound(fp);
                lemma_pow10_mono(fp.len(), 2);
            }
        }
    }
}

/// `pow10` is monotonic.
pub proof fn lemma_pow10_mono(a: nat, b: nat)
    requires
        a <= b,
    ensures
        pow10(a) <= pow10(b),
        pow10(a) >= 1,
    decreases b,
{
    if b > 0 {
        if a == b {
            lemma_pow10_mono((a - 1) as nat, (b - 1) as nat);
        } else {
            lemma_pow10_mono(a, (b - 1) as nat);
        }
    }
}

/// Milliseconds denoted by a `MM:SS` or `HH:MM:SS` string; anything else
/// counts as zero, as the segment parser treats such timestamps.
pub open spec fn time_ms_of(s: Seq<char>) -> int {
    let p = find_char_idx(s, ':');
    if p < 0 {
        0
    } else {
        let rest = s.skip(p + 1);
        let q = find_char_idx(rest, ':');
        if q < 0 {
            component_ms(s.take(p)) * 60 + component_ms(rest)
        } else {
            let rest2 = rest.skip(q + 1);
            if find_char_idx(rest2, ':') >= 0 {
                0
            } else {
                component_ms(s.take(p)) * 3600 + component_ms(rest.take(q)) * 60 + component_ms(
                    rest2,
                )
            }
        }
    }
}

/// Time strings always denote less than `3.7 * 10^15` milliseconds.
pub proof fn lemma_time_ms_bound(s: Seq<char>)
    ensures
        0 <= time_ms_of(s) < 3_700_000_000_000_000,
{
    let p = find_char_idx(s, ':');
    if p >= 0 {
        let rest = s.skip(p + 1);
        let q = find_char_idx(rest, ':');
        if q < 0 {
            lemma_component_bound(s.take(p));
            lemma_component_bound(rest);
        } else {
            lemma_component_bound(s.take(p));
            lemma_component_bound(rest.take(q));
            lemma_component_bound(rest.skip(q + 1));
        }
    }
}

/// Duration denoted by a probe `HH:MM:SS[.cc]` string: all three components
/// must be present and usable.
pub open spec fn ffmpeg_duration_ms(s: Seq<char>) -> Option<int> {
    let p = find_char_idx(s, ':');
    if p < 0 {
        None
    } else {
        let rest = s.skip(p + 1);
        let q = find_char_idx(rest, ':');
        if q < 0 {
            None
        } else {
            let rest2 = rest.skip(q + 1);
            if find_char_idx(rest2, ':') >= 0 {
                None
            } else if valid_component(s.take(p)) && valid_component(rest.take(q))
                && valid_component(rest2) {
                Some(
                    component_ms(s.take(p)) * 3600 + component_ms(rest.take(q)) * 60
                        + component_ms(rest2),
                )
            } else {
                None
            }
        }
    }
}

/// Whether every character of `s` is a decimal digit.
fn all_digits_check(s: &Vec<char>) -> (r: bool)
    ensures
        r == all_digits(s@),
{
    let n: usize = s.len();
    let mut i: usize = 0;
    while i < n
        invariant
            i <= n,
            n == s@.len(),
            forall|k: int| 0 <= k < i ==> is_digit(s@[k]),
        decreases n - i,
    {
        let c: char = s[i];
        if !(('0' as u32 <= c as u32) && (c as u32 <= '9' as u32)) {
            return false;
        }
        i = i + 1;
    }
    true
}

/// Base-10 value of a short digit string.
fn digits_value(s: &Vec<char>) -> (r: u64)
    requires
        all_digits(s@),
        s@.len() <= 9,
    ensures
        r as int == digits_val(s@),
        r < 1_000_000_000,
{
    proof {
        lemma_pow10_values();
    }
    let n: usize = s.len();
    let mut acc: u64 = 0;
    let mut i: usize = 0;
    while i < n
        invariant
            i <= n,
            n == s@.len() <= 9,
            all_digits(s@),
            acc as int == digits_val(s@.take(i as int)),
            (acc as int) < pow10(i as nat),
            pow10(9) == 1_000_000_000,
        decreases n - i,
    {
        proof {
            assert(s@.take(i + 1).drop_last() =~= s@.take(i as int));
            assert(s@.take(i + 1).last() == s@[i as int]);
            assert(is_digit(s@[i as int]));
            lemma_pow10_mono((i + 1) as nat, 9);
        }
        let c: char = s[i];
        let d: u64 = (c as u32 - '0' as u32) as u64;
        acc = acc * 10 + d;
        i = i + 1;
    }
    proof {
        assert(s@.take(n as int) =~= s@);
        lemma_pow10_mono(n as nat, 9);
    }
    acc
}

/// Milliseconds denoted by one time component (zero when unusable).
fn component_ms_value(s: &Vec<char>) -> (r: u64)
    ensures
        r as int == component_ms(s@),
        r < 1_000_000_000_000,
{
    proof {
        lemma_component_bound(s@);
        lemma_find_char_idx(s@, '.');
    }
    let n: usize = s.len();
    match find_char(s, '.') {
        None => {
            if 1 <= n && n <= 9 && all_digits_check(s) {
                digits_value(s) * 1000
            } else {
                0
            }
        },
        Some(p) => {
            let ip: Vec<char> = subvec(s, 0, p);
            let fp: Vec<char> = subvec(s, p + 1, n);
            proof {
                assert(ip@ =~= s@.take(p as int));
                assert(fp@ =~= s@.skip(p + 1));
            }
            let dot_again: bool = match find_char(&fp, '.') {
                Some(_) => true,
                None => false,
            };
            if dot_again || !all_digits_check(&ip) || !all_digits_check(&fp) || ip.len() > 9 || (
            ip.len() == 0 && fp.len() == 0) {
                0
            } else {
                let whole: u64 = digits_value(&ip) * 1000;
                let frac: u64 = if fp.len() >= 3 {
                    let f3: Vec<char> = subvec(&fp, 0, 3);
                    proof {
                        assert(f3@ =~= fp@.take(3));
                        assert(all_digits(f3@));
                        lemma_digits_bound(f3@);
                        lemma_pow10_values();
                    }
                    digits_value(&f3)
                } else if fp.len() == 2 {
                    digits_value(&fp) * 10
                } else if fp.len() == 1 {
                    digits_value(&fp) * 100
                } else {
                    0
                };
                proof {
                    lemma_digits_bound(fp@);
                    lemma_pow10_values();
                    if fp@.len() == 2 {
                        lemma_pow10_mono(2, 9);
                    }
                    if fp@.len() == 1 {
                        lemma_pow10_mono(1, 9);
                    }
                }
                whole + frac
            }
        },
    }
}

/// Parse a `MM:SS` or `HH:MM:SS` string into milliseconds; a string in any
/// other shape (or with unusable components) yields zero.
pub fn parse_time_str(time_str: &str) -> (r: u64)
    ensures
        r as int == time_ms_of(time_str@),
        r < 3_700_000_000_000_000,
{
    proof {
        lemma_time_ms_bound(time_str@);
    }
    let cs: Vec<char> = chars_of(time_str);
    let n: usize = cs.len();
    match find_char(&cs, ':') {
        None => 0,
        Some(p) => {
            proof {
                lemma_find_char_idx(cs@, ':');
            }
            let first: Vec<char> = subvec(&cs, 0, p);
            let rest: Vec<char> = subvec(&cs, p + 1, n);
            proof {
                assert(first@ =~= cs@.take(p as int));
                assert(rest@ =~= cs@.skip(p + 1));
            }
            match find_char(&rest, ':') {
                None => {
                    proof {
                        lemma_component_bound(first@);
                        lemma_component_bound(rest@);
                    }
                    component_ms_value(&first) * 60 + component_ms_value(&rest)
                },
                Some(q) => {
                    proof {
                        lemma_find_char_idx(rest@, ':');
                    }
                    let second: Vec<char> = subvec(&rest, 0, q);
                    let rest2: Vec<char> = subvec(&rest, q + 1, rest.len());
                    proof {
                        assert(second@ =~= rest@.take(q as int));
                        assert(rest2@ =~= rest@.skip(q + 1));
                    }
                    match find_char(&rest2, ':') {
                        Some(_) => 0,
                        None => {
                            proof {
                                lemma_component_bound(first@);
                                lemma_component_bound(second@);
                                lemma_component_bound(rest2@);
                            }
                            component_ms_value(&first) * 3600 + component_ms_value(&second) * 60
                                + component_ms_value(&rest2)
                        },
                    }
                },
            }
        },
    }
}

/// Parse a probe duration string (`HH:MM:SS.cc`) into milliseconds.
///
/// Unlike [`parse_time_str`], a malformed string is an error: the duration
/// decides the processing mode, so the pipeline cannot continue without it.
pub fn parse_ffmpeg_duration(time_str: &str) -> (r: Result<u64, ExtractionError>)
    ensures
        match r {
            Ok(d) => ffmpeg_duration_ms(time_str@) == Some(d as int) && d
                < 3_700_000_000_000_000,
            Err(e) => ffmpeg_duration_ms(time_str@) is None && e matches
                ExtractionError::DurationUnavailable,
        },
{
    let cs: Vec<char> = chars_of(time_str);
    parse_ffmpeg_duration_chars(&cs)
}

/// [`parse_ffmpeg_duration`] on an already decoded character vector.
pub fn parse_ffmpeg_duration_chars(cs: &Vec<char>) -> (r: Result<u64, ExtractionError>)
    ensures
        match r {
            Ok(d) => ffmpeg_duration_ms(cs@) == Some(d as int) && d < 3_700_000_000_000_000,
            Err(e) => ffmpeg_duration_ms(cs@) is None && e matches
                ExtractionError::DurationUnavailable,
        },
{
    let n: usize = cs.len();
    match find_char(cs, ':') {
        None => Err(ExtractionError::DurationUnavailable),
        Some(p) => {
            proof {
                lemma_find_char_idx(cs@, ':');
            }
            let first: Vec<char> = subvec(cs, 0, p);
            let rest: Vec<char> = subvec(cs, p + 1, n);
            proof {
                assert(first@ =~= cs@.take(p as int));
                assert(rest@ =~= cs@.skip(p + 1));
            }
            match find_char(&rest, ':') {
                None => Err(ExtractionError::DurationUnavailable),
                Some(q) => {
                    proof {
                        lemma_find_char_idx(rest@, ':');
                    }
                    let second: Vec<char> = subvec(&rest, 0, q);
                    let rest2: Vec<char> = subvec(&rest, q + 1, rest.len());
                    proof {
                        assert(second@ =~= rest@.take(q as int));
                        assert(rest2@ =~= rest@.skip(q + 1));
                    }
                    match find_char(&rest2, ':') {
                        Some(_) => Err(ExtractionError::DurationUnavailable),
                        None => {
                            if valid_component_check(&first) && valid_component_check(&second)
                                && valid_component_check(&rest2) {
                                proof {
                                    lemma_component_bound(first@);
                                    lemma_component_bound(second@);
                                    lemma_component_bound(rest2@);
                                }
                                Ok(
                                    component_ms_value(&first) * 3600 + component_ms_value(&second)
                                        * 60 + component_ms_value(&rest2),
                                )
                            } else {
                                Err(ExtractionError::DurationUnavailable)
                            }
                        },
                    }
                },
            }
        },
    }
}

/// Whether `s` is a usable time component.
fn valid_component_check(s: &Vec<char>) -> (r: bool)
    ensures
        r == valid_component(s@),
{
    proof {
        lemma_find_char_idx(s@, '.');
    }
    let n: usize = s.len();
    match find_char(s, '.') {
        None => 1 <= n && n <= 9 && all_digits_check(s),
        Some(p) => {
            let ip: Vec<char> = subvec(s, 0, p);
            let fp: Vec<char> = subvec(s, p + 1, n);
            proof {
                assert(ip@ =~= s@.take(p as int));
                assert(fp@ =~= s@.skip(p + 1));
            }
            let dot_again: bool = match find_char(&fp, '.') {
                Some(_) => true,
                None => false,
            };
            !dot_again && all_digits_check(&ip) && all_digits_check(&fp) && ip.len() <= 9 && (
            ip.len() + fp.len() >= 1)
        },
    }
}

} // verus!
