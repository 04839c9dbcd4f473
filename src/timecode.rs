//! Reading time stamps out of the encoder's diagnostic lines, and turning a
//! position and a total into a percentage.
//!
//! Times are whole milliseconds; a percentage is in hundredths of a percent,
//! so 10000 stands for 100%.
use vstd::prelude::*;
use crate::text::{chars_of, copy_range, find, find_from, lemma_find_from_bounds, trim, trimmed};

verus! {

/// 100% in hundredths of a percent.
pub const FULL: u64 = 10000;

pub open spec fn is_digit(c: char) -> bool {
    '0' <= c && c <= '9'
}

pub open spec fn digit_val(c: char) -> int {
    (c as u32) as int - ('0' as u32) as int
}

pub open spec fn all_digits(s: Seq<char>) -> bool {
    forall|i: int| 0 <= i < s.len() ==> is_digit(#[trigger] s[i])
}

/// The number that a string of decimal digits writes.
pub open spec fn digits_value(s: Seq<char>) -> int
    decreases s.len(),
{
    if s.len() == 0 {
        0
    } else {
        10 * digits_value(s.drop_last()) + digit_val(s.last())
    }
}

/// A whole field (hours or minutes): one or more digits.
pub open spec fn whole_field(s: Seq<char>) -> Option<int> {
    if s.len() > 0 && all_digits(s) {
        Some(digits_value(s))
    } else {
        None
    }
}

/// Milliseconds written by the digits after a decimal point; digits past the
/// third are dropped.
pub open spec fn frac_ms(f: Seq<char>) -> int {
    (if f.len() > 0 { 100 * digit_val(f[0]) } else { 0 }) + (if f.len() > 1 {
        10 * digit_val(f[1])
    } else {
        0
    }) + (if f.len() > 2 { digit_val(f[2]) } else { 0 })
}

/// The seconds field in milliseconds: digits, optionally followed by a point
/// and more digits.
pub open spec fn seconds_field(f: Seq<char>) -> Option<int> {
    let d = find_from(f, seq!['.'], 0);
    if d < 0 {
        match whole_field(f) {
            Some(v) => Some(1000 * v),
            None => None,
        }
    } else {
        let fp = f.subrange(d + 1, f.len() as int);
        match whole_field(f.subrange(0, d)) {
            Some(v) => if all_digits(fp) {
                Some(1000 * v + frac_ms(fp))
            } else {
                None
            },
            None => None,
        }
    }
}

/// `H:M:S(.fraction)` in milliseconds: exactly three fields split by colons.
pub open spec fn time_ms(s: Seq<char>) -> Option<int> {
    let i = find_from(s, seq![':'], 0);
    let r = s.subrange(i + 1, s.len() as int);
    let j = find_from(r, seq![':'], 0);
    let t = r.subrange(j + 1, r.len() as int);
    if i < 0 || j < 0 || find_from(t, seq![':'], 0) >= 0 {
        None
    } else {
        match (whole_field(s.subrange(0, i)), whole_field(r.subrange(0, j)), seconds_field(t)) {
            (Some(h), Some(m), Some(sec)) => Some(3600000 * h + 60000 * m + sec),
            _ => None,
        }
    }
}

/// A time that fits in a `u64`, or nothing.
pub open spec fn fit(o: Option<int>) -> Option<u64> {
    match o {
        Some(t) => if 0 <= t <= u64::MAX {
            Some(t as u64)
        } else {
            None
        },
        None => None,
    }
}

/// What follows the first `marker` in `s`.
pub open spec fn after_marker(s: Seq<char>, marker: Seq<char>) -> Seq<char> {
    s.subrange(find_from(s, marker, 0) + marker.len(), s.len() as int)
}

/// The total duration announced by a line: after the first `Duration: `, up to
/// the next comma, trimmed.
pub open spec fn line_duration(s: Seq<char>) -> Option<int> {
    let rest = after_marker(s, "Duration: "@);
    let e = find_from(rest, seq![','], 0);
    if find_from(s, "Duration: "@, 0) < 0 || e < 0 {
        None
    } else {
        time_ms(trimmed(rest.subrange(0, e)))
    }
}

/// The position reported by a line: after the first `time=`, up to the next
/// space, or the trimmed rest of the line where no space follows.
pub open spec fn line_position(s: Seq<char>) -> Option<int> {
    let rest = after_marker(s, "time="@);
    let e = find_from(rest, seq![' '], 0);
    if find_from(s, "time="@, 0) < 0 {
        None
    } else if e >= 0 {
        time_ms(rest.subrange(0, e))
    } else {
        time_ms(trimmed(rest))
    }
}

/// The percentage, in hundredths, that `current` is of `total`, at most 100%.
pub open spec fn percent(current: int, total: int) -> int {
    if current * FULL / total > FULL {
        FULL as int
    } else {
        current * FULL / total
    }
}

proof fn lemma_digits_nonneg(s: Seq<char>)
    requires
        all_digits(s),
    ensures
        digits_value(s) >= 0,
    decreases s.len(),
{
    if s.len() > 0 {
        lemma_digits_nonneg(s.drop_last());
    }
}

proof fn lemma_prefix_le(s: Seq<char>, k: int)
    requires
        all_digits(s),
        0 <= k <= s.len(),
    ensures
        digits_value(s.subrange(0, k)) <= digits_value(s),
    decreases s.len(),
{
    if k < s.len() {
        let d = s.drop_last();
        lemma_prefix_le(d, k);
        assert(d.subrange(0, k) =~= s.subrange(0, k));
        lemma_digits_nonneg(d);
    } else {
        assert(s.subrange(0, k) =~= s);
    }
}

proof fn lemma_seconds_nonneg(f: Seq<char>)
    ensures
        seconds_field(f) is Some ==> seconds_field(f).unwrap() >= 0,
{
    let d = find_from(f, seq!['.'], 0);
    lemma_find_from_bounds(f, seq!['.'], 0);
    if d < 0 {
        if all_digits(f) {
            lemma_digits_nonneg(f);
        }
    } else {
        let ip = f.subrange(0, d);
        let fp = f.subrange(d + 1, f.len() as int);
        if all_digits(ip) {
            lemma_digits_nonneg(ip);
        }
        if all_digits(fp) {
            if fp.len() > 0 {
                assert(is_digit(fp[0]));
            }
            if fp.len() > 1 {
                assert(is_digit(fp[1]));
            }
            if fp.len() > 2 {
                assert(is_digit(fp[2]));
            }
        }
    }
}

fn digit_of(c: char) -> (r: u64)
    requires
        is_digit(c),
    ensures
        r as int == digit_val(c),
        r <= 9,
{
    (c as u32 - '0' as u32) as u64
}

fn is_digit_char(c: char) -> (r: bool)
    ensures
        r == is_digit(c),
{
    '0' <= c && c <= '9'
}

/// Reads a whole field; `None` also where its value does not fit in a `u64`.
fn parse_whole(v: &Vec<char>) -> (r: Option<u64>)
    ensures
        r == fit(whole_field(v@)),
{
    if v.len() == 0 {
        return None;
    }
    let mut i: usize = 0;
    while i < v.len()
        invariant
            i <= v@.len(),
            all_digits(v@.subrange(0, i as int)),
        decreases v@.len() - i,
    {
        if !is_digit_char(v[i]) {
            assert(!all_digits(v@));
            return None;
        }
        assert(v@.subrange(0, i + 1 as int).drop_last() =~= v@.subrange(0, i as int));
        i = i + 1;
    }
    assert(v@.subrange(0, v@.len() as int) =~= v@);
    let mut acc: u64 = 0;
    let mut k: usize = 0;
    while k < v.len()
        invariant
            k <= v@.len(),
            all_digits(v@),
            acc as int == digits_value(v@.subrange(0, k as int)),
        decreases v@.len() - k,
    {
        let d = digit_of(v[k]);
        assert(v@.subrange(0, k + 1 as int).drop_last() =~= v@.subrange(0, k as int));
        assert(v@.subrange(0, k + 1 as int).last() == v@[k as int]);
        let big: u128 = acc as u128 * 10 + d as u128;
        if big > u64::MAX as u128 {
            proof {
                lemma_prefix_le(v@, k + 1 as int);
            }
            return None;
        }
        acc = big as u64;
        k = k + 1;
    }
    assert(v@.subrange(0, k as int) =~= v@);
    Some(acc)
}

/// Milliseconds written by up to three digits after a decimal point.
fn parse_frac(f: &Vec<char>) -> (r: Option<u64>)
    ensures
        all_digits(f@) ==> r == Some(frac_ms(f@) as u64),
        !all_digits(f@) ==> r.is_none(),
        frac_ms(f@) >= 0 || !all_digits(f@),
        frac_ms(f@) <= 999 || !all_digits(f@),
{
    let mut i: usize = 0;
    while i < f.len()
        invariant
            i <= f@.len(),
            forall|j: int| 0 <= j < i ==> is_digit(#[trigger] f@[j]),
        decreases f@.len() - i,
    {
        if !is_digit_char(f[i]) {
            return None;
        }
        i = i + 1;
    }
    let mut ms: u64 = 0;
    if f.len() > 0 {
        ms = ms + 100 * digit_of(f[0]);
    }
    if f.len() > 1 {
        ms = ms + 10 * digit_of(f[1]);
    }
    if f.len() > 2 {
        ms = ms + digit_of(f[2]);
    }
    Some(ms)
}

fn parse_seconds(f: &Vec<char>) -> (r: Option<u64>)
    ensures
        r == fit(seconds_field(f@)),
{
    let dot = vec!['.'];
    assert(dot@ == seq!['.']);
    assert(dot@.len() == 1);
    let n = f.len();
    match find(f, &dot, 0) {
        None => {
            match parse_whole(f) {
                Some(v) => {
                    let big: u128 = v as u128 * 1000;
                    if big > u64::MAX as u128 {
                        None
                    } else {
                        Some(big as u64)
                    }
                },
                None => {
                    None
                },
            }
        },
        Some(d) => {
            let ip = copy_range(f, 0, d);
            let fp = copy_range(f, d + 1, n);
            match (parse_whole(&ip), parse_frac(&fp)) {
                (Some(v), Some(ms)) => {
                    let big: u128 = v as u128 * 1000 + ms as u128;
                    if big > u64::MAX as u128 {
                        None
                    } else {
                        Some(big as u64)
                    }
                },
                (None, _) => {
                    None
                },
                _ => None,
            }
        },
    }
}

/// Reads `H:M:S(.fraction)` as milliseconds. A string with another number of
/// fields, a field that is not a number, or a value past `u64::MAX` gives `None`.
pub fn parse_time_string(time_str: &str) -> (r: Option<u64>)
    ensures
        r == fit(time_ms(time_str@)),
{
    let v = chars_of(time_str);
    parse_time_chars(&v)
}

fn parse_time_chars(v: &Vec<char>) -> (r: Option<u64>)
    ensures
        r == fit(time_ms(v@)),
{
    let colon = vec![':'];
    assert(colon@ == seq![':']);
    assert(colon@.len() == 1);
    let n = v.len();
    let i = match find(v, &colon, 0) {
        Some(i) => i,
        None => return None,
    };
    let r = copy_range(v, i + 1, n);
    let j = match find(&r, &colon, 0) {
        Some(j) => j,
        None => return None,
    };
    let t = copy_range(&r, j + 1, r.len());
    if find(&t, &colon, 0).is_some() {
        return None;
    }
    let hs = copy_range(v, 0, i);
    let ms = copy_range(&r, 0, j);
    let h = parse_whole(&hs);
    let m = parse_whole(&ms);
    let sec = parse_seconds(&t);
    proof {
        if whole_field(hs@).is_some() {
            lemma_digits_nonneg(hs@);
        }
        if whole_field(ms@).is_some() {
            lemma_digits_nonneg(ms@);
        }
        lemma_seconds_nonneg(t@);
        assert(find_from(v@, seq![':'], 0) == i as int);
        assert(find_from(r@, seq![':'], 0) == j as int);
        assert(find_from(t@, seq![':'], 0) == -1);
        match (whole_field(hs@), whole_field(ms@), seconds_field(t@)) {
            (Some(hv), Some(mv), Some(sv)) => {
                assert(hv >= 0);
                assert(mv >= 0);
                assert(sv >= 0);
                assert(3600000 * hv >= hv) by (nonlinear_arith)
                    requires
                        hv >= 0,
                ;
                assert(60000 * mv >= mv) by (nonlinear_arith)
                    requires
                        mv >= 0,
                ;
            },
            _ => {},
        }
    }
    match (h, m, sec) {
        (Some(h), Some(m), Some(sec)) => {
            let big: u128 = h as u128 * 3600000 + m as u128 * 60000 + sec as u128;
            assert(time_ms(v@) == Some(big as int));
            if big > u64::MAX as u128 {
                None
            } else {
                Some(big as u64)
            }
        },
        _ => {
            assert(time_ms(v@).is_none() || time_ms(v@).unwrap() > u64::MAX);
            None
        },
    }
}

/// The total duration that a line announces, in milliseconds: the time after the
/// first `Duration: `, up to the next comma, trimmed.
pub fn parse_duration(line: &str) -> (r: Option<u64>)
    ensures
        r == fit(line_duration(line@)),
{
    let v = chars_of(line);
    let marker = chars_of("Duration: ");
    let n = v.len();
    let start = match find(&v, &marker, 0) {
        Some(i) => i,
        None => return None,
    };
    let rest = copy_range(&v, start + marker.len(), n);
    let comma = vec![','];
    assert(comma@ == seq![',']);
    let end = match find(&rest, &comma, 0) {
        Some(e) => e,
        None => return None,
    };
    let field = copy_range(&rest, 0, end);
    let t = trim(&field);
    parse_time_chars(&t)
}

/// The position that a line reports, in milliseconds: the time after the first
/// `time=`, up to the next space, or the trimmed rest of the line.
pub fn parse_time(line: &str) -> (r: Option<u64>)
    ensures
        r == fit(line_position(line@)),
{
    let v = chars_of(line);
    let marker = chars_of("time=");
    let n = v.len();
    let start = match find(&v, &marker, 0) {
        Some(i) => i,
        None => return None,
    };
    let rest = copy_range(&v, start + marker.len(), n);
    let space = vec![' '];
    assert(space@ == seq![' ']);
    match find(&rest, &space, 0) {
        Some(e) => {
            let field = copy_range(&rest, 0, e);
            parse_time_chars(&field)
        },
        None => {
            let t = trim(&rest);
            parse_time_chars(&t)
        },
    }
}

/// How far `current` is into `total`, in hundredths of a percent, at most 100%.
pub fn progress_percent(current: u64, total: u64) -> (r: u64)
    requires
        total > 0,
    ensures
        r as int == percent(current as int, total as int),
        r <= FULL,
{
    let p: u128 = current as u128 * 10000 / total as u128;
    if p > 10000 {
        FULL
    } else {
        p as u64
    }
}

/// Where `local` (a percentage of one stage) lands in the overall range
/// `[low, high]`: `low + local * (high - low) / 100%`.
pub open spec fn remapped(local: int, low: int, high: int) -> int {
    low + local * (high - low) / (FULL as int)
}

pub fn remap(local: u64, low: u64, high: u64) -> (r: u64)
    requires
        local <= FULL,
        low <= high <= FULL,
    ensures
        r as int == remapped(local as int, low as int, high as int),
        low <= r <= high,
{
    proof {
        assert(local * (high - low) <= FULL * (high - low)) by (nonlinear_arith)
            requires
                local <= FULL,
                low <= high,
        ;
        assert(local * (high - low) / (FULL as int) <= high - low) by (nonlinear_arith)
            requires
                local * (high - low) <= FULL * (high - low),
                high - low >= 0,
        ;
        assert(local * (high - low) >= 0) by (nonlinear_arith)
            requires
                local >= 0,
                low <= high,
        ;
    }
    let d: u128 = local as u128 * (high - low) as u128 / 10000;
    (low as u128 + d) as u64
}

/// Progress computed against a known total never exceeds 100%, and over a stream
/// whose positions do not go back it never goes back either, also once it is
/// mapped into a stage's overall range.
pub proof fn progress_is_monotone(c1: int, c2: int, total: int, low: int, high: int)
    requires
        0 <= c1 <= c2,
        total > 0,
        0 <= low <= high <= FULL,
    ensures
        0 <= percent(c1, total) <= percent(c2, total) <= FULL,
        low <= remapped(percent(c1, total), low, high) <= remapped(percent(c2, total), low, high)
            <= high,
{
    assert(c1 * FULL <= c2 * FULL) by (nonlinear_arith)
        requires
            c1 <= c2,
    ;
    assert(c1 * FULL / total <= c2 * FULL / total) by (nonlinear_arith)
        requires
            c1 * FULL <= c2 * FULL,
            total > 0,
    ;
    assert(c1 * FULL / total >= 0) by (nonlinear_arith)
        requires
            c1 >= 0,
            total > 0,
    ;
    let p1 = percent(c1, total);
    let p2 = percent(c2, total);
    let w = high - low;
    assert(p1 * w <= p2 * w) by (nonlinear_arith)
        requires
            p1 <= p2,
            w >= 0,
    ;
    assert(p1 * w / (FULL as int) <= p2 * w / (FULL as int)) by (nonlinear_arith)
        requires
            p1 * w <= p2 * w,
    ;
    assert(p1 * w >= 0) by (nonlinear_arith)
        requires
            p1 >= 0,
            w >= 0,
    ;
    assert(p2 * w <= FULL * w) by (nonlinear_arith)
        requires
            p2 <= FULL,
            w >= 0,
    ;
    assert(p2 * w / (FULL as int) <= w) by (nonlinear_arith)
        requires
            p2 * w <= FULL * w,
            w >= 0,
    ;
}

} // verus!
