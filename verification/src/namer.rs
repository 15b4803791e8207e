use vstd::prelude::*;

verus! {

// A generated filename encodes the wall-clock time at one-second
// granularity as "YYYY-MM-DD_HH-MM-SS.txt" (23 ASCII bytes), so that
// lexicographic order of the names agrees with chronological order for
// files created at least one second apart.

/// The ASCII digit for `v % 10`.
pub open spec fn ascii_digit(v: u32) -> u8 {
    (48 + (v % 10)) as u8
}

/// The two ASCII digits of a value below 100.
pub open spec fn two_digits(v: u32) -> Seq<u8> {
    seq![ascii_digit(v / 10), ascii_digit(v)]
}

/// The four ASCII digits of a value below 10000.
pub open spec fn four_digits(v: u32) -> Seq<u8> {
    seq![ascii_digit(v / 1000), ascii_digit(v / 100)] + two_digits(v)
}

/// The exact byte sequence "YYYY-MM-DD_HH-MM-SS.txt" for the given
/// calendar fields (45 is '-', 95 is '_', and the tail is ".txt").
#[verifier::opaque]
pub open spec fn spec_timestamp_name(y: u32, mo: u32, d: u32, h: u32, mi: u32, s: u32) -> Seq<u8> {
    four_digits(y) + seq![45u8] + two_digits(mo) + seq![45u8] + two_digits(d) + seq![95u8]
        + two_digits(h) + seq![45u8] + two_digits(mi) + seq![45u8] + two_digits(s)
        + seq![46u8, 116u8, 120u8, 116u8]
}

/// Whether the calendar fields lie in the ranges a clock can produce
/// (the year additionally clamped to four decimal digits).
pub open spec fn fields_in_range(y: u32, mo: u32, d: u32, h: u32, mi: u32, s: u32) -> bool {
    y <= 9999 && 1 <= mo <= 12 && 1 <= d <= 31 && h <= 23 && mi <= 59 && s <= 59
}

/// A byte sequence is a generated filename iff some in-range calendar
/// fields produce it.
pub open spec fn is_timestamp_name(n: Seq<u8>) -> bool {
    exists|y: u32, mo: u32, d: u32, h: u32, mi: u32, s: u32|
        fields_in_range(y, mo, d, h, mi, s) && n == #[trigger] spec_timestamp_name(y, mo, d, h, mi, s)
}

/// Appends the two ASCII digits of `v`.
fn push_two_digits(r: &mut Vec<u8>, v: u32)
    ensures
        final(r)@ == old(r)@ + two_digits(v),
{
    r.push((48 + (v / 10) % 10) as u8);
    r.push((48 + v % 10) as u8);
    proof {
        assert(final(r)@ =~= old(r)@ + two_digits(v));
    }
}

/// Appends the four ASCII digits of `v`.
fn push_four_digits(r: &mut Vec<u8>, v: u32)
    ensures
        final(r)@ == old(r)@ + four_digits(v),
{
    r.push((48 + (v / 1000) % 10) as u8);
    r.push((48 + (v / 100) % 10) as u8);
    push_two_digits(r, v);
    proof {
        assert(final(r)@ =~= old(r)@ + four_digits(v));
    }
}

/// Builds the filename for the given calendar fields, exactly as
/// `spec_timestamp_name` describes it.
pub fn timestamp_name(y: u32, mo: u32, d: u32, h: u32, mi: u32, s: u32) -> (r: Vec<u8>)
    requires
        fields_in_range(y, mo, d, h, mi, s),
    ensures
        r@ == spec_timestamp_name(y, mo, d, h, mi, s),
        is_timestamp_name(r@),
{
    let mut r: Vec<u8> = Vec::new();
    push_four_digits(&mut r, y);
    r.push(45);
    push_two_digits(&mut r, mo);
    r.push(45);
    push_two_digits(&mut r, d);
    r.push(95);
    push_two_digits(&mut r, h);
    r.push(45);
    push_two_digits(&mut r, mi);
    r.push(45);
    push_two_digits(&mut r, s);
    r.push(46);
    r.push(116);
    r.push(120);
    r.push(116);
    proof {
        reveal(spec_timestamp_name);
        assert(r@ =~= spec_timestamp_name(y, mo, d, h, mi, s));
    }
    r
}

/// Moment-by-moment order of calendar fields, at one-second granularity.
pub open spec fn time_fields_leq(
    y1: u32, mo1: u32, d1: u32, h1: u32, mi1: u32, s1: u32,
    y2: u32, mo2: u32, d2: u32, h2: u32, mi2: u32, s2: u32,
) -> bool {
    if y1 != y2 {
        y1 < y2
    } else if mo1 != mo2 {
        mo1 < mo2
    } else if d1 != d2 {
        d1 < d2
    } else if h1 != h2 {
        h1 < h2
    } else if mi1 != mi2 {
        mi1 < mi2
    } else {
        s1 <= s2
    }
}

/// The characters of a generated filename, position by position.
#[verifier::rlimit(60)]
proof fn lemma_name_chars(y: u32, mo: u32, d: u32, h: u32, mi: u32, s: u32)
    ensures
        ({
            let n = spec_timestamp_name(y, mo, d, h, mi, s);
            &&& n.len() == 23
            &&& n[0] == ascii_digit(y / 1000)
            &&& n[1] == ascii_digit(y / 100)
            &&& n[2] == ascii_digit(y / 10)
            &&& n[3] == ascii_digit(y)
            &&& n[4] == 45u8
            &&& n[5] == ascii_digit(mo / 10)
            &&& n[6] == ascii_digit(mo)
            &&& n[7] == 45u8
            &&& n[8] == ascii_digit(d / 10)
            &&& n[9] == ascii_digit(d)
            &&& n[10] == 95u8
            &&& n[11] == ascii_digit(h / 10)
            &&& n[12] == ascii_digit(h)
            &&& n[13] == 45u8
            &&& n[14] == ascii_digit(mi / 10)
            &&& n[15] == ascii_digit(mi)
            &&& n[16] == 45u8
            &&& n[17] == ascii_digit(s / 10)
            &&& n[18] == ascii_digit(s)
            &&& n[19] == 46u8
            &&& n[20] == 116u8
            &&& n[21] == 120u8
            &&& n[22] == 116u8
        }),
{
    reveal(spec_timestamp_name);
}

/// In a two-digit field, the smaller value either has the smaller tens
/// digit or the same tens digit and a smaller units digit.
proof fn lemma_digit_pair_order(v1: u32, v2: u32)
    requires
        v1 < v2,
        v2 <= 99,
    ensures
        v1 / 10 <= v2 / 10,
        v1 / 10 < v2 / 10 ==> ascii_digit(v1 / 10) < ascii_digit(v2 / 10),
        v1 / 10 == v2 / 10 ==> ascii_digit(v1) < ascii_digit(v2),
{
    vstd::arithmetic::div_mod::lemma_div_is_ordered(v1 as int, v2 as int, 10);
}

/// Lexicographic order of generated filenames agrees with chronological
/// order of the moments they encode: for files created at least one
/// second apart, the earlier moment's name sorts first.
pub proof fn lemma_name_order_matches_time_order(
    y1: u32, mo1: u32, d1: u32, h1: u32, mi1: u32, s1: u32,
    y2: u32, mo2: u32, d2: u32, h2: u32, mi2: u32, s2: u32,
)
    requires
        fields_in_range(y1, mo1, d1, h1, mi1, s1),
        fields_in_range(y2, mo2, d2, h2, mi2, s2),
        time_fields_leq(y1, mo1, d1, h1, mi1, s1, y2, mo2, d2, h2, mi2, s2),
    ensures
        crate::scanner::lex_leq(
            spec_timestamp_name(y1, mo1, d1, h1, mi1, s1),
            spec_timestamp_name(y2, mo2, d2, h2, mi2, s2),
        ),
{
    let a = spec_timestamp_name(y1, mo1, d1, h1, mi1, s1);
    let b = spec_timestamp_name(y2, mo2, d2, h2, mi2, s2);
    lemma_name_chars(y1, mo1, d1, h1, mi1, s1);
    lemma_name_chars(y2, mo2, d2, h2, mi2, s2);
    if y1 < y2 {
        vstd::arithmetic::div_mod::lemma_div_is_ordered(y1 as int, y2 as int, 10);
        vstd::arithmetic::div_mod::lemma_div_is_ordered(y1 as int, y2 as int, 100);
        vstd::arithmetic::div_mod::lemma_div_is_ordered(y1 as int, y2 as int, 1000);
        vstd::arithmetic::div_mod::lemma_div_denominator(y1 as int, 100, 10);
        vstd::arithmetic::div_mod::lemma_div_denominator(y2 as int, 100, 10);
        vstd::arithmetic::div_mod::lemma_div_denominator(y1 as int, 10, 10);
        vstd::arithmetic::div_mod::lemma_div_denominator(y2 as int, 10, 10);
        if y1 / 1000 < y2 / 1000 {
            crate::scanner::lemma_lex_first_diff(a, b, 0);
        } else if y1 / 100 < y2 / 100 {
            crate::scanner::lemma_lex_first_diff(a, b, 1);
        } else if y1 / 10 < y2 / 10 {
            crate::scanner::lemma_lex_first_diff(a, b, 2);
        } else {
            crate::scanner::lemma_lex_first_diff(a, b, 3);
        }
    } else if mo1 < mo2 {
        lemma_digit_pair_order(mo1, mo2);
        if mo1 / 10 < mo2 / 10 {
            crate::scanner::lemma_lex_first_diff(a, b, 5);
        } else {
            crate::scanner::lemma_lex_first_diff(a, b, 6);
        }
    } else if d1 < d2 {
        lemma_digit_pair_order(d1, d2);
        if d1 / 10 < d2 / 10 {
            crate::scanner::lemma_lex_first_diff(a, b, 8);
        } else {
            crate::scanner::lemma_lex_first_diff(a, b, 9);
        }
    } else if h1 < h2 {
        lemma_digit_pair_order(h1, h2);
        if h1 / 10 < h2 / 10 {
            crate::scanner::lemma_lex_first_diff(a, b, 11);
        } else {
            crate::scanner::lemma_lex_first_diff(a, b, 12);
        }
    } else if mi1 < mi2 {
        lemma_digit_pair_order(mi1, mi2);
        if mi1 / 10 < mi2 / 10 {
            crate::scanner::lemma_lex_first_diff(a, b, 14);
        } else {
            crate::scanner::lemma_lex_first_diff(a, b, 15);
        }
    } else if s1 < s2 {
        lemma_digit_pair_order(s1, s2);
        if s1 / 10 < s2 / 10 {
            crate::scanner::lemma_lex_first_diff(a, b, 17);
        } else {
            crate::scanner::lemma_lex_first_diff(a, b, 18);
        }
    } else {
        assert(a =~= b);
        crate::scanner::lemma_lex_leq_refl(a);
    }
}

/// Relies on chrono's `Local::now` for the current wall-clock time; the
/// `Datelike`/`Timelike` accessors only convert it to plain calendar
/// fields (year, month, day, hour, minute, second). chrono documents the
/// ranges: month 1..=12, day 1..=31, hour 0..=23, minute 0..=59,
/// second 0..=59. Nothing can be promised about which moment it is.
#[verifier::external_body]
fn clock_now() -> (r: (i32, u32, u32, u32, u32, u32))
    ensures
        1 <= r.1 <= 12,
        1 <= r.2 <= 31,
        r.3 <= 23,
        r.4 <= 59,
        r.5 <= 59,
{
    let now = chrono::Local::now();
    (
        chrono::Datelike::year(&now),
        chrono::Datelike::month(&now),
        chrono::Datelike::day(&now),
        chrono::Timelike::hour(&now),
        chrono::Timelike::minute(&now),
        chrono::Timelike::second(&now),
    )
}

/// Derives a fresh, filesystem-safe, time-ordered default filename from
/// the current wall-clock time. Always succeeds; the year is clamped to
/// four digits should the clock ever leave that range.
pub fn new_filename() -> (r: Vec<u8>)
    ensures
        is_timestamp_name(r@),
{
    let (y, mo, d, h, mi, s) = clock_now();
    let year: u32 = if y < 0 {
        0
    } else if y > 9999 {
        9999
    } else {
        y as u32
    };
    timestamp_name(year, mo, d, h, mi, s)
}

} // verus!
