//! Calendar timestamps with millisecond precision, and their canonical
//! textual form `YYYY-MM-DD HH:MM:SS.mmm`. Formatting and parsing round-trip
//! exactly for every valid timestamp.

use vstd::prelude::*;
use chrono::{Datelike, Timelike};

verus! {

/// A timestamp held as plain calendar fields.
#[derive(Clone, Copy, Debug, PartialEq, Eq, Structural)]
pub struct Timestamp {
    pub year: u32,
    pub month: u32,
    pub day: u32,
    pub hour: u32,
    pub minute: u32,
    pub second: u32,
    pub milli: u32,
}

pub open spec fn is_leap_year(y: int) -> bool {
    y % 4 == 0 && (y % 100 != 0 || y % 400 == 0)
}

pub open spec fn days_in_month(y: int, m: int) -> int {
    if m == 2 {
        if is_leap_year(y) {
            29
        } else {
            28
        }
    } else if m == 4 || m == 6 || m == 9 || m == 11 {
        30
    } else {
        31
    }
}

impl Timestamp {
    /// A well-formed timestamp: a real calendar date (leap years included)
    /// within the four-digit year range, and in-range time-of-day fields.
    pub open spec fn wf(self) -> bool {
        &&& self.year <= 9999
        &&& 1 <= self.month <= 12
        &&& 1 <= self.day <= days_in_month(self.year as int, self.month as int)
        &&& self.hour < 24
        &&& self.minute < 60
        &&& self.second < 60
        &&& self.milli < 1000
    }

    /// The denormalized integer key `year*10000 + month*100 + day`.
    pub open spec fn spec_dateint(self) -> int {
        self.year * 10000 + self.month * 100 + self.day
    }
}

pub open spec fn digit_char(d: int) -> char {
    if d == 0 {
        '0'
    } else if d == 1 {
        '1'
    } else if d == 2 {
        '2'
    } else if d == 3 {
        '3'
    } else if d == 4 {
        '4'
    } else if d == 5 {
        '5'
    } else if d == 6 {
        '6'
    } else if d == 7 {
        '7'
    } else if d == 8 {
        '8'
    } else {
        '9'
    }
}

/// The value of a decimal digit character, or -1 for any other character.
pub open spec fn digit_val(c: char) -> int {
    if c == '0' {
        0
    } else if c == '1' {
        1
    } else if c == '2' {
        2
    } else if c == '3' {
        3
    } else if c == '4' {
        4
    } else if c == '5' {
        5
    } else if c == '6' {
        6
    } else if c == '7' {
        7
    } else if c == '8' {
        8
    } else if c == '9' {
        9
    } else {
        -1
    }
}

pub open spec fn two_digits(n: int) -> Seq<char> {
    seq![digit_char(n / 10 % 10), digit_char(n % 10)]
}

pub open spec fn three_digits(n: int) -> Seq<char> {
    seq![digit_char(n / 100 % 10), digit_char(n / 10 % 10), digit_char(n % 10)]
}

pub open spec fn four_digits(n: int) -> Seq<char> {
    seq![digit_char(n / 1000 % 10), digit_char(n / 100 % 10), digit_char(n / 10 % 10), digit_char(n % 10)]
}

/// The canonical textual form `YYYY-MM-DD HH:MM:SS.mmm` of a timestamp.
pub open spec fn spec_format(ts: Timestamp) -> Seq<char> {
    four_digits(ts.year as int) + seq!['-'] + two_digits(ts.month as int) + seq!['-'] + two_digits(
        ts.day as int,
    ) + seq![' '] + two_digits(ts.hour as int) + seq![':'] + two_digits(ts.minute as int)
        + seq![':'] + two_digits(ts.second as int) + seq!['.'] + three_digits(ts.milli as int)
}

fn digit_str(d: u32) -> (r: &'static str)
    requires
        d < 10,
    ensures
        r@ =~= seq![digit_char(d as int)],
{
    proof {
        reveal_strlit("0");
        reveal_strlit("1");
        reveal_strlit("2");
        reveal_strlit("3");
        reveal_strlit("4");
        reveal_strlit("5");
        reveal_strlit("6");
        reveal_strlit("7");
        reveal_strlit("8");
        reveal_strlit("9");
    }
    match d {
        0 => "0",
        1 => "1",
        2 => "2",
        3 => "3",
        4 => "4",
        5 => "5",
        6 => "6",
        7 => "7",
        8 => "8",
        _ => "9",
    }
}

fn push_two_digits(s: &mut String, n: u32)
    requires
        n < 100,
    ensures
        final(s)@ == old(s)@ + two_digits(n as int),
{
    s.append(digit_str(n / 10));
    s.append(digit_str(n % 10));
    proof {
        assert(final(s)@ =~= old(s)@ + two_digits(n as int));
    }
}

fn push_three_digits(s: &mut String, n: u32)
    requires
        n < 1000,
    ensures
        final(s)@ == old(s)@ + three_digits(n as int),
{
    s.append(digit_str(n / 100));
    s.append(digit_str(n / 10 % 10));
    s.append(digit_str(n % 10));
    proof {
        assert(final(s)@ =~= old(s)@ + three_digits(n as int));
    }
}

fn push_four_digits(s: &mut String, n: u32)
    requires
        n < 10000,
    ensures
        final(s)@ == old(s)@ + four_digits(n as int),
{
    s.append(digit_str(n / 1000));
    s.append(digit_str(n / 100 % 10));
    s.append(digit_str(n / 10 % 10));
    s.append(digit_str(n % 10));
    proof {
        assert(final(s)@ =~= old(s)@ + four_digits(n as int));
    }
}

pub open spec fn is_digit(c: char) -> bool {
    digit_val(c) >= 0
}

/// The canonical form has digits and separators at these fixed positions.
pub open spec fn shape_ok(s: Seq<char>) -> bool {
    &&& s.len() == 23
    &&& is_digit(s[0]) && is_digit(s[1]) && is_digit(s[2]) && is_digit(s[3])
    &&& s[4] == '-'
    &&& is_digit(s[5]) && is_digit(s[6])
    &&& s[7] == '-'
    &&& is_digit(s[8]) && is_digit(s[9])
    &&& s[10] == ' '
    &&& is_digit(s[11]) && is_digit(s[12])
    &&& s[13] == ':'
    &&& is_digit(s[14]) && is_digit(s[15])
    &&& s[16] == ':'
    &&& is_digit(s[17]) && is_digit(s[18])
    &&& s[19] == '.'
    &&& is_digit(s[20]) && is_digit(s[21]) && is_digit(s[22])
}

pub open spec fn num2(s: Seq<char>, i: int) -> int {
    digit_val(s[i]) * 10 + digit_val(s[i + 1])
}

pub open spec fn num3(s: Seq<char>, i: int) -> int {
    digit_val(s[i]) * 100 + digit_val(s[i + 1]) * 10 + digit_val(s[i + 2])
}

pub open spec fn num4(s: Seq<char>, i: int) -> int {
    digit_val(s[i]) * 1000 + digit_val(s[i + 1]) * 100 + digit_val(s[i + 2]) * 10 + digit_val(
        s[i + 3],
    )
}

pub open spec fn spec_fields_of(s: Seq<char>) -> Timestamp {
    Timestamp {
        year: num4(s, 0) as u32,
        month: num2(s, 5) as u32,
        day: num2(s, 8) as u32,
        hour: num2(s, 11) as u32,
        minute: num2(s, 14) as u32,
        second: num2(s, 17) as u32,
        milli: num3(s, 20) as u32,
    }
}

/// What parsing the canonical textual form yields: the fields read from the
/// fixed positions, provided the shape is right and they make a well-formed
/// timestamp; `None` on any other string.
pub open spec fn spec_parse(s: Seq<char>) -> Option<Timestamp> {
    if shape_ok(s) && spec_fields_of(s).wf() {
        Some(spec_fields_of(s))
    } else {
        None
    }
}

fn digit_of(c: char) -> (r: Option<u32>)
    ensures
        r matches Some(d) ==> digit_val(c) == d as int && d < 10,
        r is None ==> digit_val(c) == -1,
{
    match c {
        '0' => Some(0),
        '1' => Some(1),
        '2' => Some(2),
        '3' => Some(3),
        '4' => Some(4),
        '5' => Some(5),
        '6' => Some(6),
        '7' => Some(7),
        '8' => Some(8),
        '9' => Some(9),
        _ => None,
    }
}

fn days_in_month_of(y: u32, m: u32) -> (r: u32)
    requires
        1 <= m <= 12,
    ensures
        r as int == days_in_month(y as int, m as int),
{
    if m == 2 {
        if y % 4 == 0 && (y % 100 != 0 || y % 400 == 0) {
            29
        } else {
            28
        }
    } else if m == 4 || m == 6 || m == 9 || m == 11 {
        30
    } else {
        31
    }
}

impl Timestamp {
    /// Whether the fields form a well-formed timestamp.
    pub fn check_wf(&self) -> (r: bool)
        ensures
            r == self.wf(),
    {
        self.year <= 9999 && 1 <= self.month && self.month <= 12 && 1 <= self.day && self.hour < 24
            && self.minute < 60 && self.second < 60 && self.milli < 1000 && self.day
            <= days_in_month_of(self.year, self.month)
    }

    /// Reads a timestamp back from its canonical textual form; `None` on any
    /// string that is not the canonical form of a well-formed timestamp.
    pub fn parse(s: &str) -> (r: Option<Timestamp>)
        ensures
            r == spec_parse(s@),
    {
        proof {
            reveal_strlit("-");
            reveal_strlit(" ");
            reveal_strlit(":");
            reveal_strlit(".");
        }
        if s.unicode_len() != 23 {
            return None;
        }
        if s.get_char(4) != '-' || s.get_char(7) != '-' || s.get_char(10) != ' ' || s.get_char(13)
            != ':' || s.get_char(16) != ':' || s.get_char(19) != '.' {
            return None;
        }
        let d0 = digit_of(s.get_char(0));
        let d1 = digit_of(s.get_char(1));
        let d2 = digit_of(s.get_char(2));
        let d3 = digit_of(s.get_char(3));
        let d5 = digit_of(s.get_char(5));
        let d6 = digit_of(s.get_char(6));
        let d8 = digit_of(s.get_char(8));
        let d9 = digit_of(s.get_char(9));
        let d11 = digit_of(s.get_char(11));
        let d12 = digit_of(s.get_char(12));
        let d14 = digit_of(s.get_char(14));
        let d15 = digit_of(s.get_char(15));
        let d17 = digit_of(s.get_char(17));
        let d18 = digit_of(s.get_char(18));
        let d20 = digit_of(s.get_char(20));
        let d21 = digit_of(s.get_char(21));
        let d22 = digit_of(s.get_char(22));
        match (d0, d1, d2, d3, d5, d6, d8, d9, d11, d12, d14, d15, d17, d18, d20, d21, d22) {
            (
                Some(y0),
                Some(y1),
                Some(y2),
                Some(y3),
                Some(m0),
                Some(m1),
                Some(a0),
                Some(a1),
                Some(h0),
                Some(h1),
                Some(i0),
                Some(i1),
                Some(s0),
                Some(s1),
                Some(l0),
                Some(l1),
                Some(l2),
            ) => {
                let ts = Timestamp {
                    year: y0 * 1000 + y1 * 100 + y2 * 10 + y3,
                    month: m0 * 10 + m1,
                    day: a0 * 10 + a1,
                    hour: h0 * 10 + h1,
                    minute: i0 * 10 + i1,
                    second: s0 * 10 + s1,
                    milli: l0 * 100 + l1 * 10 + l2,
                };
                if ts.check_wf() {
                    Some(ts)
                } else {
                    None
                }
            },
            _ => None,
        }
    }

    /// Renders the timestamp in its canonical textual form.
    pub fn format(&self) -> (r: String)
        requires
            self.wf(),
        ensures
            r@ == spec_format(*self),
    {
        proof {
            reveal_strlit("-");
            reveal_strlit(" ");
            reveal_strlit(":");
            reveal_strlit(".");
        }
        let mut s = String::new();
        push_four_digits(&mut s, self.year);
        s.append("-");
        push_two_digits(&mut s, self.month);
        s.append("-");
        push_two_digits(&mut s, self.day);
        s.append(" ");
        push_two_digits(&mut s, self.hour);
        s.append(":");
        push_two_digits(&mut s, self.minute);
        s.append(":");
        push_two_digits(&mut s, self.second);
        s.append(".");
        push_three_digits(&mut s, self.milli);
        proof {
            assert(s@ =~= spec_format(*self));
        }
        s
    }
}

/// Relies on `chrono::Local::now` with the `Datelike`/`Timelike` accessors:
/// the current local date and time as plain fields, with the subsecond part
/// in nanoseconds. Depends on the clock, so nothing is promised of it.
#[verifier::external_body]
fn clock_parts() -> (i32, u32, u32, u32, u32, u32, u32) {
    let now = chrono::Local::now().naive_local();
    (now.year(), now.month(), now.day(), now.hour(), now.minute(), now.second(), now.nanosecond())
}

/// The current local time, truncated to millisecond precision. A clock
/// reading outside the representable range (or inside a leap second) falls
/// back to the start of the year 2000, so the result is always well-formed.
pub fn now_timestamp() -> (r: Timestamp)
    ensures
        r.wf(),
{
    let (y, mo, d, h, mi, s, ns) = clock_parts();
    let ms: u32 = ns / 1000000;
    if 0 <= y && y <= 9999 {
        let ts = Timestamp {
            year: y as u32,
            month: mo,
            day: d,
            hour: h,
            minute: mi,
            second: s,
            milli: ms,
        };
        if ts.check_wf() {
            return ts;
        }
    }
    Timestamp { year: 2000, month: 1, day: 1, hour: 0, minute: 0, second: 0, milli: 0 }
}

proof fn lemma_digit_roundtrip(d: int)
    requires
        0 <= d < 10,
    ensures
        digit_val(digit_char(d)) == d,
{
}

/// Law: formatting a well-formed timestamp and parsing the result yields the
/// original timestamp back, exactly.
#[verifier::rlimit(100)]
pub proof fn lemma_format_parse_roundtrip(ts: Timestamp)
    requires
        ts.wf(),
    ensures
        spec_parse(spec_format(ts)) == Some(ts),
{
    let s = spec_format(ts);
    let y = ts.year as int;
    let mo = ts.month as int;
    let d = ts.day as int;
    let h = ts.hour as int;
    let mi = ts.minute as int;
    let se = ts.second as int;
    let ml = ts.milli as int;
    assert(s =~= seq![
        digit_char(y / 1000 % 10),
        digit_char(y / 100 % 10),
        digit_char(y / 10 % 10),
        digit_char(y % 10),
        '-',
        digit_char(mo / 10 % 10),
        digit_char(mo % 10),
        '-',
        digit_char(d / 10 % 10),
        digit_char(d % 10),
        ' ',
        digit_char(h / 10 % 10),
        digit_char(h % 10),
        ':',
        digit_char(mi / 10 % 10),
        digit_char(mi % 10),
        ':',
        digit_char(se / 10 % 10),
        digit_char(se % 10),
        '.',
        digit_char(ml / 100 % 10),
        digit_char(ml / 10 % 10),
        digit_char(ml % 10),
    ]);
    assert forall|n: int| 0 <= n implies 0 <= #[trigger] (n % 10) < 10 by {}
    lemma_digit_roundtrip(y / 1000 % 10);
    lemma_digit_roundtrip(y / 100 % 10);
    lemma_digit_roundtrip(y / 10 % 10);
    lemma_digit_roundtrip(y % 10);
    lemma_digit_roundtrip(mo / 10 % 10);
    lemma_digit_roundtrip(mo % 10);
    lemma_digit_roundtrip(d / 10 % 10);
    lemma_digit_roundtrip(d % 10);
    lemma_digit_roundtrip(h / 10 % 10);
    lemma_digit_roundtrip(h % 10);
    lemma_digit_roundtrip(mi / 10 % 10);
    lemma_digit_roundtrip(mi % 10);
    lemma_digit_roundtrip(se / 10 % 10);
    lemma_digit_roundtrip(se % 10);
    lemma_digit_roundtrip(ml / 100 % 10);
    lemma_digit_roundtrip(ml / 10 % 10);
    lemma_digit_roundtrip(ml % 10);
    assert(shape_ok(s));
    assert(y / 1000 % 10 * 1000 + y / 100 % 10 * 100 + y / 10 % 10 * 10 + y % 10 == y)
        by (nonlinear_arith)
        requires
            0 <= y < 10000,
    ;
    assert(mo / 10 % 10 * 10 + mo % 10 == mo) by (nonlinear_arith)
        requires
            0 <= mo < 100,
    ;
    assert(d / 10 % 10 * 10 + d % 10 == d) by (nonlinear_arith)
        requires
            0 <= d < 100,
    ;
    assert(h / 10 % 10 * 10 + h % 10 == h) by (nonlinear_arith)
        requires
            0 <= h < 100,
    ;
    assert(mi / 10 % 10 * 10 + mi % 10 == mi) by (nonlinear_arith)
        requires
            0 <= mi < 100,
    ;
    assert(se / 10 % 10 * 10 + se % 10 == se) by (nonlinear_arith)
        requires
            0 <= se < 100,
    ;
    assert(ml / 100 % 10 * 100 + ml / 10 % 10 * 10 + ml % 10 == ml) by (nonlinear_arith)
        requires
            0 <= ml < 1000,
    ;
    assert(spec_fields_of(s) == ts);
}

/// Law: the textual form is canonical — any string that parses is exactly
/// the formatted text of the timestamp it parses to, so no two different
/// strings denote the same timestamp.
#[verifier::rlimit(100)]
pub proof fn lemma_parse_format_roundtrip(s: Seq<char>)
    requires
        spec_parse(s) is Some,
    ensures
        spec_format(spec_parse(s)->Some_0) == s,
{
    let ts = spec_parse(s)->Some_0;
    assert(shape_ok(s));
    assert(ts == spec_fields_of(s));
    assert forall|c: char| is_digit(c) implies digit_char(digit_val(c)) == c by {}
    let y = ts.year as int;
    let mo = ts.month as int;
    let d = ts.day as int;
    let h = ts.hour as int;
    let mi = ts.minute as int;
    let se = ts.second as int;
    let ml = ts.milli as int;
    let y0 = digit_val(s[0]);
    let y1 = digit_val(s[1]);
    let y2 = digit_val(s[2]);
    let y3 = digit_val(s[3]);
    assert(y / 1000 % 10 == y0 && y / 100 % 10 == y1 && y / 10 % 10 == y2 && y % 10 == y3)
        by (nonlinear_arith)
        requires
            y == y0 * 1000 + y1 * 100 + y2 * 10 + y3,
            0 <= y0 < 10,
            0 <= y1 < 10,
            0 <= y2 < 10,
            0 <= y3 < 10,
    ;
    let l0 = digit_val(s[20]);
    let l1 = digit_val(s[21]);
    let l2 = digit_val(s[22]);
    assert(ml / 100 % 10 == l0 && ml / 10 % 10 == l1 && ml % 10 == l2) by (nonlinear_arith)
        requires
            ml == l0 * 100 + l1 * 10 + l2,
            0 <= l0 < 10,
            0 <= l1 < 10,
            0 <= l2 < 10,
    ;
    lemma_two_digit_split(mo, digit_val(s[5]), digit_val(s[6]));
    lemma_two_digit_split(d, digit_val(s[8]), digit_val(s[9]));
    lemma_two_digit_split(h, digit_val(s[11]), digit_val(s[12]));
    lemma_two_digit_split(mi, digit_val(s[14]), digit_val(s[15]));
    lemma_two_digit_split(se, digit_val(s[17]), digit_val(s[18]));
    assert(spec_format(ts) =~= s);
}

proof fn lemma_two_digit_split(n: int, a: int, b: int)
    requires
        n == a * 10 + b,
        0 <= a < 10,
        0 <= b < 10,
    ensures
        n / 10 % 10 == a,
        n % 10 == b,
{
    assert(n / 10 % 10 == a && n % 10 == b) by (nonlinear_arith)
        requires
            n == a * 10 + b,
            0 <= a < 10,
            0 <= b < 10,
    ;
}

} // verus!
