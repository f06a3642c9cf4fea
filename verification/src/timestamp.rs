//! The wire-format timestamp of a `Prepare` packet.
//!
//! On the wire an expiry is 17 ASCII digits, `YYYYMMDDHHMMSSfff` (UTC,
//! millisecond resolution).  The type here holds the same information as
//! plain calendar fields with their calendar invariant, and its operations
//! are specified against a linear index: the number of seconds since the
//! start of year 0 of the proleptic Gregorian calendar.

use vstd::prelude::*;
use vstd::arithmetic::div_mod::lemma_div_denominator;

verus! {

/// A calendar instant with millisecond resolution.
#[derive(Clone, Copy, Debug, PartialEq, Eq, Structural)]
pub struct Timestamp {
    pub year: u16,
    pub month: u8,
    pub day: u8,
    pub hour: u8,
    pub minute: u8,
    pub second: u8,
    pub millis: u16,
}

pub open spec fn leap_year(y: int) -> bool {
    (y % 4 == 0 && y % 100 != 0) || y % 400 == 0
}

pub open spec fn days_in_month(y: int, m: int) -> int
    recommends
        1 <= m <= 12,
{
    if m == 2 {
        if leap_year(y) {
            29
        } else {
            28
        }
    } else if m == 4 || m == 6 || m == 9 || m == 11 {
        30
    } else {
        31
    }
}

pub open spec fn days_in_year(y: int) -> int {
    if leap_year(y) {
        366
    } else {
        365
    }
}

/// Days in all years before year `y`.
pub open spec fn days_before_year(y: int) -> int
    decreases y,
{
    if y <= 0 {
        0
    } else {
        days_before_year(y - 1) + days_in_year(y - 1)
    }
}

/// Days in all months of year `y` before month `m`.
pub open spec fn days_before_month(y: int, m: int) -> int
    decreases m,
{
    if m <= 1 {
        0
    } else {
        days_before_month(y, m - 1) + days_in_month(y, m - 1)
    }
}

impl Timestamp {
    /// The calendar invariant: every field within its range, the day within
    /// its month's length, the year within four digits.
    pub open spec fn wf(self) -> bool {
        &&& self.year <= 9999
        &&& 1 <= self.month <= 12
        &&& 1 <= self.day <= days_in_month(self.year as int, self.month as int)
        &&& self.hour <= 23
        &&& self.minute <= 59
        &&& self.second <= 59
        &&& self.millis <= 999
    }

    /// The day of this instant, counted from year 0, January 1st.
    pub open spec fn day_index(self) -> int {
        days_before_year(self.year as int) + days_before_month(self.year as int, self.month as int)
            + (self.day - 1)
    }

    /// The second of this instant, counted from year 0, January 1st, 00:00:00.
    pub open spec fn second_index(self) -> int {
        self.day_index() * 86400 + self.hour * 3600 + self.minute * 60 + self.second
    }
}

proof fn lemma_days_before_year_nonneg(y: int)
    ensures
        days_before_year(y) >= 0,
    decreases y,
{
    if y > 0 {
        lemma_days_before_year_nonneg(y - 1);
    }
}

proof fn lemma_days_before_month_nonneg(y: int, m: int)
    requires
        m <= 13,
    ensures
        days_before_month(y, m) >= 0,
    decreases m,
{
    if m > 1 {
        lemma_days_before_month_nonneg(y, m - 1);
    }
}

/// A whole year of months is a year of days.
proof fn lemma_year_days(y: int)
    ensures
        days_before_month(y, 13) == days_in_year(y),
{
    reveal_with_fuel(days_before_month, 14);
}

/// The number of days in the given month.
pub fn days_in_month_of(year: u16, month: u8) -> (r: u8)
    requires
        1 <= month <= 12,
    ensures
        r as int == days_in_month(year as int, month as int),
{
    if month == 2 {
        if (year % 4 == 0 && year % 100 != 0) || year % 400 == 0 {
            29
        } else {
            28
        }
    } else if month == 4 || month == 6 || month == 9 || month == 11 {
        30
    } else {
        31
    }
}

/// The instant one second before `t`, with the milliseconds kept; the zero
/// instant, which has no predecessor, stays itself.  What this value means
/// is stated by [`Timestamp::minus_one_second`]: its second index is one
/// less than `t`'s.
pub open spec fn spec_prev_second(t: Timestamp) -> Timestamp {
    if t.second > 0 {
        Timestamp { second: (t.second - 1) as u8, ..t }
    } else if t.minute > 0 {
        Timestamp { minute: (t.minute - 1) as u8, second: 59, ..t }
    } else if t.hour > 0 {
        Timestamp { hour: (t.hour - 1) as u8, minute: 59, second: 59, ..t }
    } else if t.day > 1 {
        Timestamp { day: (t.day - 1) as u8, hour: 23, minute: 59, second: 59, ..t }
    } else if t.month > 1 {
        Timestamp {
            month: (t.month - 1) as u8,
            day: days_in_month(t.year as int, t.month as int - 1) as u8,
            hour: 23,
            minute: 59,
            second: 59,
            ..t
        }
    } else if t.year > 0 {
        Timestamp { year: (t.year - 1) as u16, month: 12, day: 31, hour: 23, minute: 59, second: 59, ..t }
    } else {
        t
    }
}

impl Timestamp {
    /// The instant one second earlier, with the milliseconds kept; the zero
    /// instant, which has no predecessor, is returned unchanged.
    pub fn minus_one_second(&self) -> (r: Timestamp)
        requires
            self.wf(),
        ensures
            r == spec_prev_second(*self),
            r.wf(),
            r.millis == self.millis,
            self.second_index() > 0 ==> r.second_index() == self.second_index() - 1,
            self.second_index() == 0 ==> r == *self,
    {
        proof {
            lemma_days_before_year_nonneg(self.year as int);
            lemma_days_before_month_nonneg(self.year as int, self.month as int);
        }
        let mut t = *self;
        if t.second > 0 {
            t.second = t.second - 1;
            return t;
        }
        t.second = 59;
        if t.minute > 0 {
            t.minute = t.minute - 1;
            return t;
        }
        t.minute = 59;
        if t.hour > 0 {
            t.hour = t.hour - 1;
            return t;
        }
        t.hour = 23;
        if t.day > 1 {
            t.day = t.day - 1;
            return t;
        }
        if t.month > 1 {
            t.month = t.month - 1;
            t.day = days_in_month_of(t.year, t.month);
            proof {
                lemma_days_before_month_nonneg(self.year as int, self.month as int - 1);
                assert(days_before_month(self.year as int, self.month as int)
                    == days_before_month(self.year as int, self.month as int - 1)
                    + days_in_month(self.year as int, self.month as int - 1));
                assert(self.second_index() > 0);
            }
            return t;
        }
        if t.year > 0 {
            t.year = t.year - 1;
            t.month = 12;
            t.day = 31;
            proof {
                lemma_year_days(t.year as int);
                lemma_days_before_month_nonneg(t.year as int, 12);
                lemma_days_before_year_nonneg(t.year as int);
                assert(days_before_month(t.year as int, 13) == days_before_month(
                    t.year as int,
                    12,
                ) + days_in_month(t.year as int, 12));
                assert(days_before_year(self.year as int) == days_before_year(t.year as int)
                    + days_in_year(t.year as int));
            }
            return t;
        }
        // Year 0, January 1st, 00:00:00: the zero instant.
        *self
    }
}

/// The byte of the decimal digit `v`.
pub open spec fn dig(v: int) -> u8
    recommends
        0 <= v <= 9,
{
    (48 + v) as u8
}

pub open spec fn is_digit(b: u8) -> bool {
    48 <= b <= 57
}

/// The value of the digit byte `b`.
pub open spec fn digval(b: u8) -> int
    recommends
        is_digit(b),
{
    b - 48
}

/// The 17 wire bytes of a timestamp: `YYYYMMDDHHMMSSfff`.
pub open spec fn spec_ts_bytes(t: Timestamp) -> Seq<u8> {
    let y = t.year as int;
    let mo = t.month as int;
    let d = t.day as int;
    let h = t.hour as int;
    let mi = t.minute as int;
    let s = t.second as int;
    let ms = t.millis as int;
    seq![
        dig(y / 1000),
        dig((y / 100) % 10),
        dig((y / 10) % 10),
        dig(y % 10),
        dig(mo / 10),
        dig(mo % 10),
        dig(d / 10),
        dig(d % 10),
        dig(h / 10),
        dig(h % 10),
        dig(mi / 10),
        dig(mi % 10),
        dig(s / 10),
        dig(s % 10),
        dig(ms / 100),
        dig((ms / 10) % 10),
        dig(ms % 10),
    ]
}

/// Parses 17 wire bytes as a timestamp: all bytes must be digits and the
/// fields must satisfy the calendar invariant.
pub open spec fn spec_parse_timestamp(s: Seq<u8>) -> Option<Timestamp>
    recommends
        s.len() == 17,
{
    if forall|i: int| 0 <= i < 17 ==> is_digit(#[trigger] s[i]) {
        let t = Timestamp {
            year: (digval(s[0]) * 1000 + digval(s[1]) * 100 + digval(s[2]) * 10 + digval(
                s[3],
            )) as u16,
            month: (digval(s[4]) * 10 + digval(s[5])) as u8,
            day: (digval(s[6]) * 10 + digval(s[7])) as u8,
            hour: (digval(s[8]) * 10 + digval(s[9])) as u8,
            minute: (digval(s[10]) * 10 + digval(s[11])) as u8,
            second: (digval(s[12]) * 10 + digval(s[13])) as u8,
            millis: (digval(s[14]) * 100 + digval(s[15]) * 10 + digval(s[16])) as u16,
        };
        if t.wf() {
            Some(t)
        } else {
            None
        }
    } else {
        None
    }
}

proof fn lemma_digits2(v: int)
    requires
        0 <= v < 100,
    ensures
        (v / 10) * 10 + v % 10 == v,
        0 <= v / 10 <= 9,
        0 <= v % 10 <= 9,
{
}

proof fn lemma_digits3(v: int)
    requires
        0 <= v < 1000,
    ensures
        (v / 100) * 100 + ((v / 10) % 10) * 10 + v % 10 == v,
        0 <= v / 100 <= 9,
        0 <= (v / 10) % 10 <= 9,
        0 <= v % 10 <= 9,
{
    lemma_div_denominator(v, 10, 10);
    assert(v / 10 == 10 * (v / 100) + (v / 10) % 10);
}

proof fn lemma_digits4(v: int)
    requires
        0 <= v < 10000,
    ensures
        (v / 1000) * 1000 + ((v / 100) % 10) * 100 + ((v / 10) % 10) * 10 + v % 10 == v,
        0 <= v / 1000 <= 9,
        0 <= (v / 100) % 10 <= 9,
        0 <= (v / 10) % 10 <= 9,
        0 <= v % 10 <= 9,
{
    lemma_div_denominator(v, 10, 10);
    lemma_div_denominator(v, 100, 10);
    assert(v / 10 == 10 * (v / 100) + (v / 10) % 10);
    assert(v / 100 == 10 * (v / 1000) + (v / 100) % 10);
}

/// Parsing the wire bytes of a valid timestamp gives it back.
pub proof fn lemma_timestamp_round_trip(t: Timestamp)
    requires
        t.wf(),
    ensures
        spec_parse_timestamp(spec_ts_bytes(t)) == Some(t),
{
    let s = spec_ts_bytes(t);
    let y = t.year as int;
    let mo = t.month as int;
    let d = t.day as int;
    let h = t.hour as int;
    let mi = t.minute as int;
    let sec = t.second as int;
    let ms = t.millis as int;
    lemma_digits4(y);
    lemma_digits2(mo);
    lemma_digits2(d);
    lemma_digits2(h);
    lemma_digits2(mi);
    lemma_digits2(sec);
    lemma_digits3(ms);
    assert forall|i: int| 0 <= i < 17 implies is_digit(#[trigger] s[i]) by {
        assert(is_digit(s[0]) && is_digit(s[1]) && is_digit(s[2]) && is_digit(s[3]) && is_digit(
            s[4],
        ) && is_digit(s[5]) && is_digit(s[6]) && is_digit(s[7]) && is_digit(s[8]) && is_digit(
            s[9],
        ) && is_digit(s[10]) && is_digit(s[11]) && is_digit(s[12]) && is_digit(s[13]) && is_digit(
            s[14],
        ) && is_digit(s[15]) && is_digit(s[16]));
    }
    assert(digval(s[0]) * 1000 + digval(s[1]) * 100 + digval(s[2]) * 10 + digval(s[3]) == y);
    assert(digval(s[4]) * 10 + digval(s[5]) == mo);
    assert(digval(s[6]) * 10 + digval(s[7]) == d);
    assert(digval(s[8]) * 10 + digval(s[9]) == h);
    assert(digval(s[10]) * 10 + digval(s[11]) == mi);
    assert(digval(s[12]) * 10 + digval(s[13]) == sec);
    assert(digval(s[14]) * 100 + digval(s[15]) * 10 + digval(s[16]) == ms);
}

/// Appends the two decimal digits of `v` to `out`.
fn push_digits2(out: &mut Vec<u8>, v: u8)
    requires
        v < 100,
    ensures
        final(out)@ == old(out)@ + seq![dig(v as int / 10), dig(v as int % 10)],
{
    out.push(v / 10 + 48);
    out.push(v % 10 + 48);
    assert(out@ =~= old(out)@ + seq![dig(v as int / 10), dig(v as int % 10)]);
}

/// Appends the three decimal digits of `v` to `out`.
fn push_digits3(out: &mut Vec<u8>, v: u16)
    requires
        v < 1000,
    ensures
        final(out)@ == old(out)@ + seq![
            dig(v as int / 100),
            dig((v as int / 10) % 10),
            dig(v as int % 10),
        ],
{
    out.push((v / 100) as u8 + 48);
    out.push(((v / 10) % 10) as u8 + 48);
    out.push((v % 10) as u8 + 48);
    assert(out@ =~= old(out)@ + seq![
        dig(v as int / 100),
        dig((v as int / 10) % 10),
        dig(v as int % 10),
    ]);
}

/// Appends the four decimal digits of `v` to `out`.
fn push_digits4(out: &mut Vec<u8>, v: u16)
    requires
        v < 10000,
    ensures
        final(out)@ == old(out)@ + seq![
            dig(v as int / 1000),
            dig((v as int / 100) % 10),
            dig((v as int / 10) % 10),
            dig(v as int % 10),
        ],
{
    out.push((v / 1000) as u8 + 48);
    out.push(((v / 100) % 10) as u8 + 48);
    out.push(((v / 10) % 10) as u8 + 48);
    out.push((v % 10) as u8 + 48);
    assert(out@ =~= old(out)@ + seq![
        dig(v as int / 1000),
        dig((v as int / 100) % 10),
        dig((v as int / 10) % 10),
        dig(v as int % 10),
    ]);
}

/// Appends the 17 wire bytes of `t` to `out`.
pub fn write_timestamp(out: &mut Vec<u8>, t: &Timestamp)
    requires
        t.wf(),
    ensures
        final(out)@ == old(out)@ + spec_ts_bytes(*t),
{
    push_digits4(out, t.year);
    push_digits2(out, t.month);
    push_digits2(out, t.day);
    push_digits2(out, t.hour);
    push_digits2(out, t.minute);
    push_digits2(out, t.second);
    push_digits3(out, t.millis);
    assert(out@ =~= old(out)@ + spec_ts_bytes(*t));
}

/// Reads the 17 bytes at offset `i` of `s` as a timestamp.
pub fn read_timestamp(s: &Vec<u8>, i: usize) -> (r: Option<Timestamp>)
    requires
        i + 17 <= s@.len(),
    ensures
        ({
            let sub = s@.subrange(i as int, i as int + 17);
            match r {
                Some(t) => spec_parse_timestamp(sub) == Some(t) && t.wf(),
                None => spec_parse_timestamp(sub) is None,
            }
        }),
{
    let ghost sub = s@.subrange(i as int, i as int + 17);
    let len = s.len();
    assert(i + 17 <= len);
    let mut j: usize = 0;
    while j < 17
        invariant
            j <= 17,
            i + 17 <= s@.len(),
            s@.len() <= usize::MAX,
            sub == s@.subrange(i as int, i as int + 17),
            forall|k: int| 0 <= k < j ==> is_digit(#[trigger] sub[k]),
        decreases 17 - j,
    {
        let b = s[i + j];
        assert(b == sub[j as int]);
        if b < 48 || b > 57 {
            assert(!is_digit(sub[j as int]));
            return None;
        }
        j = j + 1;
    }
    let year: u16 = ((s[i] - 48) as u16) * 1000 + ((s[i + 1] - 48) as u16) * 100 + ((s[i + 2]
        - 48) as u16) * 10 + (s[i + 3] - 48) as u16;
    let month: u8 = (s[i + 4] - 48) * 10 + (s[i + 5] - 48);
    let day: u8 = (s[i + 6] - 48) * 10 + (s[i + 7] - 48);
    let hour: u8 = (s[i + 8] - 48) * 10 + (s[i + 9] - 48);
    let minute: u8 = (s[i + 10] - 48) * 10 + (s[i + 11] - 48);
    let second: u8 = (s[i + 12] - 48) * 10 + (s[i + 13] - 48);
    let millis: u16 = ((s[i + 14] - 48) as u16) * 100 + ((s[i + 15] - 48) as u16) * 10 + (s[i + 16]
        - 48) as u16;
    let t = Timestamp { year, month, day, hour, minute, second, millis };
    assert forall|k: int| 0 <= k < 17 implies is_digit(#[trigger] sub[k]) by {}
    assert(sub[0] == s@[i as int] && sub[1] == s@[i as int + 1] && sub[2] == s@[i as int + 2]
        && sub[3] == s@[i as int + 3] && sub[4] == s@[i as int + 4] && sub[5] == s@[i as int + 5]
        && sub[6] == s@[i as int + 6] && sub[7] == s@[i as int + 7] && sub[8] == s@[i as int + 8]
        && sub[9] == s@[i as int + 9] && sub[10] == s@[i as int + 10] && sub[11] == s@[i as int
        + 11] && sub[12] == s@[i as int + 12] && sub[13] == s@[i as int + 13] && sub[14] == s@[i
        as int + 14] && sub[15] == s@[i as int + 15] && sub[16] == s@[i as int + 16]);
    if month < 1 || month > 12 {
        return None;
    }
    if day < 1 || day > days_in_month_of(year, month) {
        return None;
    }
    if hour > 23 || minute > 59 || second > 59 {
        return None;
    }
    assert(t.wf());
    Some(t)
}

} // verus!
