//! Proleptic Gregorian dates and their Julian day numbers.

use vstd::prelude::*;

verus! {

use vstd::arithmetic::div_mod::lemma_fundamental_div_mod;
use vstd::arithmetic::div_mod::lemma_fundamental_div_mod_converse_div;
use vstd::arithmetic::div_mod::lemma_fundamental_div_mod_converse_mod;
use vstd::arithmetic::div_mod::lemma_mod_division_less_than_divisor;
use vstd::arithmetic::div_mod::lemma_mod_multiples_vanish;

/// Reasons a calendar operation can fail.
#[derive(Clone, Copy, Debug, PartialEq, Eq, Structural)]
pub enum CalendarError {
    BadYear,
    BadMonth,
    BadDay,
    BadJulian,
    BadFract,
}

/// Earliest supported year.
pub const YEAR_MIN: i32 = -4799;

/// Smallest modified Julian day number `from_julian` accepts: the day
/// number of `YEAR_MIN`-01-01, the earliest valid date.
pub const MJD_MIN: i64 = -2431739;

/// Largest modified Julian day number `from_julian` accepts; the day
/// containing Julian date 1e9.
pub const MJD_MAX: i64 = 997599999;

/// A validated proleptic Gregorian calendar date.
#[derive(Clone, Copy, Debug, PartialEq, Eq, Structural)]
pub struct GregorianDate {
    pub year: i32,
    pub month: i32,
    pub day: i32,
}

/// The Gregorian leap-year rule: divisible by 4, except centuries not
/// divisible by 400.
pub open spec fn is_leap_year(y: int) -> bool {
    y % 4 == 0 && (y % 100 != 0 || y % 400 == 0)
}

/// Number of days of month `m` of year `y`.
pub open spec fn days_in_month(y: int, m: int) -> int {
    if m == 2 {
        if is_leap_year(y) {
            29
        } else {
            28
        }
    } else if m == 4 || m == 6 || m == 9 || m == 11 {
        30
    } else {
        31
    }
}

/// A (year, month, day) triple that `GregorianDate::new` accepts.
pub open spec fn valid_date(y: int, m: int, d: int) -> bool {
    &&& y >= YEAR_MIN as int
    &&& 1 <= m <= 12
    &&& 1 <= d <= days_in_month(y, m)
}

/// The modified Julian day number of a date (the Julian day number of the
/// noon of that day, less 2400001), by the Fliegel-Van Flandern integer
/// algorithm.
pub open spec fn mjd_number(y: int, m: int, d: int) -> int {
    let my: int = if m <= 2 { -1 } else { 0 };
    let yy = y + my;
    1461 * (yy + 4800) / 4 + 367 * (m - 2 - 12 * my) / 12 - 3 * ((yy + 4900) / 100) / 4 + d
        - 2432076
}

/// The (year, month, day) triple recovered from a modified Julian day
/// number by the inverse Fliegel-Van Flandern algorithm.
pub open spec fn date_of_mjd(djm: int) -> (int, int, int) {
    let jd = djm + 2400001;
    let l0 = jd + 68569;
    let n = 4 * l0 / 146097;
    let l1 = l0 - (146097 * n + 3) / 4;
    let i = 4000 * (l1 + 1) / 1461001;
    let l2 = l1 - 1461 * i / 4 + 31;
    let k = 80 * l2 / 2447;
    let d = l2 - 2447 * k / 80;
    let l3 = k / 11;
    let m = k + 2 - 12 * l3;
    let y = 100 * (n - 49) + i + l3;
    (y, m, d)
}

impl GregorianDate {
    /// The date satisfies the calendar rules.
    pub open spec fn valid(self) -> bool {
        valid_date(self.year as int, self.month as int, self.day as int)
    }

    /// Modified Julian day number of the date.  The full Julian date of
    /// the day's midnight is 2400000.5 + the result.
    pub fn to_julian(&self) -> (djm: i64)
        requires
            self.valid(),
        ensures
            djm == mjd_number(self.year as int, self.month as int, self.day as int),
    {
        let year = self.year as i64;
        let month = self.month as i64;
        let day = self.day as i64;
        let my: i64 = if month <= 2 { -1 } else { 0 };
        let iypmy: i64 = year + my;
        1461 * (iypmy + 4800) / 4 + 367 * (month - 2 - 12 * my) / 12 - 3 * ((iypmy + 4900) / 100)
            / 4 + day - 2432076
    }

    /// The date of the day with the given modified Julian day number, or
    /// `BadJulian` outside the supported range.
    pub fn from_julian(djm: i64) -> (r: Result<Self, CalendarError>)
        ensures
            MJD_MIN <= djm <= MJD_MAX ==> (match r {
                Ok(d) => {
                    &&& (d.year as int, d.month as int, d.day as int) == date_of_mjd(djm as int)
                    &&& mjd_number(d.year as int, d.month as int, d.day as int) == djm
                    &&& d.valid()
                },
                Err(_) => false,
            }),
            !(MJD_MIN <= djm <= MJD_MAX) ==> r == Err::<Self, CalendarError>(
                CalendarError::BadJulian,
            ),
    {
        if djm < MJD_MIN || djm > MJD_MAX {
            return Err(CalendarError::BadJulian);
        }
        proof {
            lemma_mjd_round_trip(djm as int);
        }
        let jd: i64 = djm + 2400001;
        let l0: i64 = jd + 68569;
        let n: i64 = 4 * l0 / 146097;
        let l1: i64 = l0 - (146097 * n + 3) / 4;
        let i: i64 = 4000 * (l1 + 1) / 1461001;
        let l2: i64 = l1 - 1461 * i / 4 + 31;
        let k: i64 = 80 * l2 / 2447;
        let d: i64 = l2 - 2447 * k / 80;
        let l3: i64 = k / 11;
        let m: i64 = k + 2 - 12 * l3;
        let y: i64 = 100 * (n - 49) + i + l3;
        Ok(Self { year: y as i32, month: m as i32, day: d as i32 })
    }

    /// Construct a date, validating the year, month and day.
    pub fn new(year: i32, month: i32, day: i32) -> (r: Result<Self, CalendarError>)
        ensures
            match r {
                Ok(d) => {
                    &&& valid_date(year as int, month as int, day as int)
                    &&& d.year == year
                    &&& d.month == month
                    &&& d.day == day
                },
                Err(e) => {
                    &&& !valid_date(year as int, month as int, day as int)
                    &&& (e == CalendarError::BadYear <==> year < YEAR_MIN)
                    &&& (e == CalendarError::BadMonth <==> (year >= YEAR_MIN && !(1 <= month <= 12)))
                    &&& (e == CalendarError::BadDay <==> (year >= YEAR_MIN && 1 <= month <= 12
                        && !(1 <= day <= days_in_month(year as int, month as int))))
                },
            },
    {
        if year < YEAR_MIN {
            return Err(CalendarError::BadYear);
        }
        if month < 1 || month > 12 {
            return Err(CalendarError::BadMonth);
        }
        let ndays = days_in_month_of(year, month);
        if day < 1 || day > ndays {
            return Err(CalendarError::BadDay);
        }
        Ok(Self { year, month, day })
    }
}

/// Number of days of month `m` of year `y`, as executable code.
pub fn days_in_month_of(year: i32, month: i32) -> (r: i32)
    requires
        1 <= month <= 12,
    ensures
        r == days_in_month(year as int, month as int),
{
    if month == 2 {
        if leap_year(year) {
            29
        } else {
            28
        }
    } else if month == 4 || month == 6 || month == 9 || month == 11 {
        30
    } else {
        31
    }
}

/// Whether `year` is a Gregorian leap year, as executable code.
pub fn leap_year(year: i32) -> (r: bool)
    ensures
        r == is_leap_year(year as int),
{
    (year % 4 == 0) && (year % 100 != 0 || year % 400 == 0)
}

/// Split a count of seconds since the day's midnight into hours, minutes
/// and seconds of the clock.  A count of exactly 86400 (a full day) is
/// accepted and yields a reading of 24:00:00, matching the behaviour of
/// the fraction-of-day conversion at fraction one.
pub fn clock_of_day_seconds(t: u32) -> (r: (u8, u8, u8))
    requires
        t <= 86400,
    ensures
        r.0 == t as int / 3600,
        r.1 == (t as int % 3600) / 60,
        r.2 == t as int % 60,
        3600 * r.0 + 60 * r.1 + r.2 == t,
        r.0 <= 24,
        r.1 < 60,
        r.2 < 60,
        t < 86400 ==> r.0 < 24,
{
    let hour = (t / 3600) as u8;
    let minute = ((t % 3600) / 60) as u8;
    let second = (t % 60) as u8;
    (hour, minute, second)
}

/// The count of seconds since midnight of a clock reading.
pub fn day_seconds_of_clock(hour: u8, minute: u8, second: u8) -> (t: u32)
    requires
        hour < 24,
        minute < 60,
        second < 60,
    ensures
        t == 3600 * hour + 60 * minute + second,
        t < 86400,
{
    3600 * (hour as u32) + 60 * (minute as u32) + (second as u32)
}

/// Round trip: splitting a second count into a clock reading and
/// reassembling it recovers the count.
pub proof fn lemma_clock_round_trip(t: int)
    requires
        0 <= t < 86400,
    ensures
        3600 * (t / 3600) + 60 * ((t % 3600) / 60) + t % 60 == t,
{
}

/// Round trip: recovering a date from an in-range modified Julian day
/// number yields a valid date whose day number is the input.
pub proof fn lemma_mjd_round_trip(djm: int)
    requires
        MJD_MIN <= djm <= MJD_MAX,
    ensures
        ({
            let (y, m, d) = date_of_mjd(djm);
            &&& mjd_number(y, m, d) == djm
            &&& valid_date(y, m, d)
        }),
{
    let jd = djm + 2400001;
    let l0 = jd + 68569;
    assert(36831 <= l0 <= 1000068569);

    let n = 4 * l0 / 146097;
    let s = 4 * l0 % 146097;
    lemma_fundamental_div_mod(4 * l0, 146097);
    lemma_mod_division_less_than_divisor(4 * l0, 146097);
    assert(1 <= n <= 27382);

    let tq = (146097 * n + 3) / 4;
    let u = (146097 * n + 3) % 4;
    lemma_fundamental_div_mod(146097 * n + 3, 4);
    lemma_mod_division_less_than_divisor(146097 * n + 3, 4);
    assert(146097 * n + 3 == 4 * (36524 * n) + (n + 3));
    lemma_mod_multiples_vanish(36524 * n, n + 3, 4);
    assert(u == (n + 3) % 4);

    let l1 = l0 - tq;
    assert(4 * l1 == s + u - 3);
    assert(0 <= l1 <= 36524);

    let i = 4000 * (l1 + 1) / 1461001;
    let v = 4000 * (l1 + 1) % 1461001;
    lemma_fundamental_div_mod(4000 * (l1 + 1), 1461001);
    lemma_mod_division_less_than_divisor(4000 * (l1 + 1), 1461001);
    assert(0 <= i <= 99);

    let w = 1461 * i / 4;
    let x0 = 1461 * i % 4;
    lemma_fundamental_div_mod(1461 * i, 4);
    lemma_mod_division_less_than_divisor(1461 * i, 4);
    assert(1461 * i == 4 * (365 * i) + i);
    lemma_mod_multiples_vanish(365 * i, i, 4);
    lemma_mod_division_less_than_divisor(i, 4);
    assert(x0 == i % 4);

    let l2 = l1 - w + 31;
    assert(16000 * (l1 - w) == 4 * i + 4 * v + 4000 * x0 - 16000);
    assert(l1 - w >= 0) by {
        if l1 - w <= -1 {
            assert(4 * i + 4 * v + 4000 * x0 <= 0);
            assert(i == 0 && v == 0 && x0 == 0);
            assert(4000 * (l1 + 1) == 0);
        }
    }
    assert(l1 - w <= 365);
    assert(31 <= l2 <= 396);

    let k = 80 * l2 / 2447;
    let t = 80 * l2 % 2447;
    lemma_fundamental_div_mod(80 * l2, 2447);
    lemma_mod_division_less_than_divisor(80 * l2, 2447);
    assert(1 <= k <= 12);

    let g = 2447 * k / 80;
    let h = 2447 * k % 80;
    lemma_fundamental_div_mod(2447 * k, 80);
    lemma_mod_division_less_than_divisor(2447 * k, 80);
    let d = l2 - g;
    assert(80 * d == h + t);
    assert(h > 0);
    assert(1 <= d <= 31);

    let l3 = k / 11;
    assert(l3 == if k >= 11 { 1int } else { 0int });
    let m = k + 2 - 12 * l3;
    let y = 100 * (n - 49) + i + l3;
    assert(1 <= m <= 12);
    assert(m == 2 <==> k == 12);
    assert(m == 4 || m == 6 || m == 9 || m == 11 <==> k == 2 || k == 4 || k == 7 || k == 9);

    // Months of thirty days.
    if k == 2 || k == 4 || k == 7 || k == 9 {
        assert(d <= 30);
    }

    // February, and the leap-day corner.
    if k == 12 {
        assert(d <= 29);
        if d == 29 {
            assert(l2 == 396);
            assert(l1 - w == 365);
            assert(4 * i + 4 * v + 4000 * x0 == 5856000);
            assert(x0 == 3);
            assert(y == 4 * (25 * (n - 49)) + (i + 1));
            lemma_mod_multiples_vanish(25 * (n - 49), i + 1, 4);
            assert(y % 4 == (i + 1) % 4);
            lemma_fundamental_div_mod(i, 4);
            assert(i + 1 == 4 * (i / 4 + 1) + 0);
            lemma_fundamental_div_mod_converse_mod(i + 1, 4, i / 4 + 1, 0);
            assert(y % 4 == 0);
            if i == 99 {
                assert(v == 1460901);
                assert(4000 * (l1 + 1) == 146100000);
                assert(l1 == 36524);
                assert(s == 146099 - u);
                assert(u == 3);
                let f = n / 4;
                let c = n % 4;
                lemma_fundamental_div_mod(n, 4);
                lemma_mod_division_less_than_divisor(n, 4);
                if c == 1 {
                    lemma_fundamental_div_mod_converse_mod(n + 3, 4, f + 1, 0);
                    assert(false);
                } else if c == 2 {
                    lemma_fundamental_div_mod_converse_mod(n + 3, 4, f + 1, 1);
                    assert(false);
                } else if c == 3 {
                    lemma_fundamental_div_mod_converse_mod(n + 3, 4, f + 1, 2);
                    assert(false);
                }
                assert(c == 0);
                assert(y == 400 * (f - 12));
                lemma_mod_multiples_vanish(f - 12, 0, 400);
                assert(y % 400 == 0);
            } else {
                assert(y == 100 * (n - 49) + (i + 1));
                lemma_mod_multiples_vanish(n - 49, i + 1, 100);
                assert(y % 100 == (i + 1) % 100);
                lemma_fundamental_div_mod_converse_mod(i + 1, 100, 0, i + 1);
                assert(y % 100 != 0);
            }
            assert(is_leap_year(y));
        }
        assert(d <= days_in_month(y, m));
    }
    assert(1 <= d <= days_in_month(y, m));

    // The forward formula telescopes back to the input.
    let myr: int = if m <= 2 { -1 } else { 0 };
    assert(myr == -l3);
    let e2 = y + myr + 4800;
    assert(e2 == 100 * (n - 1) + i);
    let mm2 = m - 2 - 12 * myr;
    assert(mm2 == k);

    assert(1461 * e2 == 4 * (36525 * (n - 1) + w) + x0);
    lemma_fundamental_div_mod_converse_div(1461 * e2, 4, 36525 * (n - 1) + w, x0);
    assert(e2 + 100 == 100 * n + i);
    lemma_fundamental_div_mod_converse_div(e2 + 100, 100, n, i);

    let z = 3 * n % 4;
    let q3 = 3 * n / 4;
    lemma_fundamental_div_mod(3 * n, 4);
    lemma_mod_division_less_than_divisor(3 * n, 4);
    // u + z == 3, case by case over n % 4.
    let f = n / 4;
    let c = n % 4;
    lemma_fundamental_div_mod(n, 4);
    lemma_mod_division_less_than_divisor(n, 4);
    if c == 0 {
        lemma_fundamental_div_mod_converse_mod(n + 3, 4, f, 3);
        lemma_fundamental_div_mod_converse_mod(3 * n, 4, 3 * f, 0);
    } else if c == 1 {
        lemma_fundamental_div_mod_converse_mod(n + 3, 4, f + 1, 0);
        lemma_fundamental_div_mod_converse_mod(3 * n, 4, 3 * f, 3);
    } else if c == 2 {
        lemma_fundamental_div_mod_converse_mod(n + 3, 4, f + 1, 1);
        lemma_fundamental_div_mod_converse_mod(3 * n, 4, 3 * f + 1, 2);
    } else {
        lemma_fundamental_div_mod_converse_mod(n + 3, 4, f + 1, 2);
        lemma_fundamental_div_mod_converse_mod(3 * n, 4, 3 * f + 2, 1);
    }
    assert(u + z == 3);

    // The month contribution agrees between the two tables.
    assert(367 * mm2 / 12 == g);

    assert(4 * (367 * mm2 / 12) + 4 * d == s + u - 3 - 4 * w + 124);
    assert(4 * mjd_number(y, m, d) == 4 * djm);
    assert(mjd_number(y, m, d) == djm);

    assert(y >= -4799) by {
        if y <= -4800 {
            assert(n == 1 && i == 0 && l3 == 0);
            assert(m >= 3);
            assert(mjd_number(y, m, d) <= -2431740);
        }
    }
    assert(valid_date(y, m, d));
}

/// Round trip: converting a valid date to its modified Julian day number
/// and back recovers the same year, month and day.
pub proof fn lemma_julian_round_trip(y: int, m: int, d: int)
    requires
        valid_date(y, m, d),
    ensures
        date_of_mjd(mjd_number(y, m, d)) == (y, m, d),
{
    let my: int = if m <= 2 { -1 } else { 0 };
    let yy = y + my;
    let e = yy + 4800;
    let mm = m - 2 - 12 * my;
    assert(e >= 0);
    assert(1 <= mm <= 12);

    // Split the March-based year into centuries: e == 100 * q + r.
    let q = e / 100;
    let r = e % 100;
    lemma_fundamental_div_mod(e, 100);
    lemma_mod_division_less_than_divisor(e, 100);

    // Split the century index: q == 4 * a + b.
    let a = q / 4;
    let b = q % 4;
    lemma_fundamental_div_mod(q, 4);
    lemma_mod_division_less_than_divisor(q, 4);
    assert(q >= 0 && a >= 0);

    // P and rp: the year-in-century contribution, 1461 * r == 4 * P + rp,
    // where rp equals r % 4.
    let p = 1461 * r / 4;
    let rp = 1461 * r % 4;
    lemma_fundamental_div_mod(1461 * r, 4);
    lemma_mod_division_less_than_divisor(1461 * r, 4);
    assert(1461 * r == 4 * (365 * r) + r);
    lemma_mod_multiples_vanish(365 * r, r, 4);
    lemma_mod_division_less_than_divisor(r, 4);
    assert(rp == r % 4);

    // M and rm: the month contribution, 367 * mm == 12 * M + rm.
    let mo = 367 * mm / 12;
    let rm = 367 * mm % 12;
    lemma_fundamental_div_mod(367 * mm, 12);
    lemma_mod_division_less_than_divisor(367 * mm, 12);
    assert(30 <= mo <= 367);

    // Q3 and rq: the century leap correction, 3 * (q + 1) == 4 * q3 + rq.
    let q3 = 3 * (q + 1) / 4;
    let rq = 3 * (q + 1) % 4;
    lemma_fundamental_div_mod(3 * (q + 1), 4);
    lemma_mod_division_less_than_divisor(3 * (q + 1), 4);
    // q3 == 3 * a + (3 * b + 3) / 4, case by case over b.
    if b == 0 {
        lemma_fundamental_div_mod_converse_div(3 * (q + 1), 4, 3 * a, 3);
    } else if b == 1 {
        lemma_fundamental_div_mod_converse_div(3 * (q + 1), 4, 3 * a + 1, 2);
    } else if b == 2 {
        lemma_fundamental_div_mod_converse_div(3 * (q + 1), 4, 3 * a + 2, 1);
    } else {
        lemma_fundamental_div_mod_converse_div(3 * (q + 1), 4, 3 * a + 3, 0);
    }
    assert(q - a - q3 == 0);

    // The three divisions inside mjd_number.
    assert(1461 * e == 4 * (36525 * q + p) + rp);
    lemma_fundamental_div_mod_converse_div(1461 * e, 4, 36525 * q + p, rp);
    assert(1461 * (yy + 4800) / 4 == 36525 * q + p);
    lemma_fundamental_div_mod_converse_div(e + 100, 100, q + 1, r);
    assert((yy + 4900) / 100 == q + 1);
    assert(3 * ((yy + 4900) / 100) / 4 == q3);

    let mjd = mjd_number(y, m, d);
    assert(mjd == 36525 * q + p + mo + d - q3 - 2432076);
    let jd = mjd + 2400001;
    let l0 = jd + 68569;
    assert(l0 == 36525 * q + p + mo + d + 36494 - q3);

    // In the leap-day corner, the leap rule pins r and q modulo 4.
    if mm == 12 && d >= 29 {
        assert(m == 2);
        assert(is_leap_year(y));
        assert(y == 4 * (25 * q - 1200) + (r + 1));
        lemma_mod_multiples_vanish(25 * q - 1200, r + 1, 4);
        assert(y % 4 == (r + 1) % 4);
        if r % 4 != 3 {
            lemma_fundamental_div_mod(r, 4);
            assert(r == 4 * (r / 4) + r % 4);
            lemma_fundamental_div_mod_converse_mod(r + 1, 4, r / 4, r % 4 + 1);
            assert(false);
        }
        assert(rp == 3);
        if r == 99 {
            assert(y == 100 * (q - 47));
            lemma_mod_multiples_vanish(q - 47, 0, 100);
            assert(y % 100 == 0);
            assert(y % 400 == 0);
            assert(y == 400 * (a - 12) + 100 * (b + 1));
            lemma_mod_multiples_vanish(a - 12, 100 * (b + 1), 400);
            assert(y % 400 == (100 * (b + 1)) % 400);
            if b < 3 {
                lemma_fundamental_div_mod_converse_mod(100 * (b + 1), 400, 0, 100 * (b + 1));
                assert(false);
            }
            assert(b == 3);
            lemma_fundamental_div_mod_converse_mod(3 * (q + 1), 4, 3 * a + 3, 0);
            assert(rq == 0);
        }
    }

    // Step 1: the century is recovered.
    let rem_n = 4 * l0 - 146097 * (q + 1);
    assert(rem_n == 4 * p + 4 * mo + 4 * d + rq - 124);
    assert(4 * p == 1461 * r - rp);
    assert(0 <= rem_n < 146097);
    lemma_fundamental_div_mod_converse_div(4 * l0, 146097, q + 1, rem_n);
    let n = 4 * l0 / 146097;
    assert(n == q + 1);

    // Step 2: the day within the century.
    assert(146097 * n + 3 == 4 * (36524 * q + a + 36525) + b);
    lemma_fundamental_div_mod_converse_div(146097 * n + 3, 4, 36524 * q + a + 36525, b);
    let l1 = l0 - (146097 * n + 3) / 4;
    assert(l1 == p + mo + d - 31);

    // Step 3: the year within the century is recovered.
    let rem_i = 4000 * (l1 + 1) - 1461001 * r;
    assert(rem_i == 4000 * mo + 4000 * d - 120000 - r - 1000 * rp);
    assert(0 <= rem_i < 1461001);
    lemma_fundamental_div_mod_converse_div(4000 * (l1 + 1), 1461001, r, rem_i);
    let i = 4000 * (l1 + 1) / 1461001;
    assert(i == r);

    // Step 4: the day within the year.
    let l2 = l1 - 1461 * i / 4 + 31;
    assert(1461 * i / 4 == p);
    assert(l2 == mo + d);

    // Step 5: the month is recovered.
    let rem_k = 80 * l2 - 2447 * mm;
    assert(rem_k == 80 * mo + 80 * d - 2447 * mm);
    assert(0 <= rem_k < 2447);
    lemma_fundamental_div_mod_converse_div(80 * l2, 2447, mm, rem_k);
    let k = 80 * l2 / 2447;
    assert(k == mm);

    // Step 6: the day is recovered.
    assert(2447 * mm / 80 == mo);
    assert(l2 - 2447 * k / 80 == d);

    // Step 7: month and year fall out of the March-based forms.
    let l3 = k / 11;
    assert(l3 == if m <= 2 { 1int } else { 0int });
    assert(k + 2 - 12 * l3 == m);
    assert(100 * (n - 49) + i + l3 == y);
}

/// Distinct valid dates have distinct modified Julian day numbers.
pub proof fn lemma_mjd_injective(y1: int, m1: int, d1: int, y2: int, m2: int, d2: int)
    requires
        valid_date(y1, m1, d1),
        valid_date(y2, m2, d2),
        mjd_number(y1, m1, d1) == mjd_number(y2, m2, d2),
    ensures
        y1 == y2 && m1 == m2 && d1 == d2,
{
    lemma_julian_round_trip(y1, m1, d1);
    lemma_julian_round_trip(y2, m2, d2);
}

} // verus!
