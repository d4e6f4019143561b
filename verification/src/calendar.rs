//! Calendar months on microsecond timestamps (UTC, proleptic Gregorian):
//! a loan's next payment falls due one calendar month after the last due
//! date, the day of the month kept where the month has it and otherwise
//! the month's last day (31 January, then 29 February in a leap year).

use vstd::prelude::*;

verus! {

/// A day, in microseconds.
pub const DAY_MICROS: i64 = 86_400_000_000;

/// The last timestamp whose month can be advanced: the start of the year
/// 200000.
pub const LAST_ADVANCEABLE: i64 = 6_249_223_180_800_000_000;

/// Whether `y` is a leap year.
pub open spec fn is_leap(y: int) -> bool {
    (y % 4 == 0 && y % 100 != 0) || y % 400 == 0
}

/// The number of days in month `m` of year `y`.
pub open spec fn days_in_month(y: int, m: int) -> int {
    if m == 2 {
        if is_leap(y) {
            29
        } else {
            28
        }
    } else if m == 4 || m == 6 || m == 9 || m == 11 {
        30
    } else {
        31
    }
}

/// The days from 1970-01-01 to year `y`, month `m`, day `d` (years from
/// 1 on; the usual count through 400-year eras, years starting in March).
pub open spec fn days_from_civil(y: int, m: int, d: int) -> int {
    let y2 = if m <= 2 {
        y - 1
    } else {
        y
    };
    let era = y2 / 400;
    let yoe = y2 - era * 400;
    let mp = if m > 2 {
        m - 3
    } else {
        m + 9
    };
    let doy = (153 * mp + 2) / 5 + d - 1;
    let doe = yoe * 365 + yoe / 4 - yoe / 100 + doy;
    era * 146097 + doe - 719468
}

/// The date (year, month, day) that is `z` days after 1970-01-01.
pub open spec fn civil_from_days(z: int) -> (int, int, int) {
    let z2 = z + 719468;
    let era = z2 / 146097;
    let doe = z2 - era * 146097;
    let yoe = (doe - doe / 1460 + doe / 36524 - doe / 146096) / 365;
    let y = yoe + era * 400;
    let doy = doe - (365 * yoe + yoe / 4 - yoe / 100);
    let mp = (5 * doy + 2) / 153;
    let d = doy - (153 * mp + 2) / 5 + 1;
    let m = if mp < 10 {
        mp + 3
    } else {
        mp - 9
    };
    (
        if m <= 2 {
            y + 1
        } else {
            y
        },
        m,
        d,
    )
}

/// The moment one calendar month after `t`: the same time of day, the
/// same day of the next month, or that month's last day when it is
/// shorter.
pub open spec fn add_month_spec(t: int) -> int {
    let z = t / DAY_MICROS as int;
    let tod = t % DAY_MICROS as int;
    let (y, m, d) = civil_from_days(z);
    let y2 = if m == 12 {
        y + 1
    } else {
        y
    };
    let m2 = if m == 12 {
        1
    } else {
        m + 1
    };
    let d2 = if d > days_in_month(y2, m2) {
        days_in_month(y2, m2)
    } else {
        d
    };
    days_from_civil(y2, m2, d2) * DAY_MICROS + tod
}

/// The date `z` days after 1970-01-01.
fn civil_of(z: i64) -> (r: (i64, i64, i64))
    requires
        0 <= z <= 72_328_972,
    ensures
        (r.0 as int, r.1 as int, r.2 as int) == civil_from_days(z as int),
        1969 <= r.0 <= 200_001,
        1 <= r.1 <= 12,
        1 <= r.2 <= 31,
{
    let z2: i64 = z + 719468;
    let era: i64 = z2 / 146097;
    let doe: i64 = z2 - era * 146097;
    let a: i64 = doe / 1460;
    let b: i64 = doe / 36524;
    let c: i64 = doe / 146096;
    let yoe: i64 = (doe - a + b - c) / 365;
    assert(0 <= yoe <= 399) by {
        assert(0 <= doe - a + b - c <= 146096 - 100 + 4);
    }
    let y: i64 = yoe + era * 400;
    let doy: i64 = doe - (365 * yoe + yoe / 4 - yoe / 100);
    assert(0 <= doy <= 365);
    let mp: i64 = (5 * doy + 2) / 153;
    assert(0 <= mp <= 11);
    let q: i64 = (153 * mp + 2) / 5;
    let d: i64 = doy - q + 1;
    assert(1 <= d <= 31);
    let m: i64 = if mp < 10 {
        mp + 3
    } else {
        mp - 9
    };
    let yy: i64 = if m <= 2 {
        y + 1
    } else {
        y
    };
    (yy, m, d)
}

/// The days from 1970-01-01 to year `y`, month `m`, day `d`.
fn days_of(y: i64, m: i64, d: i64) -> (r: i64)
    requires
        1969 <= y <= 200_002,
        1 <= m <= 12,
        1 <= d <= 31,
    ensures
        r == days_from_civil(y as int, m as int, d as int),
        -800 <= r <= 72_400_000,
{
    let y3: i64 = if m <= 2 {
        y - 1
    } else {
        y
    };
    let era: i64 = y3 / 400;
    let yoe: i64 = y3 - era * 400;
    let mp: i64 = if m > 2 {
        m - 3
    } else {
        m + 9
    };
    let doy: i64 = (153 * mp + 2) / 5 + d - 1;
    let doe: i64 = yoe * 365 + yoe / 4 - yoe / 100 + doy;
    assert(0 <= yoe < 400 && 4 <= era <= 500 && 0 <= doy <= 367);
    assert(era * 146097 + yoe * 365 == y3 * 365 + era * 97);
    era * 146097 + doe - 719468
}

/// One calendar month after `t`.
pub fn add_month(t: i64) -> (r: i64)
    requires
        0 <= t <= LAST_ADVANCEABLE,
    ensures
        r == add_month_spec(t as int),
{
    let z: i64 = t / DAY_MICROS;
    let tod: i64 = t % DAY_MICROS;
    let (y, m, d) = civil_of(z);
    let y2: i64 = if m == 12 {
        y + 1
    } else {
        y
    };
    let m2: i64 = if m == 12 {
        1
    } else {
        m + 1
    };
    let leap = (y2 % 4 == 0 && y2 % 100 != 0) || y2 % 400 == 0;
    let dim: i64 = if m2 == 2 {
        if leap {
            29
        } else {
            28
        }
    } else if m2 == 4 || m2 == 6 || m2 == 9 || m2 == 11 {
        30
    } else {
        31
    };
    let d2: i64 = if d > dim {
        dim
    } else {
        d
    };
    let days = days_of(y2, m2, d2);
    assert(days * DAY_MICROS + tod <= i64::MAX) by (nonlinear_arith)
        requires
            days <= 72_400_000,
            0 <= tod < DAY_MICROS,
    ;
    assert(days * DAY_MICROS + tod >= i64::MIN) by (nonlinear_arith)
        requires
            days >= -800,
            0 <= tod < DAY_MICROS,
    ;
    days * DAY_MICROS + tod
}

} // verus!
