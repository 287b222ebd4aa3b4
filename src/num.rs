//! Decimal rendering of integers, sizes and timestamps.
use vstd::prelude::*;

verus! {

pub open spec fn digit(d: nat) -> char {
    if d == 0 {
        '0'
    } else if d == 1 {
        '1'
    } else if d == 2 {
        '2'
    } else if d == 3 {
        '3'
    } else if d == 4 {
        '4'
    } else if d == 5 {
        '5'
    } else if d == 6 {
        '6'
    } else if d == 7 {
        '7'
    } else if d == 8 {
        '8'
    } else {
        '9'
    }
}

/// `n` written in decimal, without leading zeros.
pub open spec fn decimal(n: nat) -> Seq<char>
    decreases n,
{
    if n < 10 {
        seq![digit(n)]
    } else {
        decimal(n / 10).push(digit(n % 10))
    }
}

fn digit_str(d: u64) -> (r: &'static str)
    requires
        d < 10,
    ensures
        r@ == seq![digit(d as nat)],
{
    if d == 0 {
        proof {
            reveal_strlit("0");
        }
        assert("0"@ =~= seq!['0']);
        "0"
    } else if d == 1 {
        proof {
            reveal_strlit("1");
        }
        assert("1"@ =~= seq!['1']);
        "1"
    } else if d == 2 {
        proof {
            reveal_strlit("2");
        }
        assert("2"@ =~= seq!['2']);
        "2"
    } else if d == 3 {
        proof {
            reveal_strlit("3");
        }
        assert("3"@ =~= seq!['3']);
        "3"
    } else if d == 4 {
        proof {
            reveal_strlit("4");
        }
        assert("4"@ =~= seq!['4']);
        "4"
    } else if d == 5 {
        proof {
            reveal_strlit("5");
        }
        assert("5"@ =~= seq!['5']);
        "5"
    } else if d == 6 {
        proof {
            reveal_strlit("6");
        }
        assert("6"@ =~= seq!['6']);
        "6"
    } else if d == 7 {
        proof {
            reveal_strlit("7");
        }
        assert("7"@ =~= seq!['7']);
        "7"
    } else if d == 8 {
        proof {
            reveal_strlit("8");
        }
        assert("8"@ =~= seq!['8']);
        "8"
    } else {
        proof {
            reveal_strlit("9");
        }
        assert("9"@ =~= seq!['9']);
        "9"
    }
}

/// Appends `n` in decimal.
pub fn push_decimal(s: &mut String, n: u64)
    ensures
        final(s)@ == old(s)@ + decimal(n as nat),
    decreases n,
{
    if n >= 10 {
        push_decimal(s, n / 10);
    }
    s.append(digit_str(n % 10));
    assert(final(s)@ =~= old(s)@ + decimal(n as nat));
}

/// `n` in decimal.
pub fn decimal_string(n: u64) -> (r: String)
    ensures
        r@ == decimal(n as nat),
{
    let mut s = String::new();
    push_decimal(&mut s, n);
    assert(s@ =~= decimal(n as nat));
    s
}

proof fn lemma_decimal_len(n: nat)
    ensures
        n < 10 ==> decimal(n).len() == 1,
        10 <= n < 100 ==> decimal(n).len() == 2,
        100 <= n < 1000 ==> decimal(n).len() == 3,
        1000 <= n ==> decimal(n).len() >= 4,
    decreases n,
{
    if n >= 10 {
        lemma_decimal_len(n / 10);
    }
}

/// The number of decimal digits of `n`, where it is below four.
fn short_digit_count(n: u64) -> (r: usize)
    ensures
        r <= 4,
        r < 4 ==> r == decimal(n as nat).len(),
        r == 4 ==> decimal(n as nat).len() >= 4,
{
    proof {
        lemma_decimal_len(n as nat);
    }
    if n < 10 {
        1
    } else if n < 100 {
        2
    } else if n < 1000 {
        3
    } else {
        4
    }
}

/// `n` in decimal, padded with leading zeros to at least `w` characters.
pub open spec fn padded(n: nat, w: nat) -> Seq<char> {
    if decimal(n).len() >= w {
        decimal(n)
    } else {
        Seq::new((w - decimal(n).len()) as nat, |i: int| '0') + decimal(n)
    }
}

/// Appends `n` in decimal, padded with leading zeros to `w` characters.
pub fn push_padded(s: &mut String, n: u64, w: usize)
    requires
        w <= 4,
    ensures
        final(s)@ == old(s)@ + padded(n as nat, w as nat),
{
    let c = short_digit_count(n);
    let ghost start = s@;
    if c < w {
        let mut k: usize = 0;
        while k < w - c
            invariant
                c < w,
                k <= w - c,
                s@ == start + Seq::new(k as nat, |i: int| '0'),
            decreases w - c - k,
        {
            s.append("0");
            proof {
                reveal_strlit("0");
            }
            assert(s@ =~= start + Seq::new((k + 1) as nat, |i: int| '0'));
            k += 1;
        }
    } else {
        assert(s@ =~= start);
    }
    push_decimal(s, n);
    assert(s@ =~= start + padded(n as nat, w as nat));
}

/// The date of day `days` after 1970-01-01, by eras of 400 years counted
/// from 0000-03-01.
spec fn civil_from_days(days: int) -> (int, int, int) {
    let z = days + 719468;
    let era = z / 146097;
    let doe = z - era * 146097;
    let yoe = (doe - doe / 1460 + doe / 36524 - doe / 146096) / 365;
    let y = yoe + era * 400;
    let doy = doe - (365 * yoe + yoe / 4 - yoe / 100);
    let mp = (5 * doy + 2) / 153;
    let d = doy - (153 * mp + 2) / 5 + 1;
    let m = if mp < 10 {
        mp + 3
    } else {
        mp - 9
    };
    (
        if m <= 2 {
            y + 1
        } else {
            y
        },
        m,
        d,
    )
}

/// The date (year, month, day) of day number `days` since 1970-01-01.
pub fn days_to_date(days: u64) -> (r: (u64, u64, u64))
    requires
        days <= u64::MAX - 719468,
    ensures
        valid_date(r.0 as int, r.1 as int, r.2 as int),
        day_number(r.0 as int, r.1 as int, r.2 as int) == days,
{
    let z = days + 719468;
    let era = z / 146097;
    assert(era * 146097 <= z) by (nonlinear_arith)
        requires
            era == z / 146097,
    ;
    let doe = z - era * 146097;
    assert(doe < 146097) by (nonlinear_arith)
        requires
            era == z / 146097,
            doe == z - era * 146097,
    ;
    let yoe = (doe - doe / 1460 + doe / 36524 - doe / 146096) / 365;
    assert(yoe <= 400);
    assert(era * 400 <= z) by (nonlinear_arith)
        requires
            era == z / 146097,
    ;
    let y = yoe + era * 400;
    assert(365 * yoe + yoe / 4 - yoe / 100 <= doe) by (nonlinear_arith)
        requires
            yoe == (doe - doe / 1460 + doe / 36524 - doe / 146096) / 365,
            doe < 146097,
    ;
    let doy = doe - (365 * yoe + yoe / 4 - yoe / 100);
    let mp = (5 * doy + 2) / 153;
    assert((153 * mp + 2) / 5 <= doy) by (nonlinear_arith)
        requires
            mp == (5 * doy + 2) / 153,
    ;
    let d = doy - (153 * mp + 2) / 5 + 1;
    let m = if mp < 10 {
        mp + 3
    } else {
        assert(mp >= 10);
        mp - 9
    };
    let y = if m <= 2 {
        assert(y < u64::MAX);
        y + 1
    } else {
        y
    };
    proof {
        lemma_civil(days as int);
        assert((y as int, m as int, d as int) == civil_from_days(days as int));
    }
    (y, m, d)
}

/// The date `y-m-d` and the time `t` seconds into that day as
/// "YYYY-MM-DD HH:MM:SS UTC".
pub open spec fn stamp(y: int, m: int, d: int, t: nat) -> Seq<char> {
    padded(y as nat, 4) + "-"@ + padded(m as nat, 2) + "-"@ + padded(d as nat, 2) + " "@
        + padded(t / 3600, 2) + ":"@ + padded((t % 3600) / 60, 2) + ":"@ + padded(t % 60, 2)
        + " UTC"@
}

/// A minimal UTC timestamp of the time `since_epoch` seconds after the
/// epoch, or "unknown" where the clock stood before it.
pub fn chrono_lite(since_epoch: Option<u64>) -> (r: String)
    ensures
        match since_epoch {
            Some(secs) => exists|y: int, m: int, d: int|
                0 <= y && valid_date(y, m, d) && day_number(y, m, d) == secs / 86400 && r@
                    == stamp(y, m, d, secs as nat % 86400),
            None => r@ == "unknown"@,
        },
{
    match since_epoch {
        None => String::from_str("unknown"),
        Some(secs) => {
            let days = secs / 86400;
            let t = secs % 86400;
            let (y, m, d) = days_to_date(days);
            let mut r = String::new();
            push_padded(&mut r, y, 4);
            r.append("-");
            push_padded(&mut r, m, 2);
            r.append("-");
            push_padded(&mut r, d, 2);
            r.append(" ");
            push_padded(&mut r, t / 3600, 2);
            r.append(":");
            push_padded(&mut r, (t % 3600) / 60, 2);
            r.append(":");
            push_padded(&mut r, t % 60, 2);
            r.append(" UTC");
            assert(r@ =~= stamp(y as int, m as int, d as int, secs as nat % 86400));
            r
        },
    }
}

/// `b / d` in tenths, rounded to the nearest, ties to even.
pub open spec fn rounded_tenths(b: nat, d: nat) -> nat
    recommends
        d > 0,
{
    let q = (b * 10) / d;
    let r = (b * 10) % d;
    if 2 * r > d || (2 * r == d && q % 2 == 1) {
        q + 1
    } else {
        q
    }
}

pub open spec fn one_decimal(t: nat) -> Seq<char> {
    decimal(t / 10) + "."@ + decimal(t % 10)
}

/// A byte count for display: bytes below one kibibyte, else kibibytes or
/// mebibytes to one decimal.
pub open spec fn size_text(b: nat) -> Seq<char> {
    if b < 1024 {
        decimal(b)
    } else if b < 1024 * 1024 {
        one_decimal(rounded_tenths(b, 1024)) + " KB"@
    } else {
        one_decimal(rounded_tenths(b, 1024 * 1024)) + " MB"@
    }
}

fn tenths(b: u64, d: u64) -> (r: u64)
    requires
        d >= 1024,
    ensures
        r as nat == rounded_tenths(b as nat, d as nat),
{
    let x: u128 = (b as u128) * 10;
    let q: u128 = x / (d as u128);
    let rem: u128 = x % (d as u128);
    assert(q <= x) by (nonlinear_arith)
        requires
            q == x / (d as u128),
            d >= 1024,
    ;
    assert(q < u64::MAX as u128) by (nonlinear_arith)
        requires
            q == x / (d as u128),
            x == (b as u128) * 10,
            d >= 1024,
            b <= u64::MAX,
    ;
    let up = 2 * rem > (d as u128) || (2 * rem == (d as u128) && q % 2 == 1);
    let r = if up {
        q + 1
    } else {
        q
    };
    r as u64
}

fn push_one_decimal(s: &mut String, t: u64)
    ensures
        final(s)@ == old(s)@ + one_decimal(t as nat),
{
    push_decimal(s, t / 10);
    s.append(".");
    push_decimal(s, t % 10);
    assert(final(s)@ =~= old(s)@ + one_decimal(t as nat));
}

/// A byte count for display.
pub fn format_size(bytes: u64) -> (r: String)
    ensures
        r@ == size_text(bytes as nat),
{
    let mut r = String::new();
    if bytes < 1024 {
        push_decimal(&mut r, bytes);
    } else if bytes < 1024 * 1024 {
        push_one_decimal(&mut r, tenths(bytes, 1024));
        r.append(" KB");
    } else {
        push_one_decimal(&mut r, tenths(bytes, 1024 * 1024));
        r.append(" MB");
    }
    assert(r@ =~= size_text(bytes as nat));
    r
}

#[verifier::rlimit(40)]
proof fn lemma_year_of_era(doe: int)
    requires
        0 <= doe < 146097,
    ensures
        ({
            let yoe = (doe - doe / 1460 + doe / 36524 - doe / 146096) / 365;
            let doy = doe - (365 * yoe + yoe / 4 - yoe / 100);
            &&& 0 <= yoe <= 399
            &&& 0 <= doy <= 365
            &&& doy == 365 ==> (yoe + 1) % 4 == 0 && ((yoe + 1) % 100 != 0 || yoe == 399)
        }),
{
    let a = doe / 1460;
    let b = doe / 36524;
    let c = doe / 146096;
    let yoe = (doe - a + b - c) / 365;
    let e = yoe / 4;
    let f = yoe / 100;
    assert(0 <= a && 1460 * a <= doe < 1460 * a + 1460);
    assert(0 <= b && 36524 * b <= doe < 36524 * b + 36524);
    assert(0 <= c && 146096 * c <= doe < 146096 * c + 146096);
    assert(365 * yoe <= doe - a + b - c < 365 * yoe + 365);
    assert(4 * e <= yoe < 4 * e + 4);
    assert(100 * f <= yoe < 100 * f + 100);
}

pub open spec fn is_leap(y: int) -> bool {
    y % 4 == 0 && (y % 100 != 0 || y % 400 == 0)
}

pub open spec fn month_len(y: int, m: int) -> int {
    if m == 2 {
        if is_leap(y) {
            29
        } else {
            28
        }
    } else if m == 4 || m == 6 || m == 9 || m == 11 {
        30
    } else {
        31
    }
}

/// The number of leap years among the years 1 to `y`.
pub open spec fn leaps_through(y: int) -> int {
    y / 4 - y / 100 + y / 400
}

/// Days from 1970-01-01 to the first of January of year `y`.
pub open spec fn days_before_year(y: int) -> int {
    365 * (y - 1970) + leaps_through(y - 1) - leaps_through(1969)
}

/// Days from the first of January to the first of month `m` of year `y`.
pub open spec fn days_before_month(y: int, m: int) -> int {
    (if m == 1 {
        0int
    } else if m == 2 {
        31
    } else if m == 3 {
        59
    } else if m == 4 {
        90
    } else if m == 5 {
        120
    } else if m == 6 {
        151
    } else if m == 7 {
        181
    } else if m == 8 {
        212
    } else if m == 9 {
        243
    } else if m == 10 {
        273
    } else if m == 11 {
        304
    } else {
        334
    }) + if m > 2 && is_leap(y) {
        1int
    } else {
        0int
    }
}

/// The day `y-m-d` of the proleptic Gregorian calendar, counted from
/// 1970-01-01 as day 0.
pub open spec fn day_number(y: int, m: int, d: int) -> int {
    days_before_year(y) + days_before_month(y, m) + d - 1
}

pub open spec fn valid_date(y: int, m: int, d: int) -> bool {
    1 <= m <= 12 && 1 <= d <= month_len(y, m)
}

/// Month and day within a year that starts on the first of March.
#[verifier::rlimit(40)]
proof fn lemma_month_of_year(doy: int)
    requires
        0 <= doy <= 365,
    ensures
        ({
            let mp = (5 * doy + 2) / 153;
            let d = doy - (153 * mp + 2) / 5 + 1;
            &&& 0 <= mp <= 11
            &&& 1 <= d
            &&& mp == 11 ==> d == doy - 336
            &&& mp == 10 ==> d == doy - 305
            &&& mp < 10 ==> d <= month_len(1, mp + 3)
            &&& mp < 10 ==> days_before_month(1, mp + 3) == 59 + (153 * mp + 2) / 5
            &&& mp == 10 ==> d <= 31
        }),
{
    let mp = (5 * doy + 2) / 153;
    assert(153 * mp <= 5 * doy + 2 < 153 * mp + 153);
    assert(0 <= mp <= 11);
    if mp == 0 {
    } else if mp == 1 {
    } else if mp == 2 {
    } else if mp == 3 {
    } else if mp == 4 {
    } else if mp == 5 {
    } else if mp == 6 {
    } else if mp == 7 {
    } else if mp == 8 {
    } else if mp == 9 {
    } else if mp == 10 {
    } else {
    }
}

/// A year adds one leap year to the count exactly when it is one.
#[verifier::rlimit(40)]
proof fn lemma_leaps_step(y: int)
    ensures
        leaps_through(y) == leaps_through(y - 1) + if is_leap(y) {
            1int
        } else {
            0int
        },
{
    let a = y / 4;
    let b = (y - 1) / 4;
    let c = y / 100;
    let d = (y - 1) / 100;
    let e = y / 400;
    let f = (y - 1) / 400;
    assert(4 * a <= y < 4 * a + 4);
    assert(4 * b <= y - 1 < 4 * b + 4);
    assert(100 * c <= y < 100 * c + 100);
    assert(100 * d <= y - 1 < 100 * d + 100);
    assert(400 * e <= y < 400 * e + 400);
    assert(400 * f <= y - 1 < 400 * f + 400);
    assert(y % 4 == y - 4 * a);
    assert(y % 100 == y - 100 * c);
    assert(y % 400 == y - 400 * e);
}

/// Leap years up to a year of era `era`.
#[verifier::rlimit(40)]
proof fn lemma_leaps_in_era(era: int, yoe: int)
    requires
        0 <= yoe <= 399,
    ensures
        leaps_through(400 * era + yoe) == 97 * era + yoe / 4 - yoe / 100,
{
    let y = 400 * era + yoe;
    let a = y / 4;
    let c = y / 100;
    let e = y / 400;
    assert(4 * a <= y < 4 * a + 4);
    assert(100 * c <= y < 100 * c + 100);
    assert(400 * e <= y < 400 * e + 400);
    assert(e == era);
    assert(a == 100 * era + yoe / 4);
    assert(c == 4 * era + yoe / 100);
}

/// Days from 1970-01-01 to the first of March of year `400 * era + yoe`.
#[verifier::rlimit(40)]
proof fn lemma_march_first(era: int, yoe: int)
    requires
        0 <= yoe <= 399,
    ensures
        days_before_year(400 * era + yoe) + (if is_leap(400 * era + yoe) {
            1int
        } else {
            0int
        }) + 59 == 146097 * era + 365 * yoe + yoe / 4 - yoe / 100 - 719468,
{
    let y = 400 * era + yoe;
    lemma_leaps_step(y);
    lemma_leaps_in_era(era, yoe);
    assert(leaps_through(1969) == 477);
}

/// Leap years repeat every 400 years.
proof fn lemma_leap_in_era(era: int, x: int)
    ensures
        is_leap(400 * era + x) == is_leap(x),
{
    vstd::arithmetic::div_mod::lemma_mod_multiples_vanish(100 * era, x, 4);
    vstd::arithmetic::div_mod::lemma_mod_multiples_vanish(4 * era, x, 100);
    vstd::arithmetic::div_mod::lemma_mod_multiples_vanish(era, x, 400);
    assert(4 * (100 * era) + x == 400 * era + x);
    assert(100 * (4 * era) + x == 400 * era + x);
}

/// The era arithmetic gives a valid date with the right day number.
#[verifier::rlimit(40)]
proof fn lemma_civil(days: int)
    requires
        0 <= days,
    ensures
        valid_date(civil_from_days(days).0, civil_from_days(days).1, civil_from_days(days).2),
        day_number(civil_from_days(days).0, civil_from_days(days).1, civil_from_days(days).2)
            == days,
{
    let z = days + 719468;
    let era = z / 146097;
    let doe = z - era * 146097;
    assert(0 <= doe < 146097);
    lemma_year_of_era(doe);
    let yoe = (doe - doe / 1460 + doe / 36524 - doe / 146096) / 365;
    let doy = doe - (365 * yoe + yoe / 4 - yoe / 100);
    lemma_month_of_year(doy);
    let mp = (5 * doy + 2) / 153;
    let d = doy - (153 * mp + 2) / 5 + 1;
    let (y, m, dd) = civil_from_days(days);
    assert(dd == d);
    lemma_march_first(era, yoe);
    let base = 146097 * era + 365 * yoe + yoe / 4 - yoe / 100 - 719468;
    assert(days == base + doy);
    if mp < 10 {
        assert(m == mp + 3);
        assert(y == 400 * era + yoe);
        assert(month_len(y, m) == month_len(1, m));
        lemma_leap_in_era(era, yoe);
        assert(days_before_month(y, m) == days_before_month(1, m) + if is_leap(y) {
            1int
        } else {
            0int
        });
    } else {
        let y0 = 400 * era + yoe;
        assert(y == y0 + 1);
        lemma_leaps_step(y0);
        assert(days_before_year(y) == days_before_year(y0) + 365 + if is_leap(y0) {
            1int
        } else {
            0int
        });
        if mp == 11 {
            assert(m == 2);
            if d == 29 {
                assert(doy == 365);
                lemma_leap_in_era(era, yoe + 1);
                assert(400 * era + (yoe + 1) == y);
                if yoe == 399 {
                    assert(is_leap(400int));
                } else {
                    assert((yoe + 1) % 4 == 0 && (yoe + 1) % 100 != 0);
                }
                assert(is_leap(y));
            }
        } else {
            assert(m == 1);
        }
    }
}

} // verus!
