use vstd::prelude::*;

use crate::text::{decimal, push_char, push_decimal};
use vstd::string::StrSliceExecFns;

verus! {

/// The day number (days since 1970-01-01) of a date in the proleptic
/// Gregorian calendar, counting months from 1 and days from 1.
pub open spec fn days_from_civil(y: int, m: int, d: int) -> int {
    let yy = if m <= 2 {
        y - 1
    } else {
        y
    };
    let era = yy / 400;
    let yoe = yy - era * 400;
    let mp = if m > 2 {
        m - 3
    } else {
        m + 9
    };
    let doy = (153 * mp + 2) / 5 + d - 1;
    let doe = yoe * 365 + yoe / 4 - yoe / 100 + doy;
    era * 146097 + doe - 719468
}

/// Whether `y` is a leap year of the Gregorian calendar.
pub open spec fn is_leap_year(y: int) -> bool {
    y % 4 == 0 && (y % 100 != 0 || y % 400 == 0)
}

/// The number of days of month `m` of year `y`.
pub open spec fn days_in_month(y: int, m: int) -> int {
    if m == 2 {
        if is_leap_year(y) {
            29
        } else {
            28
        }
    } else if m == 4 || m == 6 || m == 9 || m == 11 {
        30
    } else {
        31
    }
}

proof fn lemma_year_of_era(doe: u32)
    requires
        doe <= 146096,
    ensures
        ({
            let yoe = (doe - doe / 1460 + doe / 36524 - doe / 146096) / 365;
            &&& yoe <= 399
            &&& 365 * yoe + yoe / 4 - yoe / 100 <= doe
            &&& doe - (365 * yoe + yoe / 4 - yoe / 100) <= 365
            &&& doe - (365 * yoe + yoe / 4 - yoe / 100) == 365 ==> ((yoe + 1) % 4 == 0 && ((yoe
                + 1) % 100 != 0 || (yoe + 1) % 400 == 0))
        }),
{
    assert({
        let yoe = (doe - doe / 1460 + doe / 36524 - doe / 146096) / 365;
        &&& yoe <= 399
        &&& 365 * yoe + yoe / 4 - yoe / 100 <= doe
        &&& doe - (365 * yoe + yoe / 4 - yoe / 100) <= 365
        &&& doe - (365 * yoe + yoe / 4 - yoe / 100) == 365 ==> ((yoe + 1) % 4 == 0 && ((yoe
            + 1) % 100 != 0 || (yoe + 1) % 400 == 0))
    }) by (bit_vector)
        requires
            doe <= 146096,
    ;
}

proof fn lemma_month_of_year(doy: u32)
    requires
        doy <= 365,
    ensures
        ({
            let mp = (5 * doy + 2) / 153;
            let m = if mp < 10 {
                mp + 3
            } else {
                mp - 9
            };
            &&& mp <= 11
            &&& (153 * mp + 2) / 5 <= doy
            &&& doy - (153 * mp + 2) / 5 + 1 <= (if m == 2 {
                29u32
            } else if m == 4 || m == 6 || m == 9 || m == 11 {
                30u32
            } else {
                31u32
            })
        }),
{
    assert({
        let mp = (5 * doy + 2) / 153;
        let m = if mp < 10 {
            mp + 3
        } else {
            mp - 9
        };
        &&& mp <= 11
        &&& (153 * mp + 2) / 5 <= doy
        &&& doy - (153 * mp + 2) / 5 + 1 <= (if m == 2 {
            29u32
        } else if m == 4 || m == 6 || m == 9 || m == 11 {
            30u32
        } else {
            31u32
        })
    }) by (bit_vector)
        requires
            doy <= 365,
    ;
}

/// `a / b` rounded down.
fn floor_div(a: i64, b: i64) -> (q: i64)
    requires
        b > 0,
    ensures
        q == a as int / b as int,
{
    if a >= 0 {
        a / b
    } else {
        let n = -(a + 1);
        let q0 = n / b;
        proof {
            let r = n % b;
            assert(n == q0 * b + r && 0 <= r < b) by (nonlinear_arith)
                requires
                    n >= 0,
                    b > 0,
                    q0 == n / b,
                    r == n % b,
            ;
            assert(a == (-q0 - 1) * b + (b - r - 1)) by (nonlinear_arith)
                requires
                    n == q0 * b + r,
                    n == -(a + 1),
            ;
            vstd::arithmetic::div_mod::lemma_fundamental_div_mod_converse(
                a as int,
                b as int,
                -q0 - 1,
                b - r - 1,
            );
        }
        -q0 - 1
    }
}

/// The date of a day number (days since 1970-01-01), as (year, month, day).
pub fn civil_from_days(z: i64) -> (r: (i64, u32, u32))
    requires
        z <= i64::MAX - 719468,
    ensures
        1 <= r.1 <= 12,
        1 <= r.2 <= days_in_month(r.0 as int, r.1 as int),
        days_from_civil(r.0 as int, r.1 as int, r.2 as int) == z,
        z >= 0 ==> r.0 >= 0,
{
    let zz = z + 719468;
    let era = floor_div(zz, 146097);
    proof {
        if z >= 0 {
            vstd::arithmetic::div_mod::lemma_div_pos_is_pos(zz as int, 146097);
        }
        vstd::arithmetic::div_mod::lemma_fundamental_div_mod(zz as int, 146097);
        assert(0 <= zz - era * 146097 <= 146096);
    }
    let doe = (zz - era * 146097) as u32;
    let yoe = (doe - doe / 1460 + doe / 36524 - doe / 146096) / 365;
    proof {
        lemma_year_of_era(doe);
    }
    let y = yoe as i64 + era * 400;
    let doy = doe - (365 * yoe + yoe / 4 - yoe / 100);
    proof {
        lemma_month_of_year(doy);
    }
    let mp = (5 * doy + 2) / 153;
    let d = doy - (153 * mp + 2) / 5 + 1;
    let m = if mp < 10 {
        mp + 3
    } else {
        mp - 9
    };
    let y2 = if m <= 2 {
        y + 1
    } else {
        y
    };
    proof {
        let yy = if m <= 2 {
            y2 - 1
        } else {
            y2 as int
        };
        assert(yy == yoe + era * 400);
        vstd::arithmetic::div_mod::lemma_fundamental_div_mod_converse(
            yy,
            400,
            era as int,
            yoe as int,
        );
        assert(yy / 400 == era);
        let mp2 = if m > 2 {
            m - 3
        } else {
            m + 9
        };
        assert(mp2 == mp);
        if m == 2 && d == 29 {
            assert(doy == 365);
            let k = yoe as int + 1;
            assert(y2 == k + era * 400);
            assert(k % 4 == 0 && (k % 100 != 0 || k % 400 == 0));
            assert(is_leap_year(y2 as int)) by (nonlinear_arith)
                requires
                    y2 == k + era * 400,
                    k % 4 == 0 && (k % 100 != 0 || k % 400 == 0),
            ;
        }
    }
    (y2, m, d)
}

/// `s` with zeros in front, to at least `w` characters.
pub open spec fn zero_pad(s: Seq<char>, w: nat) -> Seq<char> {
    if s.len() >= w {
        s
    } else {
        Seq::new((w - s.len()) as nat, |i: int| '0') + s
    }
}

/// A UTC time as ISO 8601 text with milliseconds, such as
/// `2025-01-01T00:00:00.000Z`.
pub open spec fn iso_format(
    y: nat,
    mo: nat,
    d: nat,
    h: nat,
    mi: nat,
    s: nat,
    ms: nat,
) -> Seq<char> {
    zero_pad(decimal(y), 4) + "-"@ + zero_pad(decimal(mo), 2) + "-"@ + zero_pad(decimal(d), 2)
        + "T"@ + zero_pad(decimal(h), 2) + ":"@ + zero_pad(decimal(mi), 2) + ":"@ + zero_pad(
        decimal(s),
        2,
    ) + "."@ + zero_pad(decimal(ms), 3) + "Z"@
}

/// Appends `n` in decimal, with zeros in front to at least `w` digits.
fn push_padded(out: &mut String, n: u64, w: usize)
    ensures
        final(out)@ == old(out)@ + zero_pad(decimal(n as nat), w as nat),
{
    let mut digits = String::new();
    push_decimal(&mut digits, n);
    let len = digits.as_str().unicode_len();
    let ghost start = out@;
    if len < w {
        let mut k: usize = 0;
        while k < w - len
            invariant
                len < w,
                0 <= k <= w - len,
                out@ == start + Seq::new(k as nat, |i: int| '0'),
            decreases w - len - k,
        {
            push_char(out, '0');
            proof {
                assert(out@ =~= start + Seq::new((k + 1) as nat, |i: int| '0'));
            }
            k = k + 1;
        }
    }
    out.append(digits.as_str());
    proof {
        assert(digits@ =~= decimal(n as nat));
        if len >= w {
            assert(out@ =~= start + zero_pad(decimal(n as nat), w as nat));
        } else {
            assert(out@ =~= start + zero_pad(decimal(n as nat), w as nat));
        }
    }
}

/// Whether `t` is the time `ms` (milliseconds since 1970-01-01T00:00:00Z)
/// as ISO 8601 text in UTC, with milliseconds.
pub open spec fn is_iso_timestamp_of(t: Seq<char>, ms: u64) -> bool {
    let secs = ms / 1000;
    let ds = secs % 86400;
    exists|y: nat, m: nat, d: nat|
        1 <= m <= 12 && 1 <= d <= days_in_month(y as int, m as int) && days_from_civil(
            y as int,
            m as int,
            d as int,
        ) == secs / 86400 && t == #[trigger] iso_format(
            y,
            m,
            d,
            (ds / 3600) as nat,
            ((ds % 3600) / 60) as nat,
            (ds % 60) as nat,
            (ms % 1000) as nat,
        )
}

/// The time `now_ms` (milliseconds since 1970-01-01T00:00:00Z) as ISO 8601
/// text in UTC, with milliseconds.
pub fn iso_timestamp_utc(now_ms: u64) -> (r: String)
    ensures
        is_iso_timestamp_of(r@, now_ms),
{
    let total_secs = now_ms / 1000;
    let millis = now_ms % 1000;
    let days = total_secs / 86400;
    let day_secs = total_secs % 86400;
    let h = day_secs / 3600;
    let min = (day_secs % 3600) / 60;
    let s = day_secs % 60;
    let (y, m, d) = civil_from_days(days as i64);
    let mut out = String::new();
    push_padded(&mut out, y as u64, 4);
    out.append("-");
    push_padded(&mut out, m as u64, 2);
    out.append("-");
    push_padded(&mut out, d as u64, 2);
    out.append("T");
    push_padded(&mut out, h, 2);
    out.append(":");
    push_padded(&mut out, min, 2);
    out.append(":");
    push_padded(&mut out, s, 2);
    out.append(".");
    push_padded(&mut out, millis, 3);
    out.append("Z");
    proof {
        assert(out@ =~= iso_format(
            y as nat,
            m as nat,
            d as nat,
            h as nat,
            min as nat,
            s as nat,
            millis as nat,
        ));
    }
    out
}

} // verus!
