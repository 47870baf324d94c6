//! Raw gamepad axis readings normalized onto the mapper's `-1000..=1000`
//! (sticks and hats) and `0..=1000` (triggers) scales.
use vstd::prelude::*;

verus! {

/// The range a device reports for one axis.
#[derive(Clone, Copy, Debug, PartialEq, Eq, Structural)]
pub struct AxisRange {
    pub minimum: i32,
    pub maximum: i32,
}

/// Integer division rounding toward zero, as Rust's `/` does, for `b > 0`.
pub open spec fn trunc_div(a: int, b: int) -> int {
    if a >= 0 {
        a / b
    } else {
        0 - ((0 - a) / b)
    }
}

pub open spec fn clamp(v: int, lo: int, hi: int) -> int {
    if v < lo {
        lo
    } else if v > hi {
        hi
    } else {
        v
    }
}

/// A centred axis (stick or hat) on the `-1000..=1000` scale. Without a
/// range the reading is a hat's `-1`/`0`/`1`; a range of less than two steps
/// reads as centred.
pub open spec fn centered_value(value: i32, range: Option<AxisRange>) -> int {
    match range {
        None => clamp(value as int, -1, 1) * 1000,
        Some(r) => {
            let center = trunc_div(r.minimum + r.maximum, 2);
            let half = trunc_div(r.maximum - r.minimum, 2);
            if half <= 0 {
                0
            } else {
                clamp(trunc_div((value - center) * 1000, half), -1000, 1000)
            }
        },
    }
}

/// A trigger on the `0..=1000` scale. Without a range any positive reading is
/// fully pressed; an empty range reads as released.
pub open spec fn trigger_value(value: i32, range: Option<AxisRange>) -> int {
    match range {
        None => if value > 0 {
            1000
        } else {
            0
        },
        Some(r) => {
            let width = r.maximum - r.minimum;
            if width <= 0 {
                0
            } else {
                clamp(trunc_div((value - r.minimum) * 1000, width), 0, 1000)
            }
        },
    }
}

/// Rust's `/` on a non-negative or negative dividend and a positive divisor.
fn div_toward_zero(a: i64, b: i64) -> (q: i64)
    requires
        b > 0,
        a > i64::MIN,
    ensures
        q == trunc_div(a as int, b as int),
{
    if a >= 0 {
        ((a as u64) / (b as u64)) as i64
    } else {
        let q = ((0 - a) as u64) / (b as u64);
        assert(q <= (0 - a) as u64) by (nonlinear_arith)
            requires
                q == ((0 - a) as u64) / (b as u64),
                b > 0,
        ;
        0 - q as i64
    }
}

fn clamp_i64(v: i64, lo: i64, hi: i64) -> (r: i64)
    requires
        lo <= hi,
    ensures
        r == clamp(v as int, lo as int, hi as int),
{
    if v < lo {
        lo
    } else if v > hi {
        hi
    } else {
        v
    }
}

pub fn normalize_centered(value: i32, range: Option<AxisRange>) -> (r: i32)
    ensures
        r == centered_value(value, range),
        -1000 <= r <= 1000,
{
    let range = match range {
        None => {
            let v = clamp_i64(value as i64, -1, 1);
            return (v * 1000) as i32;
        },
        Some(range) => range,
    };
    let center = div_toward_zero(range.minimum as i64 + range.maximum as i64, 2);
    let half_range = div_toward_zero(range.maximum as i64 - range.minimum as i64, 2);
    if half_range <= 0 {
        return 0;
    }
    assert(-4294967296 <= center <= 4294967296);
    let scaled = div_toward_zero((value as i64 - center) * 1000, half_range);
    clamp_i64(scaled, -1000, 1000) as i32
}

pub fn normalize_trigger(value: i32, range: Option<AxisRange>) -> (r: i32)
    ensures
        r == trigger_value(value, range),
        0 <= r <= 1000,
{
    let range = match range {
        None => {
            return if value > 0 { 1000 } else { 0 };
        },
        Some(range) => range,
    };
    let width = range.maximum as i64 - range.minimum as i64;
    if width <= 0 {
        return 0;
    }
    let scaled = div_toward_zero((value as i64 - range.minimum as i64) * 1000, width);
    clamp_i64(scaled, 0, 1000) as i32
}

/// A device's full range covers the whole scale: its minimum reads as
/// `-1000` and its maximum as `1000` whenever the range spans two steps.
pub proof fn full_stick_range_spans_the_scale(r: AxisRange)
    requires
        trunc_div(r.maximum - r.minimum, 2) > 0,
    ensures
        centered_value(r.minimum, Some(r)) == -1000,
        centered_value(r.maximum, Some(r)) == 1000,
{
    let lo = r.minimum as int;
    let hi = r.maximum as int;
    let center = trunc_div(lo + hi, 2);
    let half = trunc_div(hi - lo, 2);
    assert(half == (hi - lo) / 2);
    assert(center - lo >= half && hi - center >= half) by {
        if lo + hi >= 0 {
            assert(center == (lo + hi) / 2);
        } else {
            assert(center == 0 - ((0 - (lo + hi)) / 2));
        }
    }
    assert((lo - center) * 1000 <= 0 - half * 1000);
    assert((hi - center) * 1000 >= half * 1000);
    assert(trunc_div((lo - center) * 1000, half) <= -1000) by {
        let a = (center - lo) * 1000;
        assert(a >= half * 1000);
        assert(a / half >= 1000) by (nonlinear_arith)
            requires
                a >= half * 1000,
                half > 0,
        ;
        assert((lo - center) * 1000 == 0 - a);
    }
    assert(trunc_div((hi - center) * 1000, half) >= 1000) by {
        let a = (hi - center) * 1000;
        assert(a / half >= 1000) by (nonlinear_arith)
            requires
                a >= half * 1000,
                half > 0,
        ;
    }
}

/// A trigger's resting position reads as released and its full press as
/// `1000`, whenever the range is not empty.
pub proof fn full_trigger_range_spans_the_scale(r: AxisRange)
    requires
        r.maximum > r.minimum,
    ensures
        trigger_value(r.minimum, Some(r)) == 0,
        trigger_value(r.maximum, Some(r)) == 1000,
{
    let w = r.maximum - r.minimum;
    assert((w * 1000) / w == 1000) by (nonlinear_arith)
        requires
            w > 0,
    ;
}

/// Inside the band around the centre, a stick reads its offset from the
/// centre, scaled so that half the range reads 1000, rounded toward zero:
/// the reading times half the range is the offset times 1000, short of the
/// next step. A reading halfway out reads about 500.
pub proof fn a_stick_reads_its_offset_from_the_centre(r: AxisRange, v: i32)
    requires
        trunc_div(r.maximum - r.minimum, 2) > 0,
        trunc_div(r.minimum + r.maximum, 2) - trunc_div(r.maximum - r.minimum, 2) <= v,
        v <= trunc_div(r.minimum + r.maximum, 2) + trunc_div(r.maximum - r.minimum, 2),
    ensures
        ({
            let c = trunc_div(r.minimum + r.maximum, 2);
            let h = trunc_div(r.maximum - r.minimum, 2);
            let y = centered_value(v, Some(r));
            &&& v >= c ==> 0 <= y && y * h <= (v - c) * 1000 && (v - c) * 1000 < (y + 1) * h
            &&& v < c ==> y < 0 || y == 0
            &&& v < c ==> (0 - y) * h <= (c - v) * 1000 && (c - v) * 1000 < (1 - y) * h
        }),
{
    let c = trunc_div(r.minimum + r.maximum, 2);
    let h = trunc_div(r.maximum - r.minimum, 2);
    if v >= c {
        let a = (v - c) * 1000;
        assert(0 <= a <= h * 1000);
        assert(a / h <= 1000 && (a / h) * h <= a && a < (a / h + 1) * h && a / h >= 0) by (nonlinear_arith)
            requires
                0 <= a <= h * 1000,
                h > 0,
        ;
    } else {
        let a = (c - v) * 1000;
        assert(0 < a <= h * 1000);
        assert(a / h <= 1000 && (a / h) * h <= a && a < (a / h + 1) * h && a / h >= 0) by (nonlinear_arith)
            requires
                0 < a <= h * 1000,
                h > 0,
        ;
        assert((v - c) * 1000 == 0 - a);
    }
}

/// Within its range, a trigger reads how far it is pressed from its rest,
/// scaled so that the full range reads 1000, rounded down.
pub proof fn a_trigger_reads_its_travel(r: AxisRange, v: i32)
    requires
        r.minimum < r.maximum,
        r.minimum <= v <= r.maximum,
    ensures
        ({
            let w = r.maximum - r.minimum;
            let y = trigger_value(v, Some(r));
            &&& 0 <= y <= 1000
            &&& y * w <= (v - r.minimum) * 1000
            &&& (v - r.minimum) * 1000 < (y + 1) * w
        }),
{
    let w = r.maximum - r.minimum;
    let a = (v - r.minimum) * 1000;
    assert(a / w <= 1000 && (a / w) * w <= a && a < (a / w + 1) * w && a / w >= 0) by (nonlinear_arith)
        requires
            0 <= a <= w * 1000,
            w > 0,
    ;
}

} // verus!
