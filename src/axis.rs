//! Normalized axis positions, the lerp primitive and the integer scalings used by the reports.
use vstd::prelude::*;

verus! {

/// Largest sample produced by the 12-bit converters wired to the sticks and triggers.
pub const ADC_RAW_MAX: u16 = 4095;

/// Rejected configuration of a normalization.
#[derive(Clone, Copy, Debug, PartialEq, Eq, Structural)]
pub enum ConfigError {
    /// The raw range is empty (`raw_max == 0`).
    InvalidConfiguration,
}

/// `v` limited to `[lo, hi]`.
pub open spec fn clamp(v: int, lo: int, hi: int) -> int {
    if v < lo {
        lo
    } else if v > hi {
        hi
    } else {
        v
    }
}

/// `p / q` rounded to the nearest integer, halves away from zero (`q > 0`).
pub open spec fn round_div(p: int, q: int) -> int {
    if p >= 0 {
        (2 * p + q) / (2 * q)
    } else {
        -((-2 * p + q) / (2 * q))
    }
}

/// Signed field of logical range `[-max, max]`: `round(v * max)` for `v = num / den`, clamped.
pub open spec fn signed_scaled(num: int, den: int, max: int) -> int {
    clamp(round_div(num * max, den), -max, max)
}

/// Unsigned field of logical range `[0, max]` fed by a bipolar value:
/// `round(lerp(0, max, (v + 1) / 2))` for `v = num / den`, clamped.
pub open spec fn bipolar_scaled(num: int, den: int, max: int) -> int {
    clamp(round_div((num + den) * max, 2 * den), 0, max)
}

/// Unsigned field of logical range `[0, max]` fed by a unipolar value:
/// `round(v * max)` for `v = num / den`, clamped.
pub open spec fn unipolar_scaled(num: int, den: int, max: int) -> int {
    clamp(round_div(num * max, den), 0, max)
}

/// `round_div(p, q)` on machine integers.
fn round_div_exec(p: i64, q: i64) -> (r: i64)
    requires
        0 < q <= 0x40000,
        -0x1_0000_0000_0000 <= p <= 0x1_0000_0000_0000,
    ensures
        r == round_div(p as int, q as int),
        -0x2_0000_0000_0000 <= r <= 0x2_0000_0000_0000,
{
    if p >= 0 {
        let r = (2 * p + q) / (2 * q);
        assert(r <= 2 * p + q) by (nonlinear_arith)
            requires
                r == (2 * p + q) / (2 * q),
                2 * q >= 2,
                2 * p + q >= 0,
        ;
        assert(r <= p + 1) by (nonlinear_arith)
            requires
                r == (2 * p + q) / (2 * q),
                2 * q >= 2,
                2 * p + q >= 0,
                q >= 1,
                p >= 0,
        ;
        assert(r >= 0) by (nonlinear_arith)
            requires
                r == (2 * p + q) / (2 * q),
                q >= 1,
                p >= 0,
        ;
        r
    } else {
        let n = (-2 * p + q) / (2 * q);
        assert(n <= -p + 1) by (nonlinear_arith)
            requires
                n == (-2 * p + q) / (2 * q),
                q >= 1,
                p < 0,
        ;
        assert(n >= 0) by (nonlinear_arith)
            requires
                n == (-2 * p + q) / (2 * q),
                q >= 1,
                p < 0,
        ;
        -n
    }
}

/// `v` limited to `[lo, hi]`, on machine integers.
fn clamp_exec(v: i64, lo: i64, hi: i64) -> (r: i64)
    requires
        lo <= hi,
    ensures
        r == clamp(v as int, lo as int, hi as int),
{
    if v < lo {
        lo
    } else if v > hi {
        hi
    } else {
        v
    }
}

/// An axis position held exactly as the ratio `num / den`, with `den > 0`.
///
/// Sticks rest in `[-1, 1]` and triggers in `[0, 1]`; a value outside its
/// range is clamped by the encoders.
#[derive(Clone, Copy, Debug, PartialEq, Eq, Structural)]
pub struct AxisValue {
    num: i32,
    den: u16,
}

impl AxisValue {
    #[verifier::type_invariant]
    spec fn positive_den(self) -> bool {
        self.den > 0
    }

    /// Numerator of the ratio.
    pub closed spec fn numer(self) -> int {
        self.num as int
    }

    /// Denominator of the ratio.
    pub closed spec fn denom(self) -> int {
        self.den as int
    }

    /// The numerator fits 32 signed bits and the denominator 16 unsigned bits.
    pub proof fn lemma_ranges(self)
        ensures
            i32::MIN <= self.numer() <= i32::MAX,
            0 <= self.denom() <= u16::MAX,
    {
    }

    /// `self <= other` as rationals.
    pub open spec fn le(self, other: AxisValue) -> bool {
        self.numer() * other.denom() <= other.numer() * self.denom()
    }

    /// `self` and `other` stand for the same rational.
    pub open spec fn same_value(self, other: AxisValue) -> bool {
        self.numer() * other.denom() == other.numer() * self.denom()
    }

    /// The value lies in `[-1, 1]`.
    pub open spec fn is_bipolar(self) -> bool {
        -self.denom() <= self.numer() <= self.denom()
    }

    /// The value lies in `[0, 1]`.
    pub open spec fn is_unipolar(self) -> bool {
        0 <= self.numer() <= self.denom()
    }

    /// `num / den`, or `None` when `den` is zero.
    pub fn new(num: i32, den: u16) -> (r: Option<AxisValue>)
        ensures
            den == 0 <==> r is None,
            r matches Some(a) ==> a.numer() == num && a.denom() == den,
    {
        if den == 0 {
            None
        } else {
            Some(AxisValue { num, den })
        }
    }

    /// `num / den` for a positive `den`.
    pub fn ratio(num: i32, den: u16) -> (r: AxisValue)
        requires
            den > 0,
        ensures
            r.numer() == num,
            r.denom() == den,
    {
        AxisValue { num, den }
    }

    /// The rest position, `0 / 1`.
    pub fn zero() -> (r: AxisValue)
        ensures
            r.numer() == 0,
            r.denom() == 1,
    {
        AxisValue { num: 0, den: 1 }
    }

    /// Numerator of the ratio.
    pub fn num(&self) -> (r: i32)
        ensures
            r == self.numer(),
    {
        self.num
    }

    /// Denominator of the ratio.
    pub fn den(&self) -> (r: u16)
        ensures
            r == self.denom(),
            r > 0,
    {
        proof {
            use_type_invariant(self);
        }
        self.den
    }
}

/// Numerator of `lerp(from, to, t_num / t_den)` over the denominator `t_den`:
/// `from * (1 - t) + to * t`.
pub open spec fn lerp_numer(from: int, to: int, t_num: int, t_den: int) -> int {
    from * (t_den - t_num) + to * t_num
}

impl AxisValue {
    /// This value in a signed field of logical range `[-max, max]`.
    pub fn to_signed_field(&self, max: u16) -> (r: i32)
        ensures
            r == signed_scaled(self.numer(), self.denom(), max as int),
    {
        proof {
            use_type_invariant(self);
        }
        let num: i64 = self.num as i64;
        let m: i64 = max as i64;
        assert(-0x8000_0000 * 0x10000 <= num * m <= 0x8000_0000 * 0x10000) by (nonlinear_arith)
            requires
                -0x8000_0000 <= num < 0x8000_0000,
                0 <= m < 0x10000,
        ;
        let r = round_div_exec(num * m, self.den as i64);
        clamp_exec(r, -m, m) as i32
    }

    /// This bipolar value in an unsigned field of logical range `[0, max]`.
    pub fn to_bipolar_field(&self, max: u16) -> (r: u16)
        ensures
            r == bipolar_scaled(self.numer(), self.denom(), max as int),
    {
        proof {
            use_type_invariant(self);
        }
        let shifted: i64 = self.num as i64 + self.den as i64;
        let m: i64 = max as i64;
        assert(-0x8000_0000 * 0x10000 <= shifted * m <= 0x8001_0000 * 0x10000) by (nonlinear_arith)
            requires
                -0x8000_0000 <= shifted < 0x8001_0000,
                0 <= m < 0x10000,
        ;
        let r = round_div_exec(shifted * m, 2 * self.den as i64);
        clamp_exec(r, 0, m) as u16
    }

    /// This unipolar value in an unsigned field of logical range `[0, max]`.
    pub fn to_unipolar_field(&self, max: u16) -> (r: u16)
        ensures
            r == unipolar_scaled(self.numer(), self.denom(), max as int),
    {
        proof {
            use_type_invariant(self);
        }
        let num: i64 = self.num as i64;
        let m: i64 = max as i64;
        assert(-0x8000_0000 * 0x10000 <= num * m <= 0x8000_0000 * 0x10000) by (nonlinear_arith)
            requires
                -0x8000_0000 <= num < 0x8000_0000,
                0 <= m < 0x10000,
        ;
        let r = round_div_exec(num * m, self.den as i64);
        clamp_exec(r, 0, m) as u16
    }
}

/// Linear interpolation `from * (1 - t) + to * t` for `t` in `[0, 1]`, exact.
pub fn lerp(from: i16, to: i16, t: AxisValue) -> (r: AxisValue)
    requires
        t.is_unipolar(),
    ensures
        r.denom() == t.denom(),
        r.numer() == lerp_numer(from as int, to as int, t.numer(), t.denom()),
{
    proof {
        use_type_invariant(&t);
    }
    let den: i64 = t.den as i64;
    let num: i64 = t.num as i64;
    let f: i64 = from as i64;
    let g: i64 = to as i64;
    assert(-32768 * 65535 <= f * (den - num) <= 32768 * 65535) by (nonlinear_arith)
        requires
            0 <= num <= den <= 65535,
            -32768 <= f <= 32767,
    ;
    assert(-32768 * 65535 <= g * num <= 32768 * 65535) by (nonlinear_arith)
        requires
            0 <= num <= den <= 65535,
            -32768 <= g <= 32767,
    ;
    let a: i64 = f * (den - num);
    let b: i64 = g * num;
    assert(-2147483648 <= a + b <= 2147483647) by (nonlinear_arith)
        requires
            0 <= num <= den <= 65535,
            -32768 <= f <= 32767,
            -32768 <= g <= 32767,
            a == f * (den - num),
            b == g * num,
    ;
    AxisValue { num: (a + b) as i32, den: t.den }
}

/// The sample `raw` limited to `[0, raw_max]`.
pub open spec fn clamped_raw(raw: u16, raw_max: u16) -> int {
    if raw > raw_max {
        raw_max as int
    } else {
        raw as int
    }
}

/// Numerator, over the denominator `raw_max`, of the normalized sample.
///
/// Signed: `lerp(-1, 1, t)`, that is `2 * raw - raw_max`; unsigned: `lerp(0, 1, t)`,
/// that is `raw`; with `t = raw / raw_max` after limiting `raw` to `[0, raw_max]`.
pub open spec fn normalized_numer(raw: u16, raw_max: u16, signed: bool) -> int {
    if signed {
        2 * clamped_raw(raw, raw_max) - raw_max
    } else {
        clamped_raw(raw, raw_max)
    }
}

/// Maps a raw sample in `[0, raw_max]` to `[-1, 1]` (signed) or `[0, 1]` (unsigned).
pub fn normalize(raw: u16, raw_max: u16, signed: bool) -> (r: Result<AxisValue, ConfigError>)
    ensures
        raw_max == 0 <==> r is Err,
        r matches Err(e) ==> e == ConfigError::InvalidConfiguration,
        r matches Ok(a) ==> a.denom() == raw_max && a.numer() == normalized_numer(raw, raw_max, signed),
{
    if raw_max == 0 {
        return Err(ConfigError::InvalidConfiguration);
    }
    let clamped: u16 = if raw > raw_max { raw_max } else { raw };
    let t = AxisValue { num: clamped as i32, den: raw_max };
    if signed {
        Ok(lerp(-1, 1, t))
    } else {
        Ok(lerp(0, 1, t))
    }
}

/// Numerator, over the denominator `raw_max`, of the inverted normalized sample:
/// `lerp(1, -1, t)` (signed) or `lerp(1, 0, t)` (unsigned), so `0` maps to `1`.
pub open spec fn inverted_numer(raw: u16, raw_max: u16, signed: bool) -> int {
    if signed {
        raw_max - 2 * clamped_raw(raw, raw_max)
    } else {
        raw_max - clamped_raw(raw, raw_max)
    }
}

/// Like [`normalize`], for an axis mounted the other way round: `0` maps to `1`
/// and `raw_max` to `-1` (signed) or `0` (unsigned).
pub fn normalize_inverted(raw: u16, raw_max: u16, signed: bool) -> (r: Result<AxisValue, ConfigError>)
    ensures
        raw_max == 0 <==> r is Err,
        r matches Err(e) ==> e == ConfigError::InvalidConfiguration,
        r matches Ok(a) ==> a.denom() == raw_max && a.numer() == inverted_numer(raw, raw_max, signed),
{
    if raw_max == 0 {
        return Err(ConfigError::InvalidConfiguration);
    }
    let clamped: u16 = if raw > raw_max { raw_max } else { raw };
    let t = AxisValue { num: clamped as i32, den: raw_max };
    if signed {
        Ok(lerp(1, -1, t))
    } else {
        Ok(lerp(1, 0, t))
    }
}

/// Signed normalization is monotonic non-decreasing in the raw sample, stays in
/// `[-1, 1]`, sends `0` to `-1` and `raw_max` to `1` (all values over the
/// denominator `raw_max`).
pub proof fn lemma_normalize_signed_monotonic(r1: u16, r2: u16, raw_max: u16)
    requires
        raw_max > 0,
        r1 <= r2 <= raw_max,
    ensures
        normalized_numer(r1, raw_max, true) <= normalized_numer(r2, raw_max, true),
        -(raw_max as int) <= normalized_numer(r1, raw_max, true) <= raw_max,
        -(raw_max as int) <= normalized_numer(r2, raw_max, true) <= raw_max,
        normalized_numer(0, raw_max, true) == -(raw_max as int),
        normalized_numer(raw_max, raw_max, true) == raw_max,
{
}

/// `round(v * 127)` of the exact axis value `1` is `127` and of `-1` is `-127`,
/// whatever the denominator; so a full deflection, normalized and then written to
/// a signed 8-bit field, never reaches `128` or `-128`.
pub proof fn lemma_full_deflection_signed_byte(den: int, raw_max: u16)
    requires
        den > 0,
        raw_max > 0,
    ensures
        signed_scaled(den, den, 127) == 127,
        signed_scaled(-den, den, 127) == -127,
        signed_scaled(normalized_numer(raw_max, raw_max, true), raw_max as int, 127) == 127,
        signed_scaled(normalized_numer(0, raw_max, true), raw_max as int, 127) == -127,
{
    lemma_round_whole(den, 127);
    lemma_round_whole(-den, 127);
    lemma_round_whole(raw_max as int, 127);
    lemma_round_whole(-(raw_max as int), 127);
}

/// A value already on the field's grid, `v / max`, is written back as `v`.
pub proof fn lemma_signed_scaled_on_grid(v: int, max: int)
    requires
        max > 0,
        -max <= v <= max,
    ensures
        signed_scaled(v, max, max) == v,
{
    if v >= 0 {
        assert(v * max >= 0) by (nonlinear_arith)
            requires
                max > 0,
                v >= 0,
        ;
        assert((2 * (v * max) + max) / (2 * max) == v) by (nonlinear_arith)
            requires
                max > 0,
                v >= 0,
        ;
    } else {
        assert(v * max < 0) by (nonlinear_arith)
            requires
                max > 0,
                v < 0,
        ;
        assert((-2 * (v * max) + max) / (2 * max) == -v) by (nonlinear_arith)
            requires
                max > 0,
                v < 0,
        ;
    }
}

/// `round(n * k / |n|)` is `k` times the sign of `n`.
proof fn lemma_round_whole(n: int, k: int)
    requires
        n != 0,
        k >= 0,
    ensures
        n > 0 ==> round_div(n * k, n) == k,
        n < 0 ==> round_div(n * k, -n) == -k,
{
    if n > 0 {
        assert((2 * (n * k) + n) / (2 * n) == k) by (nonlinear_arith)
            requires
                n > 0,
                k >= 0,
        ;
    } else {
        assert(n * k <= 0) by (nonlinear_arith)
            requires
                n < 0,
                k >= 0,
        ;
        if n * k == 0 {
            assert(k == 0) by (nonlinear_arith)
                requires
                    n < 0,
                    n * k == 0,
            ;
        }
        assert((-2 * (n * k) + -n) / (2 * -n) == k) by (nonlinear_arith)
            requires
                n < 0,
                k >= 0,
        ;
    }
}

} // verus!
