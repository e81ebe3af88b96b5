//! Bridge and sensor arithmetic of the MKS boards: mapping a signed coil
//! command onto the two half-bridge PWM duties, decoding the MT6816 encoder
//! frames, and the output-stage enable polarity.
//!
//! A coil command is a full-scale `i16`: `+i16::MAX` drives the coil fully
//! forward, `i16::MIN` fully in reverse, `0` applies no net voltage.

use vstd::prelude::*;

verus! {

/// The output-stage enable line (nEN) is active low.
pub const EN_ACTIVE_LOW: bool = true;

/// Full-scale coil command magnitude.
pub const FULL_SCALE: i32 = 32767;

/// Quotient of `a / n` rounded toward zero.
pub open spec fn trunc_div(a: int, n: int) -> int {
    if a >= 0 { a / n } else { -((-a) / n) }
}

/// `v` limited to `lo..=hi`.
pub open spec fn clamp(v: int, lo: int, hi: int) -> int {
    if v < lo { lo } else if v > hi { hi } else { v }
}

/// Locked-antiphase duties `(plus, minus)` of command `v` with full-scale
/// duty `max_duty`: both half-bridges around mid-duty, `±v/2` apart.
pub open spec fn spec_split_antiphase(v: i16, max_duty: u16) -> (u16, u16) {
    let mid = max_duty as int / 2;
    let half = trunc_div(v as int * mid, FULL_SCALE as int);
    (clamp(mid + half, 0, max_duty as int) as u16, clamp(mid - half, 0, max_duty as int) as u16)
}

/// Map a coil command to a `(plus, minus)` duty pair by locked antiphase
/// (SERVO42D): `plus = mid + v·mid/32767`, `minus = mid − v·mid/32767`, the
/// division rounding toward zero, each saturated at the rails.
pub fn split_duty_antiphase(v: i16, max_duty: u16) -> (r: (u16, u16))
    ensures
        r == spec_split_antiphase(v, max_duty),
        r.0 <= max_duty && r.1 <= max_duty,
{
    let mid = (max_duty / 2) as i32;
    assert(-32768 * 32767 <= v as int * mid as int <= 32767 * 32767) by (nonlinear_arith)
        requires 0 <= mid <= 32767, -32768 <= v <= 32767;
    let p = v as i32 * mid;
    let half = if p >= 0 { p / FULL_SCALE } else { -((-p) / FULL_SCALE) };
    let plus_raw = mid + half;
    let minus_raw = mid - half;
    let md = max_duty as i32;
    let plus = if plus_raw < 0 { 0 } else if plus_raw > md { md } else { plus_raw };
    let minus = if minus_raw < 0 { 0 } else if minus_raw > md { md } else { minus_raw };
    (plus as u16, minus as u16)
}

/// Sign-magnitude duties `(plus, minus)` of command `v`: one half-bridge
/// carries `|v|·max_duty/32767`, the other is held at ground.
pub open spec fn spec_split_sign_magnitude(v: i16, max_duty: u16) -> (u16, u16) {
    let mag = ((if v < 0 { -v } else { v as int }) * max_duty as int / FULL_SCALE as int) as u16;
    if v >= 0 { (mag, 0) } else { (0, mag) }
}

/// Map a coil command to a `(plus, minus)` duty pair by sign-magnitude drive
/// (SERVO57D): energize the half-bridge selected by the sign with
/// `|v|·max_duty/32767`, hold the other at ground.
pub fn split_duty_sign_magnitude(v: i16, max_duty: u16) -> (r: (u16, u16))
    ensures
        r == spec_split_sign_magnitude(v, max_duty),
        v >= 0 ==> r.1 == 0,
        v < 0 ==> r.0 == 0,
        v > i16::MIN ==> r.0 <= max_duty && r.1 <= max_duty,
{
    let a: u32 = if v < 0 { (-(v as i32)) as u32 } else { v as u32 };
    assert(a as int * max_duty as int <= 32768 * 65535) by (nonlinear_arith)
        requires a <= 32768, max_duty <= 65535;
    let prod = a * max_duty as u32;
    let m = prod / (FULL_SCALE as u32);
    proof {
        if v > i16::MIN {
            assert(m <= max_duty) by (nonlinear_arith)
                requires m == prod / 32767, prod == a * max_duty, a <= 32767;
        }
    }
    let mag = #[verifier::truncate] (m as u16);
    if v >= 0 {
        (mag, 0)
    } else {
        (0, mag)
    }
}

/// Scale a byte `x` (0..=255) onto `0..=max_duty`.
pub fn scale_duty(x: u8, max_duty: u16) -> (r: u16)
    ensures
        r == x as int * max_duty as int / 255,
        r <= max_duty,
{
    assert(x as int * max_duty as int <= 255 * 65535) by (nonlinear_arith)
        requires x <= 255, max_duty <= 65535;
    let p = x as u32 * max_duty as u32;
    let q = p / 255;
    assert(q <= max_duty) by (nonlinear_arith)
        requires q == p / 255, p == x * max_duty, x <= 255;
    q as u16
}

/// `pct` percent of the full-scale duty.
pub fn duty_percent(max_duty: u16, pct: u32) -> (r: u16)
    requires
        pct <= 100,
    ensures
        r == max_duty as int * pct as int / 100,
        r <= max_duty,
{
    assert(max_duty as int * pct as int <= 65535 * 100) by (nonlinear_arith)
        requires pct <= 100, max_duty <= 65535;
    let p = max_duty as u32 * pct;
    let q = p / 100;
    assert(q <= max_duty) by (nonlinear_arith)
        requires q == p / 100, p == max_duty * pct, pct <= 100;
    q as u16
}

/// Level to drive on the enable line: high exactly when enabling an
/// active-high stage or disabling an active-low one.
pub fn en_drive_high(enabled: bool) -> (r: bool)
    ensures
        r == (enabled != EN_ACTIVE_LOW),
        r == !enabled,
{
    enabled ^ EN_ACTIVE_LOW
}

/// Rotor angle from a single MT6816 16-bit frame `[b0, b1]`
/// (`angle14 << 2 | no_mag << 1 | parity`): the 14-bit angle scaled to the
/// full `u16` circle, i.e. the frame with its two status bits cleared.
pub fn mt6816_angle_from_frame(b0: u8, b1: u8) -> (r: u16)
    ensures
        r == (b0 as int * 256 + b1 as int) / 4 * 4,
{
    let word = ((b0 as u16) << 8) | (b1 as u16);
    assert(word == b0 * 256 + b1) by (bit_vector)
        requires word == ((b0 as u16) << 8) | (b1 as u16);
    let angle14 = word >> 2;
    let r = angle14 << 2;
    assert(r == word / 4 * 4) by (bit_vector)
        requires angle14 == word >> 2, r == angle14 << 2;
    r
}

/// Rotor angle from the MT6816 angle registers: `hi` = Angle<13:6> (register
/// 0x03), `lo` bits 7:2 = Angle<5:0> (register 0x04), scaled from 14 bits to
/// the full `u16` circle.
pub fn mt6816_angle_from_regs(hi: u8, lo: u8) -> (r: u16)
    ensures
        r == (hi as int * 64 + lo as int / 4) * 4,
{
    let angle14 = ((hi as u16) << 6) | ((lo as u16) >> 2);
    assert(angle14 == hi * 64 + lo / 4) by (bit_vector)
        requires angle14 == ((hi as u16) << 6) | ((lo as u16) >> 2);
    let r = angle14 << 2;
    assert(r == angle14 * 4) by (bit_vector)
        requires angle14 < 16384, r == angle14 << 2;
    r
}

/// Sign-magnitude drive never exceeds the full-scale duty for any command
/// but `i16::MIN`, and drives exactly one half-bridge: the one the command's
/// sign selects.
pub proof fn lemma_sign_magnitude_one_sided(v: i16, max_duty: u16)
    ensures
        v >= 0 ==> spec_split_sign_magnitude(v, max_duty).1 == 0,
        v < 0 ==> spec_split_sign_magnitude(v, max_duty).0 == 0,
        spec_split_sign_magnitude(0, max_duty) == (0u16, 0u16),
        spec_split_sign_magnitude(i16::MAX, max_duty) == (max_duty, 0u16),
{
    assert(32767 * max_duty as int / 32767 == max_duty) by (nonlinear_arith);
}

/// Antiphase drive of a zero command leaves both half-bridges at mid-duty (no
/// net coil voltage), and opposite commands swap the two duties.
pub proof fn lemma_antiphase_symmetric(v: i16, max_duty: u16)
    requires
        v > i16::MIN,
    ensures
        spec_split_antiphase(0, max_duty) == ((max_duty / 2) as u16, (max_duty / 2) as u16),
        spec_split_antiphase((-v) as i16, max_duty).0 == spec_split_antiphase(v, max_duty).1,
        spec_split_antiphase((-v) as i16, max_duty).1 == spec_split_antiphase(v, max_duty).0,
{
    let mid = max_duty as int / 2;
    assert((-v) as int * mid == -(v as int * mid)) by (nonlinear_arith);
}

} // verus!
