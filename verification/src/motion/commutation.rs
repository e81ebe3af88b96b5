//! Commutation arithmetic on `u16` angles: the field angle from an encoder
//! reading under either encoder direction, the shortest signed angular error,
//! centred current readings, the over-current trip and the averaged encoder
//! reading used by calibration.

use vstd::prelude::*;
use crate::motion::encoder::{POLE_PAIRS, turn, wrap16, lemma_wrap_sub};
use crate::canopen::od::Params;
use crate::motion::drive::trunc_div;

verus! {

/// Electrical angle of `enc` with `pole_pairs` cycles per revolution,
/// measured from `offset`, counting with the encoder (`reversed == false`)
/// or against it.
pub open spec fn spec_theta(enc: u16, pole_pairs: u16, offset: u16, reversed: bool) -> u16 {
    if !reversed {
        wrap16(enc as int * pole_pairs as int - offset as int)
    } else {
        wrap16(offset as int - enc as int * pole_pairs as int)
    }
}

/// The field angle of encoder reading `enc`: `enc·pole_pairs − offset` when the
/// encoder counts with the electrical rotation, `offset − enc·pole_pairs` when
/// it counts against it, both on the `u16` circle.
pub fn theta(enc: u16, pole_pairs: u16, offset: u16, reversed: bool) -> (r: u16)
    ensures
        r == spec_theta(enc, pole_pairs, offset, reversed),
{
    let e = enc.wrapping_mul(pole_pairs);
    let ghost a = enc as int * pole_pairs as int;
    if !reversed {
        let r = e.wrapping_sub(offset);
        proof {
            lemma_wrap_sub(a, offset as int);
        }
        r
    } else {
        let r = offset.wrapping_sub(e);
        proof {
            lemma_wrap_neg(a, offset as int);
        }
        r
    }
}

/// Subtracting a reduced product from an angle gives the reduced difference.
proof fn lemma_wrap_neg(a: int, b: int)
    requires
        a >= 0,
        0 <= b < turn(),
    ensures
        (if b - (a % turn()) < 0 { b - (a % turn()) + turn() } else { b - (a % turn()) })
            == (b - a) % turn(),
{
    vstd::arithmetic::div_mod::lemma_fundamental_div_mod(a, turn());
    let q = a / turn();
    let r = a % turn();
    vstd::arithmetic::div_mod::lemma_mod_multiples_vanish(-q, b - r, turn());
    assert(b - a == turn() * (-q) + (b - r));
    if b - r < 0 {
        vstd::arithmetic::div_mod::lemma_mod_multiples_vanish(-1, b - r + turn(), turn());
        vstd::arithmetic::div_mod::lemma_small_mod((b - r + turn()) as nat, turn() as nat);
    } else {
        vstd::arithmetic::div_mod::lemma_small_mod((b - r) as nat, turn() as nat);
    }
}

/// The field angle of `enc` under the live commutation parameters: their
/// pole-pair count, alignment offset and encoder direction (0 = with).
pub fn theta_e(enc: u16, p: &Params) -> (r: u16)
    ensures
        r == spec_theta(enc, p.pole_pairs, p.offset, p.direction != 0),
{
    theta(enc, p.pole_pairs, p.offset, p.direction != 0)
}

/// Rotor electrical angle with the encoder direction reversed (the MT6816
/// counts opposite to the motor's electrical rotation): `offset − enc·50`.
pub fn theta_e_rev(enc: u16, offset: u16) -> (r: u16)
    ensures
        r == spec_theta(enc, POLE_PAIRS, offset, true),
{
    theta(enc, POLE_PAIRS, offset, true)
}

/// Reversing the encoder direction negates the electrical angle on the circle.
pub proof fn lemma_reversal_negates(enc: u16, pole_pairs: u16, offset: u16)
    ensures
        (spec_theta(enc, pole_pairs, offset, false) as int + spec_theta(enc, pole_pairs, offset, true)
            as int) % turn() == 0,
{
    let d = enc as int * pole_pairs as int - offset as int;
    vstd::arithmetic::div_mod::lemma_fundamental_div_mod(d, turn());
    vstd::arithmetic::div_mod::lemma_fundamental_div_mod(-d, turn());
    vstd::arithmetic::div_mod::lemma_mod_add_multiples_vanish(0, turn());
    let a = d % turn();
    let b = (-d) % turn();
    assert((a + b) == d - turn() * (d / turn()) + (-d) - turn() * ((-d) / turn()));
    assert(a + b == turn() * (-(d / turn()) - ((-d) / turn())));
    vstd::arithmetic::div_mod::lemma_mod_multiples_basic(-(d / turn()) - ((-d) / turn()), turn());
}

/// The signed value of the `u16` angle difference `desired − y`, in
/// `[-32768, 32767]`.
pub open spec fn spec_circ_err(desired: u16, y: u16) -> int {
    let d = wrap16(desired as int - y as int);
    if d < 32768 { d as int } else { d as int - 65536 }
}

/// Wrapping signed difference on the `u16` circle: the shortest-path error
/// from `y` to `desired`, in `[-32768, 32767]`.
pub fn circ_err(desired: u16, y: u16) -> (r: i32)
    ensures
        r == spec_circ_err(desired, y),
        -32768 <= r <= 32767,
        (r - (desired - y)) % turn() == 0,
{
    let d = desired.wrapping_sub(y);
    let s = d as i16;
    assert(s == (if d < 32768 { d as int } else { d as int - 65536 })) by (bit_vector)
        requires s == d as i16;
    proof {
        if desired < y {
            vstd::arithmetic::div_mod::lemma_small_mod((desired - y + turn()) as nat, turn() as nat);
        }
        if desired >= y {
            vstd::arithmetic::div_mod::lemma_small_mod((desired - y) as nat, turn() as nat);
        }
        let rr = if d < 32768 { d as int } else { d as int - 65536 };
        if d < 32768 {
            if desired >= y {
                assert(rr - (desired - y) == 0);
            } else {
                assert(rr - (desired - y) == turn());
                vstd::arithmetic::div_mod::lemma_mod_self_0(turn());
            }
        } else {
            if desired >= y {
                assert(rr - (desired - y) == -turn());
                vstd::arithmetic::div_mod::lemma_mod_multiples_basic(-1, turn());
            } else {
                assert(rr - (desired - y) == 0);
            }
        }
    }
    s as i32
}

/// Signed `i16` from two little-endian bytes.
pub fn i16le(a: u8, b: u8) -> (r: i16)
    ensures
        r == (a + 256 * b) as i16,
{
    let u = (a as u16) | ((b as u16) << 8);
    assert(u == a + 256 * b) by (bit_vector)
        requires u == (a as u16) | ((b as u16) << 8);
    u as i16
}

/// Centre-subtracted coil current: the sense amplifier idles at `bias`, so
/// the signed current is `raw − bias`, wrapping in `i16`.
pub fn signed(raw: i16, bias: i16) -> (r: i16)
    ensures
        r == (if raw - bias > i16::MAX {
            raw - bias - 65536
        } else if raw - bias < i16::MIN {
            raw - bias + 65536
        } else {
            raw - bias
        }),
{
    raw.wrapping_sub(bias)
}

/// Over-current trip threshold: |raw − baseline| in ADC counts.
pub const TRIP_COUNTS: i32 = 450;

/// A coil reading `cur` has strayed from its zero-current baseline `base` by
/// more than [`TRIP_COUNTS`].
pub fn tripped(cur: i16, base: i32) -> (r: bool)
    requires
        i32::MIN < cur - base <= i32::MAX,
    ensures
        r == (cur - base > TRIP_COUNTS || base - cur > TRIP_COUNTS),
{
    let d = (cur as i32) - base;
    let a = if d < 0 { -d } else { d };
    a > TRIP_COUNTS
}

/// One full step in mechanical `u16` units: 65536 / 200 full steps.
pub const FULL_STEP: i32 = 327;

/// The servo's field lead `u` limited to one full step either way.
pub fn clamp_lead(u: i32) -> (r: i32)
    ensures
        r == (if u > FULL_STEP { FULL_STEP as int } else if u < -FULL_STEP { -FULL_STEP as int } else { u as int }),
        -FULL_STEP <= r <= FULL_STEP,
{
    if u > FULL_STEP {
        FULL_STEP
    } else if u < -FULL_STEP {
        -FULL_STEP
    } else {
        u
    }
}

/// Drive amplitude for lead `u`: from the hold floor at zero lead to the
/// ceiling at a full-step lead, `|u|·(max − hold)/FULL_STEP + hold` (the
/// division rounding toward zero), capped at `max_amp`.
pub open spec fn spec_field_amplitude(u: i32, hold_amp: i32, max_amp: i32) -> int {
    let a = trunc_div(abs(u as int) * (max_amp - hold_amp), FULL_STEP as int) + hold_amp;
    if a > max_amp { max_amp as int } else { a }
}

/// `|v|`.
pub open spec fn abs(v: int) -> int {
    if v < 0 { -v } else { v }
}

/// Amplitude of the field applied by the simple-PID servo for a lead of `u`
/// (within one full step), between the hold and maximum amplitudes
/// (`i16` settings).
pub fn field_amplitude(u: i32, hold_amp: i32, max_amp: i32) -> (r: i32)
    requires
        -FULL_STEP <= u <= FULL_STEP,
        i16::MIN <= hold_amp <= i16::MAX,
        i16::MIN <= max_amp <= i16::MAX,
    ensures
        r == spec_field_amplitude(u, hold_amp, max_amp),
        r <= max_amp,
{
    let au = if u < 0 { -u } else { u };
    let span = max_amp - hold_amp;
    assert(-327 * 65535 <= au as int * span as int <= 327 * 65535) by (nonlinear_arith)
        requires 0 <= au <= 327, -65535 <= span <= 65535;
    let p = au * span;
    let q = if p >= 0 { p / FULL_STEP } else { -((-p) / FULL_STEP) };
    proof {
        if p >= 0 {
            vstd::arithmetic::div_mod::lemma_div_is_ordered(p as int, 327 * 65535int, 327);
        } else {
            vstd::arithmetic::div_mod::lemma_div_is_ordered(-p as int, 327 * 65535int, 327);
        }
        vstd::arithmetic::div_mod::lemma_div_multiples_vanish(65535, 327);
    }
    let ma = q + hold_amp;
    if ma > max_amp {
        max_amp
    } else {
        ma
    }
}

/// Electrical angle of the field the servo applies: the mechanical position
/// `y` advanced by the lead `u`, times the pole pairs, on the circle.
pub fn field_angle(y: u16, u: i32) -> (r: u16)
    requires
        -FULL_STEP <= u <= FULL_STEP,
    ensures
        r == wrap16(wrap16(y + u) as int * POLE_PAIRS as int),
{
    let m = y as i32 + u;
    let fm = (m & 0xFFFF) as u16;
    assert(fm == m % 65536) by (bit_vector)
        requires fm == (m & 0xFFFF) as u16;
    fm.wrapping_mul(POLE_PAIRS)
}

/// The servo setpoint advanced by `rate` counts per tick, on the circle.
pub fn advance_setpoint(desired: u16, rate: i32) -> (r: u16)
    requires
        i16::MIN <= rate <= i16::MAX,
    ensures
        r == wrap16(desired + rate),
{
    let m = desired as i32 + rate;
    let r = (m & 0xFFFF) as u16;
    assert(r == m % 65536) by (bit_vector)
        requires r == (m & 0xFFFF) as u16;
    r
}

/// Sum of the signed offsets of `samples` from `first` on the circle.
pub open spec fn offset_sum(first: u16, samples: Seq<u16>) -> int
    decreases samples.len(),
{
    if samples.len() == 0 {
        0
    } else {
        offset_sum(first, samples.drop_last()) + spec_circ_err(samples.last(), first)
    }
}

/// A quotient rounded toward zero of a sum of `n` terms in
/// `[-32768, 32767]` is itself in that range.
proof fn lemma_trunc_div_bounds(acc: int, n: int)
    requires
        n > 0,
        -32768 * n <= acc <= 32767 * n,
    ensures
        -32768 <= trunc_div(acc, n) <= 32767,
{
    if acc >= 0 {
        vstd::arithmetic::div_mod::lemma_div_is_ordered(acc, 32767 * n, n);
        vstd::arithmetic::div_mod::lemma_div_multiples_vanish(32767, n);
        vstd::arithmetic::div_mod::lemma_div_pos_is_pos(acc, n);
    } else {
        vstd::arithmetic::div_mod::lemma_div_is_ordered(-acc, 32768 * n, n);
        vstd::arithmetic::div_mod::lemma_div_multiples_vanish(32768, n);
        vstd::arithmetic::div_mod::lemma_div_pos_is_pos(-acc, n);
    }
}

/// Mean of encoder readings `samples` taken around `first`, robust to the
/// wrap at 0/65535: each reading is unwrapped to its shortest signed distance
/// from `first`, the distances averaged (rounding toward zero) and the mean
/// added back to `first` on the circle.
pub fn mean_angle(first: u16, samples: &[u16]) -> (r: u16)
    requires
        0 < samples@.len() <= u32::MAX,
    ensures
        r == wrap16(first + trunc_div(offset_sum(first, samples@), samples@.len() as int)),
{
    let n = samples.len();
    let mut acc: i64 = 0;
    let mut i: usize = 0;
    while i < n
        invariant
            n == samples@.len(),
            n <= u32::MAX,
            i <= n,
            acc == offset_sum(first, samples@.take(i as int)),
            -32768 * i <= acc <= 32767 * i,
        decreases n - i,
    {
        let d = circ_err(samples[i], first);
        assert(samples@.take(i + 1).drop_last() == samples@.take(i as int));
        acc += d as i64;
        i += 1;
    }
    assert(samples@.take(n as int) == samples@);
    let nn = n as i64;
    let q: i64 = if acc >= 0 { acc / nn } else { -((-acc) / nn) };
    proof {
        lemma_trunc_div_bounds(acc as int, nn as int);
    }
    let m = (first as i32 + q as i32) as i64;
    let r = (m & 0xFFFF) as u16;
    assert(r == m % 65536) by (bit_vector)
        requires r == (m & 0xFFFF) as u16;
    r
}

} // verus!
