//! Rotor electrical-angle mapping from the raw encoder.
//!
//! The encoder reports the mechanical angle as a `u16` spanning one revolution.
//! The electrical angle cycles `POLE_PAIRS` times per mechanical revolution;
//! both wrap the full circle, so the conversion is a wrapping multiply.

use vstd::prelude::*;

verus! {

/// Electrical cycles per mechanical revolution (200 full steps / 4).
pub const POLE_PAIRS: u16 = 50;

/// One full turn of a `u16` angle.
pub open spec fn turn() -> int {
    65536
}

/// The angle `a` reduced onto the `u16` circle.
pub open spec fn wrap16(a: int) -> u16 {
    (a % turn()) as u16
}

/// Electrical angle of a mechanical encoder reading `enc`.
pub open spec fn spec_mech_to_elec(enc: u16) -> u16 {
    wrap16(enc as int * POLE_PAIRS as int)
}

/// Electrical angle of `enc` measured from the alignment `offset`.
pub open spec fn spec_electrical_angle(enc: u16, offset: u16) -> u16 {
    wrap16(enc as int * POLE_PAIRS as int - offset as int)
}

/// Raw encoder reading (one mechanical revolution) to rotor electrical angle
/// (one electrical cycle), given the alignment `offset`.
pub fn electrical_angle(enc: u16, offset: u16) -> (r: u16)
    ensures
        r == spec_electrical_angle(enc, offset),
{
    let e = enc.wrapping_mul(POLE_PAIRS);
    let r = e.wrapping_sub(offset);
    proof {
        lemma_wrap_sub(enc as int * POLE_PAIRS as int, offset as int);
    }
    r
}

/// Alignment offset from an encoder reading taken with the rotor held at
/// electrical zero.
pub fn offset_from_alignment(enc_at_align: u16) -> (r: u16)
    ensures
        r == spec_mech_to_elec(enc_at_align),
{
    enc_at_align.wrapping_mul(POLE_PAIRS)
}

/// Reducing a product before subtracting does not change the angle.
pub proof fn lemma_wrap_sub(a: int, b: int)
    requires
        a >= 0,
        0 <= b < turn(),
    ensures
        (if (a % turn()) - b < 0 { (a % turn()) - b + turn() } else { (a % turn()) - b })
            == (a - b) % turn(),
{
    vstd::arithmetic::div_mod::lemma_fundamental_div_mod(a, turn());
    let q = a / turn();
    let r = a % turn();
    vstd::arithmetic::div_mod::lemma_mod_multiples_vanish(q, r - b, turn());
    assert(a - b == turn() * q + (r - b));
    if r - b < 0 {
        vstd::arithmetic::div_mod::lemma_mod_multiples_vanish(-1, r - b + turn(), turn());
        vstd::arithmetic::div_mod::lemma_small_mod((r - b + turn()) as nat, turn() as nat);
    } else {
        vstd::arithmetic::div_mod::lemma_small_mod((r - b) as nat, turn() as nat);
    }
}

/// Reading the encoder at the alignment point gives electrical angle zero:
/// `electrical_angle(e, offset_from_alignment(e)) == 0` for every reading.
pub proof fn lemma_aligned_reads_zero(enc: u16)
    ensures
        spec_electrical_angle(enc, spec_mech_to_elec(enc)) == 0,
{
    let a = enc as int * POLE_PAIRS as int;
    vstd::arithmetic::div_mod::lemma_fundamental_div_mod(a, turn());
    let q = a / turn();
    vstd::arithmetic::div_mod::lemma_mod_multiples_basic(q, turn());
    assert(a - (a % turn()) == q * turn());
}


/// The electrical angle turns `POLE_PAIRS` (50) times as fast as the encoder:
/// one encoder count more advances it by 50 on the circle, one offset count
/// more retards it by one, and with no offset it is `50·enc` on the circle.
pub proof fn lemma_electrical_angle_rate(enc: u16, offset: u16)
    ensures
        spec_electrical_angle(enc, 0) == (enc as int * 50) % 65536,
        enc < 65535 ==> (spec_electrical_angle((enc + 1) as u16, offset) as int - spec_electrical_angle(
            enc,
            offset,
        ) as int - 50) % 65536 == 0,
        offset < 65535 ==> (spec_electrical_angle(enc, offset) as int - spec_electrical_angle(
            enc,
            (offset + 1) as u16,
        ) as int - 1) % 65536 == 0,
{
    let a = enc as int * 50 - offset as int;
    let b = (enc as int + 1) * 50 - offset as int;
    let c = a - 1;
    vstd::arithmetic::div_mod::lemma_fundamental_div_mod(a, 65536);
    vstd::arithmetic::div_mod::lemma_fundamental_div_mod(b, 65536);
    vstd::arithmetic::div_mod::lemma_fundamental_div_mod(c, 65536);
    assert(b == a + 50);
    assert((b % 65536) - (a % 65536) - 50 == 65536 * (a / 65536 - b / 65536));
    vstd::arithmetic::div_mod::lemma_mod_multiples_basic(a / 65536 - b / 65536, 65536);
    assert((a % 65536) - (c % 65536) - 1 == 65536 * (c / 65536 - a / 65536));
    vstd::arithmetic::div_mod::lemma_mod_multiples_basic(c / 65536 - a / 65536, 65536);
}

} // verus!
