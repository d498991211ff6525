//! What the EC says it can do.

use vstd::prelude::*;

verus! {

/// Ask for the feature flags.
pub const GET_FEATURES: u32 = 0x000D;

/// Bytes in the answer: two little-endian words of flags.
pub const RESPONSE_LEN: usize = 8;

/// The EC drives a fan.
pub const PWM_FAN: u32 = 2;

/// Whether bit `n` of the flags is set, counting from the first byte's lowest.
pub open spec fn flag(answer: Seq<u8>, n: u32) -> bool {
    (answer[n as int / 8] >> ((n % 8) as u8)) & 1u8 == 1u8
}

/// Whether the EC has a feature; `None` where the answer is too short to say.
pub fn has(answer: &[u8], feature: u32) -> (r: Option<bool>)
    ensures
        r == (if answer@.len() < RESPONSE_LEN || feature >= 64 {
            None
        } else {
            Some(flag(answer@, feature))
        }),
{
    if answer.len() < RESPONSE_LEN || feature >= 64 {
        return None;
    }
    let byte: u8 = answer[(feature / 8) as usize];
    let shift: u8 = (feature % 8) as u8;
    Some((byte >> shift) & 1u8 == 1u8)
}

/// A feature's flag is the bit of its number, the lowest of the first byte being number zero: it
/// is set exactly where the byte that holds it, cut down to that bit, is not zero.
pub proof fn a_flag_is_the_bit_of_its_number(answer: Seq<u8>, n: u32)
    requires
        n < 64,
        answer.len() >= RESPONSE_LEN,
    ensures
        flag(answer, n) <==> answer[n as int / 8] & (1u8 << ((n % 8) as u8)) != 0,
        flag(answer, PWM_FAN) <==> (answer[0] / 4) % 2 == 1,
{
    let b = answer[n as int / 8];
    let s = (n % 8) as u8;
    assert((b >> s) & 1u8 == 1u8 <==> b & (1u8 << s) != 0) by (bit_vector)
        requires
            s < 8,
    ;
    let c = answer[0];
    assert((c >> 2u8) & 1u8 == (c / 4) % 2) by (bit_vector);
}

}
