//! Framework's EC commands, expressed as bytes.
//!
//! Encoding and decoding only. The byte order is the fiddly part, and here it is stated.

pub mod fan;
pub mod features;
pub mod mode;

use vstd::prelude::*;

verus! {

/// The command that governs charging on these boards.
pub const CHARGE_LIMIT_CONTROL: u32 = 0x3E03;

/// Bytes in a charge-limit request: mode, maximum, minimum.
pub const REQUEST_LEN: usize = 3;

/// Bytes the EC returns for a get: maximum, minimum.
pub const GET_RESPONSE_LEN: usize = 2;

/// A charge window as the EC holds it.
#[derive(Debug, Clone, Copy, PartialEq, Eq, Structural)]
pub struct ChargeLimits {
    pub min: u8,
    pub max: u8,
}

/// Ask the EC what it currently holds. The padding is what Framework's own tool sends.
pub fn get_request() -> (r: [u8; 3])
    ensures
        r@ == seq![mode::GET, 0xFFu8, 0xFFu8],
        r@.len() == REQUEST_LEN,
{
    let r: [u8; 3] = [mode::GET, 0xFF, 0xFF];
    assert(r@ =~= seq![mode::GET, 0xFFu8, 0xFFu8]);
    r
}

/// Set the charge window. **The maximum precedes the minimum on the wire.** The other way
/// round would set a minimum, which on a battery above it looks exactly like success.
pub fn set_request(limits: ChargeLimits) -> (r: [u8; 3])
    ensures
        r@ == set_bytes(limits),
        r@.len() == REQUEST_LEN,
{
    let r: [u8; 3] = [mode::SET, limits.max, limits.min];
    assert(r@ =~= set_bytes(limits));
    r
}

pub open spec fn set_bytes(limits: ChargeLimits) -> Seq<u8> {
    seq![mode::SET, limits.max, limits.min]
}

/// Hand charging back to the EC's own management.
pub fn disable_request() -> (r: [u8; 3])
    ensures
        r@ == seq![mode::DISABLE, 0xFFu8, 0xFFu8],
        r@.len() == REQUEST_LEN,
{
    let r: [u8; 3] = [mode::DISABLE, 0xFF, 0xFF];
    assert(r@ =~= seq![mode::DISABLE, 0xFFu8, 0xFFu8]);
    r
}

/// What a get response says: the maximum, then the minimum, and nothing where the EC
/// returned too few bytes to trust.
pub open spec fn limits_in(response: Seq<u8>) -> Option<ChargeLimits> {
    if response.len() < GET_RESPONSE_LEN {
        None
    } else {
        Some(ChargeLimits { max: response[0], min: response[1] })
    }
}

/// Decode a get response.
pub fn parse_limits(response: &[u8]) -> (r: Option<ChargeLimits>)
    ensures
        r == limits_in(response@),
{
    if response.len() < GET_RESPONSE_LEN {
        return None;
    }
    Some(ChargeLimits { max: response[0], min: response[1] })
}

/// What is set reads back as itself: the bytes behind the mode are in the order of a get
/// response.
pub proof fn limits_survive_the_wire(limits: ChargeLimits)
    ensures
        limits_in(set_bytes(limits).skip(1)) == Some(limits),
{
}

}
