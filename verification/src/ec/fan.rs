//! Fan control over raw EC commands, for boards without `pwm1`.
//!
//! A wrong opcode is neither a compile error nor reliably a runtime one: the EC simply
//! answers a different question.

use vstd::prelude::*;
use crate::fan::close;

verus! {

/// Set the fan's duty, as a percentage in four bytes.
pub const SET_FAN_DUTY: u32 = 0x0024;

/// Hand the fan back to firmware. Version 0 takes no parameters.
pub const AUTO_FAN_CTRL: u32 = 0x0052;

/// Measured to return 0 whatever the fan does. Read the fan's input file for its speed.
pub const GET_FAN_TARGET_RPM: u32 = 0x0020;

/// Full duty on this interface. **Duty is a percentage here, not an 8-bit count.**
pub const MAX_DUTY: u8 = 100;

/// The lesser of a percentage and full duty.
pub open spec fn capped(percent: u8) -> u8 {
    if percent < MAX_DUTY {
        percent
    } else {
        MAX_DUTY
    }
}

/// Encode a duty request: four bytes, little-endian whatever the host.
///
/// Clamped rather than rejected: this is the last layer before the wire, and range policy
/// belongs above it.
pub fn set_duty_request(percent: u8) -> (r: [u8; 4])
    ensures
        r@ == seq![capped(percent), 0u8, 0u8, 0u8],
{
    let p: u8 = if percent < MAX_DUTY {
        percent
    } else {
        MAX_DUTY
    };
    let r: [u8; 4] = [p, 0, 0, 0];
    assert(r@ =~= seq![capped(percent), 0u8, 0u8, 0u8]);
    r
}

/// Release the fan to firmware: no payload. Handing the fan to an EC that already owns it
/// does nothing, which is what makes releasing unconditionally safe.
pub fn auto_request() -> (r: [u8; 0])
    ensures
        r@.len() == 0,
{
    []
}

/// A duty of 0-255 as a percentage, to the nearest whole one.
pub open spec fn percent_of(duty: u8) -> int {
    (duty * 200 + 255) / 510
}

/// A percentage as a duty of 0-255, to the nearest whole one.
pub open spec fn duty_of(percent: u8) -> int {
    (percent * 510 + 100) / 200
}

/// A duty of 0-255 as a percentage.
pub fn duty_to_percent(duty: u8) -> (r: u8)
    ensures
        r == percent_of(duty),
        r <= MAX_DUTY,
{
    ((duty as u32 * 200 + 255) / 510) as u8
}

/// A percentage as a duty of 0-255; more than full duty is full duty.
pub fn percent_to_duty(percent: u8) -> (r: u8)
    ensures
        r == duty_of(capped(percent)),
{
    let p: u8 = if percent < MAX_DUTY {
        percent
    } else {
        MAX_DUTY
    };
    ((p as u32 * 510 + 100) / 200) as u8
}

/// A duty that goes through whole percent comes back within the tolerance that a read-back
/// is held to, and a percentage that goes through a duty comes back as itself.
pub proof fn percent_quantization_is_within_tolerance(duty: u8, percent: u8)
    requires
        percent <= MAX_DUTY,
    ensures
        0 <= percent_of(duty) <= MAX_DUTY,
        0 <= duty_of(percent) <= u8::MAX,
        close(duty_of(percent_of(duty) as u8) as u8, duty),
        percent_of(duty_of(percent) as u8) == percent,
{
}

/// A duty as a percentage, and a percentage as a duty, is the nearest whole one, a half going
/// up. More than full duty is full duty.
pub proof fn percent_is_the_nearest_whole_one(duty: u8, percent: u8)
    ensures
        -255 < 2 * (255 * percent_of(duty) - 100 * duty) <= 255,
        -100 < 2 * (100 * duty_of(percent) - 255 * percent) <= 100,
        percent <= 100 ==> capped(percent) == percent,
        percent > 100 ==> capped(percent) == 100,
{
}

}
