//! Modes of the charge-limit command.

use vstd::prelude::*;

verus! {

/// Disable all settings; charging goes back to being handled automatically.
pub const DISABLE: u8 = 0x01;

/// Set the maximum and minimum percentage.
pub const SET: u8 = 0x02;

/// Read the current setting. The only mode that returns a response.
pub const GET: u8 = 0x08;

/// Charge to full this once, without clearing the limit.
pub const OVERRIDE: u8 = 0x80;

}
