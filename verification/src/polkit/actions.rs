//! The actions a caller is authorized for, one by one.

use vstd::prelude::*;

verus! {

pub const SET_CHARGE_LIMIT: &'static str = "org.fwhelper.set-charge-limit";

pub const SET_FAN: &'static str = "org.fwhelper.set-fan";

pub const SET_POWER_LIMIT: &'static str = "org.fwhelper.set-power-limit";

}
