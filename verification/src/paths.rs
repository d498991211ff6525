//! The files the library knows about, relative to the [`crate::sysfs::Sysfs`] root.

use vstd::prelude::*;

verus! {

/// The RAPL zone to believe on a Framework 13 with an Intel CPU. The MSR zone
/// (`intel-rapl:0`) reports a meaningless 200 W limit there.
pub const RAPL_MMIO: &'static str = "sys/class/powercap/intel-rapl-mmio:0";

/// The MSR zone, whose energy counter is as good as any.
pub const RAPL_MSR: &'static str = "sys/class/powercap/intel-rapl:0";

pub const PLATFORM_PROFILE: &'static str = "sys/firmware/acpi/platform_profile";

pub const PLATFORM_PROFILE_CHOICES: &'static str = "sys/firmware/acpi/platform_profile_choices";

pub const BATTERY: &'static str = "sys/class/power_supply/BAT1";

pub const CHARGE_LIMIT_PARAM: &'static str =
    "sys/module/cros_charge_control/parameters/probe_with_fwk_charge_control";

/// hwmon node *name*. Indices are not stable across boots, so nodes are found by name.
pub const EC_HWMON_NAME: &'static str = "cros_ec";

}
