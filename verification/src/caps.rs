//! What this machine can actually do.
//!
//! A control that silently does nothing is worse than none, so every knob resolves to
//! available or to a reason why not.

use vstd::prelude::*;
use crate::board::Board;
use crate::charge::{attribute, THRESHOLD};
use crate::fan::PWM_ENABLE;
use crate::paths::{
    BATTERY,
    CHARGE_LIMIT_PARAM,
    PLATFORM_PROFILE,
    RAPL_MMIO,
    RAPL_MSR,
};
use crate::sysfs::{reply, unsigned_in, Answer, FileOp, Op, Sysfs};
use crate::text::{same, trim, trimmed};

verus! {

/// Whether a given knob is usable on this machine.
#[derive(Debug, Clone, PartialEq, Eq)]
pub enum Cap {
    Yes,
    No(String),
}

impl View for Cap {
    /// The reason against, if there is one.
    type V = Option<Seq<char>>;

    open spec fn view(&self) -> Option<Seq<char>> {
        match *self {
            Cap::Yes => None,
            Cap::No(reason) => Some(reason@),
        }
    }
}

impl Cap {
    pub fn is_available(&self) -> (r: bool)
        ensures
            r == (self@ is None),
    {
        match self {
            Cap::Yes => true,
            Cap::No(_) => false,
        }
    }

    fn no(reason: &str) -> (r: Self)
        ensures
            r@ == Some(reason@),
    {
        Cap::No(reason.to_owned())
    }

    /// The same again.
    pub fn copy(&self) -> (r: Self)
        ensures
            r@ == self@,
    {
        match self {
            Cap::Yes => Cap::Yes,
            Cap::No(reason) => Cap::No(reason.clone()),
        }
    }

    pub fn text(&self) -> (r: String)
        ensures
            r@ == cap_text(self@),
    {
        match self {
            Cap::Yes => "available".to_owned(),
            Cap::No(reason) => {
                let mut s = "unavailable \u{2014} ".to_owned();
                s.append(reason.as_str());
                s
            },
        }
    }
}

pub open spec fn cap_text(reason: Option<Seq<char>>) -> Seq<char> {
    match reason {
        None => "available"@,
        Some(r) => "unavailable \u{2014} "@ + r,
    }
}

/// What is asked of one energy zone.
#[derive(Debug, Clone, PartialEq, Eq)]
pub struct ZoneSurvey<T> {
    pub zone: String,
    /// Whether its counter is there.
    pub present: T,
    /// What its counter reads.
    pub energy: T,
}

/// Everything a probe asks: as file operations, or as what they came back with.
#[derive(Debug, Clone, PartialEq, Eq)]
pub struct ProbeSurvey<T> {
    /// Whether the EC's node, where it was found, has the mode file.
    pub pwm_enable: Option<T>,
    /// Whether the power zone is there, and its sustained limit.
    pub power_zone: T,
    pub power_constraint: T,
    /// Whether the charge threshold is there.
    pub charge_threshold: T,
    /// What the charge driver's module parameter holds, and whether it is there.
    pub charge_param: T,
    pub charge_param_present: T,
    pub platform_profile: T,
    /// The zones whose energy counter may be readable, in the order they are tried.
    pub zones: Vec<ZoneSurvey<T>>,
}

#[derive(Debug, Clone, PartialEq, Eq)]
pub struct Capabilities {
    pub fan_control: Cap,
    pub power_limit: Cap,
    pub charge_limit: Cap,
    pub platform_profile: Cap,
    pub package_power: Cap,
    /// Resolved hwmon path for the EC, if found.
    pub ec_hwmon: Option<String>,
    /// The zone whose energy counter reads, if any.
    pub energy_zone: Option<String>,
}

/// Whether a module parameter says that the charge driver was forced to bind.
pub open spec fn forced(param: Answer) -> bool {
    param matches Ok(t) && (trimmed(t@) == "Y"@ || trimmed(t@) == "y"@ || trimmed(t@) == "1"@)
}

pub open spec fn fan_reason(hwmon: Option<Seq<char>>, pwm_enable: Option<Answer>) -> Option<
    Seq<char>,
> {
    match (hwmon, pwm_enable) {
        (None, _) => Some("no cros_ec hwmon node; is cros_ec_hwmon loaded?"@),
        (Some(_), Some(Ok(_))) => None,
        _ => Some("cros_ec hwmon present but exposes no pwm1_enable"@),
    }
}

pub open spec fn power_reason(zone: bool, constraint: bool) -> Option<Seq<char>> {
    if !zone {
        Some("no intel-rapl-mmio:0 zone"@)
    } else if !constraint {
        Some("rapl zone exposes no long_term constraint"@)
    } else {
        None
    }
}

/// A threshold file is no evidence that a limit works: a forced binding drives a command
/// that firmware overrides, so it counts as unavailable. An absent one is told apart from
/// one that needs opting in, because the fix differs.
pub open spec fn charge_reason(threshold: bool, forced: bool, param: bool) -> Option<Seq<char>> {
    if threshold && forced {
        Some(
            "the EC ignores this threshold: Framework's custom charge command overrides the standard one, and the battery charges past the limit to full. Use the battery limit in UEFI setup instead"@,
        )
    } else if threshold {
        None
    } else if param {
        Some(
            "cros_charge-control declined to load; set probe_with_fwk_charge_control=1 (see ADR 0008)"@,
        )
    } else {
        Some("no charge control interface and no module parameter to enable one"@)
    }
}

/// Whether a zone's counter is there.
pub open spec fn zone_there(z: ZoneSurvey<Answer>) -> bool {
    z.present is Ok
}

/// Whether a zone's counter is there and reads as a number.
pub open spec fn zone_reads(z: ZoneSurvey<Answer>) -> bool {
    zone_there(z) && unsigned_in(z.zone@, reply(z.energy)) is Ok
}

/// The first zone whose counter reads, from zone `i` on.
pub open spec fn reading_zone(zones: Seq<ZoneSurvey<Answer>>, i: int) -> Option<Seq<char>>
    decreases zones.len() - i,
{
    if i >= zones.len() {
        None
    } else if zone_reads(zones[i]) {
        Some(zones[i].zone@)
    } else {
        reading_zone(zones, i + 1)
    }
}

/// A counter that is there but does not read needs privilege; no counter at all is a
/// property of the board.
pub open spec fn energy_reason(zones: Seq<ZoneSurvey<Answer>>) -> Option<Seq<char>> {
    if reading_zone(zones, 0) is Some {
        None
    } else if exists|i: int| 0 <= i < zones.len() && zone_there(#[trigger] zones[i]) {
        Some("energy_uj unreadable; daemon must run as root"@)
    } else {
        Some("no rapl zone exposes energy_uj"@)
    }
}

pub open spec fn text_of(s: Option<String>) -> Option<Seq<char>> {
    match s {
        Some(s) => Some(s@),
        None => None,
    }
}

fn path_of(dir: &str, file: &str) -> (r: String)
    ensures
        r@ == dir@ + file@,
{
    let mut s = dir.to_owned();
    s.append(file);
    s
}

pub const POWER_CONSTRAINT: &'static str = "/constraint_0_power_limit_uw";

pub const ENERGY: &'static str = "/energy_uj";

impl Capabilities {
    /// What to ask of the files before a probe.
    pub fn questions(ec_hwmon: Option<&str>) -> (r: ProbeSurvey<FileOp>)
        ensures
            match ec_hwmon {
                Some(h) => r.pwm_enable matches Some(o) && o@ == Op::Exists(h@ + PWM_ENABLE@),
                None => r.pwm_enable is None,
            },
            r.power_zone@ == Op::Exists(RAPL_MMIO@),
            r.power_constraint@ == Op::Exists(RAPL_MMIO@ + POWER_CONSTRAINT@),
            r.charge_threshold@ == Op::Exists(attribute()),
            r.charge_param@ == Op::Read(CHARGE_LIMIT_PARAM@),
            r.charge_param_present@ == Op::Exists(CHARGE_LIMIT_PARAM@),
            r.platform_profile@ == Op::Exists(PLATFORM_PROFILE@),
            r.zones@.len() == 2,
            forall|i: int|
                0 <= i < 2 ==> (#[trigger] r.zones@[i]).zone@ == seq![RAPL_MMIO@, RAPL_MSR@][i]
                    && r.zones@[i].present@ == Op::Exists(r.zones@[i].zone@ + ENERGY@)
                    && r.zones@[i].energy@ == Op::Read(r.zones@[i].zone@ + ENERGY@),
    {
        let zones = vec![
            ZoneSurvey {
                zone: RAPL_MMIO.to_owned(),
                present: FileOp::Exists(path_of(RAPL_MMIO, ENERGY)),
                energy: FileOp::Read(path_of(RAPL_MMIO, ENERGY)),
            },
            ZoneSurvey {
                zone: RAPL_MSR.to_owned(),
                present: FileOp::Exists(path_of(RAPL_MSR, ENERGY)),
                energy: FileOp::Read(path_of(RAPL_MSR, ENERGY)),
            },
        ];
        ProbeSurvey {
            pwm_enable: match ec_hwmon {
                Some(h) => Some(FileOp::Exists(path_of(h, PWM_ENABLE))),
                None => None,
            },
            power_zone: FileOp::Exists(RAPL_MMIO.to_owned()),
            power_constraint: FileOp::Exists(path_of(RAPL_MMIO, POWER_CONSTRAINT)),
            charge_threshold: FileOp::Exists(path_of(BATTERY, THRESHOLD)),
            charge_param: FileOp::Read(CHARGE_LIMIT_PARAM.to_owned()),
            charge_param_present: FileOp::Exists(CHARGE_LIMIT_PARAM.to_owned()),
            platform_profile: FileOp::Exists(PLATFORM_PROFILE.to_owned()),
            zones,
        }
    }

    /// What this machine can do, given the EC's node by name and what the files said. Every
    /// knob resolves to [`Cap::Yes`] or a reason why it cannot be driven.
    pub fn probe(ec_hwmon: Option<String>, found: &ProbeSurvey<Answer>) -> (r: Self)
        ensures
            r.fan_control@ == fan_reason(text_of(ec_hwmon), found.pwm_enable),
            r.power_limit@ == power_reason(
                found.power_zone is Ok,
                found.power_constraint is Ok,
            ),
            r.charge_limit@ == charge_reason(
                found.charge_threshold is Ok,
                forced(found.charge_param),
                found.charge_param_present is Ok,
            ),
            r.platform_profile@ == (if found.platform_profile is Ok {
                None
            } else {
                Some("no ACPI platform_profile"@)
            }),
            r.package_power@ == energy_reason(found.zones@),
            r.ec_hwmon == ec_hwmon,
            text_of(r.energy_zone) == reading_zone(found.zones@, 0),
    {
        let fan_control = match (&ec_hwmon, &found.pwm_enable) {
            (None, _) => Cap::no("no cros_ec hwmon node; is cros_ec_hwmon loaded?"),
            (Some(_), Some(Ok(_))) => Cap::Yes,
            _ => Cap::no("cros_ec hwmon present but exposes no pwm1_enable"),
        };
        let power_limit = if found.power_zone.is_err() {
            Cap::no("no intel-rapl-mmio:0 zone")
        } else if found.power_constraint.is_err() {
            Cap::no("rapl zone exposes no long_term constraint")
        } else {
            Cap::Yes
        };
        let is_forced = match &found.charge_param {
            Ok(t) => {
                let t = trim(t.as_str());
                same(t, "Y") || same(t, "y") || same(t, "1")
            },
            Err(_) => false,
        };
        let charge_limit = if found.charge_threshold.is_ok() && is_forced {
            Cap::no(
                "the EC ignores this threshold: Framework's custom charge command overrides the standard one, and the battery charges past the limit to full. Use the battery limit in UEFI setup instead",
            )
        } else if found.charge_threshold.is_ok() {
            Cap::Yes
        } else if found.charge_param_present.is_ok() {
            Cap::no(
                "cros_charge-control declined to load; set probe_with_fwk_charge_control=1 (see ADR 0008)",
            )
        } else {
            Cap::no("no charge control interface and no module parameter to enable one")
        };
        let platform_profile = if found.platform_profile.is_ok() {
            Cap::Yes
        } else {
            Cap::no("no ACPI platform_profile")
        };
        let mut energy_zone: Option<String> = None;
        let mut any_zone = false;
        let mut i: usize = 0;
        while i < found.zones.len() && energy_zone.is_none()
            invariant
                i <= found.zones@.len(),
                match energy_zone {
                    Some(z) => reading_zone(found.zones@, 0) == Some(z@),
                    None => reading_zone(found.zones@, 0) == reading_zone(found.zones@, i as int),
                },
                energy_zone is None ==> any_zone == (exists|k: int|
                    0 <= k < i && zone_there(#[trigger] found.zones@[k])),
            decreases found.zones@.len() - i,
        {
            let z = &found.zones[i];
            if z.present.is_ok() {
                any_zone = true;
                let text: Answer = match &z.energy {
                    Ok(t) => Ok(t.clone()),
                    Err(e) => Err(e.copy()),
                };
                if Sysfs::default().read_u64(z.zone.as_str(), text).is_ok() {
                    energy_zone = Some(z.zone.clone());
                }
                assert(zone_there(found.zones@[i as int]));
            }
            i = i + 1;
        }
        let package_power = if energy_zone.is_some() {
            Cap::Yes
        } else if any_zone {
            Cap::no("energy_uj unreadable; daemon must run as root")
        } else {
            Cap::no("no rapl zone exposes energy_uj")
        };
        Self {
            fan_control,
            power_limit,
            charge_limit,
            platform_profile,
            package_power,
            ec_hwmon,
            energy_zone,
        }
    }

    /// The same on a board, where the fan of one that nobody measured is refused: no firmware
    /// floor could be trusted there to stay above its firmware.
    pub fn on_board(self, board: &Board) -> (r: Self)
        ensures
            r.fan_control@ == (match self.fan_control@ {
                Some(why) => Some(why),
                None => if *board is Unknown {
                    Some(
                        board.spec_text()
                            + ": this board's fan is unmeasured, so no firmware floor can be trusted; see scripts/probe-fan-amd.c"@,
                    )
                } else {
                    None
                },
            }),
            r.power_limit == self.power_limit,
            r.charge_limit == self.charge_limit,
            r.platform_profile == self.platform_profile,
            r.package_power == self.package_power,
            r.ec_hwmon == self.ec_hwmon,
            r.energy_zone == self.energy_zone,
    {
        let mut r = self;
        if r.fan_control.is_available() && board.profile().is_none() {
            let mut s = board.text();
            s.append(
                ": this board's fan is unmeasured, so no firmware floor can be trusted; see scripts/probe-fan-amd.c",
            );
            r.fan_control = Cap::No(s);
        }
        r
    }

    /// Every knob by name.
    pub fn summary(&self) -> (r: Vec<(&'static str, &Cap)>)
        ensures
            r@.len() == 5,
            r@[0].0@ == "fan control"@ && *r@[0].1 == self.fan_control,
            r@[1].0@ == "power limit"@ && *r@[1].1 == self.power_limit,
            r@[2].0@ == "charge limit"@ && *r@[2].1 == self.charge_limit,
            r@[3].0@ == "platform profile"@ && *r@[3].1 == self.platform_profile,
            r@[4].0@ == "package power"@ && *r@[4].1 == self.package_power,
    {
        vec![
            ("fan control", &self.fan_control),
            ("power limit", &self.power_limit),
            ("charge limit", &self.charge_limit),
            ("platform profile", &self.platform_profile),
            ("package power", &self.package_power),
        ]
    }
}

/// The fan can be driven exactly where the EC's node was found and has the mode file, power
/// where the zone is there with its limit, and charging where the threshold is there and was not
/// forced to be.
pub proof fn a_knob_is_there_where_its_files_are(
    hwmon: Option<Seq<char>>,
    pwm_enable: Option<Answer>,
    a: bool,
    b: bool,
    c: bool,
)
    ensures
        fan_reason(hwmon, pwm_enable) is None <==> hwmon is Some && (pwm_enable matches Some(Ok(_))),
        power_reason(a, b) is None <==> a && b,
        charge_reason(a, b, c) is None <==> a && !b,
{
}

/// Package power is read from the first zone whose counter is there and reads as a number, and
/// can be had exactly where there is one.
pub proof fn the_first_zone_that_reads_is_used(zones: Seq<ZoneSurvey<Answer>>, i: int)
    requires
        0 <= i <= zones.len(),
    ensures
        reading_zone(zones, i) matches Some(z) ==> exists|k: int|
            i <= k < zones.len() && (#[trigger] zones[k]).zone@ == z && zones[k].present is Ok
                && unsigned_in(zones[k].zone@, reply(zones[k].energy)) is Ok && forall|j: int|
                i <= j < k ==> (#[trigger] zones[j]).present is Err || unsigned_in(
                    zones[j].zone@,
                    reply(zones[j].energy),
                ) is Err,
        reading_zone(zones, i) is None ==> forall|j: int|
            i <= j < zones.len() ==> (#[trigger] zones[j]).present is Err || unsigned_in(
                zones[j].zone@,
                reply(zones[j].energy),
            ) is Err,
        energy_reason(zones) is None <==> reading_zone(zones, 0) is Some,
    decreases zones.len() - i,
{
    if i < zones.len() {
        the_first_zone_that_reads_is_used(zones, i + 1);
        if zone_reads(zones[i]) {
            assert(zones[i].zone@ == reading_zone(zones, i)->0);
        } else if reading_zone(zones, i) is Some {
            let z = reading_zone(zones, i)->0;
            let k = choose|k: int|
                i + 1 <= k < zones.len() && (#[trigger] zones[k]).zone@ == z && zones[k].present is Ok
                    && unsigned_in(zones[k].zone@, reply(zones[k].energy)) is Ok && forall|j: int|
                    i + 1 <= j < k ==> (#[trigger] zones[j]).present is Err || unsigned_in(
                        zones[j].zone@,
                        reply(zones[j].energy),
                    ) is Err;
            assert(zones[k].zone@ == z);
        }
    }
}

}
