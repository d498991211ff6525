//! What each supported board is, as measured.
//!
//! How fast a given duty turns the fan, which sensor firmware follows and what firmware
//! does at each temperature are properties of the board, so the answers live here, keyed
//! by the DMI board name they were measured on. An unmeasured board gets no profile:
//! guessing is how a floor ends up below firmware.

use vstd::prelude::*;
use crate::floor::FULL_DUTY_ABOVE_C;
use crate::text::{one_of, starts_with, trim, trimmed, views};

verus! {

/// DMI board name, relative to the [`crate::sysfs::Sysfs`] root.
pub const DMI_BOARD_NAME: &'static str = "sys/class/dmi/id/board_name";

/// What a written duty turned the fan at on the Intel board, duty ascending.
pub const INTEL_DUTY_RPM: [(u8, u16); 12] = [
    (0, 0),
    (20, 0),
    (30, 1107),
    (40, 1512),
    (50, 1879),
    (65, 2296),
    (77, 2693),
    (90, 3052),
    (100, 3355),
    (120, 3840),
    (150, 4551),
    (180, 5201),
];

/// What firmware does on the Intel board: millidegrees to rpm, ascending.
pub const INTEL_FIRMWARE_CURVE: [(i64, u16); 5] = [
    (43_900, 0),
    (44_900, 0),
    (53_900, 2020),
    (64_800, 2925),
    (76_800, 3100),
];

/// What a written duty turned the fan at on the AMD boards: the lower of the two sweeps
/// at each point, because a table that overstates the rpm of a duty answers with a duty
/// that is too low.
pub const AMD_DUTY_RPM: [(u8, u16); 19] = [
    (0, 0),
    (20, 0),
    (26, 967),
    (31, 1221),
    (36, 1456),
    (41, 1689),
    (46, 1916),
    (51, 2155),
    (64, 2664),
    (77, 3160),
    (89, 3614),
    (102, 4045),
    (115, 4468),
    (128, 4890),
    (153, 5585),
    (179, 6182),
    (204, 6779),
    (230, 7336),
    (255, 7864),
];

/// What firmware does on the AMD boards. It is off at 49.9 °C and at 2265 rpm by the
/// next reading, so the step is written as one.
pub const AMD_FIRMWARE_CURVE: [(i64, u16); 13] = [
    (49_900, 0),
    (50_000, 2265),
    (51_900, 2472),
    (52_900, 2679),
    (53_900, 2928),
    (55_900, 3342),
    (57_900, 3797),
    (59_900, 4212),
    (61_900, 4667),
    (63_900, 5081),
    (65_800, 5537),
    (67_800, 5951),
    (68_800, 6200),
];

/// A board's measured fan characteristics.
#[derive(Debug, Clone, Copy)]
pub struct BoardProfile {
    /// For logs and capability messages.
    pub name: &'static str,
    /// DMI board names these measurements were taken on.
    pub measured_on: &'static [&'static str],
    /// Board-name prefix of the family: siblings that are expected, not shown, to match.
    pub family_prefix: &'static str,
    /// The sensor firmware's fan decision follows. The floor must be expressed on the
    /// same sensor, or "never quieter than firmware" compares the wrong things.
    pub control_sensor: &'static str,
    /// What a written duty produces, 0-255 duty ascending.
    pub duty_rpm: &'static [(u8, u16)],
    /// What firmware does, as control-sensor millidegrees to rpm, ascending.
    pub firmware_curve: &'static [(i64, u16)],
    /// Whether firmware's curve depends on direction against the control sensor. Where
    /// it does, only the heating branch says what a temperature needs.
    pub firmware_curve_hysteretic: bool,
}

/// Warmer never means slower, and no temperature occurs twice.
pub open spec fn ascending_curve(t: Seq<(i64, u16)>) -> bool {
    forall|i: int, j: int| 0 <= i < j < t.len() ==> t[i].0 < t[j].0 && t[i].1 <= t[j].1
}

/// More duty never means slower, and no duty occurs twice.
pub open spec fn ascending_duty(t: Seq<(u8, u16)>) -> bool {
    forall|i: int, j: int| 0 <= i < j < t.len() ==> t[i].0 < t[j].0 && t[i].1 <= t[j].1
}

impl BoardProfile {
    /// Interpolating and inverting the tables both rest on this: both ascend, the fan stands
    /// still without a duty, and firmware was measured neither so hot that the floor is full
    /// duty there nor faster than any duty turned the fan.
    pub open spec fn wf(&self) -> bool {
        &&& ascending_duty(self.duty_rpm@)
        &&& ascending_curve(self.firmware_curve@)
        &&& self.duty_rpm@.len() >= 2
        &&& self.firmware_curve@.len() >= 2
        &&& self.duty_rpm@[0].1 == 0
        &&& 0 <= self.firmware_curve@[0].0
        &&& self.firmware_curve@.last().0 < FULL_DUTY_ABOVE_C
        &&& self.firmware_curve@.last().1 <= self.duty_rpm@.last().1
    }

    /// The measurements of the Intel Core Ultra Series 3 board.
    pub open spec fn is_intel(&self) -> bool {
        &&& self.wf()
        &&& self.name@ == "Framework 13 Pro (Intel Core Ultra Series 3)"@
        &&& views(self.measured_on@) == seq!["FRANMJCP07"@]
        &&& self.family_prefix@ == "FRANMJCP"@
        &&& self.control_sensor@ == "peci-temp"@
        &&& self.duty_rpm@ == INTEL_DUTY_RPM@
        &&& self.firmware_curve@ == INTEL_FIRMWARE_CURVE@
        &&& self.firmware_curve_hysteretic
    }

    /// The measurements of the AMD Ryzen AI 300 boards.
    pub open spec fn is_amd(&self) -> bool {
        &&& self.wf()
        &&& self.name@ == "Framework 13 (AMD Ryzen AI 300)"@
        &&& views(self.measured_on@) == seq!["FRANMGCP05"@, "FRANMGCP09"@]
        &&& self.family_prefix@ == "FRANMGCP"@
        &&& self.control_sensor@ == "cpu_f75303@4d"@
        &&& self.duty_rpm@ == AMD_DUTY_RPM@
        &&& self.firmware_curve@ == AMD_FIRMWARE_CURVE@
        &&& !self.firmware_curve_hysteretic
    }
}

/// Framework Laptop 13 Pro, Intel Core Ultra Series 3.
///
/// Its hysteresis was measured against `peci-temp`, the die sensor.
pub fn intel_core_ultra_3() -> (r: BoardProfile)
    ensures
        r.is_intel(),
{
    let r = BoardProfile {
        name: "Framework 13 Pro (Intel Core Ultra Series 3)",
        measured_on: &["FRANMJCP07"],
        family_prefix: "FRANMJCP",
        control_sensor: "peci-temp",
        duty_rpm: &INTEL_DUTY_RPM,
        firmware_curve: &INTEL_FIRMWARE_CURVE,
        firmware_curve_hysteretic: true,
    };
    assert(views(r.measured_on@) =~= seq!["FRANMJCP07"@]);
    r
}

/// Framework Laptop 13, AMD Ryzen AI 300.
///
/// Firmware follows `cpu_f75303@4d`, a board thermistor. Against it the curve is the
/// same heating and cooling, so there is no branch to tell apart.
pub fn amd_ryzen_ai_300() -> (r: BoardProfile)
    ensures
        r.is_amd(),
{
    let r = BoardProfile {
        name: "Framework 13 (AMD Ryzen AI 300)",
        measured_on: &["FRANMGCP05", "FRANMGCP09"],
        family_prefix: "FRANMGCP",
        control_sensor: "cpu_f75303@4d",
        duty_rpm: &AMD_DUTY_RPM,
        firmware_curve: &AMD_FIRMWARE_CURVE,
        firmware_curve_hysteretic: false,
    };
    assert(views(r.measured_on@) =~= seq!["FRANMGCP05"@, "FRANMGCP09"@]);
    r
}

/// Every profile, in the order they are tried.
pub fn profiles() -> (r: Vec<BoardProfile>)
    ensures
        r@.len() == 2,
        r@[0].is_intel(),
        r@[1].is_amd(),
{
    vec![intel_core_ultra_3(), amd_ryzen_ai_300()]
}

/// What is known about the board this is running on.
#[derive(Debug, Clone)]
pub enum Board {
    /// These measurements were taken on exactly this board.
    Measured(BoardProfile),
    /// A sibling of a measured board, by its name. Expected to match, not shown to.
    Family(BoardProfile, String),
    /// Nothing measured applies.
    Unknown,
}

/// Whether the Intel measurements were taken on the board of this name.
pub open spec fn intel_measured(name: Seq<char>) -> bool {
    name == "FRANMJCP07"@
}

/// Whether the AMD measurements were taken on the board of this name.
pub open spec fn amd_measured(name: Seq<char>) -> bool {
    name == "FRANMGCP05"@ || name == "FRANMGCP09"@
}

pub open spec fn intel_family(name: Seq<char>) -> bool {
    "FRANMJCP"@.is_prefix_of(name)
}

pub open spec fn amd_family(name: Seq<char>) -> bool {
    "FRANMGCP"@.is_prefix_of(name)
}

impl Board {
    /// What a board of this name is: measured where the name is one that was measured on,
    /// a sibling where only the family fits, unknown otherwise.
    pub open spec fn is_board_named(self, name: Seq<char>) -> bool {
        if intel_measured(name) {
            self matches Board::Measured(p) && p.is_intel()
        } else if amd_measured(name) {
            self matches Board::Measured(p) && p.is_amd()
        } else if intel_family(name) {
            self matches Board::Family(p, n) && p.is_intel() && n@ == name
        } else if amd_family(name) {
            self matches Board::Family(p, n) && p.is_amd() && n@ == name
        } else {
            self is Unknown
        }
    }

    /// The profile to use, if any.
    pub fn profile(&self) -> (r: Option<BoardProfile>)
        ensures
            r == match *self {
                Board::Measured(p) => Some(p),
                Board::Family(p, _) => Some(p),
                Board::Unknown => None,
            },
    {
        match self {
            Board::Measured(p) => Some(*p),
            Board::Family(p, _) => Some(*p),
            Board::Unknown => None,
        }
    }

    pub open spec fn spec_text(self) -> Seq<char> {
        match self {
            Board::Measured(p) => p.name@ + " (measured)"@,
            Board::Family(p, name) => name@ + ", treated as "@ + p.name@
                + " - same family, not itself measured"@,
            Board::Unknown => "unrecognised board"@,
        }
    }

    /// For the log: which board, and how sure.
    pub fn text(&self) -> (r: String)
        ensures
            r@ == self.spec_text(),
    {
        match self {
            Board::Measured(p) => {
                let mut s = p.name.to_owned();
                s.append(" (measured)");
                s
            },
            Board::Family(p, name) => {
                let mut s = name.as_str().to_owned();
                s.append(", treated as ");
                s.append(p.name);
                s.append(" - same family, not itself measured");
                s
            },
            Board::Unknown => "unrecognised board".to_owned(),
        }
    }
}

/// Identify a board from its DMI name.
pub fn identify_name(name: &str) -> (r: Board)
    ensures
        r.is_board_named(name@),
{
    let known = profiles();
    proof {
        let intel = seq!["FRANMJCP07"@];
        let amd = seq!["FRANMGCP05"@, "FRANMGCP09"@];
        assert(intel.contains(name@) <==> intel_measured(name@)) by {
            assert(intel[0] == "FRANMJCP07"@);
        }
        assert(amd.contains(name@) <==> amd_measured(name@)) by {
            assert(amd[0] == "FRANMGCP05"@);
            assert(amd[1] == "FRANMGCP09"@);
        }
    }
    let mut i: usize = 0;
    while i < known.len()
        invariant
            known@.len() == 2,
            known@[0].is_intel(),
            known@[1].is_amd(),
            views(known@[0].measured_on@).contains(name@) <==> intel_measured(name@),
            views(known@[1].measured_on@).contains(name@) <==> amd_measured(name@),
            i <= 2,
            forall|j: int| 0 <= j < i ==> !views(#[trigger] known@[j].measured_on@).contains(name@),
        decreases known@.len() - i,
    {
        if one_of(name, known[i].measured_on) {
            proof {
                if i == 1 {
                    assert(!views(known@[0].measured_on@).contains(name@));
                }
            }
            return Board::Measured(known[i]);
        }
        i = i + 1;
    }
    let mut k: usize = 0;
    while k < known.len()
        invariant
            known@.len() == 2,
            known@[0].is_intel(),
            known@[1].is_amd(),
            !intel_measured(name@),
            !amd_measured(name@),
            k <= 2,
            forall|j: int| 0 <= j < k ==> !(#[trigger] known@[j].family_prefix@).is_prefix_of(name@),
        decreases known@.len() - k,
    {
        if starts_with(name, known[k].family_prefix) {
            proof {
                if k == 1 {
                    assert(!known@[0].family_prefix@.is_prefix_of(name@));
                }
            }
            return Board::Family(known[k], name.to_owned());
        }
        k = k + 1;
    }
    Board::Unknown
}

/// Identify this board from what DMI says of it; nothing readable is an unknown board.
pub fn identify(board_name: Option<&str>) -> (r: Board)
    ensures
        match board_name {
            Some(n) => r.is_board_named(trimmed(n@)),
            None => r is Unknown,
        },
{
    match board_name {
        Some(n) => identify_name(trim(n)),
        None => Board::Unknown,
    }
}

/// The start of its name decides whose measurements a board has, and only the names that were
/// measured on count as measured.
pub proof fn the_start_of_its_name_decides_the_board(board: Board, name: Seq<char>)
    requires
        board.is_board_named(name),
    ensures
        board is Unknown <==> !"FRANMJCP"@.is_prefix_of(name) && !"FRANMGCP"@.is_prefix_of(name),
        "FRANMJCP"@.is_prefix_of(name) ==> (board matches Board::Measured(p) ==> p.is_intel()) && (
        board matches Board::Family(p, n) ==> p.is_intel() && n@ == name),
        "FRANMGCP"@.is_prefix_of(name) ==> (board matches Board::Measured(p) ==> p.is_amd()) && (
        board matches Board::Family(p, n) ==> p.is_amd() && n@ == name),
        board is Measured <==> name == "FRANMJCP07"@ || name == "FRANMGCP05"@ || name
            == "FRANMGCP09"@,
{
    reveal_strlit("FRANMJCP");
    reveal_strlit("FRANMGCP");
    reveal_strlit("FRANMJCP07");
    reveal_strlit("FRANMGCP05");
    reveal_strlit("FRANMGCP09");
    assert("FRANMJCP"@.is_prefix_of("FRANMJCP07"@));
    assert("FRANMGCP"@.is_prefix_of("FRANMGCP05"@));
    assert("FRANMGCP"@.is_prefix_of("FRANMGCP09"@));
    assert("FRANMJCP"@[5] == 'J' && "FRANMGCP"@[5] == 'G');
    assert("FRANMJCP"@.is_prefix_of(name) ==> name[5] == 'J');
    assert("FRANMGCP"@.is_prefix_of(name) ==> name[5] == 'G');
}

}
