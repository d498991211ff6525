//! Ownership of manual fan control.
//!
//! [`crate::fan`] provides the mechanism; this decides *when* the fan is held, keeps it at
//! or above the firmware floor for as long as it is, and lets go.
//!
//! Enforcement compares decisions, not observations. Judging "are we below the floor" by the
//! hardware's quantized read-back would let a real deficit hide inside the tolerance.
//!
//! Temperatures are in thousandths of a degree Celsius; `None` is a temperature nobody could
//! read. Operations that touch hardware are pieces of file-driven work, see
//! [`crate::sysfs::Step`]: nothing changes until they are done.

use vstd::prelude::*;
use crate::battery::BatteryGuard;
use crate::board::{intel_core_ultra_3, BoardProfile};
use crate::ceiling::{limit_for, plausible, Ceiling, CEILING_MARGIN_C};
use crate::curve::{curve_duty, followed, stepped, Curve, CurveEngine};
use crate::editor::{as_pairs, to_pairs};
use crate::fan::{
    a_duty_reads_as_its_file_has_it,
    a_mode_reads_as_its_file_has_it,
    best_effort_run,
    close,
    duty_run,
    lemma_files_differ,
    mode_run,
    only_an_honest_duty_is_written,
    release_run,
    set_duty_run,
    supported_run,
    take_run,
    FanControl,
    FanError,
    FanFault,
    FanMode,
    DUTY_TOLERANCE,
    PWM,
};
use crate::floor::{
    changes,
    differing,
    listed,
    louder,
    spans,
    with_observations,
    FirmwareFloor,
    BUCKETS,
    LEAST_DUTY,
};
use crate::number::{decimal, milli, one_place, one_place_text, parse_milli};
use crate::sysfs::{
    an_unreadable_file_holds_no_number,
    replies,
    Answer,
    FileOp,
    IoFault,
    Op,
    Replay,
    Reply,
    Run,
    Step,
};
use crate::telemetry::{battery_index, control_index, Telemetry};

verus! {

#[derive(Debug, Clone, PartialEq, Eq)]
pub enum LeaseError {
    /// No usable temperature: no sensor, no manual fan.
    NoTemperature,
    /// Too hot for user configuration to have a say.
    AboveCeiling { celsius: i64, ceiling: Ceiling },
    /// The battery is near its own limit. Unlike the CPU it cannot throttle to protect
    /// itself, so this is not the user's call.
    BatteryTooHot { celsius: i64, guard: BatteryGuard },
    Fan(FanError),
}

/// What a [`LeaseError`] says.
pub enum LeaseFault {
    NoTemperature,
    AboveCeiling { celsius: i64, ceiling: Ceiling },
    BatteryTooHot { celsius: i64, guard: BatteryGuard },
    Fan(FanFault),
}

impl View for LeaseError {
    type V = LeaseFault;

    open spec fn view(&self) -> LeaseFault {
        match *self {
            LeaseError::NoTemperature => LeaseFault::NoTemperature,
            LeaseError::AboveCeiling { celsius, ceiling } => LeaseFault::AboveCeiling {
                celsius,
                ceiling,
            },
            LeaseError::BatteryTooHot { celsius, guard } => LeaseFault::BatteryTooHot {
                celsius,
                guard,
            },
            LeaseError::Fan(e) => LeaseFault::Fan(e@),
        }
    }
}

impl LeaseFault {
    pub open spec fn text(self) -> Seq<char> {
        match self {
            LeaseFault::NoTemperature =>
                "no readable temperature sensor, so the firmware floor cannot be computed and manual fan control would be unbounded; leaving the fan to the EC (ADR 0006 point 6)"@,
            LeaseFault::AboveCeiling { celsius, ceiling } => one_place(celsius as int)
                + " C is at or above the "@ + ceiling.spec_text()
                + " ceiling, where the fan belongs to firmware and configuration does not get a vote (ADR 0006 point 5). Let the machine cool, then ask again"@,
            LeaseFault::BatteryTooHot { celsius, guard } => "the battery is at "@ + one_place(
                celsius as int,
            ) + " C, close to its "@ + guard.spec_text()
                + ". Unlike the CPU it cannot throttle to protect itself, so the fan is not configurable until it cools (ADR 0011)"@,
            LeaseFault::Fan(e) => e.text(),
        }
    }
}

impl LeaseError {
    pub fn text(&self) -> (r: String)
        ensures
            r@ == self@.text(),
    {
        match self {
            LeaseError::NoTemperature =>
                "no readable temperature sensor, so the firmware floor cannot be computed and manual fan control would be unbounded; leaving the fan to the EC (ADR 0006 point 6)".to_owned(),
            LeaseError::AboveCeiling { celsius, ceiling } => {
                let mut s = one_place_text(*celsius);
                s.append(" C is at or above the ");
                s.append(ceiling.text().as_str());
                s.append(
                    " ceiling, where the fan belongs to firmware and configuration does not get a vote (ADR 0006 point 5). Let the machine cool, then ask again",
                );
                s
            },
            LeaseError::BatteryTooHot { celsius, guard } => {
                let mut s = "the battery is at ".to_owned();
                s.append(one_place_text(*celsius).as_str());
                s.append(" C, close to its ");
                s.append(guard.text().as_str());
                s.append(
                    ". Unlike the CPU it cannot throttle to protect itself, so the fan is not configurable until it cools (ADR 0011)",
                );
                s
            },
            LeaseError::Fan(e) => e.text(),
        }
    }
}

/// Everything a fan decision needs from the thermal sensors.
#[derive(Debug, Clone, Copy, PartialEq, Eq)]
pub struct Thermal {
    /// The sensor a fan curve follows.
    pub celsius: Option<i64>,
    pub ceiling: Ceiling,
    /// The battery's temperature. `None` where the board has no battery sensor, which is a
    /// normal state and not a reason to run the fan hard.
    pub battery_celsius: Option<i64>,
    pub battery: BatteryGuard,
}

/// The critical point that decides the ceiling: the sensor's own, unless a debugging
/// override asks for a lower ceiling. An override may only make the daemon more cautious.
pub open spec fn deciding_crit(crit: Option<i64>, override_c: Option<Seq<char>>) -> Option<i64> {
    match override_c {
        Some(s) => match milli(s, false) {
            Some(c) if c < limit_for(crit) && limit_for(Some((c + CEILING_MARGIN_C) as i64))
                <= limit_for(crit) => Some((c + CEILING_MARGIN_C) as i64),
            _ => crit,
        },
        None => crit,
    }
}

/// The ceiling from a sensor's critical point, lowered to a debugging override where that
/// is a number below it.
pub fn ceiling_for(crit: Option<i64>, override_c: Option<&str>) -> (r: Ceiling)
    ensures
        r.limit() == limit_for(deciding_crit(crit, place(override_c))),
        r.from_sensor() == plausible(deciding_crit(crit, place(override_c))),
        r.limit() <= limit_for(crit),
{
    let derived = Ceiling::from_crit(crit);
    let asked = match override_c {
        Some(s) => parse_milli(s),
        None => None,
    };
    match asked {
        Some(c) if c < derived.celsius() => {
            let low = Ceiling::from_crit(Some(c + CEILING_MARGIN_C));
            if low.celsius() <= derived.celsius() {
                low
            } else {
                derived
            }
        },
        _ => derived,
    }
}

impl Thermal {
    /// Read the decision inputs out of a telemetry sample.
    pub fn from_telemetry(t: &Telemetry, override_c: Option<&str>) -> (r: Self)
        ensures
            r.celsius == (match control_index(t@.temps) {
                Some(i) => Some(t@.temps[i].celsius),
                None => None,
            }),
            r.battery_celsius == (match battery_index(t@.temps) {
                Some(i) => Some(t@.temps[i].celsius),
                None => None,
            }),
            ({
                let crit = deciding_crit(
                    match control_index(t@.temps) {
                        Some(i) => t@.temps[i].critical,
                        None => None,
                    },
                    place(override_c),
                );
                r.ceiling.limit() == limit_for(crit) && r.ceiling.from_sensor() == plausible(crit)
            }),
            r.battery.limit() == ({
                let crit = match battery_index(t@.temps) {
                    Some(i) => t@.temps[i].critical,
                    None => None,
                };
                if crate::battery::plausible(crit) {
                    crit->0
                } else {
                    crate::battery::FALLBACK_CRIT_C
                }
            }),
    {
        let (celsius, crit) = match t.control_temp() {
            Some(c) => (Some(c.celsius), c.critical),
            None => (None, None),
        };
        let (battery_celsius, battery_crit) = match t.battery_temp() {
            Some(b) => (Some(b.celsius), b.critical),
            None => (None, None),
        };
        Self {
            celsius,
            ceiling: ceiling_for(crit, override_c),
            battery_celsius,
            battery: BatteryGuard::from_crit(battery_crit),
        }
    }

    /// The battery's own demand on the fan, whatever the CPU does.
    pub fn battery_floor_public(&self) -> (r: u8)
        ensures
            r == self.battery.floor(self.battery_celsius),
    {
        self.battery.floor_duty(self.battery_celsius)
    }

    /// Why the fan may not be held at all, if it may not: what cannot be measured and what
    /// is too hot belongs to firmware.
    pub open spec fn refusal(self) -> Option<LeaseFault> {
        match self.celsius {
            None => Some(LeaseFault::NoTemperature),
            Some(celsius) => if self.ceiling.exceeded(Some(celsius)) {
                Some(LeaseFault::AboveCeiling { celsius, ceiling: self.ceiling })
            } else {
                match self.battery_celsius {
                    Some(celsius) if self.battery.exceeded(Some(celsius)) => Some(
                        LeaseFault::BatteryTooHot { celsius, guard: self.battery },
                    ),
                    _ => None,
                }
            },
        }
    }

    /// Why the fan may not be held at all, if it may not.
    pub fn refused(&self) -> (r: Option<LeaseError>)
        ensures
            match r {
                Some(e) => self.refusal() == Some(e@),
                None => self.refusal() is None,
            },
            r matches Some(e) ==> !(e is Fan),
    {
        let celsius: i64 = match self.celsius {
            None => {
                return Some(LeaseError::NoTemperature);
            },
            Some(c) => c,
        };
        if self.ceiling.exceeded_by(Some(celsius)) {
            return Some(LeaseError::AboveCeiling { celsius, ceiling: self.ceiling });
        }
        match self.battery_celsius {
            Some(c) if self.battery.exceeded_by(Some(c)) => Some(
                LeaseError::BatteryTooHot { celsius: c, guard: self.battery },
            ),
            _ => None,
        }
    }
}

/// What actually happened when a duty was requested.
#[derive(Debug, Clone, Copy, PartialEq, Eq, Structural)]
pub struct Applied {
    /// What the caller asked for.
    pub requested: u8,
    /// What was written after clamping to the floor.
    pub target: u8,
    /// What the EC settled on. Differs from `target` by a count or two.
    pub settled: u8,
    /// The floor at the temperature used, so that a clamp can explain itself.
    pub floor: u8,
}

impl Applied {
    pub fn clamped(&self) -> (r: bool)
        ensures
            r == (self.target > self.requested),
    {
        self.target > self.requested
    }
}

/// Outcome of one floor enforcement pass.
#[allow(inconsistent_fields)]
#[derive(Debug, Clone, PartialEq, Eq)]
pub enum Enforced {
    /// The fan was moved to keep up with the floor, or to come back down from it.
    Corrected { from: u8, to: u8, floor: u8, celsius: i64 },
    /// The temperature became unreadable, so the fan went back to firmware.
    ReleasedNoSensor { released: bool },
    /// The battery reached its guard limit, so the fan went back to firmware.
    ReleasedBatteryHot { celsius: i64, guard: BatteryGuard, released: bool },
    /// Too hot for us to be holding the fan at all.
    ReleasedTooHot { celsius: i64, ceiling: Ceiling, released: bool },
    Failed(LeaseError),
}

/// What an [`Enforced`] says.
#[allow(inconsistent_fields)]
pub enum Outcome {
    Corrected { from: u8, to: u8, floor: u8, celsius: i64 },
    ReleasedNoSensor { released: bool },
    ReleasedBatteryHot { celsius: i64, guard: BatteryGuard, released: bool },
    ReleasedTooHot { celsius: i64, ceiling: Ceiling, released: bool },
    Failed(LeaseFault),
}

impl View for Enforced {
    type V = Outcome;

    open spec fn view(&self) -> Outcome {
        match *self {
            Enforced::Corrected { from, to, floor, celsius } => Outcome::Corrected {
                from,
                to,
                floor,
                celsius,
            },
            Enforced::ReleasedNoSensor { released } => Outcome::ReleasedNoSensor { released },
            Enforced::ReleasedBatteryHot { celsius, guard, released } => Outcome::ReleasedBatteryHot {
                celsius,
                guard,
                released,
            },
            Enforced::ReleasedTooHot { celsius, ceiling, released } => Outcome::ReleasedTooHot {
                celsius,
                ceiling,
                released,
            },
            Enforced::Failed(e) => Outcome::Failed(e@),
        }
    }
}

/// What was found at startup.
#[derive(Debug, Clone, Copy, PartialEq, Eq, Structural)]
pub enum Reclaimed {
    /// The EC has the fan, or there is none to have.
    Nothing,
    /// A previous instance left the fan in this mode; whether the EC has it now.
    From { was: FanMode, released: bool },
}

/// Whether the EC's node was found and can drive the fan.
pub open spec fn node_run(h: Option<Seq<char>>, a: Seq<Reply>, p: int) -> Run<bool> {
    match h {
        None => Run::Done(false, p),
        Some(h) => supported_run(h, a, p),
    }
}

/// Asking who owns the fan, if anybody can tell.
pub open spec fn lease_mode_run(h: Option<Seq<char>>, a: Seq<Reply>, p: int) -> Run<
    Option<FanMode>,
> {
    match node_run(h, a, p) {
        Run::Ask(op) => Run::Ask(op),
        Run::Done(false, q) => Run::Done(None, q),
        Run::Done(true, q) => match mode_run(h->0, a, q) {
            Run::Ask(op) => Run::Ask(op),
            Run::Done(Ok(m), z) => Run::Done(Some(m), z),
            Run::Done(Err(_), z) => Run::Done(None, z),
        },
    }
}

/// Asking what duty the EC reports, if anybody can tell.
pub open spec fn lease_duty_run(h: Option<Seq<char>>, a: Seq<Reply>, p: int) -> Run<Option<u8>> {
    match node_run(h, a, p) {
        Run::Ask(op) => Run::Ask(op),
        Run::Done(false, q) => Run::Done(None, q),
        Run::Done(true, q) => match duty_run(h->0, a, q) {
            Run::Ask(op) => Run::Ask(op),
            Run::Done(Ok(d), z) => Run::Done(Some(d), z),
            Run::Done(Err(_), z) => Run::Done(None, z),
        },
    }
}

/// Writing a duty: the fan is taken where the hardware says that it is not ours, whatever
/// our own record says.
pub open spec fn lease_write_run(h: Option<Seq<char>>, duty: u8, a: Seq<Reply>, p: int) -> Run<
    Result<u8, FanFault>,
> {
    match node_run(h, a, p) {
        Run::Ask(op) => Run::Ask(op),
        Run::Done(false, q) => Run::Done(Err(FanFault::Unsupported), q),
        Run::Done(true, q) => match mode_run(h->0, a, q) {
            Run::Ask(op) => Run::Ask(op),
            Run::Done(Err(e), z) => Run::Done(Err(e), z),
            Run::Done(Ok(m), z) => if m is Manual {
                set_duty_run(h->0, duty, a, z)
            } else {
                take_run(h->0, duty, a, z)
            },
        },
    }
}

/// Releasing without the ability to fail. Without fan control there is nothing to restore,
/// so nothing is wrong.
pub open spec fn release_now_run(h: Option<Seq<char>>, a: Seq<Reply>, p: int) -> Run<bool> {
    match node_run(h, a, p) {
        Run::Ask(op) => Run::Ask(op),
        Run::Done(false, q) => Run::Done(true, q),
        Run::Done(true, q) => best_effort_run(h->0, a, q),
    }
}

pub open spec fn louder_of(a: int, b: int) -> int {
    if a > b {
        a
    } else {
        b
    }
}

/// The duty to hold for a request above a floor: one that may not start the fan, such as a
/// curve passes through on its way up, is raised to the least that does.
pub open spec fn held_duty(requested: u8, floor: int) -> u8 {
    let target = louder_of(requested as int, floor) as u8;
    if 0 < target < LEAST_DUTY {
        LEAST_DUTY
    } else {
        target
    }
}

/// What setting a duty comes to, `floor` being the one that applies.
pub open spec fn set_run(
    h: Option<Seq<char>>,
    duty: u8,
    floor: int,
    thermal: Thermal,
    a: Seq<Reply>,
) -> Run<Result<Applied, LeaseFault>> {
    match thermal.refusal() {
        Some(e) => Run::Done(Err(e), 0),
        None => {
            let target = louder_of(duty as int, floor) as u8;
            match lease_write_run(h, target, a, 0) {
                Run::Ask(op) => Run::Ask(op),
                Run::Done(Err(e), n) => Run::Done(Err(LeaseFault::Fan(e)), n),
                Run::Done(Ok(settled), n) => Run::Done(
                    Ok(Applied { requested: duty, target, settled, floor: floor as u8 }),
                    n,
                ),
            }
        },
    }
}

/// What one pass of enforcement comes to while the fan is held.
pub open spec fn enforce_run(
    h: Option<Seq<char>>,
    requested: u8,
    applied: u8,
    floor: int,
    thermal: Thermal,
    a: Seq<Reply>,
) -> Run<Option<Outcome>> {
    match thermal.refusal() {
        Some(why) => match release_now_run(h, a, 0) {
            Run::Ask(op) => Run::Ask(op),
            Run::Done(released, n) => Run::Done(
                Some(
                    match why {
                        LeaseFault::AboveCeiling { celsius, ceiling } => Outcome::ReleasedTooHot {
                            celsius,
                            ceiling,
                            released,
                        },
                        LeaseFault::BatteryTooHot { celsius, guard } => {
                            Outcome::ReleasedBatteryHot { celsius, guard, released }
                        },
                        _ => Outcome::ReleasedNoSensor { released },
                    },
                ),
                n,
            ),
        },
        None => {
            let target = held_duty(requested, floor);
            match lease_duty_run(h, a, 0) {
                Run::Ask(op) => Run::Ask(op),
                Run::Done(None, n) => Run::Done(None, n),
                Run::Done(Some(current), n) => if target == applied && close(current, target) {
                    Run::Done(None, n)
                } else {
                    match lease_write_run(h, target, a, n) {
                        Run::Ask(op) => Run::Ask(op),
                        Run::Done(Err(e), z) => Run::Done(
                            Some(Outcome::Failed(LeaseFault::Fan(e))),
                            z,
                        ),
                        Run::Done(Ok(settled), z) => Run::Done(
                            Some(
                                Outcome::Corrected {
                                    from: current,
                                    to: settled,
                                    floor: floor as u8,
                                    celsius: thermal.celsius->0,
                                },
                            ),
                            z,
                        ),
                    }
                },
            }
        },
    }
}

pub open spec fn place(h: Option<&str>) -> Option<Seq<char>> {
    match h {
        Some(h) => Some(h@),
        None => None,
    }
}

fn node(h: Option<&str>, rp: &mut Replay) -> (r: Result<Option<FanControl>, FileOp>)
    requires
        old(rp).wf(),
    ensures
        final(rp).wf(),
        final(rp).given() == old(rp).given(),
        match node_run(place(h), old(rp).given(), old(rp).taken()) {
            Run::Ask(op) => r matches Err(o) && o@ == op,
            Run::Done(b, p) => r matches Ok(c) && (c is Some) == b && final(rp).taken() == p && (
            c matches Some(c) ==> Some(c@) == place(h)),
        },
{
    match h {
        None => Ok(None),
        Some(h) => {
            let c = FanControl::new(h);
            match c.supported(rp) {
                Err(op) => Err(op),
                Ok(true) => Ok(Some(c)),
                Ok(false) => Ok(None),
            }
        },
    }
}

fn read_lease_duty(h: Option<&str>, rp: &mut Replay) -> (r: Result<Option<u8>, FileOp>)
    requires
        old(rp).wf(),
    ensures
        final(rp).wf(),
        final(rp).given() == old(rp).given(),
        match lease_duty_run(place(h), old(rp).given(), old(rp).taken()) {
            Run::Ask(op) => r matches Err(o) && o@ == op,
            Run::Done(d, p) => r == Ok::<Option<u8>, FileOp>(d) && final(rp).taken() == p,
        },
{
    match node(h, rp) {
        Err(op) => Err(op),
        Ok(None) => Ok(None),
        Ok(Some(c)) => match c.read_duty(rp) {
            Err(op) => Err(op),
            Ok(Ok(d)) => Ok(Some(d)),
            Ok(Err(_)) => Ok(None),
        },
    }
}

pub(crate) fn read_lease_mode(h: Option<&str>, rp: &mut Replay) -> (r: Result<Option<FanMode>, FileOp>)
    requires
        old(rp).wf(),
    ensures
        final(rp).wf(),
        final(rp).given() == old(rp).given(),
        match lease_mode_run(place(h), old(rp).given(), old(rp).taken()) {
            Run::Ask(op) => r matches Err(o) && o@ == op,
            Run::Done(m, p) => r == Ok::<Option<FanMode>, FileOp>(m) && final(rp).taken() == p,
        },
{
    match node(h, rp) {
        Err(op) => Err(op),
        Ok(None) => Ok(None),
        Ok(Some(c)) => match c.read_mode(rp) {
            Err(op) => Err(op),
            Ok(Ok(m)) => Ok(Some(m)),
            Ok(Err(_)) => Ok(None),
        },
    }
}

/// Take the fan if the hardware says that it is not ours, then write `duty`.
fn write_lease(h: Option<&str>, duty: u8, rp: &mut Replay) -> (r: Result<
    Result<u8, FanError>,
    FileOp,
>)
    requires
        old(rp).wf(),
    ensures
        final(rp).wf(),
        final(rp).given() == old(rp).given(),
        match lease_write_run(place(h), duty, old(rp).given(), old(rp).taken()) {
            Run::Ask(op) => r matches Err(o) && o@ == op,
            Run::Done(x, p) => r matches Ok(v) && crate::fan::said(v) == x && final(rp).taken()
                == p,
        },
{
    match node(h, rp) {
        Err(op) => Err(op),
        Ok(None) => Ok(Err(FanError::Unsupported)),
        Ok(Some(c)) => match c.read_mode(rp) {
            Err(op) => Err(op),
            Ok(Err(e)) => Ok(Err(e)),
            Ok(Ok(m)) => if m.is_manual() {
                c.set_with(duty, rp)
            } else {
                c.take_with(duty, rp)
            },
        },
    }
}

pub(crate) fn let_go(h: Option<&str>, rp: &mut Replay) -> (r: Result<bool, FileOp>)
    requires
        old(rp).wf(),
    ensures
        final(rp).wf(),
        final(rp).given() == old(rp).given(),
        match release_now_run(place(h), old(rp).given(), old(rp).taken()) {
            Run::Ask(op) => r matches Err(o) && o@ == op,
            Run::Done(b, p) => r == Ok::<bool, FileOp>(b) && final(rp).taken() == p,
        },
{
    match node(h, rp) {
        Err(op) => Err(op),
        Ok(None) => Ok(true),
        Ok(Some(c)) => c.try_release(rp),
    }
}

/// The lease on the fan, and the firmware floor learned while it was not held.
///
/// The EC's node, found by name, is handed to every operation: node numbers are not stable.
#[derive(Debug)]
pub struct FanLease {
    /// Whether *this process* believes that it holds manual control. For deciding what to
    /// enforce and to say, never a precondition for releasing.
    held: bool,
    /// The duty that was asked for, before clamping. The floor moves with temperature: when
    /// the machine cools, the fan must be allowed back down to what was requested.
    requested: u8,
    /// The duty last decided on. Compared exactly against a new target, so that a deficit of
    /// one or two counts is still a deficit.
    applied: u8,
    /// The duty to restore after a resume. An option, because 0 is a legitimate duty.
    restore: Option<u8>,
    floor: FirmwareFloor,
    /// The curve being followed, if the duty is not pinned.
    curve: Option<CurveEngine>,
}

impl FanLease {
    pub closed spec fn is_held(&self) -> bool {
        self.held
    }

    pub closed spec fn request(&self) -> u8 {
        self.requested
    }

    pub closed spec fn decision(&self) -> u8 {
        self.applied
    }

    pub closed spec fn pending(&self) -> Option<u8> {
        self.restore
    }

    pub closed spec fn learned(&self) -> FirmwareFloor {
        self.floor
    }

    pub closed spec fn engine(&self) -> Option<CurveEngine> {
        self.curve
    }

    pub open spec fn wf(&self) -> bool {
        self.learned().wf()
    }

    /// The floor that applies: whichever of firmware and the battery demands more air.
    pub open spec fn demand(&self, thermal: Thermal) -> int {
        louder_of(
            self.learned().floor(thermal.celsius),
            thermal.battery.floor(thermal.battery_celsius),
        )
    }

    /// Nothing is held, asked for or learned.
    pub open spec fn is_fresh(&self) -> bool {
        &&& self.wf()
        &&& !self.is_held()
        &&& self.request() == 0
        &&& self.decision() == 0
        &&& self.pending() is None
        &&& self.engine() is None
        &&& self.learned()@ == Seq::new(BUCKETS as nat, |i: int| None::<u8>)
        &&& self.learned().changed() == 0
    }

    /// A lease on the Intel board's fan, not held.
    pub fn new() -> (r: Self)
        ensures
            r.is_fresh(),
            r.learned().measured().is_intel(),
    {
        Self::for_board(intel_core_ultra_3())
    }

    /// A lease on a measured board's fan, not held.
    pub fn for_board(board: BoardProfile) -> (r: Self)
        requires
            board.wf(),
        ensures
            r.is_fresh(),
            r.learned().measured() == board,
    {
        Self {
            held: false,
            requested: 0,
            applied: 0,
            restore: None,
            floor: FirmwareFloor::for_board(board),
            curve: None,
        }
    }

    /// Everything but what was learned stays the same.
    pub open spec fn same_hold(&self, other: &FanLease) -> bool {
        &&& self.is_held() == other.is_held()
        &&& self.request() == other.request()
        &&& self.decision() == other.decision()
        &&& self.pending() == other.pending()
        &&& self.engine() == other.engine()
    }

    /// The fan is no longer held, and nothing else changed.
    pub open spec fn let_go_of(&self, other: &FanLease) -> bool {
        &&& !self.is_held()
        &&& self.request() == other.request()
        &&& self.decision() == other.decision()
        &&& self.pending() == other.pending()
        &&& self.learned() == other.learned()
        &&& self.engine() == other.engine()
    }

    /// Record the duty firmware chose over a span of temperatures. Only while the EC owns
    /// the fan, and with `rising` false while the machine cools.
    pub fn observe(
        &mut self,
        from_celsius: Option<i64>,
        to_celsius: Option<i64>,
        ec_duty: u8,
        rising: bool,
    )
        requires
            old(self).wf(),
        ensures
            final(self).wf(),
            final(self).same_hold(old(self)),
            final(self).learned()@ == Seq::new(
                BUCKETS as nat,
                |i: int|
                    if rising && spans(from_celsius, to_celsius, i) {
                        louder(old(self).learned()@[i], ec_duty)
                    } else {
                        old(self).learned()@[i]
                    },
            ),
            final(self).learned().measured() == old(self).learned().measured(),
            final(self).learned().changed() == old(self).learned().changed() + differing(
                old(self).learned()@,
                final(self).learned()@,
            ),
    {
        self.floor.observe_span(from_celsius, to_celsius, ec_duty, rising);
    }

    /// The lowest duty firmware's behaviour permits at this temperature.
    pub fn floor_duty(&self, celsius: Option<i64>) -> (r: u8)
        requires
            self.wf(),
        ensures
            r == self.learned().floor(celsius),
    {
        self.floor.floor_duty(celsius)
    }

    /// Reload a floor learned earlier; how many observations there are now.
    pub fn restore_floor(&mut self, observations: &Vec<(i64, u8)>) -> (r: usize)
        requires
            old(self).wf(),
        ensures
            final(self).wf(),
            final(self).same_hold(old(self)),
            final(self).learned()@ == with_observations(old(self).learned()@, observations@),
            final(self).learned().measured() == old(self).learned().measured(),
            final(self).learned().changed() == old(self).learned().changed() + changes(
                old(self).learned()@,
                observations@,
            ),
            r == listed(final(self).learned()@, BUCKETS as int).len(),
    {
        self.floor.restore(observations);
        self.floor.observations().len()
    }

    /// What was learned so far, and how often it changed.
    pub fn floor_snapshot(&self) -> (r: (u64, Vec<(i64, u8)>))
        requires
            self.wf(),
        ensures
            r.0 == self.learned().changed(),
            r.1@ == listed(self.learned()@, BUCKETS as int),
    {
        (self.floor.revision(), self.floor.observations())
    }

    pub fn held(&self) -> (r: bool)
        ensures
            r == self.is_held(),
    {
        self.held
    }

    /// Record that the fan was given back.
    pub(crate) fn gave_back(&mut self)
        requires
            old(self).wf(),
        ensures
            final(self).wf(),
            final(self).let_go_of(old(self)),
    {
        self.held = false;
    }

    /// Who owns the fan, if anybody can tell.
    pub fn mode(&self, hwmon: Option<&str>, answers: &[Answer]) -> (r: Step<Option<FanMode>>)
        ensures
            match lease_mode_run(place(hwmon), replies(answers@), 0) {
                Run::Ask(op) => r matches Step::Ask(o) && o@ == op,
                Run::Done(m, _) => r == Step::Done(m),
            },
    {
        let mut rp = Replay::new(answers);
        match read_lease_mode(hwmon, &mut rp) {
            Err(op) => Step::Ask(op),
            Ok(m) => Step::Done(m),
        }
    }

    /// The duty the EC reports, if anybody can tell.
    pub fn duty(&self, hwmon: Option<&str>, answers: &[Answer]) -> (r: Step<Option<u8>>)
        ensures
            match lease_duty_run(place(hwmon), replies(answers@), 0) {
                Run::Ask(op) => r matches Step::Ask(o) && o@ == op,
                Run::Done(d, _) => r == Step::Done(d),
            },
    {
        let mut rp = Replay::new(answers);
        match read_lease_duty(hwmon, &mut rp) {
            Err(op) => Step::Ask(op),
            Ok(d) => Step::Done(d),
        }
    }

    fn applicable_floor(&self, thermal: Thermal) -> (r: u8)
        requires
            self.wf(),
        ensures
            r == self.demand(thermal),
    {
        let a: u8 = self.floor.floor_duty(thermal.celsius);
        let b: u8 = thermal.battery_floor_public();
        if a > b {
            a
        } else {
            b
        }
    }

    /// Bring the fan to a duty, or to the floor where that is higher, and remember the
    /// request.
    fn hold(
        &mut self,
        duty: u8,
        thermal: Thermal,
        hwmon: Option<&str>,
        answers: &[Answer],
    ) -> (r: Step<Result<Applied, LeaseError>>)
        requires
            old(self).wf(),
        ensures
            final(self).wf(),
            match set_run(
                place(hwmon),
                duty,
                old(self).demand(thermal),
                thermal,
                replies(answers@),
            ) {
                Run::Ask(op) => (r matches Step::Ask(o) && o@ == op) && *final(self) == *old(self),
                Run::Done(Err(e), _) => (r matches Step::Done(Err(x)) && x@ == e) && *final(self)
                    == *old(self),
                Run::Done(Ok(ap), _) => {
                    &&& r matches Step::Done(Ok(x)) && x == ap
                    &&& final(self).is_held()
                    &&& final(self).request() == duty
                    &&& final(self).decision() == ap.target
                    &&& final(self).pending() == old(self).pending()
                    &&& final(self).learned() == old(self).learned()
                    &&& final(self).engine() == old(self).engine()
                },
            },
    {
        if let Some(e) = thermal.refused() {
            return Step::Done(Err(e));
        }
        let floor: u8 = self.applicable_floor(thermal);
        let target: u8 = if duty > floor {
            duty
        } else {
            floor
        };
        let mut rp = Replay::new(answers);
        match write_lease(hwmon, target, &mut rp) {
            Err(op) => Step::Ask(op),
            Ok(Err(e)) => Step::Done(Err(LeaseError::Fan(e))),
            Ok(Ok(settled)) => {
                self.held = true;
                self.applied = target;
                self.requested = duty;
                Step::Done(Ok(Applied { requested: duty, target, settled, floor }))
            },
        }
    }

    /// Set the fan duty, taking manual control first if it is not held.
    ///
    /// The duty is raised to the floor. What is remembered is the request, which is where
    /// the fan returns to once the machine cools.
    pub fn set_duty(
        &mut self,
        duty: u8,
        thermal: Thermal,
        hwmon: Option<&str>,
        answers: &[Answer],
    ) -> (r: Step<Result<Applied, LeaseError>>)
        requires
            old(self).wf(),
        ensures
            final(self).wf(),
            match set_run(
                place(hwmon),
                duty,
                old(self).demand(thermal),
                thermal,
                replies(answers@),
            ) {
                Run::Ask(op) => (r matches Step::Ask(o) && o@ == op) && *final(self) == *old(self),
                Run::Done(Err(e), _) => (r matches Step::Done(Err(x)) && x@ == e) && *final(self)
                    == *old(self),
                Run::Done(Ok(ap), _) => {
                    &&& r matches Step::Done(Ok(x)) && x == ap
                    &&& final(self).is_held()
                    &&& final(self).request() == duty
                    &&& final(self).decision() == ap.target
                    &&& final(self).pending() == old(self).pending()
                    &&& final(self).learned() == old(self).learned()
                    &&& final(self).engine() is None
                },
            },
    {
        match self.hold(duty, thermal, hwmon, answers) {
            Step::Ask(op) => Step::Ask(op),
            Step::Done(Err(e)) => Step::Done(Err(e)),
            Step::Done(Ok(applied)) => {
                self.curve = None;
                Step::Done(Ok(applied))
            },
        }
    }

    /// Follow a curve from now on, starting with what it asks for at this temperature.
    pub fn set_curve(
        &mut self,
        curve: &Curve,
        thermal: Thermal,
        hwmon: Option<&str>,
        answers: &[Answer],
    ) -> (r: Step<Result<Applied, LeaseError>>)
        requires
            old(self).wf(),
        ensures
            final(self).wf(),
            match set_run(
                place(hwmon),
                curve_duty(curve@, thermal.celsius) as u8,
                old(self).demand(thermal),
                thermal,
                replies(answers@),
            ) {
                Run::Ask(op) => (r matches Step::Ask(o) && o@ == op) && *final(self) == *old(self),
                Run::Done(Err(e), _) => (r matches Step::Done(Err(x)) && x@ == e) && *final(self)
                    == *old(self),
                Run::Done(Ok(ap), _) => {
                    &&& r matches Step::Done(Ok(x)) && x == ap
                    &&& final(self).is_held()
                    &&& final(self).request() == ap.requested
                    &&& final(self).decision() == ap.target
                    &&& final(self).pending() == old(self).pending()
                    &&& final(self).learned() == old(self).learned()
                    &&& final(self).engine() matches Some(e) && e.running() == curve@ && e.working()
                        == thermal.celsius && e.last() == Some(ap.requested)
                },
            },
    {
        let mut engine = CurveEngine::new(curve.clone());
        let duty: u8 = engine.tick(thermal.celsius);
        proof {
            if let Some(c) = thermal.celsius {
                assert(stepped(None, curve_duty(curve@, Some(c))) == curve_duty(curve@, Some(c)));
            }
        }
        match self.hold(duty, thermal, hwmon, answers) {
            Step::Ask(op) => Step::Ask(op),
            Step::Done(Err(e)) => Step::Done(Err(e)),
            Step::Done(Ok(applied)) => {
                self.curve = Some(engine);
                Step::Done(Ok(applied))
            },
        }
    }

    /// The curve being followed, as pairs of temperature and duty. A fan that firmware owns
    /// follows none.
    pub fn curve_points(&self) -> (r: Option<Vec<(i64, u8)>>)
        ensures
            match self.engine() {
                Some(e) if self.is_held() => r matches Some(v) && v@ == as_pairs(e.running()),
                _ => r is None,
            },
    {
        match &self.curve {
            Some(e) if self.held => Some(to_pairs(e.curve().points())),
            _ => None,
        }
    }

    /// Whether the fan is held and follows a curve, rather than being pinned.
    pub fn curve_active(&self) -> (r: bool)
        ensures
            r == (self.is_held() && self.engine() is Some),
    {
        self.held && self.curve.is_some()
    }

    /// One tick of the curve, if one is followed while the fan is held: what it asks for
    /// becomes the request that the next enforcement works from.
    pub fn follow_curve(&mut self, celsius: Option<i64>)
        requires
            old(self).wf(),
        ensures
            final(self).wf(),
            final(self).is_held() == old(self).is_held(),
            final(self).decision() == old(self).decision(),
            final(self).pending() == old(self).pending(),
            final(self).learned() == old(self).learned(),
            match (old(self).engine(), celsius) {
                (Some(e), Some(c)) if old(self).is_held() => {
                    let w = followed(e.working(), c);
                    &&& final(self).request() == stepped(
                        e.last(),
                        curve_duty(e.running(), Some(w)),
                    )
                    &&& final(self).engine() matches Some(n) && n.running() == e.running()
                        && n.working() == Some(w) && n.last() == Some(final(self).request())
                },
                (Some(e), None) if old(self).is_held() => {
                    &&& final(self).request() == u8::MAX
                    &&& final(self).engine() matches Some(n) && n.running() == e.running()
                        && n.working() is None && n.last() is None
                },
                _ => final(self).request() == old(self).request() && final(self).engine() == old(self).engine(),
            },
    {
        if !self.held {
            return ;
        }
        if let Some(e) = &mut self.curve {
            self.requested = e.tick(celsius);
        }
    }

    /// Re-evaluate the floor and correct the fan if it has drifted from where it should be.
    /// Called every tick while the fan is held.
    ///
    /// Clamping only when a duty is requested protects nothing: a duty chosen at idle is
    /// safe when it is chosen and stuck-low the moment the machine is put under load. It
    /// corrects downward too, back to what was asked for, or to the least duty that starts
    /// the fan where less was.
    pub fn enforce_floor(&mut self, thermal: Thermal, hwmon: Option<&str>, answers: &[Answer]) -> (r:
        Step<Option<Enforced>>)
        requires
            old(self).wf(),
        ensures
            final(self).wf(),
            final(self).request() == old(self).request(),
            final(self).pending() == old(self).pending(),
            final(self).learned() == old(self).learned(),
            final(self).engine() == old(self).engine(),
            !old(self).is_held() ==> r == Step::Done(None::<Enforced>) && *final(self) == *old(self),
            old(self).is_held() ==> match enforce_run(
                place(hwmon),
                old(self).request(),
                old(self).decision(),
                old(self).demand(thermal),
                thermal,
                replies(answers@),
            ) {
                Run::Ask(op) => (r matches Step::Ask(o) && o@ == op) && *final(self) == *old(self),
                Run::Done(None, _) => r == Step::Done(None::<Enforced>) && *final(self) == *old(self),
                Run::Done(Some(x), _) => {
                    &&& r matches Step::Done(Some(e)) && e@ == x
                    &&& final(self).is_held() == (x is Corrected || x is Failed)
                    &&& final(self).decision() == (if x is Corrected {
                        held_duty(old(self).request(), old(self).demand(thermal))
                    } else {
                        old(self).decision()
                    })
                },
            },
    {
        if !self.held {
            return Step::Done(None);
        }
        let mut rp = Replay::new(answers);
        if let Some(why) = thermal.refused() {
            return match let_go(hwmon, &mut rp) {
                Err(op) => Step::Ask(op),
                Ok(released) => {
                    self.held = false;
                    Step::Done(
                        Some(
                            match why {
                                LeaseError::AboveCeiling { celsius, ceiling } => {
                                    Enforced::ReleasedTooHot { celsius, ceiling, released }
                                },
                                LeaseError::BatteryTooHot { celsius, guard } => {
                                    Enforced::ReleasedBatteryHot { celsius, guard, released }
                                },
                                _ => Enforced::ReleasedNoSensor { released },
                            },
                        ),
                    )
                },
            };
        }
        let celsius: i64 = match thermal.celsius {
            Some(c) => c,
            None => {
                return Step::Done(None);
            },
        };
        let floor: u8 = self.applicable_floor(thermal);
        let wanted: u8 = if self.requested > floor {
            self.requested
        } else {
            floor
        };
        let target: u8 = if wanted > 0 && wanted < LEAST_DUTY {
            LEAST_DUTY
        } else {
            wanted
        };
        let current: u8 = match read_lease_duty(hwmon, &mut rp) {
            Err(op) => {
                return Step::Ask(op);
            },
            Ok(None) => {
                return Step::Done(None);
            },
            Ok(Some(d)) => d,
        };
        // Two separate questions. Has the decision changed? Compared exactly: one count
        // below the floor is still below it. Has something moved the fan? Only there does
        // quantization slack belong.
        let off: u8 = if current > target {
            current - target
        } else {
            target - current
        };
        if target == self.applied && off <= DUTY_TOLERANCE {
            return Step::Done(None);
        }
        match write_lease(hwmon, target, &mut rp) {
            Err(op) => Step::Ask(op),
            Ok(Err(e)) => Step::Done(Some(Enforced::Failed(LeaseError::Fan(e)))),
            Ok(Ok(settled)) => {
                self.applied = target;
                Step::Done(Some(Enforced::Corrected { from: current, to: settled, floor, celsius }))
            },
        }
    }

    /// Hand the fan back and confirm that the EC took it. Asking for EC control means asking
    /// for it after the next resume too.
    pub fn release(&mut self, hwmon: Option<&str>, answers: &[Answer]) -> (r: Step<
        Result<(), LeaseError>,
    >)
        requires
            old(self).wf(),
        ensures
            final(self).wf(),
            final(self).learned() == old(self).learned(),
            match node_run(place(hwmon), replies(answers@), 0) {
                Run::Ask(op) => (r matches Step::Ask(o) && o@ == op) && *final(self) == *old(self),
                Run::Done(false, _) => (r matches Step::Done(Err(e)) && e@ == LeaseFault::Fan(
                    FanFault::Unsupported,
                )) && final(self).forgot() && final(self).is_held() == old(self).is_held(),
                Run::Done(true, q) => match release_run(
                    place(hwmon)->0,
                    replies(answers@),
                    q,
                ) {
                    Run::Ask(op) => (r matches Step::Ask(o) && o@ == op) && *final(self) == *old(self),
                    Run::Done(Ok(()), _) => r == Step::Done(Ok::<(), LeaseError>(())) && final(self).forgot() && !final(self).is_held(),
                    Run::Done(Err(x), _) => (r matches Step::Done(Err(e)) && e@
                        == LeaseFault::Fan(x)) && final(self).forgot() && !final(self).is_held(),
                },
            },
    {
        let mut rp = Replay::new(answers);
        let outcome = match node(hwmon, &mut rp) {
            Err(op) => {
                return Step::Ask(op);
            },
            Ok(None) => Err(LeaseError::Fan(FanError::Unsupported)),
            Ok(Some(c)) => match c.release_with(&mut rp) {
                Err(op) => {
                    return Step::Ask(op);
                },
                Ok(done) => {
                    self.held = false;
                    match done {
                        Ok(()) => Ok(()),
                        Err(e) => Err(LeaseError::Fan(e)),
                    }
                },
            },
        };
        self.requested = 0;
        self.applied = 0;
        self.restore = None;
        self.curve = None;
        Step::Done(outcome)
    }

    /// Whether nothing is left of what was asked for.
    pub open spec fn forgot(&self) -> bool {
        self.request() == 0 && self.decision() == 0 && self.pending() is None && self.engine() is None
    }

    /// Release without the ability to fail, whatever we believed about the lease. Whether
    /// the fan is now demonstrably in EC control.
    pub fn release_now(&mut self, hwmon: Option<&str>, answers: &[Answer]) -> (r: Step<bool>)
        requires
            old(self).wf(),
        ensures
            final(self).wf(),
            match release_now_run(place(hwmon), replies(answers@), 0) {
                Run::Ask(op) => (r matches Step::Ask(o) && o@ == op) && *final(self) == *old(self),
                Run::Done(b, _) => r == Step::Done(b) && final(self).let_go_of(old(self)),
            },
    {
        let mut rp = Replay::new(answers);
        match let_go(hwmon, &mut rp) {
            Err(op) => Step::Ask(op),
            Ok(b) => {
                self.held = false;
                Step::Done(b)
            },
        }
    }

    /// Hand the fan back before the machine suspends, remembering what to restore: a
    /// suspended process is not minding anything. The duty that was held, or `None` if the
    /// EC already owned the fan.
    pub fn release_for_sleep(&mut self, hwmon: Option<&str>, answers: &[Answer]) -> (r: Step<
        Option<u8>,
    >)
        requires
            old(self).wf(),
        ensures
            final(self).wf(),
            !old(self).is_held() ==> r == Step::Done(None::<u8>) && *final(self) == *old(self),
            old(self).is_held() ==> match release_now_run(
                place(hwmon),
                replies(answers@),
                0,
            ) {
                Run::Ask(op) => (r matches Step::Ask(o) && o@ == op) && *final(self) == *old(self),
                Run::Done(_, _) => {
                    &&& r == Step::Done(Some(old(self).request()))
                    &&& !final(self).is_held()
                    &&& final(self).pending() == Some(old(self).request())
                    &&& final(self).request() == old(self).request()
                    &&& final(self).decision() == old(self).decision()
                    &&& final(self).learned() == old(self).learned()
                    &&& final(self).engine() == old(self).engine()
                },
            },
    {
        if !self.held {
            return Step::Done(None);
        }
        let mut rp = Replay::new(answers);
        match let_go(hwmon, &mut rp) {
            Err(op) => Step::Ask(op),
            Ok(_) => {
                self.held = false;
                self.restore = Some(self.requested);
                Step::Done(Some(self.requested))
            },
        }
    }

    /// Take the fan back after a resume, if it was ours before the sleep.
    ///
    /// The full clamp runs again rather than restoring the raw duty: the machine may have
    /// woken warmer than it slept. A curve that was followed before the sleep is followed
    /// again.
    pub fn restore_after_resume(
        &mut self,
        thermal: Thermal,
        hwmon: Option<&str>,
        answers: &[Answer],
    ) -> (r: Step<Option<Result<Applied, LeaseError>>>)
        requires
            old(self).wf(),
        ensures
            final(self).wf(),
            match old(self).pending() {
                None => r == Step::Done(None::<Result<Applied, LeaseError>>) && *final(self)
                    == *old(self),
                Some(duty) => match set_run(
                    place(hwmon),
                    duty,
                    old(self).demand(thermal),
                    thermal,
                    replies(answers@),
                ) {
                    Run::Ask(op) => (r matches Step::Ask(o) && o@ == op) && *final(self) == *old(self),
                    Run::Done(Err(e), _) => {
                        &&& r matches Step::Done(Some(Err(x))) && x@ == e
                        &&& final(self).pending() is None
                        &&& final(self).is_held() == old(self).is_held()
                        &&& final(self).request() == old(self).request()
                        &&& final(self).decision() == old(self).decision()
                        &&& final(self).learned() == old(self).learned()
                        &&& final(self).engine() == old(self).engine()
                    },
                    Run::Done(Ok(ap), _) => {
                        &&& r matches Step::Done(Some(Ok(x))) && x == ap
                        &&& final(self).pending() is None
                        &&& final(self).is_held()
                        &&& final(self).request() == duty
                        &&& final(self).decision() == ap.target
                        &&& final(self).learned() == old(self).learned()
                        &&& final(self).engine() == old(self).engine()
                    },
                },
            },
    {
        let duty: u8 = match self.restore {
            None => {
                return Step::Done(None);
            },
            Some(d) => d,
        };
        match self.hold(duty, thermal, hwmon, answers) {
            Step::Ask(op) => Step::Ask(op),
            Step::Done(outcome) => {
                self.restore = None;
                Step::Done(Some(outcome))
            },
        }
    }

    /// Reclaim the fan at startup if it was left under manual control, which only a previous
    /// instance that died without releasing can have done.
    pub fn reclaim_at_startup(&mut self, hwmon: Option<&str>, answers: &[Answer]) -> (r: Step<
        Reclaimed,
    >)
        requires
            old(self).wf(),
        ensures
            final(self).wf(),
            match lease_mode_run(place(hwmon), replies(answers@), 0) {
                Run::Ask(op) => (r matches Step::Ask(o) && o@ == op) && *final(self) == *old(self),
                Run::Done(m, q) => if m is None || m == Some(FanMode::Auto) {
                    r == Step::Done(Reclaimed::Nothing) && *final(self) == *old(self)
                } else {
                    match release_now_run(place(hwmon), replies(answers@), q) {
                        Run::Ask(op) => (r matches Step::Ask(o) && o@ == op) && *final(self)
                            == *old(self),
                        Run::Done(released, _) => r == Step::Done(
                            Reclaimed::From { was: m->0, released },
                        ) && final(self).let_go_of(old(self)),
                    }
                },
            },
    {
        let mut rp = Replay::new(answers);
        match read_lease_mode(hwmon, &mut rp) {
            Err(op) => Step::Ask(op),
            Ok(None) => Step::Done(Reclaimed::Nothing),
            Ok(Some(FanMode::Auto)) => Step::Done(Reclaimed::Nothing),
            Ok(Some(was)) => match let_go(hwmon, &mut rp) {
                Err(op) => Step::Ask(op),
                Ok(released) => {
                    self.held = false;
                    Step::Done(Reclaimed::From { was, released })
                },
            },
        }
    }
}

/// A request never comes out below the floor or below itself, and counts as clamped exactly
/// where the floor was above it.
pub proof fn a_request_is_never_below_the_floor(
    h: Option<Seq<char>>,
    duty: u8,
    floor: u8,
    thermal: Thermal,
    a: Seq<Reply>,
)
    ensures
        set_run(h, duty, floor as int, thermal, a) matches Run::Done(Ok(ap), _) ==> ap.target
            >= floor && ap.target >= duty && ap.requested == duty && (ap.target > duty <==> floor
            > duty) && close(ap.settled, ap.target),
{
    if thermal.refusal() is None {
        let target = louder_of(duty as int, floor as int) as u8;
        if let Run::Done(true, q) = node_run(h, a, 0) {
            if let Run::Done(Ok(m), z) = mode_run(h->0, a, q) {
            }
        }
    }
}

/// What is too hot, or cannot be measured, is refused before any file is touched.
pub proof fn a_refusal_touches_nothing(
    h: Option<Seq<char>>,
    duty: u8,
    floor: int,
    thermal: Thermal,
    a: Seq<Reply>,
)
    requires
        thermal.refusal() is Some,
    ensures
        set_run(h, duty, floor, thermal, a) == Run::Done(
            Err::<Applied, LeaseFault>(thermal.refusal()->0),
            0,
        ),
{
}

/// Where the decision stands and the fan has not been moved, enforcement writes nothing.
pub proof fn a_steady_temperature_provokes_no_writes(
    h: Option<Seq<char>>,
    requested: u8,
    applied: u8,
    floor: int,
    thermal: Thermal,
    a: Seq<Reply>,
    current: u8,
    n: int,
)
    requires
        thermal.refusal() is None,
        lease_duty_run(h, a, 0) == Run::Done(Some(current), n),
        applied == held_duty(requested, floor),
        close(current, applied),
    ensures
        enforce_run(h, requested, applied, floor, thermal, a) == Run::Done(None::<Outcome>, n),
{
}

/// Whatever was requested and wherever the floor is, the only duties that are ever written
/// stop the fan or start it, and the floor is kept.
pub proof fn only_honest_duties_are_written(
    h: Seq<char>,
    duty: u8,
    applied: u8,
    floor: u8,
    thermal: Thermal,
    a: Seq<Reply>,
    t: Seq<char>,
)
    ensures
        set_run(Some(h), duty, floor as int, thermal, a) == Run::<Result<Applied, LeaseFault>>::Ask(
            Op::Write(h + PWM@, t),
        ) ==> exists|d: u8|
            (d == 0 || d >= LEAST_DUTY) && d >= floor && d >= duty && t == #[trigger] decimal(
                d as nat,
            ),
        enforce_run(Some(h), duty, applied, floor as int, thermal, a) == Run::<Option<Outcome>>::Ask(
            Op::Write(h + PWM@, t),
        ) ==> exists|d: u8|
            (d == 0 || d >= LEAST_DUTY) && d >= floor && d >= duty && t == #[trigger] decimal(
                d as nat,
            ),
{
    lemma_files_differ(h);
    if thermal.refusal() is None {
        let target = louder_of(duty as int, floor as int) as u8;
        if set_run(Some(h), duty, floor as int, thermal, a) == Run::<
            Result<Applied, LeaseFault>,
        >::Ask(Op::Write(h + PWM@, t)) {
            lemma_lease_writes(h, target, a, 0, t);
            assert(t == decimal(target as nat));
        }
        let target = held_duty(duty, floor as int);
        if enforce_run(Some(h), duty, applied, floor as int, thermal, a) == Run::<
            Option<Outcome>,
        >::Ask(Op::Write(h + PWM@, t)) {
            if let Run::Done(Some(_), n) = lease_duty_run(Some(h), a, 0) {
                lemma_lease_writes(h, target, a, n, t);
                assert(t == decimal(target as nat));
            }
        }
    }
}

proof fn lemma_lease_writes(h: Seq<char>, duty: u8, a: Seq<Reply>, p: int, t: Seq<char>)
    requires
        lease_write_run(Some(h), duty, a, p) == Run::<Result<u8, FanFault>>::Ask(
            Op::Write(h + PWM@, t),
        ),
    ensures
        t == decimal(duty as nat),
        duty == 0 || duty >= LEAST_DUTY,
{
    if let Run::Done(true, q) = node_run(Some(h), a, p) {
        if let Run::Done(Ok(m), z) = mode_run(h, a, q) {
            only_an_honest_duty_is_written(h, duty, a, z, t);
        }
    }
}

/// The duty that is held is the louder of the request and the floor: the request where that is
/// at the floor or above it, the floor where it is not, and in either case at least a duty that
/// starts the fan, unless both are nothing.
pub proof fn the_louder_of_request_and_floor_is_held(requested: u8, floor: u8)
    ensures
        requested >= floor && (requested == 0 || requested >= 33) ==> held_duty(
            requested,
            floor as int,
        ) == requested,
        floor >= requested && (floor == 0 || floor >= 33) ==> held_duty(
            requested,
            floor as int,
        ) == floor,
        (requested > 0 || floor > 0) && requested < 33 && floor < 33 ==> held_duty(
            requested,
            floor as int,
        ) == 33,
{
}

/// Enforcement on a fan that reports `current`, `d` being the louder of the request and the
/// floor, or the least duty that starts the fan where that is louder still and anything is asked
/// for at all. Nothing is done exactly where `d` is what was decided last and the fan is within
/// the tolerance of it; otherwise `d` is written, whoever has the fan, and what the fan then
/// reports is told together with where it was.
pub proof fn enforcement_brings_the_fan_to_the_louder_of_request_and_floor(
    h: Seq<char>,
    requested: u8,
    applied: u8,
    floor: u8,
    thermal: Thermal,
    a: Seq<Reply>,
    d: u8,
    current: u8,
    v: u8,
    m: nat,
)
    requires
        m <= u64::MAX,
        thermal.refusal() is None,
        requested == 0 && floor == 0 ==> d == 0,
        requested > 0 || floor > 0 ==> d >= requested && d >= floor && d >= 33 && (d
            == requested || d == floor || d == 33),
        a.len() >= 5,
        a[0] is Ok && a[1] is Ok && a[2] is Ok && a[3] is Ok,
        a[4] == Ok::<Seq<char>, IoFault>(decimal(current as nat)),
    ensures
        ({
            let run = enforce_run(Some(h), requested, applied, floor as int, thermal, a);
            let stands = applied == d && -3 <= current - d <= 3;
            let there = a.len() >= 10 && a[5] is Ok && a[6] is Ok && a[7] is Ok && a[8] is Ok;
            &&& stands ==> run == Run::Done(None::<Outcome>, 5)
            &&& run matches Run::Done(None, _) ==> stands
            &&& !stands && there && m != 1 && a[9] == Ok::<Seq<char>, IoFault>(decimal(m)) && a.len()
                == 12 && a[10] is Ok && a[11] is Ok ==> run == Run::<Option<Outcome>>::Ask(
                Op::Write(h + "/pwm1"@, decimal(d as nat)),
            )
            &&& !stands && there && a[9] == Ok::<Seq<char>, IoFault>(decimal(1)) && a.len() >= 13
                && a[10] is Ok && a[11] is Ok && a[12] == Ok::<Seq<char>, IoFault>(decimal(1)) ==> {
                &&& a.len() == 13 ==> run == Run::<Option<Outcome>>::Ask(
                    Op::Write(h + "/pwm1"@, decimal(d as nat)),
                )
                &&& a.len() == 17 && a[13] is Ok && a[14] is Ok && a[15] is Ok && a[16] == Ok::<
                    Seq<char>,
                    IoFault,
                >(decimal(v as nat)) && -3 <= v - d <= 3 ==> run
                    == Run::Done(
                    Some(
                        Outcome::Corrected {
                            from: current,
                            to: v,
                            floor,
                            celsius: thermal.celsius->0,
                        },
                    ),
                    17,
                )
            }
        }),
{
    the_louder_of_request_and_floor_is_held(requested, floor);
    assert(held_duty(requested, floor as int) == d);
    a_duty_reads_as_its_file_has_it(h, a, 2, current as nat);
    assert(lease_duty_run(Some(h), a, 0) == Run::Done(Some(current), 5));
    if a.len() >= 10 && a[7] is Ok && a[8] is Ok {
        if m != 1 && a[9] == Ok::<Seq<char>, IoFault>(decimal(m)) {
            a_mode_reads_as_its_file_has_it(h, a, 7, m);
        }
        if a[9] == Ok::<Seq<char>, IoFault>(decimal(1)) {
            a_mode_reads_as_its_file_has_it(h, a, 7, 1);
            if a.len() >= 13 && a[10] is Ok && a[11] is Ok && a[12] == Ok::<Seq<char>, IoFault>(
                decimal(1),
            ) {
                a_mode_reads_as_its_file_has_it(h, a, 10, 1);
                if a.len() == 17 && a[14] is Ok && a[15] is Ok && a[16] == Ok::<
                    Seq<char>,
                    IoFault,
                >(decimal(v as nat)) {
                    a_duty_reads_as_its_file_has_it(h, a, 14, v as nat);
                }
            }
        }
    }
}

/// Whatever the files answer, the one duty that enforcement ever asks to have written is the
/// louder of the request and the floor, or the least that starts the fan where that is louder.
pub proof fn enforcement_writes_no_other_duty(
    h: Seq<char>,
    requested: u8,
    applied: u8,
    floor: u8,
    thermal: Thermal,
    a: Seq<Reply>,
    t: Seq<char>,
)
    requires
        enforce_run(Some(h), requested, applied, floor as int, thermal, a) == Run::<
            Option<Outcome>,
        >::Ask(Op::Write(h + "/pwm1"@, t)),
    ensures
        requested >= floor && (requested == 0 || requested >= 33) ==> t == decimal(
            requested as nat,
        ),
        floor >= requested && (floor == 0 || floor >= 33) ==> t == decimal(floor as nat),
        (requested > 0 || floor > 0) && requested < 33 && floor < 33 ==> t
            == decimal(33),
        thermal.refusal() is None,
{
    lemma_files_differ(h);
    the_louder_of_request_and_floor_is_held(requested, floor);
    if thermal.refusal() is None {
        if let Run::Done(Some(_), n) = lease_duty_run(Some(h), a, 0) {
            lemma_lease_writes(h, held_duty(requested, floor as int), a, n, t);
        }
    }
}

/// A request is brought to the louder of itself and the floor, and that is what is written,
/// whoever has the fan: exactly the request where the floor is not above it, and exactly the
/// floor where it is. What the fan then reports is told.
pub proof fn a_request_is_raised_to_the_floor_and_no_further(
    h: Seq<char>,
    duty: u8,
    floor: u8,
    thermal: Thermal,
    a: Seq<Reply>,
    d: u8,
    v: u8,
    m: nat,
)
    requires
        m <= u64::MAX,
        thermal.refusal() is None,
        d >= duty && d >= floor && (d == duty || d == floor),
        d == 0 || d >= 33,
        a.len() >= 5,
        a[0] is Ok && a[1] is Ok && a[2] is Ok && a[3] is Ok,
    ensures
        ({
            let run = set_run(Some(h), duty, floor as int, thermal, a);
            &&& m != 1 && a[4] == Ok::<Seq<char>, IoFault>(decimal(m)) && a.len() == 7 && a[5] is Ok && a[6] is Ok
                ==> run == Run::<Result<Applied, LeaseFault>>::Ask(
                Op::Write(h + "/pwm1"@, decimal(d as nat)),
            )
            &&& a[4] == Ok::<Seq<char>, IoFault>(decimal(1)) && a.len() >= 8 && a[5] is Ok
                && a[6] is Ok && a[7] == Ok::<Seq<char>, IoFault>(decimal(1)) ==> {
                &&& a.len() == 8 ==> run == Run::<Result<Applied, LeaseFault>>::Ask(
                    Op::Write(h + "/pwm1"@, decimal(d as nat)),
                )
                &&& a.len() == 12 && a[8] is Ok && a[9] is Ok && a[10] is Ok && a[11] == Ok::<
                    Seq<char>,
                    IoFault,
                >(decimal(v as nat)) && -3 <= v - d <= 3 ==> run
                    == Run::Done(
                    Ok::<Applied, LeaseFault>(
                        Applied { requested: duty, target: d, settled: v, floor },
                    ),
                    12,
                )
            }
        }),
{
    if m != 1 && a[4] == Ok::<Seq<char>, IoFault>(decimal(m)) {
        a_mode_reads_as_its_file_has_it(h, a, 2, m);
    }
    if a[4] == Ok::<Seq<char>, IoFault>(decimal(1)) {
        a_mode_reads_as_its_file_has_it(h, a, 2, 1);
        if a.len() >= 8 && a[5] is Ok && a[6] is Ok && a[7] == Ok::<Seq<char>, IoFault>(decimal(1)) {
            a_mode_reads_as_its_file_has_it(h, a, 5, 1);
            if a.len() == 12 && a[9] is Ok && a[10] is Ok && a[11] == Ok::<Seq<char>, IoFault>(
                decimal(v as nat),
            ) {
                a_duty_reads_as_its_file_has_it(h, a, 9, v as nat);
            }
        }
    }
}

/// Whatever the files answer, a request that comes out went to the louder of itself and the
/// floor: no further.
pub proof fn a_request_comes_out_as_itself_or_as_the_floor(
    h: Option<Seq<char>>,
    duty: u8,
    floor: u8,
    thermal: Thermal,
    a: Seq<Reply>,
)
    ensures
        set_run(h, duty, floor as int, thermal, a) matches Run::Done(Ok(ap), _) ==> {
            &&& ap.requested == duty
            &&& ap.floor == floor
            &&& duty >= floor ==> ap.target == duty
            &&& duty <= floor ==> ap.target == floor
            &&& -3 <= ap.settled - ap.target <= 3
        },
{
    a_request_is_never_below_the_floor(h, duty, floor, thermal, a);
}

/// The fan may be held exactly where the temperature is known and below the ceiling, and the
/// battery's, if there is one, is not within two degrees of its limit. Otherwise the reason that
/// is given is the first of these that holds, with what was measured.
pub proof fn the_fan_is_held_only_below_every_limit(t: Thermal)
    ensures
        t.refusal() is None <==> {
            &&& t.celsius matches Some(c) && c < t.ceiling.limit()
            &&& t.battery_celsius matches Some(b) ==> b < t.battery.limit() - 2_000
        },
        t.refusal() == Some(LeaseFault::NoTemperature) <==> t.celsius is None,
        t.refusal() matches Some(LeaseFault::AboveCeiling { celsius, ceiling }) ==> t.celsius
            == Some(celsius) && ceiling == t.ceiling && celsius >= ceiling.limit(),
        t.refusal() matches Some(LeaseFault::BatteryTooHot { celsius, guard }) ==> t.battery_celsius
            == Some(celsius) && guard == t.battery && celsius >= guard.limit()
            - 2_000 && t.celsius->0 < t.ceiling.limit(),
        !(t.refusal() matches Some(LeaseFault::Fan(_))),
{
}

/// A fan that may not be held is handed back, and the outcome tells why, with what was measured
/// and whether the EC has the fan.
pub proof fn a_fan_that_may_not_be_held_is_handed_back(
    h: Seq<char>,
    requested: u8,
    applied: u8,
    floor: u8,
    thermal: Thermal,
    a: Seq<Reply>,
    m: nat,
)
    requires
        thermal.refusal() is Some,
        a.len() >= 2,
        a[0] is Ok && a[1] is Ok,
        m <= u64::MAX,
    ensures
        ({
            let run = enforce_run(Some(h), requested, applied, floor as int, thermal, a);
            &&& a.len() == 2 ==> run == Run::<Option<Outcome>>::Ask(
                Op::Write(h + "/pwm1_enable"@, decimal(2)),
            )
            &&& a.len() == 6 && a[3] is Ok && a[4] is Ok && a[5] == Ok::<Seq<char>, IoFault>(
                decimal(m),
            ) ==> (run matches Run::Done(Some(o), n) && n == 6 && match o {
                Outcome::ReleasedNoSensor { released } => released == (m == 2)
                    && thermal.celsius is None,
                Outcome::ReleasedTooHot { celsius, ceiling, released } => released == (m == 2)
                    && thermal.celsius == Some(celsius) && ceiling == thermal.ceiling && celsius
                    >= ceiling.limit(),
                Outcome::ReleasedBatteryHot { celsius, guard, released } => released == (m == 2)
                    && thermal.battery_celsius == Some(celsius) && guard == thermal.battery
                    && celsius >= guard.limit() - 2_000,
                _ => false,
            })
        }),
{
    if a.len() == 6 && a[3] is Ok && a[4] is Ok && a[5] == Ok::<Seq<char>, IoFault>(decimal(m)) {
        a_mode_reads_as_its_file_has_it(h, a, 3, m);
    }
}

/// A debugging override lowers the ceiling to itself, and does nothing where it is no number or
/// not below the ceiling that the sensor gives.
pub proof fn an_override_lowers_the_ceiling_to_itself(crit: Option<i64>, s: Seq<char>)
    ensures
        milli(s, false) matches Some(c) && -15_000 <= c < limit_for(crit) ==> limit_for(
            deciding_crit(crit, Some(s)),
        ) == milli(s, false)->0,
        milli(s, false) is None ==> deciding_crit(crit, Some(s)) == crit,
        milli(s, false) matches Some(c) && c >= limit_for(crit) ==> deciding_crit(crit, Some(s))
            == crit,
        deciding_crit(crit, None) == crit,
{
}

impl FanLease {
    /// The floor that applies is the louder of what firmware was seen doing and what the battery
    /// asks for.
    pub proof fn the_louder_demand_applies(&self, thermal: Thermal)
        ensures
            ({
                let firmware = self.learned().floor(thermal.celsius);
                let battery = thermal.battery.floor(thermal.battery_celsius);
                let d = self.demand(thermal);
                d >= firmware && d >= battery && (d == firmware || d == battery)
            }),
    {
    }
}

/// A deficit of a single count against the last decision is corrected, however close the
/// fan's read-back is.
pub proof fn a_deficit_is_never_tolerated(
    h: Option<Seq<char>>,
    requested: u8,
    applied: u8,
    floor: u8,
    thermal: Thermal,
    a: Seq<Reply>,
    n: int,
)
    requires
        thermal.refusal() is None,
        applied < floor,
        lease_duty_run(h, a, 0) matches Run::Done(Some(_), _),
    ensures
        enforce_run(h, requested, applied, floor as int, thermal, a) != Run::Done(
            None::<Outcome>,
            n,
        ),
{
}

/// Without a node, or with one that has no control files, no duty is set and none enforced, and
/// there is nothing to hand back: that counts as done.
pub proof fn without_fan_control_nothing_is_driven(
    h: Seq<char>,
    duty: u8,
    applied: u8,
    floor: u8,
    thermal: Thermal,
    a: Seq<Reply>,
)
    requires
        a.len() >= 1,
        a[0] is Err,
    ensures
        thermal.refusal() is None ==> {
            &&& set_run(None, duty, floor as int, thermal, a) == Run::Done(
                Err::<Applied, LeaseFault>(LeaseFault::Fan(FanFault::Unsupported)),
                0,
            )
            &&& set_run(Some(h), duty, floor as int, thermal, a) == Run::Done(
                Err::<Applied, LeaseFault>(LeaseFault::Fan(FanFault::Unsupported)),
                1,
            )
            &&& enforce_run(None, duty, applied, floor as int, thermal, a) == Run::Done(
                None::<Outcome>,
                0,
            )
            &&& enforce_run(Some(h), duty, applied, floor as int, thermal, a) == Run::Done(
                None::<Outcome>,
                1,
            )
        },
        release_now_run(None, a, 0) == Run::Done(true, 0),
        release_now_run(Some(h), a, 0) == Run::Done(true, 1),
        lease_mode_run(Some(h), a, 0) == Run::Done(None::<FanMode>, 1),
        lease_duty_run(Some(h), a, 0) == Run::Done(None::<u8>, 1),
{
}

/// A duty that cannot be read is not judged: enforcement leaves the fan as it is.
pub proof fn an_unreadable_duty_is_not_judged(
    h: Seq<char>,
    requested: u8,
    applied: u8,
    floor: u8,
    thermal: Thermal,
    a: Seq<Reply>,
)
    requires
        thermal.refusal() is None,
        a.len() >= 5,
        a[0] is Ok && a[1] is Ok && a[2] is Ok && a[3] is Ok,
        a[4] is Err,
    ensures
        enforce_run(Some(h), requested, applied, floor as int, thermal, a) == Run::Done(
            None::<Outcome>,
            5,
        ),
        a.len() == 5 ==> lease_duty_run(Some(h), a, 0) == Run::Done(None::<u8>, 5),
{
    an_unreadable_file_holds_no_number(h + PWM@, a[4]->Err_0);
}

/// Who has the fan and at what duty is what its two files hold.
pub proof fn the_lease_reads_what_the_files_hold(h: Seq<char>, a: Seq<Reply>, n: nat)
    requires
        a.len() >= 5,
        a[0] is Ok && a[1] is Ok && a[2] is Ok && a[3] is Ok,
        a[4] == Ok::<Seq<char>, IoFault>(decimal(n)),
        n <= u64::MAX,
    ensures
        n <= 255 ==> lease_duty_run(Some(h), a, 0) == Run::Done(Some(n as u8), 5),
        lease_mode_run(Some(h), a, 0) == Run::Done(
            Some(
                if n == 1 {
                    FanMode::Manual
                } else if n == 2 {
                    FanMode::Auto
                } else {
                    FanMode::Other(n as u64)
                },
            ),
            5,
        ),
{
    a_duty_reads_as_its_file_has_it(h, a, 2, n);
    a_mode_reads_as_its_file_has_it(h, a, 2, n);
}

impl FanLease {
    /// What was let go of is not held, and is otherwise as it was; what was forgotten asks for
    /// nothing; and a fresh lease holds nothing, asks for nothing and has learned nothing.
    pub proof fn what_was_let_go_of_is_not_held(&self, other: &FanLease)
        ensures
            self.let_go_of(other) ==> !self.is_held() && self.request() == other.request()
                && self.decision() == other.decision() && self.pending() == other.pending()
                && self.learned() == other.learned() && self.engine() == other.engine(),
            self.forgot() ==> self.request() == 0 && self.decision() == 0 && self.pending() is None
                && self.engine() is None,
            self.same_hold(other) ==> self.is_held() == other.is_held() && self.request()
                == other.request() && self.decision() == other.decision() && self.pending()
                == other.pending() && self.engine() == other.engine(),
            self.is_fresh() ==> !self.is_held() && self.forgot() && forall|c: Option<i64>|
                #[trigger] self.learned().known(c) is None,
    {
        if self.is_fresh() {
            assert forall|c: Option<i64>| #[trigger] self.learned().known(c) is None by {
                if let Some(t) = c {
                    crate::floor::a_temperature_lies_in_its_bucket(t);
                }
            }
        }
    }
}

}
