//! What happens on a tick of the daemon: learning from firmware while it owns the fan, and
//! deciding which profile to apply when something changed.
//!
//! Temperatures are in thousandths of a degree Celsius; `None` is a temperature nobody could
//! read.

use vstd::prelude::*;
use crate::caps::text_of;
use crate::lease::{Applied, Enforced, LeaseError, LeaseFault, Outcome, Reclaimed};
use crate::number::{decimal, decimal_text, one_place, one_place_text};
use crate::profile::{built_in, choices, ppd_name, Choice, Ppd, Profile};
use crate::profiles::{lookup, position};
use crate::state::State;
use crate::text::{in_quotes, quoted, texts};
use crate::watchdog::elapsed;

verus! {

/// How far a temperature must turn back before it counts as moving the other way. Sensors
/// are quantized to about a degree and dither across a boundary.
pub const TURN_C: i64 = 2_000;

/// How many times a power limit is re-asserted before concluding that firmware owns it.
pub const MAX_POWER_CORRECTIONS: u32 = 5;

/// How often the learned floor is written out, in milliseconds.
pub const FLOOR_SAVE_INTERVAL_MS: u64 = 60_000;

/// Which way a temperature was last seen moving.
#[derive(Debug, Clone, Copy, PartialEq, Eq, Structural)]
pub struct Direction {
    rising: bool,
    /// The furthest it has got that way.
    extreme: Option<i64>,
}

/// The direction and the furthest point once a temperature was seen.
pub open spec fn turned(rising: bool, extreme: Option<i64>, c: i64) -> (bool, i64) {
    match extreme {
        None => (true, c),
        Some(x) => if rising {
            if c >= x {
                (true, c)
            } else if x - c >= TURN_C {
                (false, c)
            } else {
                (true, x)
            }
        } else {
            if c <= x {
                (false, c)
            } else if c - x >= TURN_C {
                (true, c)
            } else {
                (false, x)
            }
        },
    }
}

impl Direction {
    pub closed spec fn is_rising(self) -> bool {
        self.rising
    }

    pub closed spec fn furthest(self) -> Option<i64> {
        self.extreme
    }

    pub fn new() -> (r: Self)
        ensures
            r.is_rising(),
            r.furthest() is None,
    {
        Self { rising: true, extreme: None }
    }

    /// Takes a temperature in; whether it is rising or holding.
    pub fn update(&mut self, celsius: Option<i64>) -> (r: bool)
        ensures
            r == final(self).is_rising(),
            match celsius {
                Some(c) => (final(self).is_rising(), final(self).furthest()) == ({
                    let t = turned(old(self).is_rising(), old(self).furthest(), c);
                    (t.0, Some(t.1))
                }),
                None => *final(self) == *old(self),
            },
    {
        if let Some(c) = celsius {
            let (rising, extreme): (bool, i64) = match self.extreme {
                None => (true, c),
                Some(x) => if self.rising {
                    if c >= x {
                        (true, c)
                    } else if (x as i128) - (c as i128) >= TURN_C as i128 {
                        (false, c)
                    } else {
                        (true, x)
                    }
                } else {
                    if c <= x {
                        (false, c)
                    } else if (c as i128) - (x as i128) >= TURN_C as i128 {
                        (true, c)
                    } else {
                        (false, x)
                    }
                },
            };
            self.rising = rising;
            self.extreme = Some(extreme);
        }
        self.rising
    }
}

/// Neither a plateau nor a blip turns the direction, and neither moves the point it is
/// judged from backwards.
pub proof fn a_blip_does_not_turn_the_direction(rising: bool, x: i64, c: i64)
    requires
        -TURN_C < c - x < TURN_C,
    ensures
        turned(rising, Some(x), c).0 == rising,
        rising ==> turned(rising, Some(x), c).1 >= x,
        !rising ==> turned(rising, Some(x), c).1 <= x,
{
}

/// What firmware was seen doing.
#[derive(Debug, Clone, Copy, PartialEq, Eq, Structural)]
pub struct Observation {
    pub from: i64,
    pub to: i64,
    pub duty: u8,
    pub rising: bool,
}

/// What has to be remembered between ticks.
#[derive(Debug, Clone, Copy, PartialEq, Eq, Structural)]
pub struct Govern {
    celsius: Option<i64>,
    duty: Option<u8>,
    direction: Direction,
}

/// Where the span of an observation starts: at the last temperature, but only where
/// firmware's duty was the same there. If it changed, nobody knows where in between.
pub open spec fn span_start(last: Option<i64>, last_duty: Option<u8>, c: i64, duty: u8) -> i64 {
    match (last, last_duty) {
        (Some(p), Some(d)) if d == duty => p,
        _ => c,
    }
}

impl Govern {
    pub closed spec fn last(self) -> Option<i64> {
        self.celsius
    }

    pub closed spec fn last_duty(self) -> Option<u8> {
        self.duty
    }

    pub closed spec fn heading(self) -> Direction {
        self.direction
    }

    pub fn new() -> (r: Self)
        ensures
            r.last() is None,
            r.last_duty() is None,
            r.heading().is_rising(),
            r.heading().furthest() is None,
    {
        Self { celsius: None, duty: None, direction: Direction::new() }
    }

    /// One tick of learning. While the EC owns the fan the duty that can be read is
    /// firmware's own choice, and the whole span since the last sample is credited with it.
    /// Under manual control there is nothing to learn.
    pub fn observe(&mut self, celsius: Option<i64>, held: bool, ec_duty: Option<u8>) -> (r: Option<
        Observation,
    >)
        ensures
            final(self).last() == celsius,
            match celsius {
                Some(c) => {
                    let t = turned(
                        old(self).heading().is_rising(),
                        old(self).heading().furthest(),
                        c,
                    );
                    &&& final(self).heading().is_rising() == t.0
                    &&& final(self).heading().furthest() == Some(t.1)
                    &&& match ec_duty {
                        Some(d) if !held => {
                            &&& final(self).last_duty() == Some(d)
                            &&& r == Some(
                                Observation {
                                    from: span_start(old(self).last(), old(self).last_duty(), c, d),
                                    to: c,
                                    duty: d,
                                    rising: t.0,
                                },
                            )
                        },
                        _ => r is None && final(self).last_duty() == (if held {
                            old(self).last_duty()
                        } else {
                            None
                        }),
                    }
                },
                None => {
                    &&& r is None
                    &&& final(self).heading() == old(self).heading()
                    &&& final(self).last_duty() == (if held {
                        old(self).last_duty()
                    } else {
                        None
                    })
                },
            },
    {
        let previous = self.celsius;
        let previous_duty = self.duty;
        let mut rising = false;
        if celsius.is_some() {
            rising = self.direction.update(celsius);
        }
        self.celsius = celsius;
        if held {
            return None;
        }
        match (celsius, ec_duty) {
            (Some(c), Some(duty)) => {
                let from: i64 = match (previous, previous_duty) {
                    (Some(p), Some(d)) if d == duty => p,
                    _ => c,
                };
                self.duty = Some(duty);
                Some(Observation { from, to: c, duty, rising })
            },
            _ => {
                self.duty = None;
                None
            },
        }
    }
}

pub open spec fn yes_no(b: bool) -> Seq<char> {
    if b {
        "true"@
    } else {
        "false"@
    }
}

fn yes_no_text(b: bool) -> (r: &'static str)
    ensures
        r@ == yes_no(b),
{
    if b {
        "true"
    } else {
        "false"
    }
}

/// What to log about a pass of enforcement. Re-asserting the same duty is no news.
pub open spec fn enforced_log(o: Outcome) -> Option<Seq<char>> {
    match o {
        Outcome::Corrected { from, to, floor, celsius } => if from == to {
            None
        } else {
            Some(
                "fan: "@ + one_place(celsius as int) + " C puts the firmware floor at "@ + decimal(
                    floor as nat,
                ) + "/255; moved "@ + decimal(from as nat) + " -> "@ + decimal(to as nat),
            )
        },
        Outcome::ReleasedBatteryHot { celsius, guard, released } => Some(
            "fan: battery at "@ + one_place(celsius as int) + " C is near its "@
                + guard.spec_text()
                + "; it cannot throttle to protect itself, so the fan goes back to firmware. Returned: "@
                + yes_no(released),
        ),
        Outcome::ReleasedTooHot { celsius, ceiling, released } => Some(
            "fan: "@ + one_place(celsius as int) + " C reached the "@ + ceiling.spec_text()
                + " ceiling; the fan belongs to firmware from here (ADR 0006 point 5). Returned to EC control: "@
                + yes_no(released),
        ),
        Outcome::ReleasedNoSensor { released } => Some(
            "fan: temperature became unreadable while under manual control; returned to EC control: "@
                + yes_no(released),
        ),
        Outcome::Failed(e) => Some("fan: could not enforce the firmware floor: "@ + e.text()),
    }
}

/// What to log about a pass of enforcement.
pub fn enforced_text(e: &Enforced) -> (r: Option<String>)
    ensures
        text_of(r) == enforced_log(e@),
{
    let mut s = "fan: ".to_owned();
    match e {
        Enforced::Corrected { from, to, floor, celsius } => {
            if *from == *to {
                return None;
            }
            s.append(one_place_text(*celsius).as_str());
            s.append(" C puts the firmware floor at ");
            s.append(decimal_text(*floor as u64).as_str());
            s.append("/255; moved ");
            s.append(decimal_text(*from as u64).as_str());
            s.append(" -> ");
            s.append(decimal_text(*to as u64).as_str());
        },
        Enforced::ReleasedBatteryHot { celsius, guard, released } => {
            s = "fan: battery at ".to_owned();
            s.append(one_place_text(*celsius).as_str());
            s.append(" C is near its ");
            s.append(guard.text().as_str());
            s.append(
                "; it cannot throttle to protect itself, so the fan goes back to firmware. Returned: ",
            );
            s.append(yes_no_text(*released));
        },
        Enforced::ReleasedTooHot { celsius, ceiling, released } => {
            s.append(one_place_text(*celsius).as_str());
            s.append(" C reached the ");
            s.append(ceiling.text().as_str());
            s.append(
                " ceiling; the fan belongs to firmware from here (ADR 0006 point 5). Returned to EC control: ",
            );
            s.append(yes_no_text(*released));
        },
        Enforced::ReleasedNoSensor { released } => {
            s =
            "fan: temperature became unreadable while under manual control; returned to EC control: ".to_owned();
            s.append(yes_no_text(*released));
        },
        Enforced::Failed(e) => {
            s = "fan: could not enforce the firmware floor: ".to_owned();
            s.append(e.text().as_str());
        },
    }
    Some(s)
}

/// What to log about taking the fan back after a resume. Refusing to is a legitimate
/// outcome: waking too hot is a reason for the fan to stay firmware's.
pub open spec fn restored_log(r: Result<Applied, LeaseFault>) -> Seq<char> {
    match r {
        Ok(a) => if a.target > a.requested {
            "fan: restored after resume at duty "@ + decimal(a.settled as nat)
                + "/255, raised from the requested "@ + decimal(a.requested as nat)
                + " by the firmware floor"@
        } else {
            "fan: restored manual control after resume at duty "@ + decimal(a.settled as nat)
                + "/255"@
        },
        Err(e) => "fan: not restoring manual control after resume: "@ + e.text(),
    }
}

/// What to log about taking the fan back after a resume.
pub fn restored_text(outcome: &Result<Applied, LeaseError>) -> (r: String)
    ensures
        r@ == restored_log(
            match *outcome {
                Ok(a) => Ok(a),
                Err(e) => Err(e@),
            },
        ),
{
    match outcome {
        Ok(a) => if a.clamped() {
            let mut s = "fan: restored after resume at duty ".to_owned();
            s.append(decimal_text(a.settled as u64).as_str());
            s.append("/255, raised from the requested ");
            s.append(decimal_text(a.requested as u64).as_str());
            s.append(" by the firmware floor");
            s
        } else {
            let mut s = "fan: restored manual control after resume at duty ".to_owned();
            s.append(decimal_text(a.settled as u64).as_str());
            s.append("/255");
            s
        },
        Err(e) => {
            let mut s = "fan: not restoring manual control after resume: ".to_owned();
            s.append(e.text().as_str());
            s
        },
    }
}

/// What to log about the fan at startup.
pub open spec fn reclaimed_log(r: Reclaimed) -> Seq<Seq<char>> {
    match r {
        Reclaimed::Nothing => seq![],
        Reclaimed::From { was, released } => seq![
            "fan was left under "@ + was.spec_text()
                + " control by a previous instance; reclaiming"@,
            if released {
                "fan returned to EC control"@
            } else {
                "WARNING: could not return the fan to EC control"@
            },
        ],
    }
}

/// What to log about the fan at startup.
pub fn reclaimed_text(r: &Reclaimed) -> (out: Vec<String>)
    ensures
        texts(out@) == reclaimed_log(*r),
{
    let mut out: Vec<String> = Vec::new();
    match r {
        Reclaimed::Nothing => {
            assert(texts(out@) =~= reclaimed_log(*r));
        },
        Reclaimed::From { was, released } => {
            let mut s = "fan was left under ".to_owned();
            s.append(was.text().as_str());
            s.append(" control by a previous instance; reclaiming");
            let t = if *released {
                "fan returned to EC control".to_owned()
            } else {
                "WARNING: could not return the fan to EC control".to_owned()
            };
            out.push(s);
            out.push(t);
            assert(texts(out@) =~= reclaimed_log(*r));
        },
    }
    out
}

/// A PPD profile as a number, 0 meaning none.
pub open spec fn code_of(p: Ppd) -> u8 {
    match p {
        Ppd::PowerSaver => 1,
        Ppd::Balanced => 2,
        Ppd::Performance => 3,
    }
}

/// The PPD profile a number stands for.
pub open spec fn from_code(c: u8) -> Option<Ppd> {
    if c == 1 {
        Some(Ppd::PowerSaver)
    } else if c == 2 {
        Some(Ppd::Balanced)
    } else if c == 3 {
        Some(Ppd::Performance)
    } else {
        None
    }
}

/// A PPD profile as a number, so that a watcher can hand one to the loop. 0 means that
/// nothing is pending.
pub fn ppd_code(p: Ppd) -> (r: u8)
    ensures
        r == code_of(p),
{
    match p {
        Ppd::PowerSaver => 1,
        Ppd::Balanced => 2,
        Ppd::Performance => 3,
    }
}

pub fn ppd_from_code(c: u8) -> (r: Option<Ppd>)
    ensures
        r == from_code(c),
{
    if c == 1 {
        Some(Ppd::PowerSaver)
    } else if c == 2 {
        Some(Ppd::Balanced)
    } else if c == 3 {
        Some(Ppd::Performance)
    } else {
        None
    }
}

/// A profile's number stands for it, and "nothing pending" for none.
pub proof fn ppd_codes_round_trip(p: Ppd)
    ensures
        from_code(code_of(p)) == Some(p),
        code_of(p) != 0,
        from_code(0) is None,
{
}

/// Did the power source just change, as opposed to being seen for the first time? Starting
/// the daemon is not a transition.
pub fn is_power_source_change(previous: Option<bool>, now: bool) -> (r: bool)
    ensures
        r == (previous matches Some(before) && before != now),
{
    match previous {
        None => false,
        Some(before) => before != now,
    }
}

/// One thing to do when a profile is applied.
#[derive(Debug, Clone, Copy, PartialEq, Eq, Structural)]
pub enum ApplyStep {
    /// Switch the profile axis.
    Axis(Ppd),
    /// Set the power budget.
    Power(u32),
    /// Follow the profile's curve.
    Curve,
    /// Set the charge limit. Failing here does not fail the rest.
    Charge(u8),
}

/// What applying a profile takes, in order: the power budget does most of the thermal work,
/// so it goes before the curve. PPD is not asked for what it has just told us.
pub open spec fn steps_for(p: Choice, set_ppd: bool) -> Seq<ApplyStep> {
    (if set_ppd {
        seq![ApplyStep::Axis(p.ppd)]
    } else {
        seq![]
    }) + seq![ApplyStep::Power(p.pl1_watts), ApplyStep::Curve] + (match p.charge_limit {
        Some(l) => seq![ApplyStep::Charge(l)],
        None => seq![],
    })
}

/// What applying a profile takes, in order.
pub fn apply_steps(profile: &Profile, set_ppd: bool) -> (r: Vec<ApplyStep>)
    ensures
        r@ == steps_for(profile@, set_ppd),
{
    let mut out: Vec<ApplyStep> = Vec::new();
    if set_ppd {
        out.push(ApplyStep::Axis(profile.ppd));
    }
    out.push(ApplyStep::Power(profile.pl1_watts));
    out.push(ApplyStep::Curve);
    if let Some(l) = profile.charge_limit {
        out.push(ApplyStep::Charge(l));
    }
    assert(out@ =~= steps_for(profile@, set_ppd));
    out
}

/// What to log once a profile was applied.
pub fn applied_text(profile: &Profile) -> (r: String)
    ensures
        r@ == applied_line(profile@),
{
    let mut s = "profile ".to_owned();
    s.append(profile.name.as_str());
    s.append(" applied: ppd=");
    s.append(profile.ppd.as_str());
    s.append(" pl1=");
    s.append(decimal_text(profile.pl1_watts as u64).as_str());
    s.append(" W");
    s
}

/// Why a profile is being applied.
#[derive(Debug, Clone, Copy, PartialEq, Eq, Structural)]
pub enum Cause {
    /// It was the one in force before the daemon started.
    Startup,
    /// The power source changed: to mains, or to the battery.
    Source(bool),
    /// The desktop's slider moved.
    Slider,
}

pub open spec fn cause_drives_ppd(c: Cause) -> bool {
    c != Cause::Slider
}

/// Whether PPD is to be told. It already knows where its own slider stands, and telling it
/// would come back as another move.
pub fn drives_ppd(c: Cause) -> (r: bool)
    ensures
        r == cause_drives_ppd(c),
{
    match c {
        Cause::Slider => false,
        _ => true,
    }
}

/// What to log when a profile could not be applied.
pub open spec fn apply_failure(c: Cause, name: Seq<char>, why: Seq<char>) -> Seq<char> {
    (match c {
        Cause::Startup => "could not re-apply profile "@ + name,
        Cause::Source(true) => "could not apply "@ + name + " on AC"@,
        Cause::Source(false) => "could not apply "@ + name + " on battery"@,
        Cause::Slider => "could not follow PPD to "@ + name,
    }) + ": "@ + why
}

/// What to log when a profile could not be applied.
pub fn apply_failure_text(c: Cause, name: &str, why: &str) -> (r: String)
    ensures
        r@ == apply_failure(c, name@, why@),
{
    let mut s = match c {
        Cause::Startup => {
            let mut s = "could not re-apply profile ".to_owned();
            s.append(name);
            s
        },
        Cause::Source(on_ac) => {
            let mut s = "could not apply ".to_owned();
            s.append(name);
            if on_ac {
                s.append(" on AC");
            } else {
                s.append(" on battery");
            }
            s
        },
        Cause::Slider => {
            let mut s = "could not follow PPD to ".to_owned();
            s.append(name);
            s
        },
    };
    s.append(": ");
    s.append(why);
    s
}

/// What to log when a power limit that was set by hand is put back over a profile's own.
pub fn override_text(profile: &Profile, own: u32) -> (r: String)
    ensures
        r@ == override_line(profile@, own),
{
    let mut s = "restoring your ".to_owned();
    s.append(decimal_text(own as u64).as_str());
    s.append(" W power limit over ");
    s.append(profile.name.as_str());
    s.append("'s ");
    s.append(decimal_text(profile.pl1_watts as u64).as_str());
    s.append(" W");
    s
}

/// What a step's failure is called.
pub open spec fn step_failure(step: ApplyStep, why: Seq<char>) -> Seq<char> {
    match step {
        ApplyStep::Axis(_) => why,
        ApplyStep::Power(_) => "power limit: "@ + why,
        ApplyStep::Curve => "fan curve: "@ + why,
        ApplyStep::Charge(_) => why,
    }
}

fn step_failure_text(step: ApplyStep, why: &str) -> (r: String)
    ensures
        r@ == step_failure(step, why@),
{
    match step {
        ApplyStep::Power(_) => {
            let mut s = "power limit: ".to_owned();
            s.append(why);
            s
        },
        ApplyStep::Curve => {
            let mut s = "fan curve: ".to_owned();
            s.append(why);
            s
        },
        _ => why.to_owned(),
    }
}

/// How a step went, by what it says.
pub open spec fn outcomes(r: Seq<Result<(), String>>) -> Seq<Result<(), Seq<char>>> {
    r.map_values(|x: Result<(), String>| match x {
        Ok(()) => Ok::<(), Seq<char>>(()),
        Err(e) => Err(e@),
    })
}

/// Where applying a profile stands: the next step, or what to log and the power limit to
/// remember with the profile, if it is to be remembered.
pub enum Applying {
    Do(ApplyStep),
    Done(Seq<Seq<char>>, Option<u32>),
}

/// The power limit to put back over a profile: the one set by hand after choosing it, where the
/// profile is only being re-applied and its own limit is another.
pub open spec fn own_limit(c: Cause, persisted: Option<u32>, p: Choice) -> Option<u32> {
    match (c, persisted) {
        (Cause::Startup, Some(w)) if w != p.pl1_watts => Some(w),
        _ => None,
    }
}

pub open spec fn applied_line(p: Choice) -> Seq<char> {
    "profile "@ + p.name + " applied: ppd="@ + ppd_name(p.ppd) + " pl1="@ + decimal(
        p.pl1_watts as nat,
    ) + " W"@
}

pub open spec fn override_line(p: Choice, own: u32) -> Seq<char> {
    "restoring your "@ + decimal(own as nat) + " W power limit over "@ + p.name + "'s "@ + decimal(
        p.pl1_watts as nat,
    ) + " W"@
}

/// What to log of a charge limit that failed, which fails nothing else.
pub open spec fn charge_log(p: Choice, r: Seq<Result<(), Seq<char>>>, i: int) -> Seq<Seq<char>> {
    match (p.charge_limit, r[i]) {
        (Some(l), Err(e)) => seq![
            "profile "@ + p.name + ": charge limit "@ + decimal(l as nat) + "% failed: "@ + e,
        ],
        _ => seq![],
    }
}

/// Applying a profile from step `i` on, given how the steps went so far. A failure ends it,
/// save that of the charge limit, and then nothing is remembered. Enforcement re-asserts the
/// limit that is remembered, so it is the one the hardware was told last.
pub open spec fn applying(
    p: Choice,
    c: Cause,
    own: Option<u32>,
    r: Seq<Result<(), Seq<char>>>,
    i: int,
) -> Applying
    decreases steps_for(p, cause_drives_ppd(c)).len() - i,
{
    let steps = steps_for(p, cause_drives_ppd(c));
    let log = charge_log(p, r, steps.len() - 1) + seq![applied_line(p)];
    if i < steps.len() {
        if i >= r.len() {
            Applying::Do(steps[i])
        } else {
            match r[i] {
                Err(e) if !(steps[i] is Charge) => Applying::Done(
                    seq![apply_failure(c, p.name, step_failure(steps[i], e))],
                    None,
                ),
                _ => applying(p, c, own, r, i + 1),
            }
        }
    } else {
        match own {
            None => Applying::Done(log, Some(p.pl1_watts)),
            Some(w) => if i >= r.len() {
                Applying::Do(ApplyStep::Power(w))
            } else {
                match r[i] {
                    Ok(()) => Applying::Done(log + seq![override_line(p, w)], Some(w)),
                    Err(e) => Applying::Done(
                        log + seq![
                            override_line(p, w),
                            "could not restore "@ + decimal(w as nat) + " W: "@ + e,
                        ],
                        Some(p.pl1_watts),
                    ),
                }
            },
        }
    }
}

/// What comes next while a profile is applied.
#[derive(Debug, Clone, PartialEq, Eq)]
pub enum ApplyNext {
    /// Do this, and say how it went behind the others.
    Do(ApplyStep),
    /// Log these, and remember the profile with this power limit, if with any.
    Done { log: Vec<String>, record: Option<u32> },
}

/// A profile is remembered exactly where every step but the charge limit went well, and with
/// the power limit that was set last.
pub proof fn a_failed_step_records_nothing(
    p: Choice,
    c: Cause,
    own: Option<u32>,
    r: Seq<Result<(), Seq<char>>>,
    i: int,
)
    requires
        0 <= i <= steps_for(p, cause_drives_ppd(c)).len(),
    ensures
        applying(p, c, own, r, i) matches Applying::Done(_, record) ==> {
            let steps = steps_for(p, cause_drives_ppd(c));
            let went = |k: int| k < r.len() && (r[k] is Ok || steps[k] is Charge);
            &&& record is Some <==> forall|k: int| i <= k < steps.len() ==> #[trigger] went(k)
            &&& record matches Some(w) ==> w == (match own {
                Some(o) if r[steps.len() as int] is Ok => o,
                _ => p.pl1_watts,
            })
        },
    decreases steps_for(p, cause_drives_ppd(c)).len() - i,
{
    let steps = steps_for(p, cause_drives_ppd(c));
    let went = |k: int| k < r.len() && (r[k] is Ok || steps[k] is Charge);
    if i < steps.len() {
        if i < r.len() && went(i) {
            a_failed_step_records_nothing(p, c, own, r, i + 1);
            if applying(p, c, own, r, i) is Done {
                assert((forall|k: int| i + 1 <= k < steps.len() ==> #[trigger] went(k)) ==> (
                forall|k: int| i <= k < steps.len() ==> #[trigger] went(k)));
            }
        } else {
            assert(!went(i));
        }
    }
}

/// What to do about a profile that something asked for.
#[derive(Debug, PartialEq, Eq)]
pub enum Plan {
    Nothing,
    /// The name is not one we know; what to log.
    Unknown(String),
    /// Apply this, once the line was logged.
    Apply(Profile, String),
}

/// Whether a plan is the one that a name calls for among the known profiles.
pub open spec fn plan_for(
    plan: Plan,
    known: Seq<Choice>,
    name: Seq<char>,
    found: Seq<char>,
    missing: Seq<char>,
) -> bool {
    match lookup(known, name) {
        Some(p) => plan matches Plan::Apply(x, log) && x@ == p && log@ == found,
        None => plan matches Plan::Unknown(log) && log@ == missing,
    }
}

pub open spec fn source_name(on_ac: bool) -> Seq<char> {
    if on_ac {
        "AC"@
    } else {
        "battery"@
    }
}

/// What the loop has to remember between ticks.
#[derive(Debug, PartialEq, Eq)]
pub struct Poller {
    /// The persisted profile, until it was looked at.
    startup: Option<String>,
    /// The persisted power limit, which may differ from the profile's own.
    power_override: Option<u32>,
    corrections: u32,
    last_on_ac: Option<bool>,
    saved_revision: u64,
    /// When the floor was last looked at for saving.
    looked_ms: u64,
}

impl Poller {
    pub closed spec fn waiting(&self) -> Option<Seq<char>> {
        text_of(self.startup)
    }

    pub closed spec fn persisted_watts(&self) -> Option<u32> {
        self.power_override
    }

    pub closed spec fn corrected(&self) -> u32 {
        self.corrections
    }

    pub closed spec fn source(&self) -> Option<bool> {
        self.last_on_ac
    }

    pub closed spec fn saved(&self) -> u64 {
        self.saved_revision
    }

    pub closed spec fn looked(&self) -> u64 {
        self.looked_ms
    }

    pub open spec fn wf(&self) -> bool {
        self.corrected() <= MAX_POWER_CORRECTIONS
    }

    pub fn new(profile: Option<String>, power_limit: Option<u32>) -> (r: Self)
        ensures
            r.wf(),
            r.waiting() == text_of(profile),
            r.persisted_watts() == power_limit,
            r.corrected() == 0,
            r.source() is None,
            r.saved() == 0,
            r.looked() == 0,
    {
        Self {
            startup: profile,
            power_override: power_limit,
            corrections: 0,
            last_on_ac: None,
            saved_revision: 0,
            looked_ms: 0,
        }
    }

    /// The persisted profile, on the first tick: the curve needs a temperature, and at
    /// startup there is none yet.
    pub fn startup(&mut self, known: &Vec<Profile>) -> (r: Plan)
        requires
            old(self).wf(),
        ensures
            final(self).wf(),
            final(self).waiting() is None,
            final(self).persisted_watts() == old(self).persisted_watts(),
            final(self).source() == old(self).source(),
            final(self).saved() == old(self).saved(),
            final(self).looked() == old(self).looked(),
            final(self).corrected() == (if r is Apply {
                0
            } else {
                old(self).corrected()
            }),
            match old(self).waiting() {
                None => r is Nothing,
                Some(name) => plan_for(
                    r,
                    choices(known@),
                    name,
                    "re-applying persisted profile "@ + name,
                    "persisted profile "@ + in_quotes(name) + " is not one we know; ignoring"@,
                ),
            },
    {
        let name = match self.startup.take() {
            None => {
                return Plan::Nothing;
            },
            Some(n) => n,
        };
        match position(known, name.as_str()) {
            Some(i) => {
                self.corrections = 0;
                let mut log = "re-applying persisted profile ".to_owned();
                log.append(name.as_str());
                Plan::Apply(known[i].clone(), log)
            },
            None => {
                let mut log = "persisted profile ".to_owned();
                log.append(quoted(name.as_str()).as_str());
                log.append(" is not one we know; ignoring");
                Plan::Unknown(log)
            },
        }
    }

    /// The power limit to put back on top of a profile re-applied at startup: the one set by
    /// hand after choosing it, where it differs from the profile's own.
    pub fn startup_override(&self, profile: &Profile) -> (r: Option<u32>)
        ensures
            r == own_limit(Cause::Startup, self.persisted_watts(), profile@),
    {
        match self.power_override {
            Some(w) if w != profile.pl1_watts => Some(w),
            _ => None,
        }
    }

    /// What comes next while a profile is applied, given how the steps so far went.
    pub fn apply_next(&self, cause: Cause, profile: &Profile, results: &[Result<(), String>]) -> (r:
        ApplyNext)
        ensures
            match applying(
                profile@,
                cause,
                own_limit(cause, self.persisted_watts(), profile@),
                outcomes(results@),
                0,
            ) {
                Applying::Do(step) => r == ApplyNext::Do(step),
                Applying::Done(lines, watts) => r matches ApplyNext::Done { log, record }
                    && texts(log@) == lines && record == watts,
            },
    {
        let steps = apply_steps(profile, drives_ppd(cause));
        let own = match cause {
            Cause::Startup => self.startup_override(profile),
            _ => None,
        };
        let ghost said = outcomes(results@);
        let ghost goal = applying(profile@, cause, own, said, 0);
        let mut log: Vec<String> = Vec::new();
        let mut i: usize = 0;
        assert(texts(log@) =~= seq![]);
        while i < steps.len()
            invariant
                i <= steps@.len(),
                steps@ == steps_for(profile@, cause_drives_ppd(cause)),
                said == outcomes(results@),
                own == own_limit(cause, self.persisted_watts(), profile@),
                goal == applying(profile@, cause, own, said, 0),
                goal == applying(profile@, cause, own, said, i as int),
                texts(log@) == (if i == steps@.len() {
                    charge_log(profile@, said, i - 1)
                } else {
                    seq![]
                }),
            decreases steps@.len() - i,
        {
            if i >= results.len() {
                return ApplyNext::Do(steps[i]);
            }
            assert(said[i as int] == (match results@[i as int] {
                Ok(()) => Ok::<(), Seq<char>>(()),
                Err(e) => Err(e@),
            }));
            match (steps[i], &results[i]) {
                (ApplyStep::Charge(l), Err(e)) => {
                    let mut s = "profile ".to_owned();
                    s.append(profile.name.as_str());
                    s.append(": charge limit ");
                    s.append(decimal_text(l as u64).as_str());
                    s.append("% failed: ");
                    s.append(e.as_str());
                    log.push(s);
                    assert(texts(log@) =~= seq![s@]);
                },
                (step, Err(e)) => {
                    let why = step_failure_text(step, e.as_str());
                    let s = apply_failure_text(cause, profile.name.as_str(), why.as_str());
                    let mut lines: Vec<String> = Vec::new();
                    lines.push(s);
                    assert(texts(lines@) =~= seq![s@]);
                    return ApplyNext::Done { log: lines, record: None };
                },
                (_, Ok(())) => {},
            }
            i = i + 1;
        }
        let ghost first = texts(log@);
        log.push(applied_text(profile));
        assert(texts(log@) =~= first + seq![applied_line(profile@)]);
        let w: u32 = match own {
            None => {
                return ApplyNext::Done { log, record: Some(profile.pl1_watts) };
            },
            Some(w) => w,
        };
        if i >= results.len() {
            return ApplyNext::Do(ApplyStep::Power(w));
        }
        assert(said[i as int] == (match results@[i as int] {
            Ok(()) => Ok::<(), Seq<char>>(()),
            Err(e) => Err(e@),
        }));
        let ghost had = texts(log@);
        let again = override_text(profile, w);
        match &results[i] {
            Ok(()) => {
                log.push(again);
                assert(texts(log@) =~= had + seq![again@]);
                ApplyNext::Done { log, record: Some(w) }
            },
            Err(e) => {
                let mut s = "could not restore ".to_owned();
                s.append(decimal_text(w as u64).as_str());
                s.append(" W: ");
                s.append(e.as_str());
                log.push(again);
                log.push(s);
                assert(texts(log@) =~= had + seq![again@, s@]);
                ApplyNext::Done { log, record: Some(profile.pl1_watts) }
            },
        }
    }

    /// The profile configured for a power source that has just changed. Edge-triggered:
    /// re-applying on every tick would fight whatever was chosen by hand since.
    pub fn source_changed(&mut self, on_ac: Option<bool>, state: &State, known: &Vec<Profile>) -> (r:
        Plan)
        requires
            old(self).wf(),
        ensures
            final(self).wf(),
            final(self).waiting() == old(self).waiting(),
            final(self).persisted_watts() == old(self).persisted_watts(),
            final(self).saved() == old(self).saved(),
            final(self).looked() == old(self).looked(),
            final(self).corrected() == (if r is Apply {
                0
            } else {
                old(self).corrected()
            }),
            match on_ac {
                None => r is Nothing && final(self).source() == old(self).source(),
                Some(now) => {
                    &&& final(self).source() == Some(now)
                    &&& {
                        let wanted = if now {
                            state@.profile_on_ac
                        } else {
                            state@.profile_on_battery
                        };
                        if (old(self).source() matches Some(b) && b != now) && wanted is Some {
                            plan_for(
                                r,
                                choices(known@),
                                wanted->0,
                                "switched to "@ + source_name(now) + "; applying profile "@
                                    + wanted->0,
                                "switched to "@ + source_name(now) + ", but profile "@ + in_quotes(
                                    wanted->0,
                                ) + " no longer exists"@,
                            )
                        } else {
                            r is Nothing
                        }
                    }
                },
            },
    {
        let now = match on_ac {
            None => {
                return Plan::Nothing;
            },
            Some(b) => b,
        };
        let previous = self.last_on_ac;
        self.last_on_ac = Some(now);
        if !is_power_source_change(previous, now) {
            return Plan::Nothing;
        }
        let name = match state.auto_profile_for(now) {
            None => {
                return Plan::Nothing;
            },
            Some(n) => n,
        };
        let mut log = "switched to ".to_owned();
        log.append(
            if now {
                "AC"
            } else {
                "battery"
            },
        );
        match position(known, name.as_str()) {
            Some(i) => {
                self.corrections = 0;
                log.append("; applying profile ");
                log.append(name.as_str());
                Plan::Apply(known[i].clone(), log)
            },
            None => {
                log.append(", but profile ");
                log.append(quoted(name.as_str()).as_str());
                log.append(" no longer exists");
                Plan::Unknown(log)
            },
        }
    }

    /// The profile to follow PPD with, and what remains of our own mark. `pending` is the
    /// profile PPD switched to, `applied` the one we set ourselves: the echo of our own
    /// switch is not followed. A user profile that replaces a built-in is used, one under a
    /// new name never becomes the slider's destination.
    pub fn follow(&mut self, pending: u8, applied: u8, known: &Vec<Profile>) -> (r: (Plan, u8))
        requires
            old(self).wf(),
        ensures
            final(self).wf(),
            final(self).waiting() == old(self).waiting(),
            final(self).persisted_watts() == old(self).persisted_watts(),
            final(self).source() == old(self).source(),
            final(self).saved() == old(self).saved(),
            final(self).looked() == old(self).looked(),
            final(self).corrected() == (if r.0 is Apply {
                0
            } else {
                old(self).corrected()
            }),
            match from_code(pending) {
                None => r.0 is Nothing && r.1 == applied,
                Some(target) => r.1 == 0 && if applied == pending {
                    r.0 is Nothing
                } else {
                    let p = followed_profile(choices(known@), target);
                    r.0 matches Plan::Apply(x, log) && x@ == p && log@ == "PPD switched to "@
                        + ppd_name(target) + "; following with profile "@ + p.name
                },
            },
    {
        let target = match ppd_from_code(pending) {
            None => {
                return (Plan::Nothing, applied);
            },
            Some(p) => p,
        };
        if applied == pending {
            return (Plan::Nothing, 0);
        }
        let p = match position(known, Profile::canonical_name_for(target)) {
            Some(i) => known[i].clone(),
            None => Profile::for_ppd(target),
        };
        self.corrections = 0;
        let mut log = "PPD switched to ".to_owned();
        log.append(target.as_str());
        log.append("; following with profile ");
        log.append(p.name.as_str());
        (Plan::Apply(p, log), 0)
    }

    /// Whether the power limit may still be re-asserted.
    pub fn may_correct(&self) -> (r: bool)
        ensures
            r == (self.corrected() < MAX_POWER_CORRECTIONS),
    {
        self.corrections < MAX_POWER_CORRECTIONS
    }

    /// Count a correction of the power limit; what to log. Bounded, so that firmware is
    /// never fought forever.
    pub fn correct(&mut self, desired: u32, observed: u32) -> (r: Vec<String>)
        requires
            old(self).wf(),
            old(self).corrected() < MAX_POWER_CORRECTIONS,
        ensures
            final(self).wf(),
            final(self).corrected() == old(self).corrected() + 1,
            final(self).waiting() == old(self).waiting(),
            final(self).persisted_watts() == old(self).persisted_watts(),
            final(self).source() == old(self).source(),
            final(self).saved() == old(self).saved(),
            final(self).looked() == old(self).looked(),
            texts(r@) == correction_log(desired, observed, final(self).corrected()),
    {
        self.corrections = self.corrections + 1;
        let mut s = "power limit was ".to_owned();
        s.append(decimal_text(observed as u64).as_str());
        s.append(" W, expected ");
        s.append(decimal_text(desired as u64).as_str());
        s.append(" W; re-applied (correction ");
        s.append(decimal_text(self.corrections as u64).as_str());
        s.append(" of ");
        s.append(decimal_text(MAX_POWER_CORRECTIONS as u64).as_str());
        s.append(")");
        let mut out: Vec<String> = Vec::new();
        out.push(s);
        if self.corrections == MAX_POWER_CORRECTIONS {
            out.push(
                "power limit: firmware keeps overriding us; giving up until it is set again. This machine may re-derive PL1 from platform_profile".to_owned(),
            );
        }
        assert(texts(out@) =~= correction_log(desired, observed, self.corrections));
        out
    }

    /// Whether the learned floor is to be written out now: looked at once per interval, and
    /// written only where it changed since.
    pub fn save_due(&mut self, now_ms: u64, revision: u64, empty: bool) -> (r: bool)
        requires
            old(self).wf(),
        ensures
            final(self).wf(),
            ({
                let due = elapsed(old(self).looked(), now_ms) >= FLOOR_SAVE_INTERVAL_MS;
                &&& due <==> now_ms - old(self).looked() >= 60_000
                &&& r == (due && revision != old(self).saved() && !empty)
                &&& final(self).looked() == (if due {
                    now_ms
                } else {
                    old(self).looked()
                })
            }),
            final(self).saved() == (if r {
                revision
            } else {
                old(self).saved()
            }),
            final(self).corrected() == old(self).corrected(),
            final(self).waiting() == old(self).waiting(),
            final(self).persisted_watts() == old(self).persisted_watts(),
            final(self).source() == old(self).source(),
    {
        if now_ms < self.looked_ms || now_ms - self.looked_ms < FLOOR_SAVE_INTERVAL_MS {
            return false;
        }
        self.looked_ms = now_ms;
        if revision == self.saved_revision || empty {
            return false;
        }
        self.saved_revision = revision;
        true
    }
}

/// The profile that PPD switching to `target` leads to.
pub open spec fn followed_profile(known: Seq<Choice>, target: Ppd) -> Choice {
    match lookup(known, built_in(target).name) {
        Some(p) => p,
        None => built_in(target),
    }
}

pub open spec fn correction_log(desired: u32, observed: u32, count: u32) -> Seq<Seq<char>> {
    let first = "power limit was "@ + decimal(observed as nat) + " W, expected "@ + decimal(
        desired as nat,
    ) + " W; re-applied (correction "@ + decimal(count as nat) + " of "@ + decimal(
        MAX_POWER_CORRECTIONS as nat,
    ) + ")"@;
    if count == MAX_POWER_CORRECTIONS {
        seq![
            first,
            "power limit: firmware keeps overriding us; giving up until it is set again. This machine may re-derive PL1 from platform_profile"@,
        ]
    } else {
        seq![first]
    }
}

/// The first temperature counts as rising. After that a temperature that goes on the way it went
/// moves the furthest point along, one that comes back by less than two degrees changes nothing,
/// and one that comes back by two degrees or more turns the direction there.
pub proof fn two_degrees_back_turn_the_direction(x: i64, c: i64, rising: bool)
    ensures
        turned(rising, None, c) == (true, c),
        c >= x ==> turned(true, Some(x), c) == (true, c),
        0 < x - c < 2_000 ==> turned(true, Some(x), c) == (true, x),
        x - c >= 2_000 ==> turned(true, Some(x), c) == (false, c),
        c <= x ==> turned(false, Some(x), c) == (false, c),
        0 < c - x < 2_000 ==> turned(false, Some(x), c) == (false, x),
        c - x >= 2_000 ==> turned(false, Some(x), c) == (true, c),
{
}

/// A span reaches back to the last temperature exactly where firmware's duty was the same there.
pub proof fn a_span_reaches_back_only_over_the_same_duty(
    last: i64,
    last_duty: u8,
    c: i64,
    duty: u8,
)
    ensures
        last_duty == duty ==> span_start(Some(last), Some(last_duty), c, duty) == last,
        last_duty != duty ==> span_start(Some(last), Some(last_duty), c, duty) == c,
        span_start(None, Some(last_duty), c, duty) == c,
        span_start(Some(last), None, c, duty) == c,
        span_start(None, None, c, duty) == c,
{
}

/// Applying a profile tells PPD first, unless that is where the profile came from, then sets the
/// power budget, then follows the curve, and sets the charge limit last, where the profile has
/// one: these and nothing else.
pub proof fn a_profile_is_applied_in_order(p: Choice, set_ppd: bool)
    ensures
        ({
            let s = steps_for(p, set_ppd);
            let k: int = if set_ppd {
                1
            } else {
                0
            };
            let l: int = if p.charge_limit is Some {
                1
            } else {
                0
            };
            &&& s.len() == k + 2 + l
            &&& set_ppd ==> s[0] == ApplyStep::Axis(p.ppd)
            &&& s[k] == ApplyStep::Power(p.pl1_watts)
            &&& s[k + 1] == ApplyStep::Curve
            &&& p.charge_limit matches Some(limit) ==> s[k + 2] == ApplyStep::Charge(limit)
        }),
{
}

/// While everything goes well the next step is the one behind those that were done, and behind
/// the last comes the limit that was set by hand, where there is one.
pub proof fn steps_that_went_well_lead_to_the_next(
    p: Choice,
    c: Cause,
    own: Option<u32>,
    r: Seq<Result<(), Seq<char>>>,
    i: int,
)
    requires
        0 <= i <= r.len(),
        r.len() <= steps_for(p, cause_drives_ppd(c)).len(),
        forall|k: int| i <= k < r.len() ==> (#[trigger] r[k]) is Ok,
    ensures
        ({
            let steps = steps_for(p, cause_drives_ppd(c));
            &&& r.len() < steps.len() ==> applying(p, c, own, r, i) == Applying::Do(
                steps[r.len() as int],
            )
            &&& r.len() == steps.len() && own is Some ==> applying(p, c, own, r, i) == Applying::Do(
                ApplyStep::Power(own->0),
            )
            &&& r.len() == steps.len() && own is None ==> (applying(p, c, own, r, i) matches Applying::Done(
                _,
                record,
            ) && record == Some(p.pl1_watts))
        }),
    decreases r.len() - i,
{
    if i < r.len() {
        assert(r[i] is Ok);
        steps_that_went_well_lead_to_the_next(p, c, own, r, i + 1);
    }
}

/// The first step that fails, the charge limit's apart, ends applying a profile with one line
/// that names the profile, the step and the reason.
pub proof fn the_first_failure_ends_applying(
    p: Choice,
    c: Cause,
    own: Option<u32>,
    r: Seq<Result<(), Seq<char>>>,
    i: int,
    k: int,
)
    requires
        0 <= i <= k < r.len(),
        k < steps_for(p, cause_drives_ppd(c)).len(),
        forall|j: int| i <= j < k ==> (#[trigger] r[j]) is Ok,
        r[k] is Err,
        !(steps_for(p, cause_drives_ppd(c))[k] is Charge),
    ensures
        applying(p, c, own, r, i) == Applying::Done(
            seq![
                apply_failure(
                    c,
                    p.name,
                    step_failure(steps_for(p, cause_drives_ppd(c))[k], r[k]->Err_0),
                ),
            ],
            None,
        ),
    decreases k - i,
{
    if i < k {
        assert(r[i] is Ok);
        the_first_failure_ends_applying(p, c, own, r, i + 1, k);
    }
}

/// The limit that is put back over a profile is the one that was set by hand, and only where the
/// profile is re-applied at startup with another limit of its own.
pub proof fn only_startup_puts_a_limit_back(c: Cause, persisted: Option<u32>, p: Choice, w: u32)
    ensures
        own_limit(c, persisted, p) == Some(w) <==> c == Cause::Startup && persisted == Some(w) && w
            != p.pl1_watts,
{
}

/// A pass of enforcement is news unless the fan stayed where it was.
pub proof fn enforcement_is_news_unless_nothing_moved(o: Outcome)
    ensures
        enforced_log(o) is None <==> (o matches Outcome::Corrected { from, to, .. } && from == to),
{
}

/// PPD's slider leads to the profile of the built-in's name: the user's own where there is one of
/// that name, and the built-in where there is not.
pub proof fn the_slider_leads_to_the_profile_of_the_built_ins_name(known: Seq<Choice>, target: Ppd)
    ensures
        followed_profile(known, target).name == built_in(target).name,
        (forall|j: int| 0 <= j < known.len() ==> (#[trigger] known[j]).name != built_in(target).name)
            ==> followed_profile(known, target) == built_in(target),
        forall|k: int|
            0 <= k < known.len() && (#[trigger] known[k]).name == built_in(target).name && (forall|
                j: int,
            |
                0 <= j < k ==> (#[trigger] known[j]).name != built_in(target).name)
                ==> followed_profile(known, target) == known[k],
{
    let name = built_in(target).name;
    crate::profiles::a_lookup_finds_the_first_of_a_name(known, name);
    if lookup(known, name) is Some {
        let p = lookup(known, name)->0;
        let i = choose|i: int|
            0 <= i < known.len() && #[trigger] known[i] == p && p.name == name && forall|j: int|
                0 <= j < i ==> (#[trigger] known[j]).name != name;
        assert forall|k: int|
            0 <= k < known.len() && (#[trigger] known[k]).name == name && (forall|j: int|
                0 <= j < k ==> (#[trigger] known[j]).name != name) implies followed_profile(
            known,
            target,
        ) == known[k] by {
            if i < k {
                assert(known[i].name != name);
            }
            if k < i {
                assert(known[k].name != name);
            }
        }
    }
}

/// A plan is to apply the profile that a name stands for, or to say that there is none.
pub proof fn a_plan_is_the_profile_of_its_name(
    plan: Plan,
    known: Seq<Choice>,
    name: Seq<char>,
    found: Seq<char>,
    missing: Seq<char>,
)
    requires
        plan_for(plan, known, name, found, missing),
    ensures
        plan matches Plan::Apply(x, log) ==> x@.name == name && log@ == found && lookup(known, name)
            == Some(x@),
        plan matches Plan::Unknown(log) ==> log@ == missing && lookup(known, name) is None,
        !(plan is Nothing),
{
    crate::profiles::a_lookup_finds_the_first_of_a_name(known, name);
}

/// Giving up is told once, with the last correction that is made.
pub proof fn giving_up_is_told_with_the_last_correction(desired: u32, observed: u32, count: u32)
    ensures
        count == 5 ==> correction_log(desired, observed, count).len() == 2,
        count != 5 ==> correction_log(desired, observed, count).len() == 1,
{
}

/// A charge limit that fails is told before what was applied, and fails nothing else.
pub proof fn a_charge_limit_that_fails_is_only_told(
    p: Choice,
    c: Cause,
    limit: u8,
    r: Seq<Result<(), Seq<char>>>,
    i: int,
)
    requires
        p.charge_limit == Some(limit),
        r.len() == steps_for(p, cause_drives_ppd(c)).len(),
        0 <= i < r.len(),
        forall|k: int| 0 <= k < r.len() - 1 ==> (#[trigger] r[k]) is Ok,
    ensures
        r.last() matches Err(e) ==> applying(p, c, None, r, i) == Applying::Done(
            seq![
                "profile "@ + p.name + ": charge limit "@ + decimal(limit as nat) + "% failed: "@ + e,
                "profile "@ + p.name + " applied: ppd="@ + ppd_name(p.ppd) + " pl1="@ + decimal(
                    p.pl1_watts as nat,
                ) + " W"@,
            ],
            Some(p.pl1_watts),
        ),
        r.last() is Ok ==> applying(p, c, None, r, i) == Applying::Done(
            seq![
                "profile "@ + p.name + " applied: ppd="@ + ppd_name(p.ppd) + " pl1="@ + decimal(
                    p.pl1_watts as nat,
                ) + " W"@,
            ],
            Some(p.pl1_watts),
        ),
    decreases r.len() - i,
{
    let steps = steps_for(p, cause_drives_ppd(c));
    let log = charge_log(p, r, steps.len() - 1) + seq![applied_line(p)];
    if i < r.len() - 1 {
        assert(r[i] is Ok);
        a_charge_limit_that_fails_is_only_told(p, c, limit, r, i + 1);
    } else {
        assert(steps[i] == ApplyStep::Charge(limit));
        assert(applying(p, c, None, r, i) == applying(p, c, None, r, i + 1));
        if r.last() is Ok {
            assert(log =~= seq![applied_line(p)]);
        } else {
            assert(log =~= seq![charge_log(p, r, i)[0], applied_line(p)]);
        }
    }
}

}
