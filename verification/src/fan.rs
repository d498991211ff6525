//! Manual fan control: acquired as a lease, never held as a state.
//!
//! Once `pwm1_enable` is 1 the EC stops managing the fan and holds whatever duty was last
//! written, indefinitely. A daemon that dies at a high duty leaves the machine loud; one
//! that dies at a low duty leaves the fan low under load, which is inaudible and harmful.
//! So any failure in the middle of taking control releases it.
//!
//! Two measured facts shape this. Writing `pwm1` while the EC owns the fan is refused, so a
//! duty cannot be established before the mode switch; the attempt is kept because it is
//! free where it is refused. And the EC stores duty as a whole percent, so what reads back
//! is near what was written, not equal to it: see [`DUTY_TOLERANCE`].
//!
//! Each operation is a piece of file-driven work, see [`crate::sysfs::Step`].

use vstd::prelude::*;
use crate::floor::{LEAST_DUTY, STICTION_DUTY};
use crate::number::{decimal, decimal_text};
use crate::sysfs::{
    a_number_in_a_file_reads_as_itself,
    present_run,
    read_run,
    replies,
    unsigned_in,
    write_run,
    Answer,
    FileOp,
    IoError,
    IoFault,
    Op,
    Replay,
    Reply,
    Run,
    Step,
    Sysfs,
};

verus! {

/// `pwm1_enable` values: 1 is manual, 2 is firmware's own curve.
pub const PWM_MANUAL: u64 = 1;

pub const PWM_AUTO: u64 = 2;

/// Lowest duty that [`FanControl`] accepts, other than zero. A mechanical limit, not
/// a thermal one: nothing here knows the temperature.
pub const MIN_TAKEOVER_DUTY: u8 = LEAST_DUTY;

/// How far the EC's reported duty may sit from what was asked for before it counts as a
/// rejected write.
pub const DUTY_TOLERANCE: u8 = 3;

pub const PWM_ENABLE: &'static str = "/pwm1_enable";

pub const PWM: &'static str = "/pwm1";

/// Only this reports the real speed; the target file stays at 0 throughout manual control.
pub const FAN_INPUT: &'static str = "/fan1_input";

#[derive(Debug, Clone, Copy, PartialEq, Eq, Structural)]
pub enum FanMode {
    /// EC owns the fan and runs its own curve. The safe resting state.
    Auto,
    /// We own the fan. The EC will not intervene.
    Manual,
    /// Something else entirely. Do not guess what it means.
    Other(u64),
}

impl FanMode {
    pub open spec fn of_raw(v: u64) -> FanMode {
        if v == PWM_MANUAL {
            FanMode::Manual
        } else if v == PWM_AUTO {
            FanMode::Auto
        } else {
            FanMode::Other(v)
        }
    }

    pub fn from_raw(v: u64) -> (r: Self)
        ensures
            r == FanMode::of_raw(v),
    {
        if v == PWM_MANUAL {
            FanMode::Manual
        } else if v == PWM_AUTO {
            FanMode::Auto
        } else {
            FanMode::Other(v)
        }
    }

    pub fn is_manual(self) -> (r: bool)
        ensures
            r == (self is Manual),
    {
        match self {
            FanMode::Manual => true,
            _ => false,
        }
    }

    pub open spec fn spec_text(self) -> Seq<char> {
        match self {
            FanMode::Auto => "EC automatic"@,
            FanMode::Manual => "manual"@,
            FanMode::Other(v) => "unknown mode "@ + decimal(v as nat),
        }
    }

    pub fn text(self) -> (r: String)
        ensures
            r@ == self.spec_text(),
    {
        match self {
            FanMode::Auto => "EC automatic".to_owned(),
            FanMode::Manual => "manual".to_owned(),
            FanMode::Other(v) => {
                let mut s = "unknown mode ".to_owned();
                s.append(decimal_text(v).as_str());
                s
            },
        }
    }
}

#[allow(inconsistent_fields)]
#[derive(Debug, Clone, PartialEq, Eq)]
pub enum FanError {
    /// No EC hwmon node, or one without `pwm1_enable`.
    Unsupported,
    /// A duty that cannot turn the fan, and is not zero.
    DutyCannotTurnFan(u8),
    /// Asked to set a duty while the EC still owns the fan. Writing it would be ignored,
    /// which would read as a working control that does nothing.
    NotUnderManualControl(FanMode),
    Io(IoError),
    /// Mode written, but reading back gave something else. Manual control has been released
    /// before this is returned.
    ModeNotApplied { requested: FanMode, observed: FanMode },
    /// Duty written, but reading back gave something else. Manual control has been released
    /// before this is returned.
    DutyNotApplied { requested: u8, observed: u8 },
    /// The release itself failed to verify. The one error here with no clean recovery: the
    /// fan may be held at a duty of our choosing with nothing refreshing it.
    NotReleased { observed: FanMode },
    /// A raw EC command failed, for boards driven that way.
    Ec(String),
    /// The EC did not take the fan back when told to by a raw command.
    EcNotReleased(String),
}

/// What a [`FanError`] says.
#[allow(inconsistent_fields)]
pub enum FanFault {
    Unsupported,
    DutyCannotTurnFan(u8),
    NotUnderManualControl(FanMode),
    Io(IoFault),
    ModeNotApplied { requested: FanMode, observed: FanMode },
    DutyNotApplied { requested: u8, observed: u8 },
    NotReleased { observed: FanMode },
    Ec(Seq<char>),
    EcNotReleased(Seq<char>),
}

impl View for FanError {
    type V = FanFault;

    open spec fn view(&self) -> FanFault {
        match *self {
            FanError::Unsupported => FanFault::Unsupported,
            FanError::DutyCannotTurnFan(d) => FanFault::DutyCannotTurnFan(d),
            FanError::NotUnderManualControl(m) => FanFault::NotUnderManualControl(m),
            FanError::Io(e) => FanFault::Io(e@),
            FanError::ModeNotApplied { requested, observed } => FanFault::ModeNotApplied {
                requested,
                observed,
            },
            FanError::DutyNotApplied { requested, observed } => FanFault::DutyNotApplied {
                requested,
                observed,
            },
            FanError::NotReleased { observed } => FanFault::NotReleased { observed },
            FanError::Ec(why) => FanFault::Ec(why@),
            FanError::EcNotReleased(why) => FanFault::EcNotReleased(why@),
        }
    }
}

impl FanFault {
    pub open spec fn text(self) -> Seq<char> {
        match self {
            FanFault::Unsupported =>
                "fan control unavailable; no cros_ec hwmon node with pwm1_enable (is cros_ec_hwmon loaded?)"@,
            FanFault::DutyCannotTurnFan(d) => "duty "@ + decimal(d as nat)
                + "/255 cannot turn the fan: measured, duty 20 gives 0 rpm and duty "@ + decimal(
                STICTION_DUTY as nat,
            ) + " gives 1107 rpm. Use 0 for a stopped fan, or at least "@ + decimal(
                MIN_TAKEOVER_DUTY as nat,
            ) + " for a turning one"@,
            FanFault::NotUnderManualControl(mode) => "cannot set fan duty: the fan is "@
                + mode.spec_text() + "; take manual control first"@,
            FanFault::Io(e) => e.message,
            FanFault::ModeNotApplied { requested, observed } => "asked the EC for "@
                + requested.spec_text() + " fan control but it reports "@ + observed.spec_text()
                + "; released manual control and left the fan to firmware"@,
            FanFault::DutyNotApplied { requested, observed } => "wrote fan duty "@ + decimal(
                requested as nat,
            ) + "/255 but the EC reports "@ + decimal(observed as nat) + "/255, more than the "@
                + decimal(DUTY_TOLERANCE as nat)
                + " counts of percent-quantization slack; released manual control rather than hold an unverified duty"@,
            FanFault::NotReleased { observed } =>
                "FAILED to return the fan to EC control \u{2014} it reports "@
                + observed.spec_text()
                + ". Run fw-helper-restore-fan, or write 2 to the cros_ec hwmon's pwm1_enable by hand"@,
            FanFault::Ec(why) => why,
            FanFault::EcNotReleased(why) => "FAILED to return the fan to EC control \u{2014} "@ + why
                + ". Run fw-helper-restore-fan"@,
        }
    }
}

impl FanError {
    pub fn text(&self) -> (r: String)
        ensures
            r@ == self@.text(),
    {
        match self {
            FanError::Unsupported =>
                "fan control unavailable; no cros_ec hwmon node with pwm1_enable (is cros_ec_hwmon loaded?)".to_owned(),
            FanError::DutyCannotTurnFan(d) => {
                let mut s = "duty ".to_owned();
                s.append(decimal_text(*d as u64).as_str());
                s.append("/255 cannot turn the fan: measured, duty 20 gives 0 rpm and duty ");
                s.append(decimal_text(STICTION_DUTY as u64).as_str());
                s.append(" gives 1107 rpm. Use 0 for a stopped fan, or at least ");
                s.append(decimal_text(MIN_TAKEOVER_DUTY as u64).as_str());
                s.append(" for a turning one");
                s
            },
            FanError::NotUnderManualControl(mode) => {
                let mut s = "cannot set fan duty: the fan is ".to_owned();
                s.append(mode.text().as_str());
                s.append("; take manual control first");
                s
            },
            FanError::Io(e) => e.text(),
            FanError::ModeNotApplied { requested, observed } => {
                let mut s = "asked the EC for ".to_owned();
                s.append(requested.text().as_str());
                s.append(" fan control but it reports ");
                s.append(observed.text().as_str());
                s.append("; released manual control and left the fan to firmware");
                s
            },
            FanError::DutyNotApplied { requested, observed } => {
                let mut s = "wrote fan duty ".to_owned();
                s.append(decimal_text(*requested as u64).as_str());
                s.append("/255 but the EC reports ");
                s.append(decimal_text(*observed as u64).as_str());
                s.append("/255, more than the ");
                s.append(decimal_text(DUTY_TOLERANCE as u64).as_str());
                s.append(
                    " counts of percent-quantization slack; released manual control rather than hold an unverified duty",
                );
                s
            },
            FanError::NotReleased { observed } => {
                let mut s =
                    "FAILED to return the fan to EC control \u{2014} it reports ".to_owned();
                s.append(observed.text().as_str());
                s.append(
                    ". Run fw-helper-restore-fan, or write 2 to the cros_ec hwmon's pwm1_enable by hand",
                );
                s
            },
            FanError::Ec(why) => why.clone(),
            FanError::EcNotReleased(why) => {
                let mut s = "FAILED to return the fan to EC control \u{2014} ".to_owned();
                s.append(why.as_str());
                s.append(". Run fw-helper-restore-fan");
                s
            },
        }
    }
}

/// Whether two duties are as close as percent quantization leaves them.
pub open spec fn close(a: u8, b: u8) -> bool {
    a - b <= DUTY_TOLERANCE && b - a <= DUTY_TOLERANCE
}

/// Both control files are there.
pub open spec fn supported_run(h: Seq<char>, a: Seq<Reply>, p: int) -> Run<bool> {
    match present_run(h + PWM_ENABLE@, a, p) {
        Run::Done(true, q) => present_run(h + PWM@, a, q),
        other => other,
    }
}

/// Reading who owns the fan.
pub open spec fn mode_run(h: Seq<char>, a: Seq<Reply>, p: int) -> Run<Result<FanMode, FanFault>> {
    match supported_run(h, a, p) {
        Run::Ask(op) => Run::Ask(op),
        Run::Done(false, q) => Run::Done(Err(FanFault::Unsupported), q),
        Run::Done(true, q) => match read_run(h + PWM_ENABLE@, a, q) {
            Run::Ask(op) => Run::Ask(op),
            Run::Done(t, z) => Run::Done(
                match unsigned_in(h + PWM_ENABLE@, t) {
                    Ok(n) => Ok(FanMode::of_raw(n as u64)),
                    Err(e) => Err(FanFault::Io(e)),
                },
                z,
            ),
        },
    }
}

/// Reading the duty; anything past full scale is full scale.
pub open spec fn duty_run(h: Seq<char>, a: Seq<Reply>, p: int) -> Run<Result<u8, FanFault>> {
    match supported_run(h, a, p) {
        Run::Ask(op) => Run::Ask(op),
        Run::Done(false, q) => Run::Done(Err(FanFault::Unsupported), q),
        Run::Done(true, q) => match read_run(h + PWM@, a, q) {
            Run::Ask(op) => Run::Ask(op),
            Run::Done(t, z) => Run::Done(
                match unsigned_in(h + PWM@, t) {
                    Ok(n) => Ok(
                        if n < u8::MAX {
                            n as u8
                        } else {
                            u8::MAX
                        },
                    ),
                    Err(e) => Err(FanFault::Io(e)),
                },
                z,
            ),
        },
    }
}

/// Releasing without the ability to fail: whether the EC demonstrably has the fan.
pub open spec fn best_effort_run(h: Seq<char>, a: Seq<Reply>, p: int) -> Run<bool> {
    match write_run(h + PWM_ENABLE@, decimal(PWM_AUTO as nat), a, p) {
        Run::Ask(op) => Run::Ask(op),
        Run::Done(_, q) => match mode_run(h, a, q) {
            Run::Ask(op) => Run::Ask(op),
            Run::Done(m, z) => Run::Done(m == Ok::<FanMode, FanFault>(FanMode::Auto), z),
        },
    }
}

/// What follows a result obtained while holding the fan: a failure releases it first, and a
/// failed release is the more urgent news.
pub open spec fn guarded_run(
    h: Seq<char>,
    held: Run<Result<u8, FanFault>>,
    a: Seq<Reply>,
) -> Run<Result<u8, FanFault>> {
    match held {
        Run::Done(Err(e), p) => match best_effort_run(h, a, p) {
            Run::Ask(op) => Run::Ask(op),
            Run::Done(true, q) => Run::Done(Err(e), q),
            Run::Done(false, q) => match mode_run(h, a, q) {
                Run::Ask(op) => Run::Ask(op),
                Run::Done(m, z) => Run::Done(
                    Err(
                        FanFault::NotReleased {
                            observed: match m {
                                Ok(m) => m,
                                Err(_) => FanMode::Other(0),
                            },
                        },
                    ),
                    z,
                ),
            },
        },
        other => other,
    }
}

/// Writing a duty and confirming that the EC took something close enough to it.
pub open spec fn write_duty_run(h: Seq<char>, duty: u8, a: Seq<Reply>, p: int) -> Run<
    Result<u8, FanFault>,
> {
    match write_run(h + PWM@, decimal(duty as nat), a, p) {
        Run::Ask(op) => Run::Ask(op),
        Run::Done(Err(e), q) => Run::Done(Err(FanFault::Io(e)), q),
        Run::Done(Ok(()), q) => match duty_run(h, a, q) {
            Run::Ask(op) => Run::Ask(op),
            Run::Done(Err(e), z) => Run::Done(Err(e), z),
            Run::Done(Ok(v), z) => if close(v, duty) {
                Run::Done(Ok(v), z)
            } else {
                Run::Done(Err(FanFault::DutyNotApplied { requested: duty, observed: v }), z)
            },
        },
    }
}

/// What happens once the mode switch was written: the mode is confirmed, then the duty
/// written.
pub open spec fn switched_run(h: Seq<char>, duty: u8, a: Seq<Reply>, p: int) -> Run<
    Result<u8, FanFault>,
> {
    match mode_run(h, a, p) {
        Run::Ask(op) => Run::Ask(op),
        Run::Done(Err(e), q) => Run::Done(Err(e), q),
        Run::Done(Ok(m), q) => if m is Manual {
            write_duty_run(h, duty, a, q)
        } else {
            Run::Done(
                Err(FanFault::ModeNotApplied { requested: FanMode::Manual, observed: m }),
                q,
            )
        },
    }
}

/// Taking manual control at a duty.
pub open spec fn take_run(h: Seq<char>, duty: u8, a: Seq<Reply>, p: int) -> Run<
    Result<u8, FanFault>,
> {
    if 0 < duty < MIN_TAKEOVER_DUTY {
        Run::Done(Err(FanFault::DutyCannotTurnFan(duty)), p)
    } else {
        match supported_run(h, a, p) {
            Run::Ask(op) => Run::Ask(op),
            Run::Done(false, q) => Run::Done(Err(FanFault::Unsupported), q),
            Run::Done(true, q) => match write_run(h + PWM@, decimal(duty as nat), a, q) {
                Run::Ask(op) => Run::Ask(op),
                Run::Done(_, y) => match write_run(
                    h + PWM_ENABLE@,
                    decimal(PWM_MANUAL as nat),
                    a,
                    y,
                ) {
                    Run::Ask(op) => Run::Ask(op),
                    Run::Done(Err(e), z) => Run::Done(Err(FanFault::Io(e)), z),
                    Run::Done(Ok(()), z) => guarded_run(h, switched_run(h, duty, a, z), a),
                },
            },
        }
    }
}

/// Setting the duty while under manual control.
pub open spec fn set_duty_run(h: Seq<char>, duty: u8, a: Seq<Reply>, p: int) -> Run<
    Result<u8, FanFault>,
> {
    if 0 < duty < MIN_TAKEOVER_DUTY {
        Run::Done(Err(FanFault::DutyCannotTurnFan(duty)), p)
    } else {
        match mode_run(h, a, p) {
            Run::Ask(op) => Run::Ask(op),
            Run::Done(Err(e), q) => Run::Done(Err(e), q),
            Run::Done(Ok(m), q) => if m is Manual {
                guarded_run(h, write_duty_run(h, duty, a, q), a)
            } else {
                Run::Done(Err(FanFault::NotUnderManualControl(m)), q)
            },
        }
    }
}

/// Handing the fan back and confirming that the EC took it.
pub open spec fn release_run(h: Seq<char>, a: Seq<Reply>, p: int) -> Run<Result<(), FanFault>> {
    match supported_run(h, a, p) {
        Run::Ask(op) => Run::Ask(op),
        Run::Done(false, q) => Run::Done(Err(FanFault::Unsupported), q),
        Run::Done(true, q) => match write_run(h + PWM_ENABLE@, decimal(PWM_AUTO as nat), a, q) {
            Run::Ask(op) => Run::Ask(op),
            Run::Done(Err(e), z) => Run::Done(Err(FanFault::Io(e)), z),
            Run::Done(Ok(()), z) => match mode_run(h, a, z) {
                Run::Ask(op) => Run::Ask(op),
                Run::Done(Err(e), n) => Run::Done(Err(e), n),
                Run::Done(Ok(m), n) => if m is Auto {
                    Run::Done(Ok(()), n)
                } else {
                    Run::Done(Err(FanFault::NotReleased { observed: m }), n)
                },
            },
        },
    }
}

/// A result with its error taken by what it says.
pub open spec fn said<T>(r: Result<T, FanError>) -> Result<T, FanFault> {
    match r {
        Ok(v) => Ok(v),
        Err(e) => Err(e@),
    }
}

/// Whether a step of work is the one its run prescribes.
pub open spec fn is_step<T>(s: Step<Result<T, FanError>>, run: Run<Result<T, FanFault>>) -> bool {
    match run {
        Run::Ask(op) => s matches Step::Ask(o) && o@ == op,
        Run::Done(v, _) => s matches Step::Done(r) && said(r) == v,
    }
}

/// Drives `pwm1` and `pwm1_enable` on a resolved hwmon node.
///
/// Holds no state of its own: every question is answered by asking the hardware. That
/// matters for the recovery paths, which must work when in-process state is exactly what
/// cannot be trusted.
#[derive(Debug, Clone, PartialEq, Eq)]
pub struct FanControl {
    hwmon: String,
}

impl FanControl {
    /// The node's path.
    pub closed spec fn view(&self) -> Seq<char> {
        self.hwmon@
    }

    pub fn new(hwmon: &str) -> (r: Self)
        ensures
            r@ == hwmon@,
    {
        Self { hwmon: hwmon.to_owned() }
    }

    fn enable_path(&self) -> (r: String)
        ensures
            r@ == self@ + PWM_ENABLE@,
    {
        let mut s = self.hwmon.clone();
        s.append(PWM_ENABLE);
        s
    }

    fn duty_path(&self) -> (r: String)
        ensures
            r@ == self@ + PWM@,
    {
        let mut s = self.hwmon.clone();
        s.append(PWM);
        s
    }

    pub(crate) fn supported(&self, rp: &mut Replay) -> (r: Result<bool, FileOp>)
        requires
            old(rp).wf(),
        ensures
            final(rp).wf(),
            final(rp).given() == old(rp).given(),
            match supported_run(self@, old(rp).given(), old(rp).taken()) {
                Run::Done(x, p) => r == Ok::<bool, FileOp>(x) && final(rp).taken() == p,
                Run::Ask(op) => r matches Err(o) && o@ == op,
            },
    {
        match rp.present(self.enable_path().as_str()) {
            Ok(true) => rp.present(self.duty_path().as_str()),
            other => other,
        }
    }

    pub(crate) fn read_mode(&self, rp: &mut Replay) -> (r: Result<Result<FanMode, FanError>, FileOp>)
        requires
            old(rp).wf(),
        ensures
            final(rp).wf(),
            final(rp).given() == old(rp).given(),
            match mode_run(self@, old(rp).given(), old(rp).taken()) {
                Run::Done(x, p) => r matches Ok(v) && said(v) == x && final(rp).taken() == p,
                Run::Ask(op) => r matches Err(o) && o@ == op,
            },
    {
        match self.supported(rp) {
            Err(op) => Err(op),
            Ok(false) => Ok(Err(FanError::Unsupported)),
            Ok(true) => {
                let path = self.enable_path();
                match rp.read(path.as_str()) {
                    Err(op) => Err(op),
                    Ok(text) => match Sysfs::default().read_u64(path.as_str(), text) {
                        Ok(v) => Ok(Ok(FanMode::from_raw(v))),
                        Err(e) => Ok(Err(FanError::Io(e))),
                    },
                }
            },
        }
    }

    pub(crate) fn read_duty(&self, rp: &mut Replay) -> (r: Result<Result<u8, FanError>, FileOp>)
        requires
            old(rp).wf(),
        ensures
            final(rp).wf(),
            final(rp).given() == old(rp).given(),
            match duty_run(self@, old(rp).given(), old(rp).taken()) {
                Run::Done(x, p) => r matches Ok(v) && said(v) == x && final(rp).taken() == p,
                Run::Ask(op) => r matches Err(o) && o@ == op,
            },
    {
        match self.supported(rp) {
            Err(op) => Err(op),
            Ok(false) => Ok(Err(FanError::Unsupported)),
            Ok(true) => {
                let path = self.duty_path();
                match rp.read(path.as_str()) {
                    Err(op) => Err(op),
                    Ok(text) => match Sysfs::default().read_u64(path.as_str(), text) {
                        Ok(v) => Ok(
                            Ok(
                                if v < u8::MAX as u64 {
                                    v as u8
                                } else {
                                    u8::MAX
                                },
                            ),
                        ),
                        Err(e) => Ok(Err(FanError::Io(e))),
                    },
                }
            },
        }
    }

    pub(crate) fn try_release(&self, rp: &mut Replay) -> (r: Result<bool, FileOp>)
        requires
            old(rp).wf(),
        ensures
            final(rp).wf(),
            final(rp).given() == old(rp).given(),
            match best_effort_run(self@, old(rp).given(), old(rp).taken()) {
                Run::Done(x, p) => r == Ok::<bool, FileOp>(x) && final(rp).taken() == p,
                Run::Ask(op) => r matches Err(o) && o@ == op,
            },
    {
        match rp.write(self.enable_path().as_str(), decimal_text(PWM_AUTO).as_str()) {
            Err(op) => Err(op),
            Ok(_) => match self.read_mode(rp) {
                Err(op) => Err(op),
                Ok(Ok(FanMode::Auto)) => Ok(true),
                Ok(_) => Ok(false),
            },
        }
    }

    /// Passes a success on; releases manual control before passing a failure on.
    fn guarded(&self, held: Result<u8, FanError>, rp: &mut Replay) -> (r: Result<
        Result<u8, FanError>,
        FileOp,
    >)
        requires
            old(rp).wf(),
        ensures
            final(rp).wf(),
            final(rp).given() == old(rp).given(),
            match guarded_run(self@, Run::Done(said(held), old(rp).taken()), old(rp).given()) {
                Run::Done(x, p) => r matches Ok(v) && said(v) == x && final(rp).taken() == p,
                Run::Ask(op) => r matches Err(o) && o@ == op,
            },
    {
        match held {
            Ok(v) => Ok(Ok(v)),
            Err(e) => match self.try_release(rp) {
                Err(op) => Err(op),
                Ok(true) => Ok(Err(e)),
                Ok(false) => match self.read_mode(rp) {
                    Err(op) => Err(op),
                    Ok(Ok(observed)) => Ok(Err(FanError::NotReleased { observed })),
                    Ok(Err(_)) => Ok(Err(FanError::NotReleased { observed: FanMode::Other(0) })),
                },
            },
        }
    }

    /// Writes a duty and gives back the one the EC reports, which is the honest answer to
    /// what the fan is doing.
    fn write_duty_verified(&self, duty: u8, rp: &mut Replay) -> (r: Result<
        Result<u8, FanError>,
        FileOp,
    >)
        requires
            old(rp).wf(),
        ensures
            final(rp).wf(),
            final(rp).given() == old(rp).given(),
            match write_duty_run(self@, duty, old(rp).given(), old(rp).taken()) {
                Run::Done(x, p) => r matches Ok(v) && said(v) == x && final(rp).taken() == p,
                Run::Ask(op) => r matches Err(o) && o@ == op,
            },
    {
        match rp.write(self.duty_path().as_str(), decimal_text(duty as u64).as_str()) {
            Err(op) => Err(op),
            Ok(Err(e)) => Ok(Err(FanError::Io(e))),
            Ok(Ok(())) => match self.read_duty(rp) {
                Err(op) => Err(op),
                Ok(Err(e)) => Ok(Err(e)),
                Ok(Ok(observed)) => {
                    let off: u8 = if observed > duty {
                        observed - duty
                    } else {
                        duty - observed
                    };
                    if off > DUTY_TOLERANCE {
                        Ok(Err(FanError::DutyNotApplied { requested: duty, observed }))
                    } else {
                        Ok(Ok(observed))
                    }
                },
            },
        }
    }

    fn after_switch(&self, duty: u8, rp: &mut Replay) -> (r: Result<Result<u8, FanError>, FileOp>)
        requires
            old(rp).wf(),
        ensures
            final(rp).wf(),
            final(rp).given() == old(rp).given(),
            match switched_run(self@, duty, old(rp).given(), old(rp).taken()) {
                Run::Done(x, p) => r matches Ok(v) && said(v) == x && final(rp).taken() == p,
                Run::Ask(op) => r matches Err(o) && o@ == op,
            },
    {
        match self.read_mode(rp) {
            Err(op) => Err(op),
            Ok(Err(e)) => Ok(Err(e)),
            Ok(Ok(observed)) => if observed.is_manual() {
                self.write_duty_verified(duty, rp)
            } else {
                Ok(Err(FanError::ModeNotApplied { requested: FanMode::Manual, observed }))
            },
        }
    }

    /// Whether the node has the control files.
    pub fn is_supported(&self, answers: &[Answer]) -> (r: Step<bool>)
        ensures
            match supported_run(self@, replies(answers@), 0) {
                Run::Ask(op) => r matches Step::Ask(o) && o@ == op,
                Run::Done(b, _) => r == Step::Done(b),
            },
    {
        let mut rp = Replay::new(answers);
        match self.supported(&mut rp) {
            Err(op) => Step::Ask(op),
            Ok(b) => Step::Done(b),
        }
    }

    /// Take the EC's node, found by name, if it can drive the fan.
    pub fn probe(hwmon: Option<&str>, answers: &[Answer]) -> (r: Step<Result<Self, FanError>>)
        ensures
            match hwmon {
                None => r matches Step::Done(Err(e)) && e@ is Unsupported,
                Some(h) => match supported_run(h@, replies(answers@), 0) {
                    Run::Ask(op) => r matches Step::Ask(o) && o@ == op,
                    Run::Done(true, _) => r matches Step::Done(Ok(c)) && c@ == h@,
                    Run::Done(false, _) => r matches Step::Done(Err(e)) && e@ is Unsupported,
                },
            },
    {
        match hwmon {
            None => Step::Done(Err(FanError::Unsupported)),
            Some(h) => {
                let c = Self::new(h);
                match c.is_supported(answers) {
                    Step::Ask(op) => Step::Ask(op),
                    Step::Done(true) => Step::Done(Ok(c)),
                    Step::Done(false) => Step::Done(Err(FanError::Unsupported)),
                }
            },
        }
    }

    /// Who owns the fan.
    pub fn mode(&self, answers: &[Answer]) -> (r: Step<Result<FanMode, FanError>>)
        ensures
            is_step(r, mode_run(self@, replies(answers@), 0)),
    {
        let mut rp = Replay::new(answers);
        match self.read_mode(&mut rp) {
            Err(op) => Step::Ask(op),
            Ok(m) => Step::Done(m),
        }
    }

    /// The duty the EC reports.
    pub fn duty(&self, answers: &[Answer]) -> (r: Step<Result<u8, FanError>>)
        ensures
            is_step(r, duty_run(self@, replies(answers@), 0)),
    {
        let mut rp = Replay::new(answers);
        match self.read_duty(&mut rp) {
            Err(op) => Step::Ask(op),
            Ok(d) => Step::Done(d),
        }
    }

    /// Actual measured speed, or `None` if unreadable.
    pub fn rpm(&self, answers: &[Answer]) -> (r: Step<Option<u64>>)
        ensures
            match read_run(self@ + FAN_INPUT@, replies(answers@), 0) {
                Run::Ask(op) => r matches Step::Ask(o) && o@ == op,
                Run::Done(t, _) => r matches Step::Done(v) && match unsigned_in(
                    self@ + FAN_INPUT@,
                    t,
                ) {
                    Ok(n) => v matches Some(x) && x == n,
                    Err(_) => v is None,
                },
            },
    {
        let mut path = self.hwmon.clone();
        path.append(FAN_INPUT);
        let mut rp = Replay::new(answers);
        match rp.read(path.as_str()) {
            Err(op) => Step::Ask(op),
            Ok(text) => match Sysfs::default().read_u64(path.as_str(), text) {
                Ok(v) => Step::Done(Some(v)),
                Err(_) => Step::Done(None),
            },
        }
    }

    pub(crate) fn take_with(&self, duty: u8, rp: &mut Replay) -> (r: Result<
        Result<u8, FanError>,
        FileOp,
    >)
        requires
            old(rp).wf(),
        ensures
            final(rp).wf(),
            final(rp).given() == old(rp).given(),
            match take_run(self@, duty, old(rp).given(), old(rp).taken()) {
                Run::Done(x, p) => r matches Ok(v) && said(v) == x && final(rp).taken() == p,
                Run::Ask(op) => r matches Err(o) && o@ == op,
            },
    {
        // Range before support, so that a bad duty reports as one even on a machine that
        // has no fan control at all.
        if duty > 0 && duty < MIN_TAKEOVER_DUTY {
            return Ok(Err(FanError::DutyCannotTurnFan(duty)));
        }
        match self.supported(rp) {
            Err(op) => {
                return Err(op);
            },
            Ok(false) => {
                return Ok(Err(FanError::Unsupported));
            },
            Ok(true) => {},
        }
        if let Err(op) = rp.write(self.duty_path().as_str(), decimal_text(duty as u64).as_str()) {
            return Err(op);
        }
        match rp.write(self.enable_path().as_str(), decimal_text(PWM_MANUAL).as_str()) {
            Err(op) => {
                return Err(op);
            },
            Ok(Err(e)) => {
                return Ok(Err(FanError::Io(e)));
            },
            Ok(Ok(())) => {},
        }
        // From here on the fan is held, so every way out releases it or has its duty.
        match self.after_switch(duty, rp) {
            Err(op) => Err(op),
            Ok(held) => self.guarded(held, rp),
        }
    }

    pub(crate) fn set_with(&self, duty: u8, rp: &mut Replay) -> (r: Result<
        Result<u8, FanError>,
        FileOp,
    >)
        requires
            old(rp).wf(),
        ensures
            final(rp).wf(),
            final(rp).given() == old(rp).given(),
            match set_duty_run(self@, duty, old(rp).given(), old(rp).taken()) {
                Run::Done(x, p) => r matches Ok(v) && said(v) == x && final(rp).taken() == p,
                Run::Ask(op) => r matches Err(o) && o@ == op,
            },
    {
        if duty > 0 && duty < MIN_TAKEOVER_DUTY {
            return Ok(Err(FanError::DutyCannotTurnFan(duty)));
        }
        match self.read_mode(rp) {
            Err(op) => {
                return Err(op);
            },
            Ok(Err(e)) => {
                return Ok(Err(e));
            },
            Ok(Ok(mode)) => {
                if !mode.is_manual() {
                    return Ok(Err(FanError::NotUnderManualControl(mode)));
                }
            },
        }
        match self.write_duty_verified(duty, rp) {
            Err(op) => Err(op),
            Ok(held) => self.guarded(held, rp),
        }
    }

    pub(crate) fn release_with(&self, rp: &mut Replay) -> (r: Result<
        Result<(), FanError>,
        FileOp,
    >)
        requires
            old(rp).wf(),
        ensures
            final(rp).wf(),
            final(rp).given() == old(rp).given(),
            match release_run(self@, old(rp).given(), old(rp).taken()) {
                Run::Done(x, p) => r matches Ok(v) && said(v) == x && final(rp).taken() == p,
                Run::Ask(op) => r matches Err(o) && o@ == op,
            },
    {
        match self.supported(rp) {
            Err(op) => {
                return Err(op);
            },
            Ok(false) => {
                return Ok(Err(FanError::Unsupported));
            },
            Ok(true) => {},
        }
        match rp.write(self.enable_path().as_str(), decimal_text(PWM_AUTO).as_str()) {
            Err(op) => Err(op),
            Ok(Err(e)) => Ok(Err(FanError::Io(e))),
            Ok(Ok(())) => match self.read_mode(rp) {
                Err(op) => Err(op),
                Ok(Err(e)) => Ok(Err(e)),
                Ok(Ok(FanMode::Auto)) => Ok(Ok(())),
                Ok(Ok(observed)) => Ok(Err(FanError::NotReleased { observed })),
            },
        }
    }

    /// Take manual control, establishing `duty` in the same operation.
    ///
    /// There is deliberately no way to take control without naming a duty: the dangerous
    /// state is manual control at an unknown one. On any failure after the mode switch,
    /// control is released first. The result is the duty the EC settled on.
    pub fn take_manual(&self, duty: u8, answers: &[Answer]) -> (r: Step<Result<u8, FanError>>)
        ensures
            is_step(r, take_run(self@, duty, replies(answers@), 0)),
    {
        let mut rp = Replay::new(answers);
        match self.take_with(duty, &mut rp) {
            Err(op) => Step::Ask(op),
            Ok(v) => Step::Done(v),
        }
    }

    /// Set the duty while under manual control. Refuses if the EC owns the fan, and a duty
    /// that may not start it before anything is touched. The result is the duty the EC
    /// settled on.
    pub fn set_duty(&self, duty: u8, answers: &[Answer]) -> (r: Step<Result<u8, FanError>>)
        ensures
            is_step(r, set_duty_run(self@, duty, replies(answers@), 0)),
    {
        let mut rp = Replay::new(answers);
        match self.set_with(duty, &mut rp) {
            Err(op) => Step::Ask(op),
            Ok(v) => Step::Done(v),
        }
    }

    /// Hand the fan back to the EC, and confirm that it took it. Calling it when the EC
    /// already has the fan is a successful no-op, which makes it safe on every way out.
    pub fn release(&self, answers: &[Answer]) -> (r: Step<Result<(), FanError>>)
        ensures
            is_step(r, release_run(self@, replies(answers@), 0)),
    {
        let mut rp = Replay::new(answers);
        match self.release_with(&mut rp) {
            Err(op) => Step::Ask(op),
            Ok(v) => Step::Done(v),
        }
    }

    /// Release without the ability to fail, for where there is no caller left to hand an
    /// error to. Whether the fan is now demonstrably in EC control.
    pub fn release_best_effort(&self, answers: &[Answer]) -> (r: Step<bool>)
        ensures
            match best_effort_run(self@, replies(answers@), 0) {
                Run::Ask(op) => r matches Step::Ask(o) && o@ == op,
                Run::Done(b, _) => r == Step::Done(b),
            },
    {
        let mut rp = Replay::new(answers);
        match self.try_release(&mut rp) {
            Err(op) => Step::Ask(op),
            Ok(b) => Step::Done(b),
        }
    }
}

/// Whether these answers took a takeover past its mode switch: both files there, and the
/// switch accepted.
pub open spec fn switched(a: Seq<Reply>) -> bool {
    a.len() >= 4 && a[0] is Ok && a[1] is Ok && a[3] is Ok
}

/// Whether the run ended with the fan handed back and the EC confirming that it has it.
pub open spec fn ended_released(h: Seq<char>, a: Seq<Reply>, n: int) -> bool {
    exists|q: int| #[trigger] best_effort_run(h, a, q) == Run::Done(true, n)
}

/// Whether the run tried to hand the fan back and the EC did not confirm it.
pub open spec fn release_failed(h: Seq<char>, a: Seq<Reply>) -> bool {
    exists|q: int| (#[trigger] best_effort_run(h, a, q)) matches Run::Done(false, _)
}

proof fn lemma_guarded(
    h: Seq<char>,
    held: Run<Result<u8, FanFault>>,
    a: Seq<Reply>,
    e: FanFault,
    n: int,
)
    requires
        guarded_run(h, held, a) == Run::Done(Err::<u8, FanFault>(e), n),
    ensures
        ended_released(h, a, n) || (e is NotReleased && release_failed(h, a)),
{
    match held {
        Run::Done(Err(_), p) => {
            let b = best_effort_run(h, a, p);
            assert(b is Done);
        },
        _ => {},
    }
}

/// A takeover that fails once the mode was switched has given the fan back, or says that it
/// could not.
pub proof fn a_failed_takeover_releases_the_fan(
    h: Seq<char>,
    duty: u8,
    a: Seq<Reply>,
    e: FanFault,
    n: int,
)
    requires
        take_run(h, duty, a, 0) == Run::Done(Err::<u8, FanFault>(e), n),
        n > 0,
        switched(a),
    ensures
        ended_released(h, a, n) || (e is NotReleased && release_failed(h, a)),
{
    lemma_guarded(h, switched_run(h, duty, a, 4), a, e, n);
}

/// A takeover that succeeds switched the mode, saw the EC report it, and saw a duty within
/// the tolerance of the one asked for.
pub proof fn a_takeover_is_confirmed(h: Seq<char>, duty: u8, a: Seq<Reply>, v: u8, n: int)
    requires
        take_run(h, duty, a, 0) == Run::Done(Ok::<u8, FanFault>(v), n),
    ensures
        duty == 0 || duty >= MIN_TAKEOVER_DUTY,
        close(v, duty),
        switched(a),
        mode_run(h, a, 4) matches Run::Done(Ok(FanMode::Manual), _),
{
}

/// A duty that may not start the fan is refused before any file is touched, whoever has the
/// fan.
pub proof fn a_refused_duty_touches_nothing(h: Seq<char>, duty: u8, a: Seq<Reply>)
    requires
        0 < duty < MIN_TAKEOVER_DUTY,
    ensures
        set_duty_run(h, duty, a, 0) == Run::Done(
            Err::<u8, FanFault>(FanFault::DutyCannotTurnFan(duty)),
            0,
        ),
        take_run(h, duty, a, 0) == Run::Done(
            Err::<u8, FanFault>(FanFault::DutyCannotTurnFan(duty)),
            0,
        ),
{
}

/// A duty is written only where the EC has just reported manual control; a failure after
/// that has given the fan back, or says that it could not.
pub proof fn a_duty_is_set_only_under_manual_control(h: Seq<char>, duty: u8, a: Seq<Reply>)
    ensures
        set_duty_run(h, duty, a, 0) matches Run::Ask(Op::Write(_, _)) ==> mode_run(
            h,
            a,
            0,
        ) matches Run::Done(Ok(FanMode::Manual), _),
        forall|e: FanFault, n: int|
            (#[trigger] set_duty_run(h, duty, a, 0)) == Run::Done(Err::<u8, FanFault>(e), n) && (
            duty == 0 || duty >= MIN_TAKEOVER_DUTY) && (mode_run(h, a, 0) matches Run::Done(
                Ok(FanMode::Manual),
                _,
            )) ==> ended_released(
                h,
                a,
                n,
            ) || (e is NotReleased && release_failed(h, a)),
        forall|v: u8, n: int|
            (#[trigger] set_duty_run(h, duty, a, 0)) == Run::Done(Ok::<u8, FanFault>(v), n)
                ==> close(v, duty),
{
    if 0 < duty < MIN_TAKEOVER_DUTY {
    } else if let Run::Done(Ok(FanMode::Manual), q) = mode_run(h, a, 0) {
        if let Run::Done(Err(e), n) = set_duty_run(h, duty, a, 0) {
            lemma_guarded(h, write_duty_run(h, duty, a, q), a, e, n);
        }
    }
}

/// Where either operation asks for the duty to be written, it is the one it was given, and
/// that stops the fan or starts it.
pub proof fn only_an_honest_duty_is_written(
    h: Seq<char>,
    duty: u8,
    a: Seq<Reply>,
    p: int,
    t: Seq<char>,
)
    ensures
        take_run(h, duty, a, p) == Run::<Result<u8, FanFault>>::Ask(Op::Write(h + PWM@, t)) ==> t
            == decimal(duty as nat) && (duty == 0 || duty >= MIN_TAKEOVER_DUTY),
        set_duty_run(h, duty, a, p) == Run::<Result<u8, FanFault>>::Ask(Op::Write(h + PWM@, t))
            ==> t == decimal(duty as nat) && (duty == 0 || duty >= MIN_TAKEOVER_DUTY),
{
    lemma_files_differ(h);
}

/// The duty's file is not the mode's.
pub(crate) proof fn lemma_files_differ(h: Seq<char>)
    ensures
        h + PWM@ != h + PWM_ENABLE@,
{
    reveal_strlit("/pwm1");
    reveal_strlit("/pwm1_enable");
    assert((h + PWM@).len() != (h + PWM_ENABLE@).len());
}

/// Releasing succeeds exactly where the EC reports afterwards that it has the fan.
pub proof fn a_release_is_confirmed(h: Seq<char>, a: Seq<Reply>, n: int)
    ensures
        release_run(h, a, 0) == Run::Done(Ok::<(), FanFault>(()), n) ==> mode_run(h, a, 3)
            == Run::Done(Ok::<FanMode, FanFault>(FanMode::Auto), n),
        a.len() >= 3 && a[0] is Ok && a[1] is Ok && a[2] is Ok && mode_run(h, a, 3) == Run::Done(
            Ok::<FanMode, FanFault>(FanMode::Auto),
            n,
        ) ==> release_run(h, a, 0) == Run::Done(Ok::<(), FanFault>(()), n),
{
}

/// What the mode's file says: one is manual, two is the EC's own, anything else is neither.
pub proof fn only_one_is_manual_and_only_two_is_the_ecs(v: u64)
    ensures
        FanMode::of_raw(v) == FanMode::Manual <==> v == 1,
        FanMode::of_raw(v) == FanMode::Auto <==> v == 2,
        FanMode::of_raw(v) matches FanMode::Other(x) ==> x == v,
{
}

/// A duty reads as its file has it, and past full scale as full scale.
pub proof fn a_duty_reads_as_its_file_has_it(h: Seq<char>, a: Seq<Reply>, p: int, n: nat)
    requires
        0 <= p,
        p + 3 <= a.len(),
        a[p] is Ok,
        a[p + 1] is Ok,
        a[p + 2] == Ok::<Seq<char>, IoFault>(decimal(n)),
        n <= u64::MAX,
    ensures
        n <= 255 ==> duty_run(h, a, p) == Run::Done(Ok::<u8, FanFault>(n as u8), p + 3),
        n > 255 ==> duty_run(h, a, p) == Run::Done(Ok::<u8, FanFault>(255), p + 3),
{
    a_number_in_a_file_reads_as_itself(h + PWM@, n);
}

/// The mode reads as its file has it.
pub proof fn a_mode_reads_as_its_file_has_it(h: Seq<char>, a: Seq<Reply>, p: int, n: nat)
    requires
        0 <= p,
        p + 3 <= a.len(),
        a[p] is Ok,
        a[p + 1] is Ok,
        a[p + 2] == Ok::<Seq<char>, IoFault>(decimal(n)),
        n <= u64::MAX,
    ensures
        mode_run(h, a, p) == Run::Done(
            Ok::<FanMode, FanFault>(
                if n == 1 {
                    FanMode::Manual
                } else if n == 2 {
                    FanMode::Auto
                } else {
                    FanMode::Other(n as u64)
                },
            ),
            p + 3,
        ),
{
    a_number_in_a_file_reads_as_itself(h + PWM_ENABLE@, n);
}

/// Two duties count as the same up to a difference of three counts either way.
pub proof fn duties_are_close_within_the_tolerance(a: u8, b: u8)
    ensures
        close(a, b) <==> -3 <= a - b <= 3,
{
}

/// A takeover writes the duty, then the mode, and once the EC reports manual control the duty
/// again. It succeeds with what the EC then reports, where that is within the tolerance, and
/// otherwise hands the fan back.
pub proof fn a_takeover_writes_duty_mode_and_duty(h: Seq<char>, duty: u8, a: Seq<Reply>, n: nat)
    requires
        duty == 0 || duty >= 33,
        a.len() >= 2,
        a[0] is Ok && a[1] is Ok,
        n <= u64::MAX,
    ensures
        a.len() == 2 ==> take_run(h, duty, a, 0) == Run::<Result<u8, FanFault>>::Ask(
            Op::Write(h + "/pwm1"@, decimal(duty as nat)),
        ),
        a.len() == 3 ==> take_run(h, duty, a, 0) == Run::<Result<u8, FanFault>>::Ask(
            Op::Write(h + "/pwm1_enable"@, decimal(1)),
        ),
        a.len() >= 7 && a[3] is Ok && a[4] is Ok && a[5] is Ok && a[6] == Ok::<Seq<char>, IoFault>(
            decimal(1),
        ) ==> {
            &&& a.len() == 7 ==> take_run(h, duty, a, 0) == Run::<Result<u8, FanFault>>::Ask(
                Op::Write(h + "/pwm1"@, decimal(duty as nat)),
            )
            &&& a.len() == 11 && a[7] is Ok && a[8] is Ok && a[9] is Ok && a[10] == Ok::<
                Seq<char>,
                IoFault,
            >(decimal(n)) ==> take_run(h, duty, a, 0) == (if -3 <= n - duty <= 3
                && n <= 255 {
                Run::Done(Ok::<u8, FanFault>(n as u8), 11)
            } else if n > 255 && duty >= 252 {
                Run::Done(Ok::<u8, FanFault>(255), 11)
            } else {
                Run::Ask(Op::Write(h + "/pwm1_enable"@, decimal(2)))
            })
        },
{
    if a.len() >= 7 && a[3] is Ok && a[4] is Ok && a[5] is Ok && a[6] == Ok::<Seq<char>, IoFault>(
        decimal(1),
    ) {
        a_mode_reads_as_its_file_has_it(h, a, 4, 1);
        if a.len() == 11 && a[8] is Ok && a[9] is Ok && a[10] == Ok::<Seq<char>, IoFault>(decimal(n)) {
            a_duty_reads_as_its_file_has_it(h, a, 8, n);
        }
    }
}

/// A duty is set by writing it where the EC reports manual control, and nothing is written where
/// it reports anything else. It succeeds with what the EC then reports, where that is within the
/// tolerance, and otherwise hands the fan back.
pub proof fn setting_a_duty_writes_it_once(h: Seq<char>, duty: u8, a: Seq<Reply>, m: nat, n: nat)
    requires
        duty == 0 || duty >= 33,
        a.len() >= 3,
        a[0] is Ok && a[1] is Ok,
        a[2] == Ok::<Seq<char>, IoFault>(decimal(m)),
        m <= u64::MAX,
        n <= u64::MAX,
    ensures
        m != 1 ==> set_duty_run(h, duty, a, 0) == Run::Done(
            Err::<u8, FanFault>(
                FanFault::NotUnderManualControl(
                    if m == 2 {
                        FanMode::Auto
                    } else {
                        FanMode::Other(m as u64)
                    },
                ),
            ),
            3,
        ),
        m == 1 && a.len() == 3 ==> set_duty_run(h, duty, a, 0) == Run::<Result<u8, FanFault>>::Ask(
            Op::Write(h + "/pwm1"@, decimal(duty as nat)),
        ),
        m == 1 && a.len() == 7 && a[3] is Ok && a[4] is Ok && a[5] is Ok && a[6] == Ok::<
            Seq<char>,
            IoFault,
        >(decimal(n)) ==> set_duty_run(h, duty, a, 0) == (if -3 <= n - duty <= 3
            && n <= 255 {
            Run::Done(Ok::<u8, FanFault>(n as u8), 7)
        } else if n > 255 && duty >= 252 {
            Run::Done(Ok::<u8, FanFault>(255), 7)
        } else {
            Run::Ask(Op::Write(h + "/pwm1_enable"@, decimal(2)))
        }),
{
    a_mode_reads_as_its_file_has_it(h, a, 0, m);
    if a.len() == 7 && a[4] is Ok && a[5] is Ok && a[6] == Ok::<Seq<char>, IoFault>(decimal(n)) {
        a_duty_reads_as_its_file_has_it(h, a, 4, n);
    }
}

/// Handing the fan back writes a two to the mode's file, and counts as done exactly where the
/// file then holds a two.
pub proof fn handing_back_writes_the_ecs_mode(h: Seq<char>, a: Seq<Reply>, m: nat)
    requires
        m <= u64::MAX,
    ensures
        a.len() == 0 ==> best_effort_run(h, a, 0) == Run::<bool>::Ask(
            Op::Write(h + "/pwm1_enable"@, decimal(2)),
        ),
        a.len() == 4 && a[1] is Ok && a[2] is Ok && a[3] == Ok::<Seq<char>, IoFault>(decimal(m))
            ==> best_effort_run(h, a, 0) == Run::Done(m == 2, 4),
        a.len() == 2 && a[0] is Ok && a[1] is Ok ==> release_run(h, a, 0) == Run::<
            Result<(), FanFault>,
        >::Ask(Op::Write(h + "/pwm1_enable"@, decimal(2))),
        a.len() == 6 && a[0] is Ok && a[1] is Ok && a[2] is Ok && a[3] is Ok && a[4] is Ok && a[5]
            == Ok::<Seq<char>, IoFault>(decimal(m)) ==> release_run(h, a, 0) == Run::Done(
            if m == 2 {
                Ok::<(), FanFault>(())
            } else if m == 1 {
                Err(FanFault::NotReleased { observed: FanMode::Manual })
            } else {
                Err(FanFault::NotReleased { observed: FanMode::Other(m as u64) })
            },
            6,
        ),
{
    if a.len() == 4 && a[1] is Ok && a[2] is Ok && a[3] == Ok::<Seq<char>, IoFault>(decimal(m)) {
        a_mode_reads_as_its_file_has_it(h, a, 1, m);
    }
    if a.len() == 6 && a[3] is Ok && a[4] is Ok && a[5] == Ok::<Seq<char>, IoFault>(decimal(m)) {
        a_mode_reads_as_its_file_has_it(h, a, 3, m);
    }
}

/// A duty that the EC refuses while the fan is ours, and a mode that it does not report after the
/// switch, hand the fan back. A switch that is refused took nothing, so there is nothing to hand
/// back.
pub proof fn what_fails_after_the_switch_hands_the_fan_back(
    h: Seq<char>,
    duty: u8,
    a: Seq<Reply>,
    m: nat,
)
    requires
        duty == 0 || duty >= 33,
        m <= u64::MAX,
    ensures
        a.len() == 4 && a[0] is Ok && a[1] is Ok && a[2] == Ok::<Seq<char>, IoFault>(decimal(1))
            && a[3] is Err ==> set_duty_run(h, duty, a, 0) == Run::<Result<u8, FanFault>>::Ask(
            Op::Write(h + "/pwm1_enable"@, decimal(2)),
        ),
        a.len() == 8 && a[0] is Ok && a[1] is Ok && a[3] is Ok && a[4] is Ok && a[5] is Ok && a[6]
            == Ok::<Seq<char>, IoFault>(decimal(1)) && a[7] is Err ==> take_run(h, duty, a, 0)
            == Run::<Result<u8, FanFault>>::Ask(Op::Write(h + "/pwm1_enable"@, decimal(2))),
        a.len() == 7 && a[0] is Ok && a[1] is Ok && a[3] is Ok && a[4] is Ok && a[5] is Ok && a[6]
            == Ok::<Seq<char>, IoFault>(decimal(m)) && m != 1 ==> take_run(h, duty, a, 0) == Run::<
            Result<u8, FanFault>,
        >::Ask(Op::Write(h + "/pwm1_enable"@, decimal(2))),
        a.len() >= 4 && a[0] is Ok && a[1] is Ok && a[3] is Err ==> take_run(h, duty, a, 0)
            == Run::Done(Err::<u8, FanFault>(FanFault::Io(a[3]->Err_0)), 4),
        a.len() >= 1 && a[0] is Err ==> take_run(h, duty, a, 0) == Run::Done(
            Err::<u8, FanFault>(FanFault::Unsupported),
            1,
        ) && set_duty_run(h, duty, a, 0) == Run::Done(Err::<u8, FanFault>(FanFault::Unsupported), 1),
{
    if a.len() == 4 && a[0] is Ok && a[1] is Ok && a[2] == Ok::<Seq<char>, IoFault>(decimal(1)) {
        a_mode_reads_as_its_file_has_it(h, a, 0, 1);
    }
    if a.len() >= 7 && a[4] is Ok && a[5] is Ok && a[6] == Ok::<Seq<char>, IoFault>(decimal(1)) {
        a_mode_reads_as_its_file_has_it(h, a, 4, 1);
    }
    if a.len() >= 7 && a[4] is Ok && a[5] is Ok && a[6] == Ok::<Seq<char>, IoFault>(decimal(m)) {
        a_mode_reads_as_its_file_has_it(h, a, 4, m);
    }
}

/// No operation asks for files without end.
pub proof fn fan_work_always_ends(h: Seq<char>, duty: u8, a: Seq<Reply>)
    requires
        a.len() >= 18,
    ensures
        take_run(h, duty, a, 0) is Done,
        set_duty_run(h, duty, a, 0) is Done,
        release_run(h, a, 0) is Done,
        best_effort_run(h, a, 0) is Done,
{
}

/// Both control files have to be there, the mode is read from the one and the duty from the
/// other.
pub proof fn the_fan_is_read_from_its_two_files(h: Seq<char>, a: Seq<Reply>)
    ensures
        a.len() == 0 ==> supported_run(h, a, 0) == Run::<bool>::Ask(
            Op::Exists(h + "/pwm1_enable"@),
        ),
        a.len() == 1 && a[0] is Ok ==> supported_run(h, a, 0) == Run::<bool>::Ask(
            Op::Exists(h + "/pwm1"@),
        ),
        a.len() >= 1 && a[0] is Err ==> supported_run(h, a, 0) == Run::Done(false, 1),
        a.len() >= 2 && a[0] is Ok ==> supported_run(h, a, 0) == Run::Done(a[1] is Ok, 2),
        a.len() == 2 && a[0] is Ok && a[1] is Ok ==> mode_run(h, a, 0) == Run::<
            Result<FanMode, FanFault>,
        >::Ask(Op::Read(h + "/pwm1_enable"@)) && duty_run(h, a, 0) == Run::<
            Result<u8, FanFault>,
        >::Ask(Op::Read(h + "/pwm1"@)),
        a.len() >= 3 && a[0] is Ok && a[1] is Ok && a[2] is Err ==> mode_run(h, a, 0) == Run::Done(
            Err::<FanMode, FanFault>(FanFault::Io(a[2]->Err_0)),
            3,
        ) && duty_run(h, a, 0) == Run::Done(Err::<u8, FanFault>(FanFault::Io(a[2]->Err_0)), 3),
{
}

/// A step asks for what its run asks for, and is done with the run's result where that is.
pub proof fn a_step_is_what_its_run_prescribes(
    s: Step<Result<u8, FanError>>,
    run: Run<Result<u8, FanFault>>,
)
    requires
        is_step(s, run),
    ensures
        run matches Run::Ask(op) ==> (s matches Step::Ask(o) && o@ == op),
        run matches Run::Done(Ok(v), _) ==> s == Step::Done(Ok::<u8, FanError>(v)),
        run matches Run::Done(Err(e), _) ==> (s matches Step::Done(Err(x)) && x@ == e),
{
}

}
