//! Fan control over raw EC commands, for boards whose node has no `pwm1`.
//!
//! These boards report neither a duty nor who owns the fan, so the one piece of state is
//! whether we believe that we hold it, and releasing is unconditional.

use vstd::prelude::*;
use crate::ec::fan::{
    auto_request,
    duty_of,
    duty_to_percent,
    percent_is_the_nearest_whole_one,
    percent_of,
    percent_to_duty,
    set_duty_request,
    AUTO_FAN_CTRL,
    SET_FAN_DUTY,
};
use crate::fan::{said, FanError, FanFault, FanMode, FAN_INPUT, MIN_TAKEOVER_DUTY};
use crate::sysfs::{reply, unsigned_in, Answer, Sysfs};
use crate::transport::{
    asked,
    bytes_of,
    ec_replies,
    ec_reply,
    sends,
    Call,
    EcAnswer,
    EcError,
    EcFault,
    EcReply,
    EcRun,
    EcStep,
};

verus! {

/// The payload that asks for a duty.
pub open spec fn duty_bytes(duty: u8) -> Seq<u8> {
    seq![percent_of(duty) as u8, 0u8, 0u8, 0u8]
}

/// The command that runs the fan at a duty, and takes it from firmware.
pub open spec fn duty_call(duty: u8) -> Call {
    Call { command: SET_FAN_DUTY, version: 0, out: duty_bytes(duty), insize: 0 }
}

/// The command that hands the fan back to firmware.
pub open spec fn release_call() -> Call {
    Call { command: AUTO_FAN_CTRL, version: 0, out: seq![], insize: 0 }
}

/// What the EC holds after a duty: the one that its whole percent stands for.
pub open spec fn settled_duty(duty: u8) -> u8 {
    duty_of(percent_of(duty) as u8) as u8
}

/// What a failed duty comes to: the failure once the fan was given back, or that it could
/// not be.
pub open spec fn failed_drive(e: EcFault, back: EcReply) -> FanFault {
    match back {
        Ok(_) => FanFault::Ec(e.text()),
        Err(_) => FanFault::EcNotReleased("after a failed duty write: "@ + e.text()),
    }
}

/// What a failed duty comes to, given what the EC said to taking the fan back.
pub fn drive_failure(e: &EcError, back: &EcAnswer) -> (r: FanError)
    ensures
        r@ == failed_drive(e@, ec_reply(*back)),
{
    match back {
        Ok(_) => FanError::Ec(e.text()),
        Err(_) => {
            let mut why = "after a failed duty write: ".to_owned();
            why.append(e.text().as_str());
            FanError::EcNotReleased(why)
        },
    }
}

/// What refusing a duty that may not start the fan comes to while the fan is ours.
pub open spec fn refused_drive(duty: u8, back: EcReply) -> FanFault {
    let refusal = FanFault::DutyCannotTurnFan(duty);
    match back {
        Ok(_) => refusal,
        Err(_) => FanFault::EcNotReleased("after a failed duty write: "@ + refusal.text()),
    }
}

/// Driving the fan at a duty: the result, and whether the fan is then believed ours. Where
/// the duty is not taken the fan is given back, and only a fan that the EC took back stops
/// being believed ours.
pub open spec fn drive_run(duty: u8, a: Seq<EcReply>) -> EcRun<(Result<u8, FanFault>, bool)> {
    match asked(a, 0, duty_call(duty)) {
        EcRun::Send(c) => EcRun::Send(c),
        EcRun::Done(Ok(_), q) => EcRun::Done((Ok(settled_duty(duty)), true), q),
        EcRun::Done(Err(e), q) => match asked(a, q, release_call()) {
            EcRun::Send(c) => EcRun::Send(c),
            EcRun::Done(back, z) => EcRun::Done((Err(failed_drive(e, back)), back is Err), z),
        },
    }
}

/// Taking the fan: nothing is sent for a duty that may not start it, or where there is none.
pub open spec fn take_run(supported: bool, manual: bool, duty: u8, a: Seq<EcReply>) -> EcRun<
    (Result<u8, FanFault>, bool),
> {
    if 0 < duty < MIN_TAKEOVER_DUTY {
        EcRun::Done((Err(FanFault::DutyCannotTurnFan(duty)), manual), 0)
    } else if !supported {
        EcRun::Done((Err(FanFault::Unsupported), manual), 0)
    } else {
        drive_run(duty, a)
    }
}

/// Changing the duty: nothing is sent while the fan is not ours, and only the release for a
/// duty that may not start it.
pub open spec fn change_run(manual: bool, duty: u8, a: Seq<EcReply>) -> EcRun<
    (Result<u8, FanFault>, bool),
> {
    if !manual {
        EcRun::Done((Err(FanFault::NotUnderManualControl(FanMode::Auto)), false), 0)
    } else if 0 < duty < MIN_TAKEOVER_DUTY {
        match asked(a, 0, release_call()) {
            EcRun::Send(c) => EcRun::Send(c),
            EcRun::Done(back, q) => EcRun::Done((Err(refused_drive(duty, back)), back is Err), q),
        }
    } else {
        drive_run(duty, a)
    }
}

/// Giving the fan back: one command. A release that was refused leaves the belief.
pub open spec fn give_back_run(manual: bool, a: Seq<EcReply>) -> EcRun<
    (Result<(), FanFault>, bool),
> {
    match asked(a, 0, release_call()) {
        EcRun::Send(c) => EcRun::Send(c),
        EcRun::Done(Ok(_), q) => EcRun::Done((Ok(()), false), q),
        EcRun::Done(Err(e), q) => EcRun::Done((Err(FanFault::EcNotReleased(e.text())), manual), q),
    }
}

/// A duty that may not start the fan is never sent: it takes nothing over, and changes
/// nothing but to give back a fan that is ours.
pub proof fn a_refused_duty_is_never_sent(supported: bool, manual: bool, duty: u8, a: Seq<EcReply>)
    requires
        0 < duty < MIN_TAKEOVER_DUTY,
    ensures
        take_run(supported, manual, duty, a) is Done,
        change_run(manual, duty, a) matches EcRun::Send(c) ==> manual && a.len() == 0 && c
            == release_call(),
{
}

/// A duty that the EC does not take is followed by the release, and by nothing else.
pub proof fn a_failed_duty_is_followed_by_the_release(duty: u8, e: EcFault, back: EcReply)
    ensures
        drive_run(duty, seq![]) == EcRun::<(Result<u8, FanFault>, bool)>::Send(duty_call(duty)),
        drive_run(duty, seq![Err(e)]) == EcRun::<(Result<u8, FanFault>, bool)>::Send(
            release_call(),
        ),
        drive_run(duty, seq![Err(e), back]) == EcRun::Done(
            (Err::<u8, FanFault>(failed_drive(e, back)), back is Err),
            2,
        ),
{
}

/// Giving the fan back is the empty release and nothing behind it.
pub proof fn a_release_is_one_command(manual: bool, a: Seq<EcReply>)
    ensures
        give_back_run(manual, a) matches EcRun::Send(c) ==> a.len() == 0 && c == release_call()
            && c.out.len() == 0,
        a.len() > 0 ==> (give_back_run(manual, a) matches EcRun::Done(_, n) && n == 1),
{
}

fn send_release<T>() -> (r: EcStep<T>)
    ensures
        sends(r, release_call()),
{
    let request = auto_request();
    let out = bytes_of(request.as_slice());
    assert(out@ =~= seq![]);
    EcStep::Send { command: AUTO_FAN_CTRL, version: 0, out, insize: 0 }
}

/// A fan driven by EC commands. The node, found by name, only says that there is a fan and
/// how fast it turns.
#[derive(Debug, Clone, PartialEq, Eq)]
pub struct EcFan {
    hwmon: Option<String>,
    manual: bool,
}

impl EcFan {
    pub closed spec fn node(&self) -> Option<Seq<char>> {
        match self.hwmon {
            Some(h) => Some(h@),
            None => None,
        }
    }

    /// Whether we believe that we hold the fan.
    pub closed spec fn believed(&self) -> bool {
        self.manual
    }

    pub fn new(hwmon: Option<String>, manual: bool) -> (r: Self)
        ensures
            r.node() == (match hwmon {
                Some(h) => Some(h@),
                None => None,
            }),
            r.believed() == manual,
    {
        Self { hwmon, manual }
    }

    pub fn is_supported(&self) -> (r: bool)
        ensures
            r == (self.node() is Some),
    {
        self.hwmon.is_some()
    }

    /// What we last did, not what the hardware says: there is nothing to read.
    pub fn mode(&self) -> (r: Result<FanMode, FanError>)
        ensures
            r == Ok::<FanMode, FanError>(
                if self.believed() {
                    FanMode::Manual
                } else {
                    FanMode::Auto
                },
            ),
    {
        Ok(
            if self.manual {
                FanMode::Manual
            } else {
                FanMode::Auto
            },
        )
    }

    /// The mode is a belief, so those who most need to know who holds the fan release it
    /// unconditionally instead of asking.
    pub fn mode_is_observable(&self) -> (r: bool)
        ensures
            !r,
    {
        false
    }

    /// These boards report no duty at all. Not zero: reading that as an idle fan would stop
    /// the floor from being enforced.
    pub fn duty(&self) -> (r: Result<Option<u8>, FanError>)
        ensures
            r == Ok::<Option<u8>, FanError>(None),
    {
        Ok(None)
    }

    /// Where to read the fan's speed, if there is a fan.
    pub fn rpm_path(&self) -> (r: Option<String>)
        ensures
            match self.node() {
                Some(h) => r matches Some(p) && p@ == h + FAN_INPUT@,
                None => r is None,
            },
    {
        match &self.hwmon {
            Some(h) => {
                let mut p = h.clone();
                p.append(FAN_INPUT);
                Some(p)
            },
            None => None,
        }
    }

    /// The fan's speed, from what its file held.
    pub fn rpm(&self, text: Answer) -> (r: Option<u64>)
        ensures
            r == (match (self.node(), unsigned_in(seq![], reply(text))) {
                (Some(_), Ok(n)) => Some(n as u64),
                _ => None,
            }),
    {
        if self.hwmon.is_none() {
            return None;
        }
        proof {
            reveal_strlit("");
            assert(""@ =~= seq![]);
        }
        match Sysfs::default().read_u64("", text) {
            Ok(n) => Some(n),
            Err(_) => None,
        }
    }

    /// Send one duty, giving the fan back where that fails. The belief stands before the
    /// command goes out: the command itself is what takes the fan.
    fn drive(&mut self, duty: u8, answers: &[EcAnswer]) -> (r: EcStep<Result<u8, FanError>>)
        requires
            duty == 0 || duty >= MIN_TAKEOVER_DUTY,
        ensures
            final(self).node() == old(self).node(),
            match drive_run(duty, ec_replies(answers@)) {
                EcRun::Send(c) => sends(r, c) && final(self).believed(),
                EcRun::Done(x, _) => (r matches EcStep::Done(v) && said(v) == x.0)
                    && final(self).believed() == x.1,
            },
    {
        self.manual = true;
        let percent: u8 = duty_to_percent(duty);
        if answers.len() == 0 {
            let request = set_duty_request(percent);
            let out = bytes_of(request.as_slice());
            assert(out@ =~= duty_bytes(duty));
            return EcStep::Send { command: SET_FAN_DUTY, version: 0, out, insize: 0 };
        }
        let e = match &answers[0] {
            Ok(_) => {
                return EcStep::Done(Ok(percent_to_duty(percent)));
            },
            Err(e) => e,
        };
        if answers.len() == 1 {
            return send_release();
        }
        if answers[1].is_ok() {
            self.manual = false;
        }
        EcStep::Done(Err(drive_failure(e, &answers[1])))
    }

    /// Take the fan at `duty`. There is no separate mode switch: the duty command itself
    /// takes the fan from firmware.
    pub fn take_manual(&mut self, duty: u8, answers: &[EcAnswer]) -> (r: EcStep<
        Result<u8, FanError>,
    >)
        ensures
            final(self).node() == old(self).node(),
            match take_run(
                old(self).node() is Some,
                old(self).believed(),
                duty,
                ec_replies(answers@),
            ) {
                EcRun::Send(c) => sends(r, c) && final(self).believed(),
                EcRun::Done(x, _) => (r matches EcStep::Done(v) && said(v) == x.0)
                    && final(self).believed() == x.1,
            },
    {
        if duty > 0 && duty < MIN_TAKEOVER_DUTY {
            return EcStep::Done(Err(FanError::DutyCannotTurnFan(duty)));
        }
        if !self.is_supported() {
            return EcStep::Done(Err(FanError::Unsupported));
        }
        self.drive(duty, answers)
    }

    /// Change the duty while the fan is ours. The command would take the fan itself, so
    /// allowing it otherwise would be an unannounced takeover. A duty that may not start the
    /// fan is refused unsent, and gives the fan back like any other failed duty.
    pub fn set_duty(&mut self, duty: u8, answers: &[EcAnswer]) -> (r: EcStep<Result<u8, FanError>>)
        ensures
            final(self).node() == old(self).node(),
            match change_run(old(self).believed(), duty, ec_replies(answers@)) {
                EcRun::Send(c) => sends(r, c) && final(self).believed(),
                EcRun::Done(x, _) => (r matches EcStep::Done(v) && said(v) == x.0)
                    && final(self).believed() == x.1,
            },
    {
        if !self.manual {
            return EcStep::Done(Err(FanError::NotUnderManualControl(FanMode::Auto)));
        }
        if duty > 0 && duty < MIN_TAKEOVER_DUTY {
            if answers.len() == 0 {
                return send_release();
            }
            let refusal = FanError::DutyCannotTurnFan(duty);
            return match &answers[0] {
                Ok(_) => {
                    self.manual = false;
                    EcStep::Done(Err(refusal))
                },
                Err(_) => {
                    let mut why = "after a failed duty write: ".to_owned();
                    why.append(refusal.text().as_str());
                    EcStep::Done(Err(FanError::EcNotReleased(why)))
                },
            };
        }
        self.drive(duty, answers)
    }

    /// Give the fan back. Confirmed only as far as these boards allow: the EC accepted the
    /// command. A release that was refused leaves the belief, since nothing has shown that
    /// the fan is safe.
    pub fn release(&mut self, answers: &[EcAnswer]) -> (r: EcStep<Result<(), FanError>>)
        ensures
            final(self).node() == old(self).node(),
            match give_back_run(old(self).believed(), ec_replies(answers@)) {
                EcRun::Send(c) => sends(r, c) && final(self).believed() == old(self).believed(),
                EcRun::Done(x, _) => (r matches EcStep::Done(v) && said(v) == x.0)
                    && final(self).believed() == x.1,
            },
    {
        if answers.len() == 0 {
            return send_release();
        }
        match &answers[0] {
            Ok(_) => {
                self.manual = false;
                EcStep::Done(Ok(()))
            },
            Err(e) => EcStep::Done(Err(FanError::EcNotReleased(e.text()))),
        }
    }

    /// Give the fan back without the ability to fail: whether the EC accepted it.
    pub fn release_best_effort(&mut self, answers: &[EcAnswer]) -> (r: EcStep<bool>)
        ensures
            final(self).node() == old(self).node(),
            match give_back_run(old(self).believed(), ec_replies(answers@)) {
                EcRun::Send(c) => sends(r, c) && final(self).believed() == old(self).believed(),
                EcRun::Done(x, _) => r == EcStep::Done(x.0 is Ok) && final(self).believed() == x.1,
            },
    {
        match self.release(answers) {
            EcStep::Send { command, version, out, insize } => EcStep::Send {
                command,
                version,
                out,
                insize,
            },
            EcStep::Done(done) => EcStep::Done(done.is_ok()),
        }
    }
}

/// A duty goes out as the nearest whole percent in four bytes, lowest first, and what the EC then
/// holds is the duty nearest to that percent.
pub proof fn a_duty_goes_out_as_the_nearest_percent(duty: u8)
    ensures
        ({
            let c = duty_call(duty);
            &&& c.command == 0x24 && c.version == 0 && c.insize == 0
            &&& c.out.len() == 4 && c.out[1] == 0 && c.out[2] == 0 && c.out[3] == 0
            &&& -255 < 2 * (255 * c.out[0] - 100 * duty) <= 255
            &&& -100 < 2 * (100 * settled_duty(duty) - 255 * c.out[0]) <= 100
            &&& -3 <= settled_duty(duty) - duty <= 3
        }),
        release_call().command == 0x52 && release_call().version == 0 && release_call().insize == 0
            && release_call().out.len() == 0,
{
    percent_is_the_nearest_whole_one(duty, percent_of(duty) as u8);
}

/// Taking the fan, or changing its duty while it is ours, is that one command, and succeeds with
/// what the EC then holds. The fan is ours from then on.
pub proof fn a_duty_that_the_ec_takes_is_held(manual: bool, duty: u8, v: Seq<u8>)
    requires
        duty == 0 || duty >= 33,
    ensures
        take_run(true, manual, duty, seq![]) == EcRun::<(Result<u8, FanFault>, bool)>::Send(
            duty_call(duty),
        ),
        take_run(true, manual, duty, seq![Ok(v)]) == EcRun::Done(
            (Ok::<u8, FanFault>(settled_duty(duty)), true),
            1,
        ),
        change_run(true, duty, seq![]) == EcRun::<(Result<u8, FanFault>, bool)>::Send(
            duty_call(duty),
        ),
        change_run(true, duty, seq![Ok(v)]) == EcRun::Done(
            (Ok::<u8, FanFault>(settled_duty(duty)), true),
            1,
        ),
{
}

/// A fan that is not there is not taken and one that is not ours not changed, with nothing sent
/// and the belief about it as it was. A duty that may not start the fan is refused as such.
pub proof fn what_is_refused_is_refused_by_reason(manual: bool, duty: u8, a: Seq<EcReply>)
    ensures
        duty == 0 || duty >= 33 ==> take_run(false, manual, duty, a) == EcRun::Done(
            (Err::<u8, FanFault>(FanFault::Unsupported), manual),
            0,
        ),
        change_run(false, duty, a) == EcRun::Done(
            (Err::<u8, FanFault>(FanFault::NotUnderManualControl(FanMode::Auto)), false),
            0,
        ),
        0 < duty < 33 ==> take_run(true, manual, duty, a) == EcRun::Done(
            (Err::<u8, FanFault>(FanFault::DutyCannotTurnFan(duty)), manual),
            0,
        ),
{
}

/// A fan that the EC takes back is no longer ours; one that it does not is as it was.
pub proof fn only_a_taken_release_ends_the_belief(manual: bool, v: Seq<u8>, e: EcFault)
    ensures
        give_back_run(manual, seq![Ok(v)]) == EcRun::Done((Ok::<(), FanFault>(()), false), 1),
        give_back_run(manual, seq![Err(e)]) matches EcRun::Done(x, n) && x.0 is Err && x.1 == manual
            && n == 1,
{
}

}
