//! Giving the fan back to the EC, whoever took it, and saying whether it took.
//!
//! For the case the daemon cannot handle itself: it was killed, it deadlocked, it died in its
//! own exit hooks. Releasing a fan the EC already owns does nothing, so this releases
//! unconditionally.

use vstd::prelude::*;
use crate::ec::fan::AUTO_FAN_CTRL;
use crate::fan::{
    a_mode_reads_as_its_file_has_it,
    best_effort_run,
    mode_run,
    FanControl,
    FanMode,
};
use crate::lease::{node_run, place};
use crate::number::{decimal, decimal_text};
use crate::sysfs::{replies, Answer, IoFault, Op, Replay, Reply, Run, Step};
use crate::transport::{frame, ByteOrder, CrosEc, HEADER_LEN};

verus! {

/// The EC does not implement the command.
pub const EC_RES_INVALID_COMMAND: u32 = 1;

/// The whole release command: a header, and no payload in either direction.
pub fn release_command(order: ByteOrder) -> (r: Vec<u8>)
    ensures
        r@ == frame(order, AUTO_FAN_CTRL, 0, seq![], 0),
        r@.len() == HEADER_LEN,
{
    let none: [u8; 0] = [];
    assert(none@ =~= seq![]);
    CrosEc::request(order, AUTO_FAN_CTRL, 0, none.as_slice(), 0)
}

/// How releasing over the EC's device ended.
#[derive(Debug, Clone, PartialEq, Eq)]
pub enum EcRelease {
    Released,
    /// The EC does not have the command, so it cannot have had a fan taken with it.
    NotSupported,
    Failed(String),
}

/// Why a release failed, if it did.
pub open spec fn refusal(result: u32) -> Option<Seq<char>> {
    if result == 0 || result == EC_RES_INVALID_COMMAND {
        None
    } else {
        Some("the EC refused it (result "@ + decimal(result as nat) + ")"@)
    }
}

/// What the EC's result code says about a release.
pub fn judge_release(result: u32) -> (r: EcRelease)
    ensures
        result == 0 <==> r is Released,
        result == EC_RES_INVALID_COMMAND <==> r is NotSupported,
        refusal(result) matches Some(why) ==> r matches EcRelease::Failed(e) && e@ == why,
{
    if result == 0 {
        EcRelease::Released
    } else if result == EC_RES_INVALID_COMMAND {
        EcRelease::NotSupported
    } else {
        let mut s = "the EC refused it (result ".to_owned();
        s.append(decimal_text(result as u64).as_str());
        s.append(")");
        EcRelease::Failed(s)
    }
}

/// How giving the fan back through the kernel's files ended.
#[derive(Debug, Clone, Copy, PartialEq, Eq, Structural)]
pub enum Restored {
    /// The node cannot do it: ask the EC directly.
    Unsupported,
    /// The EC has the fan; what it was before.
    Done { was: FanMode },
    /// The EC does not have the fan; what it reports.
    Failed { observed: FanMode },
}

pub open spec fn mode_or_unknown<E>(m: Result<FanMode, E>) -> FanMode {
    match m {
        Ok(m) => m,
        Err(_) => FanMode::Other(0),
    }
}

/// What giving the fan back comes to.
pub open spec fn restore_run(h: Option<Seq<char>>, a: Seq<Reply>) -> Run<Restored> {
    match node_run(h, a, 0) {
        Run::Ask(op) => Run::Ask(op),
        Run::Done(false, n) => Run::Done(Restored::Unsupported, n),
        Run::Done(true, n) => match mode_run(h->0, a, n) {
            Run::Ask(op) => Run::Ask(op),
            Run::Done(was, p) => match best_effort_run(h->0, a, p) {
                Run::Ask(op) => Run::Ask(op),
                Run::Done(true, q) => Run::Done(Restored::Done { was: mode_or_unknown(was) }, q),
                Run::Done(false, q) => match mode_run(h->0, a, q) {
                    Run::Ask(op) => Run::Ask(op),
                    Run::Done(now, z) => Run::Done(
                        Restored::Failed { observed: mode_or_unknown(now) },
                        z,
                    ),
                },
            },
        },
    }
}

/// Give the fan back through the kernel's files, and confirm it.
pub fn restore(hwmon: Option<&str>, answers: &[Answer]) -> (r: Step<Restored>)
    ensures
        match restore_run(place(hwmon), replies(answers@)) {
            Run::Ask(op) => r matches Step::Ask(o) && o@ == op,
            Run::Done(x, _) => r == Step::Done(x),
        },
{
    let mut rp = Replay::new(answers);
    let fan = match hwmon {
        None => {
            return Step::Done(Restored::Unsupported);
        },
        Some(h) => FanControl::new(h),
    };
    match fan.supported(&mut rp) {
        Err(op) => {
            return Step::Ask(op);
        },
        Ok(false) => {
            return Step::Done(Restored::Unsupported);
        },
        Ok(true) => {},
    }
    let was = match fan.read_mode(&mut rp) {
        Err(op) => {
            return Step::Ask(op);
        },
        Ok(Ok(m)) => m,
        Ok(Err(_)) => FanMode::Other(0),
    };
    match fan.try_release(&mut rp) {
        Err(op) => Step::Ask(op),
        Ok(true) => Step::Done(Restored::Done { was }),
        Ok(false) => match fan.read_mode(&mut rp) {
            Err(op) => Step::Ask(op),
            Ok(Ok(observed)) => Step::Done(Restored::Failed { observed }),
            Ok(Err(_)) => Step::Done(Restored::Failed { observed: FanMode::Other(0) }),
        },
    }
}

/// What to print, and whether that is a success. Nothing to print means that the EC is to be
/// asked directly.
pub open spec fn restored_report(r: Restored) -> Option<(Seq<char>, bool)> {
    match r {
        Restored::Unsupported => None,
        Restored::Done { was } => Some(
            (
                if was is Auto {
                    "fw-helper-restore-fan: fan was already EC automatic"@
                } else {
                    "fw-helper-restore-fan: fan was "@ + was.spec_text() + ", now EC automatic"@
                },
                true,
            ),
        ),
        Restored::Failed { observed } => Some(
            (
                "fw-helper-restore-fan: FAILED to restore EC fan control (fan reports "@
                    + observed.spec_text()
                    + "). Are you root? Write 2 to the cros_ec hwmon's pwm1_enable by hand."@,
                false,
            ),
        ),
    }
}

/// What to print, and whether that is a success.
pub fn report(r: &Restored) -> (out: Option<(String, bool)>)
    ensures
        match restored_report(*r) {
            Some(x) => out matches Some(y) && y.0@ == x.0 && y.1 == x.1,
            None => out is None,
        },
{
    match r {
        Restored::Unsupported => None,
        Restored::Done { was: FanMode::Auto } => Some(
            ("fw-helper-restore-fan: fan was already EC automatic".to_owned(), true),
        ),
        Restored::Done { was } => {
            let mut s = "fw-helper-restore-fan: fan was ".to_owned();
            s.append(was.text().as_str());
            s.append(", now EC automatic");
            Some((s, true))
        },
        Restored::Failed { observed } => {
            let mut s =
                "fw-helper-restore-fan: FAILED to restore EC fan control (fan reports ".to_owned();
            s.append(observed.text().as_str());
            s.append("). Are you root? Write 2 to the cros_ec hwmon's pwm1_enable by hand.");
            Some((s, false))
        },
    }
}

/// What to print after asking the EC directly, and whether that is a success. A machine
/// without a fan to take has not failed.
pub open spec fn ec_report_text(r: Option<EcRelease>) -> (Seq<char>, bool) {
    match r {
        None => (
            "fw-helper-restore-fan: nothing to restore (no cros_ec fan interface)"@,
            true,
        ),
        Some(EcRelease::Released) => (
            "fw-helper-restore-fan: fan handed to the EC (no mode register to check)"@,
            true,
        ),
        Some(EcRelease::NotSupported) => (
            "fw-helper-restore-fan: nothing to restore (this EC has no fan-control command)"@,
            true,
        ),
        Some(EcRelease::Failed(e)) => (
            "fw-helper-restore-fan: FAILED to return the fan to the EC ("@ + e@
                + "). The fan may be held with nothing managing it. Run this again as root."@,
            false,
        ),
    }
}

/// What to print after asking the EC directly, and whether that is a success. `None` is a
/// machine without the interface.
pub fn ec_report(r: &Option<EcRelease>) -> (out: (String, bool))
    ensures
        (out.0@, out.1) == ec_report_text(*r),
{
    match r {
        None => (
            "fw-helper-restore-fan: nothing to restore (no cros_ec fan interface)".to_owned(),
            true,
        ),
        Some(EcRelease::Released) => (
            "fw-helper-restore-fan: fan handed to the EC (no mode register to check)".to_owned(),
            true,
        ),
        Some(EcRelease::NotSupported) => (
            "fw-helper-restore-fan: nothing to restore (this EC has no fan-control command)".to_owned(),
            true,
        ),
        Some(EcRelease::Failed(e)) => {
            let mut s = "fw-helper-restore-fan: FAILED to return the fan to the EC (".to_owned();
            s.append(e.as_str());
            s.append("). The fan may be held with nothing managing it. Run this again as root.");
            (s, false)
        },
    }
}

/// A success is reported only where the EC reported that it has the fan.
pub proof fn a_restored_fan_is_confirmed(h: Seq<char>, a: Seq<Reply>, was: FanMode, n: int)
    requires
        restore_run(Some(h), a) == Run::Done(Restored::Done { was }, n),
    ensures
        exists|q: int| #[trigger] best_effort_run(h, a, q) == Run::Done(true, n),
{
    if let Run::Done(true, k) = node_run(Some(h), a, 0) {
        if let Run::Done(_, p) = mode_run(h, a, k) {
            assert(best_effort_run(h, a, p) == Run::Done(true, n));
        }
    }
}

/// A fan whose node can do it is handed back by writing the EC's own mode. That is a success
/// exactly where the mode's file then holds it, told with the mode that the fan was in, and
/// otherwise a failure, told with the mode it is in now.
pub proof fn a_fan_is_restored_where_the_mode_reads_back(
    h: Seq<char>,
    a: Seq<Reply>,
    was: nat,
    now: nat,
)
    requires
        a.len() >= 5,
        a[0] is Ok && a[1] is Ok && a[2] is Ok && a[3] is Ok,
        a[4] == Ok::<Seq<char>, IoFault>(decimal(was)),
        was <= u64::MAX,
        now <= u64::MAX,
    ensures
        ({
            let mode = |n: nat|
                if n == 1 {
                    FanMode::Manual
                } else if n == 2 {
                    FanMode::Auto
                } else {
                    FanMode::Other(n as u64)
                };
            let run = restore_run(Some(h), a);
            let read = a.len() >= 9 && a[6] is Ok && a[7] is Ok && a[8] == Ok::<Seq<char>, IoFault>(
                decimal(now),
            );
            &&& a.len() == 5 ==> run == Run::<Restored>::Ask(
                Op::Write(h + "/pwm1_enable"@, decimal(2)),
            )
            &&& read && now == 2 ==> run == Run::Done(Restored::Done { was: mode(was) }, 9)
            &&& read && now != 2 && a.len() == 12 && a[9] is Ok && a[10] is Ok && a[11] == Ok::<
                Seq<char>,
                IoFault,
            >(decimal(now)) ==> run == Run::Done(Restored::Failed { observed: mode(now) }, 12)
        }),
        restore_run(None, a) == Run::Done(Restored::Unsupported, 0),
{
    a_mode_reads_as_its_file_has_it(h, a, 2, was);
    if a.len() >= 9 && a[6] is Ok && a[7] is Ok && a[8] == Ok::<Seq<char>, IoFault>(decimal(now)) {
        a_mode_reads_as_its_file_has_it(h, a, 6, now);
        if a.len() == 12 && a[9] is Ok && a[10] is Ok && a[11] == Ok::<Seq<char>, IoFault>(
            decimal(now),
        ) {
            a_mode_reads_as_its_file_has_it(h, a, 9, now);
        }
    }
}

/// Only a result that is neither zero nor an unknown command is a refusal, and only a failure to
/// give the fan back is reported as one.
pub proof fn only_a_failure_is_reported_as_one(result: u32, r: Restored, e: Option<EcRelease>)
    ensures
        refusal(result) is None <==> result == 0 || result == 1,
        restored_report(r) is None <==> r is Unsupported,
        restored_report(r) matches Some(x) ==> x.1 == (r is Done),
        ec_report_text(e).1 == !(e matches Some(EcRelease::Failed(_))),
{
}

}
