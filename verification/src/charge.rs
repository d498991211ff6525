//! Battery charge limit through the kernel's threshold attribute.
//!
//! On Framework hardware the EC also implements a charge command of its own that can
//! override this one. The read-back below confirms the value the kernel stores, not that
//! charging stops: a firmware that ignores the value while leaving it alone is not caught.
//!
//! Each operation is a piece of file-driven work, see [`crate::sysfs::Step`].

use vstd::prelude::*;
use crate::number::{decimal, decimal_text};
use crate::paths::BATTERY;
use crate::sysfs::{
    a_number_in_a_file_reads_as_itself,
    present_run,
    read_run,
    replies,
    unsigned_in,
    write_run,
    Answer,
    FileOp,
    IoError,
    IoFault,
    Op,
    Replay,
    Reply,
    Run,
    Step,
    Sysfs,
};

verus! {

/// Below this a "limit" is almost certainly a typo rather than an intent.
pub const MIN_LIMIT: u8 = 20;

pub const MAX_LIMIT: u8 = 100;

pub const THRESHOLD: &'static str = "/charge_control_end_threshold";

#[derive(Debug, Clone, PartialEq, Eq)]
pub enum ChargeError {
    /// No attribute. Usually means that the module parameter is unset.
    Unsupported,
    OutOfRange(u8),
    Io(IoError),
    /// Written successfully, but reading back gave something else.
    NotApplied { requested: u8, observed: u8 },
}

/// What a [`ChargeError`] says.
pub enum ChargeFault {
    Unsupported,
    OutOfRange(u8),
    Io(IoFault),
    NotApplied { requested: u8, observed: u8 },
}

impl View for ChargeError {
    type V = ChargeFault;

    open spec fn view(&self) -> ChargeFault {
        match *self {
            ChargeError::Unsupported => ChargeFault::Unsupported,
            ChargeError::OutOfRange(v) => ChargeFault::OutOfRange(v),
            ChargeError::Io(e) => ChargeFault::Io(e@),
            ChargeError::NotApplied { requested, observed } => ChargeFault::NotApplied {
                requested,
                observed,
            },
        }
    }
}

impl ChargeFault {
    pub open spec fn text(self) -> Seq<char> {
        match self {
            ChargeFault::Unsupported =>
                "charge control unavailable; set cros_charge-control.probe_with_fwk_charge_control=1 (see ADR 0008)"@,
            ChargeFault::OutOfRange(v) => decimal(v as nat)
                + "% is outside the accepted range "@ + decimal(MIN_LIMIT as nat) + "\u{2013}"@
                + decimal(MAX_LIMIT as nat) + "%"@,
            ChargeFault::Io(e) => e.message,
            ChargeFault::NotApplied { requested, observed } => "wrote "@ + decimal(
                requested as nat,
            ) + "% but the EC reports "@ + decimal(observed as nat)
                + "%; something else is governing charging \u{2014} check for a battery limit in UEFI setup"@,
        }
    }
}

impl ChargeError {
    pub fn text(&self) -> (r: String)
        ensures
            r@ == self@.text(),
    {
        match self {
            ChargeError::Unsupported =>
                "charge control unavailable; set cros_charge-control.probe_with_fwk_charge_control=1 (see ADR 0008)".to_owned(),
            ChargeError::OutOfRange(v) => {
                let mut s = decimal_text(*v as u64);
                s.append("% is outside the accepted range ");
                s.append(decimal_text(MIN_LIMIT as u64).as_str());
                s.append("\u{2013}");
                s.append(decimal_text(MAX_LIMIT as u64).as_str());
                s.append("%");
                s
            },
            ChargeError::Io(e) => e.text(),
            ChargeError::NotApplied { requested, observed } => {
                let mut s = "wrote ".to_owned();
                s.append(decimal_text(*requested as u64).as_str());
                s.append("% but the EC reports ");
                s.append(decimal_text(*observed as u64).as_str());
                s.append(
                    "%; something else is governing charging \u{2014} check for a battery limit in UEFI setup",
                );
                s
            },
        }
    }
}

pub open spec fn attribute() -> Seq<char> {
    BATTERY@ + THRESHOLD@
}

/// Reading the limit; anything past what a byte holds is the most it holds.
pub open spec fn charge_read_run(a: Seq<Reply>, p: int) -> Run<Result<u8, ChargeFault>> {
    match present_run(attribute(), a, p) {
        Run::Ask(op) => Run::Ask(op),
        Run::Done(false, q) => Run::Done(Err(ChargeFault::Unsupported), q),
        Run::Done(true, q) => match read_run(attribute(), a, q) {
            Run::Ask(op) => Run::Ask(op),
            Run::Done(t, z) => Run::Done(
                match unsigned_in(attribute(), t) {
                    Ok(n) => Ok(
                        if n < u8::MAX {
                            n as u8
                        } else {
                            u8::MAX
                        },
                    ),
                    Err(e) => Err(ChargeFault::Io(e)),
                },
                z,
            ),
        },
    }
}

/// Setting the limit and reading it back.
pub open spec fn charge_set_run(percent: u8, a: Seq<Reply>, p: int) -> Run<
    Result<(), ChargeFault>,
> {
    if !(MIN_LIMIT <= percent <= MAX_LIMIT) {
        Run::Done(Err(ChargeFault::OutOfRange(percent)), p)
    } else {
        match present_run(attribute(), a, p) {
            Run::Ask(op) => Run::Ask(op),
            Run::Done(false, q) => Run::Done(Err(ChargeFault::Unsupported), q),
            Run::Done(true, q) => match write_run(attribute(), decimal(percent as nat), a, q) {
                Run::Ask(op) => Run::Ask(op),
                Run::Done(Err(e), z) => Run::Done(Err(ChargeFault::Io(e)), z),
                Run::Done(Ok(()), z) => match charge_read_run(a, z) {
                    Run::Ask(op) => Run::Ask(op),
                    Run::Done(Err(e), n) => Run::Done(Err(e), n),
                    Run::Done(Ok(v), n) => if v == percent {
                        Run::Done(Ok(()), n)
                    } else {
                        Run::Done(
                            Err(ChargeFault::NotApplied { requested: percent, observed: v }),
                            n,
                        )
                    },
                },
            },
        }
    }
}

/// A result with its error taken by what it says.
pub open spec fn said<T>(r: Result<T, ChargeError>) -> Result<T, ChargeFault> {
    match r {
        Ok(v) => Ok(v),
        Err(e) => Err(e@),
    }
}

/// Drives the kernel's charge threshold.
#[derive(Debug, Clone, Copy, PartialEq, Eq)]
pub struct ChargeControl;

impl ChargeControl {
    pub fn new() -> (r: Self)
        ensures
            r == ChargeControl,
    {
        ChargeControl
    }

    fn attr(&self) -> (r: String)
        ensures
            r@ == attribute(),
    {
        let mut s = BATTERY.to_owned();
        s.append(THRESHOLD);
        s
    }

    pub(crate) fn read_limit(&self, rp: &mut Replay) -> (r: Result<Result<u8, ChargeError>, FileOp>)
        requires
            old(rp).wf(),
        ensures
            final(rp).wf(),
            final(rp).given() == old(rp).given(),
            match charge_read_run(old(rp).given(), old(rp).taken()) {
                Run::Done(x, p) => r matches Ok(v) && said(v) == x && final(rp).taken() == p,
                Run::Ask(op) => r matches Err(o) && o@ == op,
            },
    {
        let attr = self.attr();
        match rp.present(attr.as_str()) {
            Err(op) => Err(op),
            Ok(false) => Ok(Err(ChargeError::Unsupported)),
            Ok(true) => match rp.read(attr.as_str()) {
                Err(op) => Err(op),
                Ok(text) => match Sysfs::default().read_u64(attr.as_str(), text) {
                    Ok(v) => Ok(
                        Ok(
                            if v < u8::MAX as u64 {
                                v as u8
                            } else {
                                u8::MAX
                            },
                        ),
                    ),
                    Err(e) => Ok(Err(ChargeError::Io(e))),
                },
            },
        }
    }

    /// Whether the kernel offers the attribute.
    pub fn is_supported(&self, answers: &[Answer]) -> (r: Step<bool>)
        ensures
            match present_run(attribute(), replies(answers@), 0) {
                Run::Ask(op) => r matches Step::Ask(o) && o@ == op,
                Run::Done(b, _) => r == Step::Done(b),
            },
    {
        let mut rp = Replay::new(answers);
        match rp.present(self.attr().as_str()) {
            Err(op) => Step::Ask(op),
            Ok(b) => Step::Done(b),
        }
    }

    /// The limit the kernel stores.
    pub fn read(&self, answers: &[Answer]) -> (r: Step<Result<u8, ChargeError>>)
        ensures
            match charge_read_run(replies(answers@), 0) {
                Run::Ask(op) => r matches Step::Ask(o) && o@ == op,
                Run::Done(v, _) => r matches Step::Done(x) && said(x) == v,
            },
    {
        let mut rp = Replay::new(answers);
        match self.read_limit(&mut rp) {
            Err(op) => Step::Ask(op),
            Ok(v) => Step::Done(v),
        }
    }

    pub(crate) fn set_with(&self, percent: u8, rp: &mut Replay) -> (r: Result<
        Result<(), ChargeError>,
        FileOp,
    >)
        requires
            old(rp).wf(),
        ensures
            final(rp).wf(),
            final(rp).given() == old(rp).given(),
            match charge_set_run(percent, old(rp).given(), old(rp).taken()) {
                Run::Done(x, p) => r matches Ok(v) && said(v) == x && final(rp).taken() == p,
                Run::Ask(op) => r matches Err(o) && o@ == op,
            },
    {
        // Range before support, so that a typo reports as a typo even on a machine where
        // charge control is unavailable.
        if percent < MIN_LIMIT || percent > MAX_LIMIT {
            return Ok(Err(ChargeError::OutOfRange(percent)));
        }
        let attr = self.attr();
        match rp.present(attr.as_str()) {
            Err(op) => {
                return Err(op);
            },
            Ok(false) => {
                return Ok(Err(ChargeError::Unsupported));
            },
            Ok(true) => {},
        }
        match rp.write(attr.as_str(), decimal_text(percent as u64).as_str()) {
            Err(op) => Err(op),
            Ok(Err(e)) => Ok(Err(ChargeError::Io(e))),
            Ok(Ok(())) => match self.read_limit(rp) {
                Err(op) => Err(op),
                Ok(Err(e)) => Ok(Err(e)),
                Ok(Ok(observed)) => if observed != percent {
                    Ok(Err(ChargeError::NotApplied { requested: percent, observed }))
                } else {
                    Ok(Ok(()))
                },
            },
        }
    }

    /// Set the limit and confirm that it was taken. A silent override must surface as a
    /// specific error rather than as apparent success.
    pub fn set(&self, percent: u8, answers: &[Answer]) -> (r: Step<Result<(), ChargeError>>)
        ensures
            match charge_set_run(percent, replies(answers@), 0) {
                Run::Ask(op) => r matches Step::Ask(o) && o@ == op,
                Run::Done(v, _) => r matches Step::Done(x) && said(x) == v,
            },
    {
        let mut rp = Replay::new(answers);
        match self.set_with(percent, &mut rp) {
            Err(op) => Step::Ask(op),
            Ok(v) => Step::Done(v),
        }
    }
}

/// Setting a limit succeeds only where the same limit was read back, and a limit out of
/// range touches nothing.
pub proof fn a_limit_is_confirmed(percent: u8, a: Seq<Reply>, n: int)
    ensures
        charge_set_run(percent, a, 0) == Run::Done(Ok::<(), ChargeFault>(()), n) ==> MIN_LIMIT
            <= percent <= MAX_LIMIT && charge_read_run(a, 2) == Run::Done(
            Ok::<u8, ChargeFault>(percent),
            n,
        ),
        !(MIN_LIMIT <= percent <= MAX_LIMIT) ==> charge_set_run(percent, a, 0) == Run::Done(
            Err::<(), ChargeFault>(ChargeFault::OutOfRange(percent)),
            0,
        ),
{
}

/// A limit in range is written as it is, and counts as set exactly where the same number reads
/// back. Anything else that reads back is told, as far as a byte holds it.
pub proof fn a_limit_is_written_and_read_back(percent: u8, a: Seq<Reply>, n: nat)
    requires
        20 <= percent <= 100,
        a.len() >= 1,
        a[0] is Ok,
        n <= u64::MAX,
    ensures
        ({
            let run = charge_set_run(percent, a, 0);
            &&& a.len() == 1 ==> run == Run::<Result<(), ChargeFault>>::Ask(
                Op::Write(attribute(), decimal(percent as nat)),
            )
            &&& a.len() == 4 && a[1] is Ok && a[2] is Ok && a[3] == Ok::<Seq<char>, IoFault>(
                decimal(n),
            ) ==> run == Run::Done(
                if n == percent {
                    Ok::<(), ChargeFault>(())
                } else {
                    Err(
                        ChargeFault::NotApplied {
                            requested: percent,
                            observed: if n > 255 {
                                255
                            } else {
                                n as u8
                            },
                        },
                    )
                },
                4,
            )
        }),
{
    a_number_in_a_file_reads_as_itself(attribute(), n);
}

/// The limit that is read is the number in its file, as far as a byte holds it.
pub proof fn a_limit_reads_as_its_file_has_it(a: Seq<Reply>, n: nat)
    requires
        a.len() >= 2,
        a[0] is Ok,
        a[1] == Ok::<Seq<char>, IoFault>(decimal(n)),
        n <= u64::MAX,
    ensures
        charge_read_run(a, 0) == Run::Done(
            Ok::<u8, ChargeFault>(
                if n > 255 {
                    255
                } else {
                    n as u8
                },
            ),
            2,
        ),
{
    a_number_in_a_file_reads_as_itself(attribute(), n);
}

/// The limit is read from its file where that is there, and can neither be read nor set where it
/// is not.
pub proof fn the_limit_is_read_from_its_file(percent: u8, a: Seq<Reply>)
    requires
        20 <= percent <= 100,
    ensures
        a.len() == 0 ==> charge_read_run(a, 0) == Run::<Result<u8, ChargeFault>>::Ask(
            Op::Exists(attribute()),
        ),
        a.len() == 1 && a[0] is Ok ==> charge_read_run(a, 0) == Run::<Result<u8, ChargeFault>>::Ask(
            Op::Read(attribute()),
        ),
        a.len() >= 1 && a[0] is Err ==> charge_read_run(a, 0) == Run::Done(
            Err::<u8, ChargeFault>(ChargeFault::Unsupported),
            1,
        ) && charge_set_run(percent, a, 0) == Run::Done(
            Err::<(), ChargeFault>(ChargeFault::Unsupported),
            1,
        ),
        a.len() >= 2 && a[0] is Ok && a[1] is Err ==> charge_read_run(a, 0) == Run::Done(
            Err::<u8, ChargeFault>(ChargeFault::Io(a[1]->Err_0)),
            2,
        ) && charge_set_run(percent, a, 0) == Run::Done(
            Err::<(), ChargeFault>(ChargeFault::Io(a[1]->Err_0)),
            2,
        ),
{
}

}
