//! The sustained CPU power limit, in watts.
//!
//! Each operation is a piece of file-driven work, see [`crate::sysfs::Step`].

use vstd::prelude::*;
use crate::caps::POWER_CONSTRAINT;
use crate::number::{decimal, decimal_text};
use crate::paths::RAPL_MMIO;
use crate::sysfs::{
    a_number_in_a_file_reads_as_itself,
    present_run,
    read_run,
    replies,
    unsigned_in,
    write_run,
    Answer,
    FileOp,
    IoError,
    IoFault,
    Op,
    Replay,
    Reply,
    Run,
    Step,
    Sysfs,
};

verus! {

pub const MIN_WATTS: u32 = 8;

/// Used where the zone does not say what its maximum is.
pub const FALLBACK_MAX_WATTS: u32 = 25;

/// Microwatts in a watt.
pub const WATT: u64 = 1_000_000;

pub const POWER_MAXIMUM: &'static str = "/constraint_0_max_power_uw";

#[derive(Debug, Clone, PartialEq, Eq)]
pub enum PowerError {
    /// The zone has no sustained limit.
    Unsupported,
    Io(IoError),
    /// Written successfully, but reading back gave something else.
    NotApplied { requested: u32, observed: u32 },
}

/// What a [`PowerError`] says.
pub enum PowerFault {
    Unsupported,
    Io(IoFault),
    NotApplied { requested: u32, observed: u32 },
}

impl View for PowerError {
    type V = PowerFault;

    open spec fn view(&self) -> PowerFault {
        match *self {
            PowerError::Unsupported => PowerFault::Unsupported,
            PowerError::Io(e) => PowerFault::Io(e@),
            PowerError::NotApplied { requested, observed } => PowerFault::NotApplied {
                requested,
                observed,
            },
        }
    }
}

impl PowerFault {
    pub open spec fn text(self) -> Seq<char> {
        match self {
            PowerFault::Unsupported => "power limit unavailable; no intel-rapl-mmio:0 zone"@,
            PowerFault::Io(e) => e.message,
            PowerFault::NotApplied { requested, observed } => "wrote "@ + decimal(requested as nat)
                + " W but the zone reports "@ + decimal(observed as nat) + " W"@,
        }
    }
}

impl PowerError {
    pub fn text(&self) -> (r: String)
        ensures
            r@ == self@.text(),
    {
        match self {
            PowerError::Unsupported =>
                "power limit unavailable; no intel-rapl-mmio:0 zone".to_owned(),
            PowerError::Io(e) => e.text(),
            PowerError::NotApplied { requested, observed } => {
                let mut s = "wrote ".to_owned();
                s.append(decimal_text(*requested as u64).as_str());
                s.append(" W but the zone reports ");
                s.append(decimal_text(*observed as u64).as_str());
                s.append(" W");
                s
            },
        }
    }
}

pub open spec fn limit_path() -> Seq<char> {
    RAPL_MMIO@ + POWER_CONSTRAINT@
}

pub open spec fn maximum_path() -> Seq<char> {
    RAPL_MMIO@ + POWER_MAXIMUM@
}

/// Whole watts, as far as they fit.
pub open spec fn whole_watts(uw: nat) -> u32 {
    if uw / WATT as nat <= u32::MAX {
        (uw / WATT as nat) as u32
    } else {
        u32::MAX
    }
}

/// The highest limit the zone admits to.
pub open spec fn maximum_in(text: Reply) -> u32 {
    match unsigned_in(maximum_path(), text) {
        Ok(n) if whole_watts(n) > 0 => whole_watts(n),
        _ => FALLBACK_MAX_WATTS,
    }
}

/// A limit brought into the range between the least sensible one and the zone's maximum.
pub open spec fn within(watts: u32, max: u32) -> u32 {
    if watts > max {
        max
    } else if watts < MIN_WATTS {
        MIN_WATTS
    } else {
        watts
    }
}

pub open spec fn power_read_run(a: Seq<Reply>, p: int) -> Run<Result<u32, PowerFault>> {
    match present_run(limit_path(), a, p) {
        Run::Ask(op) => Run::Ask(op),
        Run::Done(false, q) => Run::Done(Err(PowerFault::Unsupported), q),
        Run::Done(true, q) => match read_run(limit_path(), a, q) {
            Run::Ask(op) => Run::Ask(op),
            Run::Done(t, z) => Run::Done(
                match unsigned_in(limit_path(), t) {
                    Ok(n) => Ok(whole_watts(n)),
                    Err(e) => Err(PowerFault::Io(e)),
                },
                z,
            ),
        },
    }
}

pub open spec fn power_set_run(watts: u32, a: Seq<Reply>, p: int) -> Run<Result<(), PowerFault>> {
    match read_run(maximum_path(), a, p) {
        Run::Ask(op) => Run::Ask(op),
        Run::Done(t, q) => {
            let target = within(watts, maximum_in(t));
            match write_run(limit_path(), decimal((target * WATT) as nat), a, q) {
                Run::Ask(op) => Run::Ask(op),
                Run::Done(Err(e), z) => Run::Done(Err(PowerFault::Io(e)), z),
                Run::Done(Ok(()), z) => match power_read_run(a, z) {
                    Run::Ask(op) => Run::Ask(op),
                    Run::Done(Err(e), n) => Run::Done(Err(e), n),
                    Run::Done(Ok(v), n) => if v == target {
                        Run::Done(Ok(()), n)
                    } else {
                        Run::Done(
                            Err(PowerFault::NotApplied { requested: target, observed: v }),
                            n,
                        )
                    },
                },
            }
        },
    }
}

/// A result with its error taken by what it says.
pub open spec fn said<T>(r: Result<T, PowerError>) -> Result<T, PowerFault> {
    match r {
        Ok(v) => Ok(v),
        Err(e) => Err(e@),
    }
}

fn to_watts(uw: u64) -> (r: u32)
    ensures
        r == whole_watts(uw as nat),
{
    let w: u64 = uw / WATT;
    if w <= u32::MAX as u64 {
        w as u32
    } else {
        u32::MAX
    }
}

/// Drives the zone's sustained limit.
#[derive(Debug, Clone, Copy, PartialEq, Eq)]
pub struct PowerLimit;

impl PowerLimit {
    pub fn new() -> (r: Self)
        ensures
            r == PowerLimit,
    {
        PowerLimit
    }

    fn limit_file(&self) -> (r: String)
        ensures
            r@ == limit_path(),
    {
        let mut s = RAPL_MMIO.to_owned();
        s.append(POWER_CONSTRAINT);
        s
    }

    pub(crate) fn read_limit(&self, rp: &mut Replay) -> (r: Result<Result<u32, PowerError>, FileOp>)
        requires
            old(rp).wf(),
        ensures
            final(rp).wf(),
            final(rp).given() == old(rp).given(),
            match power_read_run(old(rp).given(), old(rp).taken()) {
                Run::Done(x, p) => r matches Ok(v) && said(v) == x && final(rp).taken() == p,
                Run::Ask(op) => r matches Err(o) && o@ == op,
            },
    {
        let path = self.limit_file();
        match rp.present(path.as_str()) {
            Err(op) => Err(op),
            Ok(false) => Ok(Err(PowerError::Unsupported)),
            Ok(true) => match rp.read(path.as_str()) {
                Err(op) => Err(op),
                Ok(text) => match Sysfs::default().read_u64(path.as_str(), text) {
                    Ok(n) => Ok(Ok(to_watts(n))),
                    Err(e) => Ok(Err(PowerError::Io(e))),
                },
            },
        }
    }

    fn read_maximum(&self, rp: &mut Replay) -> (r: Result<u32, FileOp>)
        requires
            old(rp).wf(),
        ensures
            final(rp).wf(),
            final(rp).given() == old(rp).given(),
            match read_run(maximum_path(), old(rp).given(), old(rp).taken()) {
                Run::Done(t, p) => r == Ok::<u32, FileOp>(maximum_in(t)) && final(rp).taken() == p,
                Run::Ask(op) => r matches Err(o) && o@ == op,
            },
    {
        let mut path = RAPL_MMIO.to_owned();
        path.append(POWER_MAXIMUM);
        match rp.read(path.as_str()) {
            Err(op) => Err(op),
            Ok(text) => match Sysfs::default().read_u64(path.as_str(), text) {
                Ok(n) if to_watts(n) > 0 => Ok(to_watts(n)),
                _ => Ok(FALLBACK_MAX_WATTS),
            },
        }
    }

    /// The limit the zone holds.
    pub fn read(&self, answers: &[Answer]) -> (r: Step<Result<u32, PowerError>>)
        ensures
            match power_read_run(replies(answers@), 0) {
                Run::Ask(op) => r matches Step::Ask(o) && o@ == op,
                Run::Done(v, _) => r matches Step::Done(x) && said(x) == v,
            },
    {
        let mut rp = Replay::new(answers);
        match self.read_limit(&mut rp) {
            Err(op) => Step::Ask(op),
            Ok(v) => Step::Done(v),
        }
    }

    /// The highest limit the zone admits to.
    pub fn max_watts(&self, answers: &[Answer]) -> (r: Step<u32>)
        ensures
            match read_run(maximum_path(), replies(answers@), 0) {
                Run::Ask(op) => r matches Step::Ask(o) && o@ == op,
                Run::Done(t, _) => r == Step::Done(maximum_in(t)),
            },
    {
        let mut rp = Replay::new(answers);
        match self.read_maximum(&mut rp) {
            Err(op) => Step::Ask(op),
            Ok(v) => Step::Done(v),
        }
    }

    pub(crate) fn set_with(&self, watts: u32, rp: &mut Replay) -> (r: Result<
        Result<(), PowerError>,
        FileOp,
    >)
        requires
            old(rp).wf(),
        ensures
            final(rp).wf(),
            final(rp).given() == old(rp).given(),
            match power_set_run(watts, old(rp).given(), old(rp).taken()) {
                Run::Done(x, p) => r matches Ok(v) && said(v) == x && final(rp).taken() == p,
                Run::Ask(op) => r matches Err(o) && o@ == op,
            },
    {
        let max: u32 = match self.read_maximum(rp) {
            Err(op) => {
                return Err(op);
            },
            Ok(m) => m,
        };
        let target: u32 = if watts > max {
            max
        } else if watts < MIN_WATTS {
            MIN_WATTS
        } else {
            watts
        };
        let text = decimal_text((target as u64) * WATT);
        match rp.write(self.limit_file().as_str(), text.as_str()) {
            Err(op) => Err(op),
            Ok(Err(e)) => Ok(Err(PowerError::Io(e))),
            Ok(Ok(())) => match self.read_limit(rp) {
                Err(op) => Err(op),
                Ok(Err(e)) => Ok(Err(e)),
                Ok(Ok(observed)) => if observed != target {
                    Ok(Err(PowerError::NotApplied { requested: target, observed }))
                } else {
                    Ok(Ok(()))
                },
            },
        }
    }

    /// Set the limit, brought into range, and confirm that it was taken.
    pub fn set(&self, watts: u32, answers: &[Answer]) -> (r: Step<Result<(), PowerError>>)
        ensures
            match power_set_run(watts, replies(answers@), 0) {
                Run::Ask(op) => r matches Step::Ask(o) && o@ == op,
                Run::Done(v, _) => r matches Step::Done(x) && said(x) == v,
            },
    {
        let mut rp = Replay::new(answers);
        match self.set_with(watts, &mut rp) {
            Err(op) => Step::Ask(op),
            Ok(v) => Step::Done(v),
        }
    }
}

/// A limit is never set above what the zone admits to.
pub proof fn a_limit_stays_within_the_zone(watts: u32, max: u32)
    ensures
        within(watts, max) <= max || within(watts, max) == MIN_WATTS,
        MIN_WATTS <= watts <= max ==> within(watts, max) == watts,
{
}

/// A limit between the least sensible one and the zone's maximum is kept, one above is lowered
/// to the maximum, and one below both is raised to the least.
pub proof fn a_limit_is_moved_only_into_range(watts: u32, max: u32)
    ensures
        8 <= watts <= max ==> within(watts, max) == watts,
        watts > max ==> within(watts, max) == max,
        watts <= max && watts < 8 ==> within(watts, max) == 8,
{
}

/// A number of microwatts counts as the whole watts in it, up to what fits.
pub proof fn watts_are_whole(uw: nat)
    ensures
        whole_watts(uw) * 1_000_000 <= uw,
        whole_watts(uw) < u32::MAX ==> uw < (whole_watts(uw) + 1) * 1_000_000,
{
}

/// The zone's maximum is the whole watts in its file, and the fallback where that is no number
/// or less than a watt.
pub proof fn the_maximum_is_what_the_zone_says(n: nat, e: IoFault)
    requires
        n <= u64::MAX,
    ensures
        1_000_000 <= n < u32::MAX * 1_000_000 ==> maximum_in(Ok(decimal(n))) * 1_000_000 <= n < (maximum_in(
            Ok(decimal(n)),
        ) + 1) * 1_000_000,
        n < 1_000_000 ==> maximum_in(Ok(decimal(n))) == 25,
        maximum_in(Err(e)) == 25,
{
    a_number_in_a_file_reads_as_itself(maximum_path(), n);
}

/// A limit is read in whole watts from its file.
pub proof fn a_limit_reads_in_whole_watts(a: Seq<Reply>, n: nat)
    requires
        a.len() >= 2,
        a[0] is Ok,
        a[1] == Ok::<Seq<char>, IoFault>(decimal(n)),
        n < u32::MAX * 1_000_000,
    ensures
        power_read_run(a, 0) matches Run::Done(Ok(w), p) && p == 2 && w * 1_000_000 <= n < (w + 1) * 1_000_000,
{
    a_number_in_a_file_reads_as_itself(limit_path(), n);
}

/// Setting a limit reads the zone's maximum, writes the limit within it in microwatts, and
/// succeeds exactly where as many whole watts read back.
pub proof fn a_limit_is_written_in_microwatts_and_read_back(
    watts: u32,
    max: u32,
    a: Seq<Reply>,
    n: nat,
)
    requires
        8 <= max < u32::MAX,
        a.len() >= 1,
        a[0] == Ok::<Seq<char>, IoFault>(decimal((max * 1_000_000) as nat)),
        n < u32::MAX * 1_000_000,
    ensures
        ({
            let target = if watts > max {
                max
            } else if watts < 8 {
                8
            } else {
                watts
            };
            let run = power_set_run(watts, a, 0);
            &&& a.len() == 1 ==> run == Run::<Result<(), PowerFault>>::Ask(
                Op::Write(limit_path(), decimal((target * 1_000_000) as nat)),
            )
            &&& a.len() == 4 && a[1] is Ok && a[2] is Ok && a[3] == Ok::<Seq<char>, IoFault>(
                decimal(n),
            ) ==> {
                &&& run == Run::Done(Ok::<(), PowerFault>(()), 4) <==> target * 1_000_000 <= n < (
                target + 1) * 1_000_000
                &&& run != Run::Done(Ok::<(), PowerFault>(()), 4) ==> (run matches Run::Done(
                    Err(PowerFault::NotApplied { requested, observed }),
                    _,
                ) && requested == target && observed * 1_000_000 <= n < (observed + 1) * 1_000_000)
            }
        }),
{
    a_number_in_a_file_reads_as_itself(maximum_path(), (max * WATT) as nat);
    assert(whole_watts((max * WATT) as nat) == max);
    a_number_in_a_file_reads_as_itself(limit_path(), n);
}

/// The limit is read from its file where that is there, and cannot be had where it is not.
pub proof fn the_limit_is_read_from_its_file(a: Seq<Reply>)
    ensures
        a.len() == 0 ==> power_read_run(a, 0) == Run::<Result<u32, PowerFault>>::Ask(
            Op::Exists(limit_path()),
        ),
        a.len() == 1 && a[0] is Ok ==> power_read_run(a, 0) == Run::<Result<u32, PowerFault>>::Ask(
            Op::Read(limit_path()),
        ),
        a.len() >= 1 && a[0] is Err ==> power_read_run(a, 0) == Run::Done(
            Err::<u32, PowerFault>(PowerFault::Unsupported),
            1,
        ),
        a.len() >= 2 && a[0] is Ok && a[1] is Err ==> power_read_run(a, 0) == Run::Done(
            Err::<u32, PowerFault>(PowerFault::Io(a[1]->Err_0)),
            2,
        ),
{
}

}
