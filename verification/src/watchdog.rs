//! Independent watchdog over manual fan control.
//!
//! Exit hooks cover a daemon that dies. This covers one that is alive and no longer does
//! any work, with the fan at whatever duty it was last given. The heartbeat is the
//! telemetry loop, and whether the fan is held is read from hardware, not from our own
//! record: a release that did not take is found and tried again.
//!
//! Times are in milliseconds since the daemon started.

use vstd::prelude::*;
use crate::fan::{a_mode_reads_as_its_file_has_it, FanMode};
use crate::lease::{lease_mode_run, let_go, place, read_lease_mode, release_now_run, FanLease};
use crate::number::{decimal, one_place, one_place_of};
use crate::sysfs::{replies, Answer, IoFault, Op, Replay, Reply, Run, Step};
use crate::text::texts;

verus! {

/// How long the heartbeat may go unrefreshed before the fan is taken away from us: five
/// missed ticks.
pub const TIMEOUT_MS: u64 = 5_000;

/// How often to check.
pub const CHECK_INTERVAL_MS: u64 = 1_000;

#[derive(Debug, Clone, Copy, PartialEq, Eq, Structural)]
pub struct Watchdog {
    last_beat_ms: u64,
    timeout_ms: u64,
    tripped: bool,
}

/// What a check did.
#[derive(Debug, Clone, Copy, PartialEq, Eq, Structural)]
pub enum Check {
    /// Nothing was at risk.
    Fine,
    /// The fan was held with nobody minding it. Whether that is news, how long the heartbeat
    /// had been missing, and whether the EC has the fan now.
    Intervened { first: bool, silent_ms: u64, released: bool },
}

pub open spec fn elapsed(last: u64, now: u64) -> u64 {
    if now > last {
        (now - last) as u64
    } else {
        0
    }
}

/// What one check comes to: with a fresh heartbeat, or with the fan not under manual
/// control, nothing is asked of the hardware beyond who owns the fan.
pub open spec fn check_run(
    silent: u64,
    timeout: u64,
    tripped: bool,
    h: Option<Seq<char>>,
    a: Seq<Reply>,
) -> Run<Check> {
    if silent <= timeout {
        Run::Done(Check::Fine, 0)
    } else {
        match lease_mode_run(h, a, 0) {
            Run::Ask(op) => Run::Ask(op),
            Run::Done(m, q) => if m != Some(FanMode::Manual) {
                Run::Done(Check::Fine, q)
            } else {
                match release_now_run(h, a, q) {
                    Run::Ask(op) => Run::Ask(op),
                    Run::Done(released, n) => Run::Done(
                        Check::Intervened { first: !tripped, silent_ms: silent, released },
                        n,
                    ),
                }
            },
        }
    }
}

/// What to log about a check. That the fan was unminded is news once; what came of giving it
/// back is news every time.
pub open spec fn check_lines(c: Check) -> Seq<Seq<char>> {
    match c {
        Check::Fine => seq![],
        Check::Intervened { first, silent_ms, released } => (if first {
            seq![
                "WATCHDOG: no heartbeat for "@ + one_place(silent_ms as int)
                    + "s while holding the fan; returning it to the EC"@,
            ]
        } else {
            seq![]
        }) + (if released {
            seq!["WATCHDOG: fan returned to EC control"@]
        } else {
            seq!["WATCHDOG: could not return the fan to EC control; will retry"@]
        }),
    }
}

/// What to log about a check.
pub fn check_log(c: &Check) -> (r: Vec<String>)
    ensures
        texts(r@) == check_lines(*c),
{
    let mut out: Vec<String> = Vec::new();
    if let Check::Intervened { first, silent_ms, released } = c {
        if *first {
            let mut s = "WATCHDOG: no heartbeat for ".to_owned();
            s.append(one_place_of(*silent_ms).as_str());
            s.append("s while holding the fan; returning it to the EC");
            out.push(s);
        }
        if *released {
            out.push("WATCHDOG: fan returned to EC control".to_owned());
        } else {
            out.push("WATCHDOG: could not return the fan to EC control; will retry".to_owned());
        }
    }
    assert(texts(out@) =~= check_lines(*c));
    out
}

impl Watchdog {
    pub closed spec fn beat_at(self) -> u64 {
        self.last_beat_ms
    }

    pub closed spec fn limit(self) -> u64 {
        self.timeout_ms
    }

    pub closed spec fn has_tripped(self) -> bool {
        self.tripped
    }

    pub fn new() -> (r: Self)
        ensures
            r.beat_at() == 0,
            r.limit() == TIMEOUT_MS,
            r.limit() == 5_000,
            !r.has_tripped(),
    {
        Self::with_timeout(TIMEOUT_MS)
    }

    pub fn with_timeout(timeout_ms: u64) -> (r: Self)
        ensures
            r.beat_at() == 0,
            r.limit() == timeout_ms,
            !r.has_tripped(),
    {
        Self { last_beat_ms: 0, timeout_ms, tripped: false }
    }

    /// Called from the poll loop every tick.
    pub fn beat(&mut self, now_ms: u64)
        ensures
            final(self).beat_at() == now_ms,
            final(self).limit() == old(self).limit(),
            final(self).has_tripped() == old(self).has_tripped(),
    {
        self.last_beat_ms = now_ms;
    }

    pub fn since_beat(&self, now_ms: u64) -> (r: u64)
        ensures
            r == elapsed(self.beat_at(), now_ms),
    {
        if now_ms > self.last_beat_ms {
            now_ms - self.last_beat_ms
        } else {
            0
        }
    }

    /// Whether the watchdog has ever had to intervene: a trip is a bug even though the
    /// machine was protected from it.
    pub fn tripped(&self) -> (r: bool)
        ensures
            r == self.has_tripped(),
    {
        self.tripped
    }

    /// One check.
    pub fn check(
        &mut self,
        now_ms: u64,
        lease: &mut FanLease,
        hwmon: Option<&str>,
        answers: &[Answer],
    ) -> (r: Step<Check>)
        requires
            old(lease).wf(),
        ensures
            final(lease).wf(),
            final(self).beat_at() == old(self).beat_at(),
            final(self).limit() == old(self).limit(),
            match check_run(
                elapsed(old(self).beat_at(), now_ms),
                old(self).limit(),
                old(self).has_tripped(),
                place(hwmon),
                replies(answers@),
            ) {
                Run::Ask(op) => (r matches Step::Ask(o) && o@ == op) && *final(lease) == *old(
                    lease) && *final(self) == *old(self),
                Run::Done(Check::Fine, _) => r == Step::Done(Check::Fine) && *final(lease) == *old(
                    lease) && *final(self) == *old(self),
                Run::Done(c, _) => r == Step::Done(c) && final(lease).let_go_of(old(lease))
                    && final(self).has_tripped(),
            },
    {
        let silent_ms: u64 = self.since_beat(now_ms);
        if silent_ms <= self.timeout_ms {
            return Step::Done(Check::Fine);
        }
        let mut rp = Replay::new(answers);
        match read_lease_mode(hwmon, &mut rp) {
            Err(op) => Step::Ask(op),
            Ok(Some(FanMode::Manual)) => match let_go(hwmon, &mut rp) {
                Err(op) => Step::Ask(op),
                Ok(released) => {
                    let first = !self.tripped;
                    self.tripped = true;
                    lease.gave_back();
                    Step::Done(Check::Intervened { first, silent_ms, released })
                },
            },
            Ok(_) => Step::Done(Check::Fine),
        }
    }

    /// Whether manual control is to be refused because nothing would be watching the fan.
    pub fn stale(&self, now_ms: u64) -> (r: bool)
        ensures
            r == (elapsed(self.beat_at(), now_ms) > TIMEOUT_MS),
            r <==> now_ms - self.beat_at() > 5_000,
    {
        self.since_beat(now_ms) > TIMEOUT_MS
    }
}

/// While the heartbeat is fresh nothing is asked of the hardware, whoever has the fan.
pub proof fn a_fresh_heartbeat_never_trips(
    last: u64,
    now: u64,
    timeout: u64,
    tripped: bool,
    h: Option<Seq<char>>,
    a: Seq<Reply>,
)
    requires
        now <= last + timeout,
    ensures
        check_run(elapsed(last, now), timeout, tripped, h, a) == Run::Done(Check::Fine, 0),
{
}

/// A fan found under manual control with a stale heartbeat is released, however often that
/// was tried before.
pub proof fn a_stale_heartbeat_keeps_trying(
    silent: u64,
    timeout: u64,
    tripped: bool,
    h: Option<Seq<char>>,
    a: Seq<Reply>,
    q: int,
    released: bool,
    n: int,
)
    requires
        silent > timeout,
        lease_mode_run(h, a, 0) == Run::Done(Some(FanMode::Manual), q),
        release_now_run(h, a, q) == Run::Done(released, n),
    ensures
        check_run(silent, timeout, tripped, h, a) == Run::Done(
            Check::Intervened { first: !tripped, silent_ms: silent, released },
            n,
        ),
{
}

/// The time since a heartbeat is the difference of the two clock readings, and none where the
/// clock has not moved on.
pub proof fn silence_is_the_time_since_the_heartbeat(last: u64, now: u64)
    ensures
        now >= last ==> last + elapsed(last, now) == now,
        now <= last ==> elapsed(last, now) == 0,
{
}

/// With a heartbeat older than the timeout the mode decides: a fan under manual control is
/// handed back, which succeeded exactly where the mode's file then holds the EC's own mode, and
/// any other fan is left alone.
pub proof fn an_unminded_fan_is_handed_back(
    silent: u64,
    timeout: u64,
    tripped: bool,
    h: Seq<char>,
    a: Seq<Reply>,
    m: nat,
    after: nat,
)
    requires
        silent > timeout,
        a.len() >= 5,
        a[0] is Ok && a[1] is Ok && a[2] is Ok && a[3] is Ok,
        a[4] == Ok::<Seq<char>, IoFault>(decimal(m)),
        m <= u64::MAX,
        after <= u64::MAX,
    ensures
        ({
            let run = check_run(silent, timeout, tripped, Some(h), a);
            &&& m != 1 ==> run == Run::Done(Check::Fine, 5)
            &&& m == 1 && a.len() == 7 && a[5] is Ok && a[6] is Ok ==> run == Run::<Check>::Ask(
                Op::Write(h + "/pwm1_enable"@, decimal(2)),
            )
            &&& m == 1 && a.len() == 11 && a[5] is Ok && a[6] is Ok && a[8] is Ok && a[9] is Ok
                && a[10] == Ok::<Seq<char>, IoFault>(decimal(after)) ==> run == Run::Done(
                Check::Intervened { first: !tripped, silent_ms: silent, released: after == 2 },
                11,
            )
        }),
{
    a_mode_reads_as_its_file_has_it(h, a, 2, m);
    if a.len() == 11 && a[8] is Ok && a[9] is Ok && a[10] == Ok::<Seq<char>, IoFault>(
        decimal(after),
    ) {
        a_mode_reads_as_its_file_has_it(h, a, 8, after);
    }
}

}
