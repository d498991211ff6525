//! What the daemon decides when it is asked something: which profile a name means, what is
//! remembered, what a fan mode is called, and whether firmware left a limit alone.

use vstd::prelude::*;
use crate::caps::{text_of, Cap};
use crate::charge::{
    attribute,
    charge_read_run,
    charge_set_run,
    ChargeControl,
    ChargeFault,
};
use crate::curve::{curve_fault, valid_curve, Curve, CurveError, Point};
use crate::editor::{as_points, to_points};
use crate::fan::FanMode;
use crate::lease::{Applied, FanLease, Thermal};
use crate::number::{
    decimal,
    decimal_text,
    no_places,
    no_places_of,
    one_place,
    one_place_text,
};
use crate::power::{
    limit_path,
    maximum_path,
    power_read_run,
    power_set_run,
    whole_watts,
    PowerFault,
    PowerLimit,
};
use crate::profile::{
    built_in,
    choices,
    profile_fault,
    Choice,
    Ppd,
    Profile,
    ProfileError,
    ProfileFault,
};
use crate::profiles::{lookup, position};
use crate::state::{unless_empty, Remembered, State};
use crate::sysfs::{
    a_number_in_a_file_reads_as_itself,
    replies,
    Answer,
    FileOp,
    IoFault,
    Op,
    Replay,
    Reply,
    Run,
    Step,
};
use crate::telemetry::Telemetry;
use crate::text::{in_quotes, quoted, same, texts};
use crate::transport::{
    ec_replies,
    read_charge_limit,
    read_run,
    sends,
    set_charge_limit,
    set_limit_run,
    EcAnswer,
    EcFault,
    EcReply,
    EcRun,
    EcStep,
};
use crate::watchdog::{elapsed, Watchdog, TIMEOUT_MS};

verus! {

/// Outcome of re-applying a persisted limit. Whether hardware already held it says whether
/// firmware actually reset it, which no amount of unconditional writing can reveal.
#[derive(Debug, Clone, Copy, PartialEq, Eq, Structural)]
pub enum Reapply {
    /// No limit persisted; nothing to do.
    NothingPersisted,
    /// Hardware already held the persisted value.
    AlreadyCorrect,
    /// Hardware disagreed and has been corrected.
    Corrected,
    /// The attempt failed; the reason is in the log.
    Failed,
}

/// What re-applying a charge limit comes to, and what to log about it.
pub open spec fn reapply_charge_run(persisted: Option<u8>, a: Seq<Reply>) -> Run<
    (Reapply, Seq<Seq<char>>),
> {
    match persisted {
        None => Run::Done((Reapply::NothingPersisted, seq![]), 0),
        Some(limit) => match charge_read_run(a, 0) {
            Run::Ask(op) => Run::Ask(op),
            Run::Done(seen, q) => if seen == Ok::<u8, ChargeFault>(limit) {
                Run::Done(
                    (
                        Reapply::AlreadyCorrect,
                        seq!["charge limit still "@ + decimal(limit as nat) + "%; nothing to re-apply"@],
                    ),
                    q,
                )
            } else {
                let first = charge_seen_text(limit, seen);
                match charge_set_run(limit, a, q) {
                    Run::Ask(op) => Run::Ask(op),
                    Run::Done(Ok(()), n) => Run::Done(
                        (
                            Reapply::Corrected,
                            seq![first, "re-applied charge limit "@ + decimal(limit as nat) + "%"@],
                        ),
                        n,
                    ),
                    Run::Done(Err(e), n) => Run::Done(
                        (
                            Reapply::Failed,
                            seq![
                                first,
                                "could not re-apply charge limit "@ + decimal(limit as nat) + "%: "@
                                    + e.text(),
                            ],
                        ),
                        n,
                    ),
                }
            },
        },
    }
}

pub open spec fn charge_seen_text(limit: u8, seen: Result<u8, ChargeFault>) -> Seq<char> {
    match seen {
        Ok(v) => "charge limit is "@ + decimal(v as nat) + "%, expected "@ + decimal(limit as nat)
            + "%; re-applying"@,
        Err(e) => "cannot read charge limit ("@ + e.text() + "); re-applying "@ + decimal(
            limit as nat,
        ) + "% anyway"@,
    }
}

/// Re-apply the persisted charge limit, at startup and on resume.
///
/// Reads before writing, not to save a write but for what the log can then tell: whether
/// firmware disturbed anything.
pub fn reapply_charge_limit(persisted: Option<u8>, answers: &[Answer]) -> (r: Step<
    (Reapply, Vec<String>),
>)
    ensures
        match reapply_charge_run(persisted, replies(answers@)) {
            Run::Ask(op) => r matches Step::Ask(o) && o@ == op,
            Run::Done(x, _) => r matches Step::Done(v) && v.0 == x.0 && texts(v.1@) == x.1,
        },
{
    let mut log: Vec<String> = Vec::new();
    assert(texts(log@) =~= seq![]);
    let limit: u8 = match persisted {
        None => {
            return Step::Done((Reapply::NothingPersisted, log));
        },
        Some(l) => l,
    };
    let shown = decimal_text(limit as u64);
    let cc = ChargeControl::new();
    let mut rp = Replay::new(answers);
    let mut line = "charge limit is ".to_owned();
    match cc.read_limit(&mut rp) {
        Err(op) => {
            return Step::Ask(op);
        },
        Ok(Ok(observed)) => {
            if observed == limit {
                let mut line = "charge limit still ".to_owned();
                line.append(shown.as_str());
                line.append("%; nothing to re-apply");
                log.push(line);
                assert(texts(log@) =~= seq![line@]);
                return Step::Done((Reapply::AlreadyCorrect, log));
            }
            line.append(decimal_text(observed as u64).as_str());
            line.append("%, expected ");
            line.append(shown.as_str());
            line.append("%; re-applying");
        },
        Ok(Err(e)) => {
            line = "cannot read charge limit (".to_owned();
            line.append(e.text().as_str());
            line.append("); re-applying ");
            line.append(shown.as_str());
            line.append("% anyway");
        },
    }
    log.push(line);
    match cc.set_with(limit, &mut rp) {
        Err(op) => Step::Ask(op),
        Ok(Ok(())) => {
            let mut done = "re-applied charge limit ".to_owned();
            done.append(shown.as_str());
            done.append("%");
            log.push(done);
            assert(texts(log@) =~= seq![line@, done@]);
            Step::Done((Reapply::Corrected, log))
        },
        Ok(Err(e)) => {
            let mut done = "could not re-apply charge limit ".to_owned();
            done.append(shown.as_str());
            done.append("%: ");
            done.append(e.text().as_str());
            log.push(done);
            assert(texts(log@) =~= seq![line@, done@]);
            Step::Done((Reapply::Failed, log))
        },
    }
}

/// What re-applying a charge limit over the EC comes to, and what to log about it: read, and
/// set where it is another.
pub open spec fn reapply_ec_run(persisted: Option<u8>, a: Seq<EcReply>) -> EcRun<
    (Reapply, Seq<Seq<char>>),
> {
    match persisted {
        None => EcRun::Done((Reapply::NothingPersisted, seq![]), 0),
        Some(limit) => match read_run(a) {
            EcRun::Send(c) => EcRun::Send(c),
            EcRun::Done(seen, q) => if seen == Ok::<u8, EcFault>(limit) {
                EcRun::Done(
                    (
                        Reapply::AlreadyCorrect,
                        seq!["charge limit still "@ + decimal(limit as nat) + "%; nothing to re-apply"@],
                    ),
                    q,
                )
            } else {
                let first = ec_seen_text(limit, seen);
                match set_limit_run(limit, a.skip(q)) {
                    EcRun::Send(c) => EcRun::Send(c),
                    EcRun::Done(Ok(()), n) => EcRun::Done(
                        (
                            Reapply::Corrected,
                            seq![first, "re-applied charge limit "@ + decimal(limit as nat) + "%"@],
                        ),
                        q + n,
                    ),
                    EcRun::Done(Err(e), n) => EcRun::Done(
                        (
                            Reapply::Failed,
                            seq![
                                first,
                                "could not re-apply charge limit "@ + decimal(limit as nat) + "%: "@
                                    + e.text(),
                            ],
                        ),
                        q + n,
                    ),
                }
            },
        },
    }
}

pub open spec fn ec_seen_text(limit: u8, seen: Result<u8, EcFault>) -> Seq<char> {
    match seen {
        Ok(v) => "charge limit is "@ + decimal(v as nat) + "%, expected "@ + decimal(limit as nat)
            + "%; re-applying"@,
        Err(e) => "cannot read charge limit ("@ + e.text() + "); re-applying "@ + decimal(
            limit as nat,
        ) + "% anyway"@,
    }
}

/// Re-apply the persisted charge limit where the EC itself is asked. Once corrected there is
/// the mirror in the kernel's threshold left to write, best-effort.
pub fn reapply_ec_charge_limit(persisted: Option<u8>, answers: &[EcAnswer]) -> (r: EcStep<
    (Reapply, Vec<String>, Option<FileOp>),
>)
    ensures
        match reapply_ec_run(persisted, ec_replies(answers@)) {
            EcRun::Send(c) => sends(r, c),
            EcRun::Done(x, _) => r matches EcStep::Done(v) && v.0 == x.0 && texts(v.1@) == x.1 && (
            match v.2 {
                Some(op) => x.0 == Reapply::Corrected && op@ == Op::Write(
                    attribute(),
                    decimal(persisted->0 as nat),
                ),
                None => x.0 != Reapply::Corrected,
            }),
        },
{
    let mut log: Vec<String> = Vec::new();
    assert(texts(log@) =~= seq![]);
    let limit: u8 = match persisted {
        None => {
            return EcStep::Done((Reapply::NothingPersisted, log, None));
        },
        Some(l) => l,
    };
    let shown = decimal_text(limit as u64);
    let mut line = "charge limit is ".to_owned();
    match read_charge_limit(answers) {
        EcStep::Send { command, version, out, insize } => {
            return EcStep::Send { command, version, out, insize };
        },
        EcStep::Done(Ok(observed)) => {
            if observed == limit {
                let mut line = "charge limit still ".to_owned();
                line.append(shown.as_str());
                line.append("%; nothing to re-apply");
                log.push(line);
                assert(texts(log@) =~= seq![line@]);
                return EcStep::Done((Reapply::AlreadyCorrect, log, None));
            }
            line.append(decimal_text(observed as u64).as_str());
            line.append("%, expected ");
            line.append(shown.as_str());
            line.append("%; re-applying");
        },
        EcStep::Done(Err(e)) => {
            line = "cannot read charge limit (".to_owned();
            line.append(e.text().as_str());
            line.append("); re-applying ");
            line.append(shown.as_str());
            line.append("% anyway");
        },
    }
    log.push(line);
    let rest = vstd::slice::slice_subrange(answers, 1, answers.len());
    assert(ec_replies(rest@) =~= ec_replies(answers@).skip(1));
    match set_charge_limit(limit, rest) {
        EcStep::Send { command, version, out, insize } => EcStep::Send {
            command,
            version,
            out,
            insize,
        },
        EcStep::Done(Ok(op)) => {
            let mut done = "re-applied charge limit ".to_owned();
            done.append(shown.as_str());
            done.append("%");
            log.push(done);
            assert(texts(log@) =~= seq![line@, done@]);
            EcStep::Done((Reapply::Corrected, log, Some(op)))
        },
        EcStep::Done(Err(e)) => {
            let mut done = "could not re-apply charge limit ".to_owned();
            done.append(shown.as_str());
            done.append("%: ");
            done.append(e.text().as_str());
            log.push(done);
            assert(texts(log@) =~= seq![line@, done@]);
            EcStep::Done((Reapply::Failed, log, None))
        },
    }
}

/// What re-applying a power limit comes to, and what to log about it.
pub open spec fn reapply_power_run(persisted: Option<u32>, a: Seq<Reply>) -> Run<
    (Reapply, Seq<Seq<char>>),
> {
    match persisted {
        None => Run::Done((Reapply::NothingPersisted, seq![]), 0),
        Some(watts) => match power_read_run(a, 0) {
            Run::Ask(op) => Run::Ask(op),
            Run::Done(seen, q) => if seen == Ok::<u32, PowerFault>(watts) {
                Run::Done(
                    (
                        Reapply::AlreadyCorrect,
                        seq!["power limit still "@ + decimal(watts as nat) + " W; nothing to re-apply"@],
                    ),
                    q,
                )
            } else {
                let first = power_seen_text(watts, seen);
                match power_set_run(watts, a, q) {
                    Run::Ask(op) => Run::Ask(op),
                    Run::Done(Ok(()), n) => Run::Done(
                        (
                            Reapply::Corrected,
                            seq![first, "re-applied power limit "@ + decimal(watts as nat) + " W"@],
                        ),
                        n,
                    ),
                    Run::Done(Err(e), n) => Run::Done(
                        (
                            Reapply::Failed,
                            seq![
                                first,
                                "could not re-apply power limit "@ + decimal(watts as nat) + " W: "@
                                    + e.text(),
                            ],
                        ),
                        n,
                    ),
                }
            },
        },
    }
}

pub open spec fn power_seen_text(watts: u32, seen: Result<u32, PowerFault>) -> Seq<char> {
    match seen {
        Ok(v) => "power limit is "@ + decimal(v as nat) + " W, expected "@ + decimal(watts as nat)
            + " W; re-applying"@,
        Err(e) => "cannot read power limit ("@ + e.text() + "); re-applying "@ + decimal(
            watts as nat,
        ) + " W anyway"@,
    }
}

/// Re-apply the persisted power limit, reading before writing for the same reason.
pub fn reapply_power_limit(persisted: Option<u32>, answers: &[Answer]) -> (r: Step<
    (Reapply, Vec<String>),
>)
    ensures
        match reapply_power_run(persisted, replies(answers@)) {
            Run::Ask(op) => r matches Step::Ask(o) && o@ == op,
            Run::Done(x, _) => r matches Step::Done(v) && v.0 == x.0 && texts(v.1@) == x.1,
        },
{
    let mut log: Vec<String> = Vec::new();
    assert(texts(log@) =~= seq![]);
    let watts: u32 = match persisted {
        None => {
            return Step::Done((Reapply::NothingPersisted, log));
        },
        Some(w) => w,
    };
    let shown = decimal_text(watts as u64);
    let pl = PowerLimit::new();
    let mut rp = Replay::new(answers);
    let mut line = "power limit is ".to_owned();
    match pl.read_limit(&mut rp) {
        Err(op) => {
            return Step::Ask(op);
        },
        Ok(Ok(observed)) => {
            if observed == watts {
                let mut line = "power limit still ".to_owned();
                line.append(shown.as_str());
                line.append(" W; nothing to re-apply");
                log.push(line);
                assert(texts(log@) =~= seq![line@]);
                return Step::Done((Reapply::AlreadyCorrect, log));
            }
            line.append(decimal_text(observed as u64).as_str());
            line.append(" W, expected ");
            line.append(shown.as_str());
            line.append(" W; re-applying");
        },
        Ok(Err(e)) => {
            line = "cannot read power limit (".to_owned();
            line.append(e.text().as_str());
            line.append("); re-applying ");
            line.append(shown.as_str());
            line.append(" W anyway");
        },
    }
    log.push(line);
    match pl.set_with(watts, &mut rp) {
        Err(op) => Step::Ask(op),
        Ok(Ok(())) => {
            let mut done = "re-applied power limit ".to_owned();
            done.append(shown.as_str());
            done.append(" W");
            log.push(done);
            assert(texts(log@) =~= seq![line@, done@]);
            Step::Done((Reapply::Corrected, log))
        },
        Ok(Err(e)) => {
            let mut done = "could not re-apply power limit ".to_owned();
            done.append(shown.as_str());
            done.append(" W: ");
            done.append(e.text().as_str());
            log.push(done);
            assert(texts(log@) =~= seq![line@, done@]);
            Step::Done((Reapply::Failed, log))
        },
    }
}

/// What holding the zone to the desired limit comes to: the desired and the observed one
/// where something was corrected.
pub open spec fn enforce_power_run(desired: Option<u32>, a: Seq<Reply>) -> Run<
    Option<(u32, u32)>,
> {
    match desired {
        None => Run::Done(None, 0),
        Some(watts) => match power_read_run(a, 0) {
            Run::Ask(op) => Run::Ask(op),
            Run::Done(Err(_), q) => Run::Done(None, q),
            Run::Done(Ok(seen), q) => if seen == watts {
                Run::Done(None, q)
            } else {
                match power_set_run(watts, a, q) {
                    Run::Ask(op) => Run::Ask(op),
                    Run::Done(Ok(()), n) => Run::Done(Some((watts, seen)), n),
                    Run::Done(Err(_), n) => Run::Done(None, n),
                }
            },
        },
    }
}

/// Re-assert the power limit if something moved it. A verified write can still not stick:
/// switching platform profile makes firmware derive the limit anew, later.
pub fn enforce_power_limit(desired: Option<u32>, answers: &[Answer]) -> (r: Step<
    Option<(u32, u32)>,
>)
    ensures
        match enforce_power_run(desired, replies(answers@)) {
            Run::Ask(op) => r matches Step::Ask(o) && o@ == op,
            Run::Done(x, _) => r == Step::Done(x),
        },
{
    let watts: u32 = match desired {
        None => {
            return Step::Done(None);
        },
        Some(w) => w,
    };
    let pl = PowerLimit::new();
    let mut rp = Replay::new(answers);
    let observed: u32 = match pl.read_limit(&mut rp) {
        Err(op) => {
            return Step::Ask(op);
        },
        Ok(Err(_)) => {
            return Step::Done(None);
        },
        Ok(Ok(v)) => v,
    };
    if observed == watts {
        return Step::Done(None);
    }
    match pl.set_with(watts, &mut rp) {
        Err(op) => Step::Ask(op),
        Ok(Ok(())) => Step::Done(Some((watts, observed))),
        Ok(Err(_)) => Step::Done(None),
    }
}

/// Names with commas between them.
pub open spec fn comma_list(s: Seq<Choice>) -> Seq<char>
    decreases s.len(),
{
    if s.len() == 0 {
        seq![]
    } else if s.len() == 1 {
        s[0].name
    } else {
        comma_list(s.drop_last()) + ", "@ + s.last().name
    }
}

fn known_names(known: &Vec<Profile>) -> (r: String)
    ensures
        r@ == comma_list(choices(known@)),
{
    let ghost all = choices(known@);
    let mut out = String::new();
    let mut i: usize = 0;
    assert(all.take(0) =~= seq![]);
    assert(out@ =~= seq![]);
    while i < known.len()
        invariant
            i <= known@.len(),
            all == choices(known@),
            out@ == comma_list(all.take(i as int)),
        decreases known@.len() - i,
    {
        let ghost next = all.take(i + 1);
        assert(next.drop_last() =~= all.take(i as int));
        if i > 0 {
            out.append(", ");
        }
        out.append(known[i].name.as_str());
        proof {
            if i == 0 {
                assert(out@ =~= known@[0].name@);
                assert(next[0] == all[0]);
            }
        }
        i = i + 1;
    }
    assert(all.take(i as int) =~= all);
    out
}

/// Look a profile up, or say what does exist.
pub fn by_name(known: &Vec<Profile>, name: &str) -> (r: Result<Profile, String>)
    ensures
        match lookup(choices(known@), name@) {
            Some(p) => r matches Ok(x) && x@ == p,
            None => r matches Err(e) && e@ == "no profile "@ + in_quotes(name@)
                + "; known profiles are "@ + comma_list(choices(known@)),
        },
{
    match position(known, name) {
        Some(i) => Ok(known[i].clone()),
        None => {
            let mut s = "no profile ".to_owned();
            s.append(quoted(name).as_str());
            s.append("; known profiles are ");
            s.append(known_names(known).as_str());
            Err(s)
        },
    }
}

/// The names of the known profiles.
pub fn names(known: &Vec<Profile>) -> (r: Vec<String>)
    ensures
        texts(r@) == choices(known@).map_values(|p: Choice| p.name),
{
    let mut out: Vec<String> = Vec::new();
    let mut i: usize = 0;
    while i < known.len()
        invariant
            i <= known@.len(),
            out@.len() == i,
            forall|j: int| 0 <= j < i ==> (#[trigger] out@[j])@ == known@[j].name@,
        decreases known@.len() - i,
    {
        out.push(known[i].name.clone());
        i = i + 1;
    }
    assert(texts(out@) =~= choices(known@).map_values(|p: Choice| p.name));
    out
}

/// The profiles without one of this name; where that had replaced a built-in, the built-in
/// comes back.
pub open spec fn without(s: Seq<Choice>, name: Seq<char>) -> Seq<Choice> {
    s.filter(|p: Choice| p.name != name) + crate::profile::built_in_choices().filter(
        |p: Choice| p.name == name,
    )
}

/// Forget a profile whose file was deleted.
pub fn forget(known: Vec<Profile>, name: &str) -> (r: Vec<Profile>)
    ensures
        choices(r@) == without(choices(known@), name@),
{
    let ghost all = choices(known@);
    let ghost keep = |p: Choice| p.name != name@;
    let mut out: Vec<Profile> = Vec::new();
    let mut i: usize = 0;
    assert(all.take(0) =~= seq![]);
    assert(choices(out@) =~= all.take(0).filter(keep));
    while i < known.len()
        invariant
            i <= known@.len(),
            all == choices(known@),
            keep == (|p: Choice| p.name != name@),
            choices(out@) == all.take(i as int).filter(keep),
        decreases known@.len() - i,
    {
        let ghost had = out@;
        proof {
            lemma_filter_next(all, keep, i as int);
        }
        if !same(known[i].name.as_str(), name) {
            let p = known[i].clone();
            out.push(p);
            assert(choices(out@) =~= choices(had).push(p@));
        }
        i = i + 1;
    }
    assert(all.take(i as int) =~= all);
    let built = Profile::built_ins();
    let ghost own = choices(built@);
    let ghost back = |p: Choice| p.name == name@;
    let ghost kept = choices(out@);
    let mut k: usize = 0;
    assert(own.take(0) =~= seq![]);
    assert(choices(out@) =~= kept + own.take(0).filter(back));
    while k < built.len()
        invariant
            k <= built@.len(),
            own == choices(built@),
            back == (|p: Choice| p.name == name@),
            choices(out@) == kept + own.take(k as int).filter(back),
        decreases built@.len() - k,
    {
        let ghost had = out@;
        proof {
            lemma_filter_next(own, back, k as int);
        }
        if same(built[k].name.as_str(), name) {
            let p = built[k].clone();
            out.push(p);
            assert(choices(out@) =~= choices(had).push(p@));
            assert(choices(out@) =~= kept + own.take(k as int).filter(back).push(own[k as int]));
        }
        k = k + 1;
    }
    assert(own.take(k as int) =~= own);
    out
}

proof fn lemma_filter_next(s: Seq<Choice>, f: spec_fn(Choice) -> bool, i: int)
    requires
        0 <= i < s.len(),
    ensures
        s.take(i + 1).filter(f) == (if f(s[i]) {
            s.take(i).filter(f).push(s[i])
        } else {
            s.take(i).filter(f)
        }),
{
    reveal(Seq::filter);
    assert(s.take(i + 1).drop_last() =~= s.take(i));
    assert(s.take(i + 1).last() == s[i]);
}

/// The profile matching whatever PPD has active: the one we applied while PPD still agrees
/// with it, else the canonical one. Empty when unknown.
pub open spec fn active(
    known: Seq<Choice>,
    applied: Option<Seq<char>>,
    ppd: Option<Ppd>,
) -> Seq<char> {
    match ppd {
        None => seq![],
        Some(p) => match applied {
            Some(name) if exists|i: int|
                0 <= i < known.len() && (#[trigger] known[i]).name == name && known[i].ppd == p => name,
            _ => built_in(p).name,
        },
    }
}

/// The profile to report as active.
pub fn active_profile(known: &Vec<Profile>, applied: Option<&str>, ppd: Option<Ppd>) -> (r: String)
    ensures
        r@ == active(
            choices(known@),
            match applied {
                Some(s) => Some(s@),
                None => None,
            },
            ppd,
        ),
{
    let p: Ppd = match ppd {
        None => {
            let out = String::new();
            assert(out@ =~= seq![]);
            return out;
        },
        Some(p) => p,
    };
    let ghost all = choices(known@);
    if let Some(name) = applied {
        let mut i: usize = 0;
        while i < known.len()
            invariant
                i <= known@.len(),
                all == choices(known@),
                ppd == Some(p),
                applied == Some(name),
                forall|j: int|
                    0 <= j < i ==> !((#[trigger] all[j]).name == name@ && all[j].ppd == p),
            decreases known@.len() - i,
        {
            if same(known[i].name.as_str(), name) && known[i].ppd == p {
                assert(all[i as int].name == name@ && all[i as int].ppd == p);
                return name.to_owned();
            }
            i = i + 1;
        }
    }
    Profile::canonical_name_for(p).to_owned()
}

/// What the fan's mode is called on the bus: `auto`, `manual`, `curve`, or `unavailable` where
/// nobody can tell. A duty somebody chose and a rule that keeps choosing are
/// both ours, and mean different things.
pub open spec fn fan_mode_text(mode: Option<FanMode>, curve: bool) -> Seq<char> {
    match mode {
        Some(FanMode::Auto) => "auto"@,
        Some(FanMode::Manual) if curve => "curve"@,
        Some(m) => m.spec_text(),
        None => "unavailable"@,
    }
}

pub fn fan_mode(mode: Option<FanMode>, curve_active: bool) -> (r: String)
    ensures
        r@ == fan_mode_text(mode, curve_active),
{
    match mode {
        Some(FanMode::Auto) => "auto".to_owned(),
        Some(FanMode::Manual) if curve_active => "curve".to_owned(),
        Some(m) => m.text(),
        None => "unavailable".to_owned(),
    }
}

/// The lowest duty permitted right now; full duty where no temperature can be read.
pub fn fan_floor(lease: &FanLease, thermal: Thermal) -> (r: u8)
    requires
        lease.wf(),
    ensures
        r == (match thermal.celsius {
            Some(_) => lease.demand(thermal),
            None => u8::MAX as int,
        }),
{
    match thermal.celsius {
        None => u8::MAX,
        Some(_) => {
            let a: u8 = lease.floor_duty(thermal.celsius);
            let b: u8 = thermal.battery_floor_public();
            if a > b {
                a
            } else {
                b
            }
        },
    }
}

/// Why manual control is refused when the heartbeat is stale.
pub open spec fn stale_text(since_ms: u64, curve: bool) -> Seq<char> {
    if curve {
        "refusing fan control: this daemon's telemetry loop has not run for "@ + no_places(
            since_ms as int,
        ) + "s, so nothing would be following the curve. Restart fw-helperd"@
    } else {
        "refusing manual fan control: this daemon's telemetry loop has not run for "@ + no_places(
            since_ms as int,
        ) + "s, so nothing would be watching the fan. Restart fw-helperd"@
    }
}

/// Why manual control is refused when the heartbeat is stale.
pub fn stale_refusal(since_ms: u64, curve: bool) -> (r: String)
    ensures
        r@ == stale_text(since_ms, curve),
{
    let secs = no_places_of(since_ms);
    if curve {
        let mut s =
            "refusing fan control: this daemon's telemetry loop has not run for ".to_owned();
        s.append(secs.as_str());
        s.append("s, so nothing would be following the curve. Restart fw-helperd");
        s
    } else {
        let mut s =
            "refusing manual fan control: this daemon's telemetry loop has not run for ".to_owned();
        s.append(secs.as_str());
        s.append("s, so nothing would be watching the fan. Restart fw-helperd");
        s
    }
}

/// Why a request for the fan goes no further, before anybody is asked to authorize it.
#[derive(Debug, Clone, PartialEq, Eq)]
pub enum Refusal {
    /// This machine cannot do it; the capability's reason.
    NotSupported(String),
    /// Nobody would be minding the fan.
    Unminded(String),
}

/// Whether a request for the fan is refused out of hand. What the machine cannot do comes
/// first: its reason is more useful than any other, and nobody should type a password for
/// it.
pub fn refuse_fan(cap: &Cap, watchdog: &Watchdog, now_ms: u64, curve: bool) -> (r: Option<Refusal>)
    ensures
        match cap@ {
            Some(reason) => r matches Some(Refusal::NotSupported(t)) && t@ == reason,
            None => {
                let since = elapsed(watchdog.beat_at(), now_ms);
                if since > TIMEOUT_MS {
                    r matches Some(Refusal::Unminded(t)) && t@ == stale_text(since, curve)
                } else {
                    r is None
                }
            },
        },
{
    match cap {
        Cap::No(reason) => Some(Refusal::NotSupported(reason.clone())),
        Cap::Yes => if watchdog.stale(now_ms) {
            Some(Refusal::Unminded(stale_refusal(watchdog.since_beat(now_ms), curve)))
        } else {
            None
        },
    }
}

/// What to log once a duty was set for somebody.
pub open spec fn duty_line(a: Applied, sender: Seq<char>, celsius: Option<i64>) -> Seq<char> {
    if a.target > a.requested {
        "fan: "@ + sender + " asked for duty "@ + decimal(a.requested as nat)
            + "/255; raised to "@ + decimal(a.settled as nat)
            + " to stay at or above the firmware floor ("@ + decimal(a.floor as nat) + "/255 at "@
            + (match celsius {
            Some(c) => one_place(c as int),
            None => "NaN"@,
        }) + " C)"@
    } else {
        "fan set to duty "@ + decimal(a.settled as nat) + "/255 by "@ + sender
    }
}

/// What to log once a duty was set for somebody.
pub fn duty_text(a: &Applied, sender: &str, celsius: Option<i64>) -> (r: String)
    ensures
        r@ == duty_line(*a, sender@, celsius),
{
    if a.clamped() {
        let mut s = "fan: ".to_owned();
        s.append(sender);
        s.append(" asked for duty ");
        s.append(decimal_text(a.requested as u64).as_str());
        s.append("/255; raised to ");
        s.append(decimal_text(a.settled as u64).as_str());
        s.append(" to stay at or above the firmware floor (");
        s.append(decimal_text(a.floor as u64).as_str());
        s.append("/255 at ");
        match celsius {
            Some(c) => {
                s.append(one_place_text(c).as_str());
            },
            None => {
                s.append("NaN");
            },
        }
        s.append(" C)");
        s
    } else {
        let mut s = "fan set to duty ".to_owned();
        s.append(decimal_text(a.settled as u64).as_str());
        s.append("/255 by ");
        s.append(sender);
        s
    }
}

/// Why what the machine is set to now makes no profile.
#[derive(Debug, Clone, PartialEq, Eq)]
pub enum CaptureError {
    /// The curve that runs is none.
    Curve(CurveError),
    /// The profile does not validate.
    Profile(ProfileError),
}

/// What a [`CaptureError`] says.
pub enum CaptureFault {
    Curve(CurveError),
    Profile(ProfileFault),
}

impl View for CaptureError {
    type V = CaptureFault;

    open spec fn view(&self) -> CaptureFault {
        match *self {
            CaptureError::Curve(e) => CaptureFault::Curve(e),
            CaptureError::Profile(e) => CaptureFault::Profile(e@),
        }
    }
}

impl CaptureFault {
    pub open spec fn text(self) -> Seq<char> {
        match self {
            CaptureFault::Curve(e) => e.spec_text(),
            CaptureFault::Profile(e) => e.text(),
        }
    }
}

impl CaptureError {
    pub fn text(&self) -> (r: String)
        ensures
            r@ == self@.text(),
    {
        match self {
            CaptureError::Curve(e) => e.text(),
            CaptureError::Profile(e) => e.text(),
        }
    }
}

/// The curve of whichever profile is active: the built-in's only where no known profile is.
pub open spec fn active_curve(
    known: Seq<Choice>,
    applied: Option<Seq<char>>,
    ppd: Ppd,
) -> Seq<Point> {
    match lookup(known, active(known, applied, Some(ppd))) {
        Some(p) => p.curve,
        None => built_in(ppd).curve,
    }
}

/// What the machine is set to now, as a profile: the curve that runs, or the active
/// profile's where none does. A charge limit is a standing preference and is not captured.
pub open spec fn captured(
    name: Seq<char>,
    ppd: Ppd,
    watts: u32,
    running: Option<Seq<(i64, u8)>>,
    known: Seq<Choice>,
    applied: Option<Seq<char>>,
) -> Result<Choice, CaptureFault> {
    let points = match running {
        Some(s) if s.len() > 0 => as_points(s),
        _ => active_curve(known, applied, ppd),
    };
    let p = Choice { name, ppd, pl1_watts: watts, curve: points, charge_limit: None };
    match curve_fault(points) {
        Some(e) => Err(CaptureFault::Curve(e)),
        None => match profile_fault(p) {
            Some(e) => Err(CaptureFault::Profile(e)),
            None => Ok(p),
        },
    }
}

fn curve_of_active(known: &Vec<Profile>, applied: Option<&str>, ppd: Ppd) -> (r: Curve)
    ensures
        r@ == active_curve(
            choices(known@),
            match applied {
                Some(s) => Some(s@),
                None => None,
            },
            ppd,
        ),
        valid_curve(r@),
{
    let name = active_profile(known, applied, Some(ppd));
    let curve = match position(known, name.as_str()) {
        Some(i) => known[i].curve.clone(),
        None => Profile::for_ppd(ppd).curve,
    };
    let points = curve.points();
    assert(valid_curve(points@));
    curve
}

/// Capture what the machine is set to now as a profile. `applied` is the profile that was
/// applied last.
pub fn capture(
    name: &str,
    ppd: Ppd,
    watts: u32,
    running: Option<Vec<(i64, u8)>>,
    known: &Vec<Profile>,
    applied: Option<&str>,
) -> (r: Result<Profile, CaptureError>)
    ensures
        match captured(
            name@,
            ppd,
            watts,
            match running {
                Some(v) => Some(v@),
                None => None,
            },
            choices(known@),
            match applied {
                Some(s) => Some(s@),
                None => None,
            },
        ) {
            Ok(p) => r matches Ok(x) && x@ == p,
            Err(e) => r matches Err(x) && x@ == e,
        },
{
    let curve = match running {
        Some(v) => if v.len() > 0 {
            let points = to_points(v.as_slice());
            proof {
                crate::curve::a_curve_without_a_fault_is_valid(points@);
            }
            match Curve::new(points) {
                Ok(c) => c,
                Err(e) => {
                    return Err(CaptureError::Curve(e));
                },
            }
        } else {
            curve_of_active(known, applied, ppd)
        },
        None => curve_of_active(known, applied, ppd),
    };
    proof {
        crate::curve::a_curve_without_a_fault_is_valid(curve@);
    }
    let profile = Profile {
        name: name.to_owned(),
        ppd,
        pl1_watts: watts,
        curve,
        charge_limit: None,
    };
    match profile.validate() {
        Ok(()) => Ok(profile),
        Err(e) => Err(CaptureError::Profile(e)),
    }
}

/// Saving while a profile is active and no curve runs saves that profile's curve, also where
/// it is a user's own, or replaces a built-in.
pub proof fn an_active_profile_lends_its_curve(
    known: Seq<Choice>,
    p: Choice,
    name: Seq<char>,
    watts: u32,
)
    requires
        lookup(known, p.name) == Some(p),
    ensures
        captured(name, p.ppd, watts, None, known, Some(p.name)) matches Ok(c) ==> c.curve == p.curve,
        valid_curve(p.curve) ==> !(captured(
            name,
            p.ppd,
            watts,
            None,
            known,
            Some(p.name),
        ) matches Err(CaptureFault::Curve(_))),
{
    crate::profiles::lookup_finds(known, p.name);
    crate::curve::a_curve_without_a_fault_is_valid(p.curve);
}

fn same_pairs(a: &Vec<(i64, u8)>, b: &Vec<(i64, u8)>) -> (r: bool)
    ensures
        r == (a@ == b@),
{
    if a.len() != b.len() {
        return false;
    }
    let mut i: usize = 0;
    while i < a.len()
        invariant
            i <= a@.len(),
            a@.len() == b@.len(),
            forall|j: int| 0 <= j < i ==> a@[j] == b@[j],
        decreases a@.len() - i,
    {
        if a[i].0 != b[i].0 || a[i].1 != b[i].1 {
            assert(a@[i as int] != b@[i as int]);
            return false;
        }
        i = i + 1;
    }
    assert(a@ =~= b@);
    true
}

impl State {
    /// Record which profile is active and what power budget it wants; whether that is news.
    ///
    /// Every path that applies a profile must come here: a budget that was not recorded is
    /// the stale one that enforcement would dutifully restore.
    pub fn record_profile(&mut self, name: &str, watts: u32) -> (r: bool)
        ensures
            final(self)@ == (Remembered {
                profile: Some(name@),
                power_limit: Some(watts),
                ..old(self)@
            }),
            r == !(old(self)@.profile == Some(name@) && old(self)@.power_limit == Some(watts)),
    {
        let known = match (&self.profile, self.power_limit) {
            (Some(p), Some(w)) => w == watts && same(p.as_str(), name),
            _ => false,
        };
        if known {
            return false;
        }
        self.profile = Some(name.to_owned());
        self.power_limit = Some(watts);
        true
    }

    /// Record the learned firmware floor; whether that is news.
    pub fn record_floor(&mut self, observations: Vec<(i64, u8)>) -> (r: bool)
        ensures
            final(self)@ == (Remembered { floor: observations@, ..old(self)@ }),
            r == (old(self)@.floor != observations@),
    {
        if same_pairs(&self.floor, &observations) {
            return false;
        }
        self.floor = observations;
        true
    }

    /// The profile configured for a power source, if any.
    pub fn auto_profile_for(&self, on_ac: bool) -> (r: Option<String>)
        ensures
            text_of(r) == (if on_ac {
                self@.profile_on_ac
            } else {
                self@.profile_on_battery
            }),
    {
        let which = if on_ac {
            &self.profile_on_ac
        } else {
            &self.profile_on_battery
        };
        match which {
            Some(s) => Some(s.clone()),
            None => None,
        }
    }

    /// Choose what to apply when the power source changes. An empty name leaves that source
    /// alone; any other has to be known.
    pub fn set_auto_profiles(&mut self, known: &Vec<Profile>, on_ac: &str, on_battery: &str) -> (r:
        Result<(), String>)
        ensures
            match r {
                Ok(()) => known_or_empty(choices(known@), on_ac@) && known_or_empty(
                    choices(known@),
                    on_battery@,
                ) && final(self)@ == (Remembered {
                    profile_on_ac: unless_empty(on_ac@),
                    profile_on_battery: unless_empty(on_battery@),
                    ..old(self)@
                }),
                Err(e) => !(known_or_empty(choices(known@), on_ac@) && known_or_empty(
                    choices(known@),
                    on_battery@,
                )) && *final(self) == *old(self) && e@ == unknown_text(
                    known@,
                    if known_or_empty(choices(known@), on_ac@) {
                        on_battery@
                    } else {
                        on_ac@
                    },
                ),
            },
    {
        if on_ac.unicode_len() > 0 {
            if let Err(e) = by_name(known, on_ac) {
                return Err(e);
            }
        }
        if on_battery.unicode_len() > 0 {
            if let Err(e) = by_name(known, on_battery) {
                return Err(e);
            }
        }
        self.profile_on_ac = optional(on_ac);
        self.profile_on_battery = optional(on_battery);
        Ok(())
    }
}

pub open spec fn unknown_text(known: Seq<Profile>, name: Seq<char>) -> Seq<char> {
    "no profile "@ + in_quotes(name) + "; known profiles are "@ + comma_list(choices(known))
}

/// Whether a name is empty or that of a known profile.
pub open spec fn known_or_empty(known: Seq<Choice>, name: Seq<char>) -> bool {
    name.len() == 0 || lookup(known, name) is Some
}

fn optional(s: &str) -> (r: Option<String>)
    ensures
        text_of(r) == unless_empty(s@),
{
    if s.unicode_len() == 0 {
        None
    } else {
        Some(s.to_owned())
    }
}

fn same_text(a: &Option<String>, b: &Option<String>) -> (r: bool)
    ensures
        r == (text_of(*a) == text_of(*b)),
{
    match (a, b) {
        (Some(x), Some(y)) => same(x.as_str(), y.as_str()),
        (None, None) => true,
        _ => false,
    }
}

impl Telemetry {
    /// Whether two samples say the same, so that a change is announced only when there is
    /// something to say.
    pub fn same_as(&self, other: &Telemetry) -> (r: bool)
        ensures
            r == (self@ == other@),
    {
        if self.temps.len() != other.temps.len() {
            assert(self@.temps.len() != other@.temps.len());
            return false;
        }
        let mut i: usize = 0;
        while i < self.temps.len()
            invariant
                i <= self.temps@.len(),
                self.temps@.len() == other.temps@.len(),
                forall|j: int| 0 <= j < i ==> (#[trigger] self@.temps[j]) == other@.temps[j],
            decreases self.temps@.len() - i,
        {
            let (a, b) = (&self.temps[i], &other.temps[i]);
            if !same(a.label.as_str(), b.label.as_str()) || a.celsius != b.celsius || a.critical
                != b.critical {
                assert(self@.temps[i as int] != other@.temps[i as int]);
                return false;
            }
            i = i + 1;
        }
        assert(self@.temps =~= other@.temps);
        self.fan_rpm == other.fan_rpm && self.package_watts == other.package_watts
            && self.package_watts_floor == other.package_watts_floor && self.battery_percent
            == other.battery_percent && same_text(&self.battery_status, &other.battery_status)
            && same_text(&self.platform_profile, &other.platform_profile) && self.system_watts
            == other.system_watts && self.battery_minutes == other.battery_minutes && self.on_ac
            == other.on_ac
    }
}

/// A limit that hardware already holds is left alone: nothing is written.
pub proof fn a_limit_that_held_is_not_written(limit: u8, a: Seq<Reply>, n: int)
    requires
        charge_read_run(a, 0) == Run::Done(Ok::<u8, ChargeFault>(limit), n),
    ensures
        reapply_charge_run(Some(limit), a) matches Run::Done(x, q) && x.0
            == Reapply::AlreadyCorrect && q == n,
{
}

/// A charge limit that is to be in force is read first. Where it holds nothing is written; where
/// it does not it is written, and that corrected it exactly where it then reads back.
pub proof fn a_charge_limit_is_read_and_then_put_right(limit: u8, a: Seq<Reply>, n: nat, m: nat)
    requires
        20 <= limit <= 100,
        a.len() >= 2,
        a[0] is Ok,
        a[1] == Ok::<Seq<char>, IoFault>(decimal(n)),
        n <= u64::MAX,
        m <= u64::MAX,
    ensures
        ({
            let run = reapply_charge_run(Some(limit), a);
            &&& n == limit ==> (run matches Run::Done(x, q) && x.0 == Reapply::AlreadyCorrect && q
                == 2)
            &&& n != limit && a.len() == 3 && a[2] is Ok ==> run == Run::<
                (Reapply, Seq<Seq<char>>),
            >::Ask(Op::Write(attribute(), decimal(limit as nat)))
            &&& n != limit && a.len() == 6 && a[2] is Ok && a[3] is Ok && a[4] is Ok && a[5] == Ok::<
                Seq<char>,
                IoFault,
            >(decimal(m)) ==> (run matches Run::Done(x, q) && q == 6 && x.0 == (if m == limit {
                Reapply::Corrected
            } else {
                Reapply::Failed
            }))
        }),
        reapply_charge_run(None, a) matches Run::Done(x, q) && x.0 == Reapply::NothingPersisted && q
            == 0,
{
    a_number_in_a_file_reads_as_itself(attribute(), n);
    a_number_in_a_file_reads_as_itself(attribute(), m);
}

/// The power limit is put right where another number of whole watts reads from the zone: the
/// limit is written, within the zone's maximum, and what it was and what it should be are told
/// where as much then reads back.
pub proof fn a_moved_power_limit_is_put_right(
    watts: u32,
    a: Seq<Reply>,
    seen: u32,
    max: u32,
    after: u32,
)
    requires
        8 <= watts <= max < u32::MAX,
        seen < u32::MAX,
        after < u32::MAX,
        a.len() >= 2,
        a[0] is Ok,
        a[1] == Ok::<Seq<char>, IoFault>(decimal((seen * 1_000_000) as nat)),
    ensures
        ({
            let run = enforce_power_run(Some(watts), a);
            let again = reapply_power_run(Some(watts), a);
            let bound = a.len() >= 3 && a[2] == Ok::<Seq<char>, IoFault>(
                decimal((max * 1_000_000) as nat),
            );
            let back = a.len() == 6 && a[3] is Ok && a[4] is Ok && a[5] == Ok::<Seq<char>, IoFault>(
                decimal((after * 1_000_000) as nat),
            );
            &&& seen == watts ==> run == Run::Done(None::<(u32, u32)>, 2) && (again matches Run::Done(
                x,
                q,
            ) && x.0 == Reapply::AlreadyCorrect && q == 2)
            &&& seen != watts && bound && a.len() == 3 ==> {
                &&& run == Run::<Option<(u32, u32)>>::Ask(
                    Op::Write(limit_path(), decimal((watts * 1_000_000) as nat)),
                )
                &&& again == Run::<(Reapply, Seq<Seq<char>>)>::Ask(
                    Op::Write(limit_path(), decimal((watts * 1_000_000) as nat)),
                )
            }
            &&& seen != watts && bound && back ==> {
                &&& after == watts ==> run == Run::Done(Some((watts, seen)), 6) && (
                again matches Run::Done(x, _) && x.0 == Reapply::Corrected)
                &&& after != watts ==> run == Run::Done(None::<(u32, u32)>, 6) && (
                again matches Run::Done(x, _) && x.0 == Reapply::Failed)
            }
        }),
        enforce_power_run(None, a) == Run::Done(None::<(u32, u32)>, 0),
        reapply_power_run(None, a) matches Run::Done(x, q) && x.0 == Reapply::NothingPersisted && q
            == 0,
{
    a_number_in_a_file_reads_as_itself(limit_path(), (seen * 1_000_000) as nat);
    a_number_in_a_file_reads_as_itself(limit_path(), (after * 1_000_000) as nat);
    a_number_in_a_file_reads_as_itself(maximum_path(), (max * 1_000_000) as nat);
    assert(whole_watts((seen * 1_000_000) as nat) == seen);
    assert(whole_watts((after * 1_000_000) as nat) == after);
    assert(whole_watts((max * 1_000_000) as nat) == max);
}

/// The profile that is active is the one that was applied last, as long as PPD still agrees with
/// it, and otherwise the built-in that PPD's profile stands for. Where PPD's is unknown none is.
pub proof fn the_applied_profile_is_active_while_ppd_agrees(
    known: Seq<Choice>,
    i: int,
    name: Seq<char>,
    ppd: Ppd,
)
    ensures
        0 <= i < known.len() && known[i].name == name && known[i].ppd == ppd ==> active(
            known,
            Some(name),
            Some(ppd),
        ) == name,
        (forall|j: int| 0 <= j < known.len() && (#[trigger] known[j]).name == name ==> known[j].ppd
            != ppd) ==> active(known, Some(name), Some(ppd)) == built_in(ppd).name,
        active(known, None, Some(ppd)) == built_in(ppd).name,
        active(known, Some(name), None).len() == 0,
{
}

/// What is saved has the name it was given, PPD's profile and the power limit as they are, no
/// charge limit, and the curve that runs, where one does.
pub proof fn what_is_saved_is_what_is_set(
    name: Seq<char>,
    ppd: Ppd,
    watts: u32,
    running: Option<Seq<(i64, u8)>>,
    known: Seq<Choice>,
    applied: Option<Seq<char>>,
)
    ensures
        captured(name, ppd, watts, running, known, applied) matches Ok(c) ==> {
            &&& c.name == name && c.ppd == ppd && c.pl1_watts == watts && c.charge_limit is None
            &&& running matches Some(s) ==> (s.len() > 0 ==> c.curve.len() == s.len() && forall|
                i: int,
            |
                0 <= i < s.len() ==> (#[trigger] c.curve[i]).celsius == s[i].0 && c.curve[i].duty
                    == s[i].1)
        },
{
}

/// Forgetting a profile takes it away and leaves every other as it was. Where its name is that of
/// a built-in, the built-in is back.
pub proof fn forgetting_brings_a_built_in_back(s: Seq<Choice>, name: Seq<char>, other: Seq<char>)
    ensures
        other != name ==> lookup(without(s, name), other) == lookup(s, other),
        lookup(without(s, name), name) == lookup(crate::profile::built_in_choices(), name),
{
    let own = crate::profile::built_in_choices();
    let keep = |p: Choice| p.name != name;
    let back = |p: Choice| p.name == name;
    let (kept, added) = (s.filter(keep), own.filter(back));
    assert forall|j: int| 0 <= j < kept.len() implies (#[trigger] kept[j]).name != name by {
        s.lemma_filter_pred(keep, j);
    }
    assert forall|j: int| 0 <= j < added.len() implies (#[trigger] added[j]).name == name by {
        own.lemma_filter_pred(back, j);
    }
    if other != name {
        crate::profiles::lemma_lookup_filtered(s, keep, other);
        crate::profiles::lemma_lookup_joined(kept, added, other);
    }
    crate::profiles::lemma_lookup_filtered(own, back, name);
    crate::profiles::lemma_lookup_behind(kept, added, name);
}

/// Over the EC too a charge limit is read first, and set only where it is another. It was
/// corrected exactly where the EC then reports it.
pub proof fn a_charge_limit_is_put_right_over_the_ec(
    limit: u8,
    max: u8,
    min: u8,
    v: Seq<u8>,
    after: u8,
)
    requires
        20 <= limit <= 100,
    ensures
        ({
            let seen: EcReply = Ok(seq![max, min]);
            let last: EcReply = Ok(seq![after, min]);
            &&& max == limit ==> (reapply_ec_run(Some(limit), seq![seen]) matches EcRun::Done(x, n)
                && x.0 == Reapply::AlreadyCorrect && n == 1)
            &&& max != limit ==> {
                &&& reapply_ec_run(Some(limit), seq![seen, seen]) matches EcRun::Send(c) && c.command
                    == 0x3E03 && c.out == seq![2u8, limit, min]
                &&& reapply_ec_run(Some(limit), seq![seen, seen, Ok(v), last]) matches EcRun::Done(
                    x,
                    n,
                ) && n == 4 && x.0 == (if after == limit {
                    Reapply::Corrected
                } else {
                    Reapply::Failed
                })
            }
        }),
        reapply_ec_run(None, seq![]) matches EcRun::Done(x, n) && x.0 == Reapply::NothingPersisted
            && n == 0,
{
    let seen: EcReply = Ok(seq![max, min]);
    let last: EcReply = Ok(seq![after, min]);
    assert(seq![seen, seen].skip(1) =~= seq![seen]);
    assert(seq![seen, seen, Ok(v), last].skip(1) =~= seq![seen, Ok(v), last]);
}

/// An empty name, or that of a known profile, may be chosen for a power source, and no other.
pub proof fn only_known_profiles_are_chosen(known: Seq<Choice>, name: Seq<char>)
    ensures
        known_or_empty(known, name) <==> name.len() == 0 || exists|i: int|
            0 <= i < known.len() && (#[trigger] known[i]).name == name,
{
    crate::profiles::a_lookup_finds_the_first_of_a_name(known, name);
}

/// Saving with no curve running, and no known profile active, saves the built-in's curve. A list
/// of no points counts as no curve.
pub proof fn without_a_known_profile_the_built_in_lends_its_curve(
    known: Seq<Choice>,
    applied: Option<Seq<char>>,
    ppd: Ppd,
    name: Seq<char>,
    watts: u32,
)
    requires
        lookup(known, built_in(ppd).name) is None,
        applied matches Some(n) ==> lookup(known, n) is None,
    ensures
        captured(name, ppd, watts, None, known, applied) matches Ok(c) ==> c.curve == built_in(
            ppd,
        ).curve,
        captured(name, ppd, watts, Some(seq![]), known, applied) == captured(
            name,
            ppd,
            watts,
            None,
            known,
            applied,
        ),
{
    if let Some(n) = applied {
        crate::profiles::a_lookup_finds_the_first_of_a_name(known, n);
    }
}

}
