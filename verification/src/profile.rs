//! Profiles: the thing a user actually picks.
//!
//! A profile is one of power-profiles-daemon's (PPD's) profiles *plus* the knobs PPD does
//! not manage. The firmware floor, the ceiling and the battery guard apply on top of its
//! curve exactly as they do to a hand-set duty, so the curves here can be chosen for how
//! they sound.

use vstd::prelude::*;
use crate::charge::{MAX_LIMIT, MIN_LIMIT};
use crate::curve::{blend, curve_duty, curve_duty_rises_with_temperature, valid_curve, Curve, Point};
use crate::number::{decimal, decimal_text};
use crate::power::{FALLBACK_MAX_WATTS, MIN_WATTS};
use crate::text::{chars_of, in_quotes, quoted, same};

verus! {

/// The PPD axis: PPD's own three profiles.
#[derive(Debug, Clone, Copy, PartialEq, Eq, Structural)]
pub enum Ppd {
    PowerSaver,
    Balanced,
    Performance,
}

/// The name PPD uses on the wire.
pub open spec fn ppd_name(p: Ppd) -> Seq<char> {
    match p {
        Ppd::PowerSaver => "power-saver"@,
        Ppd::Balanced => "balanced"@,
        Ppd::Performance => "performance"@,
    }
}

/// The profile a wire name stands for.
pub open spec fn ppd_named(s: Seq<char>) -> Option<Ppd> {
    if s == "power-saver"@ {
        Some(Ppd::PowerSaver)
    } else if s == "balanced"@ {
        Some(Ppd::Balanced)
    } else if s == "performance"@ {
        Some(Ppd::Performance)
    } else {
        None
    }
}

impl Ppd {
    pub fn as_str(self) -> (r: &'static str)
        ensures
            r@ == ppd_name(self),
    {
        match self {
            Ppd::PowerSaver => "power-saver",
            Ppd::Balanced => "balanced",
            Ppd::Performance => "performance",
        }
    }

    pub fn parse(s: &str) -> (r: Option<Self>)
        ensures
            r == ppd_named(s@),
    {
        if same(s, "power-saver") {
            Some(Ppd::PowerSaver)
        } else if same(s, "balanced") {
            Some(Ppd::Balanced)
        } else if same(s, "performance") {
            Some(Ppd::Performance)
        } else {
            None
        }
    }

    /// A wire name reads back as the profile it was written for, and no other name reads as
    /// one.
    pub proof fn names_round_trip(p: Ppd, s: Seq<char>)
        ensures
            ppd_named(ppd_name(p)) == Some(p),
            ppd_named(s) matches Some(q) ==> ppd_name(q) == s,
    {
        reveal_strlit("power-saver");
        reveal_strlit("balanced");
        reveal_strlit("performance");
        assert("power-saver"@.len() == 11 && "balanced"@.len() == 8);
        assert("power-saver"@[1] == 'o' && "performance"@[1] == 'e');
    }
}

/// Why a profile was rejected. Every variant names something the author can fix.
#[derive(Debug, Clone, PartialEq, Eq)]
pub enum ProfileError {
    EmptyName,
    NameNotSimple(String),
    UnknownPpd(String),
    PowerOutOfRange(u32),
    ChargeOutOfRange(u8),
}

/// What a [`ProfileError`] says.
pub enum ProfileFault {
    EmptyName,
    NameNotSimple(Seq<char>),
    UnknownPpd(Seq<char>),
    PowerOutOfRange(u32),
    ChargeOutOfRange(u8),
}

impl View for ProfileError {
    type V = ProfileFault;

    open spec fn view(&self) -> ProfileFault {
        match *self {
            ProfileError::EmptyName => ProfileFault::EmptyName,
            ProfileError::NameNotSimple(n) => ProfileFault::NameNotSimple(n@),
            ProfileError::UnknownPpd(p) => ProfileFault::UnknownPpd(p@),
            ProfileError::PowerOutOfRange(w) => ProfileFault::PowerOutOfRange(w),
            ProfileError::ChargeOutOfRange(v) => ProfileFault::ChargeOutOfRange(v),
        }
    }
}

impl ProfileFault {
    pub open spec fn text(self) -> Seq<char> {
        match self {
            ProfileFault::EmptyName => "a profile needs a name"@,
            ProfileFault::NameNotSimple(n) => "profile name "@ + in_quotes(n)
                + " must be lowercase letters, digits and dashes: it is what a user types and what appears on the D-Bus interface"@,
            ProfileFault::UnknownPpd(p) => in_quotes(p)
                + " is not a power-profiles-daemon profile; expected power-saver, balanced or performance"@,
            ProfileFault::PowerOutOfRange(w) => decimal(w as nat)
                + " W is outside the range a power limit can sensibly take ("@ + decimal(
                MIN_WATTS as nat,
            ) + "-"@ + decimal(FALLBACK_MAX_WATTS as nat) + " W)"@,
            ProfileFault::ChargeOutOfRange(v) => decimal(v as nat)
                + "% is not a usable charge limit"@,
        }
    }
}

impl ProfileError {
    pub fn text(&self) -> (r: String)
        ensures
            r@ == self@.text(),
    {
        match self {
            ProfileError::EmptyName => "a profile needs a name".to_owned(),
            ProfileError::NameNotSimple(n) => {
                let mut s = "profile name ".to_owned();
                s.append(quoted(n.as_str()).as_str());
                s.append(
                    " must be lowercase letters, digits and dashes: it is what a user types and what appears on the D-Bus interface",
                );
                s
            },
            ProfileError::UnknownPpd(p) => {
                let mut s = quoted(p.as_str());
                s.append(
                    " is not a power-profiles-daemon profile; expected power-saver, balanced or performance",
                );
                s
            },
            ProfileError::PowerOutOfRange(w) => {
                let mut s = decimal_text(*w as u64);
                s.append(" W is outside the range a power limit can sensibly take (");
                s.append(decimal_text(MIN_WATTS as u64).as_str());
                s.append("-");
                s.append(decimal_text(FALLBACK_MAX_WATTS as u64).as_str());
                s.append(" W)");
                s
            },
            ProfileError::ChargeOutOfRange(v) => {
                let mut s = decimal_text(*v as u64);
                s.append("% is not a usable charge limit");
                s
            },
        }
    }
}

#[derive(Debug, PartialEq, Eq)]
pub struct Profile {
    /// Our name for it, as a user types it.
    pub name: String,
    /// What PPD is asked to switch to.
    pub ppd: Ppd,
    /// Sustained CPU power budget.
    pub pl1_watts: u32,
    /// The fan curve this profile runs.
    pub curve: Curve,
    /// Charge limit, if this profile should set one. `None` in the built-ins: battery
    /// longevity is a standing preference, not a performance choice.
    pub charge_limit: Option<u8>,
}

/// What a [`Profile`] says.
pub struct Choice {
    pub name: Seq<char>,
    pub ppd: Ppd,
    pub pl1_watts: u32,
    pub curve: Seq<Point>,
    pub charge_limit: Option<u8>,
}

impl View for Profile {
    type V = Choice;

    open spec fn view(&self) -> Choice {
        Choice {
            name: self.name@,
            ppd: self.ppd,
            pl1_watts: self.pl1_watts,
            curve: self.curve@,
            charge_limit: self.charge_limit,
        }
    }
}

pub open spec fn choices(s: Seq<Profile>) -> Seq<Choice> {
    s.map_values(|p: Profile| p@)
}

/// A character a profile name may hold.
pub open spec fn simple_char(c: char) -> bool {
    ('a' <= c && c <= 'z') || ('0' <= c && c <= '9') || c == '-'
}

pub open spec fn simple_name(s: Seq<char>) -> bool {
    forall|i: int| 0 <= i < s.len() ==> simple_char(#[trigger] s[i])
}

/// What is wrong with a profile, if anything.
pub open spec fn profile_fault(p: Choice) -> Option<ProfileFault> {
    if p.name.len() == 0 {
        Some(ProfileFault::EmptyName)
    } else if !simple_name(p.name) {
        Some(ProfileFault::NameNotSimple(p.name))
    } else if !(MIN_WATTS <= p.pl1_watts <= FALLBACK_MAX_WATTS) {
        Some(ProfileFault::PowerOutOfRange(p.pl1_watts))
    } else {
        match p.charge_limit {
            Some(l) if !(MIN_LIMIT <= l <= MAX_LIMIT) => Some(ProfileFault::ChargeOutOfRange(l)),
            _ => None,
        }
    }
}

pub open spec fn quiet_choice() -> Choice {
    Choice {
        name: "quiet"@,
        ppd: Ppd::PowerSaver,
        pl1_watts: 15,
        curve: seq![
            Point { celsius: 55_000, duty: 0 },
            Point { celsius: 62_000, duty: 40 },
            Point { celsius: 70_000, duty: 65 },
            Point { celsius: 80_000, duty: 92 },
            Point { celsius: 90_000, duty: 130 },
            Point { celsius: 100_000, duty: 255 },
        ],
        charge_limit: None,
    }
}

pub open spec fn balanced_choice() -> Choice {
    Choice {
        name: "balanced"@,
        ppd: Ppd::Balanced,
        pl1_watts: 20,
        curve: seq![
            Point { celsius: 50_000, duty: 0 },
            Point { celsius: 60_000, duty: 45 },
            Point { celsius: 68_000, duty: 72 },
            Point { celsius: 78_000, duty: 100 },
            Point { celsius: 88_000, duty: 145 },
            Point { celsius: 100_000, duty: 255 },
        ],
        charge_limit: None,
    }
}

pub open spec fn performance_choice() -> Choice {
    Choice {
        name: "performance"@,
        ppd: Ppd::Performance,
        pl1_watts: 25,
        curve: seq![
            Point { celsius: 45_000, duty: 0 },
            Point { celsius: 55_000, duty: 50 },
            Point { celsius: 65_000, duty: 85 },
            Point { celsius: 75_000, duty: 120 },
            Point { celsius: 85_000, duty: 170 },
            Point { celsius: 95_000, duty: 255 },
        ],
        charge_limit: None,
    }
}

/// The built-in for a PPD profile.
pub open spec fn built_in(ppd: Ppd) -> Choice {
    match ppd {
        Ppd::PowerSaver => quiet_choice(),
        Ppd::Balanced => balanced_choice(),
        Ppd::Performance => performance_choice(),
    }
}

/// A curve known to be valid.
fn built_in_curve(points: Vec<Point>) -> (r: Curve)
    requires
        valid_curve(points@),
    ensures
        r@ == points@,
{
    match Curve::new(points) {
        Ok(c) => c,
        Err(_) => Curve::default_quiet(),
    }
}

impl Clone for Profile {
    fn clone(&self) -> (r: Self)
        ensures
            r@ == self@,
    {
        Profile {
            name: self.name.clone(),
            ppd: self.ppd,
            pl1_watts: self.pl1_watts,
            curve: self.curve.clone(),
            charge_limit: self.charge_limit,
        }
    }
}

impl Profile {
    /// Silent as long as possible.
    pub fn quiet() -> (r: Self)
        ensures
            r@ == quiet_choice(),
    {
        let points = vec![
            Point { celsius: 55_000, duty: 0 },
            Point { celsius: 62_000, duty: 40 },
            Point { celsius: 70_000, duty: 65 },
            Point { celsius: 80_000, duty: 92 },
            Point { celsius: 90_000, duty: 130 },
            Point { celsius: 100_000, duty: 255 },
        ];
        assert(points@ =~= quiet_choice().curve);
        Profile {
            name: "quiet".to_owned(),
            ppd: Ppd::PowerSaver,
            pl1_watts: 15,
            curve: built_in_curve(points),
            charge_limit: None,
        }
    }

    /// The default.
    pub fn balanced() -> (r: Self)
        ensures
            r@ == balanced_choice(),
    {
        let points = vec![
            Point { celsius: 50_000, duty: 0 },
            Point { celsius: 60_000, duty: 45 },
            Point { celsius: 68_000, duty: 72 },
            Point { celsius: 78_000, duty: 100 },
            Point { celsius: 88_000, duty: 145 },
            Point { celsius: 100_000, duty: 255 },
        ];
        assert(points@ =~= balanced_choice().curve);
        Profile {
            name: "balanced".to_owned(),
            ppd: Ppd::Balanced,
            pl1_watts: 20,
            curve: built_in_curve(points),
            charge_limit: None,
        }
    }

    /// Stock power, and a curve that trades noise for headroom.
    pub fn performance() -> (r: Self)
        ensures
            r@ == performance_choice(),
    {
        let points = vec![
            Point { celsius: 45_000, duty: 0 },
            Point { celsius: 55_000, duty: 50 },
            Point { celsius: 65_000, duty: 85 },
            Point { celsius: 75_000, duty: 120 },
            Point { celsius: 85_000, duty: 170 },
            Point { celsius: 95_000, duty: 255 },
        ];
        assert(points@ =~= performance_choice().curve);
        Profile {
            name: "performance".to_owned(),
            ppd: Ppd::Performance,
            pl1_watts: 25,
            curve: built_in_curve(points),
            charge_limit: None,
        }
    }

    /// The three shipped defaults.
    pub fn built_ins() -> (r: Vec<Self>)
        ensures
            choices(r@) == built_in_choices(),
    {
        let r = vec![Self::quiet(), Self::balanced(), Self::performance()];
        assert(choices(r@) =~= built_in_choices());
        r
    }

    /// Validate a profile assembled from somewhere less trustworthy than this file.
    pub fn validate(&self) -> (r: Result<(), ProfileError>)
        ensures
            match r {
                Ok(()) => profile_fault(self@) is None,
                Err(e) => profile_fault(self@) == Some(e@),
            },
    {
        let chars = chars_of(self.name.as_str());
        if chars.len() == 0 {
            return Err(ProfileError::EmptyName);
        }
        let mut i: usize = 0;
        while i < chars.len()
            invariant
                i <= chars@.len(),
                chars@ == self.name@,
                self.name@.len() > 0,
                forall|j: int| 0 <= j < i ==> simple_char(#[trigger] chars@[j]),
            decreases chars@.len() - i,
        {
            let c: char = chars[i];
            if !(('a' <= c && c <= 'z') || ('0' <= c && c <= '9') || c == '-') {
                assert(!simple_char(self.name@[i as int]));
                return Err(ProfileError::NameNotSimple(self.name.clone()));
            }
            i = i + 1;
        }
        if self.pl1_watts < MIN_WATTS || self.pl1_watts > FALLBACK_MAX_WATTS {
            return Err(ProfileError::PowerOutOfRange(self.pl1_watts));
        }
        if let Some(limit) = self.charge_limit {
            if limit < MIN_LIMIT || limit > MAX_LIMIT {
                return Err(ProfileError::ChargeOutOfRange(limit));
            }
        }
        Ok(())
    }

    /// The canonical name a PPD profile maps to. User profiles take part only by replacing
    /// a built-in by name: choosing between several that claim the same PPD profile would
    /// be a coin toss nobody can see.
    pub fn canonical_name_for(ppd: Ppd) -> (r: &'static str)
        ensures
            r@ == built_in(ppd).name,
    {
        match ppd {
            Ppd::PowerSaver => "quiet",
            Ppd::Balanced => "balanced",
            Ppd::Performance => "performance",
        }
    }

    /// The built-in matching a PPD profile.
    pub fn for_ppd(ppd: Ppd) -> (r: Self)
        ensures
            r@ == built_in(ppd),
    {
        match ppd {
            Ppd::PowerSaver => Self::quiet(),
            Ppd::Balanced => Self::balanced(),
            Ppd::Performance => Self::performance(),
        }
    }
}

pub open spec fn built_in_choices() -> Seq<Choice> {
    seq![quiet_choice(), balanced_choice(), performance_choice()]
}

/// Every built-in stands for its own PPD profile, is valid, and leaves the charge limit
/// alone.
pub proof fn built_ins_are_valid(ppd: Ppd)
    ensures
        built_in(ppd).ppd == ppd,
        profile_fault(built_in(ppd)) is None,
        valid_curve(built_in(ppd).curve),
        built_in(ppd).charge_limit is None,
        built_in_choices().contains(built_in(ppd)),
{
    reveal_strlit("quiet");
    reveal_strlit("balanced");
    reveal_strlit("performance");
    assert(built_in_choices()[0] == quiet_choice());
    assert(built_in_choices()[1] == balanced_choice());
    assert(built_in_choices()[2] == performance_choice());
}

/// The duty on the line between two points, with the line's rise and run as given.
proof fn lemma_blend_is(c: int, p: Point, q: Point, rise: int, run: int)
    requires
        rise == 2 * (q.duty - p.duty),
        run == 2 * (q.celsius - p.celsius),
        run > 0,
    ensures
        blend(c, p, q) == p.duty + (rise * (c - p.celsius) + run / 2) / run,
{
}

proof fn lemma_quiet_below_balanced(c: i64)
    ensures
        curve_duty(quiet_choice().curve, Some(c)) <= curve_duty(balanced_choice().curve, Some(c)),
{
    reveal_with_fuel(crate::curve::duty_from, 7);
    let q = quiet_choice().curve;
    let b = balanced_choice().curve;
    curve_duty_rises_with_temperature(b, c, c);
    if 55_000 < c < 100_000 {
        if c <= 60_000 {
            lemma_blend_is(c as int, q[0], q[1], 80, 14_000);
            lemma_blend_is(c as int, b[0], b[1], 90, 20_000);
        } else if c <= 62_000 {
            lemma_blend_is(c as int, q[0], q[1], 80, 14_000);
            lemma_blend_is(c as int, b[1], b[2], 54, 16_000);
        } else if c <= 68_000 {
            lemma_blend_is(c as int, q[1], q[2], 50, 16_000);
            lemma_blend_is(c as int, b[1], b[2], 54, 16_000);
        } else if c <= 70_000 {
            lemma_blend_is(c as int, q[1], q[2], 50, 16_000);
            lemma_blend_is(c as int, b[2], b[3], 56, 20_000);
        } else if c <= 78_000 {
            lemma_blend_is(c as int, q[2], q[3], 54, 20_000);
            lemma_blend_is(c as int, b[2], b[3], 56, 20_000);
        } else if c <= 80_000 {
            lemma_blend_is(c as int, q[2], q[3], 54, 20_000);
            lemma_blend_is(c as int, b[3], b[4], 90, 20_000);
        } else if c <= 88_000 {
            lemma_blend_is(c as int, q[3], q[4], 76, 20_000);
            lemma_blend_is(c as int, b[3], b[4], 90, 20_000);
        } else if c <= 90_000 {
            lemma_blend_is(c as int, q[3], q[4], 76, 20_000);
            lemma_blend_is(c as int, b[4], b[5], 220, 24_000);
        } else if c <= 100_000 {
            lemma_blend_is(c as int, q[4], q[5], 250, 20_000);
            lemma_blend_is(c as int, b[4], b[5], 220, 24_000);
        }
    }
}

proof fn lemma_balanced_below_performance(c: i64)
    ensures
        curve_duty(balanced_choice().curve, Some(c)) <= curve_duty(
            performance_choice().curve,
            Some(c),
        ),
{
    reveal_with_fuel(crate::curve::duty_from, 7);
    let b = balanced_choice().curve;
    let p = performance_choice().curve;
    curve_duty_rises_with_temperature(b, c, c);
    curve_duty_rises_with_temperature(p, c, c);
    if 50_000 < c < 95_000 {
        if c <= 55_000 {
            lemma_between_steps(b, p, 50_000, c, 55_000);
            lemma_blend_is(55_000, b[0], b[1], 90, 20_000);
            lemma_blend_is(50_000, p[0], p[1], 100, 20_000);
        } else if c <= 60_000 {
            lemma_between_steps(b, p, 55_000, c, 60_000);
            lemma_blend_is(60_000, b[0], b[1], 90, 20_000);
            lemma_blend_is(55_000, p[0], p[1], 100, 20_000);
        } else if c <= 65_000 {
            lemma_between_steps(b, p, 60_000, c, 65_000);
            lemma_blend_is(65_000, b[1], b[2], 54, 16_000);
            lemma_blend_is(60_000, p[1], p[2], 70, 20_000);
        } else if c <= 68_000 {
            lemma_between_steps(b, p, 65_000, c, 68_000);
            lemma_blend_is(68_000, b[1], b[2], 54, 16_000);
            lemma_blend_is(65_000, p[1], p[2], 70, 20_000);
        } else if c <= 75_000 {
            lemma_between_steps(b, p, 68_000, c, 75_000);
            lemma_blend_is(75_000, b[2], b[3], 56, 20_000);
            lemma_blend_is(68_000, p[2], p[3], 70, 20_000);
        } else if c <= 78_000 {
            lemma_between_steps(b, p, 75_000, c, 78_000);
            lemma_blend_is(78_000, b[2], b[3], 56, 20_000);
            lemma_blend_is(75_000, p[2], p[3], 70, 20_000);
        } else if c <= 85_000 {
            lemma_between_steps(b, p, 78_000, c, 85_000);
            lemma_blend_is(85_000, b[3], b[4], 90, 20_000);
            lemma_blend_is(78_000, p[3], p[4], 100, 20_000);
        } else if c <= 88_000 {
            lemma_between_steps(b, p, 85_000, c, 88_000);
            lemma_blend_is(88_000, b[3], b[4], 90, 20_000);
            lemma_blend_is(85_000, p[3], p[4], 100, 20_000);
        } else if c <= 91_000 {
            lemma_between_steps(b, p, 88_000, c, 91_000);
            lemma_blend_is(91_000, b[4], b[5], 220, 24_000);
            lemma_blend_is(88_000, p[4], p[5], 170, 20_000);
        } else {
            lemma_between_steps(b, p, 91_000, c, 95_000);
            lemma_blend_is(95_000, b[4], b[5], 220, 24_000);
            lemma_blend_is(91_000, p[4], p[5], 170, 20_000);
        }
    }
}

/// Both curves rise, so between `lo` and `hi` the one is at most what it is at `hi`, the
/// other at least what it is at `lo`.
proof fn lemma_between_steps(a: Seq<Point>, b: Seq<Point>, lo: i64, c: i64, hi: i64)
    requires
        valid_curve(a),
        valid_curve(b),
        lo <= c <= hi,
    ensures
        curve_duty(a, Some(c)) <= curve_duty(a, Some(hi)),
        curve_duty(b, Some(lo)) <= curve_duty(b, Some(c)),
{
    curve_duty_rises_with_temperature(a, c, hi);
    curve_duty_rises_with_temperature(b, lo, c);
}

/// A profile that runs hotter never asks for less air: at every temperature quiet is no
/// louder than balanced, and balanced no louder than performance.
pub proof fn profiles_are_ordered_by_power_and_by_noise(c: i64)
    ensures
        quiet_choice().pl1_watts < balanced_choice().pl1_watts < performance_choice().pl1_watts,
        curve_duty(quiet_choice().curve, Some(c)) <= curve_duty(balanced_choice().curve, Some(c)),
        curve_duty(balanced_choice().curve, Some(c)) <= curve_duty(
            performance_choice().curve,
            Some(c),
        ),
{
    lemma_quiet_below_balanced(c);
    lemma_balanced_below_performance(c);
}

/// A profile is accepted exactly where its name is made of lower-case letters, digits and
/// hyphens, at least one, its power budget is one that a machine can be set to, and so is its
/// charge limit, where it has one.
pub proof fn an_accepted_profile_is_simple_and_in_range(p: Choice)
    ensures
        profile_fault(p) is None <==> {
            &&& p.name.len() > 0
            &&& forall|i: int|
                0 <= i < p.name.len() ==> ('a' <= #[trigger] p.name[i] && p.name[i] <= 'z') || ('0'
                    <= p.name[i] && p.name[i] <= '9') || p.name[i] == '-'
            &&& 8 <= p.pl1_watts <= 25
            &&& p.charge_limit matches Some(l) ==> 20 <= l <= 100
        },
        profile_fault(p) matches Some(ProfileFault::EmptyName) <==> p.name.len() == 0,
        profile_fault(p) matches Some(ProfileFault::NameNotSimple(n)) ==> n == p.name,
        profile_fault(p) matches Some(ProfileFault::PowerOutOfRange(w)) ==> w == p.pl1_watts && (w
            < 8 || w > 25),
        profile_fault(p) matches Some(ProfileFault::ChargeOutOfRange(l)) ==> p.charge_limit == Some(
            l,
        ) && (l < 20 || l > 100),
{
    assert(simple_name(p.name) <==> forall|i: int|
        0 <= i < p.name.len() ==> ('a' <= #[trigger] p.name[i] && p.name[i] <= 'z') || ('0'
            <= p.name[i] && p.name[i] <= '9') || p.name[i] == '-') by {
        if simple_name(p.name) {
            assert forall|i: int| 0 <= i < p.name.len() implies ('a' <= #[trigger] p.name[i]
                && p.name[i] <= 'z') || ('0' <= p.name[i] && p.name[i] <= '9') || p.name[i] == '-' by {
                assert(simple_char(p.name[i]));
            }
        }
    }
}

}
