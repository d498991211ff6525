//! User profiles, as files of `key = value` lines.
//!
//! ```text
//! name         = silent
//! ppd          = power-saver
//! pl1_watts    = 12
//! curve        = 55:0,65:40,75:70,85:110,95:255
//! charge_limit = 80          # optional; omitted means "leave it alone"
//! ```
//!
//! A file naming an existing profile replaces it, which is how the shipped defaults are
//! customised. One bad file does not sink the rest: it is reported by name and skipped.

use vstd::prelude::*;
use crate::curve::{
    curve_fault,
    fault_from,
    first_fault,
    implausible,
    implausible_text,
    valid_curve,
    Curve,
    CurveError,
    Point,
};
use crate::editor::{as_pairs, cli_text, pair_text};
use crate::number::{
    all_digits,
    decimal,
    decimal_reads_back,
    decimal_text,
    is_digit,
    lemma_decimal,
    lemma_thousandths,
    milli,
    no_places,
    not_finite,
    parse_milli_outward,
    parse_not_finite,
    parse_up_to,
    thousandths,
    thousandths_read_back,
    thousandths_text,
    unsigned,
    NumberError,
};
use crate::profile::{
    built_in,
    built_in_choices,
    built_ins_are_valid,
    choices,
    ppd_name,
    ppd_named,
    profile_fault,
    simple_char,
    simple_name,
    Choice,
    Ppd,
    Profile,
};
use crate::order::{is_order, sorted_order};
use crate::sysfs::Answer;
use crate::text::{
    before,
    halves,
    in_quotes,
    is_line,
    is_white,
    lemma_before,
    lemma_halves,
    lemma_lines,
    lemma_parts_one,
    lemma_parts_push,
    lemma_trimmed_same,
    lines,
    lines_of,
    parts,
    quoted,
    same,
    split,
    split_once,
    texts,
    trim,
    trim_end,
    trim_start,
    trimmed,
    trimming_drops_the_white_space_around,
    unlined,
    until,
    views,
};

verus! {

pub const PROFILE_DIR: &'static str = "/etc/fw-helper/profiles.d";

/// What one pair says: a point, or a temperature that is no finite number, as it is shown.
pub enum Spot {
    At(Point),
    Odd(Seq<char>),
}

/// One `temperature:duty` pair. A temperature between two thousandths counts as the one
/// farther from zero, so that one past a limit stays past it.
pub open spec fn pair_spot(pair: Seq<char>) -> Result<Spot, Seq<char>> {
    match halves(trimmed(pair), ':') {
        None => Err(in_quotes(pair) + " is not temperature:duty"@),
        Some((t, d)) => match (milli(trimmed(t), true), not_finite(trimmed(t))) {
            (None, None) => Err(in_quotes(t) + " is not a temperature"@),
            (celsius, odd) => match unsigned(trimmed(d), u8::MAX as nat) {
                Err(_) => Err(in_quotes(d) + " is not a duty"@),
                Ok(duty) => match celsius {
                    Some(c) => Ok(Spot::At(Point { celsius: c as i64, duty: duty as u8 })),
                    None => Ok(Spot::Odd(odd->0)),
                },
            },
        },
    }
}

/// What the first `n` pairs say, or what is wrong with the first bad one.
pub open spec fn pair_spots(pairs: Seq<Seq<char>>, n: int) -> Result<Seq<Spot>, Seq<char>>
    decreases n,
{
    if n <= 0 {
        Ok(seq![])
    } else {
        match pair_spots(pairs, n - 1) {
            Err(e) => Err(e),
            Ok(s) => match pair_spot(pairs[n - 1]) {
                Err(e) => Err(e),
                Ok(p) => Ok(s.push(p)),
            },
        }
    }
}

/// The points among the first `n` up to the first that is none.
pub open spec fn points_before(s: Seq<Spot>, n: int) -> Seq<Point>
    decreases n,
{
    if n <= 0 {
        seq![]
    } else {
        let had = points_before(s, n - 1);
        match s[n - 1] {
            Spot::At(p) if had.len() == n - 1 => had.push(p),
            _ => had,
        }
    }
}

/// How an odd temperature is shown.
pub open spec fn shown(s: Spot) -> Seq<char> {
    match s {
        Spot::Odd(t) => t,
        Spot::At(_) => seq![],
    }
}

/// The points of a curve, or what is wrong with the first that is at fault. A temperature
/// that is no finite number makes no more sense than one that no fan curve describes.
pub open spec fn curve_of(s: Seq<Spot>) -> Result<Seq<Point>, Seq<char>> {
    let points = points_before(s, s.len() as int);
    if s.len() < 2 {
        Err(CurveError::TooFewPoints.spec_text())
    } else {
        match fault_from(points, 0) {
            Some(e) => Err(e.spec_text()),
            None => if points.len() < s.len() {
                Err(implausible(points.len(), shown(s[points.len() as int])))
            } else {
                Ok(points)
            },
        }
    }
}

/// The points of a curve, or what is wrong with it.
pub open spec fn curve_in(spec: Seq<char>) -> Result<Seq<Point>, Seq<char>> {
    let pairs = parts(spec, ',');
    match pair_spots(pairs, pairs.len() as int) {
        Err(e) => Err(e),
        Ok(s) => curve_of(s),
    }
}

/// What the lines read so far have set.
pub struct Draft {
    pub name: Option<Seq<char>>,
    pub ppd: Option<Ppd>,
    pub watts: Option<u32>,
    pub curve: Option<Seq<Point>>,
    pub charge: Option<u8>,
}

/// A message about line `n`.
pub open spec fn at_line(n: nat, what: Seq<char>) -> Seq<char> {
    "line "@ + decimal(n) + ": "@ + what
}

/// What one `key = value` sets in a draft.
pub open spec fn with_key(d: Draft, key: Seq<char>, value: Seq<char>) -> Result<Draft, Seq<char>> {
    if key == "name"@ {
        Ok(Draft { name: Some(value), ..d })
    } else if key == "ppd"@ {
        match ppd_named(value) {
            Some(p) => Ok(Draft { ppd: Some(p), ..d }),
            None => Err("unknown ppd "@ + in_quotes(value)),
        }
    } else if key == "pl1_watts"@ {
        match unsigned(value, u32::MAX as nat) {
            Ok(n) => Ok(Draft { watts: Some(n as u32), ..d }),
            Err(_) => Err(in_quotes(value) + " is not a number"@),
        }
    } else if key == "curve"@ {
        match curve_in(value) {
            Ok(s) => Ok(Draft { curve: Some(s), ..d }),
            Err(e) => Err(e),
        }
    } else if key == "charge_limit"@ {
        match unsigned(value, u8::MAX as nat) {
            Ok(n) => Ok(Draft { charge: Some(n as u8), ..d }),
            Err(_) => Err(in_quotes(value) + " is not a percentage"@),
        }
    } else {
        Err("unknown key "@ + in_quotes(key))
    }
}

/// A line without its comment and the white space around it.
pub open spec fn uncommented(line: Seq<char>) -> Seq<char> {
    trimmed(line.take(before(line, '#') as int))
}

/// What one line sets in a draft.
pub open spec fn with_line(d: Draft, line: Seq<char>) -> Result<Draft, Seq<char>> {
    let body = uncommented(line);
    if body.len() == 0 {
        Ok(d)
    } else {
        match halves(body, '=') {
            None => Err("expected key = value"@),
            Some((k, v)) => with_key(d, trimmed(k), trimmed(v)),
        }
    }
}

pub open spec fn empty_draft() -> Draft {
    Draft { name: None, ppd: None, watts: None, curve: None, charge: None }
}

/// What the first `n` lines set, or what is wrong with the first bad one. A later line
/// overrides an earlier one.
pub open spec fn drafted(ls: Seq<Seq<char>>, n: int) -> Result<Draft, Seq<char>>
    decreases n,
{
    if n <= 0 {
        Ok(empty_draft())
    } else {
        match drafted(ls, n - 1) {
            Err(e) => Err(e),
            Ok(d) => match with_line(d, ls[n - 1]) {
                Ok(d) => Ok(d),
                Err(e) => Err(at_line(n as nat, e)),
            },
        }
    }
}

/// A finished draft as a profile, or what it lacks.
pub open spec fn finished(d: Draft) -> Result<Choice, Seq<char>> {
    match (d.name, d.ppd, d.watts, d.curve) {
        (None, _, _, _) => Err("no name"@),
        (_, None, _, _) => Err("no ppd (power-saver, balanced or performance)"@),
        (_, _, None, _) => Err("no pl1_watts"@),
        (_, _, _, None) => Err("no curve"@),
        (Some(name), Some(ppd), Some(pl1_watts), Some(curve)) => {
            let p = Choice { name, ppd, pl1_watts, curve, charge_limit: d.charge };
            match profile_fault(p) {
                Some(e) => Err(e.text()),
                None => Ok(p),
            }
        },
    }
}

/// The profile a file describes, or what is wrong with it.
pub open spec fn profile_in(text: Seq<char>) -> Result<Choice, Seq<char>> {
    let ls = lines_of(text);
    match drafted(ls, ls.len() as int) {
        Err(e) => Err(e),
        Ok(d) => finished(d),
    }
}

fn said(a: &str, b: &str) -> (r: String)
    ensures
        r@ == a@ + b@,
{
    let mut s = a.to_owned();
    s.append(b);
    s
}

fn line_error(n: usize, what: &str) -> (r: String)
    ensures
        r@ == at_line(n as nat, what@),
{
    let mut s = "line ".to_owned();
    s.append(decimal_text(n as u64).as_str());
    s.append(": ");
    s.append(what);
    s
}

/// What a pair says as it is read: a point, or how an odd temperature is shown.
spec fn spot(r: Result<Point, &'static str>) -> Spot {
    match r {
        Ok(p) => Spot::At(p),
        Err(shown) => Spot::Odd(shown@),
    }
}

fn parse_pair(pair: &str) -> (r: Result<Result<Point, &'static str>, String>)
    ensures
        match r {
            Ok(p) => pair_spot(pair@) == Ok::<Spot, Seq<char>>(spot(p)),
            Err(e) => pair_spot(pair@) == Err::<Spot, Seq<char>>(e@),
        },
{
    match split_once(trim(pair), ':') {
        None => Err(said(quoted(pair).as_str(), " is not temperature:duty")),
        Some((t, d)) => {
            let celsius = parse_milli_outward(trim(t));
            let odd = parse_not_finite(trim(t));
            if celsius.is_none() && odd.is_none() {
                return Err(said(quoted(t).as_str(), " is not a temperature"));
            }
            match parse_up_to(trim(d), u8::MAX as u64) {
                Err(_) => Err(said(quoted(d).as_str(), " is not a duty")),
                Ok(duty) => match (celsius, odd) {
                    (Some(celsius), _) => Ok(Ok(Point { celsius, duty: duty as u8 })),
                    (None, Some(shown)) => Ok(Err(shown)),
                    (None, None) => Err(said(quoted(t).as_str(), " is not a temperature")),
                },
            }
        },
    }
}

/// Parse a curve: `temperature:duty` pairs with commas between them.
pub fn parse_curve(spec: &str) -> (r: Result<Curve, String>)
    ensures
        match r {
            Ok(c) => curve_in(spec@) == Ok::<Seq<Point>, Seq<char>>(c@),
            Err(e) => curve_in(spec@) == Err::<Seq<Point>, Seq<char>>(e@),
        },
{
    let pairs = split(spec, ',');
    let ghost all = parts(spec@, ',');
    let mut points: Vec<Point> = Vec::new();
    let mut odd: Option<&'static str> = None;
    let mut i: usize = 0;
    let ghost mut spots: Seq<Spot> = seq![];
    proof {
        assert(views(pairs@).len() == pairs@.len());
        lemma_first_bad_pair(all, 0);
    }
    while i < pairs.len()
        invariant
            i <= pairs@.len(),
            views(pairs@) == all,
            all == parts(spec@, ','),
            pair_spots(all, i as int) == Ok::<Seq<Spot>, Seq<char>>(spots),
            spots.len() == i,
            points@ == points_before(spots, i as int),
            match odd {
                None => points@.len() == i,
                Some(shown) => points@.len() < i && spots[points@.len() as int] == Spot::Odd(
                    shown@,
                ),
            },
        decreases pairs@.len() - i,
    {
        assert(all[i as int] == pairs@[i as int]@);
        match parse_pair(pairs[i]) {
            Ok(p) => {
                proof {
                    let next = spots.push(spot(p));
                    lemma_points_before_prefix(spots, spot(p), i as int);
                    spots = next;
                }
                if odd.is_none() {
                    match p {
                        Ok(p) => {
                            points.push(p);
                        },
                        Err(shown) => {
                            odd = Some(shown);
                        },
                    }
                }
            },
            Err(e) => {
                proof {
                    lemma_first_bad_pair(all, i + 1);
                }
                return Err(e);
            },
        }
        i = i + 1;
    }
    if pairs.len() < 2 {
        return Err(CurveError::TooFewPoints.text());
    }
    if let Some(e) = first_fault(&points) {
        return Err(e.text());
    }
    if let Some(shown) = odd {
        return Err(implausible_text(points.len(), shown));
    }
    proof {
        crate::curve::a_curve_without_a_fault_is_valid(points@);
    }
    match Curve::new(points) {
        Ok(c) => Ok(c),
        Err(e) => Err(e.text()),
    }
}

proof fn lemma_points_before_prefix(s: Seq<Spot>, last: Spot, n: int)
    requires
        0 <= n <= s.len(),
    ensures
        points_before(s.push(last), n) == points_before(s, n),
        points_before(s, n).len() <= n,
    decreases n,
{
    if n > 0 {
        lemma_points_before_prefix(s, last, n - 1);
        assert(s.push(last)[n - 1] == s[n - 1]);
    }
}

/// Once a pair is bad, so is the whole.
proof fn lemma_first_bad_pair(pairs: Seq<Seq<char>>, n: int)
    requires
        0 <= n <= pairs.len(),
    ensures
        pair_spots(pairs, n) is Err ==> pair_spots(pairs, pairs.len() as int) == pair_spots(
            pairs,
            n,
        ),
    decreases pairs.len() - n,
{
    if n < pairs.len() {
        lemma_first_bad_pair(pairs, n + 1);
    }
}

/// Once a line is bad, so is the whole.
proof fn lemma_first_bad_line(ls: Seq<Seq<char>>, n: int)
    requires
        0 <= n <= ls.len(),
    ensures
        drafted(ls, n) is Err ==> drafted(ls, ls.len() as int) == drafted(ls, n),
    decreases ls.len() - n,
{
    if n < ls.len() {
        lemma_first_bad_line(ls, n + 1);
    }
}

/// What the lines read so far have set.
struct Fields {
    name: Option<String>,
    ppd: Option<Ppd>,
    watts: Option<u32>,
    curve: Option<Curve>,
    charge: Option<u8>,
}

impl Fields {
    spec fn draft(&self) -> Draft {
        Draft {
            name: match self.name {
                Some(n) => Some(n@),
                None => None,
            },
            ppd: self.ppd,
            watts: self.watts,
            curve: match self.curve {
                Some(c) => Some(c@),
                None => None,
            },
            charge: self.charge,
        }
    }

    fn set(&mut self, key: &str, value: &str) -> (r: Result<(), String>)
        ensures
            match r {
                Ok(()) => with_key(old(self).draft(), key@, value@) == Ok::<Draft, Seq<char>>(
                    final(self).draft(),
                ),
                Err(e) => with_key(old(self).draft(), key@, value@) == Err::<Draft, Seq<char>>(e@),
            },
    {
        if same(key, "name") {
            self.name = Some(value.to_owned());
            Ok(())
        } else if same(key, "ppd") {
            match Ppd::parse(value) {
                Some(p) => {
                    self.ppd = Some(p);
                    Ok(())
                },
                None => Err(said("unknown ppd ", quoted(value).as_str())),
            }
        } else if same(key, "pl1_watts") {
            match parse_up_to(value, u32::MAX as u64) {
                Ok(n) => {
                    self.watts = Some(n as u32);
                    Ok(())
                },
                Err(_) => Err(said(quoted(value).as_str(), " is not a number")),
            }
        } else if same(key, "curve") {
            match parse_curve(value) {
                Ok(c) => {
                    self.curve = Some(c);
                    Ok(())
                },
                Err(e) => Err(e),
            }
        } else if same(key, "charge_limit") {
            match parse_up_to(value, u8::MAX as u64) {
                Ok(n) => {
                    self.charge = Some(n as u8);
                    Ok(())
                },
                Err(_) => Err(said(quoted(value).as_str(), " is not a percentage")),
            }
        } else {
            Err(said("unknown key ", quoted(key).as_str()))
        }
    }

    fn read_line(&mut self, line: &str) -> (r: Result<(), String>)
        ensures
            match r {
                Ok(()) => with_line(old(self).draft(), line@) == Ok::<Draft, Seq<char>>(
                    final(self).draft(),
                ),
                Err(e) => with_line(old(self).draft(), line@) == Err::<Draft, Seq<char>>(e@),
            },
    {
        let body = trim(until(line, '#'));
        if body.unicode_len() == 0 {
            return Ok(());
        }
        match split_once(body, '=') {
            None => Err("expected key = value".to_owned()),
            Some((k, v)) => self.set(trim(k), trim(v)),
        }
    }
}

/// Parse one profile file. Every rejection says which line and why, or what is missing.
pub fn parse(text: &str) -> (r: Result<Profile, String>)
    ensures
        match r {
            Ok(p) => profile_in(text@) == Ok::<Choice, Seq<char>>(p@),
            Err(e) => profile_in(text@) == Err::<Choice, Seq<char>>(e@),
        },
{
    let ls = lines(text);
    let ghost all = lines_of(text@);
    let mut f = Fields { name: None, ppd: None, watts: None, curve: None, charge: None };
    let mut i: usize = 0;
    assert(views(ls@).len() == ls@.len());
    while i < ls.len()
        invariant
            i <= ls@.len(),
            views(ls@) == all,
            all == lines_of(text@),
            drafted(all, i as int) == Ok::<Draft, Seq<char>>(f.draft()),
        decreases ls@.len() - i,
    {
        assert(all[i as int] == ls@[i as int]@);
        if let Err(e) = f.read_line(ls[i]) {
            proof {
                lemma_first_bad_line(all, i + 1);
            }
            return Err(line_error(i + 1, e.as_str()));
        }
        i = i + 1;
    }
    let name = match f.name {
        None => {
            return Err("no name".to_owned());
        },
        Some(n) => n,
    };
    let ppd = match f.ppd {
        None => {
            return Err("no ppd (power-saver, balanced or performance)".to_owned());
        },
        Some(p) => p,
    };
    let pl1_watts: u32 = match f.watts {
        None => {
            return Err("no pl1_watts".to_owned());
        },
        Some(w) => w,
    };
    let curve = match f.curve {
        None => {
            return Err("no curve".to_owned());
        },
        Some(c) => c,
    };
    let profile = Profile { name, ppd, pl1_watts, curve, charge_limit: f.charge };
    match profile.validate() {
        Ok(()) => Ok(profile),
        Err(e) => Err(e.text()),
    }
}

/// The first profile of a name, from profile `i` on.
pub open spec fn named_from(s: Seq<Choice>, name: Seq<char>, i: int) -> Option<int>
    decreases s.len() - i,
{
    if i >= s.len() {
        None
    } else if s[i].name == name {
        Some(i)
    } else {
        named_from(s, name, i + 1)
    }
}

/// The profile of a name.
pub open spec fn lookup(s: Seq<Choice>, name: Seq<char>) -> Option<Choice> {
    match named_from(s, name, 0) {
        Some(i) => Some(s[i]),
        None => None,
    }
}

/// A profile that is found is one of those known, and has the name.
pub(crate) proof fn lookup_finds(s: Seq<Choice>, name: Seq<char>)
    ensures
        lookup(s, name) matches Some(p) ==> p.name == name && exists|i: int|
            0 <= i < s.len() && #[trigger] s[i] == p,
{
    lemma_named_from(s, name, 0);
}

/// The profiles with one more: in place of the one of its name, or behind the others.
pub open spec fn merged(s: Seq<Choice>, p: Choice) -> Seq<Choice> {
    match named_from(s, p.name, 0) {
        Some(i) => s.update(i, p),
        None => s.push(p),
    }
}

/// Whether a path ends in a file name with the extension `conf`.
pub open spec fn is_conf(path: Seq<char>) -> bool {
    let n = path.len() as int;
    n > 5 && path.subrange(n - 5, n) == ".conf"@ && path[n - 6] != '/'
}

/// A profile file: its path and what reading it gave.
#[derive(Debug, PartialEq, Eq)]
pub struct ProfileFile {
    pub path: String,
    pub text: Answer,
}

/// The profiles in force, and what to log about how they came to be.
#[derive(Debug, PartialEq, Eq)]
pub struct Loaded {
    pub profiles: Vec<Profile>,
    pub log: Vec<String>,
}

/// The profiles and the log once one more file was looked at.
pub open spec fn with_file(had: (Seq<Choice>, Seq<Seq<char>>), f: ProfileFile) -> (
    Seq<Choice>,
    Seq<Seq<char>>,
) {
    if !is_conf(f.path@) {
        had
    } else {
        match f.text {
            Err(e) => (
                had.0,
                had.1.push("profile "@ + f.path@ + ": cannot read ("@ + e@.message + ")"@),
            ),
            Ok(t) => match profile_in(t@) {
                Err(e) => (had.0, had.1.push("profile "@ + f.path@ + ": ignored, "@ + e)),
                Ok(p) => (
                    merged(had.0, p),
                    had.1.push(
                        "profile "@ + p.name + (if named_from(had.0, p.name, 0) is Some {
                            ": replaces the built-in"@
                        } else {
                            ": loaded"@
                        }),
                    ),
                ),
            },
        }
    }
}

/// The profiles and the log once the first `n` files in `order` were looked at.
pub open spec fn with_files(files: Seq<ProfileFile>, order: Seq<usize>, n: int) -> (
    Seq<Choice>,
    Seq<Seq<char>>,
)
    decreases n,
{
    if n <= 0 {
        (built_in_choices(), seq![])
    } else {
        with_file(with_files(files, order, n - 1), files[order[n - 1] as int])
    }
}

pub open spec fn paths_of(files: Seq<ProfileFile>) -> Seq<Seq<char>> {
    files.map_values(|f: ProfileFile| f.path@)
}

/// Where the first profile of a name stands.
pub fn position(profiles: &Vec<Profile>, name: &str) -> (r: Option<usize>)
    ensures
        match r {
            Some(i) => i < profiles@.len() && named_from(choices(profiles@), name@, 0) == Some(
                i as int,
            ),
            None => named_from(choices(profiles@), name@, 0) is None,
        },
{
    let mut i: usize = 0;
    while i < profiles.len()
        invariant
            i <= profiles@.len(),
            named_from(choices(profiles@), name@, 0) == named_from(
                choices(profiles@),
                name@,
                i as int,
            ),
        decreases profiles@.len() - i,
    {
        if same(profiles[i].name.as_str(), name) {
            return Some(i);
        }
        i = i + 1;
    }
    None
}

/// Add a profile, replacing the one of its name. Whether it replaced one.
pub fn merge(profiles: &mut Vec<Profile>, profile: Profile) -> (r: bool)
    ensures
        choices(final(profiles)@) == merged(choices(old(profiles)@), profile@),
        r == (named_from(choices(old(profiles)@), profile@.name, 0) is Some),
{
    let ghost had = profiles@;
    match position(profiles, profile.name.as_str()) {
        Some(i) => {
            profiles.set(i, profile);
            assert(choices(profiles@) =~= choices(had).update(i as int, profile@));
            true
        },
        None => {
            profiles.push(profile);
            assert(choices(profiles@) =~= choices(had).push(profile@));
            false
        },
    }
}

/// Whether a file of the profile directory is one that describes a profile.
pub fn conf(path: &str) -> (r: bool)
    ensures
        r == is_conf(path@),
{
    let n: usize = path.unicode_len();
    n > 5 && same(path.substring_char(n - 5, n), ".conf") && path.get_char(n - 6) != '/'
}

/// The built-ins, then what user files replace or add to them.
///
/// The files are taken in the order of their paths, so that two files defining the same
/// name resolve the same way every time, whatever order a directory lists them in.
pub fn load_from(files: &Vec<ProfileFile>) -> (r: Loaded)
    ensures
        exists|order: Seq<usize>|
            #![trigger is_order(paths_of(files@), order)]
            is_order(paths_of(files@), order) && with_files(files@, order, order.len() as int) == (
                choices(r.profiles@),
                texts(r.log@),
            ),
{
    let mut names: Vec<&str> = Vec::new();
    let mut k: usize = 0;
    while k < files.len()
        invariant
            k <= files@.len(),
            names@.len() == k,
            forall|i: int| 0 <= i < k ==> (#[trigger] names@[i])@ == files@[i].path@,
        decreases files@.len() - k,
    {
        names.push(files[k].path.as_str());
        k = k + 1;
    }
    assert(views(names@) =~= paths_of(files@));
    let order = sorted_order(&names);
    let mut profiles = Profile::built_ins();
    let mut log: Vec<String> = Vec::new();
    let mut n: usize = 0;
    assert(texts(log@) =~= seq![]);
    while n < order.len()
        invariant
            n <= order@.len(),
            is_order(paths_of(files@), order@),
            with_files(files@, order@, n as int) == (choices(profiles@), texts(log@)),
        decreases order@.len() - n,
    {
        let f = &files[order[n]];
        let ghost had = log@;
        if conf(f.path.as_str()) {
            let mut line = "profile ".to_owned();
            match &f.text {
                Err(e) => {
                    line.append(f.path.as_str());
                    line.append(": cannot read (");
                    line.append(e.text().as_str());
                    line.append(")");
                },
                Ok(t) => match parse(t.as_str()) {
                    Err(e) => {
                        line.append(f.path.as_str());
                        line.append(": ignored, ");
                        line.append(e.as_str());
                    },
                    Ok(p) => {
                        line.append(p.name.as_str());
                        if merge(&mut profiles, p) {
                            line.append(": replaces the built-in");
                        } else {
                            line.append(": loaded");
                        }
                    },
                },
            }
            log.push(line);
            assert(texts(log@) =~= texts(had).push(line@));
        }
        n = n + 1;
    }
    Loaded { profiles, log }
}

/// The built-ins, then what the user files of [`PROFILE_DIR`] replace or add to them.
pub fn load(files: &Vec<ProfileFile>) -> (r: Loaded)
    ensures
        exists|order: Seq<usize>|
            #![trigger is_order(paths_of(files@), order)]
            is_order(paths_of(files@), order) && with_files(files@, order, order.len() as int) == (
                choices(r.profiles@),
                texts(r.log@),
            ),
{
    load_from(files)
}

/// No two profiles have the same name.
pub open spec fn distinct_names(s: Seq<Choice>) -> bool {
    forall|i: int, j: int| 0 <= i < j < s.len() ==> s[i].name != s[j].name
}

proof fn lemma_named_from(s: Seq<Choice>, name: Seq<char>, i: int)
    requires
        0 <= i <= s.len(),
    ensures
        match named_from(s, name, i) {
            Some(k) => i <= k < s.len() && s[k].name == name && forall|j: int|
                i <= j < k ==> (#[trigger] s[j]).name != name,
            None => forall|j: int| i <= j < s.len() ==> (#[trigger] s[j]).name != name,
        },
    decreases s.len() - i,
{
    if i < s.len() {
        lemma_named_from(s, name, i + 1);
    }
}

proof fn lemma_named_is(s: Seq<Choice>, name: Seq<char>, i: int, k: int)
    requires
        0 <= i <= k < s.len(),
        s[k].name == name,
        forall|j: int| i <= j < k ==> (#[trigger] s[j]).name != name,
    ensures
        named_from(s, name, i) == Some(k),
    decreases k - i,
{
    if i < k {
        assert(s[i].name != name);
        lemma_named_is(s, name, i + 1, k);
    }
}

/// A file that names an existing profile replaces it and nothing else; one under a new name
/// is added. Names stay distinct.
pub proof fn merging_replaces_by_name(s: Seq<Choice>, p: Choice, other: Seq<char>)
    requires
        distinct_names(s),
    ensures
        lookup(merged(s, p), p.name) == Some(p),
        other != p.name ==> lookup(merged(s, p), other) == lookup(s, other),
        distinct_names(merged(s, p)),
        merged(s, p).len() == (if lookup(s, p.name) is Some {
            s.len()
        } else {
            s.len() + 1
        }),
{
    lemma_named_from(s, p.name, 0);
    lemma_named_from(s, other, 0);
    let t = merged(s, p);
    lemma_named_from(t, other, 0);
    match named_from(s, p.name, 0) {
        Some(i) => {
            lemma_named_is(t, p.name, 0, i);
        },
        None => {
            lemma_named_is(t, p.name, 0, s.len() as int);
        },
    }
    if other != p.name {
        match named_from(s, other, 0) {
            Some(k) => {
                assert(t[k] == s[k]);
                assert forall|j: int| 0 <= j < k implies (#[trigger] t[j]).name != other by {
                    if t[j] != p {
                        assert(t[j] == s[j]);
                    }
                }
                lemma_named_is(t, other, 0, k);
            },
            None => {
                assert forall|j: int| 0 <= j < t.len() implies (#[trigger] t[j]).name != other by {
                    if t[j] != p {
                        assert(t[j] == s[j]);
                    }
                }
            },
        }
    }
}

/// Losing every profile over one typo would be worse than running without one: a file that
/// is no profile, cannot be read or does not parse leaves the profiles as they were.
pub proof fn a_bad_file_changes_no_profile(had: (Seq<Choice>, Seq<Seq<char>>), f: ProfileFile)
    requires
        !is_conf(f.path@) || f.text is Err || (f.text matches Ok(t) && profile_in(t@) is Err),
    ensures
        with_file(had, f).0 == had.0,
{
}

/// Whatever the files hold, no two profiles in force share a name, and there are at least
/// as many as there are built-ins.
pub proof fn loaded_names_are_distinct(files: Seq<ProfileFile>, order: Seq<usize>, n: int)
    ensures
        distinct_names(with_files(files, order, n).0),
        with_files(files, order, n).0.len() >= built_in_choices().len(),
    decreases n,
{
    if n <= 0 {
        reveal_strlit("quiet");
        reveal_strlit("balanced");
        reveal_strlit("performance");
        assert("quiet"@.len() == 5 && "balanced"@.len() == 8 && "performance"@.len() == 11);
    } else {
        loaded_names_are_distinct(files, order, n - 1);
        let had = with_files(files, order, n - 1);
        let f = files[order[n - 1] as int];
        if let Ok(t) = f.text {
            if let Ok(p) = profile_in(t@) {
                merging_replaces_by_name(had.0, p, p.name);
            }
        }
    }
}

proof fn lemma_drafted_curve(ls: Seq<Seq<char>>, n: int)
    ensures
        drafted(ls, n) matches Ok(d) ==> (d.curve matches Some(c) ==> curve_fault(c) is None),
        drafted(ls, n) matches Err(e) ==> exists|k: int, what: Seq<char>|
            1 <= k <= n && e == #[trigger] at_line(k as nat, what),
    decreases n,
{
    if n > 0 {
        lemma_drafted_curve(ls, n - 1);
        if let Ok(d) = drafted(ls, n - 1) {
            if let Err(what) = with_line(d, ls[n - 1]) {
                assert(drafted(ls, n) == Err::<Draft, Seq<char>>(at_line(n as nat, what)));
            }
        }
    }
}

/// A file that parses describes a profile that validates, with a curve that the daemon
/// accepts. One that does not is faulted for one of its lines, by number, or for the profile
/// that its lines make up.
pub proof fn a_parsed_profile_is_valid(text: Seq<char>)
    ensures
        match profile_in(text) {
            Ok(p) => profile_fault(p) is None && valid_curve(p.curve),
            Err(e) => (exists|k: int, what: Seq<char>|
                1 <= k <= lines_of(text).len() && e == #[trigger] at_line(k as nat, what)) || (
            drafted(lines_of(text), lines_of(text).len() as int) matches Ok(d) && finished(d)
                == Err::<Choice, Seq<char>>(e)),
        },
{
    let ls = lines_of(text);
    lemma_drafted_curve(ls, ls.len() as int);
    if let Ok(p) = profile_in(text) {
        crate::curve::a_curve_without_a_fault_is_valid(p.curve);
    }
}

/// Whatever the files hold, every profile in force validates.
pub proof fn loaded_profiles_are_valid(files: Seq<ProfileFile>, order: Seq<usize>, n: int, i: int)
    requires
        0 <= i < with_files(files, order, n).0.len(),
    ensures
        profile_fault(with_files(files, order, n).0[i]) is None,
        valid_curve(with_files(files, order, n).0[i].curve),
    decreases n,
{
    if n <= 0 {
        built_ins_are_valid(Ppd::PowerSaver);
        built_ins_are_valid(Ppd::Balanced);
        built_ins_are_valid(Ppd::Performance);
        let s = built_in_choices();
        assert(s[0] == built_in(Ppd::PowerSaver));
        assert(s[1] == built_in(Ppd::Balanced));
        assert(s[2] == built_in(Ppd::Performance));
    } else {
        let had = with_files(files, order, n - 1);
        let f = files[order[n - 1] as int];
        if i < had.0.len() {
            loaded_profiles_are_valid(files, order, n - 1, i);
        }
        if let Ok(t) = f.text {
            a_parsed_profile_is_valid(t@);
            if let Ok(p) = profile_in(t@) {
                lemma_named_from(had.0, p.name, 0);
            }
        }
    }
}

/// With no files the built-ins stand.
pub proof fn no_files_leave_the_built_ins_alone(order: Seq<usize>)
    requires
        is_order(paths_of(seq![]), order),
    ensures
        with_files(seq![], order, order.len() as int).0 == built_in_choices(),
{
    assert(paths_of(seq![]).len() == 0);
}

proof fn lemma_pair_point(w: Seq<char>, t: Seq<char>, d: Seq<char>, p: Point)
    requires
        trimmed(w) == w,
        halves(w, ':') == Some((t, d)),
        trimmed(t) == t,
        trimmed(d) == d,
        milli(t, true) == Some(p.celsius as int),
        unsigned(d, u8::MAX as nat) == Ok::<nat, NumberError>(p.duty as nat),
    ensures
        pair_spot(w) == Ok::<Spot, Seq<char>>(Spot::At(p)),
{
}

/// A number and a run of digits with a colon between them: nothing to trim, and the colon
/// parts them.
proof fn lemma_number_pair(t: Seq<char>, d: Seq<char>)
    requires
        t.len() > 0,
        d.len() > 0,
        is_digit(t[0]) && is_digit(t.last()),
        forall|i: int| 0 <= i < t.len() ==> is_digit(#[trigger] t[i]) || t[i] == '.',
        all_digits(d),
    ensures
        trimmed(t + seq![':'] + d) == t + seq![':'] + d,
        trimmed(t) == t,
        trimmed(d) == d,
        halves(t + seq![':'] + d, ':') == Some((t, d)),
        forall|i: int| 0 <= i < (t + seq![':'] + d).len() ==> pair_char(#[trigger] (t + seq![':'] + d)[i]),
{
    let w = t + seq![':'] + d;
    assert(is_digit(d[0]) && is_digit(d.last()));
    assert(w[0] == t[0] && w.last() == d.last());
    lemma_trimmed_same(w);
    lemma_trimmed_same(t);
    lemma_trimmed_same(d);
    assert forall|i: int| 0 <= i < t.len() implies t[i] != ':' by {
        assert(is_digit(t[i]) || t[i] == '.');
    }
    lemma_halves(t, ':', d);
    assert forall|i: int| 0 <= i < w.len() implies pair_char(#[trigger] w[i]) by {
        if i < t.len() {
            assert(w[i] == t[i]);
        } else if i > t.len() {
            assert(w[i] == d[i - t.len() - 1]);
        }
    }
}

/// A character that a written pair can hold.
spec fn pair_char(c: char) -> bool {
    is_digit(c) || c == '.' || c == ':'
}

/// A pair in full, to the thousandth of a degree.
pub open spec fn exact_pair(p: Point) -> Seq<char> {
    thousandths(p.celsius as nat) + seq![':'] + decimal(p.duty as nat)
}

/// Points in full, with commas between them.
pub open spec fn exact_curve(s: Seq<Point>) -> Seq<char>
    decreases s.len(),
{
    if s.len() == 0 {
        seq![]
    } else if s.len() == 1 {
        exact_pair(s[0])
    } else {
        exact_curve(s.drop_last()) + seq![','] + exact_pair(s.last())
    }
}

/// A pair reads back as itself.
proof fn lemma_pair_reads_back(p: Point)
    requires
        0 <= p.celsius,
    ensures
        pair_spot(exact_pair(p)) == Ok::<Spot, Seq<char>>(Spot::At(p)),
        forall|i: int| 0 <= i < exact_pair(p).len() ==> pair_char(#[trigger] exact_pair(p)[i]),
        exact_pair(p).len() > 0,
{
    let t = thousandths(p.celsius as nat);
    let d = decimal(p.duty as nat);
    lemma_thousandths(p.celsius as nat);
    lemma_decimal(p.duty as nat);
    lemma_number_pair(t, d);
    assert(milli(t, true) == Some(p.celsius as int)) by {
        thousandths_read_back(p.celsius as nat, true);
    }
    assert(unsigned(d, u8::MAX as nat) == Ok::<nat, NumberError>(p.duty as nat)) by {
        decimal_reads_back(p.duty as nat, u8::MAX as nat);
    }
    lemma_pair_point(exact_pair(p), t, d, p);
}

spec fn spots_of(s: Seq<Point>) -> Seq<Spot> {
    s.map_values(|p: Point| Spot::At(p))
}

proof fn lemma_all_points(s: Seq<Point>, n: int)
    requires
        0 <= n <= s.len(),
    ensures
        points_before(spots_of(s), n) == s.take(n),
    decreases n,
{
    if n > 0 {
        lemma_all_points(s, n - 1);
        assert(s.take(n - 1).push(s[n - 1]) =~= s.take(n));
    } else {
        assert(s.take(0) =~= seq![]);
    }
}

proof fn lemma_pairs_read_back(s: Seq<Point>)
    requires
        s.len() > 0,
        forall|i: int| 0 <= i < s.len() ==> 0 <= (#[trigger] s[i]).celsius,
    ensures
        parts(exact_curve(s), ',').len() == s.len(),
        pair_spots(parts(exact_curve(s), ','), s.len() as int) == Ok::<Seq<Spot>, Seq<char>>(
            spots_of(s),
        ),
        forall|i: int|
            0 <= i < exact_curve(s).len() ==> pair_char(#[trigger] exact_curve(s)[i])
                || exact_curve(s)[i] == ',',
        exact_curve(s).len() > 0,
    decreases s.len(),
{
    let n = s.len() as int;
    let last = exact_pair(s.last());
    lemma_pair_reads_back(s.last());
    assert forall|i: int| 0 <= i < last.len() implies last[i] != ',' by {
        assert(pair_char(last[i]));
    }
    if n == 1 {
        assert(exact_curve(s) == last);
        lemma_parts_one(last, ',');
        assert(parts(last, ',') =~= seq![last]);
        reveal_with_fuel(pair_spots, 2);
        assert(seq![].push(Spot::At(s[0])) =~= spots_of(s));
    } else {
        let t = s.drop_last();
        let front = exact_curve(t);
        let w = exact_curve(s);
        lemma_pairs_read_back(t);
        let had = parts(front, ',');
        lemma_parts_push(front, ',', last);
        assert(w == front + seq![','] + last);
        let all = parts(w, ',');
        assert(all == had.push(last));
        lemma_pair_spots_prefix(had, last, n - 1);
        assert(all[n - 1] == last);
        assert(spots_of(t).push(Spot::At(s.last())) =~= spots_of(s));
        assert forall|i: int| 0 <= i < w.len() implies pair_char(#[trigger] w[i]) || w[i] == ',' by {
            if i < front.len() {
                assert(w[i] == front[i]);
            } else if i > front.len() {
                assert(w[i] == last[i - front.len() - 1]);
            }
        }
    }
}

proof fn lemma_pair_spots_prefix(had: Seq<Seq<char>>, last: Seq<char>, n: int)
    requires
        0 <= n <= had.len(),
    ensures
        pair_spots(had.push(last), n) == pair_spots(had, n),
    decreases n,
{
    if n > 0 {
        lemma_pair_spots_prefix(had, last, n - 1);
        assert(had.push(last)[n - 1] == had[n - 1]);
    }
}

/// A curve written in full reads back as itself.
pub proof fn a_curve_in_full_reads_back(s: Seq<Point>)
    requires
        valid_curve(s),
    ensures
        curve_in(exact_curve(s)) == Ok::<Seq<Point>, Seq<char>>(s),
{
    lemma_pairs_read_back(s);
    lemma_all_points(s, s.len() as int);
    assert(s.take(s.len() as int) =~= s);
    crate::curve::a_curve_without_a_fault_is_valid(s);
}

/// At whole degrees the command line's form is the full one.
proof fn lemma_whole_degrees(s: Seq<Point>)
    requires
        forall|i: int| 0 <= i < s.len() ==> 0 <= (#[trigger] s[i]).celsius && s[i].celsius % 1000 == 0,
    ensures
        cli_text(as_pairs(s)) == exact_curve(s),
    decreases s.len(),
{
    if s.len() > 0 {
        let p = s.last();
        lemma_whole_degrees(s.drop_last());
        assert(as_pairs(s.drop_last()) =~= as_pairs(s).drop_last());
        assert(no_places(p.celsius as int) =~= decimal((p.celsius / 1000) as nat));
        assert(thousandths(p.celsius as nat) =~= decimal((p.celsius / 1000) as nat));
        assert(pair_text((p.celsius, p.duty)) == exact_pair(p));
        assert(as_pairs(s).last() == (p.celsius, p.duty));
    }
}

/// A curve at whole degrees, written as a command-line argument, reads back as itself.
pub proof fn a_curve_survives_the_command_line(s: Seq<Point>)
    requires
        valid_curve(s),
        forall|i: int| 0 <= i < s.len() ==> (#[trigger] s[i]).celsius % 1000 == 0,
    ensures
        curve_in(cli_text(as_pairs(s))) == Ok::<Seq<Point>, Seq<char>>(s),
{
    lemma_whole_degrees(s);
    a_curve_in_full_reads_back(s);
}

/// Write a curve in full.
fn curve_text(points: &[Point]) -> (r: String)
    requires
        forall|i: int| 0 <= i < points@.len() ==> 0 <= (#[trigger] points@[i]).celsius,
    ensures
        r@ == exact_curve(points@),
{
    let mut out = String::new();
    let mut i: usize = 0;
    proof {
        reveal_strlit(",");
        reveal_strlit(":");
        assert(","@ =~= seq![',']);
        assert(":"@ =~= seq![':']);
    }
    assert(points@.take(0) =~= seq![]);
    assert(out@ =~= seq![]);
    while i < points.len()
        invariant
            i <= points@.len(),
            forall|i: int| 0 <= i < points@.len() ==> 0 <= (#[trigger] points@[i]).celsius,
            out@ == exact_curve(points@.take(i as int)),
            ","@ == seq![','],
            ":"@ == seq![':'],
        decreases points@.len() - i,
    {
        let p: Point = points[i];
        let ghost next = points@.take(i + 1);
        assert(next.drop_last() =~= points@.take(i as int));
        assert(next.last() == p);
        let mut pair = thousandths_text(p.celsius as u64);
        pair.append(":");
        pair.append(decimal_text(p.duty as u64).as_str());
        assert(pair@ == exact_pair(p));
        if i > 0 {
            out.append(",");
        }
        out.append(pair.as_str());
        proof {
            if i == 0 {
                assert(out@ =~= exact_pair(p));
                assert(next[0] == p);
            }
        }
        i = i + 1;
    }
    assert(points@.take(i as int) =~= points@);
    out
}

/// One `key = value` line.
pub open spec fn key_line(key: Seq<char>, value: Seq<char>) -> Seq<char> {
    key + seq![' ', '=', ' '] + value
}

/// The lines of a profile's file.
pub open spec fn profile_lines(p: Choice) -> Seq<Seq<char>> {
    seq![
        key_line("name"@, p.name),
        key_line("ppd"@, ppd_name(p.ppd)),
        key_line("pl1_watts"@, decimal(p.pl1_watts as nat)),
        key_line("curve"@, exact_curve(p.curve)),
    ] + (match p.charge_limit {
        Some(l) => seq![key_line("charge_limit"@, decimal(l as nat))],
        None => seq![],
    })
}

/// A text that a line can hold as it is: no white space, and nothing that means something.
spec fn bare(s: Seq<char>) -> bool {
    s.len() > 0 && forall|i: int|
        0 <= i < s.len() ==> !is_white(#[trigger] s[i]) && s[i] != '#' && s[i] != '='
}

/// A line of bare texts sets its key to its value.
proof fn lemma_key_line(d: Draft, key: Seq<char>, value: Seq<char>)
    requires
        bare(key),
        bare(value),
    ensures
        with_line(d, key_line(key, value)) == with_key(d, key, value),
        is_line(key_line(key, value)),
{
    let line = key_line(key, value);
    let k = key.push(' ');
    let v = seq![' '] + value;
    assert(line =~= k + seq!['='] + v);
    assert forall|i: int| 0 <= i < line.len() implies line[i] != '#' && line[i] != '\n' by {
        if i < key.len() {
            assert(line[i] == key[i]);
        } else if i >= key.len() + 3 {
            assert(line[i] == value[i - key.len() - 3]);
        }
    }
    lemma_before(line, '#', line.len());
    assert(line.take(line.len() as int) =~= line);
    assert(line[0] == key[0] && line.last() == value.last());
    lemma_trimmed_same(line);
    assert forall|i: int| 0 <= i < k.len() implies k[i] != '=' by {
        if i < key.len() {
            assert(k[i] == key[i]);
        }
    }
    lemma_halves(k, '=', v);
    assert(trimmed(k) == key) by {
        assert(k[0] == key[0]);
        assert(k.drop_last() =~= key);
        assert(!is_white(key.last()));
        assert(trim_end(key) == key);
    }
    assert(trimmed(v) == value) by {
        assert(v.skip(1) =~= value);
        assert(!is_white(value[0]) && !is_white(value.last()));
        assert(trim_start(value) == value);
    }
}

proof fn lemma_bare_digits(s: Seq<char>)
    requires
        s.len() > 0,
        forall|i: int| 0 <= i < s.len() ==> pair_char(#[trigger] s[i]) || s[i] == ',',
    ensures
        bare(s),
{
    assert forall|i: int| 0 <= i < s.len() implies !is_white(#[trigger] s[i]) && s[i] != '#' && s[i]
        != '=' by {
        assert(pair_char(s[i]) || s[i] == ',');
    }
}

proof fn lemma_bare_words(ppd: Ppd)
    ensures
        bare("name"@) && bare("ppd"@) && bare("pl1_watts"@) && bare("curve"@) && bare(
            "charge_limit"@,
        ),
        bare(ppd_name(ppd)),
        "name"@.len() == 4 && "ppd"@.len() == 3 && "pl1_watts"@.len() == 9 && "curve"@.len() == 5
            && "charge_limit"@.len() == 12,
{
    reveal_strlit("name");
    reveal_strlit("ppd");
    reveal_strlit("pl1_watts");
    reveal_strlit("curve");
    reveal_strlit("charge_limit");
    reveal_strlit("power-saver");
    reveal_strlit("balanced");
    reveal_strlit("performance");
}

proof fn lemma_bare_name(s: Seq<char>)
    requires
        s.len() > 0,
        simple_name(s),
    ensures
        bare(s),
{
    assert forall|i: int| 0 <= i < s.len() implies !is_white(#[trigger] s[i]) && s[i] != '#' && s[i]
        != '=' by {
        assert(simple_char(s[i]));
    }
}

/// One line more sets one thing more.
proof fn lemma_next_line(ls: Seq<Seq<char>>, n: int, had: Draft, key: Seq<char>, value: Seq<char>)
    requires
        0 <= n < ls.len(),
        drafted(ls, n) == Ok::<Draft, Seq<char>>(had),
        ls[n] == key_line(key, value),
        bare(key),
        bare(value),
        with_key(had, key, value) is Ok,
    ensures
        drafted(ls, n + 1) == with_key(had, key, value),
{
    lemma_key_line(had, key, value);
}

/// A profile that validates, and is written to a file, reads back from it as itself.
pub proof fn a_profile_survives_its_file(p: Choice)
    requires
        profile_fault(p) is None,
        valid_curve(p.curve),
    ensures
        profile_in(unlined(profile_lines(p))) == Ok::<Choice, Seq<char>>(p),
{
    let ls = profile_lines(p);
    let curve = exact_curve(p.curve);
    let watts = decimal(p.pl1_watts as nat);
    lemma_bare_words(p.ppd);
    lemma_bare_name(p.name);
    lemma_decimal(p.pl1_watts as nat);
    assert forall|i: int| 0 <= i < watts.len() implies pair_char(#[trigger] watts[i]) || watts[i]
        == ',' by {
        assert(is_digit(watts[i]));
    }
    lemma_bare_digits(watts);
    lemma_pairs_read_back(p.curve);
    lemma_bare_digits(curve);
    let d0 = empty_draft();
    let d1 = Draft { name: Some(p.name), ..d0 };
    let d2 = Draft { ppd: Some(p.ppd), ..d1 };
    let d3 = Draft { watts: Some(p.pl1_watts), ..d2 };
    let d4 = Draft { curve: Some(p.curve), ..d3 };
    assert(drafted(ls, 0) == Ok::<Draft, Seq<char>>(d0));
    lemma_next_line(ls, 0, d0, "name"@, p.name);
    assert(with_key(d1, "ppd"@, ppd_name(p.ppd)) == Ok::<Draft, Seq<char>>(d2)) by {
        Ppd::names_round_trip(p.ppd, p.name);
    }
    lemma_next_line(ls, 1, d1, "ppd"@, ppd_name(p.ppd));
    assert(with_key(d2, "pl1_watts"@, watts) == Ok::<Draft, Seq<char>>(d3)) by {
        decimal_reads_back(p.pl1_watts as nat, u32::MAX as nat);
    }
    lemma_next_line(ls, 2, d2, "pl1_watts"@, watts);
    assert(with_key(d3, "curve"@, curve) == Ok::<Draft, Seq<char>>(d4)) by {
        a_curve_in_full_reads_back(p.curve);
    }
    lemma_next_line(ls, 3, d3, "curve"@, curve);
    lemma_key_line(d0, "name"@, p.name);
    lemma_key_line(d0, "ppd"@, ppd_name(p.ppd));
    lemma_key_line(d0, "pl1_watts"@, watts);
    lemma_key_line(d0, "curve"@, curve);
    if let Some(l) = p.charge_limit {
        let limit = decimal(l as nat);
        lemma_decimal(l as nat);
        assert forall|i: int| 0 <= i < limit.len() implies pair_char(#[trigger] limit[i]) || limit[i]
            == ',' by {
            assert(is_digit(limit[i]));
        }
        lemma_bare_digits(limit);
        assert(with_key(d4, "charge_limit"@, limit) == Ok::<Draft, Seq<char>>(
            Draft { charge: Some(l), ..d4 },
        )) by {
            decimal_reads_back(l as nat, u8::MAX as nat);
        }
        lemma_next_line(ls, 4, d4, "charge_limit"@, limit);
        lemma_key_line(d0, "charge_limit"@, limit);
    }
    assert forall|i: int| 0 <= i < ls.len() implies is_line(#[trigger] ls[i]) by {
        assert(i == 0 || i == 1 || i == 2 || i == 3 || i == 4);
    }
    lemma_lines(ls);
    assert(finished(
        Draft {
            name: Some(p.name),
            ppd: Some(p.ppd),
            watts: Some(p.pl1_watts),
            curve: Some(p.curve),
            charge: p.charge_limit,
        },
    ) == Ok::<Choice, Seq<char>>(p));
}

fn push_key(out: &mut String, key: &str, value: &str)
    ensures
        final(out)@ == old(out)@ + key_line(key@, value@).push('\n'),
{
    proof {
        reveal_strlit(" = ");
        reveal_strlit("\n");
    }
    let ghost had = out@;
    out.append(key);
    out.append(" = ");
    out.append(value);
    out.append("\n");
    assert(out@ =~= had + key_line(key@, value@).push('\n'));
}

/// The text of a profile's file, which a person can edit. Temperatures are written in full, so
/// that a profile that validates reads back as itself.
pub fn profile_text(p: &Profile) -> (r: String)
    ensures
        r@ == unlined(profile_lines(p@)),
        profile_fault(p@) is None ==> profile_in(r@) == Ok::<Choice, Seq<char>>(p@),
{
    let points = p.curve.points();
    let mut out = String::new();
    assert(out@ =~= seq![]);
    push_key(&mut out, "name", p.name.as_str());
    push_key(&mut out, "ppd", p.ppd.as_str());
    push_key(&mut out, "pl1_watts", decimal_text(p.pl1_watts as u64).as_str());
    push_key(&mut out, "curve", curve_text(points).as_str());
    let ghost four = seq![
        key_line("name"@, p@.name),
        key_line("ppd"@, ppd_name(p@.ppd)),
        key_line("pl1_watts"@, decimal(p@.pl1_watts as nat)),
        key_line("curve"@, exact_curve(p@.curve)),
    ];
    proof {
        assert(four.drop_last() =~= seq![four[0], four[1], four[2]]);
        assert(four.drop_last().drop_last() =~= seq![four[0], four[1]]);
        assert(four.drop_last().drop_last().drop_last() =~= seq![four[0]]);
        assert(seq![four[0]].drop_last() =~= Seq::<Seq<char>>::empty());
        reveal_with_fuel(unlined, 5);
        assert(out@ =~= unlined(four));
    }
    if let Some(l) = p.charge_limit {
        push_key(&mut out, "charge_limit", decimal_text(l as u64).as_str());
        proof {
            let all = profile_lines(p@);
            assert(all.drop_last() =~= four);
            assert(all.last() == key_line("charge_limit"@, decimal(l as nat)));
        }
    } else {
        assert(profile_lines(p@) =~= four);
    }
    proof {
        if profile_fault(p@) is None {
            a_profile_survives_its_file(p@);
        }
    }
    out
}

proof fn lemma_named_none(s: Seq<Choice>, name: Seq<char>, i: int)
    requires
        0 <= i <= s.len(),
        forall|j: int| i <= j < s.len() ==> (#[trigger] s[j]).name != name,
    ensures
        named_from(s, name, i) is None,
    decreases s.len() - i,
{
    if i < s.len() {
        assert(s[i].name != name);
        lemma_named_none(s, name, i + 1);
    }
}

/// A list that keeps every profile of a name has the same one first.
pub(crate) proof fn lemma_lookup_filtered(
    s: Seq<Choice>,
    f: spec_fn(Choice) -> bool,
    name: Seq<char>,
)
    requires
        forall|p: Choice| p.name == name ==> #[trigger] f(p),
    ensures
        lookup(s.filter(f), name) == lookup(s, name),
    decreases s.len(),
{
    reveal(Seq::filter);
    if s.len() > 0 {
        let front = s.drop_last();
        lemma_lookup_filtered(front, f, name);
        assert(front.push(s.last()) =~= s);
        lemma_lookup_joined_one(front, s.last(), name);
        if f(s.last()) {
            lemma_lookup_joined_one(front.filter(f), s.last(), name);
        }
    }
}

proof fn lemma_lookup_joined_one(s: Seq<Choice>, p: Choice, name: Seq<char>)
    ensures
        lookup(s.push(p), name) == (match lookup(s, name) {
            Some(x) => Some(x),
            None => if p.name == name {
                Some(p)
            } else {
                None
            },
        }),
{
    let t = s.push(p);
    lemma_named_from(s, name, 0);
    match named_from(s, name, 0) {
        Some(k) => {
            assert(t[k] == s[k]);
            assert forall|j: int| 0 <= j < k implies (#[trigger] t[j]).name != name by {
                assert(t[j] == s[j]);
            }
            lemma_named_is(t, name, 0, k);
        },
        None => {
            let n = s.len() as int;
            assert forall|j: int| 0 <= j < n implies (#[trigger] t[j]).name != name by {
                assert(t[j] == s[j]);
            }
            if p.name == name {
                assert(t[n] == p);
                lemma_named_is(t, name, 0, n);
            } else {
                assert forall|j: int| 0 <= j < t.len() implies (#[trigger] t[j]).name != name by {
                    if j == n {
                        assert(t[j] == p);
                    }
                }
                lemma_named_none(t, name, 0);
            }
        },
    }
}

/// Profiles of other names behind a list change nothing about a name.
pub(crate) proof fn lemma_lookup_joined(s: Seq<Choice>, more: Seq<Choice>, name: Seq<char>)
    requires
        forall|j: int| 0 <= j < more.len() ==> (#[trigger] more[j]).name != name,
    ensures
        lookup(s + more, name) == lookup(s, name),
    decreases more.len(),
{
    if more.len() > 0 {
        let front = more.drop_last();
        assert forall|j: int| 0 <= j < front.len() implies (#[trigger] front[j]).name != name by {
            assert(front[j] == more[j]);
        }
        lemma_lookup_joined(s, front, name);
        assert(s + more =~= (s + front).push(more.last()));
        assert(more[more.len() - 1].name != name);
        lemma_lookup_joined_one(s + front, more.last(), name);
    } else {
        assert(s + more =~= s);
    }
}

/// A name that a list does not hold is looked up behind it.
pub(crate) proof fn lemma_lookup_behind(s: Seq<Choice>, more: Seq<Choice>, name: Seq<char>)
    requires
        forall|j: int| 0 <= j < s.len() ==> (#[trigger] s[j]).name != name,
    ensures
        lookup(s + more, name) == lookup(more, name),
    decreases more.len(),
{
    if more.len() > 0 {
        let front = more.drop_last();
        lemma_lookup_behind(s, front, name);
        assert(s + more =~= (s + front).push(more.last()));
        assert(more =~= front.push(more.last()));
        lemma_lookup_joined_one(s + front, more.last(), name);
        lemma_lookup_joined_one(front, more.last(), name);
    } else {
        assert(s + more =~= s);
        lemma_named_none(s, name, 0);
        lemma_named_none(more, name, 0);
    }
}

/// A profile is looked up by its name: what is found has it and is the first that has, and where
/// nothing is found none has.
pub proof fn a_lookup_finds_the_first_of_a_name(s: Seq<Choice>, name: Seq<char>)
    ensures
        lookup(s, name) matches Some(p) ==> exists|k: int|
            0 <= k < s.len() && #[trigger] s[k] == p && p.name == name && forall|j: int|
                0 <= j < k ==> (#[trigger] s[j]).name != name,
        lookup(s, name) is None ==> forall|j: int|
            0 <= j < s.len() ==> (#[trigger] s[j]).name != name,
{
    lemma_named_from(s, name, 0);
}

/// Behind a hash a line says nothing, and a line of white space says nothing at all.
pub proof fn comments_and_blank_lines_set_nothing(d: Draft, a: Seq<char>, b: Seq<char>)
    requires
        forall|i: int| 0 <= i < a.len() ==> a[i] != '#',
    ensures
        with_line(d, a + seq!['#'] + b) == with_line(d, a),
        (forall|i: int| 0 <= i < a.len() ==> is_white(#[trigger] a[i])) ==> with_line(d, a) == Ok::<
            Draft,
            Seq<char>,
        >(d),
{
    let w = a + seq!['#'] + b;
    lemma_before(w, '#', a.len());
    lemma_before(a, '#', a.len());
    assert(w.take(a.len() as int) =~= a);
    assert(a.take(a.len() as int) =~= a);
    if forall|i: int| 0 <= i < a.len() ==> is_white(#[trigger] a[i]) {
        let ends = trimming_drops_the_white_space_around(a);
        if trimmed(a).len() > 0 {
            assert(trimmed(a)[0] == a[ends.0]);
        }
    }
}

/// Each key sets what it names and leaves the rest as it was: a name, PPD's profile by its name,
/// a number of watts, a percentage. A number that does not fit is refused, and so is a key that
/// is none of these.
pub proof fn a_key_sets_what_it_names(d: Draft, n: nat, p: Ppd, key: Seq<char>, value: Seq<char>)
    ensures
        with_key(d, "name"@, value) == Ok::<Draft, Seq<char>>(Draft { name: Some(value), ..d }),
        with_key(d, "ppd"@, ppd_name(p)) == Ok::<Draft, Seq<char>>(Draft { ppd: Some(p), ..d }),
        n <= u32::MAX ==> with_key(d, "pl1_watts"@, decimal(n)) == Ok::<Draft, Seq<char>>(
            Draft { watts: Some(n as u32), ..d },
        ),
        n > u32::MAX ==> with_key(d, "pl1_watts"@, decimal(n)) is Err,
        n <= 255 ==> with_key(d, "charge_limit"@, decimal(n)) == Ok::<Draft, Seq<char>>(
            Draft { charge: Some(n as u8), ..d },
        ),
        n > 255 ==> with_key(d, "charge_limit"@, decimal(n)) is Err,
        key != "name"@ && key != "ppd"@ && key != "pl1_watts"@ && key != "curve"@ && key
            != "charge_limit"@ ==> with_key(d, key, value) is Err,
        with_key(d, "curve"@, value) matches Ok(x) ==> curve_in(value) matches Ok(s) && x == (Draft {
            curve: Some(s),
            ..d
        }),
        with_key(d, "curve"@, value) is Ok <==> curve_in(value) is Ok,
{
    reveal_strlit("name");
    reveal_strlit("ppd");
    reveal_strlit("pl1_watts");
    reveal_strlit("curve");
    reveal_strlit("charge_limit");
    assert("name"@.len() == 4 && "ppd"@.len() == 3 && "pl1_watts"@.len() == 9 && "curve"@.len() == 5
        && "charge_limit"@.len() == 12);
    Ppd::names_round_trip(p, value);
    decimal_reads_back(n, u32::MAX as nat);
    decimal_reads_back(n, u8::MAX as nat);
}

/// A file is faulted for the first line that is wrong, by its number.
pub proof fn the_first_bad_line_is_named(ls: Seq<Seq<char>>, n: int)
    requires
        0 <= n <= ls.len(),
    ensures
        drafted(ls, n) matches Err(e) ==> exists|k: int|
            1 <= k <= n && (#[trigger] drafted(ls, k - 1) matches Ok(d) && with_line(
                d,
                ls[k - 1],
            ) matches Err(what) && e == "line "@ + decimal(k as nat) + ": "@ + what),
    decreases n,
{
    if n > 0 {
        the_first_bad_line_is_named(ls, n - 1);
        if drafted(ls, n) is Err {
            if let Ok(d) = drafted(ls, n - 1) {
                assert(drafted(ls, n - 1) is Ok);
            }
        }
    }
}

/// A file makes a profile exactly where it gives a name, PPD's profile, a power budget and a
/// curve, and these are in range. The profile is what the file gives, with a charge limit only
/// where the file has one.
pub proof fn a_profile_is_what_its_file_gives(d: Draft)
    ensures
        finished(d) matches Ok(p) ==> {
            &&& d.name == Some(p.name) && d.ppd == Some(p.ppd) && d.watts == Some(p.pl1_watts)
            &&& d.curve == Some(p.curve) && d.charge == p.charge_limit
            &&& profile_fault(p) is None
        },
        finished(d) is Err ==> d.name is None || d.ppd is None || d.watts is None || d.curve is None
            || profile_fault(
            Choice {
                name: d.name->0,
                ppd: d.ppd->0,
                pl1_watts: d.watts->0,
                curve: d.curve->0,
                charge_limit: d.charge,
            },
        ) is Some,
{
}

/// A pair is a temperature and a duty with a colon between them: the temperature to the
/// thousandth, the duty up to 255. Without a colon it is none.
pub proof fn a_pair_is_a_temperature_and_a_duty(m: nat, n: nat, w: Seq<char>)
    requires
        m <= i64::MAX,
    ensures
        n <= 255 ==> pair_spot(thousandths(m) + seq![':'] + decimal(n)) == Ok::<Spot, Seq<char>>(
            Spot::At(Point { celsius: m as i64, duty: n as u8 }),
        ),
        n > 255 ==> pair_spot(thousandths(m) + seq![':'] + decimal(n)) is Err,
        (forall|i: int| 0 <= i < w.len() ==> w[i] != ':') ==> pair_spot(w) is Err,
{
    let (t, d) = (thousandths(m), decimal(n));
    lemma_thousandths(m);
    lemma_decimal(n);
    lemma_number_pair(t, d);
    thousandths_read_back(m, true);
    decimal_reads_back(n, u8::MAX as nat);
    if forall|i: int| 0 <= i < w.len() ==> w[i] != ':' {
        let ends = trimming_drops_the_white_space_around(w);
        let b = trimmed(w);
        assert forall|i: int| 0 <= i < b.len() implies b[i] != ':' by {
            assert(b[i] == w[ends.0 + i]);
        }
        lemma_before(b, ':', b.len());
    }
}

/// A profile file is one whose name ends in `.conf` and is more than that.
pub proof fn a_profile_file_has_a_name_before_its_extension(a: Seq<char>)
    ensures
        is_conf(a + ".conf"@) <==> a.len() > 0 && a.last() != '/',
        is_conf(a) ==> a.len() > 5 && a.skip(a.len() - 5) == ".conf"@,
{
    reveal_strlit(".conf");
    let w = a + ".conf"@;
    assert(".conf"@.len() == 5);
    assert(w.subrange(w.len() - 5, w.len() as int) =~= ".conf"@);
    if is_conf(a) {
        assert(a.skip(a.len() - 5) =~= a.subrange(a.len() - 5, a.len() as int));
    }
}

/// The last file that describes a profile of a name decides what that name stands for, and says
/// nothing of any other.
pub proof fn the_last_file_of_a_name_decides(
    files: Seq<ProfileFile>,
    order: Seq<usize>,
    n: int,
    p: Choice,
    other: Seq<char>,
)
    requires
        0 < n <= order.len(),
        is_conf(files[order[n - 1] as int].path@),
        files[order[n - 1] as int].text matches Ok(t) && profile_in(t@) == Ok::<Choice, Seq<char>>(
            p,
        ),
    ensures
        lookup(with_files(files, order, n).0, p.name) == Some(p),
        other != p.name ==> lookup(with_files(files, order, n).0, other) == lookup(
            with_files(files, order, n - 1).0,
            other,
        ),
        with_files(files, order, 0).0 == built_in_choices(),
{
    loaded_names_are_distinct(files, order, n - 1);
    merging_replaces_by_name(with_files(files, order, n - 1).0, p, other);
}

/// A list of points up to the first temperature that is no finite number: that point is named as
/// implausible, unless a point before it is at fault.
pub proof fn an_odd_temperature_is_named_by_its_place(s: Seq<Spot>, k: int)
    requires
        0 <= k < s.len(),
        s.len() >= 2,
        s[k] is Odd,
        forall|i: int| 0 <= i < k ==> (#[trigger] s[i]) is At,
    ensures
        ({
            let points = Seq::new(k as nat, |i: int| s[i]->At_0);
            curve_of(s) == (match fault_from(points, 0) {
                Some(e) => Err::<Seq<Point>, Seq<char>>(e.spec_text()),
                None => Err(implausible(k as nat, s[k]->Odd_0)),
            })
        }),
{
    let points = Seq::new(k as nat, |i: int| s[i]->At_0);
    lemma_points_before(s, k, s.len() as int);
    assert(points_before(s, s.len() as int) =~= points);
}

proof fn lemma_points_before(s: Seq<Spot>, k: int, n: int)
    requires
        0 <= k <= s.len(),
        forall|i: int| 0 <= i < k ==> (#[trigger] s[i]) is At,
        k < s.len() ==> s[k] is Odd,
        0 <= n <= s.len(),
    ensures
        points_before(s, n) == Seq::new(
            (if n < k {
                n
            } else {
                k
            }) as nat,
            |i: int| s[i]->At_0,
        ),
    decreases n,
{
    let want = Seq::new(
        (if n < k {
            n
        } else {
            k
        }) as nat,
        |i: int| s[i]->At_0,
    );
    if n > 0 {
        lemma_points_before(s, k, n - 1);
        if n <= k {
            assert(s[n - 1] is At);
        }
        assert(points_before(s, n) =~= want);
    } else {
        assert(points_before(s, n) =~= want);
    }
}

/// Points that are all finite make a curve exactly where a curve is accepted, and it is those
/// points in their order.
pub proof fn finite_points_make_their_curve(s: Seq<Spot>)
    requires
        forall|i: int| 0 <= i < s.len() ==> (#[trigger] s[i]) is At,
    ensures
        ({
            let points = Seq::new(s.len(), |i: int| s[i]->At_0);
            &&& curve_fault(points) is None ==> curve_of(s) == Ok::<Seq<Point>, Seq<char>>(points)
            &&& curve_fault(points) matches Some(e) ==> curve_of(s) == Err::<Seq<Point>, Seq<char>>(
                e.spec_text(),
            )
        }),
{
    let points = Seq::new(s.len(), |i: int| s[i]->At_0);
    lemma_points_before(s, s.len() as int, s.len() as int);
    assert(points_before(s, s.len() as int) =~= points);
}

}
