//! Temperature to duty, with the two things that separate a usable fan curve from an
//! irritating one: hysteresis and ramp limiting.
//!
//! A curve produces a *request*. The daemon raises it to the firmware floor and the
//! battery guard afterwards, so smoothing never delays a safety response: that response
//! comes after it and is not smoothed.
//!
//! Temperatures are in thousandths of a degree Celsius; `None` is a temperature nobody
//! could read.

use vstd::prelude::*;
use crate::floor::STICTION_DUTY;
use crate::number::{decimal, decimal_text, one_place, one_place_text};

verus! {

/// How far the temperature must fall below the curve's working point before the duty
/// follows it down. Rising is followed at once; only falling is damped.
pub const HYSTERESIS_C: i64 = 2_000;

/// Largest duty change per tick, upward.
pub const RAMP_UP_PER_TICK: u8 = 12;

/// Largest duty change per tick, downward. Tighter, because a fan winding down in steps is
/// more noticeable than one spinning up.
pub const RAMP_DOWN_PER_TICK: u8 = 4;

/// The hottest point a curve can sensibly describe.
pub const MAX_POINT_C: i64 = 120_000;

#[derive(Debug, Clone, Copy, PartialEq, Eq, Structural)]
pub struct Point {
    pub celsius: i64,
    pub duty: u8,
}

#[derive(Debug, Clone, Copy, PartialEq, Eq, Structural)]
pub enum CurveError {
    TooFewPoints,
    NotAscending { at: usize },
    DutyFalls { at: usize },
    ImplausibleTemperature { at: usize, celsius: i64 },
    /// A duty that cannot turn the fan and is not zero, see [`STICTION_DUTY`].
    UnturnableDuty { at: usize, duty: u8 },
}

/// The message about a point whose temperature, shown as it is, makes no sense.
pub open spec fn implausible(at: nat, shown: Seq<char>) -> Seq<char> {
    "point "@ + decimal(at) + " is at "@ + shown
        + " C, outside the 0-120 C a fan curve can sensibly describe"@
}

/// The message about a point whose temperature, shown as it is, makes no sense.
pub(crate) fn implausible_text(at: usize, shown: &str) -> (r: String)
    ensures
        r@ == implausible(at as nat, shown@),
{
    let mut s = "point ".to_owned();
    s.append(decimal_text(at as u64).as_str());
    s.append(" is at ");
    s.append(shown);
    s.append(" C, outside the 0-120 C a fan curve can sensibly describe");
    s
}

impl CurveError {
    pub open spec fn spec_text(self) -> Seq<char> {
        match self {
            CurveError::TooFewPoints => "a curve needs at least two points"@,
            CurveError::NotAscending { at } => "point "@ + decimal(at as nat)
                + " is not warmer than the one before it; points must ascend"@,
            CurveError::DutyFalls { at } => "point "@ + decimal(at as nat)
                + " asks for less airflow than a cooler point. A curve that falls as it heats is almost certainly a mistake, and the firmware floor would override it anyway"@,
            CurveError::ImplausibleTemperature { at, celsius } => implausible(
                at as nat,
                one_place(celsius as int),
            ),
            CurveError::UnturnableDuty { at, duty } => "point "@ + decimal(at as nat)
                + " asks for duty "@ + decimal(duty as nat)
                + ", which cannot turn the fan: use 0 for a stopped fan or at least "@ + decimal(
                STICTION_DUTY as nat,
            ) + " for a turning one"@,
        }
    }

    /// Every message names something the author can fix.
    pub fn text(&self) -> (r: String)
        ensures
            r@ == self.spec_text(),
    {
        let mut s = "point ".to_owned();
        match self {
            CurveError::TooFewPoints => {
                s = "a curve needs at least two points".to_owned();
            },
            CurveError::NotAscending { at } => {
                s.append(decimal_text(*at as u64).as_str());
                s.append(" is not warmer than the one before it; points must ascend");
            },
            CurveError::DutyFalls { at } => {
                s.append(decimal_text(*at as u64).as_str());
                s.append(
                    " asks for less airflow than a cooler point. A curve that falls as it heats is almost certainly a mistake, and the firmware floor would override it anyway",
                );
            },
            CurveError::ImplausibleTemperature { at, celsius } => {
                s = implausible_text(*at, one_place_text(*celsius).as_str());
            },
            CurveError::UnturnableDuty { at, duty } => {
                s.append(decimal_text(*at as u64).as_str());
                s.append(" asks for duty ");
                s.append(decimal_text(*duty as u64).as_str());
                s.append(", which cannot turn the fan: use 0 for a stopped fan or at least ");
                s.append(decimal_text(STICTION_DUTY as u64).as_str());
                s.append(" for a turning one");
            },
        }
        s
    }
}

/// A duty that stops the fan or turns it.
pub open spec fn honest_duty(d: u8) -> bool {
    d == 0 || d >= STICTION_DUTY
}

/// What a usable curve is: two points or more, each plausible, getting warmer and never
/// asking for less as it does.
pub open spec fn valid_curve(s: Seq<Point>) -> bool {
    &&& s.len() >= 2
    &&& forall|i: int|
        0 <= i < s.len() ==> 0 <= (#[trigger] s[i]).celsius <= MAX_POINT_C && honest_duty(s[i].duty)
    &&& forall|i: int, j: int|
        0 <= i < j < s.len() ==> s[i].celsius < s[j].celsius && s[i].duty <= s[j].duty
}

/// What is wrong with point `i`, if anything: the first fault of those it could have.
pub open spec fn point_fault(s: Seq<Point>, i: int) -> Option<CurveError> {
    if !(0 <= s[i].celsius <= MAX_POINT_C) {
        Some(CurveError::ImplausibleTemperature { at: i as usize, celsius: s[i].celsius })
    } else if !honest_duty(s[i].duty) {
        Some(CurveError::UnturnableDuty { at: i as usize, duty: s[i].duty })
    } else if i > 0 && s[i].celsius <= s[i - 1].celsius {
        Some(CurveError::NotAscending { at: i as usize })
    } else if i > 0 && s[i].duty < s[i - 1].duty {
        Some(CurveError::DutyFalls { at: i as usize })
    } else {
        None
    }
}

/// The fault of the first point at fault, from point `i` on.
pub open spec fn fault_from(s: Seq<Point>, i: int) -> Option<CurveError>
    decreases s.len() - i,
{
    if i >= s.len() {
        None
    } else {
        match point_fault(s, i) {
            Some(e) => Some(e),
            None => fault_from(s, i + 1),
        }
    }
}

/// What is wrong with a list of points as a curve.
pub open spec fn curve_fault(s: Seq<Point>) -> Option<CurveError> {
    if s.len() < 2 {
        Some(CurveError::TooFewPoints)
    } else {
        fault_from(s, 0)
    }
}

/// A list of points has a fault exactly where it is not a usable curve.
pub proof fn a_curve_without_a_fault_is_valid(s: Seq<Point>)
    ensures
        curve_fault(s) is None <==> valid_curve(s),
{
    if s.len() >= 2 {
        if curve_fault(s) is None {
            lemma_no_fault(s, 0);
            assert forall|i: int, j: int| 0 <= i < j < s.len() implies s[i].celsius < s[j].celsius
                && s[i].duty <= s[j].duty by {
                lemma_ascends(s, i, j);
            }
        }
        if valid_curve(s) {
            lemma_valid_no_fault(s, 0);
        }
    }
}

proof fn lemma_no_fault(s: Seq<Point>, i: int)
    requires
        fault_from(s, i) is None,
        0 <= i,
    ensures
        forall|k: int| i <= k < s.len() ==> #[trigger] point_fault(s, k) is None,
        forall|k: int|
            i <= k < s.len() ==> 0 <= (#[trigger] s[k]).celsius <= MAX_POINT_C && honest_duty(
                s[k].duty,
            ),
    decreases s.len() - i,
{
    if i < s.len() {
        lemma_no_fault(s, i + 1);
    }
}

proof fn lemma_ascends(s: Seq<Point>, i: int, j: int)
    requires
        0 <= i < j < s.len(),
        forall|k: int| 0 <= k < s.len() ==> #[trigger] point_fault(s, k) is None,
    ensures
        s[i].celsius < s[j].celsius && s[i].duty <= s[j].duty,
    decreases j - i,
{
    assert(point_fault(s, j) is None);
    if i < j - 1 {
        lemma_ascends(s, i, j - 1);
    }
}

proof fn lemma_valid_no_fault(s: Seq<Point>, i: int)
    requires
        valid_curve(s),
        0 <= i,
    ensures
        fault_from(s, i) is None,
    decreases s.len() - i,
{
    if i < s.len() {
        lemma_valid_no_fault(s, i + 1);
        assert(point_fault(s, i) is None);
    }
}

/// The duty at `c` on the line between two points, to the nearest whole one, a half
/// rounding up.
pub open spec fn blend(c: int, a: Point, b: Point) -> int {
    let run = b.celsius - a.celsius;
    a.duty + (2 * (b.duty - a.duty) * (c - a.celsius) + run) / (2 * run)
}

/// The duty at `c` from point `i` on: on the line to the first point that is as warm.
pub open spec fn duty_from(s: Seq<Point>, c: int, i: int) -> int
    decreases s.len() - i,
{
    if i >= s.len() {
        s.last().duty as int
    } else if c <= s[i].celsius {
        blend(c, s[i - 1], s[i])
    } else {
        duty_from(s, c, i + 1)
    }
}

/// The duty a curve asks for: flat beyond its ends, everything where the temperature is
/// unreadable.
pub open spec fn curve_duty(s: Seq<Point>, c: Option<i64>) -> int {
    match c {
        None => u8::MAX as int,
        Some(c) => if c <= s[0].celsius {
            s[0].duty as int
        } else if c >= s.last().celsius {
            s.last().duty as int
        } else {
            duty_from(s, c as int, 1)
        },
    }
}

proof fn lemma_blend(c: int, a: Point, b: Point)
    requires
        a.celsius < b.celsius,
        a.duty <= b.duty,
        a.celsius <= c <= b.celsius,
    ensures
        a.duty <= blend(c, a, b) <= b.duty,
        c == a.celsius ==> blend(c, a, b) == a.duty,
        c == b.celsius ==> blend(c, a, b) == b.duty,
{
    let run = b.celsius - a.celsius;
    let rise = b.duty - a.duty;
    let over = c - a.celsius;
    let n = 2 * rise * over;
    assert(0 <= n <= 2 * rise * run) by (nonlinear_arith)
        requires
            n == 2 * rise * over,
            0 <= over <= run,
            0 <= rise,
    ;
    assert(0 <= (n + run) / (2 * run) <= rise) by (nonlinear_arith)
        requires
            0 <= n <= 2 * rise * run,
            run > 0,
            rise >= 0,
    ;
    if c == a.celsius {
        assert(n == 0) by (nonlinear_arith)
            requires
                n == 2 * rise * over,
                over == 0,
        ;
        assert(run / (2 * run) == 0) by (nonlinear_arith)
            requires
                run > 0,
        ;
    }
    if c == b.celsius {
        assert((n + run) / (2 * run) == rise) by (nonlinear_arith)
            requires
                n == 2 * rise * run,
                run > 0,
        ;
    }
}

proof fn lemma_blend_grows(c: int, d: int, a: Point, b: Point)
    requires
        a.celsius < b.celsius,
        a.duty <= b.duty,
        c <= d,
    ensures
        blend(c, a, b) <= blend(d, a, b),
{
    let run = b.celsius - a.celsius;
    let rise = b.duty - a.duty;
    let n = 2 * rise * (c - a.celsius) + run;
    let m = 2 * rise * (d - a.celsius) + run;
    assert(n <= m) by (nonlinear_arith)
        requires
            n == 2 * rise * (c - a.celsius) + run,
            m == 2 * rise * (d - a.celsius) + run,
            c <= d,
            rise >= 0,
    ;
    assert(n / (2 * run) <= m / (2 * run)) by (nonlinear_arith)
        requires
            n <= m,
            run > 0,
    ;
}

proof fn lemma_duty_from_bounds(s: Seq<Point>, c: int, i: int)
    requires
        valid_curve(s),
        1 <= i <= s.len(),
        s[i - 1].celsius <= c,
    ensures
        s[i - 1].duty <= duty_from(s, c, i) <= s.last().duty,
    decreases s.len() - i,
{
    if i < s.len() {
        if c <= s[i].celsius {
            lemma_blend(c, s[i - 1], s[i]);
        } else {
            lemma_duty_from_bounds(s, c, i + 1);
        }
    }
}

proof fn lemma_duty_from_grows(s: Seq<Point>, c: int, d: int, i: int)
    requires
        valid_curve(s),
        1 <= i <= s.len(),
        s[i - 1].celsius <= c <= d,
    ensures
        duty_from(s, c, i) <= duty_from(s, d, i),
    decreases s.len() - i,
{
    if i < s.len() {
        if d <= s[i].celsius {
            lemma_blend_grows(c, d, s[i - 1], s[i]);
        } else if c <= s[i].celsius {
            lemma_blend(c, s[i - 1], s[i]);
            lemma_duty_from_bounds(s, d, i + 1);
        } else {
            lemma_duty_from_grows(s, c, d, i + 1);
        }
    }
}

proof fn lemma_duty_from_point(s: Seq<Point>, i: int, k: int)
    requires
        valid_curve(s),
        1 <= i <= k < s.len(),
    ensures
        duty_from(s, s[k].celsius as int, i) == s[k].duty,
    decreases k - i,
{
    if i < k {
        lemma_duty_from_point(s, i + 1, k);
    } else {
        lemma_blend(s[k].celsius as int, s[i - 1], s[i]);
    }
}

/// A curve never asks for less as it heats, and stays between its first and last duty.
pub proof fn curve_duty_rises_with_temperature(s: Seq<Point>, c: i64, d: i64)
    requires
        valid_curve(s),
        c <= d,
    ensures
        s[0].duty <= curve_duty(s, Some(c)) <= curve_duty(s, Some(d)) <= s.last().duty,
{
    let n = s.len() as int;
    if s[0].celsius < c < s.last().celsius {
        lemma_duty_from_bounds(s, c as int, 1);
        if d < s.last().celsius {
            lemma_duty_from_grows(s, c as int, d as int, 1);
        }
    }
    if s[0].celsius < d < s.last().celsius {
        lemma_duty_from_bounds(s, d as int, 1);
    }
}

/// A curve passes through the points it was drawn with.
pub proof fn curve_passes_through_its_points(s: Seq<Point>, k: int)
    requires
        valid_curve(s),
        0 <= k < s.len(),
    ensures
        curve_duty(s, Some(s[k].celsius)) == s[k].duty,
{
    if 0 < k < s.len() - 1 {
        lemma_duty_from_point(s, 1, k);
    }
}

/// Between two neighbouring points the duty is that of the straight line through them, to the
/// nearest whole count: it is off by half a count at most, and by a half only upward.
pub proof fn curve_follows_the_line_between_its_points(s: Seq<Point>, k: int, c: i64)
    requires
        valid_curve(s),
        0 < k < s.len(),
        s[k - 1].celsius <= c <= s[k].celsius,
    ensures
        ({
            let (a, b) = (s[k - 1], s[k]);
            let off = 2 * (b.celsius - a.celsius) * (curve_duty(s, Some(c)) - a.duty) - 2 * (b.duty
                - a.duty) * (c - a.celsius);
            -(b.celsius - a.celsius) < off <= b.celsius - a.celsius
        }),
{
    let (a, b) = (s[k - 1], s[k]);
    if c == a.celsius {
        curve_passes_through_its_points(s, k - 1);
        lemma_line_at_start(c as int, a, b, curve_duty(s, Some(c)));
    } else {
        lemma_blend_line(c as int, a, b);
        if c < s.last().celsius {
            lemma_duty_from_segment(s, c as int, 1, k);
        } else {
            curve_passes_through_its_points(s, k);
            lemma_blend(c as int, a, b);
        }
    }
}

proof fn lemma_line_at_start(c: int, a: Point, b: Point, d: int)
    requires
        c == a.celsius,
        d == a.duty,
    ensures
        2 * (b.celsius - a.celsius) * (d - a.duty) - 2 * (b.duty - a.duty) * (c - a.celsius) == 0,
{
    assert(2 * (b.celsius - a.celsius) * (d - a.duty) == 0) by (nonlinear_arith)
        requires
            d == a.duty,
    ;
    assert(2 * (b.duty - a.duty) * (c - a.celsius) == 0) by (nonlinear_arith)
        requires
            c == a.celsius,
    ;
}

proof fn lemma_blend_line(c: int, a: Point, b: Point)
    requires
        a.celsius < b.celsius,
    ensures
        ({
            let off = 2 * (b.celsius - a.celsius) * (blend(c, a, b) - a.duty) - 2 * (b.duty
                - a.duty) * (c - a.celsius);
            -(b.celsius - a.celsius) < off <= b.celsius - a.celsius
        }),
{
    let run = b.celsius - a.celsius;
    let n = 2 * (b.duty - a.duty) * (c - a.celsius);
    let q = (n + run) / (2 * run);
    assert(n - run < 2 * run * q <= n + run) by (nonlinear_arith)
        requires
            q == (n + run) / (2 * run),
            run > 0,
    ;
}

proof fn lemma_duty_from_segment(s: Seq<Point>, c: int, i: int, k: int)
    requires
        valid_curve(s),
        1 <= i <= k < s.len(),
        s[k - 1].celsius < c <= s[k].celsius,
    ensures
        duty_from(s, c, i) == blend(c, s[k - 1], s[k]),
    decreases k - i,
{
    if i < k {
        lemma_duty_from_segment(s, c, i + 1, k);
    }
}

/// Beyond its ends a curve is flat, and a temperature nobody could read asks for everything.
pub proof fn curve_is_flat_beyond_its_ends(s: Seq<Point>, c: i64)
    requires
        valid_curve(s),
    ensures
        c <= s[0].celsius ==> curve_duty(s, Some(c)) == s[0].duty,
        c >= s.last().celsius ==> curve_duty(s, Some(c)) == s.last().duty,
        curve_duty(s, None) == 255,
{
}

/// The curves that are accepted: at least two points between 0 and 120 degrees, each with a
/// duty that stops the fan or turns it, each warmer than the one before and asking for no less.
pub proof fn an_accepted_curve_ascends(s: Seq<Point>)
    ensures
        curve_fault(s) is None <==> {
            &&& s.len() >= 2
            &&& forall|i: int|
                0 <= i < s.len() ==> 0 <= (#[trigger] s[i]).celsius <= 120_000 && (s[i].duty == 0
                    || s[i].duty >= 30)
            &&& forall|i: int|
                0 < i < s.len() ==> s[i - 1].celsius < (#[trigger] s[i]).celsius && s[i - 1].duty
                    <= s[i].duty
        },
{
    a_curve_without_a_fault_is_valid(s);
    if s.len() >= 2 && (forall|i: int|
        0 <= i < s.len() ==> 0 <= (#[trigger] s[i]).celsius <= MAX_POINT_C && (s[i].duty == 0
            || s[i].duty >= STICTION_DUTY)) && (forall|i: int|
        0 < i < s.len() ==> s[i - 1].celsius < (#[trigger] s[i]).celsius && s[i - 1].duty
            <= s[i].duty) {
        assert forall|k: int| 0 <= k < s.len() implies #[trigger] point_fault(s, k) is None by {
            assert(honest_duty(s[k].duty));
            if k > 0 {
                assert(s[k - 1].celsius < s[k].celsius);
            }
        }
        lemma_faultless(s, 0);
    }
}

proof fn lemma_faultless(s: Seq<Point>, i: int)
    requires
        0 <= i,
        forall|k: int| 0 <= k < s.len() ==> #[trigger] point_fault(s, k) is None,
    ensures
        fault_from(s, i) is None,
    decreases s.len() - i,
{
    if i < s.len() {
        assert(point_fault(s, i) is None);
        lemma_faultless(s, i + 1);
    }
}

/// A rejection names the first point that is wrong: every point before it is fine, and the
/// point itself has the fault it is rejected for and none that weighs more.
pub proof fn a_rejection_names_the_first_bad_point(s: Seq<Point>, e: CurveError)
    requires
        s.len() <= usize::MAX,
        curve_fault(s) == Some(e),
    ensures
        e == CurveError::TooFewPoints <==> s.len() < 2,
        !(e is TooFewPoints) ==> exists|k: int|
            {
                let p = #[trigger] s[k];
                &&& 0 <= k < s.len()
                &&& forall|i: int|
                    0 <= i < k ==> 0 <= (#[trigger] s[i]).celsius <= MAX_POINT_C && (s[i].duty == 0
                        || s[i].duty >= STICTION_DUTY)
                &&& forall|i: int|
                    0 < i < k ==> s[i - 1].celsius < (#[trigger] s[i]).celsius && s[i - 1].duty
                        <= s[i].duty
                &&& match e {
                    CurveError::ImplausibleTemperature { at, celsius } => at == k && celsius
                        == p.celsius && (p.celsius < 0 || p.celsius > MAX_POINT_C),
                    CurveError::UnturnableDuty { at, duty } => at == k && duty == p.duty && 0
                        <= p.celsius <= MAX_POINT_C && 0 < p.duty < STICTION_DUTY,
                    CurveError::NotAscending { at } => at == k && k > 0 && 0 <= p.celsius
                        <= MAX_POINT_C && (p.duty == 0 || p.duty >= STICTION_DUTY) && p.celsius
                        <= s[k - 1].celsius,
                    CurveError::DutyFalls { at } => at == k && k > 0 && 0 <= p.celsius
                        <= MAX_POINT_C && (p.duty == 0 || p.duty >= STICTION_DUTY) && p.celsius
                        > s[k - 1].celsius && p.duty < s[k - 1].duty,
                    CurveError::TooFewPoints => false,
                }
            },
{
    if s.len() >= 2 {
        let k = lemma_first_fault(s, 0);
        let p = s[k];
        assert forall|i: int| 0 < i < k implies s[i - 1].celsius < (#[trigger] s[i]).celsius
            && s[i - 1].duty <= s[i].duty by {
            assert(point_fault(s, i) is None);
        }
        assert forall|i: int| 0 <= i < k implies 0 <= (#[trigger] s[i]).celsius <= MAX_POINT_C && (
        s[i].duty == 0 || s[i].duty >= STICTION_DUTY) by {
            assert(point_fault(s, i) is None);
        }
    }
}

proof fn lemma_first_fault(s: Seq<Point>, i: int) -> (k: int)
    requires
        0 <= i,
        fault_from(s, i) is Some,
    ensures
        i <= k < s.len(),
        point_fault(s, k) == fault_from(s, i),
        forall|j: int| i <= j < k ==> #[trigger] point_fault(s, j) is None,
    decreases s.len() - i,
{
    if point_fault(s, i) is Some {
        i
    } else {
        lemma_first_fault(s, i + 1)
    }
}

/// The fault of the first point at fault, however few there are.
pub(crate) fn first_fault(points: &Vec<Point>) -> (r: Option<CurveError>)
    ensures
        r == fault_from(points@, 0),
{
    let mut i: usize = 0;
    while i < points.len()
        invariant
            i <= points@.len(),
            fault_from(points@, 0) == fault_from(points@, i as int),
        decreases points@.len() - i,
    {
        let p: Point = points[i];
        if p.celsius < 0 || p.celsius > MAX_POINT_C {
            return Some(CurveError::ImplausibleTemperature { at: i, celsius: p.celsius });
        }
        if p.duty > 0 && p.duty < STICTION_DUTY {
            return Some(CurveError::UnturnableDuty { at: i, duty: p.duty });
        }
        if i > 0 {
            if p.celsius <= points[i - 1].celsius {
                return Some(CurveError::NotAscending { at: i });
            }
            if p.duty < points[i - 1].duty {
                return Some(CurveError::DutyFalls { at: i });
            }
        }
        i = i + 1;
    }
    None
}

/// A validated temperature to duty curve.
#[derive(Debug, PartialEq, Eq)]
pub struct Curve {
    points: Vec<Point>,
}

impl Curve {
    pub closed spec fn view(&self) -> Seq<Point> {
        self.points@
    }

    #[verifier::type_invariant]
    spec fn inv(&self) -> bool {
        valid_curve(self.points@)
    }

    /// Validate and build. Every rejection names something the author can fix.
    pub fn new(points: Vec<Point>) -> (r: Result<Self, CurveError>)
        ensures
            match r {
                Ok(c) => c@ == points@ && valid_curve(points@),
                Err(e) => curve_fault(points@) == Some(e),
            },
            r is Ok <==> valid_curve(points@),
    {
        proof {
            a_curve_without_a_fault_is_valid(points@);
        }
        if points.len() < 2 {
            return Err(CurveError::TooFewPoints);
        }
        if let Some(e) = first_fault(&points) {
            return Err(e);
        }
        Ok(Self { points })
    }

    pub fn points(&self) -> (r: &[Point])
        ensures
            r@ == self@,
            valid_curve(r@),
    {
        proof {
            use_type_invariant(&*self);
        }
        self.points.as_slice()
    }

    /// The duty this curve asks for at `celsius`.
    pub fn duty_at(&self, celsius: Option<i64>) -> (r: u8)
        ensures
            r == curve_duty(self@, celsius),
    {
        proof {
            use_type_invariant(&*self);
        }
        let c: i64 = match celsius {
            // A temperature nobody could read must not produce an arbitrary duty.
            None => {
                return u8::MAX;
            },
            Some(c) => c,
        };
        let first: Point = self.points[0];
        if c <= first.celsius {
            return first.duty;
        }
        let last: Point = self.points[self.points.len() - 1];
        if c >= last.celsius {
            return last.duty;
        }
        let mut i: usize = 1;
        while i < self.points.len()
            invariant
                valid_curve(self.points@),
                1 <= i <= self.points@.len(),
                self.points@[i - 1].celsius < c < self.points@.last().celsius,
                duty_from(self.points@, c as int, 1) == duty_from(
                    self.points@,
                    c as int,
                    i as int,
                ),
                celsius == Some(c),
                self.points@[0].celsius < c,
            decreases self.points@.len() - i,
        {
            let a: Point = self.points[i - 1];
            let b: Point = self.points[i];
            if c <= b.celsius {
                proof {
                    lemma_blend(c as int, a, b);
                }
                let run: i64 = b.celsius - a.celsius;
                let rise: i64 = (b.duty - a.duty) as i64;
                let over: i64 = c - a.celsius;
                assert(0 <= 2 * rise * over <= 2 * 255 * 120_000) by (nonlinear_arith)
                    requires
                        0 <= rise <= 255,
                        0 <= over <= 120_000,
                ;
                return a.duty + ((2 * rise * over + run) / (2 * run)) as u8;
            }
            i = i + 1;
        }
        last.duty
    }

    /// The default curve, drawn from measured hardware behaviour.
    ///
    /// Silent to 55 °C, slightly below firmware through the loaded band, and above 90 °C
    /// no longer clever, since the floor and the ceiling own that territory.
    pub fn default_quiet() -> (r: Self)
        ensures
            r@ == default_quiet_points(),
    {
        let points = vec![
            Point { celsius: 55_000, duty: 0 },
            Point { celsius: 62_000, duty: 40 },
            Point { celsius: 70_000, duty: 65 },
            Point { celsius: 80_000, duty: 92 },
            Point { celsius: 90_000, duty: 130 },
            Point { celsius: 100_000, duty: 255 },
        ];
        assert(points@ =~= default_quiet_points());
        Self { points }
    }
}

impl Clone for Curve {
    fn clone(&self) -> (r: Self)
        ensures
            r@ == self@,
    {
        proof {
            use_type_invariant(self);
        }
        let points = self.points.clone();
        assert(points@ =~= self.points@);
        Self { points }
    }
}

pub open spec fn default_quiet_points() -> Seq<Point> {
    seq![
        Point { celsius: 55_000, duty: 0 },
        Point { celsius: 62_000, duty: 40 },
        Point { celsius: 70_000, duty: 65 },
        Point { celsius: 80_000, duty: 92 },
        Point { celsius: 90_000, duty: 130 },
        Point { celsius: 100_000, duty: 255 },
    ]
}

/// The temperature a curve is evaluated at: the real one, except that a fall of less than
/// the deadband is not followed.
pub open spec fn followed(working: Option<i64>, c: i64) -> i64 {
    match working {
        Some(w) if w - HYSTERESIS_C < c < w => w,
        _ => c,
    }
}

/// One ramp step from the last duty towards the target.
pub open spec fn ramped(last: Option<u8>, target: int) -> int {
    match last {
        None => target,
        Some(last) => if target > last + RAMP_UP_PER_TICK {
            last + RAMP_UP_PER_TICK
        } else if target < last - RAMP_DOWN_PER_TICK {
            last - RAMP_DOWN_PER_TICK
        } else {
            target
        },
    }
}

/// The duty of one tick: a ramp step, except that a fan on its way to a stop stops once it
/// no longer turns.
pub open spec fn stepped(last: Option<u8>, target: int) -> int {
    let d = ramped(last, target);
    if d < STICTION_DUTY && target == 0 {
        0
    } else {
        d
    }
}

/// Runs a [`Curve`] over time, applying hysteresis and ramp limiting.
#[derive(Debug, Clone)]
pub struct CurveEngine {
    curve: Curve,
    /// The temperature the curve is currently evaluated at.
    working_c: Option<i64>,
    last_duty: Option<u8>,
}

impl CurveEngine {
    /// The points of the curve it runs.
    pub closed spec fn running(&self) -> Seq<Point> {
        self.curve@
    }

    pub closed spec fn working(&self) -> Option<i64> {
        self.working_c
    }

    pub closed spec fn last(&self) -> Option<u8> {
        self.last_duty
    }

    pub fn new(curve: Curve) -> (r: Self)
        ensures
            r.running() == curve@,
            r.working() is None,
            r.last() is None,
    {
        Self { curve, working_c: None, last_duty: None }
    }

    pub fn curve(&self) -> (r: &Curve)
        ensures
            r@ == self.running(),
    {
        &self.curve
    }

    /// Replace the curve, keeping the ramp state so that swapping curves does not produce
    /// a step change in fan speed.
    pub fn set_curve(&mut self, curve: Curve)
        ensures
            final(self).running() == curve@,
            final(self).working() == old(self).working(),
            final(self).last() == old(self).last(),
    {
        self.curve = curve;
    }

    /// Forget the ramp and hysteresis state, for discontinuities where the previous duty
    /// says nothing about what comes next.
    pub fn reset(&mut self)
        ensures
            final(self).running() == old(self).running(),
            final(self).working() is None,
            final(self).last() is None,
    {
        self.working_c = None;
        self.last_duty = None;
    }

    /// One tick. Returns the duty to request.
    pub fn tick(&mut self, celsius: Option<i64>) -> (r: u8)
        ensures
            final(self).running() == old(self).running(),
            match celsius {
                None => r == u8::MAX && final(self).working() is None && final(self).last() is None,
                Some(c) => {
                    let w = followed(old(self).working(), c);
                    &&& final(self).working() == Some(w)
                    &&& final(self).last() == Some(r)
                    &&& r == stepped(
                        old(self).last(),
                        curve_duty(old(self).running(), Some(w)),
                    )
                },
            },
    {
        let c: i64 = match celsius {
            None => {
                self.reset();
                return u8::MAX;
            },
            Some(c) => c,
        };
        let working: i64 = match self.working_c {
            Some(previous) if c < previous && (c as i128) > previous as i128
                - HYSTERESIS_C as i128 => previous,
            _ => c,
        };
        self.working_c = Some(working);
        let target: u8 = self.curve.duty_at(Some(working));
        let duty: u8 = match self.last_duty {
            None => target,
            Some(last) => if target > last && target - last > RAMP_UP_PER_TICK {
                last + RAMP_UP_PER_TICK
            } else if target < last && last - target > RAMP_DOWN_PER_TICK {
                last - RAMP_DOWN_PER_TICK
            } else {
                target
            },
        };
        let duty: u8 = if duty < STICTION_DUTY && target == 0 {
            0
        } else {
            duty
        };
        self.last_duty = Some(duty);
        duty
    }
}

/// No step is audible: up by at most the one limit, down by at most the other, and a larger
/// fall only where the fan stops because it no longer turned.
pub proof fn steps_are_limited(last: u8, target: int)
    requires
        0 <= target <= u8::MAX,
    ensures
        stepped(Some(last), target) <= last + RAMP_UP_PER_TICK,
        stepped(Some(last), target) >= last - RAMP_DOWN_PER_TICK || (stepped(Some(last), target)
            == 0 && last < STICTION_DUTY + RAMP_DOWN_PER_TICK),
        0 <= stepped(Some(last), target) <= u8::MAX,
{
}

/// Every step closes on the target and never passes it, so a steady temperature is reached
/// and then held.
pub proof fn steps_close_on_the_target(last: u8, target: int)
    requires
        0 <= target <= u8::MAX,
    ensures
        last == target ==> stepped(Some(last), target) == target,
        last < target ==> last < stepped(Some(last), target) <= target,
        last > target ==> last > stepped(Some(last), target) >= target,
{
}

/// A step is as large as it may be. The first goes straight to the target; after that a target
/// within the limits is reached at once, and towards one beyond them the duty moves by exactly
/// the limit, except that a fan on its way to a stop stops once it no longer turns.
pub proof fn a_step_is_as_large_as_it_may_be(last: u8, target: int)
    requires
        0 <= target <= u8::MAX,
    ensures
        stepped(None, target) == target,
        -4 <= target - last <= 12 ==> stepped(Some(last), target) == target,
        target - last > 12 ==> stepped(Some(last), target) - last == 12,
        last - target > 4 && (target > 0 || last >= 34) ==> last - stepped(Some(last), target) == 4,
        target == 0 && last < 34 ==> stepped(Some(last), target) == 0,
{
}

/// The duty after `n` further ticks at one steady target.
pub open spec fn after_ticks(last: u8, target: u8, n: nat) -> int
    decreases n,
{
    if n == 0 {
        last as int
    } else {
        stepped(Some(after_ticks(last, target, (n - 1) as nat) as u8), target as int)
    }
}

/// However far away it starts, the duty is at the target once the ramp has had the ticks
/// for it, and stays there.
pub proof fn a_steady_target_is_reached(last: u8, target: u8, n: nat)
    requires
        n * RAMP_DOWN_PER_TICK >= u8::MAX,
    ensures
        after_ticks(last, target, n) == target,
{
    lemma_ticks_close(last, target, n);
}

proof fn lemma_ticks_close(last: u8, target: u8, n: nat)
    ensures
        0 <= after_ticks(last, target, n) <= u8::MAX,
        last >= target ==> target <= after_ticks(last, target, n) <= last,
        last <= target ==> last <= after_ticks(last, target, n) <= target,
        after_ticks(last, target, n) == target || after_ticks(last, target, n) <= last - n
            * RAMP_DOWN_PER_TICK || after_ticks(last, target, n) >= last + n * RAMP_UP_PER_TICK,
    decreases n,
{
    if n > 0 {
        lemma_ticks_close(last, target, (n - 1) as nat);
    }
}

/// A sensor that wobbles by less than the deadband does not move the working point: it
/// stays at the warmest of the readings.
pub proof fn a_wobbling_sensor_holds_the_working_point(w: i64, c: i64)
    requires
        w - HYSTERESIS_C < c <= w,
    ensures
        followed(Some(w), c) == w,
        followed(Some(followed(Some(w), c)), w) == w,
{
}

/// Heat is never damped: the curve is evaluated at the real temperature or a warmer one,
/// and at the real one as soon as it rises or leaves the deadband.
pub proof fn heat_is_followed_at_once(w: Option<i64>, c: i64)
    ensures
        followed(w, c) >= c,
        followed(w, c) - c < HYSTERESIS_C,
        (w matches Some(x) ==> c >= x || c <= x - HYSTERESIS_C) ==> followed(w, c) == c,
{
}

/// A temperature that falls by less than two degrees below the working point is not followed:
/// the curve stays where it was. Anything else, a first temperature too, is followed to where it
/// is.
pub proof fn a_fall_of_less_than_two_degrees_is_not_followed(w: i64, c: i64)
    ensures
        0 < w - c < 2_000 ==> followed(Some(w), c) == w,
        w - c >= 2_000 || c >= w ==> followed(Some(w), c) == c,
        followed(None, c) == c,
{
}

}
