//! The curve editor's decisions: where a new point goes, what a curve looks like as a
//! command-line argument, and when the running curve replaces the one being edited.

use vstd::prelude::*;
use crate::curve::{honest_duty, valid_curve, Point, MAX_POINT_C};
use crate::floor::STICTION_DUTY;
use crate::number::{decimal, decimal_text, no_places, no_places_text};

verus! {

/// Two points closer than this have no whole degree strictly between them.
pub const MIN_GAP_C: i64 = 2_000;

/// How far past the top a point is added where no gap is left to split.
pub const EXTEND_C: i64 = 5_000;

/// How much more duty a point past the top asks for.
pub const EXTEND_DUTY: u8 = 10;

/// The first widest gap among the first `n` points: the index of its warmer end and its
/// width. Nothing is wide where the points do not ascend.
pub open spec fn widest(s: Seq<Point>, n: int) -> (int, int)
    decreases n,
{
    if n <= 1 {
        (0, 0)
    } else {
        let w = widest(s, n - 1);
        let gap = s[n - 1].celsius - s[n - 2].celsius;
        if gap > w.1 {
            (n - 1, gap)
        } else {
            w
        }
    }
}

/// Half of `sum`, to the nearest whole degree, a half going away from zero.
pub open spec fn half_in_degrees(sum: int) -> int {
    if sum >= 0 {
        (sum + 1000) / 2000 * 1000
    } else {
        -((1000 - sum) / 2000 * 1000)
    }
}

/// The nearer of a stopped fan and the slowest turning one, for a duty between them.
pub open spec fn snapped(d: int) -> int {
    if 0 < d < STICTION_DUTY {
        if 2 * d < STICTION_DUTY {
            0
        } else {
            STICTION_DUTY as int
        }
    } else {
        d
    }
}

/// Whether a point can be added at all.
pub open spec fn has_room(s: Seq<Point>) -> bool {
    widest(s, s.len() as int).1 >= MIN_GAP_C || s.last().celsius + MIN_GAP_C <= MAX_POINT_C
}

/// The points with one more: in the middle of the widest gap, or past the top where no gap
/// can be split.
pub open spec fn with_point(s: Seq<Point>) -> Seq<Point> {
    let (i, gap) = widest(s, s.len() as int);
    let last = s.last();
    if gap >= MIN_GAP_C {
        s.insert(
            i,
            Point {
                celsius: half_in_degrees(s[i - 1].celsius + s[i].celsius) as i64,
                duty: snapped((s[i - 1].duty + s[i].duty) / 2) as u8,
            },
        )
    } else {
        s.push(
            Point {
                celsius: if last.celsius + EXTEND_C <= MAX_POINT_C {
                    (last.celsius + EXTEND_C) as i64
                } else {
                    MAX_POINT_C
                },
                duty: if last.duty == 0 {
                    0
                } else if last.duty + EXTEND_DUTY <= u8::MAX {
                    (last.duty + EXTEND_DUTY) as u8
                } else {
                    u8::MAX
                },
            },
        )
    }
}

proof fn lemma_widest(s: Seq<Point>, n: int)
    requires
        n <= s.len(),
    ensures
        widest(s, n).1 >= 0,
        widest(s, n).1 > 0 ==> 1 <= widest(s, n).0 < n && s[widest(s, n).0].celsius - s[widest(
            s,
            n,
        ).0 - 1].celsius == widest(s, n).1,
    decreases n,
{
    if n > 1 {
        lemma_widest(s, n - 1);
    }
}

/// Adding a point to a usable curve leaves a usable curve.
pub proof fn adding_a_point_keeps_a_curve_valid(s: Seq<Point>)
    requires
        valid_curve(s),
        has_room(s),
    ensures
        valid_curve(with_point(s)),
{
    let n = s.len() as int;
    lemma_widest(s, n);
    let (i, gap) = widest(s, n);
    let t = with_point(s);
    if gap >= MIN_GAP_C {
        let a = s[i - 1];
        let b = s[i];
        let p = t[i];
        assert(a.celsius < p.celsius < b.celsius);
        assert(a.duty <= p.duty <= b.duty && honest_duty(p.duty));
        assert forall|k: int| 0 <= k < t.len() implies 0 <= (#[trigger] t[k]).celsius <= MAX_POINT_C
            && honest_duty(t[k].duty) by {
            if k < i {
                assert(t[k] == s[k]);
            } else if k > i {
                assert(t[k] == s[k - 1]);
            }
        }
        assert forall|j: int, k: int| 0 <= j < k < t.len() implies t[j].celsius < t[k].celsius
            && t[j].duty <= t[k].duty by {
            if k < i {
                assert(t[j] == s[j] && t[k] == s[k]);
            } else if k == i {
                assert(t[j] == s[j]);
                if j < i - 1 {
                    assert(s[j].celsius < s[i - 1].celsius);
                }
            } else if j < i {
                assert(t[j] == s[j] && t[k] == s[k - 1]);
            } else if j == i {
                assert(t[k] == s[k - 1]);
                if k - 1 > i {
                    assert(s[i].celsius < s[k - 1].celsius);
                }
            } else {
                assert(t[j] == s[j - 1] && t[k] == s[k - 1]);
            }
        }
    } else {
        assert forall|k: int| 0 <= k < t.len() implies 0 <= (#[trigger] t[k]).celsius <= MAX_POINT_C
            && honest_duty(t[k].duty) by {
            if k < n {
                assert(t[k] == s[k]);
            } else {
                assert(s[n - 1].celsius >= 0);
            }
        }
        assert forall|j: int, k: int| 0 <= j < k < t.len() implies t[j].celsius < t[k].celsius
            && t[j].duty <= t[k].duty by {
            assert(t[j] == s[j]);
            if k < n {
                assert(t[k] == s[k]);
            } else if j < n - 1 {
                assert(s[j].celsius < s[n - 1].celsius);
            }
        }
    }
}

/// Add one point to a curve without ever making it invalid. Refuses where there is no legal
/// temperature left, and then changes nothing.
pub fn insert_point(pts: &mut Vec<Point>) -> (r: Result<(), &'static str>)
    requires
        old(pts)@.len() >= 1,
    ensures
        match r {
            Ok(()) => has_room(old(pts)@) && final(pts)@ == with_point(old(pts)@),
            Err(e) => !has_room(old(pts)@) && final(pts)@ == old(pts)@ && e@
                == "no room for another point \u{2014} widen the curve first"@,
        },
{
    let ghost s = pts@;
    let n: usize = pts.len();
    let mut at: usize = 0;
    let mut gap: i128 = 0;
    let mut i: usize = 1;
    while i < n
        invariant
            pts@ == s,
            n == s.len(),
            1 <= i <= n,
            (at as int, gap as int) == widest(s, i as int),
        decreases n - i,
    {
        let g: i128 = pts[i].celsius as i128 - pts[i - 1].celsius as i128;
        if g > gap {
            at = i;
            gap = g;
        }
        i = i + 1;
    }
    proof {
        lemma_widest(s, n as int);
    }
    if gap >= MIN_GAP_C as i128 {
        let a: Point = pts[at - 1];
        let b: Point = pts[at];
        let sum: i128 = a.celsius as i128 + b.celsius as i128;
        let half: i128 = if sum >= 0 {
            (sum + 1000) / 2000 * 1000
        } else {
            -((1000 - sum) / 2000 * 1000)
        };
        let mid: u16 = (a.duty as u16 + b.duty as u16) / 2;
        let duty: u8 = if 0 < mid && mid < STICTION_DUTY as u16 {
            if 2 * mid < STICTION_DUTY as u16 {
                0
            } else {
                STICTION_DUTY
            }
        } else {
            mid as u8
        };
        pts.insert(at, Point { celsius: half as i64, duty });
        return Ok(());
    }
    let last: Point = pts[n - 1];
    if last.celsius > MAX_POINT_C - MIN_GAP_C {
        return Err("no room for another point \u{2014} widen the curve first");
    }
    let celsius: i64 = if last.celsius <= MAX_POINT_C - EXTEND_C {
        last.celsius + EXTEND_C
    } else {
        MAX_POINT_C
    };
    let duty: u8 = if last.duty == 0 {
        0
    } else if last.duty <= u8::MAX - EXTEND_DUTY {
        last.duty + EXTEND_DUTY
    } else {
        u8::MAX
    };
    pts.push(Point { celsius, duty });
    Ok(())
}

/// One point as `temperature:duty`, the temperature to the whole degree.
pub open spec fn pair_text(p: (i64, u8)) -> Seq<char> {
    no_places(p.0 as int) + seq![':'] + decimal(p.1 as nat)
}

/// Points as `temperature:duty` pairs with commas between them.
pub open spec fn cli_text(s: Seq<(i64, u8)>) -> Seq<char>
    decreases s.len(),
{
    if s.len() == 0 {
        seq![]
    } else if s.len() == 1 {
        pair_text(s[0])
    } else {
        cli_text(s.drop_last()) + seq![','] + pair_text(s.last())
    }
}

/// Format a curve the way the command line accepts it.
pub fn as_cli_argument(points: &[(i64, u8)]) -> (r: String)
    ensures
        r@ == cli_text(points@),
{
    proof {
        reveal_strlit(":");
        reveal_strlit(",");
        reveal_strlit("");
    }
    let mut out = "".to_owned();
    let mut i: usize = 0;
    assert(points@.take(0) =~= seq![]);
    assert(out@ =~= seq![]);
    while i < points.len()
        invariant
            i <= points@.len(),
            out@ == cli_text(points@.take(i as int)),
            ":"@.len() == 1 && ":"@[0] == ':',
            ","@.len() == 1 && ","@[0] == ',',
        decreases points@.len() - i,
    {
        let ghost next = points@.take(i + 1);
        assert(next.drop_last() =~= points@.take(i as int));
        if i > 0 {
            out.append(",");
        }
        out.append(no_places_text(points[i].0).as_str());
        out.append(":");
        out.append(decimal_text(points[i].1 as u64).as_str());
        proof {
            assert(":"@ =~= seq![':']);
            assert(","@ =~= seq![',']);
            let pair = pair_text(points@[i as int]);
            if i > 0 {
                assert(out@ =~= cli_text(points@.take(i as int)) + seq![','] + pair);
            } else {
                assert(out@ =~= pair);
            }
        }
        i = i + 1;
    }
    assert(points@.take(i as int) =~= points@);
    out
}

/// The points of a curve as the wire carries them.
pub open spec fn as_pairs(s: Seq<Point>) -> Seq<(i64, u8)> {
    s.map_values(|p: Point| (p.celsius, p.duty))
}

/// Wire pairs as points.
pub open spec fn as_points(s: Seq<(i64, u8)>) -> Seq<Point> {
    s.map_values(|p: (i64, u8)| Point { celsius: p.0, duty: p.1 })
}

/// The points of a curve as the wire carries them.
pub fn to_pairs(points: &[Point]) -> (r: Vec<(i64, u8)>)
    ensures
        r@ == as_pairs(points@),
{
    let mut out: Vec<(i64, u8)> = Vec::new();
    let mut i: usize = 0;
    while i < points.len()
        invariant
            i <= points@.len(),
            out@ == as_pairs(points@).take(i as int),
        decreases points@.len() - i,
    {
        out.push((points[i].celsius, points[i].duty));
        i = i + 1;
        assert(out@ =~= as_pairs(points@).take(i as int));
    }
    assert(out@ =~= as_pairs(points@));
    out
}

/// Wire pairs as points.
pub fn to_points(pairs: &[(i64, u8)]) -> (r: Vec<Point>)
    ensures
        r@ == as_points(pairs@),
{
    let mut out: Vec<Point> = Vec::new();
    let mut i: usize = 0;
    while i < pairs.len()
        invariant
            i <= pairs@.len(),
            out@ == as_points(pairs@).take(i as int),
        decreases pairs@.len() - i,
    {
        out.push(Point { celsius: pairs[i].0, duty: pairs[i].1 });
        i = i + 1;
        assert(out@ =~= as_points(pairs@).take(i as int));
    }
    assert(out@ =~= as_points(pairs@));
    out
}

/// Whether the running curve is to be loaded into the editor. Never over unapplied edits:
/// every telemetry tick would snap a half-finished edit back.
pub fn takes_running(dirty: bool, edited: &Vec<Point>, running: &Vec<(i64, u8)>) -> (r: bool)
    ensures
        r == (!dirty && running@.len() > 0 && edited@ != as_points(running@)),
{
    if dirty || running.len() == 0 {
        return false;
    }
    if edited.len() != running.len() {
        assert(edited@.len() != as_points(running@).len());
        return true;
    }
    let mut i: usize = 0;
    while i < edited.len()
        invariant
            i <= edited@.len(),
            edited@.len() == running@.len(),
            forall|j: int| 0 <= j < i ==> edited@[j] == as_points(running@)[j],
            !dirty,
            running@.len() > 0,
        decreases edited@.len() - i,
    {
        if edited[i].celsius != running[i].0 || edited[i].duty != running[i].1 {
            assert(edited@[i as int] != as_points(running@)[i as int]);
            return true;
        }
        i = i + 1;
    }
    assert(edited@ =~= as_points(running@));
    false
}

/// The widest gap is as wide as any, and wider than each before it.
pub proof fn the_widest_gap_is_the_first_of_the_widest(s: Seq<Point>, n: int, k: int)
    requires
        1 <= k < n <= s.len(),
    ensures
        s[k].celsius - s[k - 1].celsius <= widest(s, n).1,
        widest(s, n).1 > 0 && k < widest(s, n).0 ==> s[k].celsius - s[k - 1].celsius < widest(
            s,
            n,
        ).1,
        widest(s, n).1 > 0 ==> 1 <= widest(s, n).0 < n && s[widest(s, n).0].celsius - s[widest(
            s,
            n,
        ).0 - 1].celsius == widest(s, n).1,
    decreases n,
{
    lemma_widest(s, n);
    lemma_widest(s, n - 1);
    if k < n - 1 {
        the_widest_gap_is_the_first_of_the_widest(s, n - 1, k);
    }
}

/// A new point goes into the first of the widest gaps, where that is two degrees or more: half
/// way between its ends, to the nearest whole degree, and with half of what they ask for
/// together, unless that would not turn the fan. Then it is a stopped fan or the slowest that
/// turns, whichever is nearer.
pub proof fn a_new_point_halves_the_widest_gap(s: Seq<Point>, i: int)
    requires
        1 <= i < s.len(),
        s[i].celsius - s[i - 1].celsius >= 2_000,
        forall|k: int|
            #![trigger s[k]]
            1 <= k < s.len() ==> s[k].celsius - s[k - 1].celsius <= s[i].celsius - s[i - 1].celsius,
        forall|k: int|
            #![trigger s[k]]
            1 <= k < i ==> s[k].celsius - s[k - 1].celsius < s[i].celsius - s[i - 1].celsius,
        0 <= s[i - 1].celsius && s[i].celsius <= 120_000,
    ensures
        has_room(s),
        ({
            let (a, b) = (s[i - 1], s[i]);
            let p = with_point(s)[i];
            let mid = (a.duty + b.duty) / 2;
            &&& with_point(s).len() == s.len() + 1
            &&& with_point(s).remove(i) == s
            &&& p.celsius % 1000 == 0
            &&& -1000 < 2 * p.celsius - (a.celsius + b.celsius) <= 1000
            &&& mid == 0 || mid >= 30 ==> p.duty == mid
            &&& 0 < mid && mid < 30 && mid < 30 - mid ==> p.duty == 0
            &&& 0 < mid && mid < 30 && mid >= 30 - mid ==> p.duty == 30
        }),
{
    let n = s.len() as int;
    let w = widest(s, n);
    the_widest_gap_is_the_first_of_the_widest(s, n, i);
    if w.0 != i {
        the_widest_gap_is_the_first_of_the_widest(s, n, w.0);
        assert(s[w.0].celsius - s[w.0 - 1].celsius == w.1);
    }
    assert(w == (i, s[i].celsius - s[i - 1].celsius));
    assert(with_point(s).remove(i) =~= s);
}

/// Where no gap is two degrees wide a new point goes past the top: five degrees above it, or at
/// the hottest a curve can describe, and with ten counts more, or all there are. Past a stopped
/// fan it stays stopped. There is no room for it less than two degrees below the hottest.
pub proof fn without_a_gap_a_new_point_extends_the_curve(s: Seq<Point>)
    requires
        s.len() >= 1,
        forall|k: int|
            #![trigger s[k]]
            1 <= k < s.len() ==> s[k].celsius - s[k - 1].celsius < 2_000,
    ensures
        has_room(s) <==> s.last().celsius + 2_000 <= 120_000,
        ({
            let last = s.last();
            let p = with_point(s).last();
            &&& with_point(s).drop_last() == s
            &&& last.celsius + 5_000 <= 120_000 ==> p.celsius == last.celsius + 5_000
            &&& last.celsius + 5_000 > 120_000 ==> p.celsius == 120_000
            &&& last.duty == 0 ==> p.duty == 0
            &&& last.duty > 0 && last.duty + 10 <= u8::MAX ==> p.duty == last.duty + 10
            &&& last.duty + 10 > u8::MAX ==> p.duty == u8::MAX
        }),
{
    let n = s.len() as int;
    lemma_widest(s, n);
    if widest(s, n).1 >= MIN_GAP_C {
        let k = widest(s, n).0;
        assert(s[k].celsius - s[k - 1].celsius < MIN_GAP_C);
    }
    assert(with_point(s).drop_last() =~= s);
}

/// A curve as pairs and back is the same curve.
pub proof fn points_survive_as_pairs(s: Seq<Point>)
    ensures
        as_points(as_pairs(s)) == s,
        as_pairs(s).len() == s.len(),
        forall|i: int|
            0 <= i < s.len() ==> (#[trigger] as_pairs(s)[i]).0 == s[i].celsius && as_pairs(s)[i].1
                == s[i].duty,
{
    assert(as_points(as_pairs(s)) =~= s);
}

}
