//! The firmware floor: never quieter than the embedded controller (EC) would be.
//!
//! A curve somebody drew may only ever be *more* aggressive than firmware, which bounds
//! the damage from a badly drawn one to "louder than necessary". While firmware owns the
//! fan the duty it chose can be read, so the floor is *observed*:
//! [`FirmwareFloor::observe`] records what firmware did at each temperature, and that is
//! what the floor returns.
//!
//! The measured tables of [`crate::board`] are only the cold start, for temperatures at
//! which nothing has been seen yet. An observation always wins over them, an observation
//! of a stopped fan too.
//!
//! Only what is seen while the temperature rises or holds is recorded. Firmware runs the
//! fan far longer on the way down than the temperature needs, and recording that branch
//! would ratchet the floor up to a duty firmware only uses while shedding heat.
//!
//! Temperatures are in thousandths of a degree Celsius; `None` is a temperature nobody
//! could read.

use vstd::prelude::*;
use crate::board::{
    ascending_curve,
    ascending_duty,
    intel_core_ultra_3,
    BoardProfile,
    INTEL_DUTY_RPM,
};

verus! {

/// Below this the fan does not turn at all. A duty between 1 and 29 is not a slow fan, it
/// is a stopped one, and offering it would be a control that lies.
pub const STICTION_DUTY: u8 = 30;

/// The lowest duty but zero that the fan is held at, on every board. A fan that still turns
/// may not start from rest, so this is the duty that breaks it away plus two points for a
/// cold or dusty bearing.
pub const LEAST_DUTY: u8 = 33;

/// Added to every floor duty but zero: the duty table was measured cold and is slightly
/// optimistic under load.
pub const FLOOR_MARGIN_DUTY: u8 = 2;

/// From this temperature on the cold-start floor is full duty. Nothing was measured this
/// hot, and the safe direction in unmeasured territory is loud. It lies below the fallback
/// ceiling and the cap of [`crate::ceiling`], so maximum airflow is tried before either
/// gives the fan back. A ceiling derived from a sensor with a low critical point can lie
/// below it.
pub const FULL_DUTY_ABOVE_C: i64 = 95_000;

/// Width of an observation bucket.
pub const BUCKET_C: i64 = 2_000;

/// Where the first bucket starts.
pub const BUCKET_BASE_C: i64 = 30_000;

/// How many buckets there are: 30 °C to 110 °C.
pub const BUCKETS: usize = 40;

/// The value at `x` on the straight line through two points, rounded down.
pub open spec fn between(x: int, x0: int, y0: int, x1: int, y1: int) -> int {
    y0 + ((y1 - y0) * (x - x0)) / (x1 - x0)
}

/// What a measured curve gives at `c`, looking from segment `i` on: the line between the
/// two points around `c`.
pub open spec fn curve_from(t: Seq<(i64, u16)>, c: int, i: int) -> int
    decreases t.len() - i,
{
    if i >= t.len() {
        t.last().1 as int
    } else if c <= t[i].0 {
        between(c, t[i - 1].0 as int, t[i - 1].1 as int, t[i].0 as int, t[i].1 as int)
    } else {
        curve_from(t, c, i + 1)
    }
}

/// The rpm at `c` of a firmware curve: flat below it, and above its last point a ramp
/// that reaches `top` at [`FULL_DUTY_ABOVE_C`].
pub open spec fn curve_rpm(t: Seq<(i64, u16)>, top: int, c: int) -> int {
    let last = t.last();
    if c > last.0 {
        between(c, last.0 as int, last.1 as int, FULL_DUTY_ABOVE_C as int, top)
    } else if c <= t[0].0 {
        t[0].1 as int
    } else {
        curve_from(t, c, 1)
    }
}

/// The rpm that a board's firmware is modelled to run at a temperature: as fast as can be
/// where that is unreadable or beyond anything measured.
pub open spec fn model_rpm(p: BoardProfile, c: Option<i64>) -> int {
    match c {
        None => u16::MAX as int,
        Some(c) => if c >= FULL_DUTY_ABOVE_C {
            u16::MAX as int
        } else {
            curve_rpm(p.firmware_curve@, p.duty_rpm@.last().1 as int, c as int)
        },
    }
}

/// `n / d` rounded up.
pub open spec fn ceiling_div(n: int, d: int) -> int {
    (n + d - 1) / d
}

/// The duty for `rpm` on a duty table, looking from segment `i` on: the first segment that
/// gets as fast as `rpm`, and the least duty on it that does.
pub open spec fn duty_from(t: Seq<(u8, u16)>, rpm: int, i: int) -> int
    decreases t.len() - i,
{
    if i >= t.len() {
        u8::MAX as int
    } else if rpm <= t[i].1 {
        if t[i].1 == t[i - 1].1 {
            t[i].0 as int
        } else {
            t[i - 1].0 + ceiling_div(
                (t[i].0 - t[i - 1].0) * (rpm - t[i - 1].1),
                t[i].1 - t[i - 1].1,
            )
        }
    } else {
        duty_from(t, rpm, i + 1)
    }
}

/// The lowest duty that turns the fan at `rpm` or faster: full duty where nothing measured
/// got that fast.
pub open spec fn duty_for(t: Seq<(u8, u16)>, rpm: int) -> int {
    if rpm == 0 {
        0
    } else if rpm >= t.last().1 {
        u8::MAX as int
    } else {
        duty_from(t, rpm, 1)
    }
}

/// Whether the line between two measured duties is at `rpm` or above it at `duty`.
pub open spec fn fast_enough(d0: int, r0: int, d1: int, r1: int, duty: int, rpm: int) -> bool {
    (r1 - r0) * (duty - d0) >= (rpm - r0) * (d1 - d0)
}

/// Whether a duty on segment `i` of a table turns the fan at `rpm` or faster, by the line
/// between the two measured duties.
pub open spec fn reaches_on(t: Seq<(u8, u16)>, i: int, duty: int, rpm: int) -> bool {
    t[i - 1].0 <= duty <= t[i].0 && fast_enough(
        t[i - 1].0 as int,
        t[i - 1].1 as int,
        t[i].0 as int,
        t[i].1 as int,
        duty,
        rpm,
    )
}

/// Whether a duty turns the fan at `rpm` or faster. Past the last measured duty the fan is
/// taken to get no faster.
pub open spec fn reaches(t: Seq<(u8, u16)>, duty: int, rpm: int) -> bool {
    ||| duty >= t.last().0 && rpm <= t.last().1
    ||| exists|i: int| 1 <= i < t.len() && #[trigger] reaches_on(t, i, duty, rpm)
}

/// A duty with the margin on top, and never one that may not start the fan.
pub open spec fn with_margin(duty: int) -> int {
    let d = if duty + FLOOR_MARGIN_DUTY > u8::MAX {
        u8::MAX as int
    } else {
        duty + FLOOR_MARGIN_DUTY
    };
    if d < LEAST_DUTY {
        LEAST_DUTY as int
    } else {
        d
    }
}

/// The floor where nothing has been observed, from what was measured on a board.
pub open spec fn cold_floor(p: BoardProfile, c: Option<i64>) -> int {
    let rpm = model_rpm(p, c);
    if rpm == 0 {
        0
    } else {
        with_margin(duty_for(p.duty_rpm@, rpm))
    }
}

/// The bucket a temperature falls into, if it is tracked.
pub open spec fn bucket_of(c: Option<i64>) -> Option<int> {
    match c {
        Some(c) if BUCKET_BASE_C <= c < BUCKET_BASE_C + BUCKETS * BUCKET_C => Some(
            (c - BUCKET_BASE_C) / BUCKET_C as int,
        ),
        _ => None,
    }
}

/// The lower edge of a bucket.
pub open spec fn bucket_edge(i: int) -> int {
    BUCKET_BASE_C + i * BUCKET_C
}

/// What is known of a bucket once firmware was seen at `duty` there: the loudest it has
/// been. A quiet sample proves nothing, firmware may not have spun up yet; a loud one is
/// proof that it will.
pub open spec fn louder(known: Option<u8>, duty: u8) -> Option<u8> {
    match known {
        Some(d) if d >= duty => Some(d),
        _ => Some(duty),
    }
}

/// Whether going from one temperature to the other passes through bucket `i`. Where one
/// end is not tracked only the end that is counts.
pub open spec fn spans(from: Option<i64>, to: Option<i64>, i: int) -> bool {
    match (bucket_of(from), bucket_of(to)) {
        (Some(a), Some(b)) => a <= i <= b || b <= i <= a,
        (a, b) => a == Some(i) || b == Some(i),
    }
}

/// How many places of two sequences differ.
pub open spec fn differing(s: Seq<Option<u8>>, t: Seq<Option<u8>>) -> nat
    decreases s.len(),
{
    if s.len() == 0 || t.len() == 0 {
        0
    } else {
        differing(s.drop_last(), t.drop_last()) + (if s.last() == t.last() {
            0nat
        } else {
            1
        })
    }
}

/// The buckets with one more observation, which is dropped when it is not tracked.
pub open spec fn with_observation(s: Seq<Option<u8>>, c: i64, duty: u8) -> Seq<Option<u8>> {
    match bucket_of(Some(c)) {
        Some(i) => s.update(i, louder(s[i], duty)),
        None => s,
    }
}

/// The buckets once all of `obs` were recorded in them.
pub open spec fn with_observations(s: Seq<Option<u8>>, obs: Seq<(i64, u8)>) -> Seq<Option<u8>>
    decreases obs.len(),
{
    if obs.len() == 0 {
        s
    } else {
        with_observation(with_observations(s, obs.drop_last()), obs.last().0, obs.last().1)
    }
}

/// How many of `obs` changed something as they were recorded.
pub open spec fn changes(s: Seq<Option<u8>>, obs: Seq<(i64, u8)>) -> nat
    decreases obs.len(),
{
    if obs.len() == 0 {
        0
    } else {
        changes(s, obs.drop_last()) + differing(
            with_observations(s, obs.drop_last()),
            with_observations(s, obs),
        )
    }
}

/// The known buckets among the first `n`, each with its lower edge.
pub open spec fn listed(s: Seq<Option<u8>>, n: int) -> Seq<(i64, u8)>
    decreases n,
{
    if n <= 0 {
        seq![]
    } else {
        match s[n - 1] {
            Some(d) => listed(s, n - 1).push((bucket_edge(n - 1) as i64, d)),
            None => listed(s, n - 1),
        }
    }
}

/// How far the buckets can still have moved: every change makes this larger.
spec fn weight(s: Seq<Option<u8>>) -> int
    decreases s.len(),
{
    if s.len() == 0 {
        0
    } else {
        weight(s.drop_last()) + (match s.last() {
            Some(d) => 1 + d,
            None => 0int,
        })
    }
}

proof fn lemma_weight_bound(s: Seq<Option<u8>>)
    ensures
        0 <= weight(s) <= 256 * s.len(),
    decreases s.len(),
{
    if s.len() > 0 {
        lemma_weight_bound(s.drop_last());
    }
}

proof fn lemma_weight_update(s: Seq<Option<u8>>, i: int, d: u8)
    requires
        0 <= i < s.len(),
        s[i] matches Some(x) ==> x < d,
    ensures
        weight(s.update(i, Some(d))) > weight(s),
    decreases s.len(),
{
    let t = s.update(i, Some(d));
    if i < s.len() - 1 {
        lemma_weight_update(s.drop_last(), i, d);
        assert(t.drop_last() =~= s.drop_last().update(i, Some(d)));
    } else {
        assert(t.drop_last() =~= s.drop_last());
    }
}

proof fn lemma_differing_same(s: Seq<Option<u8>>)
    ensures
        differing(s, s) == 0,
    decreases s.len(),
{
    if s.len() > 0 {
        lemma_differing_same(s.drop_last());
    }
}

proof fn lemma_differing_update(s: Seq<Option<u8>>, t: Seq<Option<u8>>, i: int, x: Option<u8>)
    requires
        s.len() == t.len(),
        0 <= i < t.len(),
        s[i] == t[i],
        x != s[i],
    ensures
        differing(s, t.update(i, x)) == differing(s, t) + 1,
    decreases s.len(),
{
    let u = t.update(i, x);
    if i < s.len() - 1 {
        lemma_differing_update(s.drop_last(), t.drop_last(), i, x);
        assert(u.drop_last() =~= t.drop_last().update(i, x));
    } else {
        assert(u.drop_last() =~= t.drop_last());
    }
}

/// What firmware has been seen doing, and the floor that follows from it.
#[derive(Debug, Clone)]
pub struct FirmwareFloor {
    /// Highest duty the EC has been seen running at, per temperature bucket, while the
    /// temperature was rising or steady. `Some(0)` is firmware having the fan off, a real
    /// observation; `None` is nothing seen.
    observed: Vec<Option<u8>>,
    /// Bumped whenever an observation changes anything.
    revision: u64,
    /// What was measured on this board: another board's numbers are not conservative here,
    /// they are wrong.
    board: BoardProfile,
}

impl FirmwareFloor {
    /// The buckets.
    pub closed spec fn view(&self) -> Seq<Option<u8>> {
        self.observed@
    }

    /// How often an observation changed anything.
    pub closed spec fn changed(&self) -> nat {
        self.revision as nat
    }

    /// What was measured on the board.
    pub closed spec fn measured(&self) -> BoardProfile {
        self.board
    }

    pub closed spec fn wf(&self) -> bool {
        &&& self.observed@.len() == BUCKETS
        &&& self.revision <= weight(self.observed@)
        &&& self.board.wf()
    }

    /// What is known at a temperature.
    pub open spec fn known(&self, c: Option<i64>) -> Option<u8> {
        match bucket_of(c) {
            Some(i) => self@[i],
            None => None,
        }
    }

    /// The lowest duty that may be held at a temperature.
    pub open spec fn floor(&self, c: Option<i64>) -> int {
        match self.known(c) {
            Some(d) => if d == 0 {
                0
            } else {
                with_margin(d as int)
            },
            None => cold_floor(self.measured(), c),
        }
    }

    /// A floor that has seen nothing, on the Intel board.
    pub fn new() -> (r: Self)
        ensures
            r.wf(),
            r@ == Seq::new(BUCKETS as nat, |i: int| None::<u8>),
            r.changed() == 0,
            r.measured().is_intel(),
    {
        Self::for_board(intel_core_ultra_3())
    }

    /// A floor that has seen nothing, on a measured board.
    pub fn for_board(board: BoardProfile) -> (r: Self)
        requires
            board.wf(),
        ensures
            r.wf(),
            r@ == Seq::new(BUCKETS as nat, |i: int| None::<u8>),
            r.changed() == 0,
            r.measured() == board,
    {
        let mut observed: Vec<Option<u8>> = Vec::new();
        while observed.len() < BUCKETS
            invariant
                observed@.len() <= BUCKETS,
                forall|i: int| 0 <= i < observed@.len() ==> observed@[i] is None,
            decreases BUCKETS - observed@.len(),
        {
            observed.push(None);
        }
        proof {
            lemma_weight_bound(observed@);
            assert(observed@ =~= Seq::new(BUCKETS as nat, |i: int| None::<u8>));
        }
        Self { observed, revision: 0, board }
    }

    fn bucket(celsius: Option<i64>) -> (r: Option<usize>)
        ensures
            match r {
                Some(i) => i < BUCKETS && bucket_of(celsius) == Some(i as int),
                None => bucket_of(celsius) is None,
            },
    {
        match celsius {
            Some(c) => if c < BUCKET_BASE_C || c >= BUCKET_BASE_C + (BUCKETS as i64) * BUCKET_C {
                None
            } else {
                Some(((c - BUCKET_BASE_C) / BUCKET_C) as usize)
            },
            None => None,
        }
    }

    fn record(&mut self, i: usize, ec_duty: u8)
        requires
            old(self).wf(),
            i < BUCKETS,
        ensures
            final(self).wf(),
            final(self).measured() == old(self).measured(),
            final(self)@ == old(self)@.update(i as int, louder(old(self)@[i as int], ec_duty)),
            final(self).changed() == old(self).changed() + differing(old(self)@, final(self)@),
    {
        let ghost had = self.observed@;
        let raises = match self.observed[i] {
            Some(d) => ec_duty > d,
            None => true,
        };
        if raises {
            proof {
                lemma_weight_update(had, i as int, ec_duty);
                lemma_weight_bound(had.update(i as int, Some(ec_duty)));
                lemma_differing_same(had);
                lemma_differing_update(had, had, i as int, Some(ec_duty));
            }
            self.observed[i] = Some(ec_duty);
            self.revision = self.revision + 1;
        } else {
            proof {
                lemma_differing_same(had);
                assert(had.update(i as int, had[i as int]) =~= had);
            }
        }
    }

    /// Record the duty firmware chose at this temperature.
    ///
    /// Only while the EC owns the fan: under manual control the duty that can be read is
    /// our own, and feeding it back would ratchet the floor up to it forever.
    pub fn observe(&mut self, celsius: Option<i64>, ec_duty: u8, rising: bool)
        requires
            old(self).wf(),
        ensures
            final(self).wf(),
            final(self).measured() == old(self).measured(),
            final(self)@ == Seq::new(
                BUCKETS as nat,
                |i: int|
                    if rising && bucket_of(celsius) == Some(i) {
                        louder(old(self)@[i], ec_duty)
                    } else {
                        old(self)@[i]
                    },
            ),
            final(self).changed() == old(self).changed() + differing(old(self)@, final(self)@),
    {
        self.observe_span(celsius, celsius, ec_duty, rising);
        assert(self@ =~= Seq::new(
            BUCKETS as nat,
            |i: int|
                if rising && bucket_of(celsius) == Some(i) {
                    louder(old(self)@[i], ec_duty)
                } else {
                    old(self)@[i]
                },
        ));
    }

    /// Record firmware's duty across the whole span of temperatures since the last sample.
    ///
    /// The die can climb several degrees between two samples, so consecutive ones skip
    /// whole buckets. Firmware held `ec_duty` throughout, so the whole span is credited
    /// with it.
    pub fn observe_span(
        &mut self,
        from_celsius: Option<i64>,
        to_celsius: Option<i64>,
        ec_duty: u8,
        rising: bool,
    )
        requires
            old(self).wf(),
        ensures
            final(self).wf(),
            final(self).measured() == old(self).measured(),
            final(self)@ == Seq::new(
                BUCKETS as nat,
                |i: int|
                    if rising && spans(from_celsius, to_celsius, i) {
                        louder(old(self)@[i], ec_duty)
                    } else {
                        old(self)@[i]
                    },
            ),
            final(self).changed() == old(self).changed() + differing(old(self)@, final(self)@),
    {
        let ghost had = self@;
        let ghost goal = Seq::new(
            BUCKETS as nat,
            |i: int|
                if rising && spans(from_celsius, to_celsius, i) {
                    louder(had[i], ec_duty)
                } else {
                    had[i]
                },
        );
        proof {
            lemma_differing_same(had);
        }
        if !rising {
            assert(had =~= goal);
            return ;
        }
        let a = Self::bucket(from_celsius);
        let b = Self::bucket(to_celsius);
        let (first, last) = match (a, b) {
            (Some(a), Some(b)) => if a <= b {
                (a, b)
            } else {
                (b, a)
            },
            (Some(a), None) => (a, a),
            (None, Some(b)) => (b, b),
            (None, None) => {
                assert(had =~= goal);
                return ;
            },
        };
        let mut i: usize = first;
        while i <= last
            invariant
                self.wf(),
                self.measured() == old(self).measured(),
                first <= i <= last + 1,
                last < BUCKETS,
                had.len() == BUCKETS,
                self@.len() == BUCKETS,
                forall|j: int|
                    #![trigger self@[j]]
                    0 <= j < BUCKETS ==> self@[j] == (if first <= j < i {
                        louder(had[j], ec_duty)
                    } else {
                        had[j]
                    }),
                self.changed() == old(self).changed() + differing(had, self@),
            decreases last + 1 - i,
        {
            let ghost before = self@;
            self.record(i, ec_duty);
            proof {
                let x = louder(had[i as int], ec_duty);
                if x != had[i as int] {
                    lemma_differing_update(had, before, i as int, x);
                    lemma_differing_same(before);
                    lemma_differing_update(before, before, i as int, x);
                } else {
                    assert(before.update(i as int, x) =~= before);
                    lemma_differing_same(before);
                }
            }
            i = i + 1;
        }
        assert(self@ =~= goal);
    }

    /// Changes so far. Held against an earlier value this says whether there is anything
    /// new to persist.
    pub fn revision(&self) -> (r: u64)
        ensures
            r == self.changed(),
    {
        self.revision
    }

    /// Every observation, as pairs of the low edge of its bucket and the duty.
    pub fn observations(&self) -> (r: Vec<(i64, u8)>)
        requires
            self.wf(),
        ensures
            r@ == listed(self@, BUCKETS as int),
    {
        let mut out: Vec<(i64, u8)> = Vec::new();
        let mut i: usize = 0;
        while i < BUCKETS
            invariant
                self.wf(),
                i <= BUCKETS,
                out@ == listed(self@, i as int),
            decreases BUCKETS - i,
        {
            if let Some(d) = self.observed[i] {
                out.push((BUCKET_BASE_C + (i as i64) * BUCKET_C, d));
            }
            i = i + 1;
        }
        out
    }

    /// Reload observations recorded earlier.
    ///
    /// They passed the rising filter when they were made. Anything outside the tracked
    /// range is dropped: folding it into the top bucket would turn a corrupt file into a
    /// fan at full duty.
    pub fn restore(&mut self, observations: &Vec<(i64, u8)>)
        requires
            old(self).wf(),
        ensures
            final(self).wf(),
            final(self).measured() == old(self).measured(),
            final(self)@ == with_observations(old(self)@, observations@),
            final(self).changed() == old(self).changed() + changes(old(self)@, observations@),
    {
        let ghost had = self@;
        let ghost count = self.changed();
        let mut k: usize = 0;
        assert(observations@.take(0) =~= seq![]);
        while k < observations.len()
            invariant
                self.wf(),
                self.measured() == old(self).measured(),
                k <= observations@.len(),
                self@ == with_observations(had, observations@.take(k as int)),
                self.changed() == count + changes(had, observations@.take(k as int)),
            decreases observations@.len() - k,
        {
            proof {
                let next = observations@.take(k + 1);
                assert(next.drop_last() =~= observations@.take(k as int));
                assert(next.last() == observations@[k as int]);
                lemma_differing_same(self@);
            }
            let (celsius, duty) = observations[k];
            if let Some(i) = Self::bucket(Some(celsius)) {
                self.record(i, duty);
            }
            k = k + 1;
        }
        assert(observations@.take(k as int) =~= observations@);
    }

    /// What firmware has been observed doing here, if anything.
    pub fn observed_duty(&self, celsius: Option<i64>) -> (r: Option<u8>)
        requires
            self.wf(),
        ensures
            r == self.known(celsius),
    {
        match Self::bucket(celsius) {
            Some(i) => self.observed[i],
            None => None,
        }
    }

    /// The rpm the model predicts firmware would run at this temperature. Cold start only:
    /// [`Self::floor_duty`] prefers an observation wherever there is one.
    pub fn modelled_rpm(&self, celsius: Option<i64>) -> (r: u16)
        requires
            self.wf(),
        ensures
            r == model_rpm(self.measured(), celsius),
    {
        interpolate_rpm(&self.board, celsius)
    }

    /// The lowest duty that may be held at this temperature.
    ///
    /// Zero where firmware would have the fan off: a silent idle is allowed. Full duty
    /// where the temperature cannot be read.
    pub fn floor_duty(&self, celsius: Option<i64>) -> (r: u8)
        requires
            self.wf(),
        ensures
            r == self.floor(celsius),
    {
        match self.observed_duty(celsius) {
            Some(d) => if d == 0 {
                0
            } else {
                add_margin(d)
            },
            None => {
                let rpm: u16 = self.modelled_rpm(celsius);
                if rpm == 0 {
                    0
                } else {
                    add_margin(duty_on(self.board.duty_rpm, rpm))
                }
            },
        }
    }

    /// Raise `duty` to the floor if it sits below it.
    ///
    /// Returns the duty to write and whether the floor changed it, which callers must
    /// surface: a control silently ignoring its user reads as a bug.
    pub fn clamp(&self, duty: u8, celsius: Option<i64>) -> (r: (u8, bool))
        requires
            self.wf(),
        ensures
            r.1 == (duty < self.floor(celsius)),
            r.0 == (if r.1 {
                self.floor(celsius)
            } else {
                duty as int
            }),
    {
        let floor: u8 = self.floor_duty(celsius);
        if duty < floor {
            (floor, true)
        } else {
            (duty, false)
        }
    }
}

impl Default for FirmwareFloor {
    fn default() -> (r: Self)
        ensures
            r.wf(),
            r@ == Seq::new(BUCKETS as nat, |i: int| None::<u8>),
            r.changed() == 0,
            r.measured().is_intel(),
    {
        Self::new()
    }
}

fn add_margin(duty: u8) -> (r: u8)
    ensures
        r == with_margin(duty as int),
{
    let d: u8 = if duty > u8::MAX - FLOOR_MARGIN_DUTY {
        u8::MAX
    } else {
        duty + FLOOR_MARGIN_DUTY
    };
    if d < LEAST_DUTY {
        LEAST_DUTY
    } else {
        d
    }
}

/// A line that rises stays between its ends.
proof fn lemma_between(x: int, x0: int, y0: int, x1: int, y1: int)
    requires
        x0 <= x <= x1,
        x0 < x1,
        y0 <= y1,
    ensures
        y0 <= between(x, x0, y0, x1, y1) <= y1,
        x == x0 ==> between(x, x0, y0, x1, y1) == y0,
        x == x1 ==> between(x, x0, y0, x1, y1) == y1,
{
    let n = (y1 - y0) * (x - x0);
    let d = x1 - x0;
    assert(0 <= n <= (y1 - y0) * d) by (nonlinear_arith)
        requires
            n == (y1 - y0) * (x - x0),
            d == x1 - x0,
            x0 <= x <= x1,
            y0 <= y1,
    ;
    assert(0 <= n / d <= y1 - y0) by (nonlinear_arith)
        requires
            0 <= n <= (y1 - y0) * d,
            d > 0,
    ;
    if x == x0 {
        assert(n == 0) by (nonlinear_arith)
            requires
                n == (y1 - y0) * (x - x0),
                x == x0,
        ;
        assert(0int / d == 0) by (nonlinear_arith)
            requires
                d > 0,
        ;
    }
    if x == x1 {
        assert(n / d == y1 - y0) by (nonlinear_arith)
            requires
                n == (y1 - y0) * d,
                d > 0,
        ;
    }
}

/// A board's rpm at `celsius`, interpolated between measured points.
fn interpolate_rpm(board: &BoardProfile, celsius: Option<i64>) -> (r: u16)
    requires
        board.wf(),
    ensures
        r == model_rpm(*board, celsius),
{
    let c: i64 = match celsius {
        None => {
            return u16::MAX;
        },
        Some(c) => c,
    };
    if c >= FULL_DUTY_ABOVE_C {
        return u16::MAX;
    }
    let curve = board.firmware_curve;
    let n: usize = curve.len();
    let top: u16 = board.duty_rpm[board.duty_rpm.len() - 1].1;
    let (last_c, last_rpm) = curve[n - 1];
    if c > last_c {
        return line(c, last_c, last_rpm, FULL_DUTY_ABOVE_C, top);
    }
    if c <= curve[0].0 {
        return curve[0].1;
    }
    let mut i: usize = 1;
    while i < n
        invariant
            1 <= i <= n,
            n == curve@.len(),
            n >= 2,
            curve@ == board.firmware_curve@,
            ascending_curve(curve@),
            celsius == Some(c),
            0 <= curve@[0].0 < c,
            last_rpm == curve@.last().1,
            curve@[i - 1].0 < c <= curve@.last().0,
            curve@.last().0 < FULL_DUTY_ABOVE_C,
            curve_from(curve@, c as int, 1) == curve_from(curve@, c as int, i as int),
        decreases n - i,
    {
        let (c0, r0) = curve[i - 1];
        let (c1, r1) = curve[i];
        if c <= c1 {
            return line(c, c0, r0, c1, r1);
        }
        i = i + 1;
    }
    last_rpm
}

/// The rpm at `c` on the line through two measured points.
fn line(c: i64, c0: i64, r0: u16, c1: i64, r1: u16) -> (r: u16)
    requires
        0 <= c0 <= c <= c1 <= 200_000,
        c0 < c1,
        r0 <= r1,
    ensures
        r == between(c as int, c0 as int, r0 as int, c1 as int, r1 as int),
        r0 <= r <= r1,
{
    proof {
        lemma_between(c as int, c0 as int, r0 as int, c1 as int, r1 as int);
    }
    let rise: i64 = (r1 - r0) as i64;
    let run: i64 = c - c0;
    assert(0 <= rise * run <= 65_535 * 200_000) by (nonlinear_arith)
        requires
            0 <= rise <= 65_535,
            0 <= run <= 200_000,
    ;
    r0 + ((rise * run) / (c1 - c0)) as u16
}

/// The lowest duty that reaches at least `rpm` on the Intel board, rounded up.
pub fn duty_for_rpm(rpm: u16) -> (r: u8)
    ensures
        r == duty_for(INTEL_DUTY_RPM@, rpm as int),
{
    duty_on(intel_core_ultra_3().duty_rpm, rpm)
}

/// The lowest duty that reaches at least `rpm` on a measured fan, rounded up.
fn duty_on(t: &[(u8, u16)], rpm: u16) -> (r: u8)
    requires
        ascending_duty(t@),
        t@.len() >= 2,
        t@[0].1 == 0,
    ensures
        r == duty_for(t@, rpm as int),
{
    let n: usize = t.len();
    if rpm == 0 {
        return 0;
    }
    if rpm >= t[n - 1].1 {
        return u8::MAX;
    }
    let mut i: usize = 1;
    while i < n
        invariant
            1 <= i <= n,
            n == t@.len(),
            n >= 2,
            ascending_duty(t@),
            t@[i - 1].1 < rpm < t@.last().1,
            duty_from(t@, rpm as int, 1) == duty_from(t@, rpm as int, i as int),
        decreases n - i,
    {
        let (d0, r0) = t[i - 1];
        let (d1, r1) = t[i];
        if rpm <= r1 {
            let run: u32 = (r1 - r0) as u32;
            let rise: u32 = (d1 - d0) as u32;
            let over: u32 = (rpm - r0) as u32;
            assert(0 <= rise * over <= rise * run) by (nonlinear_arith)
                requires
                    0 <= over <= run,
                    0 <= rise,
            ;
            assert(rise * run <= 255 * 65_535) by (nonlinear_arith)
                requires
                    rise <= 255,
                    run <= 65_535,
            ;
            assert((rise * over + run - 1) / run as int <= rise) by (nonlinear_arith)
                requires
                    rise * over <= rise * run,
                    run > 0,
            ;
            return d0 + ((rise * over + run - 1) / run) as u8;
        }
        i = i + 1;
    }
    u8::MAX
}

proof fn lemma_between_grows(x: int, y: int, x0: int, y0: int, x1: int, y1: int)
    requires
        x <= y,
        x0 < x1,
        y0 <= y1,
    ensures
        between(x, x0, y0, x1, y1) <= between(y, x0, y0, x1, y1),
{
    let d = x1 - x0;
    let n = (y1 - y0) * (x - x0);
    let m = (y1 - y0) * (y - x0);
    assert(n <= m) by (nonlinear_arith)
        requires
            n == (y1 - y0) * (x - x0),
            m == (y1 - y0) * (y - x0),
            x <= y,
            y0 <= y1,
    ;
    assert(n / d <= m / d) by (nonlinear_arith)
        requires
            n <= m,
            d > 0,
    ;
}

/// From segment `i` on a curve stays between the speed at the segment's start and its last.
proof fn lemma_curve_bounds(t: Seq<(i64, u16)>, c: int, i: int)
    requires
        ascending_curve(t),
        1 <= i <= t.len(),
        t[i - 1].0 <= c,
    ensures
        t[i - 1].1 <= curve_from(t, c, i) <= t.last().1,
    decreases t.len() - i,
{
    if i < t.len() {
        if c <= t[i].0 {
            lemma_between(
                c,
                t[i - 1].0 as int,
                t[i - 1].1 as int,
                t[i].0 as int,
                t[i].1 as int,
            );
        } else {
            lemma_curve_bounds(t, c, i + 1);
        }
    }
}

proof fn lemma_curve_grows(t: Seq<(i64, u16)>, c: int, d: int, i: int)
    requires
        ascending_curve(t),
        1 <= i <= t.len(),
        t[i - 1].0 <= c <= d,
    ensures
        curve_from(t, c, i) <= curve_from(t, d, i),
    decreases t.len() - i,
{
    if i < t.len() {
        let (c0, r0, c1, r1) = (
            t[i - 1].0 as int,
            t[i - 1].1 as int,
            t[i].0 as int,
            t[i].1 as int,
        );
        if d <= t[i].0 {
            lemma_between_grows(c, d, c0, r0, c1, r1);
        } else if c <= t[i].0 {
            lemma_between(c, c0, r0, c1, r1);
            lemma_curve_bounds(t, d, i + 1);
        } else {
            lemma_curve_grows(t, c, d, i + 1);
        }
    }
}

/// A measured curve is met exactly at its points.
proof fn lemma_curve_at_point(t: Seq<(i64, u16)>, i: int, k: int)
    requires
        ascending_curve(t),
        1 <= i <= k < t.len(),
    ensures
        curve_from(t, t[k].0 as int, i) == t[k].1,
    decreases k - i,
{
    if i < k {
        lemma_curve_at_point(t, i + 1, k);
    } else {
        lemma_between(
            t[k].0 as int,
            t[i - 1].0 as int,
            t[i - 1].1 as int,
            t[i].0 as int,
            t[i].1 as int,
        );
    }
}

/// The least duty on one segment that reaches `rpm`.
proof fn lemma_segment_duty(d0: int, r0: int, d1: int, r1: int, rpm: int) -> (d: int)
    requires
        d0 < d1,
        r0 < rpm <= r1,
    ensures
        d == d0 + ceiling_div((d1 - d0) * (rpm - r0), r1 - r0),
        d0 < d <= d1,
        fast_enough(d0, r0, d1, r1, d, rpm),
        forall|e: int| e < d ==> !#[trigger] fast_enough(d0, r0, d1, r1, e, rpm),
{
    let run = r1 - r0;
    let n = (d1 - d0) * (rpm - r0);
    let q = ceiling_div(n, run);
    assert(n > 0) by (nonlinear_arith)
        requires
            n == (d1 - d0) * (rpm - r0),
            d1 - d0 > 0,
            rpm - r0 > 0,
    ;
    assert(n <= (d1 - d0) * run) by (nonlinear_arith)
        requires
            n == (d1 - d0) * (rpm - r0),
            d1 - d0 > 0,
            rpm - r0 <= run,
    ;
    assert(run * q >= n && run * (q - 1) < n) by (nonlinear_arith)
        requires
            q == (n + run - 1) / run,
            run > 0,
    ;
    assert(0 < q) by (nonlinear_arith)
        requires
            run * q >= n,
            n > 0,
            run > 0,
    ;
    assert(q <= d1 - d0) by (nonlinear_arith)
        requires
            run * (q - 1) < n,
            n <= (d1 - d0) * run,
            run > 0,
    ;
    let d = d0 + q;
    assert forall|e: int| e < d implies !#[trigger] fast_enough(d0, r0, d1, r1, e, rpm) by {
        assert(run * (e - d0) <= run * (q - 1)) by (nonlinear_arith)
            requires
                e - d0 <= q - 1,
                run > 0,
        ;
        assert((rpm - r0) * (d1 - d0) == n) by (nonlinear_arith)
            requires
                n == (d1 - d0) * (rpm - r0),
        ;
    }
    assert((rpm - r0) * (d1 - d0) == n) by (nonlinear_arith)
        requires
            n == (d1 - d0) * (rpm - r0),
    ;
    assert(d - d0 == q);
    d
}

proof fn lemma_duty_bounds(t: Seq<(u8, u16)>, rpm: int, i: int)
    requires
        ascending_duty(t),
        1 <= i <= t.len(),
        t[i - 1].1 < rpm,
    ensures
        t[i - 1].0 <= duty_from(t, rpm, i) <= u8::MAX,
    decreases t.len() - i,
{
    if i < t.len() {
        if rpm <= t[i].1 {
            let d = lemma_segment_duty(
                t[i - 1].0 as int,
                t[i - 1].1 as int,
                t[i].0 as int,
                t[i].1 as int,
                rpm,
            );
        } else {
            lemma_duty_bounds(t, rpm, i + 1);
        }
    }
}

proof fn lemma_duty_grows(t: Seq<(u8, u16)>, a: int, b: int, i: int)
    requires
        ascending_duty(t),
        1 <= i <= t.len(),
        t[i - 1].1 < a <= b,
    ensures
        duty_from(t, a, i) <= duty_from(t, b, i),
    decreases t.len() - i,
{
    if i < t.len() {
        let (d0, r0, d1, r1) = (
            t[i - 1].0 as int,
            t[i - 1].1 as int,
            t[i].0 as int,
            t[i].1 as int,
        );
        if b <= t[i].1 {
            let x = lemma_segment_duty(d0, r0, d1, r1, a);
            let y = lemma_segment_duty(d0, r0, d1, r1, b);
            if y < x {
                assert(!fast_enough(d0, r0, d1, r1, y, a));
                assert((a - r0) * (d1 - d0) <= (b - r0) * (d1 - d0)) by (nonlinear_arith)
                    requires
                        a <= b,
                        d0 < d1,
                ;
            }
        } else if a <= t[i].1 {
            let x = lemma_segment_duty(d0, r0, d1, r1, a);
            lemma_duty_bounds(t, b, i + 1);
        } else {
            lemma_duty_grows(t, a, b, i + 1);
        }
    }
}

proof fn lemma_duty_reaches(t: Seq<(u8, u16)>, rpm: int, i: int)
    requires
        ascending_duty(t),
        1 <= i < t.len(),
        t[i - 1].1 < rpm <= t.last().1,
    ensures
        reaches(t, duty_from(t, rpm, i), rpm),
        t[i - 1].0 <= duty_from(t, rpm, i) <= t.last().0,
    decreases t.len() - i,
{
    if rpm <= t[i].1 {
        let d = lemma_segment_duty(
            t[i - 1].0 as int,
            t[i - 1].1 as int,
            t[i].0 as int,
            t[i].1 as int,
            rpm,
        );
        assert(reaches_on(t, i, d, rpm));
    } else {
        lemma_duty_reaches(t, rpm, i + 1);
    }
}

/// No duty below the one chosen is enough.
proof fn lemma_duty_least(t: Seq<(u8, u16)>, rpm: int, i: int, duty: int)
    requires
        ascending_duty(t),
        1 <= i < t.len(),
        t[i - 1].1 < rpm <= t.last().1,
        duty < duty_from(t, rpm, i),
    ensures
        !reaches(t, duty, rpm),
    decreases t.len() - i,
{
    if rpm <= t[i].1 {
        let d = lemma_segment_duty(
            t[i - 1].0 as int,
            t[i - 1].1 as int,
            t[i].0 as int,
            t[i].1 as int,
            rpm,
        );
        assert forall|j: int| 1 <= j < t.len() implies !#[trigger] reaches_on(t, j, duty, rpm) by {
            if j < i {
                let (d0, r0, d1, r1) = (
                    t[j - 1].0 as int,
                    t[j - 1].1 as int,
                    t[j].0 as int,
                    t[j].1 as int,
                );
                assert(r1 < rpm);
                if d0 <= duty <= d1 {
                    assert((r1 - r0) * (duty - d0) < (rpm - r0) * (d1 - d0)) by (nonlinear_arith)
                        requires
                            r0 <= r1,
                            r1 < rpm,
                            d0 <= duty <= d1,
                            d0 < d1,
                    ;
                }
            }
        }
    } else {
        lemma_duty_least(t, rpm, i + 1, duty);
    }
}

/// More duty is never slower.
proof fn lemma_reaches_grows(t: Seq<(u8, u16)>, duty: int, more: int, rpm: int)
    requires
        ascending_duty(t),
        t.len() >= 2,
        reaches(t, duty, rpm),
        duty <= more,
    ensures
        reaches(t, more, rpm),
{
    let last = t.len() - 1;
    if duty >= t.last().0 && rpm <= t.last().1 {
    } else {
        let i = choose|i: int| 1 <= i < t.len() && #[trigger] reaches_on(t, i, duty, rpm);
        let (d0, r0, d1, r1) = (
            t[i - 1].0 as int,
            t[i - 1].1 as int,
            t[i].0 as int,
            t[i].1 as int,
        );
        assert(rpm <= r1) by (nonlinear_arith)
            requires
                (r1 - r0) * (duty - d0) >= (rpm - r0) * (d1 - d0),
                r0 <= r1,
                d0 <= duty <= d1,
                d0 < d1,
        ;
        if more >= t.last().0 {
        } else {
            lemma_reaches_after(t, i, duty, more, rpm);
        }
    }
}

proof fn lemma_reaches_after(t: Seq<(u8, u16)>, i: int, duty: int, more: int, rpm: int)
    requires
        ascending_duty(t),
        1 <= i < t.len(),
        rpm <= t[i].1,
        t[i - 1].0 <= more <= t.last().0,
        more <= t[i].0 ==> reaches_on(t, i, duty, rpm) && duty <= more,
    ensures
        reaches(t, more, rpm),
    decreases t.len() - i,
{
    let (d0, r0, d1, r1) = (t[i - 1].0 as int, t[i - 1].1 as int, t[i].0 as int, t[i].1 as int);
    if more <= t[i].0 {
        assert((r1 - r0) * (more - d0) >= (rpm - r0) * (d1 - d0)) by (nonlinear_arith)
            requires
                (r1 - r0) * (duty - d0) >= (rpm - r0) * (d1 - d0),
                duty <= more,
                r0 <= r1,
        ;
        assert(reaches_on(t, i, more, rpm));
    } else {
        let (e0, s0, e1, s1) = (
            t[i].0 as int,
            t[i].1 as int,
            t[i + 1].0 as int,
            t[i + 1].1 as int,
        );
        if more <= e1 {
            assert((s1 - s0) * (more - e0) >= (rpm - s0) * (e1 - e0)) by (nonlinear_arith)
                requires
                    s0 <= s1,
                    rpm <= s0,
                    e0 <= more,
                    e0 < e1,
            ;
            assert(reaches_on(t, i + 1, more, rpm));
        } else {
            lemma_reaches_after(t, i + 1, more, more, rpm);
        }
    }
}

proof fn lemma_model_bounds(p: BoardProfile, c: i64)
    requires
        p.wf(),
        c < FULL_DUTY_ABOVE_C,
    ensures
        0 <= model_rpm(p, Some(c)) <= p.duty_rpm@.last().1,
{
    let t = p.firmware_curve@;
    if c > t.last().0 {
        lemma_between(
            c as int,
            t.last().0 as int,
            t.last().1 as int,
            FULL_DUTY_ABOVE_C as int,
            p.duty_rpm@.last().1 as int,
        );
    } else if c > t[0].0 {
        lemma_curve_bounds(t, c as int, 1);
    }
}

/// The duty chosen for a speed is the lowest that reaches it, wherever anything measured
/// does.
pub proof fn duty_for_is_the_least_that_reaches(p: BoardProfile, rpm: int)
    requires
        p.wf(),
        0 < rpm < p.duty_rpm@.last().1,
    ensures
        0 <= duty_for(p.duty_rpm@, rpm) <= u8::MAX,
        reaches(p.duty_rpm@, duty_for(p.duty_rpm@, rpm), rpm),
        forall|d: int| d < duty_for(p.duty_rpm@, rpm) ==> !reaches(p.duty_rpm@, d, rpm),
{
    let t = p.duty_rpm@;
    lemma_duty_reaches(t, rpm, 1);
    assert forall|d: int| d < duty_for(t, rpm) implies !reaches(t, d, rpm) by {
        lemma_duty_least(t, rpm, 1, d);
    }
}

/// Hotter never means a lower cold-start floor, and a temperature nobody can read has the
/// highest.
pub proof fn cold_floor_rises_with_temperature(p: BoardProfile, c: i64, d: i64)
    requires
        p.wf(),
        c <= d,
    ensures
        cold_floor(p, Some(c)) <= cold_floor(p, Some(d)) <= cold_floor(p, None),
        cold_floor(p, None) == u8::MAX,
{
    let t = p.firmware_curve@;
    let top = p.duty_rpm@.last().1 as int;
    if d < FULL_DUTY_ABOVE_C {
        lemma_model_bounds(p, c);
        lemma_model_bounds(p, d);
        assert(model_rpm(p, Some(c)) <= model_rpm(p, Some(d))) by {
            let (lc, lr) = (t.last().0 as int, t.last().1 as int);
            if c > lc {
                lemma_between_grows(c as int, d as int, lc, lr, FULL_DUTY_ABOVE_C as int, top);
            } else if d > lc {
                lemma_between(d as int, lc, lr, FULL_DUTY_ABOVE_C as int, top);
                if c > t[0].0 {
                    lemma_curve_bounds(t, c as int, 1);
                }
            } else if c > t[0].0 {
                lemma_curve_grows(t, c as int, d as int, 1);
            } else if d > t[0].0 {
                lemma_curve_bounds(t, d as int, 1);
            }
        }
        lemma_duty_for_grows(p.duty_rpm@, model_rpm(p, Some(c)), model_rpm(p, Some(d)));
    } else if c < FULL_DUTY_ABOVE_C {
        lemma_model_bounds(p, c);
        lemma_duty_for_grows(p.duty_rpm@, model_rpm(p, Some(c)), u16::MAX as int);
    }
}

proof fn lemma_duty_for_grows(t: Seq<(u8, u16)>, a: int, b: int)
    requires
        ascending_duty(t),
        t.len() >= 2,
        t[0].1 == 0,
        0 <= a <= b,
    ensures
        0 <= duty_for(t, a) <= duty_for(t, b) <= u8::MAX,
{
    if 0 < a < t.last().1 {
        lemma_duty_bounds(t, a, 1);
    }
    if 0 < b < t.last().1 {
        lemma_duty_bounds(t, b, 1);
        if 0 < a {
            lemma_duty_grows(t, a, b, 1);
        }
    }
}

/// Where nothing was observed, the floor turns the fan at least as fast as the model says
/// firmware does, as far as anything measured gets that fast.
pub proof fn cold_floor_reaches_the_model(p: BoardProfile, c: i64)
    requires
        p.wf(),
        0 < model_rpm(p, Some(c)) < p.duty_rpm@.last().1,
    ensures
        reaches(p.duty_rpm@, cold_floor(p, Some(c)), model_rpm(p, Some(c))),
{
    let rpm = model_rpm(p, Some(c));
    duty_for_is_the_least_that_reaches(p, rpm);
    lemma_reaches_grows(p.duty_rpm@, duty_for(p.duty_rpm@, rpm), cold_floor(p, Some(c)), rpm);
}

/// At each temperature at which a board's firmware was measured running the fan, the
/// cold-start floor of that board turns it at least as fast.
pub proof fn cold_floor_beats_firmware_at_every_measured_point(p: BoardProfile, i: int)
    requires
        p.wf(),
        0 <= i < p.firmware_curve@.len(),
        0 < p.firmware_curve@[i].1 < p.duty_rpm@.last().1,
    ensures
        model_rpm(p, Some(p.firmware_curve@[i].0)) == p.firmware_curve@[i].1,
        reaches(
            p.duty_rpm@,
            cold_floor(p, Some(p.firmware_curve@[i].0)),
            p.firmware_curve@[i].1 as int,
        ),
{
    if i > 0 {
        lemma_curve_at_point(p.firmware_curve@, 1, i);
    }
    cold_floor_reaches_the_model(p, p.firmware_curve@[i].0);
}

proof fn lemma_between_line(x: int, x0: int, y0: int, x1: int, y1: int)
    requires
        x0 < x1,
    ensures
        0 <= (y1 - y0) * (x - x0) - (x1 - x0) * (between(x, x0, y0, x1, y1) - y0) < x1 - x0,
{
    let n = (y1 - y0) * (x - x0);
    let d = x1 - x0;
    let q = n / d;
    assert(0 <= n - d * q < d) by (nonlinear_arith)
        requires
            q == n / d,
            d > 0,
    ;
}

proof fn lemma_curve_segment(t: Seq<(i64, u16)>, c: int, i: int, k: int)
    requires
        ascending_curve(t),
        1 <= i <= k < t.len(),
        t[k - 1].0 < c <= t[k].0,
    ensures
        curve_from(t, c, i) == between(
            c,
            t[k - 1].0 as int,
            t[k - 1].1 as int,
            t[k].0 as int,
            t[k].1 as int,
        ),
    decreases k - i,
{
    if i < k {
        lemma_curve_segment(t, c, i + 1, k);
    }
}

/// Between two measured temperatures firmware is modelled by the straight line through them,
/// rounded down to a whole rpm. Below the first it runs as it does there.
pub proof fn the_model_follows_the_measured_line(p: BoardProfile, k: int, c: i64)
    requires
        p.wf(),
        0 < k < p.firmware_curve@.len(),
    ensures
        c <= p.firmware_curve@[0].0 ==> model_rpm(p, Some(c)) == p.firmware_curve@[0].1,
        p.firmware_curve@[k - 1].0 < c <= p.firmware_curve@[k].0 ==> ({
            let (x0, y0) = p.firmware_curve@[k - 1];
            let (x1, y1) = p.firmware_curve@[k];
            0 <= (y1 - y0) * (c - x0) - (x1 - x0) * (model_rpm(p, Some(c)) - y0) < x1 - x0
        }),
{
    let t = p.firmware_curve@;
    if t[k - 1].0 < c <= t[k].0 {
        lemma_curve_segment(t, c as int, 1, k);
        lemma_between_line(
            c as int,
            t[k - 1].0 as int,
            t[k - 1].1 as int,
            t[k].0 as int,
            t[k].1 as int,
        );
    }
}

/// Above the last measured temperature firmware is modelled to speed up along a straight line
/// that would reach the fastest measured speed at [`FULL_DUTY_ABOVE_C`]. From there on, and
/// where the temperature is unreadable, it is as fast as can be.
pub proof fn the_model_speeds_up_beyond_what_was_measured(p: BoardProfile, c: i64)
    requires
        p.wf(),
    ensures
        p.firmware_curve@.last().0 < c < 95_000 ==> ({
            let (x0, y0) = p.firmware_curve@.last();
            let (x1, y1) = (95_000int, p.duty_rpm@.last().1);
            0 <= (y1 - y0) * (c - x0) - (x1 - x0) * (model_rpm(p, Some(c)) - y0) < x1 - x0
        }),
        c >= 95_000 ==> model_rpm(p, Some(c)) == u16::MAX,
        model_rpm(p, None) == u16::MAX,
{
    let t = p.firmware_curve@;
    if t.last().0 < c < FULL_DUTY_ABOVE_C {
        lemma_between_line(
            c as int,
            t.last().0 as int,
            t.last().1 as int,
            FULL_DUTY_ABOVE_C as int,
            p.duty_rpm@.last().1 as int,
        );
    }
}

proof fn lemma_duty_segment(t: Seq<(u8, u16)>, rpm: int, i: int, k: int)
    requires
        ascending_duty(t),
        1 <= i <= k < t.len(),
        t[k - 1].1 < rpm <= t[k].1,
    ensures
        duty_from(t, rpm, i) == t[k - 1].0 + ceiling_div(
            (t[k].0 - t[k - 1].0) * (rpm - t[k - 1].1),
            t[k].1 - t[k - 1].1,
        ),
    decreases k - i,
{
    if i < k {
        lemma_duty_segment(t, rpm, i + 1, k);
    }
}

/// The duty for a speed between two measured ones is on the straight line through them, rounded
/// up: that duty is fast enough, and one less is not. A stopped fan takes none, and a speed that
/// nothing measured exceeds takes all there is.
pub proof fn the_duty_for_a_speed_is_the_lines_rounded_up(p: BoardProfile, k: int, rpm: int)
    requires
        p.wf(),
        0 < k < p.duty_rpm@.len(),
    ensures
        duty_for(p.duty_rpm@, 0) == 0,
        rpm > 0 && rpm >= p.duty_rpm@.last().1 ==> duty_for(p.duty_rpm@, rpm) == u8::MAX,
        p.duty_rpm@[k - 1].1 < rpm <= p.duty_rpm@[k].1 && rpm < p.duty_rpm@.last().1 ==> ({
            let (d0, r0) = p.duty_rpm@[k - 1];
            let (d1, r1) = p.duty_rpm@[k];
            let d = duty_for(p.duty_rpm@, rpm);
            (r1 - r0) * (d - d0) >= (rpm - r0) * (d1 - d0) > (r1 - r0) * (d - 1 - d0)
        }),
{
    let t = p.duty_rpm@;
    if t[k - 1].1 < rpm <= t[k].1 && rpm < t.last().1 {
        assert(t[k - 1].1 >= 0);
        lemma_duty_segment(t, rpm, 1, k);
        let n = (t[k].0 - t[k - 1].0) * (rpm - t[k - 1].1);
        let d = t[k].1 - t[k - 1].1;
        let q = ceiling_div(n, d);
        assert(d * q >= n > d * (q - 1)) by (nonlinear_arith)
            requires
                q == (n + d - 1) / d,
                d > 0,
        ;
        assert((rpm - t[k - 1].1) * (t[k].0 - t[k - 1].0) == n) by (nonlinear_arith)
            requires
                n == (t[k].0 - t[k - 1].0) * (rpm - t[k - 1].1),
        ;
    }
}

/// Where nothing was observed the floor is two counts above the least duty that turns the fan
/// as fast as the model, no more than there is and no less than starts the fan. It is nothing
/// exactly where the model has the fan off.
pub proof fn the_cold_floor_is_the_models_duty_with_a_margin(p: BoardProfile, c: Option<i64>)
    requires
        p.wf(),
    ensures
        ({
            let d = duty_for(p.duty_rpm@, model_rpm(p, c));
            let f = cold_floor(p, c);
            &&& model_rpm(p, c) == 0 <==> f == 0
            &&& f != 0 && 33 <= d + 2 <= u8::MAX ==> f == d + 2
            &&& f != 0 && d + 2 < 33 ==> f == 33
            &&& f != 0 && d + 2 > u8::MAX ==> f == u8::MAX
        }),
{
}

/// A temperature is tracked in the bucket whose two degrees it lies in, and one below 30 degrees
/// or from 110 on is not tracked.
pub proof fn a_temperature_lies_in_its_bucket(c: i64)
    ensures
        bucket_of(Some(c)) matches Some(i) ==> 0 <= i < 40 && 30_000 + i * 2_000 <= c
            < 30_000 + (i + 1) * 2_000,
        bucket_of(Some(c)) is None <==> c < 30_000 || c >= 110_000,
        bucket_of(None) is None,
{
}

/// Climbing or falling from one tracked temperature to another passes through exactly the
/// buckets that hold a temperature in between: those that end above the cooler one and do not
/// start above the warmer.
pub proof fn a_span_is_every_bucket_between(a: i64, b: i64, i: int)
    requires
        bucket_of(Some(a)) is Some,
        bucket_of(Some(b)) is Some,
        a <= b,
    ensures
        spans(Some(a), Some(b), i) <==> 30_000 + (i + 1) * 2_000 > a && 30_000 + i
            * 2_000 <= b,
        spans(Some(b), Some(a), i) == spans(Some(a), Some(b), i),
{
}

/// Where only one end of a span is tracked, or neither is, that end alone counts.
pub proof fn a_half_tracked_span_is_its_tracked_end(a: Option<i64>, b: Option<i64>, i: int)
    requires
        bucket_of(a) is None || bucket_of(b) is None,
    ensures
        spans(a, b, i) <==> bucket_of(a) == Some(i) || bucket_of(b) == Some(i),
{
}

/// What is known of a bucket is the loudest of what was seen there: no less than any, and one of
/// them.
pub proof fn the_loudest_observation_is_kept(known: Option<u8>, duty: u8)
    ensures
        louder(known, duty) matches Some(d) && d >= duty && (known matches Some(k) ==> d >= k) && (d
            == duty || known == Some(d)),
{
}

/// Reloading a list of observations leaves each bucket with the loudest of what it knew and what
/// the list holds for it, in whatever order the list is. What is outside the buckets is dropped.
pub proof fn reloading_keeps_the_loudest(s: Seq<Option<u8>>, obs: Seq<(i64, u8)>, i: int)
    requires
        s.len() == BUCKETS,
        0 <= i < BUCKETS,
    ensures
        with_observations(s, obs).len() == BUCKETS,
        forall|j: int|
            0 <= j < obs.len() && bucket_of(Some((#[trigger] obs[j]).0)) == Some(i) ==> (
            with_observations(s, obs)[i] matches Some(d) && d >= obs[j].1),
        s[i] matches Some(k) ==> (with_observations(s, obs)[i] matches Some(d) && d >= k),
        with_observations(s, obs)[i] == s[i] || exists|j: int|
            0 <= j < obs.len() && bucket_of(Some((#[trigger] obs[j]).0)) == Some(i)
                && with_observations(s, obs)[i] == Some(obs[j].1),
    decreases obs.len(),
{
    if obs.len() > 0 {
        let before = obs.drop_last();
        reloading_keeps_the_loudest(s, before, i);
        let last = obs.len() - 1;
        let (was, now) = (with_observations(s, before), with_observations(s, obs));
        assert forall|j: int|
            0 <= j < obs.len() && bucket_of(Some((#[trigger] obs[j]).0)) == Some(i) implies now[i] matches Some(
            d,
        ) && d >= obs[j].1 by {
            if j < last {
                assert(before[j] == obs[j]);
            }
        }
        if now[i] != s[i] {
            if now[i] == was[i] {
                let j = choose|j: int|
                    0 <= j < before.len() && bucket_of(Some((#[trigger] before[j]).0)) == Some(i)
                        && was[i] == Some(before[j].1);
                assert(obs[j] == before[j]);
            } else {
                assert(bucket_of(Some(obs[last].0)) == Some(i));
            }
        }
    }
}

/// The list of what is known holds each known bucket, by the temperature at which it starts,
/// and nothing else, coolest first.
pub proof fn the_list_is_what_is_known(s: Seq<Option<u8>>, n: int)
    requires
        s.len() == BUCKETS,
        0 <= n <= BUCKETS,
    ensures
        forall|i: int|
            0 <= i < n && (#[trigger] s[i]) is Some ==> listed(s, n).contains(
                ((30_000 + i * 2_000) as i64, s[i]->0),
            ),
        forall|k: int|
            0 <= k < listed(s, n).len() ==> {
                let i = ((#[trigger] listed(s, n)[k]).0 - 30_000) / 2_000 as int;
                &&& 0 <= i < n
                &&& listed(s, n)[k].0 == 30_000 + i * 2_000
                &&& s[i] == Some(listed(s, n)[k].1)
            },
        forall|j: int, k: int|
            0 <= j < k < listed(s, n).len() ==> (#[trigger] listed(s, n)[j]).0 < (
            #[trigger] listed(s, n)[k]).0,
    decreases n,
{
    if n > 0 {
        the_list_is_what_is_known(s, n - 1);
        let (was, now) = (listed(s, n - 1), listed(s, n));
        if s[n - 1] is Some {
            assert(now[was.len() as int] == ((BUCKET_BASE_C + (n - 1) * BUCKET_C) as i64, s[n - 1]->0));
        }
        assert forall|i: int| 0 <= i < n && (#[trigger] s[i]) is Some implies now.contains(
            ((BUCKET_BASE_C + i * BUCKET_C) as i64, s[i]->0),
        ) by {
            if i < n - 1 {
                let x = ((BUCKET_BASE_C + i * BUCKET_C) as i64, s[i]->0);
                let k = choose|k: int| 0 <= k < was.len() && was[k] == x;
                assert(now[k] == x);
            }
        }
        assert forall|j: int, k: int| 0 <= j < k < now.len() implies (#[trigger] now[j]).0 < (
        #[trigger] now[k]).0 by {
            assert(now[j] == was[j]);
            if k < was.len() {
                assert(now[k] == was[k]);
            }
        }
        assert forall|k: int| 0 <= k < now.len() implies {
            let i = ((#[trigger] now[k]).0 - BUCKET_BASE_C) / BUCKET_C as int;
            &&& 0 <= i < n
            &&& now[k].0 == BUCKET_BASE_C + i * BUCKET_C
            &&& s[i] == Some(now[k].1)
        } by {
            if k < was.len() {
                assert(now[k] == was[k]);
            }
        }
    }
}

/// Changes are counted bucket by bucket: none where nothing moved, and as a bucket that had not
/// moved changes, one more.
pub proof fn each_changed_bucket_counts_once(
    s: Seq<Option<u8>>,
    t: Seq<Option<u8>>,
    i: int,
    x: Option<u8>,
)
    requires
        s.len() == t.len(),
        0 <= i < t.len(),
        s[i] == t[i],
        x != s[i],
    ensures
        differing(s, s) == 0,
        differing(s, t.update(i, x)) == differing(s, t) + 1,
{
    lemma_differing_same(s);
    lemma_differing_update(s, t, i, x);
}

/// An observation counts as a change exactly where its temperature is tracked and it is louder
/// than what was known there.
pub proof fn only_a_louder_observation_counts(s: Seq<Option<u8>>, obs: Seq<(i64, u8)>, o: (i64, u8))
    requires
        s.len() == BUCKETS,
    ensures
        changes(s, obs.push(o)) == changes(s, obs) + (match bucket_of(Some(o.0)) {
            Some(i) => match with_observations(s, obs)[i] {
                Some(d) if d >= o.1 => 0int,
                _ => 1,
            },
            None => 0,
        }),
        changes(s, seq![]) == 0,
{
    let all = obs.push(o);
    assert(all.drop_last() =~= obs);
    reloading_keeps_the_loudest(s, obs, 0);
    let had = with_observations(s, obs);
    lemma_differing_same(had);
    if let Some(i) = bucket_of(Some(o.0)) {
        let x = louder(had[i], o.1);
        if x == had[i] {
            assert(had.update(i, x) =~= had);
        } else {
            lemma_differing_update(had, had, i, x);
        }
    }
}

impl FirmwareFloor {
    /// Where firmware was seen running the fan, the floor is what it was seen at with the margin
    /// on top: exactly that, as long as it starts the fan and is not more than there is.
    pub proof fn floor_is_the_observed_duty_with_a_margin(&self, c: Option<i64>, d: u8)
        requires
            self.known(c) == Some(d),
            d > 0,
        ensures
            33 <= d + 2 <= u8::MAX ==> self.floor(c) == d + 2,
            d + 2 < 33 ==> self.floor(c) == 33,
            d + 2 > u8::MAX ==> self.floor(c) == u8::MAX,
    {
    }

    /// Once firmware was seen at a duty while the machine warmed, the floor is at that duty with
    /// the margin on top, or above it where firmware had been louder before.
    pub proof fn an_observation_sets_the_floor(&self, after: &FirmwareFloor, c: i64, duty: u8)
        requires
            self.wf(),
            after.measured() == self.measured(),
            bucket_of(Some(c)) is Some,
            duty > 0,
            after@ == Seq::new(
                BUCKETS as nat,
                |i: int|
                    if bucket_of(Some(c)) == Some(i) {
                        louder(self@[i], duty)
                    } else {
                        self@[i]
                    },
            ),
        ensures
            (self.known(Some(c)) matches Some(k) ==> k <= duty) && 33 <= duty
                + 2 <= u8::MAX ==> after.floor(Some(c)) == duty + 2,
            self.known(Some(c)) matches Some(k) && k >= duty ==> after.floor(Some(c)) == self.floor(
                Some(c),
            ),
            forall|x: Option<i64>|
                bucket_of(x) != bucket_of(Some(c)) ==> #[trigger] after.floor(x) == self.floor(x),
    {
    }

    /// The floor knows of a temperature what is in the bucket whose two degrees it lies in.
    pub proof fn what_is_known_is_in_the_bucket(&self, c: i64, i: int)
        requires
            0 <= i < BUCKETS,
            30_000 + i * 2_000 <= c < 30_000 + (i + 1) * 2_000,
        ensures
            self.known(Some(c)) == self@[i],
            self.known(None) is None,
    {
        assert((c - BUCKET_BASE_C) / BUCKET_C as int == i) by (nonlinear_arith)
            requires
                BUCKET_BASE_C + i * BUCKET_C <= c < BUCKET_BASE_C + (i + 1) * BUCKET_C,
        ;
    }

    /// Where nothing was observed the floor is the cold start's.
    pub proof fn the_unobserved_floor_is_the_cold_start(&self, c: Option<i64>)
        requires
            self.known(c) is None,
        ensures
            self.floor(c) == cold_floor(self.measured(), c),
    {
    }

    /// The floor is a stopped fan or a turning one, never a duty that may not start it.
    pub proof fn floor_always_turns_the_fan_or_stops_it(&self, c: Option<i64>)
        ensures
            self.floor(c) == 0 || LEAST_DUTY <= self.floor(c) <= u8::MAX,
    {
    }

    /// The floor is never below what firmware was seen doing, and firmware keeping the fan
    /// off is honoured.
    pub proof fn floor_is_never_quieter_than_observed_firmware(&self, c: Option<i64>)
        requires
            self.known(c) is Some,
        ensures
            self.floor(c) >= self.known(c)->0,
            self.known(c) == Some(0u8) ==> self.floor(c) == 0,
    {
    }

    /// An unreadable temperature demands full duty, whatever was observed.
    pub proof fn floor_of_an_unreadable_temperature_is_full_duty(&self)
        ensures
            self.floor(None) == u8::MAX,
    {
    }

    /// Where nothing was observed, it is full duty from [`FULL_DUTY_ABOVE_C`] on.
    pub proof fn unobserved_heat_demands_full_duty(&self, c: i64)
        requires
            c >= FULL_DUTY_ABOVE_C,
            self.known(Some(c)) is None,
        ensures
            self.floor(Some(c)) == u8::MAX,
    {
    }

    /// Reloading what one floor listed into a fresh one gives the same buckets, hence on the
    /// same board the same floor at every temperature.
    pub proof fn observations_survive_a_round_trip(&self, fresh: &FirmwareFloor)
        requires
            self.wf(),
            fresh@ == Seq::new(BUCKETS as nat, |i: int| None::<u8>),
        ensures
            with_observations(fresh@, listed(self@, BUCKETS as int)) == self@,
    {
        lemma_relisted(self@, BUCKETS as int);
        let again = with_observations(fresh@, listed(self@, BUCKETS as int));
        assert(again =~= self@);
    }
}

proof fn lemma_relisted(s: Seq<Option<u8>>, n: int)
    requires
        s.len() == BUCKETS,
        0 <= n <= BUCKETS,
    ensures
        with_observations(
            Seq::new(BUCKETS as nat, |i: int| None::<u8>),
            listed(s, n),
        ) == Seq::new(
            BUCKETS as nat,
            |i: int|
                if i < n {
                    s[i]
                } else {
                    None::<u8>
                },
        ),
    decreases n,
{
    let fresh = Seq::new(BUCKETS as nat, |i: int| None::<u8>);
    let upto = |n: int|
        Seq::new(
            BUCKETS as nat,
            |i: int|
                if i < n {
                    s[i]
                } else {
                    None::<u8>
                },
        );
    if n == 0 {
        assert(upto(0) =~= fresh);
    } else {
        lemma_relisted(s, n - 1);
        assert(with_observations(fresh, listed(s, n - 1)) =~= upto(n - 1));
        match s[n - 1] {
            Some(d) => {
                let edge = bucket_edge(n - 1) as i64;
                assert(bucket_of(Some(edge)) == Some(n - 1));
                assert(listed(s, n).drop_last() =~= listed(s, n - 1));
                assert(upto(n) =~= upto(n - 1).update(n - 1, Some(d)));
            },
            None => {
                assert(upto(n) =~= upto(n - 1));
            },
        }
    }
}

/// Recording an observation never lowers what is known of any temperature, and never
/// forgets it.
pub proof fn loud_is_never_undone(known: Option<u8>, duty: u8)
    ensures
        louder(known, duty) is Some,
        louder(known, duty)->0 >= duty,
        known matches Some(d) ==> louder(known, duty)->0 >= d,
{
}

}
