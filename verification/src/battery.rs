//! A backstop for the one component that cannot protect itself.
//!
//! The CPU throttles when it is hot, so constraining the fan costs performance rather than
//! hardware. A hot battery simply degrades. Its own critical threshold decides where the
//! guard starts asking for airflow and where a quiet fan stops being the user's call.
//!
//! Temperatures are in thousandths of a degree Celsius.

use vstd::prelude::*;
use crate::floor::LEAST_DUTY;
use crate::number::{one_place, one_place_text};

verus! {

/// Used when a battery sensor exists but reports no usable critical threshold.
pub const FALLBACK_CRIT_C: i64 = 50_000;

/// How far below crit the guard starts asking for airflow.
pub const RAMP_BELOW_CRIT_C: i64 = 8_000;

/// How far below crit manual fan control is given up entirely.
pub const RELEASE_BELOW_CRIT_C: i64 = 2_000;

/// A critical threshold outside this range is not believable: trusting one would disable
/// the guard or pin the fan at full duty forever.
pub const PLAUSIBLE_MIN_C: i64 = 20_000;

pub const PLAUSIBLE_MAX_C: i64 = 80_000;

#[derive(Debug, Clone, Copy, PartialEq, Eq, Structural)]
pub struct BatteryGuard {
    crit: i64,
}

/// Whether a critical threshold can be believed.
pub open spec fn plausible(crit: Option<i64>) -> bool {
    crit matches Some(c) && PLAUSIBLE_MIN_C <= c <= PLAUSIBLE_MAX_C
}

/// The duty `over` above the start of the ramp, rounded up: full at its end.
pub open spec fn ramp_duty(over: int) -> int {
    let span = RAMP_BELOW_CRIT_C - RELEASE_BELOW_CRIT_C;
    if over >= span {
        u8::MAX as int
    } else {
        (over * u8::MAX + span - 1) / span
    }
}

impl BatteryGuard {
    #[verifier::type_invariant]
    spec fn inv(&self) -> bool {
        PLAUSIBLE_MIN_C <= self.crit <= PLAUSIBLE_MAX_C
    }

    pub closed spec fn limit(self) -> i64 {
        self.crit
    }

    /// Build from the battery sensor's own critical threshold.
    pub fn from_crit(crit: Option<i64>) -> (r: Self)
        ensures
            r.limit() == (if plausible(crit) {
                crit->0
            } else {
                FALLBACK_CRIT_C
            }),
            crit matches Some(c) && 20_000 <= c <= 80_000 ==> crit == Some(r.limit()),
            crit matches Some(c) && (c < 20_000 || c > 80_000) ==> r.limit() == 50_000,
            crit is None ==> r.limit() == 50_000,
    {
        match crit {
            Some(c) if PLAUSIBLE_MIN_C <= c && c <= PLAUSIBLE_MAX_C => Self { crit: c },
            _ => Self { crit: FALLBACK_CRIT_C },
        }
    }

    pub fn crit(&self) -> (r: i64)
        ensures
            r == self.limit(),
            PLAUSIBLE_MIN_C <= r <= PLAUSIBLE_MAX_C,
    {
        proof {
            use_type_invariant(&*self);
        }
        self.crit
    }

    /// Where the guard starts asking for airflow.
    pub fn ramp_start(&self) -> (r: i64)
        ensures
            r == self.limit() - RAMP_BELOW_CRIT_C,
    {
        self.crit() - RAMP_BELOW_CRIT_C
    }

    /// Above this the battery is close enough to its limit that a quiet fan is no longer
    /// the user's call.
    pub fn release_above(&self) -> (r: i64)
        ensures
            r == self.limit() - RELEASE_BELOW_CRIT_C,
    {
        self.crit() - RELEASE_BELOW_CRIT_C
    }

    /// The least duty a battery temperature justifies. No reading asks for nothing: plenty
    /// of machines have no battery sensor, and that must not become full duty forever.
    pub open spec fn floor(self, c: Option<i64>) -> int {
        match c {
            Some(c) => {
                let over = c - (self.limit() - RAMP_BELOW_CRIT_C);
                if over <= 0 {
                    0
                } else if ramp_duty(over) < LEAST_DUTY {
                    LEAST_DUTY as int
                } else {
                    ramp_duty(over)
                }
            },
            None => 0,
        }
    }

    /// The least duty this battery temperature justifies, whatever the CPU does.
    pub fn floor_duty(&self, celsius: Option<i64>) -> (r: u8)
        ensures
            r == self.floor(celsius),
    {
        let c: i64 = match celsius {
            Some(c) => c,
            None => {
                return 0;
            },
        };
        let start: i64 = self.ramp_start();
        if c <= start {
            return 0;
        }
        let span: i64 = self.release_above() - start;
        if c >= start + span {
            return u8::MAX;
        }
        let duty: u8 = (((c - start) * 255 + span - 1) / span) as u8;
        if duty < LEAST_DUTY {
            LEAST_DUTY
        } else {
            duty
        }
    }

    /// Whether a battery temperature is too close to the limit.
    pub open spec fn exceeded(self, c: Option<i64>) -> bool {
        c matches Some(c) && c >= self.limit() - RELEASE_BELOW_CRIT_C
    }

    /// Is the battery too close to its limit for a quiet setting to stand?
    pub fn exceeded_by(&self, celsius: Option<i64>) -> (r: bool)
        ensures
            r == self.exceeded(celsius),
    {
        match celsius {
            Some(c) => c >= self.release_above(),
            None => false,
        }
    }

    pub open spec fn spec_text(self) -> Seq<char> {
        "battery limit "@ + one_place(self.limit() as int) + " C"@
    }

    pub fn text(&self) -> (r: String)
        ensures
            r@ == self.spec_text(),
    {
        let mut s = "battery limit ".to_owned();
        s.append(one_place_text(self.crit).as_str());
        s.append(" C");
        s
    }

    /// A warmer battery never asks for less, and what it asks for either turns the fan or
    /// is nothing.
    pub proof fn floor_rises_with_the_battery(self, c: i64, d: i64)
        requires
            c <= d,
        ensures
            0 <= self.floor(Some(c)) <= self.floor(Some(d)) <= u8::MAX,
            self.floor(Some(c)) == 0 || self.floor(Some(c)) >= LEAST_DUTY,
    {
    }

    /// The guard asks for nothing up to eight degrees below the limit. From there it asks for a
    /// share of full duty, rounded up: as much of it as the battery has gone of the way to two
    /// degrees below the limit, but at least a duty that starts the fan. From there on, for all.
    /// No reading asks for nothing.
    pub proof fn the_guard_ramps_up_to_full_duty(self, c: i64)
        ensures
            self.floor(None) == 0,
            c <= self.limit() - 8_000 ==> self.floor(Some(c)) == 0,
            c >= self.limit() - 2_000 ==> self.floor(Some(c)) == u8::MAX,
            self.limit() - 8_000 < c < self.limit() - 2_000 ==> ({
                let whole: int = 6_000;
                let gone = c - (self.limit() - 8_000);
                let d = self.floor(Some(c));
                &&& d >= 33
                &&& d * whole >= u8::MAX * gone
                &&& d > 33 ==> (d - 1) * whole < u8::MAX * gone
            }),
    {
    }

    /// The fan is taken away from two degrees below the limit on, and never for want of a
    /// reading.
    pub proof fn the_guard_releases_short_of_the_limit(self, c: i64)
        ensures
            self.exceeded(Some(c)) <==> c >= self.limit() - 2_000,
            !self.exceeded(None),
    {
    }

    /// Where the guard takes the fan away it has asked for full duty.
    pub proof fn full_duty_is_asked_for_at_the_limit(self, c: Option<i64>)
        requires
            self.exceeded(c),
        ensures
            self.floor(c) == u8::MAX,
    {
    }
}

impl Default for BatteryGuard {
    fn default() -> (r: Self)
        ensures
            r.limit() == FALLBACK_CRIT_C,
    {
        Self { crit: FALLBACK_CRIT_C }
    }
}

}
