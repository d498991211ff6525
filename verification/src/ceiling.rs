//! The temperature above which the user does not get a vote.
//!
//! Past it manual control is released and firmware does its job: its own thermal
//! protection is never removed, only deferred to. Releasing does not cool the machine
//! faster, so it is the last resort: before the fallback ceiling and before the cap
//! [`crate::floor`] demands full duty. A ceiling that a sensor's low critical point puts
//! below that temperature takes the fan away earlier.
//!
//! The threshold is derived from a sensor's critical point and validated before it is
//! trusted: an unset threshold reads as absolute zero on real boards. Temperatures are in
//! thousandths of a degree Celsius.

use vstd::prelude::*;
use crate::board::BoardProfile;
use crate::floor::{cold_floor, FULL_DUTY_ABOVE_C};
use crate::number::{one_place, one_place_text};

verus! {

/// How far below the sensor's critical point to intervene.
pub const CEILING_MARGIN_C: i64 = 15_000;

/// The CPU's own throttle point.
pub const TJMAX_C: i64 = 100_000;

/// Hard cap on the derived ceiling, however high the sensor's critical point is: past
/// Tjmax the CPU is already protecting itself.
pub const MAX_CEILING_C: i64 = TJMAX_C;

/// Used when no sensor offers a usable critical point. Not knowing the limit is a reason
/// to be more cautious than the cap.
pub const FALLBACK_CEILING_C: i64 = 97_000;

/// The lowest and the highest critical threshold that can be believed.
pub const PLAUSIBLE_MIN_C: i64 = 0;

pub const PLAUSIBLE_MAX_C: i64 = 150_000;

/// The temperature at which manual fan control is given up.
#[derive(Debug, Clone, Copy, PartialEq, Eq, Structural)]
pub struct Ceiling {
    celsius: i64,
    derived: bool,
}

/// Whether a critical threshold can be believed.
pub open spec fn plausible(crit: Option<i64>) -> bool {
    crit matches Some(c) && PLAUSIBLE_MIN_C <= c <= PLAUSIBLE_MAX_C
}

/// The ceiling that a critical threshold gives: a margin below it, and never above the cap.
pub open spec fn limit_for(crit: Option<i64>) -> int {
    match crit {
        Some(c) if plausible(crit) => if c - CEILING_MARGIN_C < MAX_CEILING_C {
            c - CEILING_MARGIN_C
        } else {
            MAX_CEILING_C as int
        },
        _ => FALLBACK_CEILING_C as int,
    }
}

impl Ceiling {
    pub closed spec fn limit(self) -> i64 {
        self.celsius
    }

    pub closed spec fn from_sensor(self) -> bool {
        self.derived
    }

    /// Derive from a sensor's critical threshold. Nothing, or anything implausible, falls
    /// back to a constant.
    pub fn from_crit(crit: Option<i64>) -> (r: Self)
        ensures
            r.from_sensor() == plausible(crit),
            r.limit() == limit_for(crit),
            r.limit() <= MAX_CEILING_C,
    {
        match crit {
            Some(c) if PLAUSIBLE_MIN_C <= c && c <= PLAUSIBLE_MAX_C => {
                let below: i64 = c - CEILING_MARGIN_C;
                Self {
                    celsius: if below < MAX_CEILING_C {
                        below
                    } else {
                        MAX_CEILING_C
                    },
                    derived: true,
                }
            },
            _ => Self { celsius: FALLBACK_CEILING_C, derived: false },
        }
    }

    pub fn celsius(&self) -> (r: i64)
        ensures
            r == self.limit(),
    {
        self.celsius
    }

    /// Whether this came from hardware or from the fallback constant. Worth logging: a
    /// machine on the fallback is one whose sensors could not be read.
    pub fn is_derived(&self) -> (r: bool)
        ensures
            r == self.from_sensor(),
    {
        self.derived
    }

    /// Whether a temperature is at the ceiling or above it. One that cannot be read is.
    pub open spec fn exceeded(self, c: Option<i64>) -> bool {
        match c {
            Some(c) => c >= self.limit(),
            None => true,
        }
    }

    /// Is the machine too hot for us to be holding the fan? Not knowing is not permission.
    pub fn exceeded_by(&self, celsius: Option<i64>) -> (r: bool)
        ensures
            r == self.exceeded(celsius),
    {
        match celsius {
            Some(c) => c >= self.celsius,
            None => true,
        }
    }

    pub open spec fn spec_text(self) -> Seq<char> {
        if self.from_sensor() {
            one_place(self.limit() as int) + " C"@
        } else {
            one_place(self.limit() as int) + " C"@ + " (fallback; no usable temp*_crit)"@
        }
    }

    pub fn text(&self) -> (r: String)
        ensures
            r@ == self.spec_text(),
    {
        let mut s = one_place_text(self.celsius);
        s.append(" C");
        if !self.derived {
            s.append(" (fallback; no usable temp*_crit)");
        }
        s
    }
}

impl Default for Ceiling {
    fn default() -> (r: Self)
        ensures
            !r.from_sensor(),
            r.limit() == FALLBACK_CEILING_C,
    {
        Self::from_crit(None)
    }
}

/// A believable critical point puts the ceiling the margin below it, or at the cap where that is
/// lower. Anything else puts it at the fallback.
pub proof fn the_ceiling_lies_a_margin_below_the_critical_point(c: i64)
    ensures
        0 <= c <= 150_000 ==> {
            let l = limit_for(Some(c));
            &&& plausible(Some(c))
            &&& l <= c - 15_000 && l <= 100_000
            &&& l == c - 15_000 || l == 100_000
        },
        c < 0 || c > 150_000 ==> !plausible(Some(c)) && limit_for(Some(c)) == 97_000,
        !plausible(None) && limit_for(None) == 97_000,
{
}

/// The fan is given back from the ceiling on, and where nothing can be read.
pub proof fn the_ceiling_is_exceeded_from_its_limit_on(ceiling: Ceiling, c: i64)
    ensures
        ceiling.exceeded(Some(c)) <==> c >= ceiling.limit(),
        ceiling.exceeded(None),
{
}

/// Whether a temperature is hot enough for full duty, and not yet for giving the fan back.
pub open spec fn in_full_duty_band(ceiling: Ceiling, c: i64) -> bool {
    FULL_DUTY_ABOVE_C <= c < ceiling.limit() && !ceiling.exceeded(Some(c))
}

/// Full duty comes first: under every ceiling, the cold-start floor is at its top from
/// [`FULL_DUTY_ABOVE_C`] until the fan is given back. There is such a band exactly where the
/// ceiling lies above that temperature, as the fallback and the cap do.
pub proof fn full_duty_is_reached_before_the_fan_is_released(
    p: BoardProfile,
    ceiling: Ceiling,
    c: i64,
)
    requires
        p.wf(),
    ensures
        FULL_DUTY_ABOVE_C <= c < ceiling.limit() ==> in_full_duty_band(ceiling, c) && cold_floor(
            p,
            Some(c),
        ) == u8::MAX,
        ceiling.limit() > FULL_DUTY_ABOVE_C <==> exists|t: i64| in_full_duty_band(ceiling, t),
        FULL_DUTY_ABOVE_C < FALLBACK_CEILING_C < MAX_CEILING_C,
{
    if ceiling.limit() > FULL_DUTY_ABOVE_C {
        assert(in_full_duty_band(ceiling, FULL_DUTY_ABOVE_C));
    }
}

}
