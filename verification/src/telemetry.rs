//! What the machine is doing right now.
//!
//! A [`Monitor`] says which files to read and turns what they said into [`Telemetry`].
//! Temperatures are in thousandths of a degree Celsius, power in microwatts, time in
//! nanoseconds.

use vstd::prelude::*;
use crate::caps::{cap_text, text_of, Cap, Capabilities, ENERGY};
use crate::energy::{power_between, quantized, EnergySampler};
use crate::fan::FAN_INPUT;
use crate::number::{decimal, decimal_text};
use crate::paths::{BATTERY, PLATFORM_PROFILE};
use crate::sysfs::{
    a_number_in_a_file_reads_as_itself,
    a_signed_number_in_a_file_reads_as_itself,
    reply,
    signed_in,
    unsigned_in,
    Answer,
    Sysfs,
};
use crate::text::{contains, holds, same, starts_with, trim, trimmed};

verus! {

#[derive(Debug, Clone, PartialEq, Eq)]
pub struct TempReading {
    pub label: String,
    pub celsius: i64,
    /// The sensor's critical point. `None` where the board reports an implausible one: an
    /// unset threshold reads as absolute zero, so any must be checked before it is trusted.
    pub critical: Option<i64>,
}

/// What a [`TempReading`] says.
pub struct Temp {
    pub label: Seq<char>,
    pub celsius: i64,
    pub critical: Option<i64>,
}

impl View for TempReading {
    type V = Temp;

    open spec fn view(&self) -> Temp {
        Temp { label: self.label@, celsius: self.celsius, critical: self.critical }
    }
}

pub open spec fn temps_of(s: Seq<TempReading>) -> Seq<Temp> {
    s.map_values(|t: TempReading| t@)
}

#[derive(Debug, Clone, Default, PartialEq, Eq)]
pub struct Telemetry {
    pub temps: Vec<TempReading>,
    pub fan_rpm: Option<u64>,
    /// The CPU package's power, to the published resolution.
    pub package_watts: Option<i64>,
    /// Lowest package power seen since this monitor started: what the package draws with
    /// nothing running.
    pub package_watts_floor: Option<i64>,
    pub battery_percent: Option<u64>,
    pub battery_status: Option<String>,
    pub platform_profile: Option<String>,
    /// What the whole machine is drawing. Only measurable on battery, where it is the
    /// discharge rate; on mains nothing reports it.
    pub system_watts: Option<i64>,
    /// Minutes until the battery is empty at the current rate, when discharging.
    pub battery_minutes: Option<u64>,
    /// True on mains, false on battery, `None` when no mains supply can be found.
    pub on_ac: Option<bool>,
}

/// What a [`Telemetry`] says.
pub struct Seen {
    pub temps: Seq<Temp>,
    pub fan_rpm: Option<u64>,
    pub package_watts: Option<i64>,
    pub package_watts_floor: Option<i64>,
    pub battery_percent: Option<u64>,
    pub battery_status: Option<Seq<char>>,
    pub platform_profile: Option<Seq<char>>,
    pub system_watts: Option<i64>,
    pub battery_minutes: Option<u64>,
    pub on_ac: Option<bool>,
}

impl View for Telemetry {
    type V = Seen;

    open spec fn view(&self) -> Seen {
        Seen {
            temps: temps_of(self.temps@),
            fan_rpm: self.fan_rpm,
            package_watts: self.package_watts,
            package_watts_floor: self.package_watts_floor,
            battery_percent: self.battery_percent,
            battery_status: text_of(self.battery_status),
            platform_profile: text_of(self.platform_profile),
            system_watts: self.system_watts,
            battery_minutes: self.battery_minutes,
            on_ac: self.on_ac,
        }
    }
}

/// The first reading for which `p` holds, from reading `i` on.
pub open spec fn first_temp(s: Seq<Temp>, p: spec_fn(Temp) -> bool, i: int) -> Option<int>
    decreases s.len() - i,
{
    if i >= s.len() {
        None
    } else if p(s[i]) {
        Some(i)
    } else {
        first_temp(s, p, i + 1)
    }
}

/// The last of the hottest among the first `n` readings.
pub open spec fn hottest(s: Seq<Temp>, n: int) -> Option<int>
    decreases n,
{
    if n <= 0 {
        None
    } else {
        match hottest(s, n - 1) {
            Some(k) if s[k].celsius > s[n - 1].celsius => Some(k),
            _ => Some(n - 1),
        }
    }
}

/// The battery's own sensor, by its label.
pub open spec fn battery_index(s: Seq<Temp>) -> Option<int> {
    first_temp(s, |t: Temp| "battery"@.is_prefix_of(t.label), 0)
}

/// The sensor a fan curve follows: the CPU package, else anything CPU-ish, else the
/// hottest.
pub open spec fn control_index(s: Seq<Temp>) -> Option<int> {
    match first_temp(s, |t: Temp| t.label == "peci-temp"@, 0) {
        Some(i) => Some(i),
        None => match first_temp(s, |t: Temp| holds(t.label, "cpu"@), 0) {
            Some(i) => Some(i),
            None => hottest(s, s.len() as int),
        },
    }
}

proof fn lemma_first_temp(s: Seq<Temp>, p: spec_fn(Temp) -> bool, i: int, k: int)
    requires
        0 <= i <= k <= s.len(),
        forall|j: int| i <= j < k ==> !p(#[trigger] s[j]),
    ensures
        first_temp(s, p, i) == first_temp(s, p, k),
    decreases k - i,
{
    if i < k {
        assert(!p(s[i]));
        lemma_first_temp(s, p, i + 1, k);
    }
}

impl Telemetry {
    /// The battery's own temperature sensor, if this board exposes one. By label, never by
    /// index: sensor order is no more stable than hwmon numbering.
    pub fn battery_temp(&self) -> (r: Option<&TempReading>)
        ensures
            match battery_index(self@.temps) {
                Some(i) => 0 <= i < self.temps@.len() && r == Some(&self.temps@[i]),
                None => r is None,
            },
    {
        let ghost p = |t: Temp| "battery"@.is_prefix_of(t.label);
        let mut i: usize = 0;
        while i < self.temps.len()
            invariant
                i <= self.temps@.len(),
                p == (|t: Temp| "battery"@.is_prefix_of(t.label)),
                forall|j: int| 0 <= j < i ==> !p(#[trigger] self@.temps[j]),
            decreases self.temps@.len() - i,
        {
            if starts_with(self.temps[i].label.as_str(), "battery") {
                proof {
                    assert(p(self@.temps[i as int]));
                    lemma_first_temp(self@.temps, p, 0, i as int);
                }
                return Some(&self.temps[i]);
            }
            i = i + 1;
        }
        proof {
            lemma_first_temp(self@.temps, p, 0, i as int);
        }
        None
    }

    /// The sensor a fan curve should follow.
    pub fn control_temp(&self) -> (r: Option<&TempReading>)
        ensures
            match control_index(self@.temps) {
                Some(i) => 0 <= i < self.temps@.len() && r == Some(&self.temps@[i]),
                None => r is None,
            },
    {
        let ghost p = |t: Temp| t.label == "peci-temp"@;
        let mut i: usize = 0;
        while i < self.temps.len()
            invariant
                i <= self.temps@.len(),
                p == (|t: Temp| t.label == "peci-temp"@),
                forall|j: int| 0 <= j < i ==> !p(#[trigger] self@.temps[j]),
            decreases self.temps@.len() - i,
        {
            if same(self.temps[i].label.as_str(), "peci-temp") {
                proof {
                    assert(p(self@.temps[i as int]));
                    lemma_first_temp(self@.temps, p, 0, i as int);
                }
                return Some(&self.temps[i]);
            }
            i = i + 1;
        }
        proof {
            lemma_first_temp(self@.temps, p, 0, i as int);
        }
        let ghost q = |t: Temp| holds(t.label, "cpu"@);
        let mut i: usize = 0;
        while i < self.temps.len()
            invariant
                i <= self.temps@.len(),
                first_temp(self@.temps, p, 0) is None,
                p == (|t: Temp| t.label == "peci-temp"@),
                q == (|t: Temp| holds(t.label, "cpu"@)),
                forall|j: int| 0 <= j < i ==> !q(#[trigger] self@.temps[j]),
            decreases self.temps@.len() - i,
        {
            if contains(self.temps[i].label.as_str(), "cpu") {
                proof {
                    assert(q(self@.temps[i as int]));
                    lemma_first_temp(self@.temps, q, 0, i as int);
                }
                return Some(&self.temps[i]);
            }
            i = i + 1;
        }
        proof {
            lemma_first_temp(self@.temps, q, 0, i as int);
        }
        let mut best: Option<usize> = None;
        let mut i: usize = 0;
        while i < self.temps.len()
            invariant
                i <= self.temps@.len(),
                match best {
                    Some(k) => k < i && hottest(self@.temps, i as int) == Some(k as int),
                    None => hottest(self@.temps, i as int) is None,
                },
            decreases self.temps@.len() - i,
        {
            best = match best {
                Some(k) if self.temps[k].celsius > self.temps[i].celsius => Some(k),
                _ => Some(i),
            };
            i = i + 1;
        }
        match best {
            Some(k) => Some(&self.temps[k]),
            None => None,
        }
    }
}

/// What is read of one temperature sensor.
#[derive(Debug, Clone, PartialEq, Eq)]
pub struct SensorSurvey<T> {
    pub input: T,
    pub label: T,
    pub crit: T,
}

/// What is read of the EC's node.
#[derive(Debug, Clone, PartialEq, Eq)]
pub struct NodeSurvey<T> {
    pub fan_input: T,
    /// Sensors, the first being number 1.
    pub sensors: Vec<SensorSurvey<T>>,
}

/// Everything one sample reads: as paths, or as what they held.
#[derive(Debug, Clone, PartialEq, Eq)]
pub struct Survey<T> {
    pub platform_profile: T,
    pub capacity: T,
    pub status: T,
    pub power_now: T,
    pub energy_now: T,
    pub current_now: T,
    pub voltage_now: T,
    pub charge_now: T,
    pub node: Option<NodeSurvey<T>>,
    pub energy: Option<T>,
}

/// What one power supply's `type` and `online` files held.
#[derive(Debug, PartialEq, Eq)]
pub struct Supply {
    pub kind: Answer,
    pub online: Answer,
}

/// How many sensors a node can have.
pub const SENSORS: usize = 16;

/// The lowest and highest critical point that can be believed.
pub const PLAUSIBLE_MIN_C: i64 = 0;

pub const PLAUSIBLE_MAX_C: i64 = 150_000;

/// Power at or below this is no reading: a running package cannot draw nothing.
pub const NO_POWER_UW: i64 = 50_000;

/// A text file's contents without the white space around them.
pub open spec fn text_in(a: Answer) -> Option<Seq<char>> {
    match a {
        Ok(t) => Some(trimmed(t@)),
        Err(_) => None,
    }
}

/// A text file's contents as a number.
pub open spec fn number_in(a: Answer) -> Option<u64> {
    match unsigned_in(seq![], reply(a)) {
        Ok(n) => Some(n as u64),
        Err(_) => None,
    }
}

pub open spec fn signed_number_in(a: Answer) -> Option<i64> {
    match signed_in(seq![], reply(a)) {
        Ok(n) => Some(n as i64),
        Err(_) => None,
    }
}

/// Whether a supply says that it is mains and whether it is online.
pub open spec fn mains(s: Supply) -> Option<bool> {
    if text_in(s.kind) == Some("Mains"@) {
        match number_in(s.online) {
            Some(n) => Some(n == 1),
            None => None,
        }
    } else {
        None
    }
}

/// What the first mains supply that answers says, from supply `i` on.
pub open spec fn on_mains(s: Seq<Supply>, i: int) -> Option<bool>
    decreases s.len() - i,
{
    if i >= s.len() {
        None
    } else {
        match mains(s[i]) {
            Some(b) => Some(b),
            None => on_mains(s, i + 1),
        }
    }
}

pub open spec fn at_most(n: int, max: int) -> int {
    if n < max {
        n
    } else {
        max
    }
}

/// Minutes that `stored` lasts at `rate` per hour.
pub open spec fn minutes_left(stored: Option<u64>, rate: u64) -> Option<u64> {
    match stored {
        Some(s) if rate > 0 => Some(at_most(s * 60 / rate as int, u64::MAX as int) as u64),
        _ => None,
    }
}

/// Discharge rate and time left, in whichever unit family the board uses: energy (power and
/// energy) before charge (current, voltage and charge). Nothing unless discharging: the
/// current then describes what goes into the battery.
pub open spec fn battery_rate(
    status: Option<Seq<char>>,
    power: Option<u64>,
    energy: Option<u64>,
    current: Option<u64>,
    voltage: Option<u64>,
    charge: Option<u64>,
) -> (Option<i64>, Option<u64>) {
    if status != Some("Discharging"@) {
        (None, None)
    } else {
        match (power, current, voltage) {
            (Some(uw), _, _) => (
                Some(at_most(uw as int, i64::MAX as int) as i64),
                minutes_left(energy, uw),
            ),
            (None, Some(ua), Some(uv)) if ua > 0 => (
                Some(at_most(ua * uv / 1_000_000, i64::MAX as int) as i64),
                minutes_left(charge, ua),
            ),
            _ => (None, None),
        }
    }
}

pub open spec fn plausible(c: Option<i64>) -> Option<i64> {
    match c {
        Some(c) if PLAUSIBLE_MIN_C <= c <= PLAUSIBLE_MAX_C => Some(c),
        _ => None,
    }
}

/// The reading of sensor number `n`, if it has one.
pub open spec fn sensor_reading(s: SensorSurvey<Answer>, n: nat) -> Option<Temp> {
    match signed_number_in(s.input) {
        Some(milli) => Some(
            Temp {
                label: match text_in(s.label) {
                    Some(l) => l,
                    None => "temp"@ + decimal(n),
                },
                celsius: milli,
                critical: plausible(signed_number_in(s.crit)),
            },
        ),
        None => None,
    }
}

/// The readings of the first `n` sensors, those without one left out.
pub open spec fn sensor_readings(s: Seq<SensorSurvey<Answer>>, n: int) -> Seq<Temp>
    decreases n,
{
    if n <= 0 {
        seq![]
    } else {
        match sensor_reading(s[n - 1], n as nat) {
            Some(t) => sensor_readings(s, n - 1).push(t),
            None => sensor_readings(s, n - 1),
        }
    }
}

/// The idle floor and the low reading that waits for confirmation, after one more reading.
///
/// A reading below the floor moves it only once the next one confirms it, and then to the
/// higher of the two, so that one bad sample never sticks.
pub open spec fn floor_after(floor: Option<i64>, pending: Option<i64>, w: i64) -> (
    Option<i64>,
    Option<i64>,
) {
    if w <= NO_POWER_UW {
        (floor, pending)
    } else {
        match (floor, pending) {
            (None, _) => (Some(w), pending),
            (Some(f), Some(p)) if w < f => (
                Some(
                    if p > w {
                        p
                    } else {
                        w
                    },
                ),
                None,
            ),
            (Some(f), None) if w < f => (floor, Some(w)),
            _ => (floor, None),
        }
    }
}

/// Once set, the idle floor only falls. A low reading that waits stays below it.
pub proof fn the_floor_never_rises(floor: i64, pending: Option<i64>, w: i64)
    requires
        pending matches Some(p) ==> p < floor,
    ensures
        floor_after(Some(floor), pending, w).0 matches Some(f) && f <= floor && (floor_after(
            Some(floor),
            pending,
            w,
        ).1 matches Some(p) ==> p < f),
{
}

/// One low reading does not move the floor, and a normal one after it lets it be forgotten.
/// A second one moves it to the higher of the two.
pub proof fn it_takes_two_low_readings(floor: i64, low: i64, next: i64)
    requires
        NO_POWER_UW < low < floor,
        NO_POWER_UW < next,
    ensures
        floor_after(Some(floor), None, low) == (Some(floor), Some(low)),
        next >= floor ==> floor_after(Some(floor), Some(low), next) == (Some(floor), None::<i64>),
        next < floor ==> floor_after(Some(floor), Some(low), next) == (
            Some(
                if low > next {
                    low
                } else {
                    next
                },
            ),
            None::<i64>,
        ),
{
}

fn copy_answer(a: &Answer) -> (r: Answer)
    ensures
        reply(r) == reply(*a),
{
    match a {
        Ok(t) => Ok(t.clone()),
        Err(e) => Err(e.copy()),
    }
}

fn read_text(a: &Answer) -> (r: Option<String>)
    ensures
        text_of(r) == text_in(*a),
{
    match a {
        Ok(t) => Some(trim(t.as_str()).to_owned()),
        Err(_) => None,
    }
}

fn read_number(a: &Answer) -> (r: Option<u64>)
    ensures
        r == number_in(*a),
{
    proof {
        reveal_strlit("");
        assert(""@ =~= seq![]);
    }
    match Sysfs::default().read_u64("", copy_answer(a)) {
        Ok(n) => Some(n),
        Err(_) => None,
    }
}

fn read_signed(a: &Answer) -> (r: Option<i64>)
    ensures
        r == signed_number_in(*a),
{
    proof {
        reveal_strlit("");
        assert(""@ =~= seq![]);
    }
    match Sysfs::default().read_i64("", copy_answer(a)) {
        Ok(n) => Some(n),
        Err(_) => None,
    }
}

fn minutes(stored: Option<u64>, rate: u64) -> (r: Option<u64>)
    ensures
        r == minutes_left(stored, rate),
{
    match stored {
        Some(s) if rate > 0 => {
            let m: u128 = (s as u128) * 60 / (rate as u128);
            if m < u64::MAX as u128 {
                Some(m as u64)
            } else {
                Some(u64::MAX)
            }
        },
        _ => None,
    }
}

/// Turns what the files held into [`Telemetry`].
#[derive(Debug)]
pub struct Monitor {
    caps: Capabilities,
    energy: Option<EnergySampler>,
    watts_floor: Option<i64>,
    /// A reading below the floor waits here for a second one to confirm it.
    pending_low: Option<i64>,
}

impl Monitor {
    pub closed spec fn caps(&self) -> Capabilities {
        self.caps
    }

    pub closed spec fn sampler(&self) -> Option<EnergySampler> {
        self.energy
    }

    pub closed spec fn floor(&self) -> Option<i64> {
        self.watts_floor
    }

    pub closed spec fn pending(&self) -> Option<i64> {
        self.pending_low
    }

    pub open spec fn wf(&self) -> bool {
        self.pending() matches Some(p) ==> self.floor() matches Some(f) && p < f
    }

    /// Start on a machine with these capabilities. `range` is what the energy zone's
    /// `max_energy_range_uj` held; without it power cannot be derived.
    pub fn new(caps: Capabilities, range: Option<Answer>) -> (r: Self)
        ensures
            r.wf(),
            r.caps() == caps,
            r.floor() is None,
            r.pending() is None,
            match (caps.energy_zone, range) {
                (Some(_), Some(a)) => match number_in(a) {
                    Some(n) => r.sampler() matches Some(s) && s.range() == n && s.reference() is None
                        && s.max_gap() == crate::energy::DEFAULT_MAX_GAP_NS,
                    None => r.sampler() is None,
                },
                _ => r.sampler() is None,
            },
    {
        let energy = match (&caps.energy_zone, &range) {
            (Some(_), Some(a)) => match read_number(a) {
                Some(n) => Some(EnergySampler::new(n)),
                None => None,
            },
            _ => None,
        };
        Self { caps, energy, watts_floor: None, pending_low: None }
    }

    pub fn capabilities(&self) -> (r: &Capabilities)
        ensures
            *r == self.caps(),
    {
        &self.caps
    }

    /// The lowest package power seen so far.
    pub fn watts_floor(&self) -> (r: Option<i64>)
        ensures
            r == self.floor(),
    {
        self.watts_floor
    }

    /// Call on resume from suspend: the energy counter may have reset while time went on.
    pub fn on_resume(&mut self)
        requires
            old(self).wf(),
        ensures
            final(self).wf(),
            final(self).caps() == old(self).caps(),
            final(self).floor() == old(self).floor(),
            final(self).pending() == old(self).pending(),
            match old(self).sampler() {
                Some(s) => final(self).sampler() matches Some(n) && n.reference() is None
                    && n.range() == s.range() && n.max_gap() == s.max_gap(),
                None => final(self).sampler() is None,
            },
    {
        if let Some(e) = &mut self.energy {
            e.invalidate();
        }
    }

    /// Track the lowest package power seen, as the machine's idle floor.
    pub fn observe_floor(&mut self, microwatts: i64)
        requires
            old(self).wf(),
        ensures
            final(self).wf(),
            final(self).caps() == old(self).caps(),
            final(self).sampler() == old(self).sampler(),
            (final(self).floor(), final(self).pending()) == floor_after(
                old(self).floor(),
                old(self).pending(),
                microwatts,
            ),
    {
        let w: i64 = microwatts;
        if w <= NO_POWER_UW {
            return ;
        }
        match (self.watts_floor, self.pending_low) {
            (None, _) => {
                self.watts_floor = Some(w);
            },
            (Some(floor), Some(previous)) if w < floor => {
                self.watts_floor = Some(
                    if previous > w {
                        previous
                    } else {
                        w
                    },
                );
                self.pending_low = None;
            },
            (Some(floor), None) if w < floor => {
                self.pending_low = Some(w);
            },
            _ => {
                self.pending_low = None;
            },
        }
    }

    /// Whether a critical point can be believed.
    pub fn plausible_threshold(celsius: i64) -> (r: bool)
        ensures
            r == (PLAUSIBLE_MIN_C <= celsius <= PLAUSIBLE_MAX_C),
    {
        PLAUSIBLE_MIN_C <= celsius && celsius <= PLAUSIBLE_MAX_C
    }

    fn read_temps(sensors: &Vec<SensorSurvey<Answer>>) -> (r: Vec<TempReading>)
        ensures
            temps_of(r@) == sensor_readings(sensors@, sensors@.len() as int),
    {
        let mut out: Vec<TempReading> = Vec::new();
        let mut i: usize = 0;
        assert(temps_of(out@) =~= seq![]);
        while i < sensors.len()
            invariant
                i <= sensors@.len(),
                temps_of(out@) == sensor_readings(sensors@, i as int),
            decreases sensors@.len() - i,
        {
            let s = &sensors[i];
            if let Some(celsius) = read_signed(&s.input) {
                let label = match read_text(&s.label) {
                    Some(l) => l,
                    None => {
                        let mut l = "temp".to_owned();
                        l.append(decimal_text(i as u64 + 1).as_str());
                        l
                    },
                };
                let critical = match read_signed(&s.crit) {
                    Some(c) if Self::plausible_threshold(c) => Some(c),
                    _ => None,
                };
                let ghost had = out@;
                let t = TempReading { label, celsius, critical };
                out.push(t);
                assert(temps_of(out@) =~= temps_of(had).push(t@));
            }
            i = i + 1;
        }
        out
    }

    fn read_on_ac(supplies: &Vec<Supply>) -> (r: Option<bool>)
        ensures
            r == on_mains(supplies@, 0),
    {
        let mut i: usize = 0;
        while i < supplies.len()
            invariant
                i <= supplies@.len(),
                on_mains(supplies@, 0) == on_mains(supplies@, i as int),
            decreases supplies@.len() - i,
        {
            let s = &supplies[i];
            if let Some(kind) = read_text(&s.kind) {
                if same(kind.as_str(), "Mains") {
                    if let Some(online) = read_number(&s.online) {
                        return Some(online == 1);
                    }
                }
            }
            i = i + 1;
        }
        None
    }

    fn read_battery_rate(found: &Survey<Answer>) -> (r: (Option<i64>, Option<u64>))
        ensures
            r == battery_rate(
                text_in(found.status),
                number_in(found.power_now),
                number_in(found.energy_now),
                number_in(found.current_now),
                number_in(found.voltage_now),
                number_in(found.charge_now),
            ),
    {
        match read_text(&found.status) {
            Some(s) if same(s.as_str(), "Discharging") => {},
            _ => {
                return (None, None);
            },
        }
        if let Some(uw) = read_number(&found.power_now) {
            let watts: i64 = if uw < i64::MAX as u64 {
                uw as i64
            } else {
                i64::MAX
            };
            return (Some(watts), minutes(read_number(&found.energy_now), uw));
        }
        match (read_number(&found.current_now), read_number(&found.voltage_now)) {
            (Some(ua), Some(uv)) => {
                if ua == 0 {
                    return (None, None);
                }
                assert(0 <= ua * uv <= u64::MAX * u64::MAX) by (nonlinear_arith)
                    requires
                        0 <= ua <= u64::MAX,
                        0 <= uv <= u64::MAX,
                ;
                let uw: u128 = (ua as u128) * (uv as u128) / 1_000_000;
                let watts: i64 = if uw < i64::MAX as u128 {
                    uw as i64
                } else {
                    i64::MAX
                };
                (Some(watts), minutes(read_number(&found.charge_now), ua))
            },
            _ => (None, None),
        }
    }

    /// The files that one sample reads.
    pub fn questions(&self) -> (r: Survey<String>)
        ensures
            r.platform_profile@ == PLATFORM_PROFILE@,
            r.capacity@ == BATTERY@ + "/capacity"@,
            r.status@ == BATTERY@ + "/status"@,
            r.power_now@ == BATTERY@ + "/power_now"@,
            r.energy_now@ == BATTERY@ + "/energy_now"@,
            r.current_now@ == BATTERY@ + "/current_now"@,
            r.voltage_now@ == BATTERY@ + "/voltage_now"@,
            r.charge_now@ == BATTERY@ + "/charge_now"@,
            match self.caps().ec_hwmon {
                Some(h) => r.node matches Some(n) && n.fan_input@ == h@ + FAN_INPUT@
                    && n.sensors@.len() == SENSORS && forall|i: int|
                    0 <= i < SENSORS ==> (#[trigger] n.sensors@[i]).input@ == sensor_path(
                        h@,
                        i + 1,
                        "_input"@,
                    ) && n.sensors@[i].label@ == sensor_path(h@, i + 1, "_label"@)
                        && n.sensors@[i].crit@ == sensor_path(h@, i + 1, "_crit"@),
                None => r.node is None,
            },
            match self.caps().energy_zone {
                Some(z) => r.energy matches Some(e) && e@ == z@ + ENERGY@,
                None => r.energy is None,
            },
    {
        Survey {
            platform_profile: PLATFORM_PROFILE.to_owned(),
            capacity: join(BATTERY, "/capacity"),
            status: join(BATTERY, "/status"),
            power_now: join(BATTERY, "/power_now"),
            energy_now: join(BATTERY, "/energy_now"),
            current_now: join(BATTERY, "/current_now"),
            voltage_now: join(BATTERY, "/voltage_now"),
            charge_now: join(BATTERY, "/charge_now"),
            node: match &self.caps.ec_hwmon {
                Some(h) => Some(
                    NodeSurvey {
                        fan_input: join(h.as_str(), FAN_INPUT),
                        sensors: sensor_questions(h.as_str()),
                    },
                ),
                None => None,
            },
            energy: match &self.caps.energy_zone {
                Some(z) => Some(join(z.as_str(), ENERGY)),
                None => None,
            },
        }
    }

    /// One sample, from what the files held at `now_ns`.
    pub fn sample(&mut self, found: &Survey<Answer>, supplies: &Vec<Supply>, now_ns: u64) -> (r:
        Telemetry)
        requires
            old(self).wf(),
        ensures
            final(self).wf(),
            final(self).caps() == old(self).caps(),
            r@.temps == (match found.node {
                Some(n) => sensor_readings(n.sensors@, n.sensors@.len() as int),
                None => seq![],
            }),
            r@.fan_rpm == (match found.node {
                Some(n) => number_in(n.fan_input),
                None => None,
            }),
            r@.battery_percent == number_in(found.capacity),
            r@.battery_status == text_in(found.status),
            r@.platform_profile == text_in(found.platform_profile),
            r@.on_ac == on_mains(supplies@, 0),
            (r@.system_watts, r@.battery_minutes) == battery_rate(
                text_in(found.status),
                number_in(found.power_now),
                number_in(found.energy_now),
                number_in(found.current_now),
                number_in(found.voltage_now),
                number_in(found.charge_now),
            ),
            match (old(self).sampler(), energy_reading(found.energy)) {
                (Some(s), Some(uj)) => {
                    &&& r@.package_watts == quantized_power(
                        power_between(s.range(), s.max_gap(), s.reference(), uj, now_ns),
                    )
                    &&& final(self).sampler() matches Some(n) && n.reference() == Some(
                        (uj, now_ns),
                    ) && n.range() == s.range() && n.max_gap() == s.max_gap()
                },
                _ => r@.package_watts is None && final(self).sampler() == old(self).sampler(),
            },
            (final(self).floor(), final(self).pending()) == (match r@.package_watts {
                Some(w) => floor_after(old(self).floor(), old(self).pending(), w),
                None => (old(self).floor(), old(self).pending()),
            }),
            r@.package_watts_floor == final(self).floor(),
    {
        let (system_watts, battery_minutes) = Self::read_battery_rate(found);
        let (fan_rpm, temps) = match &found.node {
            Some(n) => (read_number(&n.fan_input), Self::read_temps(&n.sensors)),
            None => {
                let none: Vec<TempReading> = Vec::new();
                assert(temps_of(none@) =~= seq![]);
                (None, none)
            },
        };
        let mut package_watts: Option<i64> = None;
        if let Some(a) = &found.energy {
            if let Some(uj) = read_number(a) {
                if let Some(s) = &mut self.energy {
                    package_watts =
                    match s.sample(uj, now_ns) {
                        Some(w) => Some(EnergySampler::quantize(w)),
                        None => None,
                    };
                }
            }
        }
        if let Some(w) = package_watts {
            self.observe_floor(w);
        }
        Telemetry {
            temps,
            fan_rpm,
            package_watts,
            package_watts_floor: self.watts_floor,
            battery_percent: read_number(&found.capacity),
            battery_status: read_text(&found.status),
            platform_profile: read_text(&found.platform_profile),
            system_watts,
            battery_minutes,
            on_ac: Self::read_on_ac(supplies),
        }
    }
}

/// What the energy counter read, if it could be read.
pub open spec fn energy_reading(a: Option<Answer>) -> Option<u64> {
    match a {
        Some(a) => number_in(a),
        None => None,
    }
}

pub open spec fn quantized_power(w: Option<i64>) -> Option<i64> {
    match w {
        Some(w) => Some(quantized(w as int) as i64),
        None => None,
    }
}

/// The path of a file of sensor number `n`.
pub open spec fn sensor_path(hwmon: Seq<char>, n: int, file: Seq<char>) -> Seq<char> {
    hwmon + "/temp"@ + decimal(n as nat) + file
}

fn join(dir: &str, file: &str) -> (r: String)
    ensures
        r@ == dir@ + file@,
{
    let mut s = dir.to_owned();
    s.append(file);
    s
}

fn sensor_file(hwmon: &str, n: u64, file: &str) -> (r: String)
    ensures
        r@ == sensor_path(hwmon@, n as int, file@),
{
    let mut s = hwmon.to_owned();
    s.append("/temp");
    s.append(decimal_text(n).as_str());
    s.append(file);
    s
}

fn sensor_questions(h: &str) -> (r: Vec<SensorSurvey<String>>)
    ensures
        r@.len() == SENSORS,
        forall|i: int|
            0 <= i < SENSORS ==> (#[trigger] r@[i]).input@ == sensor_path(h@, i + 1, "_input"@)
                && r@[i].label@ == sensor_path(h@, i + 1, "_label"@) && r@[i].crit@
                == sensor_path(h@, i + 1, "_crit"@),
{
    let mut out: Vec<SensorSurvey<String>> = Vec::new();
    while out.len() < SENSORS
        invariant
            out@.len() <= SENSORS,
            forall|i: int|
                0 <= i < out@.len() ==> (#[trigger] out@[i]).input@ == sensor_path(
                    h@,
                    i + 1,
                    "_input"@,
                ) && out@[i].label@ == sensor_path(h@, i + 1, "_label"@) && out@[i].crit@
                    == sensor_path(h@, i + 1, "_crit"@),
        decreases SENSORS - out@.len(),
    {
        let n: u64 = out.len() as u64 + 1;
        out.push(
            SensorSurvey {
                input: sensor_file(h, n, "_input"),
                label: sensor_file(h, n, "_label"),
                crit: sensor_file(h, n, "_crit"),
            },
        );
    }
    out
}

/// Human-readable one-liner for a capability.
pub fn describe(cap: &Cap) -> (r: String)
    ensures
        r@ == cap_text(cap@),
{
    cap.text()
}

/// The battery's discharge rate and the time left. Nothing is told unless the battery is
/// discharging. Where power is measured it is the rate; otherwise the rate is current times
/// voltage, in microwatts rounded down. The time left is what is stored over the rate, in whole
/// minutes.
pub proof fn the_time_left_is_what_is_stored_over_the_rate(
    status: Option<Seq<char>>,
    power: Option<u64>,
    energy: Option<u64>,
    current: Option<u64>,
    voltage: Option<u64>,
    charge: Option<u64>,
)
    ensures
        ({
            let (watts, left) = battery_rate(status, power, energy, current, voltage, charge);
            &&& status != Some("Discharging"@) ==> watts is None && left is None
            &&& status == Some("Discharging"@) && power is Some ==> {
                &&& power->0 <= i64::MAX ==> watts == Some(power->0 as i64)
                &&& power->0 > i64::MAX ==> watts == Some(i64::MAX)
                &&& left is Some <==> energy is Some && power->0 > 0
                &&& left matches Some(m) ==> m * power->0 <= energy->0 * 60 && (m == u64::MAX
                    || energy->0 * 60 < (m + 1) * power->0)
            }
            &&& status == Some("Discharging"@) && power is None ==> {
                &&& watts is Some <==> current is Some && voltage is Some && current->0 > 0
                &&& watts matches Some(w) ==> w * 1_000_000 <= current->0 * voltage->0 && (w == i64::MAX
                    || current->0 * voltage->0 < (w + 1) * 1_000_000)
                &&& left is Some <==> watts is Some && charge is Some
                &&& left matches Some(m) ==> m * current->0 <= charge->0 * 60 && (m == u64::MAX
                    || charge->0 * 60 < (m + 1) * current->0)
            }
        }),
{
    if let Some(uw) = power {
        if let Some(e) = energy {
            if uw > 0 {
                lemma_quotient(e * 60, uw as int);
            }
        }
    }
    if let (Some(ua), Some(uv)) = (current, voltage) {
        assert(ua * uv >= 0) by (nonlinear_arith)
            requires
                ua >= 0,
                uv >= 0,
        ;
        if let Some(q) = charge {
            if ua > 0 {
                lemma_quotient(q * 60, ua as int);
            }
        }
    }
}

proof fn lemma_quotient(n: int, d: int)
    requires
        d > 0,
        n >= 0,
    ensures
        n / d >= 0,
        (n / d) * d <= n < (n / d + 1) * d,
        n / d >= u64::MAX ==> u64::MAX * d <= n,
{
    let q = n / d;
    if q >= u64::MAX {
        assert(u64::MAX * d <= q * d) by (nonlinear_arith)
            requires
                u64::MAX <= q,
                d > 0,
        ;
    }
    assert(q >= 0 && q * d <= n < (q + 1) * d) by (nonlinear_arith)
        requires
            q == n / d,
            d > 0,
            n >= 0,
    ;
}

/// The machine is on mains exactly where the first supply that says it is mains, and whether it
/// is online, says that it is. Where none says so, nobody knows.
pub proof fn the_first_mains_supply_decides(s: Seq<Supply>, i: int)
    requires
        0 <= i <= s.len(),
    ensures
        on_mains(s, i) matches Some(b) ==> exists|k: int|
            i <= k < s.len() && text_in((#[trigger] s[k]).kind) == Some("Mains"@) && (number_in(
                s[k].online,
            ) matches Some(n) && b == (n == 1)) && forall|j: int|
                i <= j < k ==> text_in((#[trigger] s[j]).kind) != Some("Mains"@) || number_in(
                    s[j].online,
                ) is None,
        on_mains(s, i) is None ==> forall|j: int|
            i <= j < s.len() ==> text_in((#[trigger] s[j]).kind) != Some("Mains"@) || number_in(
                s[j].online,
            ) is None,
    decreases s.len() - i,
{
    if i < s.len() {
        the_first_mains_supply_decides(s, i + 1);
        if mains(s[i]) is None && on_mains(s, i) is Some {
            let b = on_mains(s, i)->0;
            let k = choose|k: int|
                i + 1 <= k < s.len() && text_in((#[trigger] s[k]).kind) == Some("Mains"@) && (
                number_in(s[k].online) matches Some(n) && b == (n == 1)) && forall|j: int|
                    i + 1 <= j < k ==> text_in((#[trigger] s[j]).kind) != Some("Mains"@)
                        || number_in(s[j].online) is None;
            assert(text_in(s[k].kind) == Some("Mains"@));
        } else if mains(s[i]) is Some {
            assert(text_in(s[i].kind) == Some("Mains"@));
        }
    }
}

/// A first reading that is found has the property, and none before it has.
pub proof fn the_first_reading_is_first(s: Seq<Temp>, p: spec_fn(Temp) -> bool, i: int)
    requires
        0 <= i <= s.len(),
    ensures
        first_temp(s, p, i) matches Some(k) ==> i <= k < s.len() && p(s[k]) && forall|j: int|
            i <= j < k ==> !p(#[trigger] s[j]),
        first_temp(s, p, i) is None ==> forall|j: int| i <= j < s.len() ==> !p(#[trigger] s[j]),
    decreases s.len() - i,
{
    if i < s.len() && !p(s[i]) {
        the_first_reading_is_first(s, p, i + 1);
    }
}

/// The hottest reading is at least as hot as every other, and the last that is.
pub proof fn the_hottest_reading_is_hottest(s: Seq<Temp>, n: int)
    requires
        0 <= n <= s.len(),
    ensures
        hottest(s, n) is None <==> n == 0,
        hottest(s, n) matches Some(k) ==> 0 <= k < n && (forall|j: int|
            0 <= j < n ==> (#[trigger] s[j]).celsius <= s[k].celsius) && forall|j: int|
            k < j < n ==> (#[trigger] s[j]).celsius < s[k].celsius,
    decreases n,
{
    if n > 0 {
        the_hottest_reading_is_hottest(s, n - 1);
    }
}

/// A curve follows the sensor of the CPU package; without one the first whose label speaks of a
/// CPU; and without one of those the hottest there is, the last of several.
pub proof fn a_curve_follows_the_cpu(s: Seq<Temp>)
    ensures
        control_index(s) is None <==> s.len() == 0,
        control_index(s) matches Some(k) ==> {
            let package = |j: int| 0 <= j < s.len() && s[j].label == "peci-temp"@;
            let cpu = |j: int| 0 <= j < s.len() && holds(s[j].label, "cpu"@);
            &&& 0 <= k < s.len()
            &&& (exists|j: int| #[trigger] package(j)) ==> package(k) && forall|j: int|
                j < k ==> !#[trigger] package(j)
            &&& (forall|j: int| !#[trigger] package(j)) && (exists|j: int| #[trigger] cpu(j)) ==> cpu(
                k,
            ) && forall|j: int| j < k ==> !#[trigger] cpu(j)
            &&& (forall|j: int| !#[trigger] package(j)) && (forall|j: int| !#[trigger] cpu(j))
                ==> (forall|j: int| 0 <= j < s.len() ==> (#[trigger] s[j]).celsius <= s[k].celsius)
                && forall|j: int| k < j < s.len() ==> (#[trigger] s[j]).celsius < s[k].celsius
        },
{
    let package = |j: int| 0 <= j < s.len() && s[j].label == "peci-temp"@;
    let cpu = |j: int| 0 <= j < s.len() && holds(s[j].label, "cpu"@);
    let p = |t: Temp| t.label == "peci-temp"@;
    let q = |t: Temp| holds(t.label, "cpu"@);
    assert forall|j: int| 0 <= j < s.len() implies package(j) == p(#[trigger] s[j]) && cpu(j) == q(
        s[j],
    ) by {}
    the_first_reading_is_first(s, p, 0);
    the_first_reading_is_first(s, q, 0);
    the_hottest_reading_is_hottest(s, s.len() as int);
    if exists|j: int| #[trigger] package(j) {
        let j = choose|j: int| #[trigger] package(j);
        assert(p(s[j]));
    }
    if exists|j: int| #[trigger] cpu(j) {
        let j = choose|j: int| #[trigger] cpu(j);
        assert(q(s[j]));
    }
}

/// The battery's sensor is the first whose label starts with the word.
pub proof fn the_batterys_sensor_is_the_first_so_labelled(s: Seq<Temp>)
    ensures
        battery_index(s) matches Some(k) ==> 0 <= k < s.len() && "battery"@.is_prefix_of(s[k].label)
            && forall|j: int| 0 <= j < k ==> !"battery"@.is_prefix_of((#[trigger] s[j]).label),
        battery_index(s) is None ==> forall|j: int|
            0 <= j < s.len() ==> !"battery"@.is_prefix_of((#[trigger] s[j]).label),
{
    let p = |t: Temp| "battery"@.is_prefix_of(t.label);
    the_first_reading_is_first(s, p, 0);
    assert forall|j: int| 0 <= j < s.len() implies p(#[trigger] s[j]) == "battery"@.is_prefix_of(
        s[j].label,
    ) by {}
}

/// Every sensor that could be read gives one reading, behind those of the sensors before it: its
/// temperature, its label or its number, and its critical point where that lies between 0 and
/// 150 degrees.
pub proof fn every_sensor_gives_its_reading(s: Seq<SensorSurvey<Answer>>, n: int, i: int)
    requires
        0 <= i < n <= s.len(),
    ensures
        sensor_readings(s, 0).len() == 0,
        sensor_readings(s, i + 1).len() == sensor_readings(s, i).len() + (if signed_number_in(
            s[i].input,
        ) is Some {
            1int
        } else {
            0
        }),
        sensor_readings(s, n).len() >= sensor_readings(s, i + 1).len(),
        signed_number_in(s[i].input) matches Some(c) ==> {
            let t = sensor_readings(s, n)[sensor_readings(s, i).len() as int];
            &&& t.celsius == c
            &&& text_in(s[i].label) matches Some(l) ==> t.label == l
            &&& text_in(s[i].label) is None ==> t.label == "temp"@ + decimal((i + 1) as nat)
            &&& t.critical is Some <==> (signed_number_in(s[i].crit) matches Some(k) && 0 <= k
                <= 150_000)
            &&& t.critical is Some ==> t.critical == signed_number_in(s[i].crit)
        },
    decreases n,
{
    if i < n - 1 {
        every_sensor_gives_its_reading(s, n - 1, i);
    }
}

/// The first believable reading is the idle floor, and one of next to nothing is no reading.
pub proof fn the_first_reading_sets_the_floor(floor: Option<i64>, pending: Option<i64>, w: i64)
    ensures
        w <= 50_000 ==> floor_after(floor, pending, w) == (floor, pending),
        w > 50_000 && floor is None ==> floor_after(floor, pending, w) == (Some(w), pending),
        floor matches Some(f) ==> (w > 50_000 && w >= f ==> floor_after(floor, pending, w) == (
            floor,
            None::<i64>,
        )),
{
}

/// A file's number is the number in it, a file's text what is in it without the white space
/// around, and an unreadable file has neither.
pub proof fn a_file_says_what_is_in_it(a: Answer, n: nat)
    requires
        n <= i64::MAX,
    ensures
        a matches Ok(t) ==> text_in(a) == Some(trimmed(t@)),
        a matches Ok(t) ==> (t@ == decimal(n).push('\n') ==> number_in(a) == Some(n as u64)
            && signed_number_in(a) == Some(n as i64)),
        a matches Ok(t) ==> (t@ == seq!['-'] + decimal(n).push('\n') ==> signed_number_in(a) == Some(
            -n as i64,
        )),
        a is Err ==> text_in(a) is None && number_in(a) is None && signed_number_in(a) is None,
{
    a_number_in_a_file_reads_as_itself(seq![], n);
    a_signed_number_in_a_file_reads_as_itself(seq![], n);
}

/// The power that is published is the measured one to the published resolution: a whole number of
/// tenths of a watt, off by half of one at most.
pub proof fn published_power_is_in_tenths_of_a_watt(w: i64)
    requires
        -1_000_000_000_000 <= w <= 1_000_000_000_000,
    ensures
        quantized_power(Some(w)) matches Some(q) && q % 100_000 == 0 && -50_000 <= q - w <= 50_000,
        quantized_power(None) is None,
{
    crate::energy::quantized_is_nearest(w as int);
}

}
