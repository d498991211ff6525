//! The client's side of the bus: one decoded reading of everything the daemon publishes.
//!
//! Decoding happens here so that consumers never touch raw values, and so that a change of
//! the interface lands in one place.

use vstd::prelude::*;
use crate::caps::text_of;
use crate::order::{
    an_order_ascends,
    hottest_first,
    is_heat_order,
    is_order,
    precedes,
    sorted_order,
};
use crate::telemetry::{control_index, Seen};
use crate::text::{same, views};
use crate::wire::{
    by_label,
    entry,
    lemma_keys,
    put,
    readings,
    telemetry_entry,
    unique_keys,
    WireValue,
    Wired,
};

verus! {

/// Highest interface version this client understands.
pub const SUPPORTED_VERSION: u32 = 1;

#[derive(Debug, Clone, PartialEq, Eq)]
pub struct Sensor {
    pub label: String,
    pub celsius: i64,
    pub critical: Option<i64>,
}

/// Everything the daemon published, as it came; `None` is a property that could not be read.
#[derive(Debug, PartialEq, Eq)]
pub struct Published {
    pub telemetry: Vec<(String, WireValue)>,
    pub critical_temperatures: Vec<(String, i64)>,
    pub capabilities: Vec<(String, (bool, String))>,
    pub charge_limit: Option<u8>,
    pub fan_mode: Option<String>,
    pub fan_duty: Option<u8>,
    pub fan_floor: Option<u8>,
    pub fan_curve: Vec<(i64, u8)>,
    pub fan_floor_curve: Vec<(i64, u8)>,
    pub power_limit: Option<u32>,
    pub power_limit_max: Option<u32>,
    pub active_profile: Option<String>,
    pub profile_backend: Option<String>,
    pub profiles: Vec<String>,
    pub saved_profiles: Vec<String>,
    pub auto_profiles: (String, String),
}

/// One decoded reading.
#[derive(Debug, Default, PartialEq, Eq)]
pub struct Snapshot {
    pub package_watts: Option<i64>,
    /// Lowest package power the daemon has seen: the machine's idle floor, which no process
    /// caused.
    pub package_watts_floor: Option<i64>,
    pub fan_rpm: Option<u64>,
    pub battery_percent: Option<u64>,
    pub battery_status: Option<String>,
    pub platform_profile: Option<String>,
    pub control_sensor: Option<String>,
    /// Hottest first: that is the one a reader scans for.
    pub temps: Vec<Sensor>,
    /// `None` when charge control is unsupported on this machine.
    pub charge_limit: Option<u8>,
    /// Who is driving the fan. A consumer that shows fan speed must show this too.
    pub fan_mode: Option<String>,
    /// Duty 0-255. Only meaningful when the fan is ours.
    pub fan_duty: Option<u8>,
    /// Lowest duty permitted at the current temperature.
    pub fan_floor: Option<u8>,
    /// The active curve, empty when the fan is pinned or firmware owns it.
    pub fan_curve: Vec<(i64, u8)>,
    /// The firmware floor across the range. Empty until observed.
    pub fan_floor_curve: Vec<(i64, u8)>,
    /// Sustained CPU power limit in watts, and the ceiling for it.
    pub power_limit: Option<u32>,
    pub power_limit_max: Option<u32>,
    /// Active profile name, and how the axis is driven.
    pub profile: Option<String>,
    pub profile_backend: Option<String>,
    /// Every profile the daemon knows.
    pub profiles: Vec<String>,
    /// Those backed by a file, and so deletable.
    pub saved_profiles: Vec<String>,
    /// Profiles applied on each power source, empty when off.
    pub auto_profiles: (String, String),
    /// True on mains, false on battery, `None` when unknown.
    pub on_ac: Option<bool>,
    /// Whole-machine draw, measurable only while on battery.
    pub system_watts: Option<i64>,
    /// Minutes until empty at the current rate.
    pub battery_minutes: Option<u64>,
    /// Knob, whether it is available, and why not; by name.
    pub capabilities: Vec<(String, bool, String)>,
}

/// A value as a power; a whole number counts as watts.
pub open spec fn power_in(v: Option<Wired>) -> Option<i64> {
    match v {
        Some(Wired::Microwatts(w)) => Some(w),
        Some(Wired::U64(n)) => Some(
            if n * 1_000_000 < i64::MAX {
                (n * 1_000_000) as i64
            } else {
                i64::MAX
            },
        ),
        _ => None,
    }
}

pub open spec fn count_in(v: Option<Wired>) -> Option<u64> {
    match v {
        Some(Wired::U64(n)) => Some(n),
        _ => None,
    }
}

pub open spec fn flag_in(v: Option<Wired>) -> Option<bool> {
    match v {
        Some(Wired::Bool(b)) => Some(b),
        _ => None,
    }
}

pub open spec fn text_in(v: Option<Wired>) -> Option<Seq<char>> {
    match v {
        Some(Wired::Str(s)) => Some(s),
        _ => None,
    }
}

/// The temperatures by label; no value of that kind is no temperatures.
pub open spec fn temps_in(v: Option<Wired>) -> Map<Seq<char>, i64> {
    match v {
        Some(Wired::Temps(m)) => m,
        _ => Map::empty(),
    }
}

/// A number, unless it is the zero that stands for "unsupported".
pub open spec fn unless_zero(n: Option<u32>) -> Option<u32> {
    match n {
        Some(n) if n > 0 => Some(n),
        _ => None,
    }
}

/// A text, unless it is empty.
pub open spec fn unless_blank(s: Option<Seq<char>>) -> Option<Seq<char>> {
    match s {
        Some(s) if s.len() > 0 => Some(s),
        _ => None,
    }
}

pub open spec fn names_of(s: Seq<(String, (bool, String))>) -> Seq<Seq<char>> {
    s.map_values(|e: (String, (bool, String))| e.0@)
}

/// Whether a list of capabilities is the published one, by name.
pub open spec fn caps_by_name(
    caps: Seq<(String, bool, String)>,
    from: Seq<(String, (bool, String))>,
) -> bool {
    exists|order: Seq<usize>| #[trigger]
        is_order(names_of(from), order) && caps.len() == order.len() && forall|i: int|
            0 <= i < caps.len() ==> (#[trigger] caps[i]).0@ == from[order[i] as int].0@
                && caps[i].1 == from[order[i] as int].1.0 && caps[i].2@ == from[order[i] as int].1.1@
}

/// Whether a list of sensors holds the temperatures `t`, each once and the hottest first,
/// with the critical points that `crit` has for them.
pub open spec fn hottest_sensors(
    s: Seq<Sensor>,
    t: Map<Seq<char>, i64>,
    crit: Map<Seq<char>, i64>,
) -> bool {
    &&& forall|i: int, j: int| 0 <= i < j < s.len() ==> s[i].celsius >= s[j].celsius
    &&& forall|i: int, j: int| 0 <= i < j < s.len() ==> s[i].label@ != s[j].label@
    &&& forall|i: int|
        0 <= i < s.len() ==> t.contains_key((#[trigger] s[i]).label@) && t[s[i].label@]
            == s[i].celsius && s[i].critical == (if crit.contains_key(s[i].label@) {
            Some(crit[s[i].label@])
        } else {
            None
        })
    &&& forall|k: Seq<char>| #[trigger]
        t.contains_key(k) ==> exists|i: int| 0 <= i < s.len() && (#[trigger] s[i]).label@ == k
}

/// The value behind a key.
fn look<'a>(d: &'a Vec<(String, WireValue)>, key: &str) -> (r: Option<&'a WireValue>)
    ensures
        match entry(d@, key@) {
            Some(v) => r matches Some(x) && x@ == v,
            None => r is None,
        },
{
    let mut n: usize = d.len();
    assert(d@.take(n as int) =~= d@);
    while n > 0
        invariant
            n <= d@.len(),
            entry(d@, key@) == entry(d@.take(n as int), key@),
        decreases n,
    {
        let ghost here = d@.take(n as int);
        assert(here.drop_last() =~= d@.take(n - 1));
        if same(d[n - 1].0.as_str(), key) {
            return Some(&d[n - 1].1);
        }
        n = n - 1;
    }
    None
}

fn as_power(v: Option<&WireValue>) -> (r: Option<i64>)
    ensures
        r == power_in(
            match v {
                Some(x) => Some(x@),
                None => None,
            },
        ),
{
    match v {
        Some(WireValue::Microwatts(w)) => Some(*w),
        Some(WireValue::U64(n)) => {
            let uw: u128 = (*n as u128) * 1_000_000;
            if uw < i64::MAX as u128 {
                Some(uw as i64)
            } else {
                Some(i64::MAX)
            }
        },
        _ => None,
    }
}

fn as_u64(v: Option<&WireValue>) -> (r: Option<u64>)
    ensures
        r == count_in(
            match v {
                Some(x) => Some(x@),
                None => None,
            },
        ),
{
    match v {
        Some(WireValue::U64(n)) => Some(*n),
        _ => None,
    }
}

fn as_bool(v: Option<&WireValue>) -> (r: Option<bool>)
    ensures
        r == flag_in(
            match v {
                Some(x) => Some(x@),
                None => None,
            },
        ),
{
    match v {
        Some(WireValue::Bool(b)) => Some(*b),
        _ => None,
    }
}

fn as_string(v: Option<&WireValue>) -> (r: Option<String>)
    ensures
        text_of(r) == text_in(
            match v {
                Some(x) => Some(x@),
                None => None,
            },
        ),
{
    match v {
        Some(WireValue::Str(s)) => Some(s.clone()),
        _ => None,
    }
}

proof fn lemma_readings_at(s: Seq<(String, i64)>, i: int)
    requires
        unique_keys(s),
        0 <= i < s.len(),
    ensures
        readings(s).contains_key(s[i].0@),
        readings(s)[s[i].0@] == s[i].1,
    decreases s.len(),
{
    if i < s.len() - 1 {
        lemma_readings_at(s.drop_last(), i);
        assert(s[i].0@ != s[s.len() - 1].0@);
    }
}

proof fn lemma_readings_found(s: Seq<(String, i64)>, k: Seq<char>) -> (i: int)
    requires
        readings(s).contains_key(k),
    ensures
        0 <= i < s.len(),
        s[i].0@ == k,
    decreases s.len(),
{
    if s.last().0@ == k {
        s.len() - 1
    } else {
        lemma_readings_found(s.drop_last(), k)
    }
}

/// The value behind a key of a temperature dictionary, the last one where it has several.
fn find_temp(d: &Vec<(String, i64)>, key: &str) -> (r: Option<i64>)
    ensures
        r == (if readings(d@).contains_key(key@) {
            Some(readings(d@)[key@])
        } else {
            None
        }),
{
    let mut n: usize = d.len();
    assert(d@.take(n as int) =~= d@);
    while n > 0
        invariant
            n <= d@.len(),
            readings(d@).contains_key(key@) == readings(d@.take(n as int)).contains_key(key@),
            readings(d@)[key@] == readings(d@.take(n as int))[key@],
        decreases n,
    {
        let ghost here = d@.take(n as int);
        assert(here.drop_last() =~= d@.take(n - 1));
        if same(d[n - 1].0.as_str(), key) {
            return Some(d[n - 1].1);
        }
        n = n - 1;
    }
    None
}

/// The sensors of a temperature dictionary, hottest first.
fn sensors(t: &Vec<(String, i64)>, crit: &Vec<(String, i64)>) -> (r: Vec<Sensor>)
    requires
        unique_keys(t@),
    ensures
        hottest_sensors(r@, readings(t@), readings(crit@)),
{
    let mut values: Vec<i128> = Vec::new();
    let mut k: usize = 0;
    while k < t.len()
        invariant
            k <= t@.len(),
            values@.len() == k,
            forall|i: int| 0 <= i < k ==> #[trigger] values@[i] == t@[i].1,
        decreases t@.len() - k,
    {
        values.push(t[k].1 as i128);
        k = k + 1;
    }
    let order = hottest_first(&values);
    let mut out: Vec<Sensor> = Vec::new();
    let mut n: usize = 0;
    while n < order.len()
        invariant
            n <= order@.len(),
            order@.len() == t@.len(),
            values@.len() == t@.len(),
            is_heat_order(values@, order@),
            out@.len() == n,
            forall|i: int|
                0 <= i < n ==> (#[trigger] out@[i]).label@ == t@[order@[i] as int].0@
                    && out@[i].celsius == t@[order@[i] as int].1 && out@[i].critical == (
                if readings(crit@).contains_key(out@[i].label@) {
                    Some(readings(crit@)[out@[i].label@])
                } else {
                    None
                }),
        decreases order@.len() - n,
    {
        let e = &t[order[n]];
        let critical = find_temp(crit, e.0.as_str());
        out.push(Sensor { label: e.0.clone(), celsius: e.1, critical });
        n = n + 1;
    }
    proof {
        let v = values@;
        let o = order@;
        assert forall|i: int, j: int| 0 <= i < j < out@.len() implies out@[i].celsius
            >= out@[j].celsius && out@[i].label@ != out@[j].label@ by {
            assert(crate::order::hotter(v, o[i] as int, o[j] as int));
            assert(v[o[i] as int] == t@[o[i] as int].1);
            assert(v[o[j] as int] == t@[o[j] as int].1);
            assert(o[i] != o[j]);
        }
        assert forall|i: int| 0 <= i < out@.len() implies readings(t@).contains_key(
            (#[trigger] out@[i]).label@,
        ) && readings(t@)[out@[i].label@] == out@[i].celsius by {
            lemma_readings_at(t@, o[i] as int);
        }
        assert forall|key: Seq<char>| #[trigger]
            readings(t@).contains_key(key) implies exists|i: int|
            0 <= i < out@.len() && (#[trigger] out@[i]).label@ == key by {
            let x = lemma_readings_found(t@, key);
            let i = lemma_listed(v, o, x);
            assert(out@[i].label@ == key);
        }
    }
    out
}

/// An order lists every index.
proof fn lemma_listed(v: Seq<i128>, o: Seq<usize>, x: int) -> (i: int)
    requires
        is_heat_order(v, o),
        0 <= x < v.len(),
    ensures
        0 <= i < o.len(),
        o[i] == x,
{
    let all = Set::new(|k: int| 0 <= k < v.len());
    let s = o.map_values(|k: usize| k as int);
    assert(s.no_duplicates()) by {
        assert forall|i: int, j: int| 0 <= i < s.len() && 0 <= j < s.len() && i != j implies s[i]
            != s[j] by {
            if i < j {
                assert(crate::order::hotter(v, o[i] as int, o[j] as int));
            } else {
                assert(crate::order::hotter(v, o[j] as int, o[i] as int));
            }
        }
    }
    s.unique_seq_to_set();
    vstd::set_lib::lemma_int_range(0, v.len() as int);
    assert(all =~= vstd::set_lib::set_int_range(0, v.len() as int));
    assert(s.to_set().subset_of(all)) by {
        assert forall|k: int| s.to_set().contains(k) implies all.contains(k) by {
            let i = choose|i: int| 0 <= i < s.len() && s[i] == k;
            assert(o[i] < v.len());
        }
    }
    vstd::set_lib::lemma_subset_equality(s.to_set(), all);
    assert(s.to_set().contains(x));
    choose|i: int| 0 <= i < s.len() && s[i] == x
}

/// The same dictionary with every key once.
fn distinct(t: &Vec<(String, i64)>) -> (r: Vec<(String, i64)>)
    ensures
        unique_keys(r@),
        readings(r@) == readings(t@),
{
    let mut out: Vec<(String, i64)> = Vec::new();
    let mut i: usize = 0;
    assert(t@.take(0) =~= seq![]);
    while i < t.len()
        invariant
            i <= t@.len(),
            unique_keys(out@),
            readings(out@) == readings(t@.take(i as int)),
        decreases t@.len() - i,
    {
        assert(t@.take(i + 1).drop_last() =~= t@.take(i as int));
        put(&mut out, t[i].0.as_str(), t[i].1);
        i = i + 1;
    }
    assert(t@.take(i as int) =~= t@);
    out
}

fn sort_caps(from: &Vec<(String, (bool, String))>) -> (r: Vec<(String, bool, String)>)
    ensures
        caps_by_name(r@, from@),
{
    let mut names: Vec<&str> = Vec::new();
    let mut k: usize = 0;
    while k < from.len()
        invariant
            k <= from@.len(),
            names@.len() == k,
            forall|i: int| 0 <= i < k ==> (#[trigger] names@[i])@ == from@[i].0@,
        decreases from@.len() - k,
    {
        names.push(from[k].0.as_str());
        k = k + 1;
    }
    assert(views(names@) =~= names_of(from@));
    let order = sorted_order(&names);
    let mut out: Vec<(String, bool, String)> = Vec::new();
    let mut n: usize = 0;
    while n < order.len()
        invariant
            n <= order@.len(),
            is_order(names_of(from@), order@),
            out@.len() == n,
            forall|i: int|
                0 <= i < n ==> (#[trigger] out@[i]).0@ == from@[order@[i] as int].0@ && out@[i].1
                    == from@[order@[i] as int].1.0 && out@[i].2@ == from@[order@[i] as int].1.1@,
        decreases order@.len() - n,
    {
        let e = &from[order[n]];
        out.push((e.0.clone(), e.1.0, e.1.1.clone()));
        n = n + 1;
    }
    out
}

impl Snapshot {
    /// Decode everything the daemon published. Where it stands for "unsupported" by zero or
    /// by an empty text, that does not leak to consumers.
    pub fn fetch(d: Published) -> (r: Self)
        ensures
            r.charge_limit == (match d.charge_limit {
                Some(v) if v > 0 => Some(v),
                _ => None,
            }),
            r.fan_mode == d.fan_mode,
            r.fan_duty == d.fan_duty,
            r.fan_floor == d.fan_floor,
            r.fan_curve == d.fan_curve,
            r.fan_floor_curve == d.fan_floor_curve,
            r.power_limit == unless_zero(d.power_limit),
            r.power_limit_max == unless_zero(d.power_limit_max),
            text_of(r.profile) == unless_blank(text_of(d.active_profile)),
            r.profile_backend == d.profile_backend,
            r.profiles == d.profiles,
            r.saved_profiles == d.saved_profiles,
            r.auto_profiles == d.auto_profiles,
            r.on_ac == flag_in(entry(d.telemetry@, "on_ac"@)),
            r.system_watts == power_in(entry(d.telemetry@, "system_watts"@)),
            r.battery_minutes == count_in(entry(d.telemetry@, "battery_minutes"@)),
            r.package_watts == power_in(entry(d.telemetry@, "package_watts"@)),
            r.package_watts_floor == power_in(entry(d.telemetry@, "package_watts_floor"@)),
            r.fan_rpm == count_in(entry(d.telemetry@, "fan_rpm"@)),
            r.battery_percent == count_in(entry(d.telemetry@, "battery_percent"@)),
            text_of(r.battery_status) == text_in(entry(d.telemetry@, "battery_status"@)),
            text_of(r.platform_profile) == text_in(entry(d.telemetry@, "platform_profile"@)),
            text_of(r.control_sensor) == text_in(entry(d.telemetry@, "control_sensor"@)),
            hottest_sensors(
                r.temps@,
                temps_in(entry(d.telemetry@, "temps"@)),
                readings(d.critical_temperatures@),
            ),
            caps_by_name(r.capabilities@, d.capabilities@),
    {
        let t = &d.telemetry;
        let temps = match look(t, "temps") {
            Some(WireValue::Temps(m)) => distinct(m),
            _ => Vec::new(),
        };
        let temps = sensors(&temps, &d.critical_temperatures);
        let capabilities = sort_caps(&d.capabilities);
        let on_ac = as_bool(look(t, "on_ac"));
        let system_watts = as_power(look(t, "system_watts"));
        let battery_minutes = as_u64(look(t, "battery_minutes"));
        let package_watts = as_power(look(t, "package_watts"));
        let package_watts_floor = as_power(look(t, "package_watts_floor"));
        let fan_rpm = as_u64(look(t, "fan_rpm"));
        let battery_percent = as_u64(look(t, "battery_percent"));
        let battery_status = as_string(look(t, "battery_status"));
        let platform_profile = as_string(look(t, "platform_profile"));
        let control_sensor = as_string(look(t, "control_sensor"));
        Snapshot {
            charge_limit: match d.charge_limit {
                Some(v) if v > 0 => Some(v),
                _ => None,
            },
            fan_mode: d.fan_mode,
            fan_duty: d.fan_duty,
            fan_floor: d.fan_floor,
            fan_curve: d.fan_curve,
            fan_floor_curve: d.fan_floor_curve,
            power_limit: match d.power_limit {
                Some(v) if v > 0 => Some(v),
                _ => None,
            },
            power_limit_max: match d.power_limit_max {
                Some(v) if v > 0 => Some(v),
                _ => None,
            },
            profile: match d.active_profile {
                Some(s) => if s.as_str().unicode_len() > 0 {
                    Some(s)
                } else {
                    None
                },
                None => None,
            },
            profile_backend: d.profile_backend,
            profiles: d.profiles,
            saved_profiles: d.saved_profiles,
            auto_profiles: d.auto_profiles,
            on_ac,
            system_watts,
            battery_minutes,
            package_watts,
            package_watts_floor,
            fan_rpm,
            battery_percent,
            battery_status,
            platform_profile,
            control_sensor,
            temps,
            capabilities,
        }
    }

    /// What is known of a knob: whether it is available, and why not.
    pub open spec fn knob(&self, name: Seq<char>) -> Option<(bool, Seq<char>)> {
        knob_from(self.capabilities@, name, 0)
    }

    /// Whether a knob is available, and why not.
    pub fn capability(&self, name: &str) -> (r: Option<(bool, &str)>)
        ensures
            match r {
                Some(c) => self.knob(name@) == Some((c.0, c.1@)),
                None => self.knob(name@) is None,
            },
    {
        let mut i: usize = 0;
        while i < self.capabilities.len()
            invariant
                i <= self.capabilities@.len(),
                self.knob(name@) == knob_from(self.capabilities@, name@, i as int),
            decreases self.capabilities@.len() - i,
        {
            if same(self.capabilities[i].0.as_str(), name) {
                return Some((self.capabilities[i].1, self.capabilities[i].2.as_str()));
            }
            i = i + 1;
        }
        None
    }
}

/// The first entry of a name, from entry `i` on.
pub open spec fn knob_from(caps: Seq<(String, bool, String)>, name: Seq<char>, i: int) -> Option<
    (bool, Seq<char>),
>
    decreases caps.len() - i,
{
    if i >= caps.len() {
        None
    } else if caps[i].0@ == name {
        Some((caps[i].1, caps[i].2@))
    } else {
        knob_from(caps, name, i + 1)
    }
}

/// What the daemon measured is what a client decodes, reading by reading.
pub proof fn telemetry_survives_the_bus(t: Seen)
    ensures
        power_in(telemetry_entry(t, "package_watts"@)) == t.package_watts,
        power_in(telemetry_entry(t, "package_watts_floor"@)) == t.package_watts_floor,
        power_in(telemetry_entry(t, "system_watts"@)) == t.system_watts,
        count_in(telemetry_entry(t, "battery_minutes"@)) == t.battery_minutes,
        flag_in(telemetry_entry(t, "on_ac"@)) == t.on_ac,
        count_in(telemetry_entry(t, "fan_rpm"@)) == t.fan_rpm,
        count_in(telemetry_entry(t, "battery_percent"@)) == t.battery_percent,
        text_in(telemetry_entry(t, "battery_status"@)) == t.battery_status,
        text_in(telemetry_entry(t, "platform_profile"@)) == t.platform_profile,
        text_in(telemetry_entry(t, "control_sensor"@)) == (match control_index(t.temps) {
            Some(i) => Some(t.temps[i].label),
            None => None,
        }),
        temps_in(telemetry_entry(t, "temps"@)) == by_label(t.temps),
{
    lemma_keys();
}

/// A whole number that stands for a power is in watts, as far as that many microwatts fit. A
/// power is taken as it is.
pub proof fn a_whole_number_counts_as_watts(n: u64, w: i64)
    ensures
        n * 1_000_000 <= i64::MAX ==> (power_in(Some(Wired::U64(n))) matches Some(p) && p == n
            * 1_000_000),
        n * 1_000_000 > i64::MAX ==> power_in(Some(Wired::U64(n))) == Some(i64::MAX),
        power_in(Some(Wired::Microwatts(w))) == Some(w),
        power_in(None) is None,
{
}

/// A zero, and an empty text, stand for a value that is not there.
pub proof fn zero_and_blank_stand_for_nothing(n: u32, s: Seq<char>)
    ensures
        n > 0 ==> unless_zero(Some(n)) == Some(n),
        unless_zero(Some(0)) is None && unless_zero(None) is None,
        s.len() > 0 ==> unless_blank(Some(s)) == Some(s),
        s.len() == 0 ==> unless_blank(Some(s)) is None,
        unless_blank(None) is None,
{
}

/// What is known of a knob is what its first entry says.
pub proof fn a_knob_is_its_first_entry(
    caps: Seq<(String, bool, String)>,
    name: Seq<char>,
    i: int,
    k: int,
)
    requires
        0 <= i <= k <= caps.len(),
        forall|j: int| i <= j < k ==> (#[trigger] caps[j]).0@ != name,
    ensures
        k < caps.len() && caps[k].0@ == name ==> knob_from(caps, name, i) == Some(
            (caps[k].1, caps[k].2@),
        ),
        k == caps.len() ==> knob_from(caps, name, i) is None,
    decreases k - i,
{
    if i < k {
        assert(caps[i].0@ != name);
        a_knob_is_its_first_entry(caps, name, i + 1, k);
    }
}

/// The sensors are listed by falling temperature, each with the temperature and the critical
/// point that were published for it, and none is missing.
pub proof fn sensors_are_listed_by_heat(
    s: Seq<Sensor>,
    t: Map<Seq<char>, i64>,
    crit: Map<Seq<char>, i64>,
    i: int,
    j: int,
)
    requires
        hottest_sensors(s, t, crit),
        0 <= i < s.len(),
    ensures
        i <= j < s.len() ==> s[i].celsius >= s[j].celsius,
        t.contains_key(s[i].label@) && t[s[i].label@] == s[i].celsius,
        crit.contains_key(s[i].label@) ==> s[i].critical == Some(crit[s[i].label@]),
        !crit.contains_key(s[i].label@) ==> s[i].critical is None,
        i < j < s.len() ==> s[i].label@ != s[j].label@,
        forall|k: Seq<char>| #[trigger]
            t.contains_key(k) ==> exists|n: int| 0 <= n < s.len() && (#[trigger] s[n]).label@ == k,
{
}

/// The capabilities are listed by name, each as it was published.
pub proof fn capabilities_are_listed_by_name(
    caps: Seq<(String, bool, String)>,
    from: Seq<(String, (bool, String))>,
    i: int,
    j: int,
)
    requires
        caps_by_name(caps, from),
        0 <= i < j < caps.len(),
    ensures
        caps.len() == from.len(),
        !precedes(caps[j].0@, caps[i].0@),
        exists|k: int|
            0 <= k < from.len() && (#[trigger] from[k]).0@ == caps[i].0@ && from[k].1.0 == caps[i].1
                && from[k].1.1@ == caps[i].2@,
{
    let order = choose|order: Seq<usize>| #[trigger]
        is_order(names_of(from), order) && caps.len() == order.len() && forall|i: int|
            0 <= i < caps.len() ==> (#[trigger] caps[i]).0@ == from[order[i] as int].0@
                && caps[i].1 == from[order[i] as int].1.0 && caps[i].2@ == from[order[i] as int].1.1@;
    an_order_ascends(names_of(from), order, i, j);
    assert(names_of(from)[order[i] as int] == caps[i].0@);
    assert(names_of(from)[order[j] as int] == caps[j].0@);
    let k = order[i] as int;
    assert(from[k].0@ == caps[i].0@);
}

}
