//! What goes over the bus: dictionaries of plain values.
//!
//! A missing key means "not available". Temperatures are in thousandths of a degree, power
//! in microwatts.

use vstd::prelude::*;
use crate::caps::{Cap, Capabilities};
use crate::telemetry::{control_index, temps_of, Seen, Temp, TempReading, Telemetry};
use crate::text::same;

verus! {

/// One value of a dictionary.
#[derive(Debug, Clone, PartialEq, Eq)]
pub enum WireValue {
    /// A power.
    Microwatts(i64),
    U64(u64),
    Bool(bool),
    Str(String),
    /// Temperatures by sensor, each sensor once.
    Temps(Vec<(String, i64)>),
}

/// What a [`WireValue`] says.
pub enum Wired {
    Microwatts(i64),
    U64(u64),
    Bool(bool),
    Str(Seq<char>),
    Temps(Map<Seq<char>, i64>),
}

impl View for WireValue {
    type V = Wired;

    open spec fn view(&self) -> Wired {
        match *self {
            WireValue::Microwatts(w) => Wired::Microwatts(w),
            WireValue::U64(n) => Wired::U64(n),
            WireValue::Bool(b) => Wired::Bool(b),
            WireValue::Str(s) => Wired::Str(s@),
            WireValue::Temps(t) => Wired::Temps(readings(t@)),
        }
    }
}

/// What a list of entries says as a dictionary: a later entry overrides an earlier one.
pub open spec fn readings(s: Seq<(String, i64)>) -> Map<Seq<char>, i64>
    decreases s.len(),
{
    if s.len() == 0 {
        Map::empty()
    } else {
        readings(s.drop_last()).insert(s.last().0@, s.last().1)
    }
}

/// Whether every key of a list occurs once.
pub open spec fn unique_keys(s: Seq<(String, i64)>) -> bool {
    forall|i: int, j: int| 0 <= i < j < s.len() ==> s[i].0@ != s[j].0@
}

/// The temperatures by label: where two sensors share one, the later counts.
pub open spec fn by_label(s: Seq<Temp>) -> Map<Seq<char>, i64>
    decreases s.len(),
{
    if s.len() == 0 {
        Map::empty()
    } else {
        by_label(s.drop_last()).insert(s.last().label, s.last().celsius)
    }
}

/// The critical points by label, of the sensors that have one.
pub open spec fn critical_by_label(s: Seq<Temp>) -> Map<Seq<char>, i64>
    decreases s.len(),
{
    if s.len() == 0 {
        Map::empty()
    } else {
        match s.last().critical {
            Some(c) => critical_by_label(s.drop_last()).insert(s.last().label, c),
            None => critical_by_label(s.drop_last()),
        }
    }
}

proof fn lemma_readings_update(s: Seq<(String, i64)>, i: int, e: (String, i64))
    requires
        unique_keys(s),
        0 <= i < s.len(),
        e.0@ == s[i].0@,
    ensures
        readings(s.update(i, e)) == readings(s).insert(e.0@, e.1),
    decreases s.len(),
{
    let t = s.update(i, e);
    if i < s.len() - 1 {
        lemma_readings_update(s.drop_last(), i, e);
        assert(t.drop_last() =~= s.drop_last().update(i, e));
        assert(s[i].0@ != s.last().0@);
        assert(readings(t) =~= readings(s).insert(e.0@, e.1));
    } else {
        assert(t.drop_last() =~= s.drop_last());
        assert(readings(t) =~= readings(s).insert(e.0@, e.1));
    }
}

/// Sets an entry.
pub(crate) fn put(dict: &mut Vec<(String, i64)>, key: &str, value: i64)
    requires
        unique_keys(old(dict)@),
    ensures
        unique_keys(final(dict)@),
        readings(final(dict)@) == readings(old(dict)@).insert(key@, value),
        final(dict)@.len() > 0,
{
    let ghost had = dict@;
    let mut i: usize = 0;
    while i < dict.len()
        invariant
            dict@ == had,
            had == old(dict)@,
            unique_keys(had),
            i <= dict@.len(),
            forall|j: int| 0 <= j < i ==> (#[trigger] dict@[j]).0@ != key@,
        decreases dict@.len() - i,
    {
        if same(dict[i].0.as_str(), key) {
            let entry = (key.to_owned(), value);
            proof {
                lemma_readings_update(had, i as int, entry);
            }
            dict.set(i, entry);
            assert forall|j: int, k: int| 0 <= j < k < dict@.len() implies dict@[j].0@
                != dict@[k].0@ by {
                assert(had[j].0@ != had[k].0@);
            }
            return ;
        }
        i = i + 1;
    }
    let entry = (key.to_owned(), value);
    dict.push(entry);
    assert(dict@.drop_last() =~= had);
}

/// `a{s(bs)}`: knob name to whether it is available and why not.
pub fn capabilities_dict(caps: &Capabilities) -> (r: Vec<(String, (bool, String))>)
    ensures
        r@.len() == 5,
        r@[0].0@ == "fan control"@ && says(r@[0].1, caps.fan_control@),
        r@[1].0@ == "power limit"@ && says(r@[1].1, caps.power_limit@),
        r@[2].0@ == "charge limit"@ && says(r@[2].1, caps.charge_limit@),
        r@[3].0@ == "platform profile"@ && says(r@[3].1, caps.platform_profile@),
        r@[4].0@ == "package power"@ && says(r@[4].1, caps.package_power@),
{
    let all = caps.summary();
    let mut out: Vec<(String, (bool, String))> = Vec::new();
    let mut i: usize = 0;
    while i < all.len()
        invariant
            i <= all@.len(),
            out@.len() == i,
            forall|j: int|
                0 <= j < i ==> (#[trigger] out@[j]).0@ == all@[j].0@ && says(out@[j].1, all@[j].1@),
        decreases all@.len() - i,
    {
        let entry = match all[i].1 {
            Cap::Yes => (true, String::new()),
            Cap::No(reason) => (false, reason.clone()),
        };
        out.push((all[i].0.to_owned(), entry));
        i = i + 1;
    }
    out
}

/// Whether an entry says the same as a capability. The reason is empty when available.
pub open spec fn says(entry: (bool, String), cap: Option<Seq<char>>) -> bool {
    match cap {
        None => entry.0 && entry.1@ == Seq::<char>::empty(),
        Some(reason) => !entry.0 && entry.1@ == reason,
    }
}

/// The value behind a key, where the dictionary has it.
pub open spec fn entry(d: Seq<(String, WireValue)>, key: Seq<char>) -> Option<Wired>
    decreases d.len(),
{
    if d.len() == 0 {
        None
    } else if d.last().0@ == key {
        Some(d.last().1@)
    } else {
        entry(d.drop_last(), key)
    }
}

/// What the telemetry dictionary holds behind a key.
pub open spec fn telemetry_entry(t: Seen, key: Seq<char>) -> Option<Wired> {
    if key == "package_watts"@ {
        power_entry(t.package_watts)
    } else if key == "package_watts_floor"@ {
        power_entry(t.package_watts_floor)
    } else if key == "system_watts"@ {
        power_entry(t.system_watts)
    } else if key == "battery_minutes"@ {
        count_entry(t.battery_minutes)
    } else if key == "on_ac"@ {
        match t.on_ac {
            Some(b) => Some(Wired::Bool(b)),
            None => None,
        }
    } else if key == "fan_rpm"@ {
        count_entry(t.fan_rpm)
    } else if key == "battery_percent"@ {
        count_entry(t.battery_percent)
    } else if key == "battery_status"@ {
        text_entry(t.battery_status)
    } else if key == "platform_profile"@ {
        text_entry(t.platform_profile)
    } else if key == "control_sensor"@ {
        match control_index(t.temps) {
            Some(i) => Some(Wired::Str(t.temps[i].label)),
            None => None,
        }
    } else if key == "temps"@ && t.temps.len() > 0 {
        Some(Wired::Temps(by_label(t.temps)))
    } else {
        None
    }
}

pub open spec fn power_entry(w: Option<i64>) -> Option<Wired> {
    match w {
        Some(w) => Some(Wired::Microwatts(w)),
        None => None,
    }
}

pub open spec fn count_entry(n: Option<u64>) -> Option<Wired> {
    match n {
        Some(n) => Some(Wired::U64(n)),
        None => None,
    }
}

pub open spec fn text_entry(s: Option<Seq<char>>) -> Option<Wired> {
    match s {
        Some(s) => Some(Wired::Str(s)),
        None => None,
    }
}

/// Adds an entry.
fn put_value(d: &mut Vec<(String, WireValue)>, key: &str, value: WireValue)
    ensures
        forall|k: Seq<char>| #[trigger]
            entry(final(d)@, k) == (if k == key@ {
                Some(value@)
            } else {
                entry(old(d)@, k)
            }),
{
    let ghost had = d@;
    d.push((key.to_owned(), value));
    assert(d@.drop_last() =~= had);
}

/// The keys of the telemetry dictionary differ.
pub proof fn lemma_keys()
    ensures
        "package_watts"@.len() == 13,
        "package_watts_floor"@.len() == 19,
        "system_watts"@.len() == 12,
        "battery_minutes"@.len() == 15,
        "on_ac"@.len() == 5,
        "fan_rpm"@.len() == 7,
        "battery_percent"@.len() == 15,
        "battery_status"@.len() == 14,
        "platform_profile"@.len() == 16,
        "control_sensor"@.len() == 14,
        "temps"@.len() == 5,
        "battery_minutes"@[8] == 'm',
        "battery_percent"@[8] == 'p',
        "battery_status"@[0] == 'b',
        "control_sensor"@[0] == 'c',
        "on_ac"@[0] == 'o',
        "temps"@[0] == 't',
{
    reveal_strlit("package_watts");
    reveal_strlit("package_watts_floor");
    reveal_strlit("system_watts");
    reveal_strlit("battery_minutes");
    reveal_strlit("on_ac");
    reveal_strlit("fan_rpm");
    reveal_strlit("battery_percent");
    reveal_strlit("battery_status");
    reveal_strlit("platform_profile");
    reveal_strlit("control_sensor");
    reveal_strlit("temps");
}

/// `a{sv}`: the readings there are, by name.
pub fn telemetry_dict(t: &Telemetry) -> (r: Vec<(String, WireValue)>)
    ensures
        forall|k: Seq<char>| #[trigger] entry(r@, k) == telemetry_entry(t@, k),
{
    proof {
        lemma_keys();
    }
    let mut d: Vec<(String, WireValue)> = Vec::new();
    if let Some(w) = t.package_watts {
        put_value(&mut d, "package_watts", WireValue::Microwatts(w));
    }
    if let Some(w) = t.package_watts_floor {
        put_value(&mut d, "package_watts_floor", WireValue::Microwatts(w));
    }
    if let Some(w) = t.system_watts {
        put_value(&mut d, "system_watts", WireValue::Microwatts(w));
    }
    if let Some(m) = t.battery_minutes {
        put_value(&mut d, "battery_minutes", WireValue::U64(m));
    }
    if let Some(ac) = t.on_ac {
        put_value(&mut d, "on_ac", WireValue::Bool(ac));
    }
    if let Some(n) = t.fan_rpm {
        put_value(&mut d, "fan_rpm", WireValue::U64(n));
    }
    if let Some(p) = t.battery_percent {
        put_value(&mut d, "battery_percent", WireValue::U64(p));
    }
    if let Some(s) = &t.battery_status {
        put_value(&mut d, "battery_status", WireValue::Str(s.clone()));
    }
    if let Some(p) = &t.platform_profile {
        put_value(&mut d, "platform_profile", WireValue::Str(p.clone()));
    }
    if let Some(c) = t.control_temp() {
        put_value(&mut d, "control_sensor", WireValue::Str(c.label.clone()));
    }
    if t.temps.len() > 0 {
        put_value(&mut d, "temps", WireValue::Temps(temps_dict(&t.temps)));
    }
    d
}

fn temps_dict(temps: &Vec<TempReading>) -> (r: Vec<(String, i64)>)
    ensures
        unique_keys(r@),
        readings(r@) == by_label(temps_of(temps@)),
{
    let ghost all = temps_of(temps@);
    let mut out: Vec<(String, i64)> = Vec::new();
    let mut i: usize = 0;
    assert(all.take(0) =~= seq![]);
    while i < temps.len()
        invariant
            i <= temps@.len(),
            all == temps_of(temps@),
            unique_keys(out@),
            readings(out@) == by_label(all.take(i as int)),
        decreases temps@.len() - i,
    {
        assert(all.take(i + 1).drop_last() =~= all.take(i as int));
        put(&mut out, temps[i].label.as_str(), temps[i].celsius);
        i = i + 1;
    }
    assert(all.take(i as int) =~= all);
    out
}

/// `a{sd}`: sensor label to critical point, of the sensors that have a plausible one.
pub fn critical_temps(t: &Telemetry) -> (r: Vec<(String, i64)>)
    ensures
        unique_keys(r@),
        readings(r@) == critical_by_label(t@.temps),
{
    let ghost all = t@.temps;
    let mut out: Vec<(String, i64)> = Vec::new();
    let mut i: usize = 0;
    assert(all.take(0) =~= seq![]);
    while i < t.temps.len()
        invariant
            i <= t.temps@.len(),
            all == t@.temps,
            unique_keys(out@),
            readings(out@) == critical_by_label(all.take(i as int)),
        decreases t.temps@.len() - i,
    {
        assert(all.take(i + 1).drop_last() =~= all.take(i as int));
        if let Some(c) = t.temps[i].critical {
            put(&mut out, t.temps[i].label.as_str(), c);
        }
        i = i + 1;
    }
    assert(all.take(i as int) =~= all);
    out
}

/// Behind a label stands the temperature of the last sensor that has it, and behind no other
/// label stands any.
pub proof fn the_last_sensor_of_a_label_counts(s: Seq<Temp>, k: int)
    requires
        0 <= k < s.len(),
        forall|j: int| k < j < s.len() ==> (#[trigger] s[j]).label != s[k].label,
    ensures
        by_label(s).contains_key(s[k].label) && by_label(s)[s[k].label] == s[k].celsius,
        s[k].critical matches Some(c) ==> critical_by_label(s).contains_key(s[k].label)
            && critical_by_label(s)[s[k].label] == c,
    decreases s.len(),
{
    if k < s.len() - 1 {
        assert(s[s.len() - 1].label != s[k].label);
        let t = s.drop_last();
        assert forall|j: int| k < j < t.len() implies (#[trigger] t[j]).label != t[k].label by {
            assert(t[j] == s[j]);
        }
        the_last_sensor_of_a_label_counts(t, k);
    }
}

/// Every label that is published is that of a sensor, with its temperature; and every critical
/// point is that of a sensor that has one.
pub proof fn every_label_is_that_of_a_sensor(s: Seq<Temp>, label: Seq<char>)
    ensures
        by_label(s).contains_key(label) ==> exists|k: int|
            0 <= k < s.len() && (#[trigger] s[k]).label == label && by_label(s)[label]
                == s[k].celsius,
        critical_by_label(s).contains_key(label) ==> exists|k: int|
            0 <= k < s.len() && (#[trigger] s[k]).label == label && s[k].critical == Some(
                critical_by_label(s)[label],
            ),
    decreases s.len(),
{
    if s.len() > 0 {
        let t = s.drop_last();
        every_label_is_that_of_a_sensor(t, label);
        let n = s.len() - 1;
        if by_label(s).contains_key(label) {
            if s[n].label == label {
                assert(by_label(s)[label] == s[n].celsius);
            } else {
                let k = choose|k: int|
                    0 <= k < t.len() && (#[trigger] t[k]).label == label && by_label(t)[label]
                        == t[k].celsius;
                assert(s[k] == t[k]);
            }
        }
        if critical_by_label(s).contains_key(label) {
            if s[n].label == label && s[n].critical is Some {
                assert(s[n].critical == Some(critical_by_label(s)[label]));
            } else {
                let k = choose|k: int|
                    0 <= k < t.len() && (#[trigger] t[k]).label == label && t[k].critical == Some(
                        critical_by_label(t)[label],
                    );
                assert(s[k] == t[k]);
            }
        }
    }
}

/// In a dictionary the last entry of a key counts, and a key without an entry has no value.
pub proof fn the_last_entry_of_a_key_counts(d: Seq<(String, WireValue)>, key: Seq<char>, k: int)
    requires
        -1 <= k < d.len(),
        forall|j: int| k < j < d.len() ==> (#[trigger] d[j]).0@ != key,
    ensures
        0 <= k && d[k].0@ == key ==> entry(d, key) == Some(d[k].1@),
        k == -1 ==> entry(d, key) is None,
    decreases d.len(),
{
    if k < d.len() - 1 {
        assert(d[d.len() - 1].0@ != key);
        let t = d.drop_last();
        assert forall|j: int| k < j < t.len() implies (#[trigger] t[j]).0@ != key by {
            assert(t[j] == d[j]);
        }
        the_last_entry_of_a_key_counts(t, key, k);
    }
}

/// A list of entries says of a label what its last entry of it says, and nothing of a label that
/// it does not have.
pub proof fn the_last_entry_of_a_label_counts(s: Seq<(String, i64)>, label: Seq<char>, k: int)
    requires
        -1 <= k < s.len(),
        forall|j: int| k < j < s.len() ==> (#[trigger] s[j]).0@ != label,
    ensures
        0 <= k && s[k].0@ == label ==> readings(s).contains_key(label) && readings(s)[label]
            == s[k].1,
        k == -1 ==> !readings(s).contains_key(label),
    decreases s.len(),
{
    if k < s.len() - 1 {
        assert(s[s.len() - 1].0@ != label);
        let t = s.drop_last();
        assert forall|j: int| k < j < t.len() implies (#[trigger] t[j]).0@ != label by {
            assert(t[j] == s[j]);
        }
        the_last_entry_of_a_label_counts(t, label, k);
    }
}

/// A capability is published as available, without a reason, or as not, with its own.
pub proof fn a_capability_is_published_with_its_reason(entry: (bool, String), cap: Option<Seq<char>>)
    requires
        says(entry, cap),
    ensures
        entry.0 <==> cap is None,
        cap matches Some(reason) ==> entry.1@ == reason,
        cap is None ==> entry.1@.len() == 0,
{
}

}
