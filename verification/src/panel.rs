//! What the window shows and which of its controls can be operated, decided from what the
//! daemon published.

use vstd::prelude::*;
use crate::caps::text_of;
use crate::client::{Sensor, Snapshot};
use crate::daemon::fan_mode_text;
use crate::fan::FanMode;
use crate::number::{
    decimal,
    decimal_reads_back,
    decimal_text,
    lemma_decimal,
    no_places,
    no_places_text,
    one_place,
    one_place_of_micro,
    one_place_of_micro_text,
    one_place_text,
};
use crate::text::{in_lower_case, lowered, same, texts, trim, trimmed};

verus! {

/// How long to keep showing a value that telemetry has not confirmed, in milliseconds.
pub const CONFIRM_TIMEOUT_MS: u64 = 5_000;

/// How long a control must sit still before its value is sent, in milliseconds.
pub const DEBOUNCE_MS: u64 = 400;

/// Something the user asked for. Each is one call to the daemon.
#[derive(Debug, Clone, PartialEq, Eq)]
pub enum Command {
    Profile(String),
    PowerLimit(u32),
    ChargeLimit(u8),
    FanAuto,
    FanCurve(Vec<(i64, u8)>),
    AutoProfiles(String, String),
    SaveProfile(String),
    DeleteProfile(String),
}

/// Which control a command came from.
pub open spec fn key_of(c: Command) -> Seq<char> {
    match c {
        Command::Profile(_) => "profile"@,
        Command::PowerLimit(_) => "power"@,
        Command::ChargeLimit(_) => "charge"@,
        Command::FanAuto => "fan"@,
        Command::FanCurve(_) => "fan"@,
        Command::AutoProfiles(_, _) => "auto"@,
        Command::SaveProfile(_) => "save"@,
        Command::DeleteProfile(_) => "delete"@,
    }
}

/// The value telemetry should report once a command has taken effect.
pub open spec fn expectation(c: Command) -> Seq<char> {
    match c {
        Command::Profile(name) => name@,
        Command::PowerLimit(w) => decimal(w as nat),
        Command::ChargeLimit(v) => decimal(v as nat),
        Command::FanAuto => "auto"@,
        Command::FanCurve(_) => "curve"@,
        Command::AutoProfiles(ac, batt) => ac@ + "/"@ + batt@,
        Command::SaveProfile(name) => name@,
        Command::DeleteProfile(name) => name@,
    }
}

/// What to show once a command succeeded.
pub open spec fn success(c: Command) -> Seq<char> {
    match c {
        Command::Profile(name) => "profile "@ + name@ + " applied"@,
        Command::PowerLimit(w) => "power limit set to "@ + decimal(w as nat) + " W"@,
        Command::ChargeLimit(v) => "charge limit set to "@ + decimal(v as nat) + "%"@,
        Command::FanAuto => "fan returned to EC control"@,
        Command::FanCurve(_) => "fan curve applied"@,
        Command::AutoProfiles(ac, batt) => if ac@.len() == 0 {
            "automatic switching off"@
        } else {
            "on AC: "@ + ac@ + ", on battery: "@ + batt@
        },
        Command::SaveProfile(name) => "profile "@ + name@ + " saved"@,
        Command::DeleteProfile(name) => "profile "@ + name@ + " deleted"@,
    }
}

impl Command {
    /// Which control this came from. That control is held until the new value is seen coming
    /// back.
    pub fn key(&self) -> (r: &'static str)
        ensures
            r@ == key_of(*self),
    {
        match self {
            Command::Profile(_) => "profile",
            Command::PowerLimit(_) => "power",
            Command::ChargeLimit(_) => "charge",
            Command::FanAuto => "fan",
            Command::FanCurve(_) => "fan",
            Command::AutoProfiles(_, _) => "auto",
            Command::SaveProfile(_) => "save",
            Command::DeleteProfile(_) => "delete",
        }
    }

    /// What to show once this succeeded.
    pub fn success_text(&self) -> (r: String)
        ensures
            r@ == success(*self),
    {
        match self {
            Command::Profile(name) => surrounded("profile ", name.as_str(), " applied"),
            Command::PowerLimit(w) => surrounded(
                "power limit set to ",
                decimal_text(*w as u64).as_str(),
                " W",
            ),
            Command::ChargeLimit(v) => surrounded(
                "charge limit set to ",
                decimal_text(*v as u64).as_str(),
                "%",
            ),
            Command::FanAuto => "fan returned to EC control".to_owned(),
            Command::FanCurve(_) => "fan curve applied".to_owned(),
            Command::AutoProfiles(ac, batt) => if ac.as_str().unicode_len() == 0 {
                "automatic switching off".to_owned()
            } else {
                let mut s = "on AC: ".to_owned();
                s.append(ac.as_str());
                s.append(", on battery: ");
                s.append(batt.as_str());
                s
            },
            Command::SaveProfile(name) => surrounded("profile ", name.as_str(), " saved"),
            Command::DeleteProfile(name) => surrounded("profile ", name.as_str(), " deleted"),
        }
    }
}

fn surrounded(a: &str, b: &str, c: &str) -> (r: String)
    ensures
        r@ == a@ + b@ + c@,
{
    let mut s = a.to_owned();
    s.append(b);
    s.append(c);
    s
}

/// The value telemetry should report once a command has taken effect.
pub fn expected(cmd: &Command) -> (r: String)
    ensures
        r@ == expectation(*cmd),
{
    match cmd {
        Command::Profile(name) => name.clone(),
        Command::PowerLimit(w) => decimal_text(*w as u64),
        Command::ChargeLimit(v) => decimal_text(*v as u64),
        Command::FanAuto => "auto".to_owned(),
        Command::FanCurve(_) => "curve".to_owned(),
        Command::AutoProfiles(ac, batt) => surrounded(ac.as_str(), "/", batt.as_str()),
        Command::SaveProfile(name) => name.clone(),
        Command::DeleteProfile(name) => name.clone(),
    }
}

/// How many characters come before the first colon that a space follows.
pub open spec fn before_colon(s: Seq<char>) -> nat
    decreases s.len(),
{
    if s.len() < 2 {
        s.len()
    } else if s[0] == ':' && s[1] == ' ' {
        0
    } else {
        1 + before_colon(s.skip(1))
    }
}

/// An error's own message: what comes behind the first colon and space, where anything does.
pub open spec fn own_message(s: Seq<char>) -> Seq<char> {
    let n = before_colon(s);
    if n + 2 < s.len() {
        s.skip(n as int + 2)
    } else {
        s
    }
}

/// Errors arrive wrapped; the daemon's own message is the useful part.
pub fn describe(text: &str) -> (r: String)
    ensures
        r@ == own_message(text@),
{
    let chars = crate::text::chars_of(text);
    let n: usize = chars.len();
    let mut i: usize = 0;
    assert(text@.skip(0) =~= text@);
    while i < n && n - i >= 2 && !(chars[i] == ':' && chars[i + 1] == ' ')
        invariant
            n == chars@.len(),
            chars@ == text@,
            i <= n,
            before_colon(text@) == i + before_colon(text@.skip(i as int)),
        decreases n - i,
    {
        assert(text@.skip(i as int).skip(1) =~= text@.skip(i + 1));
        i = i + 1;
    }
    if n >= 2 && i < n - 2 {
        assert(text@.subrange(i + 2, n as int) =~= text@.skip(i + 2));
        text.substring_char(i + 2, n).to_owned()
    } else {
        assert(own_message(text@) == text@);
        text.to_owned()
    }
}

/// Whether a control held for a value may follow telemetry again: the value was confirmed,
/// or has been waited for long enough.
pub fn settled(want: &str, now: &str, waited_ms: u64) -> (r: bool)
    ensures
        r == (want@ == now@ || waited_ms > CONFIRM_TIMEOUT_MS),
        want@ != now@ ==> (r <==> waited_ms > 5_000),
{
    same(want, now) || waited_ms > CONFIRM_TIMEOUT_MS
}

/// What telemetry reports for the control of a key.
pub open spec fn reported(s: Snapshot, key: Seq<char>) -> Seq<char> {
    if key == "profile"@ {
        match s.profile {
            Some(p) => p@,
            None => seq![],
        }
    } else if key == "power"@ {
        match s.power_limit {
            Some(w) => decimal(w as nat),
            None => seq![],
        }
    } else if key == "charge"@ {
        match s.charge_limit {
            Some(v) => decimal(v as nat),
            None => seq![],
        }
    } else {
        seq![]
    }
}

/// What telemetry reports for the control of a key.
pub fn observed(s: &Snapshot, key: &str) -> (r: String)
    ensures
        r@ == reported(*s, key@),
{
    let empty = String::new();
    assert(empty@ =~= seq![]);
    if same(key, "profile") {
        match &s.profile {
            Some(p) => p.clone(),
            None => empty,
        }
    } else if same(key, "power") {
        match s.power_limit {
            Some(w) => decimal_text(w as u64),
            None => empty,
        }
    } else if same(key, "charge") {
        match s.charge_limit {
            Some(v) => decimal_text(v as u64),
            None => empty,
        }
    } else {
        empty
    }
}

/// Clauses with a dot between them.
pub open spec fn dotted(s: Seq<Seq<char>>) -> Seq<char>
    decreases s.len(),
{
    if s.len() == 0 {
        seq![]
    } else if s.len() == 1 {
        s[0]
    } else {
        dotted(s.drop_last()) + " \u{b7} "@ + s.last()
    }
}

fn join_dotted(parts: &Vec<String>) -> (r: String)
    ensures
        r@ == dotted(texts(parts@)),
{
    let ghost all = texts(parts@);
    let mut out = String::new();
    let mut i: usize = 0;
    assert(all.take(0) =~= seq![]);
    assert(out@ =~= seq![]);
    while i < parts.len()
        invariant
            i <= parts@.len(),
            all == texts(parts@),
            out@ == dotted(all.take(i as int)),
        decreases parts@.len() - i,
    {
        let ghost next = all.take(i + 1);
        assert(next.drop_last() =~= all.take(i as int));
        if i > 0 {
            out.append(" \u{b7} ");
        }
        out.append(parts[i].as_str());
        proof {
            if i == 0 {
                assert(out@ =~= parts@[0]@);
                assert(next[0] == all[0]);
            }
        }
        i = i + 1;
    }
    assert(all.take(i as int) =~= all);
    out
}

/// How the fan's mode reads among what is applied, if it does.
pub open spec fn fan_clause(mode: Option<Seq<char>>) -> Seq<Seq<char>> {
    match mode {
        None => seq![],
        Some(m) => if m == "curve"@ {
            seq!["fan on a curve"@]
        } else if m == "manual"@ {
            seq!["fan set by hand"@]
        } else if m == "unavailable"@ {
            seq![]
        } else {
            seq!["fan left to the EC"@]
        },
    }
}

/// What the machine is actually set to, not just which profile is named.
pub open spec fn applied_line(
    power: Option<u32>,
    mode: Option<Seq<char>>,
    backend: Option<Seq<char>>,
) -> Seq<char> {
    let parts = (match power {
        Some(w) => seq![decimal(w as nat) + " W"@],
        None => seq![],
    }) + fan_clause(mode) + (if backend == Some("platform_profile"@) {
        seq!["GNOME slider not in sync"@]
    } else {
        seq![]
    });
    if parts.len() == 0 {
        "power limit and fan curve"@
    } else {
        dotted(parts)
    }
}

fn mode_is(mode: &Option<String>, what: &str) -> (r: bool)
    ensures
        r == (text_of(*mode) == Some(what@)),
{
    match mode {
        Some(m) => same(m.as_str(), what),
        None => false,
    }
}

/// The profile row's subtitle.
pub fn profile_subtitle(s: &Snapshot) -> (r: String)
    ensures
        r@ == applied_line(s.power_limit, text_of(s.fan_mode), text_of(s.profile_backend)),
{
    let mut parts: Vec<String> = Vec::new();
    if let Some(w) = s.power_limit {
        let mut t = decimal_text(w as u64);
        t.append(" W");
        parts.push(t);
    }
    let ghost first = texts(parts@);
    assert(first =~= (match s.power_limit {
        Some(w) => seq![decimal(w as nat) + " W"@],
        None => seq![],
    }));
    if mode_is(&s.fan_mode, "curve") {
        parts.push("fan on a curve".to_owned());
    } else if mode_is(&s.fan_mode, "manual") {
        parts.push("fan set by hand".to_owned());
    } else if s.fan_mode.is_some() && !mode_is(&s.fan_mode, "unavailable") {
        parts.push("fan left to the EC".to_owned());
    }
    let ghost second = texts(parts@);
    assert(second =~= first + fan_clause(text_of(s.fan_mode)));
    if mode_is(&s.profile_backend, "platform_profile") {
        parts.push("GNOME slider not in sync".to_owned());
    }
    assert(texts(parts@) =~= second + (if text_of(s.profile_backend) == Some(
        "platform_profile"@,
    ) {
        seq!["GNOME slider not in sync"@]
    } else {
        seq![]
    }));
    assert(texts(parts@).len() == parts@.len());
    if parts.len() == 0 {
        "power limit and fan curve".to_owned()
    } else {
        join_dotted(&parts)
    }
}

/// One line saying who is driving the fan and, when it is us, why it may not be doing what
/// was asked: at the firmware floor a quiet setting is not honoured.
pub open spec fn fan_line(mode: Option<Seq<char>>, duty: Option<u8>, floor: Option<u8>) -> Seq<
    char,
> {
    let d = match duty {
        Some(d) => d,
        None => 0,
    };
    match mode {
        None => "unavailable"@,
        Some(m) => if m == "curve"@ {
            "following a curve \u{b7} duty "@ + decimal(d as nat) + "/255"@
        } else if m == "manual"@ {
            match floor {
                Some(f) if f > 0 && d <= f + 3 => "manual \u{b7} duty "@ + decimal(d as nat)
                    + "/255, held at the firmware floor"@,
                _ => "manual \u{b7} duty "@ + decimal(d as nat) + "/255"@,
            }
        } else if m == "unavailable"@ {
            "unavailable"@
        } else {
            "EC automatic"@
        },
    }
}

/// One line saying who is driving the fan.
pub fn describe_fan(s: &Snapshot) -> (r: String)
    ensures
        r@ == fan_line(text_of(s.fan_mode), s.fan_duty, s.fan_floor),
{
    let duty: u8 = match s.fan_duty {
        Some(d) => d,
        None => 0,
    };
    let shown = decimal_text(duty as u64);
    if mode_is(&s.fan_mode, "curve") {
        surrounded("following a curve \u{b7} duty ", shown.as_str(), "/255")
    } else if mode_is(&s.fan_mode, "manual") {
        match s.fan_floor {
            Some(f) if f > 0 && duty as u32 <= f as u32 + 3 => surrounded(
                "manual \u{b7} duty ",
                shown.as_str(),
                "/255, held at the firmware floor",
            ),
            _ => surrounded("manual \u{b7} duty ", shown.as_str(), "/255"),
        }
    } else if s.fan_mode.is_none() || mode_is(&s.fan_mode, "unavailable") {
        "unavailable".to_owned()
    } else {
        "EC automatic".to_owned()
    }
}

/// Whether the fan is ours, and handing it back means anything.
pub fn fan_is_ours(s: &Snapshot) -> (r: bool)
    ensures
        r == (text_of(s.fan_mode) == Some("manual"@) || text_of(s.fan_mode) == Some("curve"@)),
{
    mode_is(&s.fan_mode, "manual") || mode_is(&s.fan_mode, "curve")
}

/// Where a name stands in a list, looking from entry `i` on.
pub open spec fn index_from(names: Seq<Seq<char>>, want: Seq<char>, i: int) -> Option<int>
    decreases names.len() - i,
{
    if i >= names.len() {
        None
    } else if names[i] == want {
        Some(i)
    } else {
        index_from(names, want, i + 1)
    }
}

/// Where a name stands in a list.
pub fn index_of(names: &Vec<String>, want: &str) -> (r: Option<usize>)
    ensures
        match r {
            Some(i) => i < names@.len() && index_from(texts(names@), want@, 0) == Some(i as int),
            None => index_from(texts(names@), want@, 0) is None,
        },
{
    let mut i: usize = 0;
    while i < names.len()
        invariant
            i <= names@.len(),
            index_from(texts(names@), want@, 0) == index_from(texts(names@), want@, i as int),
        decreases names@.len() - i,
    {
        if same(names[i].as_str(), want) {
            return Some(i);
        }
        i = i + 1;
    }
    None
}

/// The entry of an automatic-switching list for a name: "leave alone" comes first.
pub fn auto_index(names: &Vec<String>, want: &str) -> (r: usize)
    requires
        names@.len() < usize::MAX,
    ensures
        r == (match index_from(texts(names@), want@, 0) {
            Some(i) => i + 1,
            None => 0,
        }),
{
    match index_of(names, want) {
        Some(i) => i + 1,
        None => 0,
    }
}

/// The name behind an entry of an automatic-switching list, empty for "leave alone".
pub fn auto_choice(names: &Vec<String>, index: usize) -> (r: String)
    ensures
        r@ == (if 0 < index <= names@.len() {
            names@[index - 1]@
        } else {
            seq![]
        }),
{
    if index == 0 || index > names.len() {
        let s = String::new();
        assert(s@ =~= seq![]);
        s
    } else {
        names[index - 1].clone()
    }
}

/// Choosing the entry shown for a known name chooses that name.
pub proof fn auto_entries_round_trip(names: Seq<Seq<char>>, want: Seq<char>)
    ensures
        index_from(names, want, 0) matches Some(i) ==> 0 <= i < names.len() && names[i] == want,
{
    lemma_index_from(names, want, 0);
}

proof fn lemma_index_from(names: Seq<Seq<char>>, want: Seq<char>, i: int)
    requires
        0 <= i,
    ensures
        index_from(names, want, i) matches Some(k) ==> i <= k < names.len() && names[k] == want,
    decreases names.len() - i,
{
    if i < names.len() {
        lemma_index_from(names, want, i + 1);
    }
}

/// The name to save a profile under, from what was typed: `None` where that is nothing but
/// white space. Whether the name will do is the daemon's to say.
pub fn save_name(text: &str) -> (r: Option<String>)
    ensures
        r is None <==> trimmed(text@).len() == 0,
        r matches Some(name) ==> name@ == in_lower_case(trimmed(text@)),
{
    let typed = trim(text);
    if typed.unicode_len() == 0 {
        return None;
    }
    Some(lowered(typed))
}

/// Whether the selected profile has a file to delete.
pub fn deletable(names: &Vec<String>, selected: usize, saved: &Vec<String>) -> (r: bool)
    ensures
        r == (selected < names@.len() && index_from(
            texts(saved@),
            names@[selected as int]@,
            0,
        ) is Some),
{
    if selected >= names.len() {
        return false;
    }
    index_of(saved, names[selected].as_str()).is_some()
}

/// How a row stands: whether it can be operated, its bound, the value to show and the
/// subtitle, each `None` where it is left as it is.
#[derive(Debug, Clone, PartialEq, Eq)]
pub struct RowView {
    pub sensitive: bool,
    pub upper: Option<u32>,
    pub value: Option<u32>,
    pub subtitle: Option<String>,
}

/// Why a knob cannot be operated: the daemon's reason, where it gave one.
pub open spec fn reason(s: Snapshot, knob: Seq<char>) -> Seq<char> {
    match s.knob(knob) {
        Some((_, why)) if why.len() > 0 => why,
        _ => "unavailable on this machine"@,
    }
}

fn why_not(s: &Snapshot, knob: &str) -> (r: String)
    ensures
        r@ == reason(*s, knob@),
{
    match s.capability(knob) {
        Some((_, why)) => if why.unicode_len() > 0 {
            why.to_owned()
        } else {
            "unavailable on this machine".to_owned()
        },
        None => "unavailable on this machine".to_owned(),
    }
}

/// The charge limit's row. A value the user is still adjusting is not overwritten.
pub fn charge_row(s: &Snapshot, busy: bool) -> (r: RowView)
    ensures
        r.sensitive == (s.charge_limit is Some),
        r.upper is None,
        r.value == (match s.charge_limit {
            Some(v) if !busy => Some(v as u32),
            _ => None,
        }),
        r.subtitle matches Some(t) && if s.charge_limit is Some {
            t@ == "stop charging at this percentage"@
        } else {
            t@ == reason(*s, "charge limit"@)
        },
{
    match s.charge_limit {
        Some(v) => RowView {
            sensitive: true,
            upper: None,
            value: if busy {
                None
            } else {
                Some(v as u32)
            },
            subtitle: Some("stop charging at this percentage".to_owned()),
        },
        None => RowView {
            sensitive: false,
            upper: None,
            value: None,
            subtitle: Some(why_not(s, "charge limit")),
        },
    }
}

/// The power limit's row, bounded by what the zone admits to.
pub fn power_row(s: &Snapshot, busy: bool) -> (r: RowView)
    ensures
        match (s.power_limit, s.power_limit_max) {
            (Some(v), Some(max)) => r.sensitive && r.upper == Some(max) && r.value == (if busy {
                None
            } else {
                Some(v)
            }) && r.subtitle is None,
            _ => !r.sensitive && r.upper is None && r.value is None && (r.subtitle matches Some(t)
                && t@ == reason(*s, "power limit"@)),
        },
{
    match (s.power_limit, s.power_limit_max) {
        (Some(v), Some(max)) => RowView {
            sensitive: true,
            upper: Some(max),
            value: if busy {
                None
            } else {
                Some(v)
            },
            subtitle: None,
        },
        _ => RowView {
            sensitive: false,
            upper: None,
            value: None,
            subtitle: Some(why_not(s, "power limit")),
        },
    }
}

/// Whether a profile can be chosen: there is one, and the power limit can be set.
pub fn profile_row_live(s: &Snapshot) -> (r: bool)
    ensures
        r == (s.profiles@.len() > 0 && (s.knob("power limit"@) matches Some(k) && k.0)),
{
    if s.profiles.len() == 0 {
        return false;
    }
    match s.capability("power limit") {
        Some((ok, _)) => ok,
        None => false,
    }
}

/// A reading that is not there.
pub open spec fn dash() -> Seq<char> {
    "\u{2014}"@
}

/// A power, to one place.
pub fn power_label(microwatts: Option<i64>) -> (r: String)
    ensures
        r@ == (match microwatts {
            Some(w) => one_place_of_micro(w as int) + " W"@,
            None => dash(),
        }),
{
    match microwatts {
        Some(w) => {
            let mut s = one_place_of_micro_text(w);
            s.append(" W");
            s
        },
        None => "\u{2014}".to_owned(),
    }
}

/// The sensor to show as the CPU's: the one a curve follows, else the hottest.
pub open spec fn shown_sensor(s: Seq<Sensor>, control: Option<Seq<char>>, i: int) -> Option<int>
    decreases s.len() - i,
{
    if i >= s.len() {
        if s.len() > 0 {
            Some(0)
        } else {
            None
        }
    } else if control == Some(s[i].label@) {
        Some(i)
    } else {
        shown_sensor(s, control, i + 1)
    }
}

/// The CPU's temperature, to the whole degree.
pub fn temperature_label(s: &Snapshot) -> (r: String)
    ensures
        r@ == (match shown_sensor(s.temps@, text_of(s.control_sensor), 0) {
            Some(i) => no_places(s.temps@[i].celsius as int) + " \u{b0}C"@,
            None => dash(),
        }),
{
    let mut i: usize = 0;
    while i < s.temps.len()
        invariant
            i <= s.temps@.len(),
            shown_sensor(s.temps@, text_of(s.control_sensor), 0) == shown_sensor(
                s.temps@,
                text_of(s.control_sensor),
                i as int,
            ),
        decreases s.temps@.len() - i,
    {
        if mode_is(&s.control_sensor, s.temps[i].label.as_str()) {
            let mut t = no_places_text(s.temps[i].celsius);
            t.append(" \u{b0}C");
            return t;
        }
        i = i + 1;
    }
    if s.temps.len() > 0 {
        let mut t = no_places_text(s.temps[0].celsius);
        t.append(" \u{b0}C");
        t
    } else {
        "\u{2014}".to_owned()
    }
}

/// A number of minutes below an hour, in two digits.
pub open spec fn two_digits(n: nat) -> Seq<char> {
    if n < 10 {
        "0"@ + decimal(n)
    } else {
        decimal(n)
    }
}

/// The caption under the whole machine's draw, from whatever is known.
pub open spec fn caption_line(
    percent: Option<u64>,
    watts: Option<i64>,
    minutes: Option<u64>,
    on_ac: Option<bool>,
) -> Seq<char> {
    dotted(
        seq!["system"@] + (match percent {
            Some(p) => seq![decimal(p as nat) + "%"@],
            None => seq![],
        }) + (match (watts, minutes, on_ac) {
            (Some(_), Some(m), _) => seq![
                decimal((m / 60) as nat) + "h "@ + two_digits((m % 60) as nat) + "m left"@,
            ],
            (None, _, Some(true)) => seq!["on mains"@],
            _ => seq![],
        }),
    )
}

/// The caption under the whole machine's draw.
pub fn system_caption(s: &Snapshot) -> (r: String)
    ensures
        r@ == caption_line(s.battery_percent, s.system_watts, s.battery_minutes, s.on_ac),
{
    let mut parts: Vec<String> = Vec::new();
    parts.push("system".to_owned());
    assert(texts(parts@) =~= seq!["system"@]);
    if let Some(p) = s.battery_percent {
        let mut t = decimal_text(p);
        t.append("%");
        parts.push(t);
    }
    let ghost first = texts(parts@);
    assert(first =~= seq!["system"@] + (match s.battery_percent {
        Some(p) => seq![decimal(p as nat) + "%"@],
        None => seq![],
    }));
    match (s.system_watts, s.battery_minutes, s.on_ac) {
        (Some(_), Some(m), _) => {
            let mut t = decimal_text(m / 60);
            t.append("h ");
            if m % 60 < 10 {
                t.append("0");
            }
            t.append(decimal_text(m % 60).as_str());
            t.append("m left");
            assert(t@ =~= decimal((m / 60) as nat) + "h "@ + two_digits((m % 60) as nat)
                + "m left"@);
            parts.push(t);
            assert(texts(parts@) =~= first + seq![t@]);
        },
        (None, _, Some(true)) => {
            parts.push("on mains".to_owned());
            assert(texts(parts@) =~= first + seq!["on mains"@]);
        },
        _ => {
            assert(texts(parts@) =~= first + seq![]);
        },
    }
    join_dotted(&parts)
}

/// The fan's speed; a stopped fan is a state worth naming.
pub fn fan_label(rpm: Option<u64>) -> (r: String)
    ensures
        r@ == (match rpm {
            Some(n) => if n == 0 {
                "off"@
            } else {
                decimal(n as nat) + " rpm"@
            },
            None => dash(),
        }),
{
    match rpm {
        Some(n) => if n == 0 {
            "off".to_owned()
        } else {
            let mut s = decimal_text(n);
            s.append(" rpm");
            s
        },
        None => "\u{2014}".to_owned(),
    }
}

/// The battery row's subtitle.
pub fn battery_subtitle(s: &Snapshot) -> (r: String)
    ensures
        r@ == (match (s.battery_percent, text_of(s.battery_status)) {
            (Some(p), Some(st)) => decimal(p as nat) + "% \u{b7} "@ + st,
            (Some(p), None) => decimal(p as nat) + "%"@,
            _ => dash(),
        }),
{
    match (s.battery_percent, &s.battery_status) {
        (Some(p), Some(st)) => {
            let mut t = decimal_text(p);
            t.append("% \u{b7} ");
            t.append(st.as_str());
            t
        },
        (Some(p), None) => {
            let mut t = decimal_text(p);
            t.append("%");
            t
        },
        _ => "\u{2014}".to_owned(),
    }
}

/// A sensor row's subtitle.
pub fn sensor_subtitle(sensor: &Sensor, control: &Option<String>) -> (r: String)
    ensures
        r@ == one_place(sensor.celsius as int) + " \u{b0}C"@ + (match sensor.critical {
            Some(c) => " of "@ + no_places(c as int) + " \u{b0}C"@,
            None => seq![],
        }) + (if text_of(*control) == Some(sensor.label@) {
            "  \u{b7} fan curve input"@
        } else {
            seq![]
        }),
{
    let mut s = one_place_text(sensor.celsius);
    s.append(" \u{b0}C");
    let ghost plain = s@;
    if let Some(c) = sensor.critical {
        s.append(" of ");
        s.append(no_places_text(c).as_str());
        s.append(" \u{b0}C");
    }
    let ghost crit = match sensor.critical {
        Some(c) => " of "@ + no_places(c as int) + " \u{b0}C"@,
        None => seq![],
    };
    assert(s@ =~= plain + crit);
    if mode_is(control, sensor.label.as_str()) {
        s.append("  \u{b7} fan curve input");
    } else {
        assert(s@ =~= plain + crit + seq![]);
    }
    s
}

/// What the window waits for after handing the fan back, or after setting a curve, is what
/// the daemon then calls the fan's mode.
pub proof fn the_fans_mode_reads_as_awaited(points: Vec<(i64, u8)>, curve: bool)
    ensures
        expectation(Command::FanAuto) == fan_mode_text(Some(FanMode::Auto), curve),
        expectation(Command::FanCurve(points)) == fan_mode_text(Some(FanMode::Manual), true),
{
}

/// A control is confirmed by the value that its command set, and by no other.
pub proof fn a_command_is_confirmed_by_the_value_it_set(s: Snapshot, w: u32, v: u8, name: String)
    requires
        name@.len() > 0,
    ensures
        reported(s, key_of(Command::PowerLimit(w))) == expectation(Command::PowerLimit(w))
            <==> s.power_limit == Some(w),
        reported(s, key_of(Command::ChargeLimit(v))) == expectation(Command::ChargeLimit(v))
            <==> s.charge_limit == Some(v),
        reported(s, key_of(Command::Profile(name))) == expectation(Command::Profile(name)) <==> (
        s.profile matches Some(p) && p@ == name@),
{
    reveal_strlit("profile");
    reveal_strlit("power");
    reveal_strlit("charge");
    assert("profile"@.len() == 7 && "power"@.len() == 5 && "charge"@.len() == 6);
    lemma_decimal(w as nat);
    lemma_decimal(v as nat);
    if let Some(x) = s.power_limit {
        decimal_reads_back(x as nat, u32::MAX as nat);
        decimal_reads_back(w as nat, u32::MAX as nat);
    }
    if let Some(x) = s.charge_limit {
        decimal_reads_back(x as nat, u32::MAX as nat);
        decimal_reads_back(v as nat, u32::MAX as nat);
    }
}

/// Of a wrapped error what stands behind its first colon and space is shown, where anything
/// does. An error without them is shown as it is.
pub proof fn the_message_stands_behind_the_first_colon(a: Seq<char>, b: Seq<char>)
    requires
        forall|i: int| 0 <= i < a.len() - 1 ==> !(#[trigger] a[i] == ':' && a[i + 1] == ' '),
        a.len() > 0 ==> a.last() != ':',
    ensures
        b.len() > 0 ==> own_message(a + seq![':', ' '] + b) == b,
        own_message(a + seq![':', ' ']) == a + seq![':', ' '],
        own_message(a) == a,
{
    lemma_before_colon(a, seq![':', ' '] + b);
    assert(a + (seq![':', ' '] + b) =~= a + seq![':', ' '] + b);
    assert((a + seq![':', ' '] + b).skip(a.len() as int + 2) =~= b);
    lemma_before_colon(a, seq![':', ' ']);
    lemma_no_colon(a);
}

proof fn lemma_before_colon(a: Seq<char>, b: Seq<char>)
    requires
        forall|i: int| 0 <= i < a.len() - 1 ==> !(#[trigger] a[i] == ':' && a[i + 1] == ' '),
        a.len() > 0 ==> a.last() != ':',
        b.len() >= 2 && b[0] == ':' && b[1] == ' ',
    ensures
        before_colon(a + b) == a.len(),
    decreases a.len(),
{
    if a.len() > 0 {
        let t = a.skip(1);
        assert((a + b).skip(1) =~= t + b);
        assert forall|i: int| 0 <= i < t.len() - 1 implies !(#[trigger] t[i] == ':' && t[i + 1]
            == ' ') by {
            assert(!(a[i + 1] == ':' && a[i + 2] == ' '));
        }
        lemma_before_colon(t, b);
        if a.len() > 1 {
            assert(!(a[0] == ':' && a[1] == ' '));
        }
    } else {
        assert(a + b =~= b);
    }
}

proof fn lemma_no_colon(a: Seq<char>)
    requires
        forall|i: int| 0 <= i < a.len() - 1 ==> !(#[trigger] a[i] == ':' && a[i + 1] == ' '),
    ensures
        before_colon(a) == a.len(),
    decreases a.len(),
{
    if a.len() >= 2 {
        let t = a.skip(1);
        assert forall|i: int| 0 <= i < t.len() - 1 implies !(#[trigger] t[i] == ':' && t[i + 1]
            == ' ') by {
            assert(!(a[i + 1] == ':' && a[i + 2] == ' '));
        }
        assert(!(a[0] == ':' && a[1] == ' '));
        lemma_no_colon(t);
    }
}

/// A fan set by hand is said to be held at the firmware floor exactly where there is a floor and
/// the duty is no more than three counts above it.
pub proof fn a_fan_at_the_floor_is_said_to_be_held_there(d: u8, f: u8)
    ensures
        ({
            let plain = "manual \u{b7} duty "@ + decimal(d as nat) + "/255"@;
            let held = "manual \u{b7} duty "@ + decimal(d as nat) + "/255, held at the firmware floor"@;
            &&& 0 < f && d - f <= 3 ==> fan_line(Some("manual"@), Some(d), Some(f)) == held
            &&& f == 0 || d - f > 3 ==> fan_line(Some("manual"@), Some(d), Some(f)) == plain
            &&& fan_line(Some("manual"@), Some(d), None) == plain
        }),
{
    reveal_strlit("manual");
    reveal_strlit("curve");
    assert("manual"@.len() == 6 && "curve"@.len() == 5);
}

/// The time left is shown in hours and minutes, the minutes below sixty and in two digits.
pub proof fn the_time_left_is_hours_and_minutes(hours: u64, minutes: u64, watts: i64, ac: Option<bool>)
    requires
        minutes < 60,
        hours * 60 + minutes <= u64::MAX,
    ensures
        caption_line(None, Some(watts), Some((hours * 60 + minutes) as u64), ac) == "system"@
            + " \u{b7} "@ + (decimal(hours as nat) + "h "@ + (if minutes < 10 {
            "0"@ + decimal(minutes as nat)
        } else {
            decimal(minutes as nat)
        }) + "m left"@),
{
    let m = (hours * 60 + minutes) as u64;
    assert(m / 60 == hours && m % 60 == minutes);
    let last = decimal(hours as nat) + "h "@ + two_digits(minutes as nat) + "m left"@;
    let s = seq!["system"@, last];
    assert(seq!["system"@] + seq![] + seq![last] =~= s);
    assert(s.drop_last() =~= seq!["system"@]);
    assert(dotted(s) == dotted(s.drop_last()) + " \u{b7} "@ + last);
}

/// The sensor that is shown is the first that a curve follows, and the first of all where none is
/// followed.
pub proof fn the_followed_sensor_is_shown(s: Seq<Sensor>, control: Option<Seq<char>>, i: int)
    requires
        0 <= i <= s.len(),
    ensures
        shown_sensor(s, control, i) is None <==> s.len() == 0,
        shown_sensor(s, control, i) matches Some(k) ==> 0 <= k < s.len() && ({
            ||| i <= k && control == Some(s[k].label@) && forall|j: int|
                i <= j < k ==> control != Some((#[trigger] s[j]).label@)
            ||| k == 0 && forall|j: int|
                i <= j < s.len() ==> control != Some((#[trigger] s[j]).label@)
        }),
    decreases s.len() - i,
{
    if i < s.len() && control != Some(s[i].label@) {
        the_followed_sensor_is_shown(s, control, i + 1);
    }
}

/// A name stands where it first occurs in a list, and nowhere where it does not.
pub proof fn a_name_stands_where_it_first_occurs(names: Seq<Seq<char>>, want: Seq<char>, i: int)
    requires
        0 <= i <= names.len(),
    ensures
        index_from(names, want, i) matches Some(k) ==> i <= k < names.len() && names[k] == want
            && forall|j: int| i <= j < k ==> #[trigger] names[j] != want,
        index_from(names, want, i) is None ==> forall|j: int|
            i <= j < names.len() ==> #[trigger] names[j] != want,
    decreases names.len() - i,
{
    if i < names.len() && names[i] != want {
        a_name_stands_where_it_first_occurs(names, want, i + 1);
    }
}

}
