//! What the command line prints: capabilities, one sample, and a line per second.

use vstd::prelude::*;
use crate::caps::{cap_text, text_of, Cap, Capabilities};
use crate::client::{Sensor, Snapshot, SUPPORTED_VERSION};
use crate::number::{
    decimal,
    decimal_text,
    one_place,
    one_place_of_micro,
    one_place_of_micro_text,
    one_place_text,
};
use crate::telemetry::{control_index, Telemetry};
use crate::text::{same, texts};

verus! {

pub open spec fn spaces(n: int) -> Seq<char> {
    Seq::new(
        if n > 0 {
            n as nat
        } else {
            0
        },
        |i: int| ' ',
    )
}

/// A text with spaces behind it, up to a width.
pub open spec fn padded(s: Seq<char>, width: int) -> Seq<char> {
    s + spaces(width - s.len())
}

/// A text with spaces before it, up to a width.
pub open spec fn padded_left(s: Seq<char>, width: int) -> Seq<char> {
    spaces(width - s.len()) + s
}

fn blanks(from: usize, to: usize) -> (r: String)
    ensures
        r@ == spaces(to - from),
{
    let mut out = String::new();
    let mut i: usize = from;
    assert(out@ =~= spaces(0));
    while i < to
        invariant
            from <= i,
            i <= to || i == from,
            out@ == spaces(i - from),
        decreases to - i,
    {
        out.append(" ");
        i = i + 1;
        proof {
            reveal_strlit(" ");
        }
        assert(out@ =~= spaces(i - from));
    }
    assert(out@ =~= spaces(to - from));
    out
}

fn pad(s: &str, width: usize) -> (r: String)
    ensures
        r@ == padded(s@, width as int),
{
    let mut out = s.to_owned();
    out.append(blanks(s.unicode_len(), width).as_str());
    out
}

fn pad_left(s: &str, width: usize) -> (r: String)
    ensures
        r@ == padded_left(s@, width as int),
{
    let mut out = blanks(s.unicode_len(), width);
    out.append(s);
    out
}

fn say(out: &mut Vec<String>, line: String)
    ensures
        texts(final(out)@) == texts(old(out)@) + seq![line@],
{
    let ghost had = texts(out@);
    out.push(line);
    assert(texts(out@) =~= had + seq![line@]);
}

/// One knob: whether it can be had, its name, and why not.
pub open spec fn capability_line(name: Seq<char>, reason: Option<Seq<char>>) -> Seq<char> {
    "  "@ + (if reason is None {
        "+"@
    } else {
        "-"@
    }) + " "@ + padded(name, 18) + " "@ + cap_text(reason)
}

fn knob_line(name: &str, cap: &Cap) -> (r: String)
    ensures
        r@ == capability_line(name@, cap@),
{
    let mut s = "  ".to_owned();
    if cap.is_available() {
        s.append("+");
    } else {
        s.append("-");
    }
    s.append(" ");
    s.append(pad(name, 18).as_str());
    s.append(" ");
    s.append(cap.text().as_str());
    s
}

/// Power, fan, profile and battery, as far as they are known; only power is missed aloud.
pub open spec fn reading_lines(
    power: Option<i64>,
    absent: Seq<char>,
    fan: Option<u64>,
    profile: Option<Seq<char>>,
    battery: Option<(u64, Seq<char>)>,
) -> Seq<Seq<char>> {
    seq![
        seq![],
        "Telemetry"@,
        "  package power      "@ + (match power {
            Some(w) => one_place_of_micro(w as int) + " W"@,
            None => absent,
        }),
    ] + (match fan {
        Some(rpm) => seq!["  fan                "@ + decimal(rpm as nat) + " rpm"@],
        None => seq![],
    }) + (match profile {
        Some(p) => seq!["  platform profile   "@ + p],
        None => seq![],
    }) + (match battery {
        Some((percent, status)) => seq![
            "  battery            "@ + decimal(percent as nat) + "% ("@ + status + ")"@,
        ],
        None => seq![],
    })
}

fn say_readings(
    out: &mut Vec<String>,
    power: Option<i64>,
    absent: &str,
    fan: Option<u64>,
    profile: &Option<String>,
    battery: Option<(u64, &str)>,
)
    ensures
        texts(final(out)@) == texts(old(out)@) + reading_lines(
            power,
            absent@,
            fan,
            text_of(*profile),
            match battery {
                Some(b) => Some((b.0, b.1@)),
                None => None,
            },
        ),
{
    let ghost had = texts(out@);
    let empty = String::new();
    assert(empty@ =~= seq![]);
    say(out, empty);
    say(out, "Telemetry".to_owned());
    let mut line = "  package power      ".to_owned();
    match power {
        Some(w) => {
            let mut value = one_place_of_micro_text(w);
            value.append(" W");
            line.append(value.as_str());
        },
        None => {
            line.append(absent);
        },
    }
    say(out, line);
    let ghost first: Seq<Seq<char>> = seq![seq![], "Telemetry"@, line@];
    assert(texts(out@) =~= had + first);
    let ghost mut second: Seq<Seq<char>> = seq![];
    if let Some(rpm) = fan {
        let mut line = "  fan                ".to_owned();
        line.append(decimal_text(rpm).as_str());
        line.append(" rpm");
        proof {
            second = seq![line@];
        }
        say(out, line);
    }
    assert(texts(out@) =~= had + (first + second));
    let ghost mut third: Seq<Seq<char>> = seq![];
    if let Some(p) = profile {
        let mut line = "  platform profile   ".to_owned();
        line.append(p.as_str());
        proof {
            third = seq![line@];
        }
        say(out, line);
    }
    assert(texts(out@) =~= had + (first + second + third));
    let ghost mut fourth: Seq<Seq<char>> = seq![];
    if let Some((percent, status)) = battery {
        let mut line = "  battery            ".to_owned();
        line.append(decimal_text(percent).as_str());
        line.append("% (");
        line.append(status);
        line.append(")");
        proof {
            fourth = seq![line@];
        }
        say(out, line);
    }
    assert(texts(out@) =~= had + (first + second + third + fourth));
}

/// One sensor, marked where a fan curve would follow it.
pub open spec fn temperature_line(
    label: Seq<char>,
    celsius: i64,
    critical: Option<i64>,
    control: Option<Seq<char>>,
) -> Seq<char> {
    "  "@ + (if control == Some(label) {
        "*"@
    } else {
        " "@
    }) + " "@ + padded(label, 22) + " "@ + padded_left(one_place(celsius as int), 6) + " C   ("@ + (
    match critical {
        Some(c) => "crit "@ + one_place(c as int),
        None => "crit unknown"@,
    }) + ")"@
}

fn sensor_line(label: &str, celsius: i64, critical: Option<i64>, control: Option<&str>) -> (r:
    String)
    ensures
        r@ == temperature_line(
            label@,
            celsius,
            critical,
            match control {
                Some(c) => Some(c@),
                None => None,
            },
        ),
{
    let mut s = "  ".to_owned();
    let marked = match control {
        Some(c) => same(c, label),
        None => false,
    };
    if marked {
        s.append("*");
    } else {
        s.append(" ");
    }
    s.append(" ");
    s.append(pad(label, 22).as_str());
    s.append(" ");
    s.append(pad_left(one_place_text(celsius).as_str(), 6).as_str());
    s.append(" C   (");
    match critical {
        Some(c) => {
            let mut t = "crit ".to_owned();
            t.append(one_place_text(c).as_str());
            s.append(t.as_str());
        },
        None => {
            s.append("crit unknown");
        },
    }
    s.append(")");
    s
}

/// The sensors' part, which is left out where there are none.
pub open spec fn temperature_lines(rows: Seq<Seq<char>>) -> Seq<Seq<char>> {
    if rows.len() == 0 {
        seq![]
    } else {
        seq![seq![], "Temperatures"@] + rows + seq![
            seq![],
            "  * = sensor a fan curve would follow"@,
        ]
    }
}

fn say_heading(out: &mut Vec<String>)
    ensures
        texts(final(out)@) == texts(old(out)@) + seq![seq![], "Temperatures"@],
{
    let ghost had = texts(out@);
    let empty = String::new();
    assert(empty@ =~= seq![]);
    say(out, empty);
    say(out, "Temperatures".to_owned());
    assert(texts(out@) =~= had + seq![seq![], "Temperatures"@]);
}

fn say_legend(out: &mut Vec<String>)
    ensures
        texts(final(out)@) == texts(old(out)@) + seq![
            seq![],
            "  * = sensor a fan curve would follow"@,
        ],
{
    let ghost had = texts(out@);
    let empty = String::new();
    assert(empty@ =~= seq![]);
    say(out, empty);
    say(out, "  * = sensor a fan curve would follow".to_owned());
    assert(texts(out@) =~= had + seq![seq![], "  * = sensor a fan curve would follow"@]);
}

/// What to say of a daemon whose interface is not the one this client understands.
pub fn version_warning(version: u32) -> (r: Option<String>)
    ensures
        r is Some <==> version != SUPPORTED_VERSION,
        r matches Some(t) ==> t@ == "warning: daemon speaks interface v"@ + decimal(version as nat)
            + ", this client understands v"@ + decimal(SUPPORTED_VERSION as nat)
            + "; output may be incomplete"@,
{
    if version == SUPPORTED_VERSION {
        return None;
    }
    let mut s = "warning: daemon speaks interface v".to_owned();
    s.append(decimal_text(version as u64).as_str());
    s.append(", this client understands v");
    s.append(decimal_text(SUPPORTED_VERSION as u64).as_str());
    s.append("; output may be incomplete");
    Some(s)
}

/// The daemon's word on one knob as a reason against it, if there is one.
pub open spec fn published_reason(knob: (String, bool, String)) -> Option<Seq<char>> {
    if knob.1 {
        None
    } else {
        Some(knob.2@)
    }
}

/// Everything the daemon published, as lines.
pub open spec fn status_lines(s: Snapshot) -> Seq<Seq<char>> {
    seq!["Capabilities                                    (via fw-helperd)"@] + Seq::new(
        s.capabilities@.len(),
        |i: int| capability_line(s.capabilities@[i].0@, published_reason(s.capabilities@[i])),
    ) + reading_lines(
        s.package_watts,
        "<unavailable>"@,
        s.fan_rpm,
        text_of(s.platform_profile),
        match s.battery_percent {
            Some(p) => Some(
                (
                    p,
                    match text_of(s.battery_status) {
                        Some(t) => t,
                        None => seq![],
                    },
                ),
            ),
            None => None,
        },
    ) + temperature_lines(
        Seq::new(
            s.temps@.len(),
            |i: int|
                temperature_line(
                    s.temps@[i].label@,
                    s.temps@[i].celsius,
                    s.temps@[i].critical,
                    text_of(s.control_sensor),
                ),
        ),
    )
}

/// Everything the daemon published, as lines.
pub fn status(s: &Snapshot) -> (r: Vec<String>)
    ensures
        texts(r@) == status_lines(*s),
{
    let mut out: Vec<String> = Vec::new();
    assert(texts(out@) =~= seq![]);
    say(
        &mut out,
        "Capabilities                                    (via fw-helperd)".to_owned(),
    );
    let ghost head: Seq<Seq<char>> = seq![
        "Capabilities                                    (via fw-helperd)"@,
    ];
    let ghost knobs = Seq::new(
        s.capabilities@.len(),
        |i: int| capability_line(s.capabilities@[i].0@, published_reason(s.capabilities@[i])),
    );
    assert(texts(out@) =~= head + knobs.take(0));
    let mut i: usize = 0;
    while i < s.capabilities.len()
        invariant
            i <= s.capabilities@.len(),
            knobs == Seq::new(
                s.capabilities@.len(),
                |i: int|
                    capability_line(s.capabilities@[i].0@, published_reason(s.capabilities@[i])),
            ),
            texts(out@) == head + knobs.take(i as int),
        decreases s.capabilities@.len() - i,
    {
        let knob = &s.capabilities[i];
        let cap = if knob.1 {
            Cap::Yes
        } else {
            Cap::No(knob.2.clone())
        };
        say(&mut out, knob_line(knob.0.as_str(), &cap));
        i = i + 1;
        assert(texts(out@) =~= head + knobs.take(i as int));
    }
    assert(knobs.take(i as int) =~= knobs);
    let battery = match s.battery_percent {
        Some(p) => match &s.battery_status {
            Some(t) => Some((p, t.as_str())),
            None => {
                assert(""@ =~= seq![]) by {
                    reveal_strlit("");
                }
                Some((p, ""))
            },
        },
        None => None,
    };
    say_readings(
        &mut out,
        s.package_watts,
        "<unavailable>",
        s.fan_rpm,
        &s.platform_profile,
        battery,
    );
    let control = match &s.control_sensor {
        Some(c) => Some(c.as_str()),
        None => None,
    };
    let ghost rows = Seq::new(
        s.temps@.len(),
        |i: int|
            temperature_line(
                s.temps@[i].label@,
                s.temps@[i].celsius,
                s.temps@[i].critical,
                text_of(s.control_sensor),
            ),
    );
    let ghost before = texts(out@);
    if s.temps.len() > 0 {
        say_heading(&mut out);
        let ghost titled = texts(out@);
        let mut k: usize = 0;
        assert(texts(out@) =~= titled + rows.take(0));
        while k < s.temps.len()
            invariant
                k <= s.temps@.len(),
                rows == Seq::new(
                    s.temps@.len(),
                    |i: int|
                        temperature_line(
                            s.temps@[i].label@,
                            s.temps@[i].celsius,
                            s.temps@[i].critical,
                            text_of(s.control_sensor),
                        ),
                ),
                text_of(s.control_sensor) == (match control {
                    Some(c) => Some(c@),
                    None => None,
                }),
                texts(out@) == titled + rows.take(k as int),
            decreases s.temps@.len() - k,
        {
            let t = &s.temps[k];
            say(&mut out, sensor_line(t.label.as_str(), t.celsius, t.critical, control));
            k = k + 1;
            assert(texts(out@) =~= titled + rows.take(k as int));
        }
        assert(rows.take(k as int) =~= rows);
        say_legend(&mut out);
        assert(texts(out@) =~= before + temperature_lines(rows));
    } else {
        assert(texts(out@) =~= before + temperature_lines(rows));
    }
    assert(texts(out@) =~= status_lines(*s));
    out
}

/// The capabilities that the files themselves show, as lines.
pub fn direct_capabilities(caps: &Capabilities) -> (r: Vec<String>)
    ensures
        texts(r@) == seq![
            "Capabilities                                    (direct sysfs)"@,
            capability_line("fan control"@, caps.fan_control@),
            capability_line("power limit"@, caps.power_limit@),
            capability_line("charge limit"@, caps.charge_limit@),
            capability_line("platform profile"@, caps.platform_profile@),
            capability_line("package power"@, caps.package_power@),
        ],
{
    let mut out: Vec<String> = Vec::new();
    say(
        &mut out,
        "Capabilities                                    (direct sysfs)".to_owned(),
    );
    let summary = caps.summary();
    say(&mut out, knob_line(summary[0].0, summary[0].1));
    say(&mut out, knob_line(summary[1].0, summary[1].1));
    say(&mut out, knob_line(summary[2].0, summary[2].1));
    say(&mut out, knob_line(summary[3].0, summary[3].1));
    say(&mut out, knob_line(summary[4].0, summary[4].1));
    assert(texts(out@) =~= seq![
        "Capabilities                                    (direct sysfs)"@,
        capability_line("fan control"@, caps.fan_control@),
        capability_line("power limit"@, caps.power_limit@),
        capability_line("charge limit"@, caps.charge_limit@),
        capability_line("platform profile"@, caps.platform_profile@),
        capability_line("package power"@, caps.package_power@),
    ]);
    out
}

/// One sample taken without a daemon, as lines. The battery is shown where both its charge
/// and its status are known.
pub open spec fn direct_lines(t: Telemetry) -> Seq<Seq<char>> {
    reading_lines(
        t.package_watts,
        "<unavailable \u{2014} run as root?>"@,
        t.fan_rpm,
        text_of(t.platform_profile),
        match (t.battery_percent, text_of(t.battery_status)) {
            (Some(p), Some(s)) => Some((p, s)),
            _ => None,
        },
    ) + temperature_lines(
        Seq::new(
            t.temps@.len(),
            |i: int|
                temperature_line(
                    t.temps@[i].label@,
                    t.temps@[i].celsius,
                    t.temps@[i].critical,
                    control_label(t),
                ),
        ),
    )
}

/// The sensor a fan curve would follow.
pub open spec fn control_label(t: Telemetry) -> Option<Seq<char>> {
    match control_index(t@.temps) {
        Some(i) => Some(t@.temps[i].label),
        None => None,
    }
}

/// One sample taken without a daemon, as lines.
pub fn direct_readings(t: &Telemetry) -> (r: Vec<String>)
    ensures
        texts(r@) == direct_lines(*t),
{
    let mut out: Vec<String> = Vec::new();
    assert(texts(out@) =~= seq![]);
    let battery = match (t.battery_percent, &t.battery_status) {
        (Some(p), Some(s)) => Some((p, s.as_str())),
        _ => None,
    };
    say_readings(
        &mut out,
        t.package_watts,
        "<unavailable \u{2014} run as root?>",
        t.fan_rpm,
        &t.platform_profile,
        battery,
    );
    let control = match t.control_temp() {
        Some(c) => Some(c.label.as_str()),
        None => None,
    };
    let ghost rows = Seq::new(
        t.temps@.len(),
        |i: int|
            temperature_line(
                t.temps@[i].label@,
                t.temps@[i].celsius,
                t.temps@[i].critical,
                control_label(*t),
            ),
    );
    let ghost before = texts(out@);
    if t.temps.len() > 0 {
        say_heading(&mut out);
        let ghost titled = texts(out@);
        let mut k: usize = 0;
        assert(texts(out@) =~= titled + rows.take(0));
        while k < t.temps.len()
            invariant
                k <= t.temps@.len(),
                rows == Seq::new(
                    t.temps@.len(),
                    |i: int|
                        temperature_line(
                            t.temps@[i].label@,
                            t.temps@[i].celsius,
                            t.temps@[i].critical,
                            control_label(*t),
                        ),
                ),
                control_label(*t) == (match control {
                    Some(c) => Some(c@),
                    None => None,
                }),
                texts(out@) == titled + rows.take(k as int),
            decreases t.temps@.len() - k,
        {
            let reading = &t.temps[k];
            say(
                &mut out,
                sensor_line(reading.label.as_str(), reading.celsius, reading.critical, control),
            );
            k = k + 1;
            assert(texts(out@) =~= titled + rows.take(k as int));
        }
        assert(rows.take(k as int) =~= rows);
        say_legend(&mut out);
        assert(texts(out@) =~= before + temperature_lines(rows));
    } else {
        assert(texts(out@) =~= before + temperature_lines(rows));
    }
    assert(texts(out@) =~= direct_lines(*t));
    out
}

/// The first sensor of this name, from `i` on.
pub open spec fn sensor_named(s: Seq<Sensor>, label: Option<Seq<char>>, i: int) -> Option<int>
    decreases s.len() - i,
{
    if i >= s.len() {
        None
    } else if label == Some(s[i].label@) {
        Some(i)
    } else {
        sensor_named(s, label, i + 1)
    }
}

/// Four columns: time, power, fan and CPU.
pub open spec fn columns(time: Seq<char>, power: Seq<char>, fan: Seq<char>, cpu: Seq<char>) -> Seq<
    char,
> {
    padded_left(time, 6) + "  "@ + padded_left(power, 9) + "  "@ + padded_left(fan, 8) + "  "@
        + padded_left(cpu, 9)
}

fn row(time: &str, power: &str, fan: &str, cpu: &str) -> (r: String)
    ensures
        r@ == columns(time@, power@, fan@, cpu@),
{
    let mut s = pad_left(time, 6);
    s.append("  ");
    s.append(pad_left(power, 9).as_str());
    s.append("  ");
    s.append(pad_left(fan, 8).as_str());
    s.append("  ");
    s.append(pad_left(cpu, 9).as_str());
    s
}

/// What stands over the live lines.
pub fn watch_header() -> (r: String)
    ensures
        r@ == columns("t"@, "power"@, "fan"@, "cpu"@),
{
    row("t", "power", "fan", "cpu")
}

/// The live line after `secs` seconds; a dash is a reading that is not there.
pub fn watch_line(secs: u64, s: &Snapshot) -> (r: String)
    ensures
        r@ == columns(
            decimal(secs as nat) + "s"@,
            match s.package_watts {
                Some(w) => one_place_of_micro(w as int) + " W"@,
                None => "-"@,
            },
            match s.fan_rpm {
                Some(rpm) => decimal(rpm as nat) + " rpm"@,
                None => "-"@,
            },
            match sensor_named(s.temps@, text_of(s.control_sensor), 0) {
                Some(i) => one_place(s.temps@[i].celsius as int) + " C"@,
                None => "-"@,
            },
        ),
{
    let mut time = decimal_text(secs);
    time.append("s");
    let power = match s.package_watts {
        Some(w) => {
            let mut t = one_place_of_micro_text(w);
            t.append(" W");
            t
        },
        None => "-".to_owned(),
    };
    let fan = match s.fan_rpm {
        Some(rpm) => {
            let mut t = decimal_text(rpm);
            t.append(" rpm");
            t
        },
        None => "-".to_owned(),
    };
    let mut cpu = "-".to_owned();
    if let Some(label) = &s.control_sensor {
        let mut i: usize = 0;
        while i < s.temps.len() && !same(s.temps[i].label.as_str(), label.as_str())
            invariant
                i <= s.temps@.len(),
                sensor_named(s.temps@, Some(label@), 0) == sensor_named(
                    s.temps@,
                    Some(label@),
                    i as int,
                ),
            decreases s.temps@.len() - i,
        {
            i = i + 1;
        }
        if i < s.temps.len() {
            cpu = one_place_text(s.temps[i].celsius);
            cpu.append(" C");
        }
    } else {
        proof {
            lemma_no_name(s.temps@, 0);
        }
    }
    row(time.as_str(), power.as_str(), fan.as_str(), cpu.as_str())
}

proof fn lemma_no_name(s: Seq<Sensor>, i: int)
    ensures
        sensor_named(s, None, i) is None,
    decreases s.len() - i,
{
    if i < s.len() {
        lemma_no_name(s, i + 1);
    }
}

/// A padded text is as wide as asked for, or as wide as it is where that is wider, and but for
/// blanks on the one side it is the text.
pub proof fn padding_fills_up_to_the_width(s: Seq<char>, width: int)
    requires
        width >= 0,
    ensures
        ({
            let (p, q) = (padded(s, width), padded_left(s, width));
            &&& p.len() == q.len()
            &&& s.len() <= width ==> p.len() == width
            &&& s.len() >= width ==> p == s && q == s
            &&& p.take(s.len() as int) == s && q.skip(q.len() - s.len()) == s
            &&& forall|i: int| s.len() <= i < p.len() ==> p[i] == ' '
            &&& forall|i: int| 0 <= i < q.len() - s.len() ==> q[i] == ' '
        }),
{
    let (p, q) = (padded(s, width), padded_left(s, width));
    assert(p.take(s.len() as int) =~= s);
    assert(q.skip(q.len() - s.len()) =~= s);
    if s.len() >= width {
        assert(p =~= s && q =~= s);
    }
}

/// A sensor is found by its label where it first stands.
pub proof fn a_sensor_is_found_by_its_label(s: Seq<Sensor>, label: Option<Seq<char>>, i: int)
    requires
        0 <= i <= s.len(),
    ensures
        sensor_named(s, label, i) matches Some(k) ==> i <= k < s.len() && label == Some(s[k].label@)
            && forall|j: int| i <= j < k ==> label != Some((#[trigger] s[j]).label@),
        sensor_named(s, label, i) is None ==> forall|j: int|
            i <= j < s.len() ==> label != Some((#[trigger] s[j]).label@),
    decreases s.len() - i,
{
    if i < s.len() && label != Some(s[i].label@) {
        a_sensor_is_found_by_its_label(s, label, i + 1);
    }
}

/// A knob that can be operated is marked with a plus, any other with a minus, and the sensor that
/// a curve follows with a star.
pub proof fn lines_are_marked(
    name: Seq<char>,
    reason: Option<Seq<char>>,
    celsius: i64,
    critical: Option<i64>,
    control: Option<Seq<char>>,
)
    ensures
        reason is None ==> capability_line(name, reason)[2] == '+',
        reason is Some ==> capability_line(name, reason)[2] == '-',
        control == Some(name) ==> temperature_line(name, celsius, critical, control)[2] == '*',
        control != Some(name) ==> temperature_line(name, celsius, critical, control)[2] == ' ',
{
    reveal_strlit("  ");
    reveal_strlit(" ");
    reveal_strlit("+");
    reveal_strlit("-");
    reveal_strlit("*");
    assert("  "@.len() == 2);
}

/// Every knob has a line behind the heading, and every sensor one in the order of the readings.
pub proof fn everything_published_has_its_line(s: Snapshot, i: int)
    ensures
        0 <= i < s.capabilities@.len() ==> status_lines(s)[1 + i] == capability_line(
            s.capabilities@[i].0@,
            if s.capabilities@[i].1 {
                None
            } else {
                Some(s.capabilities@[i].2@)
            },
        ),
        0 <= i < s.temps@.len() ==> status_lines(s)[status_lines(s).len() - 2 - s.temps@.len() + i]
            == temperature_line(
            s.temps@[i].label@,
            s.temps@[i].celsius,
            s.temps@[i].critical,
            text_of(s.control_sensor),
        ),
{
}

}
