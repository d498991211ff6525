//! What the daemon decides, what goes over the bus, and what the window shows.

use fw_helper::client::{Published, Sensor, Snapshot};
use fw_helper::daemon::{
    active_profile, by_name, capture, duty_text, enforce_power_limit, fan_floor, fan_mode, forget,
    names, reapply_charge_limit, reapply_ec_charge_limit, reapply_power_limit, refuse_fan,
    stale_refusal, CaptureError, Reapply, Refusal,
};
use fw_helper::govern::{
    applied_text, apply_failure_text, apply_steps, drives_ppd, enforced_text,
    is_power_source_change, override_text, ppd_code, ppd_from_code, reclaimed_text, restored_text,
    ApplyNext, ApplyStep, Cause, Direction, Govern, Observation, Plan, Poller,
};
use fw_helper::lease::{Applied, Enforced, FanLease, LeaseError, Reclaimed, Thermal};
use fw_helper::panel::{
    auto_choice, auto_index, battery_subtitle, charge_row, deletable, describe, describe_fan,
    expected, fan_is_ours, fan_label, observed, power_label, power_row, profile_row_live,
    profile_subtitle, save_name, sensor_subtitle, settled, system_caption, temperature_label, Command,
};
use fw_helper::polkit::{actions, first, verdict, Asked, Next, Prompt};
use fw_helper::ppd::{Backend, ProfileAxis, Switch};
use fw_helper::procs::{parse_stat, shares, total_ticks, Sample};
use fw_helper::report;
use fw_helper::state::State;
use fw_helper::sysfs::{Answer, FileOp, IoError, IoErrorKind, Step};
use fw_helper::telemetry::{TempReading, Telemetry};
use fw_helper::watchdog::{check_log, Check, Watchdog};
use fw_helper::wire::{capabilities_dict, critical_temps, telemetry_dict, WireValue};
use fw_helper::transport::{EcAnswer, EcError, EcStep};
use fw_helper::{
    BatteryGuard, Cap, Capabilities, Ceiling, CurveError, FanMode, Ppd, Profile, ProfileError,
};
use std::collections::BTreeMap;

const ATTR: &str = "sys/class/power_supply/BAT1/charge_control_end_threshold";

fn missing() -> IoError {
    IoError {
        kind: IoErrorKind::NotFound,
        message: "No such file or directory (os error 2)".to_string(),
    }
}

fn drive<T>(
    files: &mut BTreeMap<String, String>,
    mut work: impl FnMut(&[Answer]) -> Step<T>,
) -> T {
    let mut answers: Vec<Answer> = Vec::new();
    loop {
        match work(&answers) {
            Step::Done(v) => return v,
            Step::Ask(op) => {
                let a = match op {
                    FileOp::Exists(p) | FileOp::Read(p) => {
                        files.get(&p).cloned().ok_or_else(missing)
                    }
                    FileOp::Write(p, text) => match files.get_mut(&p) {
                        Some(f) => {
                            *f = text;
                            Ok(String::new())
                        }
                        None => Err(missing()),
                    },
                };
                answers.push(a);
            }
        }
    }
}

fn with_attr(value: &str) -> BTreeMap<String, String> {
    let mut files = BTreeMap::new();
    files.insert(ATTR.to_string(), value.to_string());
    files
}

#[test]
fn reapply_reports_when_firmware_left_the_limit_alone() {
    let mut files = with_attr("80\n");
    let (outcome, log) = drive(&mut files, |a| reapply_charge_limit(Some(80), a));
    assert_eq!(outcome, Reapply::AlreadyCorrect);
    assert_eq!(files[ATTR].trim(), "80");
    assert_eq!(
        log,
        vec!["charge limit still 80%; nothing to re-apply".to_string()]
    );
}

#[test]
fn reapply_corrects_when_firmware_reset_the_limit() {
    let mut files = with_attr("100\n");
    let (outcome, log) = drive(&mut files, |a| reapply_charge_limit(Some(80), a));
    assert_eq!(outcome, Reapply::Corrected);
    assert_eq!(files[ATTR].trim(), "80");
    assert_eq!(
        log,
        vec![
            "charge limit is 100%, expected 80%; re-applying".to_string(),
            "re-applied charge limit 80%".to_string()
        ]
    );
}

#[test]
fn reapply_does_nothing_without_a_persisted_limit() {
    let mut files = with_attr("100\n");
    let (outcome, log) = drive(&mut files, |a| reapply_charge_limit(None, a));
    assert_eq!(outcome, Reapply::NothingPersisted);
    assert_eq!(files[ATTR].trim(), "100");
    assert!(log.is_empty());
}

#[test]
fn reapply_fails_loudly_when_charge_control_is_unavailable() {
    let mut files = BTreeMap::new();
    let (outcome, log) = drive(&mut files, |a| reapply_charge_limit(Some(80), a));
    assert_eq!(outcome, Reapply::Failed);
    assert!(log[1].contains("probe_with_fwk_charge_control"), "{log:?}");
}

#[test]
fn a_charge_limit_is_reapplied_over_the_ec() {
    let at = |persisted, answers: &[EcAnswer]| reapply_ec_charge_limit(persisted, answers);
    let limits = |max: u8| Ok(vec![max, 20]);
    let sent = |step| match step {
        EcStep::Send { out, .. } => out,
        EcStep::Done(v) => panic!("{v:?}"),
    };
    assert_eq!(
        at(None, &[]),
        EcStep::Done((Reapply::NothingPersisted, vec![], None))
    );
    assert_eq!(sent(at(Some(80), &[])), vec![8, 255, 255]);
    assert_eq!(
        at(Some(80), &[limits(80)]),
        EcStep::Done((
            Reapply::AlreadyCorrect,
            vec!["charge limit still 80%; nothing to re-apply".to_string()],
            None
        ))
    );
    let seen = "charge limit is 100%, expected 80%; re-applying".to_string();
    assert_eq!(sent(at(Some(80), &[limits(100)])), vec![8, 255, 255]);
    assert_eq!(
        sent(at(Some(80), &[limits(100), limits(100)])),
        vec![2, 80, 20]
    );
    assert_eq!(
        at(
            Some(80),
            &[limits(100), limits(100), Ok(vec![]), limits(80)]
        ),
        EcStep::Done((
            Reapply::Corrected,
            vec![seen.clone(), "re-applied charge limit 80%".to_string()],
            Some(FileOp::Write(ATTR.to_string(), "80".to_string()))
        ))
    );
    assert_eq!(
        at(
            Some(80),
            &[limits(100), limits(100), Ok(vec![]), limits(90)]
        ),
        EcStep::Done((
            Reapply::Failed,
            vec![
                seen,
                "could not re-apply charge limit 80%: asked the EC for 80% and it reports 90%"
                    .to_string()
            ],
            None
        ))
    );
    assert_eq!(
        at(Some(5), &[Err(EcError::Rejected(1))]),
        EcStep::Done((
            Reapply::Failed,
            vec![
                "cannot read charge limit (the EC rejected the command (result 1)); re-applying \
                 5% anyway"
                    .to_string(),
                "could not re-apply charge limit 5%: 5% is outside the accepted range 20\u{2013}100%"
                    .to_string()
            ],
            None
        ))
    );
}

#[test]
fn a_power_limit_is_reapplied_and_enforced() {
    let limit = "sys/class/powercap/intel-rapl-mmio:0/constraint_0_power_limit_uw";
    let mut files = BTreeMap::new();
    files.insert(limit.to_string(), "25000000\n".to_string());
    let (outcome, _) = drive(&mut files, |a| reapply_power_limit(Some(15), a));
    assert_eq!(outcome, Reapply::Corrected);
    let (outcome, log) = drive(&mut files, |a| reapply_power_limit(Some(15), a));
    assert_eq!(outcome, Reapply::AlreadyCorrect);
    assert_eq!(
        log,
        vec!["power limit still 15 W; nothing to re-apply".to_string()]
    );
    assert_eq!(drive(&mut files, |a| enforce_power_limit(Some(15), a)), None);
    files.insert(limit.to_string(), "33000000\n".to_string());
    assert_eq!(
        drive(&mut files, |a| enforce_power_limit(Some(15), a)),
        Some((15, 33))
    );
    assert_eq!(drive(&mut files, |a| enforce_power_limit(None, a)), None);
}

#[test]
fn the_first_power_reading_is_a_baseline_not_a_transition() {
    assert!(!is_power_source_change(None, true));
    assert!(!is_power_source_change(None, false));
}

#[test]
fn only_a_real_change_of_source_counts() {
    assert!(is_power_source_change(Some(false), true));
    assert!(is_power_source_change(Some(true), false));
    assert!(!is_power_source_change(Some(true), true));
    assert!(!is_power_source_change(Some(false), false));
}

#[test]
fn profiles_are_looked_up_saved_and_forgotten() {
    let known = Profile::built_ins();
    assert_eq!(by_name(&known, "quiet").unwrap().pl1_watts, 15);
    assert_eq!(
        by_name(&known, "loud").unwrap_err(),
        "no profile \"loud\"; known profiles are quiet, balanced, performance"
    );
    assert_eq!(names(&known), vec!["quiet", "balanced", "performance"]);

    let mine = capture(
        "mine",
        Ppd::Balanced,
        18,
        Some(vec![(40_000, 0), (60_000, 90)]),
        &known,
        None,
    )
    .unwrap();
    assert_eq!(mine.curve.points().len(), 2);
    assert_eq!(mine.charge_limit, None);
    let plain = capture("plain", Ppd::Performance, 25, None, &known, None).unwrap();
    assert_eq!(plain.curve, Profile::performance().curve);
    assert_eq!(
        capture("Bad Name", Ppd::Balanced, 18, None, &known, None),
        Err(CaptureError::Profile(ProfileError::NameNotSimple(
            "Bad Name".to_string()
        )))
    );
    let short = capture("x", Ppd::Balanced, 18, Some(vec![(40_000, 0)]), &known, None);
    assert_eq!(short, Err(CaptureError::Curve(CurveError::TooFewPoints)));
    assert_eq!(
        short.unwrap_err().text(),
        "a curve needs at least two points"
    );

    // With no curve running, the active profile lends its own.
    let with_mine = vec![Profile::quiet(), mine.clone(), Profile::balanced()];
    let copy = capture("copy", Ppd::Balanced, 18, Some(vec![]), &with_mine, Some("mine"));
    assert_eq!(copy.unwrap().curve, mine.curve);
    let other = capture("other", Ppd::PowerSaver, 18, None, &with_mine, Some("mine")).unwrap();
    assert_eq!(other.curve, Profile::quiet().curve, "the slider has moved");
    let mut replaced = mine.clone();
    replaced.name = "balanced".to_string();
    let over = capture("over", Ppd::Balanced, 18, None, &vec![replaced], None).unwrap();
    assert_eq!(over.curve, mine.curve);
    let none = capture("none", Ppd::Balanced, 18, None, &vec![], Some("mine")).unwrap();
    assert_eq!(none.curve, Profile::balanced().curve);

    let mut own = Profile::quiet();
    own.pl1_watts = 10;
    let left = forget(vec![own, mine, Profile::balanced()], "quiet");
    assert_eq!(names(&left), vec!["mine", "balanced", "quiet"]);
    assert_eq!(left[2].pl1_watts, 15, "the built-in comes back");
    assert_eq!(names(&forget(left, "mine")), vec!["balanced", "quiet"]);
}

#[test]
fn the_active_profile_is_ours_only_while_ppd_agrees() {
    let known = Profile::built_ins();
    assert_eq!(active_profile(&known, Some("quiet"), None), "");
    assert_eq!(
        active_profile(&known, Some("quiet"), Some(Ppd::PowerSaver)),
        "quiet"
    );
    assert_eq!(
        active_profile(&known, Some("quiet"), Some(Ppd::Balanced)),
        "balanced"
    );
    assert_eq!(
        active_profile(&known, None, Some(Ppd::Performance)),
        "performance"
    );
}

#[test]
fn fan_modes_and_floors_are_reported() {
    assert_eq!(fan_mode(Some(FanMode::Manual), true), "curve");
    assert_eq!(fan_mode(Some(FanMode::Manual), false), "manual");
    assert_eq!(fan_mode(Some(FanMode::Auto), true), "auto");
    assert_eq!(
        fan_mode(Some(FanMode::Auto), false),
        expected(&Command::FanAuto)
    );
    assert_eq!(fan_mode(None, false), "unavailable");
    let lease = FanLease::new();
    let th = Thermal {
        celsius: Some(40_000),
        ceiling: Ceiling::default(),
        battery_celsius: Some(45_000),
        battery: BatteryGuard::from_crit(Some(50_000)),
    };
    assert_eq!(fan_floor(&lease, th), 128);
    assert_eq!(
        fan_floor(
            &lease,
            Thermal {
                celsius: None,
                ..th
            }
        ),
        255
    );
    assert!(stale_refusal(6_400, false).contains("has not run for 6s"));
    assert!(stale_refusal(6_600, true).contains("has not run for 7s"));
}

#[test]
fn what_is_recorded_is_news_only_once() {
    let mut s = State::default();
    assert!(s.record_profile("quiet", 15));
    assert!(!s.record_profile("quiet", 15));
    assert!(s.record_profile("quiet", 18));
    assert_eq!((s.profile.as_deref(), s.power_limit), (Some("quiet"), Some(18)));
    assert!(s.record_floor(vec![(44_000, 0)]));
    assert!(!s.record_floor(vec![(44_000, 0)]));
    assert!(s.record_floor(vec![(44_000, 1)]));

    let known = Profile::built_ins();
    assert!(s.set_auto_profiles(&known, "performance", "").is_ok());
    assert_eq!(s.auto_profile_for(true).as_deref(), Some("performance"));
    assert_eq!(s.auto_profile_for(false), None);
    assert!(s.set_auto_profiles(&known, "quiet", "nope").is_err());
    assert_eq!(s.auto_profile_for(true).as_deref(), Some("performance"));
}

fn sample() -> Telemetry {
    Telemetry {
        temps: vec![
            TempReading {
                label: "a".into(),
                celsius: 40_000,
                critical: None,
            },
            TempReading {
                label: "peci-temp".into(),
                celsius: 64_800,
                critical: Some(119_850),
            },
            TempReading {
                label: "a".into(),
                celsius: 41_000,
                critical: Some(87_850),
            },
        ],
        fan_rpm: Some(2925),
        package_watts: Some(24_700_000),
        battery_percent: Some(71),
        battery_status: Some("Discharging".into()),
        system_watts: Some(23_100_000),
        battery_minutes: Some(125),
        on_ac: Some(false),
        ..Default::default()
    }
}

#[test]
fn a_sample_is_news_only_when_it_differs() {
    let a = sample();
    let mut b = sample();
    assert!(a.same_as(&b));
    b.temps[1].celsius += 1;
    assert!(!a.same_as(&b));
    let mut b = sample();
    b.battery_status = None;
    assert!(!a.same_as(&b));
}

fn caps() -> Capabilities {
    Capabilities {
        fan_control: Cap::Yes,
        power_limit: Cap::Yes,
        charge_limit: Cap::No("why".to_string()),
        platform_profile: Cap::Yes,
        package_power: Cap::Yes,
        ec_hwmon: None,
        energy_zone: None,
    }
}

fn published() -> Published {
    let t = sample();
    Published {
        telemetry: telemetry_dict(&t),
        critical_temperatures: critical_temps(&t),
        capabilities: capabilities_dict(&caps()),
        charge_limit: Some(0),
        fan_mode: Some("manual".to_string()),
        fan_duty: Some(60),
        fan_floor: Some(58),
        fan_curve: vec![],
        fan_floor_curve: vec![],
        power_limit: Some(15),
        power_limit_max: Some(25),
        active_profile: Some("quiet".to_string()),
        profile_backend: Some("platform_profile".to_string()),
        profiles: vec!["quiet".to_string(), "mine".to_string()],
        saved_profiles: vec!["mine".to_string()],
        auto_profiles: ("mine".to_string(), String::new()),
    }
}

#[test]
fn telemetry_survives_the_bus() {
    let d = telemetry_dict(&sample());
    assert!(d.contains(&("fan_rpm".to_string(), WireValue::U64(2925))));
    assert!(d.contains(&(
        "control_sensor".to_string(),
        WireValue::Str("peci-temp".to_string())
    )));
    assert!(!d.iter().any(|(k, _)| k == "platform_profile"));

    let s = Snapshot::fetch(published());
    assert_eq!(s.package_watts, Some(24_700_000));
    assert_eq!(s.battery_minutes, Some(125));
    assert_eq!(s.on_ac, Some(false));
    assert_eq!(s.platform_profile, None);
    assert_eq!(
        s.temps,
        vec![
            Sensor {
                label: "peci-temp".to_string(),
                celsius: 64_800,
                critical: Some(119_850)
            },
            Sensor {
                label: "a".to_string(),
                celsius: 41_000,
                critical: Some(87_850)
            },
        ]
    );
    assert_eq!(s.charge_limit, None, "zero stands for unsupported");
    assert_eq!(s.capability("charge limit"), Some((false, "why")));
    assert_eq!(s.capability("nothing"), None);
    assert_eq!(s.capabilities[0].0, "charge limit", "by name");
}

#[test]
fn whole_numbers_count_as_watts() {
    let mut p = published();
    p.telemetry = vec![
        ("package_watts".to_string(), WireValue::U64(7)),
        ("fan_rpm".to_string(), WireValue::Bool(true)),
    ];
    p.active_profile = Some(String::new());
    let s = Snapshot::fetch(p);
    assert_eq!(s.package_watts, Some(7_000_000));
    assert_eq!(s.fan_rpm, None);
    assert_eq!(s.profile, None);
    assert!(s.temps.is_empty());
}

#[test]
fn the_window_says_what_is_going_on() {
    let s = Snapshot::fetch(published());
    assert_eq!(
        describe_fan(&s),
        "manual \u{b7} duty 60/255, held at the firmware floor"
    );
    assert_eq!(
        profile_subtitle(&s),
        "15 W \u{b7} fan set by hand \u{b7} GNOME slider not in sync"
    );
    assert_eq!(system_caption(&s), "system \u{b7} 71% \u{b7} 2h 05m left");
    assert_eq!(temperature_label(&s), "65 \u{b0}C");
    assert_eq!(power_label(s.package_watts), "24.7 W");
    assert_eq!(power_label(None), "\u{2014}");
    assert_eq!(fan_label(Some(0)), "off");
    assert_eq!(fan_label(Some(2925)), "2925 rpm");
    assert_eq!(battery_subtitle(&s), "71% \u{b7} Discharging");
    assert_eq!(
        sensor_subtitle(&s.temps[0], &s.control_sensor),
        "64.8 \u{b0}C of 120 \u{b0}C  \u{b7} fan curve input"
    );
    assert!(fan_is_ours(&s));
    assert!(profile_row_live(&s));
    let empty = Snapshot::default();
    assert_eq!(describe_fan(&empty), "unavailable");
    assert_eq!(profile_subtitle(&empty), "power limit and fan curve");
    assert_eq!(system_caption(&empty), "system");
    assert!(!profile_row_live(&empty));
}

#[test]
fn controls_are_shown_with_the_reason_they_are_dead() {
    let s = Snapshot::fetch(published());
    let row = charge_row(&s, false);
    assert!(!row.sensitive);
    assert_eq!(row.subtitle.as_deref(), Some("why"));
    let row = power_row(&s, false);
    assert_eq!((row.sensitive, row.upper, row.value), (true, Some(25), Some(15)));
    assert_eq!(power_row(&s, true).value, None, "not over an edit");
    let row = power_row(&Snapshot::default(), false);
    assert_eq!(row.subtitle.as_deref(), Some("unavailable on this machine"));

    assert_eq!(auto_index(&s.profiles, "mine"), 2);
    assert_eq!(auto_index(&s.profiles, ""), 0);
    assert_eq!(auto_choice(&s.profiles, 2), "mine");
    assert_eq!(auto_choice(&s.profiles, 0), "");
    assert_eq!(auto_choice(&s.profiles, 9), "");
    assert!(deletable(&s.profiles, 1, &s.saved_profiles));
    assert!(!deletable(&s.profiles, 0, &s.saved_profiles));
}

#[test]
fn a_control_is_held_until_its_value_comes_back() {
    let s = Snapshot::fetch(published());
    let c = Command::PowerLimit(15);
    assert_eq!(c.key(), "power");
    assert!(settled(&expected(&c), &observed(&s, c.key()), 0));
    let c = Command::PowerLimit(20);
    assert!(!settled(&expected(&c), &observed(&s, c.key()), 5_000));
    assert!(settled(&expected(&c), &observed(&s, c.key()), 5_001));
    assert_eq!(
        expected(&Command::AutoProfiles("a".to_string(), "b".to_string())),
        "a/b"
    );
    assert_eq!(
        Command::AutoProfiles(String::new(), String::new()).success_text(),
        "automatic switching off"
    );
    assert_eq!(Command::FanCurve(vec![]).key(), "fan");
    assert_eq!(
        Command::Profile("quiet".to_string()).success_text(),
        "profile quiet applied"
    );
    assert_eq!(describe("org.x.Failed: too hot: wait"), "too hot: wait");
    assert_eq!(describe("plain"), "plain");
    assert_eq!(describe("odd: "), "odd: ");
}

// Ticks of the daemon.

#[test]
fn the_direction_survives_blips() {
    let mut d = Direction::new();
    assert!(d.update(Some(60_000)));
    assert!(d.update(Some(59_000)), "a blip is no turn");
    assert!(d.update(None));
    assert!(!d.update(Some(58_000)));
    assert!(!d.update(Some(59_000)));
    assert!(!d.update(Some(57_000)));
    assert!(d.update(Some(59_000)));
}

#[test]
fn a_span_is_credited_only_where_the_duty_held() {
    let mut g = Govern::new();
    let seen = |from, to, duty, rising| {
        Some(Observation {
            from,
            to,
            duty,
            rising,
        })
    };
    assert_eq!(g.observe(Some(40_000), false, Some(0)), seen(40_000, 40_000, 0, true));
    assert_eq!(g.observe(Some(48_000), false, Some(0)), seen(40_000, 48_000, 0, true));
    assert_eq!(g.observe(Some(52_000), false, Some(60)), seen(52_000, 52_000, 60, true));
    assert_eq!(g.observe(Some(45_000), false, Some(60)), seen(52_000, 45_000, 60, false));
    assert_eq!(g.observe(Some(46_000), true, Some(60)), None);
    assert_eq!(g.observe(None, false, Some(60)), None);
    assert_eq!(g.observe(Some(46_000), false, None), None);
}

#[test]
fn profiles_are_applied_when_something_changed() {
    let known = Profile::built_ins();
    let mut state = State::default();
    state.profile_on_battery = Some("quiet".to_string());
    state.profile_on_ac = Some("gone".to_string());
    let mut p = Poller::new(Some("balanced".to_string()), Some(18));

    match p.startup(&known) {
        Plan::Apply(profile, log) => {
            assert_eq!(profile.name, "balanced");
            assert_eq!(log, "re-applying persisted profile balanced");
            assert_eq!(p.startup_override(&profile), Some(18));
        }
        other => panic!("{other:?}"),
    }
    assert_eq!(p.startup(&known), Plan::Nothing, "only once");

    assert_eq!(p.source_changed(Some(true), &state, &known), Plan::Nothing);
    assert_eq!(p.source_changed(None, &state, &known), Plan::Nothing);
    match p.source_changed(Some(false), &state, &known) {
        Plan::Apply(profile, log) => {
            assert_eq!(profile.name, "quiet");
            assert_eq!(log, "switched to battery; applying profile quiet");
        }
        other => panic!("{other:?}"),
    }
    assert_eq!(p.source_changed(Some(false), &state, &known), Plan::Nothing);
    assert_eq!(
        p.source_changed(Some(true), &state, &known),
        Plan::Unknown("switched to AC, but profile \"gone\" no longer exists".to_string())
    );

    let slider = ppd_code(Ppd::Performance);
    assert_eq!(p.follow(0, 3, &known), (Plan::Nothing, 3));
    assert_eq!(p.follow(slider, slider, &known), (Plan::Nothing, 0), "our own echo");
    match p.follow(slider, 1, &known) {
        (Plan::Apply(profile, log), 0) => {
            assert_eq!(profile.name, "performance");
            assert_eq!(log, "PPD switched to performance; following with profile performance");
        }
        other => panic!("{other:?}"),
    }
    assert_eq!(ppd_from_code(slider), Some(Ppd::Performance));
    assert_eq!(ppd_from_code(0), None);

    let mut q = Poller::new(Some("old".to_string()), None);
    assert_eq!(
        q.startup(&known),
        Plan::Unknown("persisted profile \"old\" is not one we know; ignoring".to_string())
    );
}

#[test]
fn power_corrections_are_bounded() {
    let mut p = Poller::new(None, None);
    for n in 1..=5 {
        assert!(p.may_correct());
        let log = p.correct(15, 33);
        assert_eq!(log.len(), if n == 5 { 2 } else { 1 });
        assert!(log[0].contains(&format!("correction {n} of 5")), "{log:?}");
    }
    assert!(!p.may_correct());

    assert!(!p.save_due(59_999, 4, false));
    assert!(!p.save_due(60_000, 4, true));
    assert!(!p.save_due(119_999, 4, false), "looked at a moment ago");
    assert!(p.save_due(120_000, 4, false));
    assert!(!p.save_due(180_000, 4, false), "nothing new");
    assert!(p.save_due(240_000, 5, false));
}

#[test]
fn a_profile_is_applied_in_order() {
    let mut p = Profile::quiet();
    assert_eq!(
        apply_steps(&p, true),
        vec![
            ApplyStep::Axis(Ppd::PowerSaver),
            ApplyStep::Power(15),
            ApplyStep::Curve
        ]
    );
    p.charge_limit = Some(80);
    assert_eq!(
        apply_steps(&p, false),
        vec![
            ApplyStep::Power(15),
            ApplyStep::Curve,
            ApplyStep::Charge(80)
        ]
    );
    assert_eq!(
        applied_text(&p),
        "profile quiet applied: ppd=power-saver pl1=15 W"
    );
}

#[test]
fn a_profile_is_applied_for_a_reason() {
    assert!(drives_ppd(Cause::Startup));
    assert!(drives_ppd(Cause::Source(true)));
    assert!(!drives_ppd(Cause::Slider), "no echo");
    for (cause, want) in [
        (Cause::Startup, "could not re-apply profile quiet: why"),
        (Cause::Source(true), "could not apply quiet on AC: why"),
        (Cause::Source(false), "could not apply quiet on battery: why"),
        (Cause::Slider, "could not follow PPD to quiet: why"),
    ] {
        assert_eq!(apply_failure_text(cause, "quiet", "why"), want);
    }
    let p = Profile::quiet();
    assert_eq!(
        override_text(&p, 18),
        "restoring your 18 W power limit over quiet's 15 W"
    );
}

#[test]
fn a_failure_ends_applying_a_profile() {
    let mut p = Profile::quiet();
    p.charge_limit = Some(80);
    let d = Poller::new(Some("quiet".to_string()), Some(18));
    let ok = || Ok(());
    let no = || Err("no".to_string());
    let at = |cause, results: &[Result<(), String>]| d.apply_next(cause, &p, results);
    let done = |lines: &[&str], record| ApplyNext::Done {
        log: lines.iter().map(|l| l.to_string()).collect(),
        record,
    };
    let applied = "profile quiet applied: ppd=power-saver pl1=15 W";
    let charge = "profile quiet: charge limit 80% failed: no";

    assert_eq!(
        at(Cause::Slider, &[]),
        ApplyNext::Do(ApplyStep::Power(15)),
        "PPD is not told"
    );
    assert_eq!(
        at(Cause::Slider, &[ok(), no()]),
        done(&["could not follow PPD to quiet: fan curve: no"], None)
    );
    assert_eq!(
        at(Cause::Slider, &[ok(), ok(), no()]),
        done(&[charge, applied], Some(15))
    );

    assert_eq!(
        at(Cause::Startup, &[]),
        ApplyNext::Do(ApplyStep::Axis(Ppd::PowerSaver))
    );
    assert_eq!(
        at(Cause::Startup, &[no()]),
        done(&["could not re-apply profile quiet: no"], None)
    );
    assert_eq!(
        at(Cause::Source(true), &[ok(), no()]),
        done(&["could not apply quiet on AC: power limit: no"], None)
    );
    assert_eq!(
        at(Cause::Source(false), &[ok(), ok(), ok(), ok()]),
        done(&[applied], Some(15))
    );
    let four = vec![ok(), ok(), ok(), ok()];
    assert_eq!(
        at(Cause::Startup, &four),
        ApplyNext::Do(ApplyStep::Power(18)),
        "the limit set by hand goes back on top"
    );
    let again = "restoring your 18 W power limit over quiet's 15 W";
    assert_eq!(
        at(Cause::Startup, &[ok(), ok(), ok(), ok(), ok()]),
        done(&[applied, again], Some(18))
    );
    assert_eq!(
        at(Cause::Startup, &[ok(), ok(), ok(), no(), no()]),
        done(
            &[charge, applied, again, "could not restore 18 W: no"],
            Some(15)
        )
    );
}

#[test]
fn enforcement_is_logged_when_it_is_news() {
    let moved = |from, to| Enforced::Corrected {
        from,
        to,
        floor: 88,
        celsius: 64_800,
    };
    assert_eq!(enforced_text(&moved(88, 88)), None);
    assert_eq!(
        enforced_text(&moved(0, 89)).as_deref(),
        Some("fan: 64.8 C puts the firmware floor at 88/255; moved 0 -> 89")
    );
    assert_eq!(
        enforced_text(&Enforced::ReleasedNoSensor { released: true }).as_deref(),
        Some(
            "fan: temperature became unreadable while under manual control; returned to EC \
             control: true"
        )
    );
    assert_eq!(
        enforced_text(&Enforced::ReleasedTooHot {
            celsius: 100_000,
            ceiling: Ceiling::default(),
            released: false
        })
        .as_deref(),
        Some(
            "fan: 100.0 C reached the 97.0 C (fallback; no usable temp*_crit) ceiling; the fan \
             belongs to firmware from here (ADR 0006 point 5). Returned to EC control: false"
        )
    );
    let failed = enforced_text(&Enforced::Failed(LeaseError::NoTemperature)).unwrap();
    assert!(failed.starts_with("fan: could not enforce the firmware floor: no readable"));
    let hot = enforced_text(&Enforced::ReleasedBatteryHot {
        celsius: 48_500,
        guard: BatteryGuard::from_crit(Some(49_900)),
        released: true,
    })
    .unwrap();
    assert!(hot.starts_with("fan: battery at 48.5 C is near its battery limit 49.9 C;"));

    let applied = Applied {
        requested: 40,
        target: 88,
        settled: 89,
        floor: 88,
    };
    assert_eq!(
        restored_text(&Ok(applied)),
        "fan: restored after resume at duty 89/255, raised from the requested 40 by the \
         firmware floor"
    );
    assert!(restored_text(&Err(LeaseError::NoTemperature)).contains("not restoring"));
    assert!(reclaimed_text(&Reclaimed::Nothing).is_empty());
    assert_eq!(
        reclaimed_text(&Reclaimed::From {
            was: FanMode::Manual,
            released: true
        }),
        vec![
            "fan was left under manual control by a previous instance; reclaiming".to_string(),
            "fan returned to EC control".to_string()
        ]
    );
}

#[test]
fn nothing_but_a_yes_authorizes() {
    let a = actions::SET_FAN;
    let why = || "why".to_string();
    assert_eq!(first(a, &Asked::Answered(true), false), Next::Allow);
    assert_eq!(first(a, &Asked::Answered(false), true), Next::Prompt);
    assert_eq!(
        first(a, &Asked::Answered(false), false),
        Next::Deny(
            "cannot bound the authentication prompt for org.fwhelper.set-fan: no runtime \
             handle. Refusing rather than waiting forever"
                .to_string()
        )
    );
    assert_eq!(
        first(a, &Asked::Unreachable(why()), true),
        Next::Deny("cannot reach polkit: why".to_string())
    );
    assert_eq!(
        first(a, &Asked::Unencodable(why()), true),
        Next::Deny("cannot encode caller name: why".to_string())
    );
    assert_eq!(
        first(a, &Asked::Failed(why()), true),
        Next::Deny("polkit check failed: why".to_string())
    );

    assert_eq!(verdict(a, &Prompt::Asked(Asked::Answered(true))), Ok(()));
    assert_eq!(
        verdict(a, &Prompt::Asked(Asked::Answered(false))),
        Err("not authorized for org.fwhelper.set-fan".to_string())
    );
    assert!(verdict(a, &Prompt::TimedOut)
        .unwrap_err()
        .contains("within 60s for org.fwhelper.set-fan"));
    assert_eq!(
        verdict(a, &Prompt::Asked(Asked::Failed(why()))),
        Err("polkit check failed: why".to_string())
    );
    assert_eq!(
        verdict(a, &Prompt::Broken(why())),
        Err("polkit check did not complete: why".to_string())
    );
}

#[test]
fn the_fan_is_refused_out_of_hand() {
    let mut w = Watchdog::new();
    w.beat(1_000);
    assert_eq!(refuse_fan(&Cap::Yes, &w, 6_000, false), None);
    match refuse_fan(&Cap::Yes, &w, 7_400, false) {
        Some(Refusal::Unminded(why)) => assert!(why.contains("has not run for 6s"), "{why}"),
        other => panic!("{other:?}"),
    }
    assert_eq!(
        refuse_fan(&Cap::No("no fan".to_string()), &w, 7_400, false),
        Some(Refusal::NotSupported("no fan".to_string()))
    );
}

#[test]
fn a_set_duty_is_logged() {
    let raised = Applied {
        requested: 40,
        target: 88,
        settled: 89,
        floor: 88,
    };
    assert_eq!(
        duty_text(&raised, ":1.5", Some(64_800)),
        "fan: :1.5 asked for duty 40/255; raised to 89 to stay at or above the firmware floor \
         (88/255 at 64.8 C)"
    );
    let plain = Applied {
        requested: 120,
        target: 120,
        settled: 119,
        floor: 0,
    };
    assert_eq!(duty_text(&plain, ":1.5", None), "fan set to duty 119/255 by :1.5");
}

#[test]
fn the_watchdog_says_what_it_did() {
    assert!(check_log(&Check::Fine).is_empty());
    let c = |first, released| Check::Intervened {
        first,
        silent_ms: 6_450,
        released,
    };
    assert_eq!(
        check_log(&c(true, true)),
        vec![
            "WATCHDOG: no heartbeat for 6.5s while holding the fan; returning it to the EC",
            "WATCHDOG: fan returned to EC control"
        ]
    );
    assert_eq!(
        check_log(&c(false, false)),
        vec!["WATCHDOG: could not return the fan to EC control; will retry"]
    );
}

#[test]
fn the_command_line_prints_what_was_published() {
    let s = Snapshot::fetch(published());
    assert_eq!(
        report::status(&s),
        vec![
            "Capabilities                                    (via fw-helperd)",
            "  - charge limit       unavailable \u{2014} why",
            "  + fan control        available",
            "  + package power      available",
            "  + platform profile   available",
            "  + power limit        available",
            "",
            "Telemetry",
            "  package power      24.7 W",
            "  fan                2925 rpm",
            "  battery            71% (Discharging)",
            "",
            "Temperatures",
            "  * peci-temp                64.8 C   (crit 119.8)",
            "  \u{20} a                        41.0 C   (crit 87.8)",
            "",
            "  * = sensor a fan curve would follow",
        ]
    );
    assert_eq!(report::watch_header(), "     t      power       fan        cpu");
    assert_eq!(
        report::watch_line(7, &s),
        "    7s     24.7 W  2925 rpm     64.8 C"
    );
    assert_eq!(
        report::watch_line(12, &Snapshot::default()),
        "   12s          -         -          -"
    );
    assert_eq!(report::version_warning(1), None);
    assert_eq!(
        report::version_warning(2).unwrap(),
        "warning: daemon speaks interface v2, this client understands v1; output may be \
         incomplete"
    );
}

#[test]
fn the_command_line_prints_what_it_reads_itself() {
    assert_eq!(
        report::direct_capabilities(&caps()),
        vec![
            "Capabilities                                    (direct sysfs)",
            "  + fan control        available",
            "  + power limit        available",
            "  - charge limit       unavailable \u{2014} why",
            "  + platform profile   available",
            "  + package power      available",
        ]
    );
    let mut t = sample();
    t.package_watts = None;
    t.battery_status = None;
    t.temps[0].label = "a sensor with a long name".to_string();
    assert_eq!(
        report::direct_readings(&t),
        vec![
            "",
            "Telemetry",
            "  package power      <unavailable \u{2014} run as root?>",
            "  fan                2925 rpm",
            "",
            "Temperatures",
            "  \u{20} a sensor with a long name   40.0 C   (crit unknown)",
            "  * peci-temp                64.8 C   (crit 119.8)",
            "  \u{20} a                        41.0 C   (crit 87.8)",
            "",
            "  * = sensor a fan curve would follow",
        ]
    );
    t.temps.clear();
    assert_eq!(report::direct_readings(&t).len(), 4);
}

#[test]
fn the_profile_axis_speaks_both_vocabularies() {
    let ppd = ProfileAxis::connect(true);
    let acpi = ProfileAxis::disconnected();
    assert_eq!(ppd.backend(false), Backend::Ppd);
    assert_eq!(acpi.backend(true), Backend::DirectSysfs);
    assert_eq!(acpi.backend(false), Backend::Absent);
    assert_eq!(acpi.backend(false).text(), "none");
    assert_eq!(ppd.active(Some("power-saver")), Some(Ppd::PowerSaver));
    assert_eq!(ppd.active(Some("low-power")), None);
    assert_eq!(acpi.active(Some("low-power\n")), Some(Ppd::PowerSaver));
    assert_eq!(acpi.active(Some("quiet")), Some(Ppd::PowerSaver));
    assert_eq!(acpi.active(None), None);
    assert_eq!(ppd.set(Ppd::PowerSaver), Switch::AskPpd("power-saver"));
    assert_eq!(
        acpi.set(Ppd::PowerSaver),
        Switch::Write(FileOp::Write(
            "sys/firmware/acpi/platform_profile".to_string(),
            "low-power".to_string()
        ))
    );
    assert_eq!(ppd.failure(Ppd::Balanced, "no"), "PPD refused balanced: no");
    assert_eq!(
        acpi.failure(Ppd::Balanced, "no"),
        "cannot write platform_profile: no"
    );
}

#[test]
fn a_typed_name_is_tidied() {
    assert_eq!(save_name("  My Profile \t").as_deref(), Some("my profile"));
    assert_eq!(save_name("\u{c4}").as_deref(), Some("\u{e4}"));
    assert_eq!(save_name(" \n "), None);
    assert_eq!(save_name(""), None);
}

#[test]
fn cpu_time_is_read_and_shared_out() {
    assert_eq!(total_ticks("cpu  10 20 30\ncpu0 1 2 3\n"), Some(60));
    assert_eq!(total_ticks("cpu0 1 2\n"), None);
    assert_eq!(total_ticks("cpu 1 x\n"), None);
    assert_eq!(total_ticks(""), None);

    let line = "42 (a (b) c) S 1 2 3 4 5 6 7 8 9 10 100 23 0 0";
    let s = parse_stat(line).unwrap();
    assert_eq!((s.name.as_str(), s.ticks), ("a (b) c", 123));
    assert_eq!(parse_stat("42 (a) S 1 2"), None);
    assert_eq!(parse_stat("42 a S"), None);

    let at = |pid: u32, ticks: u64| {
        (
            pid,
            Sample {
                name: format!("p{pid}"),
                ticks,
            },
        )
    };
    let before = vec![at(1, 10), at(2, 10), at(3, 10)];
    let after = vec![at(1, 15), at(2, 40), at(3, 10), at(4, 1000)];
    let out = shares(&before, &after, 100);
    let got: Vec<(u32, u64)> = out.iter().map(|s| (s.pid, s.ticks)).collect();
    assert_eq!(got, vec![(2, 30), (1, 5)]);
    assert_eq!(out[0].total_ticks, 100);
    assert!(shares(&before, &after, 0).is_empty());
}
