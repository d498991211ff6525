//! The thermal rules: battery guard, ceiling, boards, curves and the firmware floor.

use fw_helper::battery::FALLBACK_CRIT_C;
use fw_helper::board::{
    amd_ryzen_ai_300, identify, identify_name, intel_core_ultra_3, profiles, Board,
    INTEL_DUTY_RPM, INTEL_FIRMWARE_CURVE,
};
use fw_helper::ceiling::{CEILING_MARGIN_C, FALLBACK_CEILING_C, MAX_CEILING_C, TJMAX_C};
use fw_helper::curve::{RAMP_DOWN_PER_TICK, RAMP_UP_PER_TICK};
use fw_helper::floor::{duty_for_rpm, FULL_DUTY_ABOVE_C};
use fw_helper::{
    BatteryGuard, Ceiling, Curve, CurveEngine, CurveError, FirmwareFloor, Point,
    LEAST_DUTY, STICTION_DUTY,
};

/// A temperature as the library takes it: thousandths of a degree, nothing where the number
/// is not finite.
fn t(celsius: f64) -> Option<i64> {
    if celsius.is_finite() {
        Some((celsius * 1000.0).round() as i64)
    } else {
        None
    }
}

fn c(celsius: f64) -> i64 {
    (celsius * 1000.0).round() as i64
}

fn crit(celsius: Option<f64>) -> Option<i64> {
    celsius.and_then(t)
}

// Battery guard.

#[test]
fn does_not_fire_at_temperatures_measured_under_full_load() {
    let g = BatteryGuard::from_crit(crit(Some(49.9)));
    assert_eq!(g.floor_duty(t(33.9)), 0);
    assert!(!g.exceeded_by(t(33.9)));
    assert_eq!(g.floor_duty(t(31.9)), 0);
}

#[test]
fn asks_for_airflow_as_it_approaches_the_limit() {
    let g = BatteryGuard::from_crit(crit(Some(49.9)));
    assert_eq!(g.floor_duty(Some(g.ramp_start())), 0);

    let mid = g.floor_duty(t(45.0));
    assert!(mid >= STICTION_DUTY, "got {mid}");
    assert!(mid < u8::MAX);
    let mut previous = 0;
    for x in [42.0, 43.0, 44.0, 45.0, 46.0, 47.0, 48.0] {
        let d = g.floor_duty(t(x));
        assert!(d >= previous, "floor fell from {previous} to {d} at {x} C");
        previous = d;
    }
}

#[test]
fn gives_up_manual_control_before_crit_not_at_it() {
    let g = BatteryGuard::from_crit(crit(Some(49.9)));
    assert!(g.release_above() < c(49.9));
    assert!(g.exceeded_by(t(48.0)));
    assert!(g.exceeded_by(t(49.9)));
    assert_eq!(g.floor_duty(t(48.0)), u8::MAX);
}

#[test]
fn implausible_thresholds_fall_back() {
    for bad in [None, Some(f64::NAN), Some(-273.15), Some(0.0), Some(120.0)] {
        assert_eq!(
            BatteryGuard::from_crit(crit(bad)).crit(),
            FALLBACK_CRIT_C,
            "{bad:?}"
        );
    }
}

#[test]
fn a_missing_reading_does_not_mean_full_duty() {
    let g = BatteryGuard::from_crit(crit(Some(49.9)));
    assert_eq!(g.floor_duty(t(f64::NAN)), 0);
    assert!(!g.exceeded_by(t(f64::NAN)));
}

#[test]
fn the_battery_ramp_is_exact() {
    let g = BatteryGuard::from_crit(Some(50_000));
    // Three of six degrees up the ramp: half of full duty, rounded up.
    assert_eq!(g.floor_duty(Some(45_000)), 128);
    assert_eq!(g.floor_duty(Some(42_001)), LEAST_DUTY);
    assert_eq!(g.floor_duty(Some(47_999)), 255);
    assert_eq!(g.text(), "battery limit 50.0 C");
    assert_eq!(BatteryGuard::default(), g);
}

// Ceiling.

#[test]
fn the_unset_sensor_value_never_becomes_a_ceiling() {
    let x = Ceiling::from_crit(crit(Some(-273.15)));
    assert_eq!(x.celsius(), FALLBACK_CEILING_C);
    assert!(!x.is_derived());
}

#[test]
fn implausible_values_fall_back_rather_than_being_trusted() {
    for bad in [
        None,
        Some(f64::NAN),
        Some(-1.0),
        Some(151.0),
        Some(f64::INFINITY),
    ] {
        let x = Ceiling::from_crit(crit(bad));
        assert_eq!(x.celsius(), FALLBACK_CEILING_C, "for {bad:?}");
        assert!(!x.is_derived());
    }
}

#[test]
fn derives_below_the_sensors_critical_point() {
    let x = Ceiling::from_crit(crit(Some(87.85)));
    assert!(x.is_derived());
    assert!(x.celsius() < c(87.85), "must intervene before crit, not at it");
    assert_eq!(x.celsius(), c(87.85) - CEILING_MARGIN_C);
}

#[test]
fn a_very_high_critical_point_is_capped() {
    let x = Ceiling::from_crit(crit(Some(119.85)));
    assert_eq!(x.celsius(), MAX_CEILING_C);
}

#[test]
fn the_fallback_is_more_cautious_than_the_cap() {
    let (fallback, cap) = (FALLBACK_CEILING_C, MAX_CEILING_C);
    assert!(fallback < cap);
}

#[test]
fn does_not_fire_at_temperatures_this_machine_actually_reaches() {
    for ceiling in [
        Ceiling::from_crit(crit(Some(119.85))),
        Ceiling::from_crit(None),
    ] {
        assert!(!ceiling.exceeded_by(t(76.8)), "{}", ceiling.text());
        assert!(
            !ceiling.exceeded_by(t(92.8)),
            "{} fires in normal operation",
            ceiling.text()
        );
    }
}

#[test]
fn the_cap_is_the_cpus_own_throttle_point() {
    assert_eq!(MAX_CEILING_C, TJMAX_C);
    assert!(Ceiling::from_crit(crit(Some(119.85))).exceeded_by(Some(TJMAX_C)));
}

#[test]
fn an_unreadable_temperature_counts_as_too_hot() {
    let x = Ceiling::from_crit(crit(Some(119.85)));
    assert!(x.exceeded_by(t(f64::NAN)));
}

#[test]
fn fires_above_the_threshold() {
    let x = Ceiling::from_crit(crit(Some(119.85)));
    assert!(x.exceeded_by(Some(MAX_CEILING_C)));
    assert!(x.exceeded_by(t(110.0)));
}

#[test]
fn a_ceiling_says_whether_it_is_a_fallback() {
    assert_eq!(Ceiling::from_crit(Some(87_850)).text(), "72.8 C");
    assert_eq!(Ceiling::from_crit(Some(90_000)).text(), "75.0 C");
    assert_eq!(
        Ceiling::default().text(),
        "97.0 C (fallback; no usable temp*_crit)"
    );
}

// Boards.

#[test]
fn both_amd_boards_are_measured() {
    for name in ["FRANMGCP05", "FRANMGCP09"] {
        assert!(
            matches!(identify_name(name), Board::Measured(p) if p.name == amd_ryzen_ai_300().name),
            "{name}"
        );
    }
}

#[test]
fn the_intel_pro_is_measured() {
    assert!(matches!(
        identify_name("FRANMJCP07"),
        Board::Measured(p) if p.name == intel_core_ultra_3().name
    ));
}

#[test]
fn an_unmeasured_sibling_is_family_not_measured() {
    match identify_name("FRANMGCP11") {
        Board::Family(p, name) => {
            assert_eq!(p.name, amd_ryzen_ai_300().name);
            assert_eq!(name, "FRANMGCP11");
        }
        other => panic!("expected a family match, got {other:?}"),
    }
}

#[test]
fn an_older_framework_board_is_not_guessed_at() {
    for name in ["FRANMACP04", "FRANDGCP04", "FRANMDCP08", "", "Standard"] {
        assert!(
            matches!(identify_name(name), Board::Unknown),
            "{name:?} should be unknown"
        );
    }
}

fn ascending_duty(table: &[(u8, u16)]) -> bool {
    table
        .windows(2)
        .all(|w| w[0].0 < w[1].0 && w[0].1 <= w[1].1)
}

fn ascending_curve(table: &[(i64, u16)]) -> bool {
    table
        .windows(2)
        .all(|w| w[0].0 < w[1].0 && w[0].1 <= w[1].1)
}

#[test]
fn every_table_is_monotonic() {
    for p in profiles() {
        assert!(ascending_duty(p.duty_rpm), "{} duty table", p.name);
        assert!(
            ascending_curve(p.firmware_curve),
            "{} firmware curve",
            p.name
        );
    }
}

#[test]
fn the_amd_fan_table_never_exceeds_either_board() {
    let b05: [(u8, u16); 4] = [(51, 2155), (128, 4890), (179, 6261), (255, 7864)];
    let b09: [(u8, u16); 4] = [(51, 2155), (128, 4890), (179, 6182), (255, 7927)];
    for ((d, a), (_, b)) in b05.iter().zip(b09.iter()) {
        let table = amd_ryzen_ai_300()
            .duty_rpm
            .iter()
            .find(|(duty, _)| duty == d)
            .map(|(_, rpm)| *rpm)
            .expect("measured point present");
        assert!(table <= *a && table <= *b, "duty {d}: {table} vs {a}/{b}");
    }
}

#[test]
fn the_amd_floor_is_never_quieter_than_firmware_at_the_step() {
    let curve = amd_ryzen_ai_300().firmware_curve;
    let off = curve.iter().position(|&(x, _)| x == c(49.9)).unwrap();
    assert_eq!(curve[off].1, 0);
    assert!(
        curve[off + 1].0 - curve[off].0 < c(0.15),
        "step must be immediate"
    );
    assert_eq!(curve[off + 1].1, 2265);
}

#[test]
fn a_board_says_how_sure_it_is() {
    assert_eq!(
        identify(Some("FRANMGCP05\n")).text(),
        "Framework 13 (AMD Ryzen AI 300) (measured)"
    );
    assert_eq!(
        identify_name("FRANMJCP99").text(),
        "FRANMJCP99, treated as Framework 13 Pro (Intel Core Ultra Series 3) - same family, \
         not itself measured"
    );
    assert_eq!(identify(None).text(), "unrecognised board");
    assert!(identify_name("FRANMJCP99").profile().is_some());
    assert!(identify(None).profile().is_none());
}

// Curves.

fn p(celsius: f64, duty: u8) -> Point {
    Point {
        celsius: c(celsius),
        duty,
    }
}

#[test]
fn rejects_curves_that_cannot_be_meant() {
    assert_eq!(
        Curve::new(vec![p(50.0, 0)]).unwrap_err(),
        CurveError::TooFewPoints
    );
    assert!(matches!(
        Curve::new(vec![p(60.0, 0), p(50.0, 90)]).unwrap_err(),
        CurveError::NotAscending { at: 1 }
    ));
    assert!(matches!(
        Curve::new(vec![p(50.0, 90), p(60.0, 40)]).unwrap_err(),
        CurveError::DutyFalls { at: 1 }
    ));
    assert!(matches!(
        Curve::new(vec![p(50.0, 0), p(60.0, 15)]).unwrap_err(),
        CurveError::UnturnableDuty { at: 1, duty: 15 }
    ));
    assert!(matches!(
        Curve::new(vec![p(-5.0, 0), p(60.0, 90)]).unwrap_err(),
        CurveError::ImplausibleTemperature { at: 0, .. }
    ));
}

#[test]
fn errors_say_what_to_do_about_it() {
    let msg = CurveError::UnturnableDuty { at: 2, duty: 12 }.text();
    assert!(msg.contains("use 0"), "got: {msg}");
    let msg = CurveError::DutyFalls { at: 1 }.text();
    assert!(msg.contains("firmware floor"), "got: {msg}");
}

#[test]
fn curve_errors_name_the_point() {
    assert_eq!(
        CurveError::ImplausibleTemperature {
            at: 3,
            celsius: 130_250
        }
        .text(),
        "point 3 is at 130.2 C, outside the 0-120 C a fan curve can sensibly describe"
    );
    assert_eq!(
        CurveError::NotAscending { at: 1 }.text(),
        "point 1 is not warmer than the one before it; points must ascend"
    );
    assert_eq!(
        CurveError::TooFewPoints.text(),
        "a curve needs at least two points"
    );
    assert_eq!(
        CurveError::UnturnableDuty { at: 2, duty: 12 }.text(),
        "point 2 asks for duty 12, which cannot turn the fan: use 0 for a stopped fan or at \
         least 30 for a turning one"
    );
}

#[test]
fn interpolates_between_points_and_flattens_beyond_them() {
    let x = Curve::new(vec![p(50.0, 0), p(60.0, 100)]).unwrap();
    assert_eq!(x.duty_at(t(40.0)), 0, "flat below the first point");
    assert_eq!(x.duty_at(t(50.0)), 0);
    assert_eq!(x.duty_at(t(55.0)), 50, "halfway");
    assert_eq!(x.duty_at(t(60.0)), 100);
    assert_eq!(x.duty_at(t(90.0)), 100, "flat above the last point");
}

#[test]
fn a_curve_rounds_to_the_nearest_duty() {
    let x = Curve::new(vec![p(50.0, 30), p(60.0, 35)]).unwrap();
    assert_eq!(x.duty_at(t(50.9)), 30);
    assert_eq!(x.duty_at(t(51.0)), 31, "a half goes up");
    assert_eq!(x.duty_at(None), 255);
    assert_eq!(x.points(), &[p(50.0, 30), p(60.0, 35)]);
}

#[test]
fn the_default_curve_is_quieter_than_firmware_on_the_way_down() {
    let x = Curve::default_quiet();
    assert_eq!(x.duty_at(t(55.0)), 0);
    assert_eq!(x.duty_at(t(50.0)), 0);
    assert_eq!(x.duty_at(t(100.0)), 255);
}

#[test]
fn the_default_curve_is_not_louder_than_firmware_under_load() {
    let x = Curve::default_quiet();
    let at_78 = x.duty_at(t(78.8));
    assert!((80..=100).contains(&at_78), "duty {at_78} at 78.8 C");
}

#[test]
fn rising_temperature_is_followed_at_once() {
    let mut e = CurveEngine::new(Curve::new(vec![p(50.0, 0), p(100.0, 250)]).unwrap());
    e.tick(t(50.0));
    let mut duty = 0;
    for _ in 0..40 {
        duty = e.tick(t(70.0));
    }
    assert_eq!(
        duty,
        Curve::new(vec![p(50.0, 0), p(100.0, 250)])
            .unwrap()
            .duty_at(t(70.0))
    );
}

#[test]
fn a_wobbling_sensor_does_not_make_the_fan_hunt() {
    let mut e = CurveEngine::new(Curve::new(vec![p(50.0, 30), p(90.0, 250)]).unwrap());
    for _ in 0..20 {
        e.tick(t(70.0));
    }
    let settled = e.tick(t(70.0));
    for _ in 0..10 {
        assert_eq!(
            e.tick(t(69.0)),
            settled,
            "1 C of jitter must not move the fan"
        );
        assert_eq!(e.tick(t(70.0)), settled);
    }
}

#[test]
fn a_real_fall_is_followed_once_past_the_deadband() {
    let mut e = CurveEngine::new(Curve::new(vec![p(50.0, 30), p(90.0, 250)]).unwrap());
    for _ in 0..40 {
        e.tick(t(70.0));
    }
    let hot = e.tick(t(70.0));
    let mut duty = hot;
    for _ in 0..60 {
        duty = e.tick(t(60.0));
    }
    assert!(duty < hot, "should have come down from {hot}, got {duty}");
}

#[test]
fn the_fan_never_steps_audibly() {
    let mut e = CurveEngine::new(Curve::new(vec![p(40.0, 0), p(41.0, 255)]).unwrap());
    let mut previous = e.tick(t(40.0));
    for _ in 0..40 {
        let d = e.tick(t(100.0));
        assert!(
            d.abs_diff(previous) <= RAMP_UP_PER_TICK,
            "jumped {previous} -> {d}"
        );
        previous = d;
    }
    for _ in 0..80 {
        let d = e.tick(t(0.0));
        let stopping = d == 0 && previous < STICTION_DUTY + RAMP_DOWN_PER_TICK;
        assert!(
            stopping || d.abs_diff(previous) <= RAMP_UP_PER_TICK.max(RAMP_DOWN_PER_TICK),
            "jumped {previous} -> {d}"
        );
        previous = d;
    }
    assert_eq!(previous, 0, "should have reached a stop");
}

#[test]
fn ramping_down_stops_the_fan_rather_than_creeping_through_stiction() {
    let mut e = CurveEngine::new(Curve::new(vec![p(40.0, 0), p(80.0, 200)]).unwrap());
    for _ in 0..40 {
        e.tick(t(80.0));
    }
    let mut duty = 255;
    for _ in 0..200 {
        duty = e.tick(t(20.0));
        if duty == 0 {
            break;
        }
        assert!(
            duty >= STICTION_DUTY,
            "settled at {duty}, which turns nothing"
        );
    }
    assert_eq!(duty, 0);
}

#[test]
fn an_unreadable_sensor_asks_for_everything_and_forgets_its_state() {
    let mut e = CurveEngine::new(Curve::default_quiet());
    e.tick(t(60.0));
    assert_eq!(e.tick(t(f64::NAN)), u8::MAX);
    assert_eq!(e.tick(t(40.0)), 0);
}

#[test]
fn ramps_by_exact_steps() {
    let mut e = CurveEngine::new(Curve::new(vec![p(40.0, 0), p(80.0, 200)]).unwrap());
    assert_eq!(e.tick(t(60.0)), 100, "the first tick is where the curve is");
    assert_eq!(e.tick(t(80.0)), 112);
    assert_eq!(e.tick(t(80.0)), 124);
    assert_eq!(e.tick(t(60.0)), 120);
    e.set_curve(Curve::new(vec![p(40.0, 0), p(80.0, 255)]).unwrap());
    assert_eq!(e.tick(t(60.0)), 128, "a new curve keeps the ramp");
    assert_eq!(e.curve().points()[1].duty, 255);
    e.reset();
    assert_eq!(e.tick(t(80.0)), 255, "a reset does not");
}

// Firmware floor.

#[test]
fn idle_allows_a_silent_fan() {
    let f = FirmwareFloor::new();
    assert_eq!(f.floor_duty(t(30.0)), 0);
    assert_eq!(f.floor_duty(t(43.9)), 0);
    assert_eq!(f.floor_duty(t(44.9)), 0);
}

#[test]
fn floor_tracks_the_measured_ec_curve() {
    let f = FirmwareFloor::new();
    let d = f.floor_duty(t(64.8));
    assert!((78..=90).contains(&d), "floor at 64.8 C was {d}");
    let d = f.floor_duty(t(53.9));
    assert!((51..=65).contains(&d), "floor at 53.9 C was {d}");
}

#[test]
fn the_floor_rises_with_temperature() {
    let f = FirmwareFloor::new();
    let mut previous = 0;
    for x in [40.0, 50.0, 55.0, 60.0, 65.0, 70.0, 75.0, 80.0, 85.0] {
        let d = f.floor_duty(t(x));
        assert!(d >= previous, "floor fell from {previous} to {d} at {x} C");
        previous = d;
    }
}

/// Forward lookup, only used to check that `duty_for_rpm` did not round down.
fn interpolate_duty_rpm(duty: u8) -> f64 {
    let last = INTEL_DUTY_RPM[INTEL_DUTY_RPM.len() - 1];
    if duty >= last.0 {
        return f64::from(last.1);
    }
    for w in INTEL_DUTY_RPM.windows(2) {
        let ((d0, r0), (d1, r1)) = (w[0], w[1]);
        if duty <= d1 {
            let x = (f64::from(duty) - f64::from(d0)) / (f64::from(d1) - f64::from(d0));
            return f64::from(r0) + (f64::from(r1) - f64::from(r0)) * x.clamp(0.0, 1.0);
        }
    }
    f64::from(last.1)
}

#[test]
fn rounds_up_never_down() {
    for rpm in [1u16, 1108, 1500, 2000, 2700, 3000, 3500] {
        let d = duty_for_rpm(rpm);
        let produced = interpolate_duty_rpm(d);
        assert!(
            produced >= f64::from(rpm) - 0.5,
            "duty {d} produces {produced} rpm, short of {rpm}"
        );
    }
}

#[test]
fn a_speed_is_inverted_exactly() {
    assert_eq!(duty_for_rpm(0), 0);
    assert_eq!(duty_for_rpm(1107), 30);
    assert_eq!(duty_for_rpm(1108), 31);
    assert_eq!(duty_for_rpm(2925), 86);
    assert_eq!(duty_for_rpm(5200), 180);
    assert_eq!(duty_for_rpm(5201), 255);
}

#[test]
fn never_offers_a_duty_that_cannot_turn_the_fan() {
    let f = FirmwareFloor::new();
    for x in [46.0, 48.0, 50.0, 52.0] {
        let d = f.floor_duty(t(x));
        assert!(
            d == 0 || d >= STICTION_DUTY,
            "floor at {x} C was {d}, which cannot turn the fan"
        );
    }
}

#[test]
fn an_unreadable_sensor_demands_full_duty() {
    let f = FirmwareFloor::new();
    assert_eq!(f.floor_duty(t(f64::NAN)), 255);
}

#[test]
fn very_hot_means_full_duty() {
    let f = FirmwareFloor::new();
    assert_eq!(f.floor_duty(Some(FULL_DUTY_ABOVE_C)), 255);
    assert_eq!(f.floor_duty(t(110.0)), 255);
    assert!(f.floor_duty(t(85.0)) > f.floor_duty(t(76.8)));
}

#[test]
fn full_duty_is_reached_before_any_ceiling_releases_the_fan() {
    let (full, fallback, cap) = (FULL_DUTY_ABOVE_C, FALLBACK_CEILING_C, MAX_CEILING_C);
    assert!(full < fallback);
    assert!(full < cap);

    let f = FirmwareFloor::new();
    assert_eq!(f.floor_duty(Some(FALLBACK_CEILING_C)), 255);
}

#[test]
fn the_model_is_exact_at_and_between_points() {
    let f = FirmwareFloor::new();
    assert_eq!(f.modelled_rpm(t(53.9)), 2020);
    assert_eq!(f.modelled_rpm(t(49.4)), 1010);
    assert_eq!(f.modelled_rpm(t(76.8)), 3100);
    assert_eq!(f.modelled_rpm(t(85.9)), 4150);
    assert_eq!(f.modelled_rpm(t(95.0)), u16::MAX);
    assert_eq!(f.floor_duty(t(53.9)), 58);
    assert_eq!(f.floor_duty(t(64.8)), 88);
}

#[test]
fn a_direct_observation_beats_the_model() {
    let mut f = FirmwareFloor::new();
    let modelled = f.floor_duty(t(48.0));
    f.observe(t(48.0), 90, true);
    assert!(f.floor_duty(t(48.0)) > modelled);
    assert_eq!(f.observed_duty(t(48.0)), Some(90));
}

#[test]
fn within_a_bucket_a_quiet_sample_does_not_undo_a_loud_one() {
    let mut f = FirmwareFloor::new();
    f.observe(t(48.0), 90, true);
    let learned = f.floor_duty(t(48.0));
    f.observe(t(48.0), 0, true);
    assert_eq!(f.floor_duty(t(48.0)), learned);
}

#[test]
fn firmware_running_the_fan_off_is_an_answer_not_a_gap() {
    let mut f = FirmwareFloor::new();
    assert!(
        f.floor_duty(t(60.0)) > 0,
        "model should demand airflow at 60 C"
    );
    f.observe(t(60.0), 0, true);
    assert_eq!(f.floor_duty(t(60.0)), 0, "observed silence must be honoured");
}

#[test]
fn a_fast_ramp_fills_every_bucket_it_crossed() {
    let mut f = FirmwareFloor::new();
    f.observe_span(t(42.9), t(64.8), 0, true);
    for x in [44.0, 48.0, 52.0, 56.0, 60.0, 64.0] {
        assert_eq!(f.observed_duty(t(x)), Some(0), "bucket at {x} C not filled");
        assert_eq!(f.floor_duty(t(x)), 0, "floor at {x} C should permit silence");
    }
    assert_eq!(f.observed_duty(t(70.0)), None);
}

#[test]
fn a_span_never_lowers_a_louder_observation() {
    let mut f = FirmwareFloor::new();
    f.observe(t(50.0), 120, true);
    f.observe_span(t(42.0), t(60.0), 0, true);
    assert_eq!(f.observed_duty(t(50.0)), Some(120), "quiet must not undo loud");
    assert_eq!(f.observed_duty(t(58.0)), Some(0));
}

#[test]
fn observations_survive_a_round_trip() {
    let mut a = FirmwareFloor::new();
    a.observe_span(t(42.0), t(64.0), 0, true);
    a.observe(t(70.0), 90, true);
    let saved = a.observations();
    assert!(!saved.is_empty());

    let mut b = FirmwareFloor::new();
    b.restore(&saved);
    for x in [44.0, 52.0, 60.0, 64.0, 70.0] {
        assert_eq!(b.floor_duty(t(x)), a.floor_duty(t(x)), "differs at {x} C");
    }
    assert_eq!(b.observations(), saved);
}

#[test]
fn restoring_nonsense_does_not_produce_a_screaming_fan() {
    let mut f = FirmwareFloor::new();
    f.restore(&vec![(c(500.0), 255), (c(-40.0), 255), (c(f64::NAN), 255)]);
    assert!(f.observed_duty(t(108.0)).is_none());
    assert_eq!(f.floor_duty(t(40.0)), 0);
}

#[test]
fn the_revision_only_moves_when_something_changes() {
    let mut f = FirmwareFloor::new();
    assert_eq!(f.revision(), 0);
    f.observe(t(60.0), 90, true);
    let after = f.revision();
    assert!(after > 0);
    f.observe(t(60.0), 10, true);
    assert_eq!(f.revision(), after);
    f.observe(t(60.0), 200, false);
    assert_eq!(f.revision(), after);
}

#[test]
fn cooling_observations_are_discarded() {
    let mut f = FirmwareFloor::new();
    f.observe(t(61.9), 92, false);
    assert_eq!(f.observed_duty(t(61.9)), None, "cooling must not be recorded");
    f.observe(t(61.9), 0, true);
    assert_eq!(f.floor_duty(t(61.9)), 0);
}

#[test]
fn the_floor_beats_the_ec_at_every_measured_point() {
    let f = FirmwareFloor::new();
    for (celsius, ec_rpm) in INTEL_FIRMWARE_CURVE {
        if ec_rpm == 0 {
            continue;
        }
        let duty = f.floor_duty(Some(celsius));
        let ours = interpolate_duty_rpm(duty);
        assert!(
            ours >= f64::from(ec_rpm),
            "at {celsius} the EC runs {ec_rpm} rpm but our floor of {duty}/255 produces only \
             {ours:.0} rpm"
        );
    }
}

#[test]
fn clamp_reports_whether_it_bit() {
    let f = FirmwareFloor::new();
    assert_eq!(f.clamp(0, t(40.0)), (0, false));
    let (duty, clamped) = f.clamp(0, t(64.8));
    assert!(clamped);
    assert!(duty >= 78, "got {duty}");
}

#[test]
fn observations_outside_the_bucket_range_are_ignored_not_panicking() {
    let mut f = FirmwareFloor::new();
    f.observe(t(-40.0), 200, true);
    f.observe(t(500.0), 200, true);
    f.observe(t(f64::NAN), 200, true);
    assert_eq!(f.floor_duty(t(40.0)), 0);
}

#[test]
fn the_ceiling_no_longer_fires_where_the_machine_actually_operates() {
    let full = FULL_DUTY_ABOVE_C;
    assert!(full > c(92.8));
}

#[test]
fn a_span_with_one_end_untracked_records_the_other() {
    let mut f = FirmwareFloor::new();
    f.observe_span(t(20.0), t(36.0), 50, true);
    assert_eq!(f.observations(), vec![(36_000, 50)]);
    f.observe_span(None, t(50.0), 60, true);
    assert_eq!(f.observations(), vec![(36_000, 50), (50_000, 60)]);
    assert_eq!(f.revision(), 2);
    assert_eq!(FirmwareFloor::default().observations(), vec![]);
}

#[test]
fn every_board_has_the_floor_of_its_own_fan() {
    let amd = FirmwareFloor::for_board(amd_ryzen_ai_300());
    let intel = FirmwareFloor::for_board(intel_core_ultra_3());
    for (c, rpm, duty) in [
        (45_000, 0, 0),
        (49_900, 0, 0),
        (50_000, 2265, 56),
        (60_000, 4234, 110),
        (68_800, 6200, 182),
        (80_000, 6911, 213),
        (95_000, u16::MAX, 255),
    ] {
        assert_eq!(amd.modelled_rpm(Some(c)), rpm, "{c}");
        assert_eq!(amd.floor_duty(Some(c)), duty, "{c}");
    }
    assert_eq!(amd.floor_duty(None), 255);
    // The Intel numbers would leave this fan far below its firmware.
    assert!(intel.floor_duty(Some(60_000)) < amd.floor_duty(Some(60_000)));
    assert_eq!(
        intel.floor_duty(Some(60_000)),
        FirmwareFloor::new().floor_duty(Some(60_000))
    );
}

#[test]
fn the_least_floor_is_the_least_duty() {
    let mut f = FirmwareFloor::new();
    f.observe(Some(60_000), 1, true);
    assert_eq!(f.floor_duty(Some(60_000)), 33);
    assert_eq!(LEAST_DUTY, 33);
}
