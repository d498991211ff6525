//! Ownership of the fan: the lease, the watchdog, and giving the fan back.

use fw_helper::lease::{ceiling_for, Enforced, FanLease, LeaseError, Reclaimed, Thermal};
use fw_helper::restore::{
    ec_report, judge_release, release_command, report, restore, EcRelease, Restored,
};
use fw_helper::sysfs::{Answer, FileOp, IoError, IoErrorKind, Step};
use fw_helper::telemetry::{TempReading, Telemetry};
use fw_helper::transport::{iowr, ByteOrder, CROS_EC_DEV_IOCXCMD_V2, HEADER_LEN};
use fw_helper::watchdog::{Check, Watchdog, TIMEOUT_MS};
use fw_helper::{BatteryGuard, Ceiling, Curve, FanError, FanMode, Point};
use std::collections::BTreeMap;

const EC: &str = "sys/class/hwmon/hwmon7";

/// Idle on the reference machine. The EC runs the fan at 0 rpm here, so the floor is 0.
const IDLE_C: f64 = 40.0;
/// Loaded. Measured EC behaviour is 2925 rpm, which needs duty ~85.
const HOT_C: f64 = 64.8;

struct Fixture {
    files: BTreeMap<String, String>,
    writes: usize,
}

fn missing() -> IoError {
    IoError {
        kind: IoErrorKind::NotFound,
        message: "No such file or directory (os error 2)".to_string(),
    }
}

impl Fixture {
    fn perform(&mut self, op: &FileOp) -> Answer {
        match op {
            FileOp::Exists(p) | FileOp::Read(p) => self.files.get(p).cloned().ok_or_else(missing),
            FileOp::Write(p, text) => {
                self.writes += 1;
                match self.files.get_mut(p) {
                    Some(f) => {
                        *f = text.clone();
                        Ok(String::new())
                    }
                    None => Err(missing()),
                }
            }
        }
    }

    fn drive<T>(&mut self, mut work: impl FnMut(&[Answer]) -> Step<T>) -> T {
        let mut answers: Vec<Answer> = Vec::new();
        loop {
            match work(&answers) {
                Step::Done(v) => return v,
                Step::Ask(op) => {
                    let a = self.perform(&op);
                    answers.push(a);
                }
            }
        }
    }

    fn enable(&self) -> String {
        self.files[&format!("{EC}/pwm1_enable")].trim().to_string()
    }
}

fn fixture() -> Fixture {
    let mut files = BTreeMap::new();
    for (name, text) in [
        ("name", "cros_ec\n"),
        ("pwm1_enable", "2\n"),
        ("pwm1", "0\n"),
        ("fan1_input", "0\n"),
    ] {
        files.insert(format!("{EC}/{name}"), text.to_string());
    }
    Fixture { files, writes: 0 }
}

fn t(celsius: f64) -> Option<i64> {
    if celsius.is_finite() {
        Some((celsius * 1000.0).round() as i64)
    } else {
        None
    }
}

fn real_ceiling() -> Ceiling {
    Ceiling::from_crit(t(119.85))
}

fn th(celsius: f64) -> Thermal {
    Thermal {
        celsius: t(celsius),
        ceiling: real_ceiling(),
        battery_celsius: t(30.0),
        battery: BatteryGuard::from_crit(t(49.9)),
    }
}

fn th_none() -> Thermal {
    Thermal {
        celsius: None,
        ..th(40.0)
    }
}

fn th_battery(battery_celsius: f64) -> Thermal {
    Thermal {
        battery_celsius: t(battery_celsius),
        ..th(IDLE_C)
    }
}

/// A lease together with the tree it works on.
struct Rig {
    fs: Fixture,
    lease: FanLease,
}

impl Rig {
    fn new() -> Self {
        Rig {
            fs: fixture(),
            lease: FanLease::new(),
        }
    }

    fn set_duty(&mut self, duty: u8, th: Thermal) -> Result<fw_helper::lease::Applied, LeaseError> {
        let l = &mut self.lease;
        self.fs.drive(|a| l.set_duty(duty, th, Some(EC), a))
    }

    fn enforce(&mut self, th: Thermal) -> Option<Enforced> {
        let l = &mut self.lease;
        self.fs.drive(|a| l.enforce_floor(th, Some(EC), a))
    }

    fn duty(&mut self) -> Option<u8> {
        let l = &self.lease;
        self.fs.drive(|a| l.duty(Some(EC), a))
    }

    fn release(&mut self) -> Result<(), LeaseError> {
        let l = &mut self.lease;
        self.fs.drive(|a| l.release(Some(EC), a))
    }

    fn release_now(&mut self) -> bool {
        let l = &mut self.lease;
        self.fs.drive(|a| l.release_now(Some(EC), a))
    }

    fn sleep(&mut self) -> Option<u8> {
        let l = &mut self.lease;
        self.fs.drive(|a| l.release_for_sleep(Some(EC), a))
    }

    fn resume(&mut self, th: Thermal) -> Option<Result<fw_helper::lease::Applied, LeaseError>> {
        let l = &mut self.lease;
        self.fs.drive(|a| l.restore_after_resume(th, Some(EC), a))
    }

    fn reclaim(&mut self) -> Reclaimed {
        let l = &mut self.lease;
        self.fs.drive(|a| l.reclaim_at_startup(Some(EC), a))
    }

    fn check(&mut self, wd: &mut Watchdog, now: u64) -> Check {
        let l = &mut self.lease;
        self.fs.drive(|a| wd.check(now, l, Some(EC), a))
    }
}

#[test]
fn refuses_manual_control_without_a_temperature() {
    let mut r = Rig::new();
    assert!(matches!(
        r.set_duty(200, th_none()),
        Err(LeaseError::NoTemperature)
    ));
    assert!(matches!(
        r.set_duty(200, th(f64::NAN)),
        Err(LeaseError::NoTemperature)
    ));
    assert_eq!(r.fs.enable(), "2", "the EC must still own the fan");
    assert!(!r.lease.held());
}

#[test]
fn a_silent_fan_is_allowed_at_idle() {
    let mut r = Rig::new();
    let applied = r.set_duty(0, th(IDLE_C)).unwrap();
    assert_eq!(applied.floor, 0);
    assert_eq!(applied.target, 0);
    assert!(!applied.clamped());
}

#[test]
fn a_low_duty_is_raised_when_the_machine_is_hot() {
    let mut r = Rig::new();
    let applied = r.set_duty(0, th(HOT_C)).unwrap();
    assert!(applied.clamped(), "{applied:?}");
    assert!(applied.target >= 78, "{applied:?}");
    assert_eq!(applied.requested, 0, "the request itself is remembered");
}

#[test]
fn a_duty_safe_at_idle_is_corrected_when_the_machine_heats_up() {
    let mut r = Rig::new();
    r.set_duty(0, th(IDLE_C)).unwrap();
    assert_eq!(r.duty().unwrap(), 0);
    match r.enforce(th(HOT_C)) {
        Some(Enforced::Corrected { from, to, .. }) => {
            assert_eq!(from, 0);
            assert!(to >= 78, "raised only to {to}");
        }
        other => panic!("expected a correction, got {other:?}"),
    }
}

#[test]
fn the_fan_comes_back_down_when_the_machine_cools() {
    let mut r = Rig::new();
    r.set_duty(0, th(HOT_C)).unwrap();
    let hot_duty = r.duty().unwrap();
    assert!(hot_duty >= 78);
    match r.enforce(th(IDLE_C)) {
        Some(Enforced::Corrected { to, .. }) => {
            assert_eq!(to, 0, "should return to the duty actually requested")
        }
        other => panic!("expected a correction, got {other:?}"),
    }
}

#[test]
fn a_steady_temperature_provokes_no_writes() {
    let mut r = Rig::new();
    r.set_duty(120, th(IDLE_C)).unwrap();
    let before = r.fs.writes;
    assert!(
        r.enforce(th(IDLE_C)).is_none(),
        "nothing changed, so nothing should be written"
    );
    assert_eq!(r.fs.writes, before);
}

#[test]
fn a_fan_moved_behind_our_back_is_put_back() {
    let mut r = Rig::new();
    r.set_duty(120, th(IDLE_C)).unwrap();
    r.fs.files.insert(format!("{EC}/pwm1"), "123\n".to_string());
    assert!(r.enforce(th(IDLE_C)).is_none(), "within the tolerance");
    r.fs.files.insert(format!("{EC}/pwm1"), "124\n".to_string());
    assert_eq!(
        r.enforce(th(IDLE_C)),
        Some(Enforced::Corrected {
            from: 124,
            to: 120,
            floor: 0,
            celsius: 40_000
        })
    );
}

#[test]
fn losing_the_sensor_hands_the_fan_back() {
    let mut r = Rig::new();
    r.set_duty(200, th(IDLE_C)).unwrap();
    match r.enforce(th_none()) {
        Some(Enforced::ReleasedNoSensor { released }) => assert!(released),
        other => panic!("expected a release, got {other:?}"),
    }
    assert_eq!(r.fs.enable(), "2");
    assert!(!r.lease.held());
}

#[test]
fn enforcement_does_nothing_when_the_ec_owns_the_fan() {
    let mut r = Rig::new();
    assert!(r.enforce(th(HOT_C)).is_none());
    assert_eq!(r.fs.enable(), "2");
}

#[test]
fn watching_firmware_changes_the_floor_the_daemon_enforces() {
    let mut r = Rig::new();
    let before = r.lease.floor_duty(t(48.0));
    r.lease.observe(t(48.0), t(48.0), 120, true);
    assert!(r.lease.floor_duty(t(48.0)) > before);
}

#[test]
fn observing_firmware_idle_permits_a_silent_fan_where_the_model_would_not() {
    let mut r = Rig::new();
    assert!(r.lease.floor_duty(t(60.0)) > 0);
    r.lease.observe(t(60.0), t(60.0), 0, true);
    assert_eq!(r.lease.floor_duty(t(60.0)), 0);
    let applied = r.set_duty(0, th(60.0)).unwrap();
    assert!(!applied.clamped(), "{applied:?}");
}

#[test]
fn cooling_observations_never_reach_the_floor() {
    let mut r = Rig::new();
    let before = r.lease.floor_duty(t(61.9));
    r.lease.observe(t(61.9), t(61.9), 92, false);
    assert_eq!(r.lease.floor_duty(t(61.9)), before);
}

#[test]
fn suspend_releases_the_fan_and_resume_takes_it_back() {
    let mut r = Rig::new();
    r.set_duty(120, th(IDLE_C)).unwrap();
    assert_eq!(r.sleep(), Some(120));
    assert_eq!(
        r.fs.enable(),
        "2",
        "the fan must be firmware's during sleep"
    );
    assert!(!r.lease.held());

    let restored = r.resume(th(IDLE_C));
    assert_eq!(restored.unwrap().unwrap().requested, 120);
    assert_eq!(r.fs.enable(), "1");
}

#[test]
fn a_requested_duty_of_zero_survives_a_suspend() {
    let mut r = Rig::new();
    r.set_duty(0, th(IDLE_C)).unwrap();
    assert_eq!(r.sleep(), Some(0));
    let restored = r.resume(th(IDLE_C));
    assert_eq!(restored.unwrap().unwrap().requested, 0);
}

#[test]
fn resume_restores_nothing_if_the_ec_already_had_the_fan() {
    let mut r = Rig::new();
    assert_eq!(r.sleep(), None);
    assert!(r.resume(th(IDLE_C)).is_none());
    assert_eq!(r.fs.enable(), "2");
}

#[test]
fn resume_re_clamps_rather_than_restoring_the_raw_duty() {
    let mut r = Rig::new();
    r.set_duty(0, th(IDLE_C)).unwrap();
    r.sleep();
    let applied = r.resume(th(HOT_C)).unwrap().unwrap();
    assert!(applied.clamped(), "{applied:?}");
    assert!(applied.target >= 78, "{applied:?}");
}

#[test]
fn asking_for_ec_control_cancels_a_pending_restore() {
    let mut r = Rig::new();
    r.set_duty(120, th(IDLE_C)).unwrap();
    r.sleep();
    r.release().unwrap();
    assert!(r.resume(th(IDLE_C)).is_none());
    assert_eq!(r.fs.enable(), "2");
}

#[test]
fn refuses_to_take_the_fan_above_the_ceiling() {
    let mut r = Rig::new();
    let too_hot = real_ceiling().celsius() as f64 / 1000.0 + 1.0;
    assert!(matches!(
        r.set_duty(255, th(too_hot)),
        Err(LeaseError::AboveCeiling { .. })
    ));
    assert_eq!(r.fs.enable(), "2", "the fan must stay with firmware");
    assert!(!r.lease.held());
}

#[test]
fn gives_the_fan_back_when_the_ceiling_is_reached() {
    let mut r = Rig::new();
    r.set_duty(255, th(IDLE_C)).unwrap();
    assert_eq!(r.fs.enable(), "1");
    let too_hot = real_ceiling().celsius() as f64 / 1000.0 + 5.0;
    match r.enforce(th(too_hot)) {
        Some(Enforced::ReleasedTooHot { released, .. }) => assert!(released),
        other => panic!("expected a ceiling release, got {other:?}"),
    }
    assert_eq!(r.fs.enable(), "2");
    assert!(!r.lease.held());
}

#[test]
fn the_ceiling_error_tells_the_user_what_to_do() {
    let msg = LeaseError::AboveCeiling {
        celsius: 105_000,
        ceiling: real_ceiling(),
    }
    .text();
    assert!(msg.contains("cool"), "got: {msg}");
}

#[test]
fn full_load_temperatures_do_not_trip_the_ceiling() {
    let mut r = Rig::new();
    assert!(r.set_duty(200, th(76.8)).is_ok());
}

#[test]
fn a_hot_battery_raises_the_floor_even_with_an_idle_cpu() {
    let mut r = Rig::new();
    assert_eq!(r.set_duty(0, th_battery(30.0)).unwrap().target, 0);
    let applied = r.set_duty(0, th_battery(45.0)).unwrap();
    assert!(applied.clamped(), "{applied:?}");
}

#[test]
fn a_battery_near_its_limit_takes_the_fan_away() {
    let mut r = Rig::new();
    assert!(matches!(
        r.set_duty(255, th_battery(48.5)),
        Err(LeaseError::BatteryTooHot { .. })
    ));
    assert_eq!(r.fs.enable(), "2");
}

#[test]
fn a_battery_that_heats_while_we_hold_the_fan_gets_it_back() {
    let mut r = Rig::new();
    r.set_duty(200, th_battery(30.0)).unwrap();
    match r.enforce(th_battery(48.5)) {
        Some(Enforced::ReleasedBatteryHot { released, .. }) => assert!(released),
        other => panic!("expected a battery release, got {other:?}"),
    }
    assert_eq!(r.fs.enable(), "2");
}

#[test]
fn the_battery_error_explains_why_it_is_not_negotiable() {
    let msg = LeaseError::BatteryTooHot {
        celsius: 48_500,
        guard: BatteryGuard::from_crit(t(49.9)),
    }
    .text();
    assert!(msg.contains("throttle"), "got: {msg}");
}

#[test]
fn no_battery_sensor_does_not_constrain_the_fan() {
    let mut r = Rig::new();
    let thermal = Thermal {
        battery_celsius: None,
        ..th(IDLE_C)
    };
    assert_eq!(r.set_duty(0, thermal).unwrap().target, 0);
}

#[test]
fn takes_the_lease_then_gives_it_back() {
    let mut r = Rig::new();
    assert_eq!(r.set_duty(200, th(IDLE_C)).unwrap().settled, 200);
    assert!(r.lease.held());
    assert_eq!(r.fs.enable(), "1");
    r.release().unwrap();
    assert!(!r.lease.held());
    assert_eq!(r.fs.enable(), "2");
}

#[test]
fn release_now_works_whatever_we_believed() {
    let mut r = Rig::new();
    r.set_duty(200, th(IDLE_C)).unwrap();
    // A fresh lease believes that nothing is held; the hardware says otherwise and wins.
    r.lease = FanLease::new();
    assert!(!r.lease.held());
    assert!(r.release_now());
    assert_eq!(r.fs.enable(), "2");
}

#[test]
fn reclaims_a_fan_left_manual_by_a_previous_instance() {
    let mut r = Rig::new();
    r.fs.files
        .insert(format!("{EC}/pwm1_enable"), "1\n".to_string());
    assert_eq!(
        r.reclaim(),
        Reclaimed::From {
            was: FanMode::Manual,
            released: true
        }
    );
    assert_eq!(r.fs.enable(), "2");
}

#[test]
fn startup_reclaim_leaves_an_untouched_fan_alone() {
    let mut r = Rig::new();
    assert_eq!(r.reclaim(), Reclaimed::Nothing);
    assert_eq!(r.fs.enable(), "2");
    assert!(!r.lease.held());
    assert_eq!(r.fs.writes, 0);
}

#[test]
fn without_fan_control_nothing_is_wrong_and_nothing_can_be_held() {
    let mut fs = fixture();
    let mut l = FanLease::new();
    assert!(fs.drive(|a| l.release_now(None, a)));
    assert_eq!(fs.drive(|a| l.mode(None, a)), None);
    assert_eq!(
        fs.drive(|a| l.set_duty(120, th(IDLE_C), None, a)),
        Err(LeaseError::Fan(FanError::Unsupported))
    );
    assert_eq!(
        fs.drive(|a| l.release(None, a)),
        Err(LeaseError::Fan(FanError::Unsupported))
    );
    assert_eq!(fs.writes, 0);
}

#[test]
fn a_failed_write_keeps_nothing() {
    let mut r = Rig::new();
    // Requests that cannot turn the fan are refused by the takeover.
    assert_eq!(
        r.set_duty(12, th(IDLE_C)),
        Err(LeaseError::Fan(FanError::DutyCannotTurnFan(12)))
    );
    assert!(!r.lease.held());
    assert_eq!(r.fs.writes, 0);
}

#[test]
fn a_curve_is_followed_until_a_duty_is_pinned() {
    let mut r = Rig::new();
    let curve = Curve::new(vec![
        Point {
            celsius: 35_000,
            duty: 40,
        },
        Point {
            celsius: 45_000,
            duty: 140,
        },
    ])
    .unwrap();
    let (fs, l) = (&mut r.fs, &mut r.lease);
    let applied = fs
        .drive(|a| l.set_curve(&curve, th(IDLE_C), Some(EC), a))
        .unwrap();
    assert_eq!(applied.requested, 90);
    assert!(r.lease.curve_active());
    assert_eq!(
        r.lease.curve_points(),
        Some(vec![(35_000, 40), (45_000, 140)])
    );
    r.lease.follow_curve(t(43.0));
    assert_eq!(
        r.enforce(th(43.0)),
        Some(Enforced::Corrected {
            from: 90,
            to: 102,
            floor: 0,
            celsius: 43_000
        })
    );
    r.set_duty(60, th(IDLE_C)).unwrap();
    assert!(!r.lease.curve_active());
    r.lease.follow_curve(t(43.0));
    assert!(r.enforce(th(IDLE_C)).is_none());
}

#[test]
fn a_curve_survives_a_suspend_and_ends_with_the_lease() {
    let mut r = Rig::new();
    let curve = Curve::default_quiet();
    let (fs, l) = (&mut r.fs, &mut r.lease);
    fs.drive(|a| l.set_curve(&curve, th(80.0), Some(EC), a))
        .unwrap();
    assert!(r.sleep().is_some());
    assert!(!r.lease.curve_active());
    assert_eq!(r.lease.curve_points(), None, "firmware owns the fan");
    r.resume(th(80.0)).unwrap().unwrap();
    assert!(r.lease.curve_active());
    r.release().unwrap();
    r.set_duty(120, th(IDLE_C)).unwrap();
    assert!(!r.lease.curve_active());
}

#[test]
fn a_duty_that_may_not_start_the_fan_is_never_written() {
    let mut r = Rig::new();
    r.set_duty(120, th(IDLE_C)).unwrap();
    let before = r.fs.writes;
    assert_eq!(
        r.set_duty(12, th(IDLE_C)),
        Err(LeaseError::Fan(FanError::DutyCannotTurnFan(12)))
    );
    assert_eq!(r.fs.writes, before, "a manual fan is not touched either");

    // A curve that starts from a stop passes through the duties that turn nothing.
    let mut r = Rig::new();
    let curve = Curve::new(vec![
        Point {
            celsius: 40_000,
            duty: 0,
        },
        Point {
            celsius: 41_000,
            duty: 200,
        },
    ])
    .unwrap();
    let (fs, l) = (&mut r.fs, &mut r.lease);
    fs.drive(|a| l.set_curve(&curve, th(40.0), Some(EC), a))
        .unwrap();
    let mut written = Vec::new();
    for _ in 0..5 {
        r.lease.follow_curve(t(43.0));
        r.enforce(th(43.0));
        written.push(r.duty().unwrap());
    }
    assert_eq!(written, vec![33, 33, 36, 48, 60]);
}

#[test]
fn a_learned_floor_is_reloaded() {
    let mut l = FanLease::new();
    assert_eq!(
        l.restore_floor(&vec![(44_000, 0), (60_500, 40), (500_000, 255)]),
        2
    );
    assert_eq!(l.floor_snapshot(), (2, vec![(44_000, 0), (60_000, 40)]));
}

#[test]
fn decisions_are_read_out_of_a_sample() {
    let sample = Telemetry {
        temps: vec![
            TempReading {
                label: "peci-temp".into(),
                celsius: 70_000,
                critical: Some(119_850),
            },
            TempReading {
                label: "battery_temp@b".into(),
                celsius: 38_000,
                critical: Some(49_900),
            },
        ],
        ..Default::default()
    };
    let th = Thermal::from_telemetry(&sample, None);
    assert_eq!(th.celsius, Some(70_000));
    assert_eq!(th.battery_celsius, Some(38_000));
    assert_eq!(th.ceiling.celsius(), 100_000);
    assert_eq!(th.battery.crit(), 49_900);
    assert_eq!(th.battery_floor_public(), 0);
    assert_eq!(
        Thermal::from_telemetry(&sample, Some("60")).ceiling.celsius(),
        60_000
    );
}

#[test]
fn an_override_only_ever_lowers_the_ceiling() {
    assert_eq!(ceiling_for(Some(119_850), Some("60.5")).celsius(), 60_500);
    assert_eq!(ceiling_for(Some(119_850), Some("150")).celsius(), 100_000);
    assert_eq!(ceiling_for(Some(119_850), Some("warm")).celsius(), 100_000);
    assert_eq!(ceiling_for(Some(87_850), Some("-40")).celsius(), 72_850);
    assert_eq!(ceiling_for(None, None).celsius(), 97_000);
}

// The watchdog.

#[test]
fn does_not_trip_while_the_heartbeat_is_fresh() {
    let mut r = Rig::new();
    let mut wd = Watchdog::with_timeout(50);
    r.set_duty(200, th(40.0)).unwrap();
    wd.beat(1_000);
    assert_eq!(r.check(&mut wd, 1_050), Check::Fine);
    assert_eq!(r.fs.enable(), "1", "the fan should still be ours");
    assert!(!wd.tripped());
}

#[test]
fn releases_the_fan_when_the_heartbeat_stops() {
    let mut r = Rig::new();
    let mut wd = Watchdog::with_timeout(50);
    r.set_duty(200, th(40.0)).unwrap();
    wd.beat(1_000);
    assert_eq!(
        r.check(&mut wd, 1_080),
        Check::Intervened {
            first: true,
            silent_ms: 80,
            released: true
        }
    );
    assert_eq!(r.fs.enable(), "2");
    assert!(wd.tripped());
}

#[test]
fn ignores_a_stale_heartbeat_when_the_ec_already_owns_the_fan() {
    let mut r = Rig::new();
    let mut wd = Watchdog::with_timeout(50);
    wd.beat(1_000);
    assert_eq!(r.check(&mut wd, 1_080), Check::Fine);
    assert!(!wd.tripped());
}

#[test]
fn keeps_trying_while_the_fan_is_still_held() {
    let mut r = Rig::new();
    let mut wd = Watchdog::with_timeout(50);
    r.set_duty(200, th(40.0)).unwrap();
    wd.beat(1_000);
    assert!(matches!(
        r.check(&mut wd, 1_080),
        Check::Intervened { first: true, .. }
    ));
    assert_eq!(r.fs.enable(), "2");

    r.fs.files
        .insert(format!("{EC}/pwm1_enable"), "1\n".to_string());
    assert!(
        matches!(
            r.check(&mut wd, 1_081),
            Check::Intervened { first: false, .. }
        ),
        "a fan found manual again must be released again"
    );
    assert_eq!(r.fs.enable(), "2");
}

#[test]
fn a_beat_after_a_trip_stops_further_intervention() {
    let mut r = Rig::new();
    let mut wd = Watchdog::with_timeout(50);
    r.set_duty(200, th(40.0)).unwrap();
    assert!(matches!(
        r.check(&mut wd, 80),
        Check::Intervened { .. }
    ));

    r.set_duty(200, th(40.0)).unwrap();
    wd.beat(100);
    assert_eq!(r.check(&mut wd, 100), Check::Fine);
    assert_eq!(r.fs.enable(), "1");
    assert!(wd.tripped());
}

#[test]
fn a_heartbeat_is_stale_past_the_limit() {
    let mut wd = Watchdog::new();
    wd.beat(10_000);
    assert_eq!(wd.since_beat(9_000), 0);
    assert_eq!(wd.since_beat(12_500), 2_500);
    assert!(!wd.stale(10_000 + TIMEOUT_MS));
    assert!(wd.stale(10_001 + TIMEOUT_MS));
}

// Giving the fan back from outside.

#[test]
fn ioctl_number_matches_the_one_the_hardware_probe_used() {
    assert_eq!(CROS_EC_DEV_IOCXCMD_V2, 0xC014_EC00);
    assert_eq!(iowr(0xEC, 0, HEADER_LEN), CROS_EC_DEV_IOCXCMD_V2);
}

#[test]
fn the_release_is_the_auto_fan_command_with_no_payload() {
    let cmd = release_command(ByteOrder::native());
    assert_eq!(cmd.len(), 20);
    assert_eq!(
        u32::from_ne_bytes(cmd[0..4].try_into().unwrap()),
        0,
        "version"
    );
    assert_eq!(
        u32::from_ne_bytes(cmd[4..8].try_into().unwrap()),
        fw_helper::ec::fan::AUTO_FAN_CTRL
    );
    assert_eq!(
        u32::from_ne_bytes(cmd[8..12].try_into().unwrap()),
        0,
        "outsize"
    );
    assert_eq!(
        u32::from_ne_bytes(cmd[12..16].try_into().unwrap()),
        0,
        "insize"
    );
}

#[test]
fn restoring_says_what_the_fan_was() {
    let mut fs = fixture();
    let done = fs.drive(|a| restore(Some(EC), a));
    assert_eq!(done, Restored::Done { was: FanMode::Auto });
    assert_eq!(
        report(&done),
        Some((
            "fw-helper-restore-fan: fan was already EC automatic".to_string(),
            true
        ))
    );
    fs.files
        .insert(format!("{EC}/pwm1_enable"), "1\n".to_string());
    let done = fs.drive(|a| restore(Some(EC), a));
    assert_eq!(
        report(&done),
        Some((
            "fw-helper-restore-fan: fan was manual, now EC automatic".to_string(),
            true
        ))
    );
    assert_eq!(fs.enable(), "2");
    assert_eq!(fs.drive(|a| restore(None, a)), Restored::Unsupported);
    let bad = Restored::Failed {
        observed: FanMode::Manual,
    };
    assert!(!report(&bad).unwrap().1);
}

#[test]
fn the_ecs_answer_to_a_release_is_judged() {
    assert_eq!(judge_release(0), EcRelease::Released);
    assert_eq!(judge_release(1), EcRelease::NotSupported);
    assert_eq!(
        judge_release(3),
        EcRelease::Failed("the EC refused it (result 3)".to_string())
    );
    assert!(ec_report(&None).1);
    assert!(ec_report(&Some(EcRelease::NotSupported)).1);
    let (text, ok) = ec_report(&Some(judge_release(3)));
    assert!(!ok);
    assert!(text.contains("(the EC refused it (result 3))"), "{text}");
}
