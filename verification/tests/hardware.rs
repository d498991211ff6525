//! Files and EC bytes: capabilities, charge, energy, fan, telemetry and power, against an
//! in-memory tree.

use fw_helper::board::identify_name;
use fw_helper::caps::{ProbeSurvey, ZoneSurvey};
use fw_helper::ec::{
    self, disable_request, get_request, parse_limits, set_request, ChargeLimits,
    CHARGE_LIMIT_CONTROL,
};
use fw_helper::fan::{DUTY_TOLERANCE, MIN_TAKEOVER_DUTY};
use fw_helper::power::{PowerError, PowerLimit};
use fw_helper::sysfs::{Answer, FileOp, IoError, IoErrorKind, Step};
use fw_helper::telemetry::{
    describe, NodeSurvey, SensorSurvey, Supply, Survey, TempReading, Telemetry,
};
use fw_helper::{
    Cap, Capabilities, ChargeControl, ChargeError, EnergySampler, FanControl, FanError, FanMode,
    Monitor, Sysfs,
};
use std::collections::BTreeMap;

#[test]
fn an_unmeasured_board_gets_no_fan() {
    let mut f = Fixture::framework_13();
    let measured = f.probe().on_board(&identify_name("FRANMJCP07"));
    assert_eq!(measured, f.probe());
    let caps = f.probe().on_board(&identify_name("SOMETHING"));
    assert_eq!(
        caps.fan_control,
        Cap::No(
            "unrecognised board: this board's fan is unmeasured, so no firmware floor can be \
             trusted; see scripts/probe-fan-amd.c"
                .to_string()
        )
    );
    assert_eq!(caps.power_limit, f.probe().power_limit);
}

/// A tree of files.
struct Fixture {
    files: BTreeMap<String, String>,
    /// Files that take writes and keep what they held.
    stubborn: Vec<String>,
    /// Every write that was asked for.
    written: Vec<(String, String)>,
}

fn not_found() -> IoError {
    IoError {
        kind: IoErrorKind::NotFound,
        message: "No such file or directory (os error 2)".to_string(),
    }
}

impl Fixture {
    fn new() -> Self {
        Fixture {
            files: BTreeMap::new(),
            stubborn: Vec::new(),
            written: Vec::new(),
        }
    }

    fn write(&mut self, rel: &str, contents: &str) {
        self.files.insert(rel.to_string(), contents.to_string());
    }

    fn read(&self, rel: &str) -> Answer {
        self.files.get(rel).cloned().ok_or_else(not_found)
    }

    fn there(&self, rel: &str) -> bool {
        let dir = format!("{rel}/");
        self.files.contains_key(rel) || self.files.keys().any(|k| k.starts_with(&dir))
    }

    fn perform(&mut self, op: &FileOp) -> Answer {
        match op {
            FileOp::Exists(p) => {
                if self.there(p) {
                    Ok(String::new())
                } else {
                    Err(not_found())
                }
            }
            FileOp::Read(p) => self.read(p),
            FileOp::Write(p, text) => {
                self.written.push((p.clone(), text.clone()));
                if !self.files.contains_key(p) {
                    return Err(not_found());
                }
                if !self.stubborn.contains(p) {
                    self.files.insert(p.clone(), text.clone());
                }
                Ok(String::new())
            }
        }
    }

    fn drive<T>(&mut self, mut work: impl FnMut(&[Answer]) -> Step<T>) -> T {
        let mut answers: Vec<Answer> = Vec::new();
        loop {
            match work(&answers) {
                Step::Done(v) => return v,
                Step::Ask(op) => {
                    let a = self.perform(&op);
                    answers.push(a);
                }
            }
        }
    }

    fn children(&self, dir: &str) -> Vec<String> {
        let prefix = format!("{dir}/");
        let mut out: Vec<String> = self
            .files
            .keys()
            .filter_map(|k| k.strip_prefix(&prefix))
            .filter_map(|k| k.split('/').next())
            .map(|s| s.to_string())
            .collect();
        out.dedup();
        out
    }

    fn ec_hwmon(&self) -> Option<String> {
        let nodes: Vec<(String, Answer)> = self
            .children("sys/class/hwmon")
            .into_iter()
            .map(|b| {
                let name = self.read(&format!("sys/class/hwmon/{b}/name"));
                (b, name)
            })
            .collect();
        Sysfs::default().find_hwmon(&nodes, fw_helper::paths::EC_HWMON_NAME)
    }

    fn probe(&mut self) -> Capabilities {
        let hwmon = self.ec_hwmon();
        let q = Capabilities::questions(hwmon.as_deref());
        let found = ProbeSurvey {
            pwm_enable: q.pwm_enable.map(|o| self.perform(&o)),
            power_zone: self.perform(&q.power_zone),
            power_constraint: self.perform(&q.power_constraint),
            charge_threshold: self.perform(&q.charge_threshold),
            charge_param: self.perform(&q.charge_param),
            charge_param_present: self.perform(&q.charge_param_present),
            platform_profile: self.perform(&q.platform_profile),
            zones: q
                .zones
                .into_iter()
                .map(|z| ZoneSurvey {
                    present: self.perform(&z.present),
                    energy: self.perform(&z.energy),
                    zone: z.zone,
                })
                .collect(),
        };
        Capabilities::probe(hwmon, &found)
    }

    fn monitor(&mut self) -> Monitor {
        let caps = self.probe();
        let range = caps
            .energy_zone
            .clone()
            .map(|z| self.read(&format!("{z}/max_energy_range_uj")));
        Monitor::new(caps, range)
    }

    fn sample(&mut self, mon: &mut Monitor, now_ns: u64) -> Telemetry {
        let q = mon.questions();
        let found = Survey {
            platform_profile: self.read(&q.platform_profile),
            capacity: self.read(&q.capacity),
            status: self.read(&q.status),
            power_now: self.read(&q.power_now),
            energy_now: self.read(&q.energy_now),
            current_now: self.read(&q.current_now),
            voltage_now: self.read(&q.voltage_now),
            charge_now: self.read(&q.charge_now),
            node: q.node.map(|n| NodeSurvey {
                fan_input: self.read(&n.fan_input),
                sensors: n
                    .sensors
                    .iter()
                    .map(|s| SensorSurvey {
                        input: self.read(&s.input),
                        label: self.read(&s.label),
                        crit: self.read(&s.crit),
                    })
                    .collect(),
            }),
            energy: q.energy.map(|e| self.read(&e)),
        };
        let supplies = self
            .children("sys/class/power_supply")
            .into_iter()
            .map(|b| Supply {
                kind: self.read(&format!("sys/class/power_supply/{b}/type")),
                online: self.read(&format!("sys/class/power_supply/{b}/online")),
            })
            .collect();
        mon.sample(&found, &supplies, now_ns)
    }

    /// A Framework 13 Pro as observed: EC node present, power zone present, charge control
    /// declined to bind but the parameter that would force it exists.
    fn framework_13() -> Self {
        let mut f = Fixture::new();
        f.write("sys/class/hwmon/hwmon3/name", "BAT1\n");
        f.write("sys/class/hwmon/hwmon7/name", "cros_ec\n");
        f.write("sys/class/hwmon/hwmon7/pwm1_enable", "2\n");
        f.write("sys/class/hwmon/hwmon7/pwm1", "0\n");
        f.write("sys/class/hwmon/hwmon7/fan1_input", "2925\n");
        f.write("sys/class/hwmon/hwmon7/temp1_input", "36850\n");
        f.write("sys/class/hwmon/hwmon7/temp1_label", "local_f75397@4c\n");
        f.write("sys/class/hwmon/hwmon7/temp1_crit", "87850\n");
        f.write("sys/class/hwmon/hwmon7/temp5_input", "64800\n");
        f.write("sys/class/hwmon/hwmon7/temp5_label", "peci-temp\n");
        f.write("sys/class/hwmon/hwmon7/temp5_crit", "119850\n");
        f.write("sys/class/hwmon/hwmon7/temp5_max", "-273150\n");

        let rapl = "sys/class/powercap/intel-rapl-mmio:0";
        f.write(&format!("{rapl}/name"), "package-0\n");
        f.write(&format!("{rapl}/constraint_0_power_limit_uw"), "25000000\n");
        f.write(&format!("{rapl}/constraint_0_max_power_uw"), "25000000\n");
        f.write(&format!("{rapl}/energy_uj"), "1000000\n");
        f.write(&format!("{rapl}/max_energy_range_uj"), "262143328850\n");

        f.write("sys/firmware/acpi/platform_profile", "balanced\n");
        f.write("sys/class/power_supply/BAT1/capacity", "100\n");
        f.write("sys/class/power_supply/BAT1/status", "Not charging\n");
        f.write(
            "sys/module/cros_charge_control/parameters/probe_with_fwk_charge_control",
            "N\n",
        );
        f
    }
}

const EC: &str = "sys/class/hwmon/hwmon7";

fn raw(f: &Fixture, rel: &str) -> String {
    f.files[rel].trim().to_string()
}

// Charge control.

#[test]
fn rejects_values_outside_the_accepted_range() {
    let mut f = Fixture::new();
    let c = ChargeControl::new();
    assert!(matches!(
        f.drive(|a| c.set(0, a)),
        Err(ChargeError::OutOfRange(0))
    ));
    assert!(matches!(
        f.drive(|a| c.set(19, a)),
        Err(ChargeError::OutOfRange(19))
    ));
    assert!(matches!(
        f.drive(|a| c.set(101, a)),
        Err(ChargeError::OutOfRange(101))
    ));
}

#[test]
fn reports_unsupported_when_the_attribute_is_absent() {
    let mut f = Fixture::new();
    let c = ChargeControl::new();
    assert!(matches!(
        f.drive(|a| c.read(a)),
        Err(ChargeError::Unsupported)
    ));
    assert!(matches!(
        f.drive(|a| c.set(80, a)),
        Err(ChargeError::Unsupported)
    ));
    assert!(!f.drive(|a| c.is_supported(a)));
}

#[test]
fn unsupported_error_names_the_module_parameter() {
    let msg = ChargeError::Unsupported.text();
    assert!(msg.contains("probe_with_fwk_charge_control"), "got: {msg}");
}

#[test]
fn not_applied_error_reports_both_values_and_names_a_check() {
    let msg = ChargeError::NotApplied {
        requested: 80,
        observed: 100,
    }
    .text();
    assert!(msg.contains("80"), "got: {msg}");
    assert!(msg.contains("100"), "got: {msg}");
    assert!(msg.contains("UEFI setup"), "got: {msg}");
}

#[test]
fn a_charge_limit_is_written_and_read_back() {
    let attr = "sys/class/power_supply/BAT1/charge_control_end_threshold";
    let mut f = Fixture::new();
    f.write(attr, "100\n");
    let c = ChargeControl::new();
    assert_eq!(f.drive(|a| c.read(a)), Ok(100));
    assert_eq!(f.drive(|a| c.set(80, a)), Ok(()));
    assert_eq!(raw(&f, attr), "80");

    f.stubborn.push(attr.to_string());
    assert_eq!(
        f.drive(|a| c.set(60, a)),
        Err(ChargeError::NotApplied {
            requested: 60,
            observed: 80
        })
    );
    f.write(attr, "plenty\n");
    let e = f.drive(|a| c.read(a)).unwrap_err();
    assert_eq!(
        e.text(),
        "sys/class/power_supply/BAT1/charge_control_end_threshold: cannot parse \"plenty\" as \
         u64: invalid digit found in string"
    );
    f.write(attr, "700\n");
    assert_eq!(f.drive(|a| c.read(a)), Ok(255));
    assert_eq!(
        ChargeError::OutOfRange(7).text(),
        "7% is outside the accepted range 20\u{2013}100%"
    );
}

// EC bytes.

#[test]
fn command_id_is_the_one_verified_against_framework_source() {
    assert_eq!(CHARGE_LIMIT_CONTROL, 0x3E03);
}

#[test]
fn set_puts_max_before_min_on_the_wire() {
    let req = set_request(ChargeLimits { min: 0, max: 80 });
    assert_eq!(req, [ec::mode::SET, 80, 0]);
}

#[test]
fn get_request_matches_framework_tool() {
    assert_eq!(get_request(), [0x08, 0xFF, 0xFF]);
}

#[test]
fn parses_the_response_in_max_min_order() {
    assert_eq!(
        parse_limits(&[100, 0]),
        Some(ChargeLimits { min: 0, max: 100 })
    );
}

#[test]
fn refuses_a_short_response_rather_than_inventing_a_limit() {
    assert_eq!(parse_limits(&[]), None);
    assert_eq!(parse_limits(&[80]), None);
}

#[test]
fn fan_command_ids_are_the_ones_verified_against_the_kernel_header() {
    assert_eq!(ec::fan::SET_FAN_DUTY, 0x0024);
    assert_eq!(ec::fan::AUTO_FAN_CTRL, 0x0052);
    assert_eq!(ec::fan::GET_FAN_TARGET_RPM, 0x0020);
}

#[test]
fn duty_is_a_percent_not_an_eight_bit_count() {
    assert_eq!(ec::fan::MAX_DUTY, 100);
    assert_eq!(ec::fan::set_duty_request(255), 100u32.to_le_bytes());
    assert_eq!(ec::fan::set_duty_request(101), 100u32.to_le_bytes());
}

#[test]
fn duty_request_is_little_endian() {
    assert_eq!(ec::fan::set_duty_request(70), [70, 0, 0, 0]);
    assert_eq!(ec::fan::set_duty_request(0), [0, 0, 0, 0]);
}

#[test]
fn releasing_the_fan_carries_no_payload() {
    assert!(ec::fan::auto_request().is_empty());
}

#[test]
fn a_duty_that_starts_the_fan_survives_encoding() {
    assert_eq!(ec::fan::set_duty_request(11), [11, 0, 0, 0]);
}

#[test]
fn round_trips_through_the_wire_format() {
    let want = ChargeLimits { min: 20, max: 80 };
    let req = set_request(want);
    assert_eq!(parse_limits(&[req[1], req[2]]), Some(want));
}

#[test]
fn handing_charging_back_is_a_disable() {
    assert_eq!(disable_request(), [0x01, 0xFF, 0xFF]);
    assert_eq!(ec::mode::OVERRIDE, 0x80);
}

#[test]
fn feature_flags_are_read_by_bit() {
    let mut answer = 0x0207_E6AE_u32.to_le_bytes().to_vec();
    assert_eq!(ec::features::has(&answer, ec::features::PWM_FAN), None);
    answer.extend_from_slice(&0x0000_0207_u32.to_le_bytes());
    assert_eq!(ec::features::has(&answer, ec::features::PWM_FAN), Some(true));
    assert_eq!(ec::features::has(&answer, 0), Some(false));
    assert_eq!(ec::features::has(&answer, 25), Some(true));
    assert_eq!(ec::features::has(&answer, 32), Some(true));
}

// Energy.

const RANGE: u64 = 262_143_328_850;
const SECOND: u64 = 1_000_000_000;

fn watts(uw: i64) -> f64 {
    uw as f64 / 1e6
}

#[test]
fn first_sample_has_no_reference() {
    let mut s = EnergySampler::new(RANGE);
    assert_eq!(s.sample(1_000_000, 0), None);
}

#[test]
fn computes_watts_from_delta() {
    let mut s = EnergySampler::new(RANGE);
    s.sample(0, 0);
    let w = s.sample(25_000_000, SECOND).expect("should yield a value");
    assert!((watts(w) - 25.0).abs() < 0.001, "got {w}");
}

#[test]
fn corrects_single_wrap() {
    let mut s = EnergySampler::new(RANGE);
    s.sample(RANGE - 10_000_000, 0);
    let w = s.sample(15_000_000, SECOND).expect("should yield a value");
    assert!((watts(w) - 25.0).abs() < 0.001, "got {w}");
}

#[test]
fn discards_samples_beyond_max_gap() {
    let mut s = EnergySampler::new(RANGE).with_max_gap(10 * SECOND);
    s.sample(0, 0);
    assert_eq!(s.sample(25_000_000, 11 * SECOND), None);
}

#[test]
fn rejects_implausible_wattage() {
    let mut s = EnergySampler::new(RANGE);
    s.sample(0, 0);
    assert_eq!(s.sample(500_000_000, SECOND), None);
}

#[test]
fn invalidate_drops_the_reference_point() {
    let mut s = EnergySampler::new(RANGE);
    s.sample(0, 0);
    s.invalidate();
    assert_eq!(s.sample(25_000_000, SECOND), None);
}

#[test]
fn quantizes_to_tenths() {
    assert_eq!(watts(EnergySampler::quantize(24_671_200)), 24.7);
    assert_eq!(watts(EnergySampler::quantize(1_770_000)), 1.8);
}

#[test]
fn power_is_exact_to_the_microwatt() {
    let mut s = EnergySampler::new(RANGE);
    s.sample(0, 0);
    assert_eq!(s.sample(10_000_000, 3 * SECOND), Some(3_333_333));
    assert_eq!(s.sample(20_000_000, 3 * SECOND), None, "no time has passed");
    assert_eq!(s.sample(220_000_000, 4 * SECOND), Some(200_000_000));
    assert_eq!(s.sample(420_000_001, 5 * SECOND), None);
    assert_eq!(EnergySampler::quantize(-150_000), -200_000);
    assert_eq!(EnergySampler::quantize(49_999), 0);
}

// Fan control.

#[test]
fn refuses_a_duty_that_cannot_turn_the_fan() {
    let mut f = Fixture::new();
    let c = FanControl::new("sys/class/hwmon/hwmon7");
    assert!(matches!(
        f.drive(|a| c.take_manual(MIN_TAKEOVER_DUTY - 1, a)),
        Err(FanError::DutyCannotTurnFan(_))
    ));
    assert!(matches!(
        f.drive(|a| c.take_manual(0, a)),
        Err(FanError::Unsupported)
    ));
}

#[test]
fn reports_unsupported_when_the_hwmon_is_absent() {
    let mut f = Fixture::new();
    let c = FanControl::new("sys/class/hwmon/hwmon7");
    assert!(matches!(f.drive(|a| c.mode(a)), Err(FanError::Unsupported)));
    assert!(matches!(f.drive(|a| c.duty(a)), Err(FanError::Unsupported)));
    assert!(matches!(
        f.drive(|a| c.release(a)),
        Err(FanError::Unsupported)
    ));
    assert!(matches!(
        f.drive(|a| c.take_manual(200, a)),
        Err(FanError::Unsupported)
    ));
    let node = f.ec_hwmon();
    assert!(matches!(
        f.drive(|a| FanControl::probe(node.as_deref(), a)),
        Err(FanError::Unsupported)
    ));
}

#[test]
fn duty_tolerance_covers_percent_quantization_but_not_a_rejected_write() {
    let round_trip = |d: u8| -> u8 {
        let percent = (f64::from(d) * 100.0 / 255.0).round();
        (percent * 255.0 / 100.0).round() as u8
    };
    for d in MIN_TAKEOVER_DUTY..=u8::MAX {
        let observed = round_trip(d);
        assert!(
            observed.abs_diff(d) <= DUTY_TOLERANCE,
            "duty {d} round-trips to {observed}, beyond the tolerance"
        );
        assert_eq!(
            ec::fan::percent_to_duty(ec::fan::duty_to_percent(d)),
            observed
        );
    }
    assert_eq!(round_trip(180), 181);
    assert!(0_u8.abs_diff(180) > DUTY_TOLERANCE);
}

#[test]
fn duty_not_applied_error_explains_the_quantization() {
    let msg = FanError::DutyNotApplied {
        requested: 180,
        observed: 0,
    }
    .text();
    assert!(msg.contains("quantization"), "got: {msg}");
}

#[test]
fn mode_decodes_the_hwmon_convention() {
    assert_eq!(FanMode::from_raw(1), FanMode::Manual);
    assert_eq!(FanMode::from_raw(2), FanMode::Auto);
    assert_eq!(FanMode::from_raw(0), FanMode::Other(0));
    assert!(!FanMode::from_raw(0).is_manual());
    assert_eq!(FanMode::Other(7).text(), "unknown mode 7");
}

#[test]
fn stiction_error_names_both_valid_choices() {
    let msg = FanError::DutyCannotTurnFan(10).text();
    assert!(msg.contains("Use 0"), "got: {msg}");
    assert!(msg.contains("0 rpm"), "got: {msg}");
}

#[test]
fn failed_release_error_names_the_recovery_tool() {
    let msg = FanError::NotReleased {
        observed: FanMode::Manual,
    }
    .text();
    assert!(msg.contains("fw-helper-restore-fan"), "got: {msg}");
    assert!(msg.contains("pwm1_enable"), "got: {msg}");
}

#[test]
fn not_applied_errors_say_control_was_released() {
    let mode = FanError::ModeNotApplied {
        requested: FanMode::Manual,
        observed: FanMode::Auto,
    }
    .text();
    assert!(mode.contains("released"), "got: {mode}");

    let duty = FanError::DutyNotApplied {
        requested: 200,
        observed: 0,
    }
    .text();
    assert!(duty.contains("released"), "got: {duty}");
}

#[test]
fn takes_manual_control_and_hands_it_back() {
    let mut f = Fixture::framework_13();
    let node = f.ec_hwmon();
    let fan = f
        .drive(|a| FanControl::probe(node.as_deref(), a))
        .expect("fixture has a cros_ec hwmon");

    assert_eq!(f.drive(|a| fan.mode(a)).unwrap(), FanMode::Auto);

    f.drive(|a| fan.take_manual(200, a)).unwrap();
    assert_eq!(f.drive(|a| fan.mode(a)).unwrap(), FanMode::Manual);
    assert_eq!(f.drive(|a| fan.duty(a)).unwrap(), 200);
    assert_eq!(raw(&f, &format!("{EC}/pwm1_enable")), "1");
    assert_eq!(raw(&f, &format!("{EC}/pwm1")), "200");

    f.drive(|a| fan.set_duty(120, a)).unwrap();
    assert_eq!(f.drive(|a| fan.duty(a)).unwrap(), 120);

    f.drive(|a| fan.release(a)).unwrap();
    assert_eq!(f.drive(|a| fan.mode(a)).unwrap(), FanMode::Auto);
    assert_eq!(raw(&f, &format!("{EC}/pwm1_enable")), "2");
}

#[test]
fn duty_is_attempted_before_the_mode_switch() {
    let mut f = Fixture::framework_13();
    let fan = FanControl::new(EC);
    assert_eq!(raw(&f, &format!("{EC}/pwm1")), "0");
    f.drive(|a| fan.take_manual(180, a)).unwrap();
    assert_eq!(raw(&f, &format!("{EC}/pwm1")), "180");
    assert_eq!(f.written[0], (format!("{EC}/pwm1"), "180".to_string()));
    assert_eq!(f.written[1], (format!("{EC}/pwm1_enable"), "1".to_string()));
}

#[test]
fn refuses_to_set_duty_while_the_ec_owns_the_fan() {
    let mut f = Fixture::framework_13();
    let fan = FanControl::new(EC);
    assert!(matches!(
        f.drive(|a| fan.set_duty(200, a)),
        Err(FanError::NotUnderManualControl(FanMode::Auto))
    ));
    assert_eq!(
        raw(&f, &format!("{EC}/pwm1")),
        "0",
        "nothing should be written"
    );
    assert!(f.written.is_empty());
}

#[test]
fn a_duty_that_may_not_start_the_fan_is_refused_under_manual_control() {
    let mut f = Fixture::framework_13();
    let fan = FanControl::new(EC);
    f.drive(|a| fan.take_manual(200, a)).unwrap();
    f.written.clear();
    for duty in [1, 12, 32] {
        assert_eq!(
            f.drive(|a| fan.set_duty(duty, a)),
            Err(FanError::DutyCannotTurnFan(duty))
        );
    }
    assert!(f.written.is_empty());
    assert_eq!(f.drive(|a| fan.mode(a)).unwrap(), FanMode::Manual);
    assert_eq!(f.drive(|a| fan.set_duty(33, a)), Ok(33));
    assert_eq!(f.drive(|a| fan.set_duty(0, a)), Ok(0));
}

#[test]
fn release_is_idempotent() {
    let mut f = Fixture::framework_13();
    let fan = FanControl::new(EC);
    f.drive(|a| fan.release(a)).unwrap();
    f.drive(|a| fan.release(a)).unwrap();
    assert!(f.drive(|a| fan.release_best_effort(a)));
    assert_eq!(f.drive(|a| fan.mode(a)).unwrap(), FanMode::Auto);
}

#[test]
fn a_duty_that_cannot_turn_the_fan_never_reaches_hardware() {
    let mut f = Fixture::framework_13();
    let fan = FanControl::new(EC);
    assert!(matches!(
        f.drive(|a| fan.take_manual(MIN_TAKEOVER_DUTY - 1, a)),
        Err(FanError::DutyCannotTurnFan(_))
    ));
    assert_eq!(raw(&f, &format!("{EC}/pwm1_enable")), "2");
    assert_eq!(raw(&f, &format!("{EC}/pwm1")), "0");
}

#[test]
fn a_takeover_that_fails_gives_the_fan_back() {
    // The duty file takes the write and keeps what it held.
    let mut f = Fixture::framework_13();
    f.stubborn.push(format!("{EC}/pwm1"));
    let fan = FanControl::new(EC);
    assert_eq!(
        f.drive(|a| fan.take_manual(200, a)),
        Err(FanError::DutyNotApplied {
            requested: 200,
            observed: 0
        })
    );
    assert_eq!(raw(&f, &format!("{EC}/pwm1_enable")), "2");

    // The mode file does: nothing was taken, and releasing is confirmed.
    let mut f = Fixture::framework_13();
    f.stubborn.push(format!("{EC}/pwm1_enable"));
    assert_eq!(
        f.drive(|a| fan.take_manual(200, a)),
        Err(FanError::ModeNotApplied {
            requested: FanMode::Manual,
            observed: FanMode::Auto
        })
    );

    // Already manual, and it stays so whatever is written: the more urgent news.
    let mut f = Fixture::framework_13();
    f.write(&format!("{EC}/pwm1_enable"), "1\n");
    f.stubborn.push(format!("{EC}/pwm1_enable"));
    f.stubborn.push(format!("{EC}/pwm1"));
    assert_eq!(
        f.drive(|a| fan.set_duty(200, a)),
        Err(FanError::NotReleased {
            observed: FanMode::Manual
        })
    );
    assert!(!f.drive(|a| fan.release_best_effort(a)));
    assert_eq!(
        f.drive(|a| fan.release(a)),
        Err(FanError::NotReleased {
            observed: FanMode::Manual
        })
    );
}

#[test]
fn the_fans_speed_is_read_from_its_input() {
    let mut f = Fixture::framework_13();
    let fan = FanControl::new(EC);
    assert_eq!(f.drive(|a| fan.rpm(a)), Some(2925));
    assert!(f.drive(|a| fan.is_supported(a)));
    f.files.remove(&format!("{EC}/fan1_input"));
    assert_eq!(f.drive(|a| fan.rpm(a)), None);
    f.write(&format!("{EC}/pwm1_enable"), "auto\n");
    assert!(matches!(f.drive(|a| fan.mode(a)), Err(FanError::Io(_))));
    f.write(&format!("{EC}/pwm1"), "999\n");
    assert_eq!(f.drive(|a| fan.duty(a)), Ok(255));
}

// Capabilities and telemetry.

#[test]
fn probes_a_framework_13_correctly() {
    let mut f = Fixture::framework_13();
    let caps = f.probe();

    assert!(caps.fan_control.is_available());
    assert!(caps.power_limit.is_available());
    assert!(caps.platform_profile.is_available());
    assert!(caps.package_power.is_available());

    assert!(!caps.charge_limit.is_available());
    assert!(
        caps.charge_limit
            .text()
            .contains("probe_with_fwk_charge_control"),
        "reason should tell the user how to fix it, got: {}",
        caps.charge_limit.text()
    );
}

#[test]
fn finds_hwmon_by_name_not_index() {
    let mut f = Fixture::framework_13();
    let caps = f.probe();
    assert_eq!(caps.ec_hwmon.as_deref(), Some("sys/class/hwmon/hwmon7"));
}

#[test]
fn charge_limit_available_when_threshold_exists() {
    let mut f = Fixture::framework_13();
    f.write(
        "sys/class/power_supply/BAT1/charge_control_end_threshold",
        "80\n",
    );
    assert!(f.probe().charge_limit.is_available());
}

#[test]
fn a_forced_charge_binding_counts_as_unavailable() {
    let mut f = Fixture::framework_13();
    f.write(
        "sys/class/power_supply/BAT1/charge_control_end_threshold",
        "80\n",
    );
    f.write(
        "sys/module/cros_charge_control/parameters/probe_with_fwk_charge_control",
        "Y\n",
    );
    let caps = f.probe();
    assert!(caps.charge_limit.text().contains("UEFI setup"));
    assert_eq!(describe(&Cap::Yes), "available");
    assert_eq!(
        describe(&Cap::No("so".to_string())),
        "unavailable \u{2014} so"
    );
}

#[test]
fn the_second_energy_zone_stands_in_for_the_first() {
    let mut f = Fixture::framework_13();
    f.files.remove("sys/class/powercap/intel-rapl-mmio:0/energy_uj");
    assert_eq!(
        f.probe().package_power,
        Cap::No("no rapl zone exposes energy_uj".to_string())
    );
    f.write("sys/class/powercap/intel-rapl:0/energy_uj", "5\n");
    let caps = f.probe();
    assert_eq!(
        caps.energy_zone.as_deref(),
        Some("sys/class/powercap/intel-rapl:0")
    );
    f.write("sys/class/powercap/intel-rapl:0/energy_uj", "secret\n");
    assert_eq!(
        f.probe().package_power,
        Cap::No("energy_uj unreadable; daemon must run as root".to_string())
    );
}

#[test]
fn degrades_gracefully_with_no_hardware() {
    let mut f = Fixture::new();
    f.write("sys/placeholder", "\n");
    let caps = f.probe();
    for (name, cap) in caps.summary() {
        assert!(!cap.is_available(), "{name} should be unavailable");
        assert!(!cap.text().is_empty(), "{name} must carry a reason");
    }
}

#[test]
fn samples_telemetry_and_picks_the_control_sensor() {
    let mut f = Fixture::framework_13();
    let mut mon = f.monitor();
    let t = f.sample(&mut mon, 0);

    assert_eq!(t.fan_rpm, Some(2925));
    assert_eq!(t.battery_percent, Some(100));
    assert_eq!(t.platform_profile.as_deref(), Some("balanced"));
    assert_eq!(t.temps.len(), 2);

    let ctrl = t.control_temp().expect("a control sensor");
    assert_eq!(ctrl.label, "peci-temp");
    assert_eq!(ctrl.celsius, 64_800);
    assert_eq!(ctrl.critical, Some(119_850));

    assert_eq!(t.package_watts, None);
}

#[test]
fn power_and_its_floor_come_with_the_second_sample() {
    let mut f = Fixture::framework_13();
    let mut mon = f.monitor();
    f.sample(&mut mon, 0);
    let zone = "sys/class/powercap/intel-rapl-mmio:0/energy_uj";
    f.write(zone, "26040000\n");
    let t = f.sample(&mut mon, SECOND);
    assert_eq!(t.package_watts, Some(25_000_000), "quantized from 25.04 W");
    assert_eq!(t.package_watts_floor, Some(25_000_000));
    mon.on_resume();
    f.write(zone, "36040000\n");
    let t = f.sample(&mut mon, 2 * SECOND);
    assert_eq!(t.package_watts, None, "no reference across a sleep");
    assert_eq!(t.package_watts_floor, Some(25_000_000));
    assert_eq!(
        mon.capabilities().ec_hwmon.as_deref(),
        Some("sys/class/hwmon/hwmon7")
    );
}

#[test]
fn discharge_is_derived_from_either_family() {
    let bat = "sys/class/power_supply/BAT1";
    let mut f = Fixture::framework_13();
    let mut mon = f.monitor();
    f.write(&format!("{bat}/current_now"), "1500000\n");
    f.write(&format!("{bat}/voltage_now"), "15400000\n");
    f.write(&format!("{bat}/charge_now"), "3000000\n");
    let t = f.sample(&mut mon, 0);
    assert_eq!((t.system_watts, t.battery_minutes), (None, None));

    f.write(&format!("{bat}/status"), "Discharging\n");
    let t = f.sample(&mut mon, 0);
    assert_eq!(t.system_watts, Some(23_100_000));
    assert_eq!(t.battery_minutes, Some(120));

    f.write(&format!("{bat}/power_now"), "12000000\n");
    f.write(&format!("{bat}/energy_now"), "30000000\n");
    let t = f.sample(&mut mon, 0);
    assert_eq!(t.system_watts, Some(12_000_000));
    assert_eq!(t.battery_minutes, Some(150));

    f.write(&format!("{bat}/power_now"), "0\n");
    let t = f.sample(&mut mon, 0);
    assert_eq!((t.system_watts, t.battery_minutes), (Some(0), None));
}

#[test]
fn mains_is_found_by_type() {
    let mut f = Fixture::framework_13();
    let mut mon = f.monitor();
    assert_eq!(f.sample(&mut mon, 0).on_ac, None);
    f.write("sys/class/power_supply/ACAD/type", "Mains\n");
    f.write("sys/class/power_supply/ACAD/online", "1\n");
    assert_eq!(f.sample(&mut mon, 0).on_ac, Some(true));
    f.write("sys/class/power_supply/ACAD/online", "0\n");
    assert_eq!(f.sample(&mut mon, 0).on_ac, Some(false));
}

#[test]
fn a_sensor_without_a_label_is_named_by_number() {
    let mut f = Fixture::framework_13();
    f.write(&format!("{EC}/temp3_input"), "-5000\n");
    f.write(&format!("{EC}/temp3_crit"), "-273150\n");
    let mut mon = f.monitor();
    let t = f.sample(&mut mon, 0);
    assert_eq!(
        t.temps[1],
        TempReading {
            label: "temp3".to_string(),
            celsius: -5_000,
            critical: None
        }
    );
}

#[test]
fn rejects_unset_temperature_thresholds() {
    assert!(!Monitor::plausible_threshold(-273_150));
    assert!(Monitor::plausible_threshold(87_850));
    assert!(!Monitor::plausible_threshold(1_000_000));
}

fn reading(label: &str, celsius: f64, critical: Option<f64>) -> TempReading {
    TempReading {
        label: label.into(),
        celsius: (celsius * 1000.0).round() as i64,
        critical: critical.map(|c| (c * 1000.0).round() as i64),
    }
}

#[test]
fn finds_the_battery_sensor_by_label() {
    let t = Telemetry {
        temps: vec![
            reading("peci-temp", 70.0, Some(119.85)),
            reading("battery_temp@b", 38.0, Some(49.9)),
        ],
        ..Default::default()
    };
    let b = t.battery_temp().expect("battery sensor");
    assert_eq!(b.celsius, 38_000);
    assert_eq!(b.critical, Some(49_900));
    assert_eq!(t.control_temp().unwrap().label, "peci-temp");
}

#[test]
fn no_battery_sensor_is_not_an_error() {
    let t = Telemetry {
        temps: vec![reading("peci-temp", 70.0, None)],
        ..Default::default()
    };
    assert!(t.battery_temp().is_none());
}

#[test]
fn control_temp_prefers_peci() {
    let t = Telemetry {
        temps: vec![
            reading("ddr_f75303@4d", 90.0, None),
            reading("peci-temp", 46.8, None),
        ],
        ..Default::default()
    };
    assert_eq!(t.control_temp().unwrap().label, "peci-temp");
}

#[test]
fn control_temp_falls_back_to_hottest() {
    let t = Telemetry {
        temps: vec![
            reading("battery_temp@b", 30.0, None),
            reading("local_f75397@4c", 55.0, None),
        ],
        ..Default::default()
    };
    assert_eq!(t.control_temp().unwrap().celsius, 55_000);
}

#[test]
fn control_temp_prefers_anything_cpu_ish_over_the_hottest() {
    let t = Telemetry {
        temps: vec![
            reading("ddr", 90.0, None),
            reading("cpu@4c", 50.0, None),
            reading("cpu_f75303@4d", 60.0, None),
        ],
        ..Default::default()
    };
    assert_eq!(t.control_temp().unwrap().label, "cpu@4c");
    assert!(Telemetry::default().control_temp().is_none());
}

fn monitor() -> Monitor {
    Fixture::new().monitor()
}

/// A power as the library takes it.
fn uw(watts: f64) -> i64 {
    (watts * 1e6).round() as i64
}

#[test]
fn the_first_reading_sets_the_floor() {
    let mut m = monitor();
    m.observe_floor(uw(6.0));
    assert_eq!(m.watts_floor(), Some(uw(6.0)));
}

#[test]
fn a_single_low_reading_does_not_move_the_floor() {
    let mut m = monitor();
    m.observe_floor(uw(6.0));
    m.observe_floor(uw(0.5));
    assert_eq!(
        m.watts_floor(),
        Some(uw(6.0)),
        "one low sample moved the floor"
    );
    m.observe_floor(uw(6.2));
    m.observe_floor(uw(0.5));
    assert_eq!(
        m.watts_floor(),
        Some(uw(6.0)),
        "a later lone sample moved it"
    );
}

#[test]
fn two_consecutive_low_readings_move_it_to_the_higher_of_the_pair() {
    let mut m = monitor();
    m.observe_floor(uw(6.0));
    m.observe_floor(uw(3.6));
    m.observe_floor(uw(3.9));
    assert_eq!(m.watts_floor(), Some(uw(3.9)));
}

#[test]
fn the_floor_never_rises() {
    let mut m = monitor();
    m.observe_floor(uw(4.0));
    m.observe_floor(uw(2.0));
    m.observe_floor(uw(2.1));
    assert_eq!(m.watts_floor(), Some(uw(2.1)));
    for w in [30.0, 12.0, 8.0] {
        m.observe_floor(uw(w));
    }
    assert_eq!(m.watts_floor(), Some(uw(2.1)), "load raised the idle floor");
}

#[test]
fn implausible_readings_are_refused() {
    let mut m = monitor();
    m.observe_floor(uw(5.0));
    for bad in [0.0, -1.0, 0.01, f64::NAN, f64::INFINITY] {
        m.observe_floor(uw(bad));
        m.observe_floor(uw(bad));
    }
    assert_eq!(m.watts_floor(), Some(uw(5.0)));
}

// Paths and the power limit.

#[test]
fn paths_tolerate_leading_slashes() {
    assert_eq!(Sysfs::new("/tmp/x").path("/sys/a"), "/tmp/x/sys/a");
    assert_eq!(Sysfs::new("/tmp/x/").path("sys/a"), "/tmp/x/sys/a");
    assert_eq!(Sysfs::default().path("//sys/a"), "/sys/a");
    assert_eq!(Sysfs::new("").path("sys/a"), "sys/a");
}

#[test]
fn numbers_in_files_are_read_with_white_space_around_them() {
    let fs = Sysfs::default();
    assert_eq!(fs.read_u64("f", Ok(" 42\n".to_string())), Ok(42));
    assert_eq!(fs.read_i64("f", Ok("-273150\n".to_string())), Ok(-273_150));
    assert_eq!(fs.read_string(Ok(" x y \n".to_string())), Ok("x y".to_string()));
    let e = fs.read_u64("f", Ok("18446744073709551616".to_string())).unwrap_err();
    assert_eq!(e.kind, IoErrorKind::InvalidData);
    assert_eq!(
        e.text(),
        "f: cannot parse \"18446744073709551616\" as u64: number too large to fit in target type"
    );
    assert_eq!(
        fs.read_u64("f", Ok("\n".to_string())).unwrap_err().text(),
        "f: cannot parse \"\" as u64: cannot parse integer from empty string"
    );
    assert_eq!(
        fs.read_i64("f", Ok("-9223372036854775809".to_string()))
            .unwrap_err()
            .text(),
        "f: cannot parse \"-9223372036854775809\" as i64: number too small to fit in target type"
    );
    assert_eq!(fs.read_u64("f", Err(not_found())), Err(not_found()));
}

#[test]
fn a_power_limit_is_kept_within_the_zone() {
    let limit = "sys/class/powercap/intel-rapl-mmio:0/constraint_0_power_limit_uw";
    let mut f = Fixture::framework_13();
    let p = PowerLimit::new();
    assert_eq!(f.drive(|a| p.read(a)), Ok(25));
    assert_eq!(f.drive(|a| p.max_watts(a)), 25);
    assert_eq!(f.drive(|a| p.set(15, a)), Ok(()));
    assert_eq!(raw(&f, limit), "15000000");
    assert_eq!(f.drive(|a| p.set(200, a)), Ok(()));
    assert_eq!(raw(&f, limit), "25000000");
    assert_eq!(f.drive(|a| p.set(2, a)), Ok(()));
    assert_eq!(raw(&f, limit), "8000000");
    f.stubborn.push(limit.to_string());
    assert_eq!(
        f.drive(|a| p.set(20, a)),
        Err(PowerError::NotApplied {
            requested: 20,
            observed: 8
        })
    );
    let mut none = Fixture::new();
    assert_eq!(none.drive(|a| p.read(a)), Err(PowerError::Unsupported));
    assert_eq!(none.drive(|a| p.max_watts(a)), 25);
}
