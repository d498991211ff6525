//! Raw EC commands: framing, the charge limit and the fan, against an EC in memory.

use fw_helper::board::{identify_name, Board};
use fw_helper::ec::{self, ChargeLimits};
use fw_helper::ecfan::EcFan;
use fw_helper::fan::MIN_TAKEOVER_DUTY;
use fw_helper::sysfs::{FileOp, IoError, IoErrorKind};
use fw_helper::transport::{
    charge_capability, fan_capability, judge, read_charge_limit, set_charge_limit,
    ByteOrder, ChargeLimitError, CrosEc, EcAnswer, EcChargeLimit, EcError, EcStep, EcTransport,
    CROS_EC_DEV_IOCXCMD_V2, DEVICE,
};
use fw_helper::{Cap, FanError, FanMode};
use std::cell::{Cell, RefCell};

struct FakeEc {
    sent: RefCell<Vec<(u32, Vec<u8>, usize)>>,
    limits: Cell<ChargeLimits>,
    alive: bool,
    /// `None` while firmware owns the fan, otherwise the percent last commanded.
    fan: Cell<Option<u8>>,
    refuse_release: Cell<bool>,
    refuse_duty: Cell<bool>,
    deaf: bool,
}

impl FakeEc {
    fn new(min: u8, max: u8) -> Self {
        Self {
            sent: RefCell::new(Vec::new()),
            limits: Cell::new(ChargeLimits { min, max }),
            alive: true,
            fan: Cell::new(None),
            refuse_release: Cell::new(false),
            refuse_duty: Cell::new(false),
            deaf: false,
        }
    }

    fn fan_percent(&self) -> Option<u8> {
        self.fan.get()
    }

    fn dead() -> Self {
        Self {
            alive: false,
            ..Self::new(0, 100)
        }
    }
}

impl EcTransport for FakeEc {
    fn command(
        &self,
        command: u32,
        _version: u32,
        out: &[u8],
        insize: usize,
    ) -> Result<Vec<u8>, EcError> {
        if !self.alive {
            return Err(EcError::Rejected(1));
        }
        self.sent.borrow_mut().push((command, out.to_vec(), insize));
        if command == ec::fan::SET_FAN_DUTY {
            let bytes: [u8; 4] = out.try_into().map_err(|_| EcError::Rejected(3))?;
            let percent = u32::from_le_bytes(bytes);
            if percent > u32::from(ec::fan::MAX_DUTY) || self.refuse_duty.get() {
                return Err(EcError::Rejected(3));
            }
            self.fan.set(Some(percent as u8));
            return Ok(Vec::new());
        }
        if command == ec::fan::AUTO_FAN_CTRL {
            if self.refuse_release.get() {
                return Err(EcError::Rejected(1));
            }
            self.fan.set(None);
            return Ok(Vec::new());
        }
        if command == ec::features::GET_FEATURES {
            let mut answer = 0x0207_E6AE_u32.to_le_bytes().to_vec();
            answer.extend_from_slice(&0x0000_0207_u32.to_le_bytes());
            return Ok(answer);
        }
        if command != ec::CHARGE_LIMIT_CONTROL {
            return Err(EcError::Rejected(1));
        }
        match out[0] {
            x if x == ec::mode::GET => {
                let l = self.limits.get();
                Ok(vec![l.max, l.min])
            }
            x if x == ec::mode::SET => {
                if !self.deaf {
                    self.limits.set(ChargeLimits {
                        max: out[1],
                        min: out[2],
                    });
                }
                Ok(Vec::new())
            }
            _ => Err(EcError::Rejected(1)),
        }
    }
}

/// Run a piece of work on an EC to its end.
fn drive<E: EcTransport, T>(ec: &E, mut work: impl FnMut(&[EcAnswer]) -> EcStep<T>) -> T {
    let mut answers: Vec<EcAnswer> = Vec::new();
    loop {
        match work(&answers) {
            EcStep::Done(v) => return v,
            EcStep::Send {
                command,
                version,
                out,
                insize,
            } => answers.push(ec.command(command, version, &out, insize)),
        }
    }
}

fn node() -> Option<String> {
    Some("sys/class/hwmon/hwmon8".to_string())
}

#[test]
fn fan_control_is_offered_only_on_a_measured_board_whose_ec_can_do_it() {
    let ec = FakeEc::new(0, 100);
    assert_eq!(drive(&ec, |a| fan_capability(&identify_name("FRANMGCP09"), a)), Cap::Yes);

    match drive(&ec, |a| fan_capability(&Board::Unknown, a)) {
        Cap::No(reason) => assert!(reason.contains("unmeasured"), "{reason}"),
        Cap::Yes => panic!("an unmeasured board must not get fan control"),
    }
    match drive(&FakeEc::dead(), |a| fan_capability(&identify_name("FRANMGCP09"), a)) {
        Cap::No(reason) => assert!(reason.contains("features"), "{reason}"),
        Cap::Yes => panic!("an EC that will not answer must not get fan control"),
    }
}

#[test]
fn taking_the_fan_sends_the_duty_as_a_percent() {
    let ec = FakeEc::new(0, 100);
    let mut fan = EcFan::new(node(), false);
    let settled = drive(&ec, |a| fan.take_manual(255, a)).unwrap();
    assert_eq!(ec.fan_percent(), Some(100), "255 must reach the EC as 100%");
    assert_eq!(settled, 255);
    assert_eq!(fan.mode().unwrap(), FanMode::Manual);
}

#[test]
fn a_duty_that_cannot_start_the_fan_never_reaches_the_ec() {
    let ec = FakeEc::new(0, 100);
    let mut fan = EcFan::new(node(), false);
    assert!(matches!(
        drive(&ec, |a| fan.take_manual(MIN_TAKEOVER_DUTY - 1, a)),
        Err(FanError::DutyCannotTurnFan(_))
    ));
    assert!(ec.sent.borrow().is_empty());
    assert_eq!(
        fan.mode().unwrap(),
        FanMode::Auto,
        "refusal must not record a takeover"
    );
}

#[test]
fn changing_duty_without_holding_the_fan_is_refused() {
    let ec = FakeEc::new(0, 100);
    let mut fan = EcFan::new(node(), false);
    assert!(matches!(
        drive(&ec, |a| fan.set_duty(128, a)),
        Err(FanError::NotUnderManualControl(_))
    ));
    assert_eq!(ec.fan_percent(), None);
}

#[test]
fn release_hands_the_fan_back_and_clears_the_belief() {
    let ec = FakeEc::new(0, 100);
    let mut fan = EcFan::new(node(), false);
    drive(&ec, |a| fan.take_manual(128, a)).unwrap();
    drive(&ec, |a| fan.release(a)).unwrap();
    assert_eq!(ec.fan_percent(), None);
    assert_eq!(fan.mode().unwrap(), FanMode::Auto);
    let sent = ec.sent.borrow();
    let last = sent.last().unwrap();
    assert_eq!(last.0, ec::fan::AUTO_FAN_CTRL);
    assert!(last.1.is_empty());
}

#[test]
fn release_is_safe_to_repeat() {
    let ec = FakeEc::new(0, 100);
    let mut fan = EcFan::new(node(), false);
    assert!(drive(&ec, |a| fan.release_best_effort(a)));
    assert!(drive(&ec, |a| fan.release_best_effort(a)));
    assert_eq!(ec.fan_percent(), None);
}

#[test]
fn a_refused_release_is_loud_and_keeps_the_belief() {
    let ec = FakeEc::new(0, 100);
    let mut fan = EcFan::new(node(), false);
    drive(&ec, |a| fan.take_manual(128, a)).unwrap();
    ec.refuse_release.set(true);
    let err = drive(&ec, |a| fan.release(a)).unwrap_err();
    assert!(matches!(err, FanError::EcNotReleased(_)));
    assert!(
        err.text().contains("fw-helper-restore-fan"),
        "{}",
        err.text()
    );
    assert_eq!(fan.mode().unwrap(), FanMode::Manual);
    assert!(!drive(&ec, |a| fan.release_best_effort(a)));
}

#[test]
fn this_backend_admits_what_it_cannot_see() {
    let ec = FakeEc::new(0, 100);
    let fan = EcFan::new(node(), false);
    assert_eq!(fan.duty().unwrap(), None);
    assert!(!fan.mode_is_observable());
    assert_eq!(
        fan.rpm_path().as_deref(),
        Some("sys/class/hwmon/hwmon8/fan1_input")
    );
    assert_eq!(
        fan.rpm(Ok("3210\n".to_string())),
        Some(3210),
        "RPM is the one feedback there is"
    );
}

#[test]
fn a_board_without_the_hwmon_node_is_unsupported() {
    let ec = FakeEc::new(0, 100);
    let mut fan = EcFan::new(None, false);
    assert!(matches!(drive(&ec, |a| fan.take_manual(128, a)), Err(FanError::Unsupported)));
    assert_eq!(fan.mode().unwrap(), FanMode::Auto);
}

#[test]
fn a_duty_the_ec_refuses_gives_the_fan_back() {
    let ec = FakeEc::new(0, 100);
    let mut fan = EcFan::new(node(), false);
    ec.refuse_duty.set(true);
    assert_eq!(
        drive(&ec, |a| fan.take_manual(128, a)),
        Err(FanError::Ec(
            "the EC rejected the command (result 3)".to_string()
        ))
    );
    assert_eq!(fan.mode().unwrap(), FanMode::Auto);
    ec.refuse_release.set(true);
    assert_eq!(
        drive(&ec, |a| fan.take_manual(128, a)),
        Err(FanError::EcNotReleased(
            "after a failed duty write: the EC rejected the command (result 3)".to_string()
        ))
    );
    assert_eq!(fan.mode().unwrap(), FanMode::Manual);

    // Refused before it is sent, and given back all the same.
    let ec = FakeEc::new(0, 100);
    let mut fan = EcFan::new(node(), true);
    assert_eq!(drive(&ec, |a| fan.set_duty(12, a)), Err(FanError::DutyCannotTurnFan(12)));
    assert_eq!(fan.mode().unwrap(), FanMode::Auto);
    assert_eq!(ec.sent.borrow().len(), 1);
}

#[test]
fn ioctl_number_matches_what_the_hardware_probe_used() {
    assert_eq!(CROS_EC_DEV_IOCXCMD_V2, 0xC014_EC00);
}

#[test]
fn reads_the_limits_the_ec_holds() {
    let ec = FakeEc::new(0, 100);
    let limits = drive(&ec, |a| EcChargeLimit::new().get(a)).unwrap();
    assert_eq!(limits, ChargeLimits { min: 0, max: 100 });
}

#[test]
fn setting_a_maximum_preserves_the_existing_minimum() {
    let ec = FakeEc::new(20, 100);
    let got = drive(&ec, |a| EcChargeLimit::new().set_max(80, a)).unwrap();
    assert_eq!(got, ChargeLimits { min: 20, max: 80 });
}

#[test]
fn set_sends_the_command_the_ec_expects() {
    let ec = FakeEc::new(0, 100);
    drive(&ec, |a| EcChargeLimit::new().set_max(80, a)).unwrap();
    let sent = ec.sent.borrow();
    assert_eq!(sent.len(), 3);
    assert_eq!(sent[1].0, 0x3E03);
    assert_eq!(sent[1].1, vec![ec::mode::SET, 80, 0]);
    assert_eq!(sent[1].2, 0);
}

struct Dead;

impl EcTransport for Dead {
    fn command(&self, _: u32, _: u32, _: &[u8], _: usize) -> Result<Vec<u8>, EcError> {
        Err(EcError::Rejected(3))
    }
}

#[test]
fn a_rejected_command_is_an_error_not_a_limit() {
    assert!(drive(&Dead, |a| EcChargeLimit::new().get(a)).is_err());
}

#[test]
fn a_charge_limit_is_judged_by_what_the_ec_reports() {
    let ec = FakeEc::new(20, 100);
    assert_eq!(
        drive(&ec, |a| set_charge_limit(80, a)),
        Ok(FileOp::Write(
            "sys/class/power_supply/BAT1/charge_control_end_threshold".to_string(),
            "80".to_string()
        ))
    );
    assert_eq!(drive(&ec, read_charge_limit), Ok(80));
    assert_eq!(
        drive(&Dead, |a| set_charge_limit(19, a)),
        Err(ChargeLimitError::OutOfRange(19)),
        "a typo reports as a typo on any machine"
    );
    assert_eq!(
        drive(&Dead, |a| set_charge_limit(80, a)),
        Err(ChargeLimitError::Ec(EcError::Rejected(3)))
    );
    let deaf = FakeEc {
        deaf: true,
        ..FakeEc::new(0, 100)
    };
    let e = drive(&deaf, |a| set_charge_limit(80, a)).unwrap_err();
    assert_eq!(
        e,
        ChargeLimitError::NotApplied {
            requested: 80,
            observed: 100
        }
    );
    assert_eq!(e.text(), "asked the EC for 80% and it reports 100%");
    assert_eq!(drive(&ec, charge_capability), Cap::Yes);
    assert_eq!(
        drive(&Dead, charge_capability),
        Cap::No("the EC rejected the command (result 3)".to_string())
    );
}

#[test]
fn commands_are_framed_and_answers_unframed() {
    let order = ByteOrder::Little;
    let buf = CrosEc::request(order, 0x3E03, 1, &[8, 255, 255], 2);
    assert_eq!(
        buf,
        vec![
            1, 0, 0, 0, 3, 0x3E, 0, 0, 3, 0, 0, 0, 2, 0, 0, 0, 0, 0, 0, 0, 8, 255, 255
        ]
    );
    let wide = CrosEc::request(order, 0x0D, 0, &[], 8);
    assert_eq!(wide.len(), 28);

    let mut back = buf.clone();
    back[20] = 80;
    back[21] = 20;
    assert_eq!(CrosEc::response(order, &back, 2, 2), Ok(vec![80, 20]));
    assert_eq!(
        CrosEc::response(order, &back, 1, 2),
        Err(EcError::ShortResponse { want: 2, got: 1 })
    );
    assert_eq!(
        CrosEc::response(order, &back, 99, 3),
        Ok(vec![80, 20, 255]),
        "never more than the buffer holds"
    );
    back[16] = 3;
    back[17] = 1;
    assert_eq!(CrosEc::response(order, &back, 2, 2), Err(EcError::Rejected(259)));
    assert_eq!(CrosEc::default().path(), DEVICE);

    let big = ByteOrder::Big;
    let mut buf = CrosEc::request(big, 0x3E03, 1, &[8], 2);
    assert_eq!(
        buf,
        vec![0, 0, 0, 1, 0, 0, 0x3E, 3, 0, 0, 0, 1, 0, 0, 0, 2, 0, 0, 0, 0, 8, 0]
    );
    buf[18] = 1;
    assert_eq!(
        CrosEc::response(big, &buf, 2, 2),
        Err(EcError::Rejected(256))
    );
    assert_eq!(ByteOrder::of([1, 0, 0, 0]), ByteOrder::Little);
    assert_eq!(ByteOrder::of([0, 0, 0, 1]), ByteOrder::Big);
    let native = CrosEc::request(ByteOrder::native(), 0x3E03, 1, &[], 0);
    assert_eq!(native[4..8], 0x3E03u32.to_ne_bytes());
}

#[test]
fn transport_errors_say_what_is_missing() {
    let io = |kind| IoError {
        kind,
        message: "why".to_string(),
    };
    assert_eq!(
        EcError::Open(io(IoErrorKind::PermissionDenied)).text(),
        "/dev/cros_ec needs root"
    );
    assert_eq!(
        EcError::Open(io(IoErrorKind::NotFound)).text(),
        "no /dev/cros_ec; is cros_ec_chardev loaded?"
    );
    assert_eq!(
        EcError::Open(io(IoErrorKind::Other)).text(),
        "cannot open /dev/cros_ec: why"
    );
    assert_eq!(
        EcError::Ioctl(io(IoErrorKind::Other)).text(),
        "EC command failed: why"
    );
    assert_eq!(
        EcError::ShortResponse { want: 2, got: 0 }.text(),
        "the EC returned 0 bytes, expected 2"
    );
}

#[test]
fn every_command_is_sent_in_its_place() {
    let get = (0x3E03, vec![8, 255, 255], 2);
    let ec = FakeEc::new(20, 100);
    assert_eq!(
        drive(&ec, |a| EcChargeLimit::new().set_max(80, a)),
        Ok(ChargeLimits { min: 20, max: 80 })
    );
    assert_eq!(
        *ec.sent.borrow(),
        vec![get.clone(), (0x3E03, vec![2, 80, 20], 0), get.clone()]
    );

    let ec = FakeEc::new(20, 80);
    assert_eq!(drive(&ec, read_charge_limit), Ok(80));
    assert_eq!(drive(&ec, charge_capability), Cap::Yes);
    assert_eq!(*ec.sent.borrow(), vec![get.clone(), get]);
    assert_eq!(ec.limits.get(), ChargeLimits { min: 20, max: 80 });

    let ec = FakeEc::new(20, 80);
    for percent in [0, 19, 101, 255] {
        assert_eq!(
            drive(&ec, |a| set_charge_limit(percent, a)),
            Err(ChargeLimitError::OutOfRange(percent))
        );
    }
    assert!(ec.sent.borrow().is_empty());

    // What was read before the set decides nothing.
    let had = ChargeLimits { min: 0, max: 80 };
    assert_eq!(judge(80, Ok(had)), Ok(()));
    assert_eq!(
        judge(90, Ok(had)),
        Err(ChargeLimitError::NotApplied {
            requested: 90,
            observed: 80
        })
    );
}

#[test]
fn a_failure_ends_the_work() {
    let refused = || Err(EcError::Rejected(3));
    let set = |answers: &[EcAnswer]| EcChargeLimit::new().set_max(80, answers);
    assert_eq!(set(&[refused()]), EcStep::Done(Err(EcError::Rejected(3))));
    assert_eq!(
        set(&[Ok(vec![100]), Ok(vec![])]),
        EcStep::Done(Err(EcError::ShortResponse { want: 2, got: 1 }))
    );
    assert_eq!(
        set(&[Ok(vec![100, 0]), refused()]),
        EcStep::Done(Err(EcError::Rejected(3)))
    );
    assert_eq!(
        set(&[Ok(vec![100, 0]), Ok(vec![]), Ok(vec![77, 0])]),
        EcStep::Done(Ok(ChargeLimits { min: 0, max: 77 }))
    );
}

#[test]
fn the_least_duty_is_the_same_on_every_board() {
    let ec = FakeEc::new(0, 100);
    let mut fan = EcFan::new(node(), false);
    assert_eq!(
        drive(&ec, |a| fan.take_manual(32, a)),
        Err(FanError::DutyCannotTurnFan(32))
    );
    assert!(ec.sent.borrow().is_empty());
    assert_eq!(drive(&ec, |a| fan.take_manual(33, a)), Ok(33));
    assert_eq!(ec.fan_percent(), Some(13));
    assert_eq!(
        FanError::DutyCannotTurnFan(32).text(),
        "duty 32/255 cannot turn the fan: measured, duty 20 gives 0 rpm and duty 30 gives 1107 \
         rpm. Use 0 for a stopped fan, or at least 33 for a turning one"
    );
}

#[test]
fn the_belief_stands_before_the_duty_goes_out() {
    let mut fan = EcFan::new(node(), false);
    assert!(matches!(
        fan.take_manual(128, &[]),
        EcStep::Send {
            command: ec::fan::SET_FAN_DUTY,
            ..
        }
    ));
    assert_eq!(fan.mode().unwrap(), FanMode::Manual);
}
