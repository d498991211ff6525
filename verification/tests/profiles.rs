//! Profiles, their files, the state file, and the numbers and texts they are made of.

use fw_helper::board::{identify_name, Board};
use fw_helper::editor::{
    as_cli_argument, insert_point, takes_running, to_pairs, to_points,
};
use fw_helper::number::{
    no_places_text, one_place_of_micro_text, one_place_text, parse_milli, parse_milli_outward,
    parse_not_finite, parse_signed, parse_up_to, NumberError,
};
use fw_helper::order::{comes_before, hottest_first, sorted_order};
use fw_helper::profiles::{
    conf, load_from, merge, parse, parse_curve, profile_text, ProfileFile,
};
use fw_helper::state::{floor_applies, parse_floor, State};
use fw_helper::sysfs::{IoError, IoErrorKind};
use fw_helper::text::{contains, find_last, lines, split, split_once, starts_with, trim, words};
use fw_helper::{Curve, Point, Ppd, Profile, ProfileError, STICTION_DUTY};

fn t(celsius: f64) -> Option<i64> {
    Some((celsius * 1000.0).round() as i64)
}

// Profiles.

#[test]
fn every_ppd_profile_maps_to_one_of_ours() {
    for ppd in [Ppd::PowerSaver, Ppd::Balanced, Ppd::Performance] {
        assert_eq!(Profile::for_ppd(ppd).ppd, ppd);
        assert_eq!(Profile::for_ppd(ppd).name, Profile::canonical_name_for(ppd));
    }
}

#[test]
fn ppd_names_round_trip_on_the_wire() {
    for ppd in [Ppd::PowerSaver, Ppd::Balanced, Ppd::Performance] {
        assert_eq!(Ppd::parse(ppd.as_str()), Some(ppd));
    }
    assert_eq!(Ppd::parse("turbo"), None);
}

#[test]
fn rejects_profiles_a_config_file_could_get_wrong() {
    let base = Profile::quiet();
    let with = |f: fn(&mut Profile)| {
        let mut p = base.clone();
        f(&mut p);
        p.validate().unwrap_err()
    };
    assert_eq!(with(|p| p.name.clear()), ProfileError::EmptyName);
    assert!(matches!(
        with(|p| p.name = "My Profile".into()),
        ProfileError::NameNotSimple(_)
    ));
    assert!(matches!(
        with(|p| p.pl1_watts = 2),
        ProfileError::PowerOutOfRange(2)
    ));
    assert!(matches!(
        with(|p| p.charge_limit = Some(5)),
        ProfileError::ChargeOutOfRange(5)
    ));
}

#[test]
fn profiles_are_ordered_by_power_and_by_noise() {
    let (q, b, p) = (
        Profile::quiet(),
        Profile::balanced(),
        Profile::performance(),
    );
    assert!(q.pl1_watts < b.pl1_watts && b.pl1_watts < p.pl1_watts);
    for x in [50.0, 60.0, 70.0, 80.0, 90.0] {
        assert!(
            q.curve.duty_at(t(x)) <= b.curve.duty_at(t(x)),
            "quiet louder than balanced at {x} C"
        );
        assert!(
            b.curve.duty_at(t(x)) <= p.curve.duty_at(t(x)),
            "balanced louder than performance at {x} C"
        );
    }
}

#[test]
fn the_quiet_profile_is_actually_silent_where_it_matters() {
    let q = Profile::quiet();
    assert_eq!(q.curve.duty_at(t(50.0)), 0);
    assert_eq!(q.curve.duty_at(t(55.0)), 0);
    assert!(q.curve.duty_at(t(62.0)) <= 45);
}

#[test]
fn no_built_in_profile_touches_the_charge_limit() {
    for p in Profile::built_ins() {
        assert_eq!(p.charge_limit, None, "{} sets a charge limit", p.name);
    }
}

#[test]
fn power_budgets_stay_inside_the_measured_envelope() {
    for p in Profile::built_ins() {
        assert!(
            p.validate().is_ok(),
            "built-in {} does not validate",
            p.name
        );
    }
}

#[test]
fn profile_errors_name_what_to_fix() {
    assert_eq!(ProfileError::EmptyName.text(), "a profile needs a name");
    assert_eq!(
        ProfileError::NameNotSimple("My \"x\"".to_string()).text(),
        "profile name \"My \\\"x\\\"\" must be lowercase letters, digits and dashes: it is what \
         a user types and what appears on the D-Bus interface"
    );
    assert_eq!(
        ProfileError::PowerOutOfRange(2).text(),
        "2 W is outside the range a power limit can sensibly take (8-25 W)"
    );
    assert_eq!(
        ProfileError::ChargeOutOfRange(5).text(),
        "5% is not a usable charge limit"
    );
    assert!(ProfileError::UnknownPpd("turbo".to_string())
        .text()
        .starts_with("\"turbo\" is not a power-profiles-daemon profile"));
}

// Profile files.

const GOOD: &str = "
# a comment
name         = silent
ppd          = power-saver
pl1_watts    = 12
curve        = 55:0,65:40,75:70,85:110,95:255
charge_limit = 80   # trailing comment
";

#[test]
fn parses_a_complete_profile() {
    let p = parse(GOOD).unwrap();
    assert_eq!(p.name, "silent");
    assert_eq!(p.ppd, Ppd::PowerSaver);
    assert_eq!(p.pl1_watts, 12);
    assert_eq!(p.charge_limit, Some(80));
    assert_eq!(p.curve.duty_at(t(55.0)), 0);
    assert_eq!(p.curve.duty_at(t(95.0)), 255);
}

#[test]
fn a_missing_charge_limit_means_leave_it_alone() {
    let text = GOOD.replace("charge_limit = 80   # trailing comment", "");
    assert_eq!(parse(&text).unwrap().charge_limit, None);
}

#[test]
fn every_rejection_says_which_line_and_why() {
    for (text, want) in [
        ("name = x\nppd = turbo\n", "unknown ppd"),
        (
            "name = x\nppd = balanced\npl1_watts = lots\n",
            "not a number",
        ),
        ("name = x\nnonsense\n", "expected key = value"),
        ("name = x\ngovernor = ondemand\n", "unknown key"),
    ] {
        let e = parse(text).unwrap_err();
        assert!(e.contains(want), "{e:?} should mention {want:?}");
        assert!(e.starts_with("line "), "{e:?} should name the line");
    }
}

#[test]
fn an_incomplete_profile_says_what_is_missing() {
    assert!(parse("name = x\n").unwrap_err().contains("no ppd"));
    assert!(parse("ppd = balanced\n").unwrap_err().contains("no name"));
}

#[test]
fn a_curve_that_falls_as_it_heats_is_rejected_with_the_curve_rules() {
    let text = "name = x\nppd = balanced\npl1_watts = 15\ncurve = 50:200,60:40\n";
    let e = parse(text).unwrap_err();
    assert!(e.contains("less airflow"), "got {e:?}");
}

#[test]
fn a_name_that_is_not_typeable_is_rejected() {
    let text = "name = My Profile\nppd = balanced\npl1_watts = 15\ncurve = 50:0,60:40\n";
    assert!(parse(text).unwrap_err().contains("lowercase"));
}

#[test]
fn rejections_are_worded_exactly() {
    for (text, want) in [
        ("name = x\nppd = turbo\n", "line 2: unknown ppd \"turbo\""),
        ("pl1_watts = -1", "line 1: \"-1\" is not a number"),
        ("\n\ncharge_limit = 300", "line 3: \"300\" is not a percentage"),
        ("curve = 50", "line 1: \"50\" is not temperature:duty"),
        ("curve = warm:3", "line 1: \"warm\" is not a temperature"),
        (
            "curve = 50:0, 60:loud",
            "line 1: \"loud\" is not a duty",
        ),
        ("curve = 50:0", "line 1: a curve needs at least two points"),
        (
            "curve = nan:0,50:40",
            "line 1: point 0 is at NaN C, outside the 0-120 C a fan curve can sensibly describe",
        ),
        (
            "curve = 50:0,-inf:40",
            "line 1: point 1 is at -inf C, outside the 0-120 C a fan curve can sensibly describe",
        ),
        (
            "curve = 50:0,40:40,nan:50",
            "line 1: point 1 is not warmer than the one before it; points must ascend",
        ),
        ("curve = nan:loud", "line 1: \"loud\" is not a duty"),
        ("curve = nan:0", "line 1: a curve needs at least two points"),
        (
            "curve = 50:0,120.0004:40",
            "line 1: point 1 is at 120.0 C, outside the 0-120 C a fan curve can sensibly describe",
        ),
        (
            "curve = 50:0,999:0",
            "line 1: point 1 is at 999.0 C, outside the 0-120 C a fan curve can sensibly describe",
        ),
        ("a = b = c", "line 1: unknown key \"a\""),
        ("", "no name"),
        ("name = x\nppd = balanced", "no pl1_watts"),
        ("name = x\nppd = balanced\npl1_watts = 15", "no curve"),
    ] {
        assert_eq!(parse(text).unwrap_err(), want);
    }
}

#[test]
fn the_shipped_example_actually_parses() {
    let text = "# A profile. Copy it to the profile directory and edit it.\n\
                name      = silent\n\
                \n\
                # power-saver, balanced or performance\n\
                ppd       = power-saver\n\
                pl1_watts = 12\n\
                curve     = 55:0,65:40,75:70,85:110,95:255\n\
                # charge_limit = 80\n";
    let p = parse(text).expect("the example must parse");
    assert_eq!(p.name, "silent");
    assert_eq!(
        p.charge_limit, None,
        "the example's charge_limit is commented out and must stay optional"
    );
}

fn file(name: &str, body: &str) -> ProfileFile {
    ProfileFile {
        path: format!("/etc/fw-helper/profiles.d/{name}"),
        text: Ok(body.to_string()),
    }
}

#[test]
fn no_directory_leaves_the_built_ins_alone() {
    let loaded = load_from(&vec![]);
    assert_eq!(loaded.profiles.len(), Profile::built_ins().len());
}

#[test]
fn a_user_file_can_add_a_profile() {
    let loaded = load_from(&vec![file("silent.conf", GOOD)]);
    assert_eq!(loaded.profiles.len(), Profile::built_ins().len() + 1);
    assert!(loaded.profiles.iter().any(|p| p.name == "silent"));
    assert_eq!(loaded.log, vec!["profile silent: loaded".to_string()]);
}

#[test]
fn a_user_file_replaces_a_built_in_of_the_same_name() {
    let loaded = load_from(&vec![file(
        "quiet.conf",
        "name = quiet\nppd = power-saver\npl1_watts = 10\ncurve = 60:0,70:50\n",
    )]);
    assert_eq!(loaded.profiles.len(), Profile::built_ins().len());
    let quiet = loaded.profiles.iter().find(|p| p.name == "quiet").unwrap();
    assert_eq!(quiet.pl1_watts, 10, "the user's version should win");
    assert_eq!(
        loaded.log,
        vec!["profile quiet: replaces the built-in".to_string()]
    );
}

#[test]
fn one_bad_file_does_not_take_the_others_with_it() {
    let loaded = load_from(&vec![
        file("broken.conf", "name = x\nppd = turbo\n"),
        file("silent.conf", GOOD),
    ]);
    assert!(loaded.profiles.iter().any(|p| p.name == "silent"));
    assert!(!loaded.profiles.iter().any(|p| p.name == "x"));
}

#[test]
fn files_without_the_conf_extension_are_ignored() {
    let loaded = load_from(&vec![
        file("silent.conf.bak", GOOD),
        file(".conf", GOOD),
        file("conf", GOOD),
    ]);
    assert_eq!(loaded.profiles.len(), Profile::built_ins().len());
}

#[test]
fn files_are_taken_in_the_order_of_their_names() {
    let body = |watts: u32| {
        format!("name = mine\nppd = balanced\npl1_watts = {watts}\ncurve = 60:0,70:50\n")
    };
    let unreadable = ProfileFile {
        path: "/p/a.conf".to_string(),
        text: Err(IoError {
            kind: IoErrorKind::PermissionDenied,
            message: "denied".to_string(),
        }),
    };
    let loaded = load_from(&vec![
        file("b.conf", &body(12)),
        file("c.conf", &body(13)),
        unreadable,
        file("a.conf", &body(11)),
    ]);
    assert_eq!(loaded.profiles.last().unwrap().pl1_watts, 13);
    assert!(loaded.profiles.iter().all(|p| p.validate().is_ok()));
    assert_eq!(
        loaded.log,
        vec![
            "profile mine: loaded".to_string(),
            "profile mine: replaces the built-in".to_string(),
            "profile mine: replaces the built-in".to_string(),
            "profile /p/a.conf: cannot read (denied)".to_string(),
        ]
    );
    let mut known = Profile::built_ins();
    assert!(!merge(&mut known, parse(GOOD).unwrap()));
    assert!(merge(&mut known, parse(GOOD).unwrap()));
}

#[test]
fn a_profile_survives_its_file() {
    let mut p = parse(GOOD).unwrap();
    assert_eq!(
        profile_text(&p),
        "name = silent\nppd = power-saver\npl1_watts = 12\n\
         curve = 55:0,65:40,75:70,85:110,95:255\ncharge_limit = 80\n"
    );
    assert_eq!(parse(&profile_text(&p)).unwrap(), p);
    p.charge_limit = None;
    p.curve = Curve::new(pts(&[(0.0, 0), (55.001, 40), (60.25, 90), (120.0, 255)])).unwrap();
    assert_eq!(
        profile_text(&p),
        "name = silent\nppd = power-saver\npl1_watts = 12\n\
         curve = 0:0,55.001:40,60.250:90,120:255\n"
    );
    assert_eq!(parse(&profile_text(&p)).unwrap(), p);
    for p in Profile::built_ins() {
        assert_eq!(parse(&profile_text(&p)).unwrap(), p);
    }
    assert!(conf("/a/b.conf"));
    assert!(!conf("/a/.conf"));
    assert!(!conf("/a/b.conf.bak"));
}

// The editor.

fn pts(raw: &[(f64, u8)]) -> Vec<Point> {
    raw.iter()
        .map(|&(celsius, duty)| Point {
            celsius: (celsius * 1000.0).round() as i64,
            duty,
        })
        .collect()
}

#[test]
fn adding_a_point_keeps_a_curve_valid() {
    let mut p = Curve::default_quiet().points().to_vec();
    for _ in 0..12 {
        insert_point(&mut p).expect("the built-in curve has room");
        Curve::new(p.clone()).expect("still valid after adding a point");
    }
}

#[test]
fn interpolation_never_lands_in_the_stiction_band() {
    let mut p = pts(&[(55.0, 0), (62.0, 40)]);
    insert_point(&mut p).unwrap();
    let added = p[1];
    assert!(
        added.duty == 0 || added.duty >= STICTION_DUTY,
        "duty {} is inside the unturnable band",
        added.duty
    );
    Curve::new(p).unwrap();
}

#[test]
fn a_narrow_gap_extends_rather_than_splitting() {
    let mut p = pts(&[(80.0, 100), (81.0, 110)]);
    insert_point(&mut p).unwrap();
    assert_eq!(p.len(), 3);
    assert_eq!(p[2].celsius, 86_000, "extended past the top, not split");
    Curve::new(p).unwrap();
}

#[test]
fn refuses_when_there_is_no_legal_temperature_left() {
    let mut p = pts(&[(118.0, 200), (119.0, 220)]);
    assert!(insert_point(&mut p).is_err());
    assert_eq!(p.len(), 2, "a refused add must not change the curve");
}

#[test]
fn cli_argument_round_trips_through_the_validator() {
    let c = Curve::default_quiet();
    let wire = to_pairs(c.points());
    let text = as_cli_argument(&wire);
    assert_eq!(text, "55:0,62:40,70:65,80:92,90:130,100:255");
    assert_eq!(parse_curve(&text).unwrap(), c);
}

#[test]
fn a_point_lands_in_the_middle_of_the_widest_gap() {
    let mut p = pts(&[(40.0, 0), (50.0, 50), (61.0, 101)]);
    insert_point(&mut p).unwrap();
    assert_eq!(p[2], pts(&[(56.0, 75)])[0]);
    // A stopped fan past the top stays a stopped fan.
    let mut p = pts(&[(80.0, 0), (81.0, 0)]);
    insert_point(&mut p).unwrap();
    assert_eq!(p[2], pts(&[(86.0, 0)])[0]);
    Curve::new(p).unwrap();
    let mut p = pts(&[(117.0, 250), (118.0, 250)]);
    insert_point(&mut p).unwrap();
    assert_eq!(p[2], pts(&[(120.0, 255)])[0]);
}

#[test]
fn edits_are_not_overwritten_by_the_running_curve() {
    let edited = pts(&[(40.0, 0), (50.0, 50)]);
    let running = vec![(40_000, 0), (50_000, 60)];
    assert!(takes_running(false, &edited, &running));
    assert!(!takes_running(true, &edited, &running));
    assert!(!takes_running(false, &edited, &vec![]));
    assert!(!takes_running(false, &to_points(&running), &running));
}

// State.

#[test]
fn a_floor_follows_its_own_board() {
    assert!(floor_applies(
        Some("FRANMGCP09"),
        &identify_name("FRANMGCP09")
    ));
}

#[test]
fn a_floor_carries_between_boards_that_share_a_fan() {
    assert!(floor_applies(
        Some("FRANMGCP05"),
        &identify_name("FRANMGCP09")
    ));
}

#[test]
fn a_floor_does_not_cross_to_a_different_board() {
    assert!(!floor_applies(
        Some("FRANMJCP07"),
        &identify_name("FRANMGCP09")
    ));
    assert!(!floor_applies(
        Some("FRANMGCP09"),
        &identify_name("FRANMJCP07")
    ));
}

#[test]
fn an_unrecorded_floor_is_kept_only_where_old_builds_could_learn_one() {
    assert!(floor_applies(None, &identify_name("FRANMJCP07")));
    assert!(!floor_applies(None, &identify_name("FRANMGCP09")));
}

#[test]
fn no_floor_applies_to_an_unmeasured_board() {
    assert!(!floor_applies(Some("FRANMGCP09"), &Board::Unknown));
    assert!(!floor_applies(None, &Board::Unknown));
}

#[test]
fn parses_a_floor_list() {
    assert_eq!(
        parse_floor("44:0,60:40,70:92"),
        vec![(44_000, 0u8), (60_000, 40), (70_000, 92)]
    );
}

#[test]
fn skips_damaged_entries_rather_than_losing_the_whole_file() {
    assert_eq!(
        parse_floor("44:0,rubbish,70:92,80:"),
        vec![(44_000, 0u8), (70_000, 92)]
    );
    assert_eq!(parse_floor(""), vec![]);
}

#[test]
fn out_of_range_duties_do_not_parse_as_something_else() {
    assert_eq!(parse_floor("60:300"), vec![]);
}

#[test]
fn a_state_survives_a_restart() {
    let s = State {
        charge_limit: Some(80),
        power_limit: Some(18),
        profile: Some("quiet".to_string()),
        profile_on_ac: Some("performance".to_string()),
        profile_on_battery: None,
        floor: vec![(44_000, 0), (60_000, 40)],
        floor_board: Some("FRANMGCP09".to_string()),
    };
    let text = s.save();
    assert_eq!(
        text,
        "# written by fw-helperd\ncharge_limit=80\npower_limit=18\nprofile=quiet\n\
         profile_on_ac=performance\nfan_floor=44:0,60:40\nfan_floor_board=FRANMGCP09\n"
    );
    assert_eq!(State::load(Some(&text)), s);
    assert_eq!(State::load(None), State::default());
    assert_eq!(State::default().save(), "# written by fw-helperd\n");
}

#[test]
fn damaged_state_lines_are_skipped() {
    let s = State::load(Some(
        " charge_limit = 300 \n\nnonsense\n#profile=x\npower_limit = 15\nprofile =\nother=1\n",
    ));
    assert_eq!(
        s,
        State {
            power_limit: Some(15),
            ..Default::default()
        }
    );
}

// Numbers and texts.

#[test]
fn whole_numbers_are_read_as_documented() {
    assert_eq!(parse_up_to("42", 255), Ok(42));
    assert_eq!(parse_up_to("+42", 255), Ok(42));
    assert_eq!(parse_up_to("256", 255), Err(NumberError::TooLarge));
    assert_eq!(parse_up_to("999x", 255), Err(NumberError::TooLarge));
    assert_eq!(parse_up_to("9x9", 255), Err(NumberError::InvalidDigit));
    assert_eq!(parse_up_to("-1", 255), Err(NumberError::InvalidDigit));
    assert_eq!(parse_up_to("+", 255), Err(NumberError::InvalidDigit));
    assert_eq!(parse_up_to("", 255), Err(NumberError::Empty));
    assert_eq!(parse_signed("-9223372036854775808"), Ok(i64::MIN));
    assert_eq!(parse_signed("9223372036854775807"), Ok(i64::MAX));
    assert_eq!(
        parse_signed("9223372036854775808"),
        Err(NumberError::TooLarge)
    );
    assert_eq!(parse_signed("-"), Err(NumberError::InvalidDigit));
}

#[test]
fn decimal_numbers_are_read_in_thousandths() {
    for (text, want) in [
        ("60", Some(60_000)),
        ("60.5", Some(60_500)),
        ("+.5", Some(500)),
        ("7.", Some(7_000)),
        ("-273.15", Some(-273_150)),
        ("6e1", Some(60_000)),
        ("6.25E-1", Some(625)),
        ("0.0009", Some(0)),
        ("-0.0009", Some(0)),
        ("0e999999999999999999999999999999999999", Some(0)),
        ("1e-99999999999999999999999999999999999", Some(0)),
        ("1e99999999999999999999999999999999999", None),
        ("9223372036854775.807", Some(i64::MAX)),
        ("9223372036854775.808", None),
        (".", None),
        ("", None),
        ("e5", None),
        ("5e", None),
        ("1 ", None),
        ("nan", None),
    ] {
        assert_eq!(parse_milli(text), want, "{text:?}");
    }
    for (text, want) in [
        ("120", Some(120_000)),
        ("120.0004", Some(120_001)),
        ("-0.0004", Some(-1)),
        ("0.000", Some(0)),
        ("1e-99999999999999999999999999999999999", Some(1)),
        ("0e-99999999999999999999999999999999999", Some(0)),
        ("55.5000", Some(55_500)),
        ("9223372036854775.8071", None),
        ("warm", None),
    ] {
        assert_eq!(parse_milli_outward(text), want, "{text:?}");
    }
}

#[test]
fn some_texts_name_no_finite_number() {
    for (text, want) in [
        ("nan", Some("NaN")),
        ("-NaN", Some("NaN")),
        ("inf", Some("inf")),
        ("+Infinity", Some("inf")),
        ("-INF", Some("-inf")),
        ("infinit", None),
        ("", None),
        ("-", None),
        ("5", None),
    ] {
        assert_eq!(parse_not_finite(text), want, "{text:?}");
    }
}

#[test]
fn numbers_are_written_to_the_nearest_place() {
    assert_eq!(one_place_text(72_850), "72.8");
    assert_eq!(one_place_text(72_851), "72.9");
    assert_eq!(one_place_text(72_950), "73.0");
    // Half way between two tenths, the nearest double decides.
    assert_eq!(one_place_text(53_850), "53.9");
    assert_eq!(one_place_text(44_850), "44.9");
    assert_eq!(one_place_text(64_850), "64.8");
    assert_eq!(one_place_text(250), "0.2");
    assert_eq!(one_place_text(750), "0.8");
    for milli in -130_000..130_000 {
        assert_eq!(one_place_text(milli), format!("{:.1}", milli as f64 / 1000.0));
    }
    assert_eq!(one_place_text(-40), "-0.0");
    assert_eq!(no_places_text(2_500), "2");
    assert_eq!(no_places_text(3_500), "4");
    assert_eq!(no_places_text(-1_501), "-2");
    assert_eq!(one_place_of_micro_text(24_671_200), "24.7");
    assert_eq!(one_place_text(i64::MIN), "-9223372036854776.0");
}

#[test]
fn texts_are_taken_apart() {
    assert_eq!(trim("\u{3000} a b\t\n"), "a b");
    assert_eq!(split("a,,b,", ','), vec!["a", "", "b", ""]);
    assert_eq!(split_once("a=b=c", '='), Some(("a", "b=c")));
    assert_eq!(split_once("abc", '='), None);
    assert_eq!(lines("a\r\nb\n\nc\r"), vec!["a", "b", "", "c\r"]);
    assert_eq!(lines(""), Vec::<&str>::new());
    assert_eq!(words("  a \t b\n"), vec!["a", "b"]);
    assert!(contains("local_cpu@4c", "cpu"));
    assert!(!contains("cp", "cpu"));
    assert!(starts_with("battery_temp", "battery"));
    assert_eq!(find_last("a)b)", ')'), Some(3));
}

#[test]
fn names_and_heats_are_put_in_order() {
    assert!(comes_before("a", "ab"));
    assert!(comes_before("Z", "a"));
    assert!(!comes_before("b", "b"));
    assert_eq!(sorted_order(&vec!["b", "a", "c", "a"]), vec![1, 3, 0, 2]);
    assert_eq!(hottest_first(&vec![3, 9, 3, 5]), vec![1, 3, 0, 2]);
}
