use go2_gait_runner::cli::{parse_cli, parse_flag, Cli};
use go2_gait_runner::command::{
    mode_report, mode_report_showing, plan_command, release_failure, release_report, require_iface, Command,
    CommandError,
};
use go2_gait_runner::gait::{
    build_dump_gait, build_gait, default_gait_type, gait_mode_name, gait_tune, parse_gait_mode,
    parse_gait_type, shows_stance_height, GaitError, GaitMode, GaitStep, GaitType,
};
use go2_gait_runner::help::HELP_TEXT;
use go2_gait_runner::numbers::{decimal_text, parse_i32, parse_u32, signed_text};
use go2_gait_runner::numeral::{number_text, Numeral};

fn cli(args: &[&str]) -> Cli {
    parse_cli(args.iter().map(|s| s.to_string()).collect())
}

const KEY: &str = "go2/gait/planned";

#[test]
fn flags_and_positionals_are_told_apart() {
    let c = cli(&["run", "eth0", "--vx", "0.02", "--kp=200", "--ff", "--csv"]);
    assert_eq!(c.positionals, vec!["run".to_string(), "eth0".to_string()]);
    assert_eq!(c.str("vx"), Some("0.02"));
    assert_eq!(c.str("kp"), Some("200"));
    assert_eq!(c.str("ff"), Some("true"));
    assert_eq!(c.str("csv"), Some("true"));
    assert_eq!(c.str("kd"), None);
    assert_eq!(c.flags.len(), 4);
}

#[test]
fn presence_flags_leave_the_next_argument_alone() {
    let c = cli(&["run", "--ff", "eth0"]);
    assert_eq!(c.positionals, vec!["run".to_string(), "eth0".to_string()]);
    for name in ["ff", "grav-ff", "no-release", "restore", "smooth-swing", "level", "viz", "led-3support"] {
        let c = cli(&[&format!("--{name}"), "x"]);
        assert_eq!(c.positionals, vec!["x".to_string()]);
        assert_eq!(c.str(name), Some("true"));
        assert!(c.flag(name));
    }
    let c = cli(&["--ff", "--vx", "0.02"]);
    assert_eq!(c.str("vx"), Some("0.02"));
}

#[test]
fn value_flag_does_not_take_a_flag() {
    let c = cli(&["--vx", "--ff"]);
    assert_eq!(c.str("vx"), Some("true"));
    assert_eq!(c.str("ff"), Some("true"));
}

#[test]
fn later_flag_wins() {
    let c = cli(&["--vx", "1", "--vx=2"]);
    assert_eq!(c.str("vx"), Some("2"));
    assert_eq!(c.flags.len(), 1);
}

#[test]
fn spaced_and_joined_values_agree() {
    let a = cli(&["--vx", "0.5", "x"]);
    let b = cli(&["--vx=0.5", "x"]);
    assert_eq!(a.str("vx"), b.str("vx"));
    assert_eq!(a.positionals, b.positionals);
}

#[test]
fn flags_read_the_same_wherever_they_come() {
    let a = cli(&["run", "--kp", "200", "--vx", "0.5", "eth0"]);
    let b = cli(&["run", "--kp", "200", "--vx=0.5", "eth0"]);
    assert_eq!((a.str("vx"), a.str("kp"), a.positionals.len()), (b.str("vx"), b.str("kp"), b.positionals.len()));
    let c = cli(&["run", "--kp", "--ff", "eth0"]);
    assert_eq!((c.str("kp"), c.str("ff"), c.positional(1)), (Some("true"), Some("true"), "eth0"));
}

#[test]
fn joined_value_splits_at_the_first_equals_sign() {
    let c = cli(&["--a=b=c", "--=x", "--n="]);
    assert_eq!(c.str("a"), Some("b=c"));
    assert_eq!(c.str(""), Some("x"));
    assert_eq!(c.str("n"), Some(""));
    let c = cli(&["--", "tail"]);
    assert_eq!(c.str(""), Some("tail"));
    assert!(c.positionals.is_empty());
}

#[test]
fn single_dash_is_a_value() {
    let c = cli(&["--vx", "-0.1", "-h"]);
    assert_eq!(c.str("vx"), Some("-0.1"));
    assert_eq!(c.positionals, vec!["-h".to_string()]);
}

#[test]
fn bare_arguments_stay_in_order() {
    let c = cli(&["util", "led", "on", "eth0"]);
    assert_eq!(c.positionals.join(" "), "util led on eth0");
    assert_eq!(c.flags.len(), 0);
    assert_eq!(c.positional(2), "on");
    assert_eq!(c.positional(9), "");
}

#[test]
fn yes_words() {
    for s in ["1", "on", "true", "yes", "ff", "y"] {
        assert!(parse_flag(s));
    }
    for s in ["", "0", "off", "TRUE", "On", "no", "yes "] {
        assert!(!parse_flag(s));
    }
    assert!(!cli(&["--ff=off"]).flag("ff"));
    assert!(!cli(&[]).flag("ff"));
}

#[test]
fn number_texts_are_those_that_std_reads() {
    for s in [
        "0", "1.", ".5", "0.04", "-0.04", "+3", "1e5", "1E-5", "1.5e+10", "inf", "-Infinity", "NaN", "+nan",
        "", ".", "+", "-", "e5", "1e", "1e+", "1.2.3", "0x10", "1_000", " 1", "1 ", "--1", "infin", "true", ".e5",
        "1e5.0", "1f", "007", "\u{0661}",
    ] {
        assert_eq!(number_text(s), s.parse::<f64>().is_ok(), "{s}");
        assert_eq!(Numeral::new(s).is_some(), s.parse::<f32>().is_ok(), "{s}");
    }
    assert_eq!(Numeral::new("0.04").unwrap().text(), "0.04");
    assert_eq!(Numeral::new("2.5").unwrap().clone().text(), "2.5");
}

#[test]
fn whole_numbers_are_those_that_std_reads() {
    for s in [
        "0", "5", "+5", "-5", "-0", "", "+", "-", "007", "4294967295", "4294967296", "99999999999999999999",
        "2147483647", "2147483648", "-2147483648", "-2147483649", "1.0", " 1", "+-1", "1a", "00000000000000000001",
    ] {
        assert_eq!(parse_u32(s), s.parse::<u32>().ok(), "{s}");
        assert_eq!(parse_i32(s), s.parse::<i32>().ok(), "{s}");
    }
}

#[test]
fn whole_numbers_are_written_as_std_writes_them() {
    for n in [0u64, 7, 10, 99, 100, 1007, u64::MAX] {
        assert_eq!(decimal_text(n), n.to_string());
    }
    for n in [0i64, -1, 10, -10, i64::MAX, i64::MIN] {
        assert_eq!(signed_text(n), n.to_string());
    }
    assert_eq!(parse_u32(&decimal_text(4096)), Some(4096));
    assert_eq!(parse_i32(&signed_text(-12)), Some(-12));
}

#[test]
fn number_flags() {
    let c = cli(&["--vx", "0.02", "--kp", "fast"]);
    assert_eq!(c.float64("vx").unwrap().text(), "0.02");
    assert_eq!(c.float32("vx").unwrap().text(), "0.02");
    assert!(c.float32("kp").is_none());
    assert!(c.float64("kp").is_none());
    assert!(c.float64("kd").is_none());
    assert!(c.has("kp"));
    assert!(!c.has("kd"));
}

#[test]
fn gait_names() {
    for s in ["linear-crawl", "linearcrawl", "linear", "LINEAR", "Linear-Crawl"] {
        assert_eq!(parse_gait_mode(s), Some(GaitMode::LinearCrawl));
    }
    assert_eq!(parse_gait_mode("champ"), Some(GaitMode::Champ));
    assert_eq!(parse_gait_mode("MPC"), Some(GaitMode::Mpc));
    for s in ["centroidal-srbd", "centroidal", "srbd"] {
        assert_eq!(parse_gait_mode(s), Some(GaitMode::CentroidalSrbd));
    }
    for s in ["full-centroidal", "full", "fullcentroidal"] {
        assert_eq!(parse_gait_mode(s), Some(GaitMode::FullCentroidal));
    }
    assert_eq!(parse_gait_mode("crawl"), None);
    assert_eq!(parse_gait_mode(""), None);
    assert_eq!(parse_gait_type("Trot"), Some(GaitType::Trot));
    assert_eq!(parse_gait_type("walk"), Some(GaitType::Walk));
    assert_eq!(parse_gait_type("pace"), Some(GaitType::Pace));
    assert_eq!(parse_gait_type("bound"), Some(GaitType::Bound));
    assert_eq!(parse_gait_type("crawl"), Some(GaitType::Crawl));
    assert_eq!(parse_gait_type("gallop"), None);
    assert_eq!(default_gait_type(GaitMode::LinearCrawl), GaitType::Crawl);
    assert_eq!(default_gait_type(GaitMode::Mpc), GaitType::Trot);
    assert_eq!(gait_mode_name(GaitMode::Mpc), "Mpc");
    assert_eq!(gait_mode_name(GaitMode::LinearCrawl), "LinearCrawl");
    assert!(shows_stance_height(GaitMode::LinearCrawl));
    assert!(!shows_stance_height(GaitMode::Champ));
}

#[test]
fn tuning_defaults() {
    let t = gait_tune(&cli(&[])).unwrap();
    assert_eq!(t.swing_h.text(), "0.04");
    assert_eq!(t.stance_height.text(), "0.35");
    assert!(t.cycle_s.is_none() && t.four_support.is_none() && t.sway.is_none());
    assert!(t.stance_width.is_none() && t.max_swing_foot_speed.is_none());
    assert!(!t.smooth_swing);
    assert_eq!(t.gait_mode, GaitMode::LinearCrawl);
    assert_eq!(t.gait_type, GaitType::Crawl);
    let t = gait_tune(&cli(&["--gait", "mpc"])).unwrap();
    assert_eq!(t.gait_type, GaitType::Trot);
    assert!(matches!(gait_tune(&cli(&["--gait", "fly"])), Err(GaitError::Mode(s)) if s == "fly"));
    assert!(matches!(gait_tune(&cli(&["--gait-type", "fly"])), Err(GaitError::Type(s)) if s == "fly"));
}

#[test]
fn gait_steps_follow_the_tuning() {
    let t = gait_tune(&cli(&["--cycle", "2.5", "--four-support", "0.9", "--max-swing-speed", "0", "--smooth-swing"])).unwrap();
    let steps: Vec<String> = build_gait(&t).iter().map(step_word).collect();
    assert_eq!(
        steps.join(" "),
        "preset:Crawl swing:0.04 cycle:2.5 four:0.9 smooth:true max:0 controller:LinearCrawl knees height:0.35"
    );
    let t = gait_tune(&cli(&["--sway=0.1", "--stance-width=0.02", "--gait=champ"])).unwrap();
    let steps: Vec<String> = build_gait(&t).iter().map(step_word).collect();
    assert_eq!(
        steps.join(" "),
        "preset:Trot swing:0.04 sway:0.1 smooth:false width:0.02 controller:Champ knees height:0.35"
    );
    let steps: Vec<String> = build_dump_gait(&t).iter().map(step_word).collect();
    assert_eq!(steps.join(" "), "preset:Trot controller:Champ knees height:0.35");
}

fn step_word(step: &GaitStep<Numeral>) -> String {
    match step {
        GaitStep::Preset(t) => format!("preset:{t:?}"),
        GaitStep::SwingHeight(n) => format!("swing:{}", n.text()),
        GaitStep::CyclePeriod(n) => format!("cycle:{}", n.text()),
        GaitStep::FourSupportFraction(n) => format!("four:{}", n.text()),
        GaitStep::LateralSway(n) => format!("sway:{}", n.text()),
        GaitStep::SmoothSwing(b) => format!("smooth:{b}"),
        GaitStep::StanceWidth(n) => format!("width:{}", n.text()),
        GaitStep::MaxSwingFootSpeed(n) => format!("max:{}", n.text()),
        GaitStep::Controller(m) => format!("controller:{m:?}"),
        GaitStep::KneesBack => "knees".to_string(),
        GaitStep::BodyHeight(n) => format!("height:{}", n.text()),
    }
}

#[test]
fn help_goes_first() {
    assert!(matches!(plan_command(&cli(&["-h"]), KEY), Ok(Command::Help)));
    assert!(matches!(plan_command(&cli(&["--help"]), KEY), Ok(Command::Help)));
    assert!(matches!(plan_command(&cli(&["fly", "--gait", "fly", "-h"]), KEY), Ok(Command::Help)));
}

#[test]
fn dump_is_the_usual_mode() {
    match plan_command(&cli(&[]), KEY) {
        Ok(Command::Dump { misa, tune }) => {
            assert_eq!(misa, "models/unitree_go2/go2.misa");
            assert_eq!(tune.stance_height.text(), "0.35");
        }
        other => panic!("{other:?}"),
    }
}

#[test]
fn intent_settings() {
    match plan_command(&cli(&["intent", "--viz", "--viz-endpoint", "tcp/0.0.0.0:7447", "--misa", "m"]), KEY) {
        Ok(Command::Intent { misa, vx, viz, .. }) => {
            assert_eq!(misa, "m");
            assert_eq!(vx.text(), "0.05");
            assert!(viz.enabled);
            assert_eq!(viz.key, KEY);
            assert_eq!(viz.rate_hz.text(), "100.0");
            assert_eq!(viz.endpoint.as_deref(), Some("tcp/0.0.0.0:7447"));
        }
        other => panic!("{other:?}"),
    }
}

#[test]
fn run_defaults() {
    for mode in ["run", "diag"] {
        match plan_command(&cli(&[mode, "eth0"]), KEY) {
            Ok(Command::Run(s)) => {
                assert_eq!(s.iface, "eth0");
                assert_eq!(s.vx.text(), "0.0");
                assert_eq!(s.inplace.text(), "3.0");
                assert_eq!(s.forward.text(), "4.0");
                assert_eq!(s.kp.text(), "60.0");
                assert_eq!(s.kd.text(), "5.0");
                assert!(!s.ff);
                assert_eq!(s.ff_scale.text(), "1.0");
                assert_eq!(s.level_gain.text(), "0.0");
                assert!(s.csv.is_none());
                assert!(!s.viz.enabled && s.viz.endpoint.is_none());
                assert!(!s.led_3support);
                assert_eq!(s.led_margin.text(), "0.1");
                assert!(s.release);
                assert!(!s.restore);
            }
            other => panic!("{other:?}"),
        }
    }
}

#[test]
fn run_settings_as_given() {
    let c = cli(&[
        "run", "eth0", "--vx", "0.02", "--kp", "200", "--kd", "6", "--grav-ff", "--level", "--csv", "/tmp/t.csv",
        "--no-release", "--restore", "--led-3support", "--led-margin", "0.2", "--viz-key", "k",
    ]);
    match plan_command(&c, KEY) {
        Ok(Command::Run(s)) => {
            assert_eq!(s.vx.text(), "0.02");
            assert_eq!(s.kp.text(), "200");
            assert_eq!(s.kd.text(), "6");
            assert!(s.ff);
            assert_eq!(s.level_gain.text(), "0.3");
            assert_eq!(s.csv.as_deref(), Some("/tmp/t.csv"));
            assert!(!s.release);
            assert!(s.restore);
            assert!(s.led_3support);
            assert_eq!(s.led_margin.text(), "0.2");
            assert_eq!(s.viz.key, "k");
        }
        other => panic!("{other:?}"),
    }
    match plan_command(&cli(&["run", "eth0", "--level-gain", "0.5"]), KEY) {
        Ok(Command::Run(s)) => assert_eq!(s.level_gain.text(), "0.0"),
        other => panic!("{other:?}"),
    }
}

#[test]
fn other_modes() {
    assert!(matches!(plan_command(&cli(&["release", "eth0"]), KEY), Ok(Command::Release { iface }) if iface == "eth0"));
    assert!(matches!(plan_command(&cli(&["restore", "eth0"]), KEY), Ok(Command::Restore { iface }) if iface == "eth0"));
    assert!(matches!(plan_command(&cli(&["checkmode", "eth0"]), KEY), Ok(Command::CheckMode { iface }) if iface == "eth0"));
    assert!(matches!(plan_command(&cli(&["util", "lidar", "on", "eth0"]), KEY), Ok(Command::Util(_))));
    assert_eq!(require_iface(&cli(&["release", "eth0"])).unwrap(), "eth0");
    let e = require_iface(&cli(&[])).unwrap_err();
    assert_eq!(e.message(), "usage: go2-gait-runner release <iface>");
}

fn refusal(args: &[&str]) -> (i32, String) {
    match plan_command(&cli(args), KEY) {
        Err(e) => (e.exit_code(), e.message()),
        Ok(c) => panic!("{c:?}"),
    }
}

#[test]
fn refusals() {
    assert_eq!(
        refusal(&["run", "eth0", "--gait", "fly"]),
        (1, "error: unknown --gait \"fly\" (linear-crawl|champ|mpc|centroidal-srbd|full-centroidal)".to_string())
    );
    assert_eq!(
        refusal(&["--gait-type", "fly\n"]),
        (1, "error: unknown --gait-type \"fly\\n\" (trot|walk|pace|bound|crawl)".to_string())
    );
    assert_eq!(
        refusal(&["nowhere", "--gait", "fly"]),
        (1, "error: unknown --gait \"fly\" (linear-crawl|champ|mpc|centroidal-srbd|full-centroidal)".to_string())
    );
    let (code, message) = refusal(&["diag"]);
    assert_eq!(code, 2);
    assert_eq!(
        message,
        "usage: go2-gait-runner diag <iface> [--misa P] [--vx V] [--inplace S] [--forward S] [--kp K] [--kd K] \
         [--swing H] [--cycle S] [--four-support F] [--ff] [--ff-scale S] [--csv PATH]"
    );
    assert_eq!(refusal(&["checkmode"]), (2, "usage: go2-gait-runner checkmode <iface>".to_string()));
    assert_eq!(
        refusal(&["util", "fly"]),
        (1, "error: unknown util cmd \"fly\" (supported: lidar, led, led-color)".to_string())
    );
    assert_eq!(
        refusal(&["policy", "eth0"]),
        (2, "usage: go2-gait-runner <dump|intent|run|diag|release|restore|checkmode|util> ...   (got mode \"policy\")".to_string())
    );
    let e: CommandError<String> = CommandError::UnknownMode("x".to_string());
    assert!(e.message_showing("<x>").ends_with("(got mode <x>)"));
}

#[test]
fn mode_reports() {
    assert_eq!(mode_report("", "0"), "no mode active (sport_mode released)");
    assert_eq!(mode_report("normal", "\"0\""), "active mode: name=\"normal\" form=\"0\"");
    assert_eq!(mode_report_showing("normal", "N", "0"), "active mode: name=N form=0");
}

#[test]
fn release_reports() {
    assert_eq!(release_report(2), "sport_mode released (2 mode(s) released); low-level control is now safe");
    assert_eq!(
        release_failure("no reply"),
        "error: failed to release sport_mode: no reply\n(pass --no-release if you released it some other way)"
    );
}

#[test]
fn help_names_every_mode_and_flag() {
    for word in [
        "dump", "intent", "run", "diag", "release", "restore", "checkmode", "util", "--misa", "--gait", "--gait-type",
        "--vx", "--inplace", "--forward", "--kp", "--kd", "--swing", "--stance-height", "--cycle", "--four-support",
        "--sway", "--stance-width", "--smooth-swing", "--max-swing-speed", "--led-3support", "--led-margin", "--level",
        "--level-gain", "--ff", "--ff-scale", "--csv", "--viz", "--viz-key", "--viz-rate", "--viz-endpoint",
        "--no-release", "--restore", "--help",
    ] {
        assert!(HELP_TEXT.contains(word), "{word}");
    }
}
