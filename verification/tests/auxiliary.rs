use go2_gait_runner::cli::{parse_cli, Cli};
use go2_gait_runner::joints::{model_joint_name, output_to_go2};
use go2_gait_runner::led::{LedIndicator, LedWorker};
use go2_gait_runner::legs::{leg_base_motor, LegId};
use go2_gait_runner::start::{timeout_message, waiting_message, StartWait, WaitAction};
use go2_gait_runner::util::{
    led_brightness, led_mode, led_switch, lidar_report, plan_util, run_util, util_call, util_led, util_led_color,
    UtilCall, UtilError, UtilRequest,
};
use go2_gait_runner::viz::{
    configure, corrected_joints, endpoint_refusal, listen_endpoints, listening_suffix, VizPublisher,
};

fn cli(args: &[&str]) -> Cli {
    parse_cli(args.iter().map(|s| s.to_string()).collect())
}

fn opened(iface: &str) -> Result<String, String> {
    Ok(format!("vui on {iface}"))
}

fn unreachable_service(_iface: &str) -> Result<String, String> {
    Err("no vui service".to_string())
}

fn message(args: &[&str]) -> String {
    run_util(&cli(args), opened).unwrap_err()
}

#[test]
fn lidar_commands() {
    for (word, want) in [("on", true), ("off", false)] {
        match run_util(&cli(&["util", "lidar", word, "eth0"]), opened) {
            Ok(UtilCall::Lidar { iface, on }) => {
                assert_eq!(iface, "eth0");
                assert_eq!(on, want);
            }
            other => panic!("{other:?}"),
        }
    }
    assert_eq!(
        message(&["util", "lidar", "up", "eth0"]),
        "usage: go2-gait-runner util lidar <on|off> <iface>   (got mode \"up\")"
    );
    assert_eq!(
        message(&["util", "lidar"]),
        "usage: go2-gait-runner util lidar <on|off> <iface>   (got mode \"\")"
    );
    assert_eq!(message(&["util", "lidar", "on"]), "usage: go2-gait-runner util lidar <on|off> <iface>");
}

#[test]
fn lidar_reports() {
    assert_eq!(lidar_report(true), "LiDAR ON (published to rt/utlidar/switch)");
    assert_eq!(lidar_report(false), "LiDAR OFF (published to rt/utlidar/switch)");
}

#[test]
fn led_commands() {
    match plan_util(&cli(&["util", "led", "7", "eth0"])) {
        Ok(UtilRequest::Led { iface, mode }) => {
            assert_eq!((iface.as_str(), mode.as_str()), ("eth0", "7"));
        }
        other => panic!("{other:?}"),
    }
    let usage = "usage: go2-gait-runner util led <on|off|0..10> <iface>";
    assert_eq!(message(&["util", "led"]), usage);
    assert_eq!(message(&["util", "led", "on"]), usage);
}

#[test]
fn led_color_commands() {
    for word in ["led-color", "led-colour"] {
        match plan_util(&cli(&["util", word, "red", "eth0"])) {
            Ok(UtilRequest::LedColor { iface, color, secs, flash }) => {
                assert_eq!((iface.as_str(), color.as_str(), secs, flash), ("eth0", "red", 5, None));
            }
            other => panic!("{other:?}"),
        }
    }
    match plan_util(&cli(&["util", "led-color", "cyan", "eth0", "9", "700"])) {
        Ok(UtilRequest::LedColor { secs, flash, .. }) => assert_eq!((secs, flash), (9, Some(700))),
        other => panic!("{other:?}"),
    }
    let usage = "usage: go2-gait-runner util led-color <white|red|yellow|blue|green|cyan|purple> <iface> [secs] [flash_ms]";
    assert_eq!(message(&["util", "led-color"]), usage);
    assert_eq!(message(&["util", "led-color", "red"]), usage);
    assert_eq!(
        message(&["util", "led-color", "red", "eth0", "-1", "x"]),
        "secs must be a positive integer (got \"-1\")"
    );
    assert_eq!(
        message(&["util", "led-color", "red", "eth0", "1", "x"]),
        "flash_ms must be an integer (got \"x\")"
    );
}

#[test]
fn auxiliary_commands_as_a_whole() {
    match run_util(&cli(&["util", "led", "7", "eth0"]), opened) {
        Ok(UtilCall::Led { service, command }) => {
            assert_eq!(service, "vui on eth0");
            assert_eq!((command.request.api_id, command.request.parameter.as_str()), (1005, "{\"brightness\":7}"));
            assert_eq!(command.report, "head LED brightness = 7/10 (vui SetBrightness)");
        }
        other => panic!("{other:?}"),
    }
    match run_util(&cli(&["util", "led-color", "cyan", "eth0", "9", "700"]), opened) {
        Ok(UtilCall::Led { command, .. }) => {
            assert_eq!(command.request.api_id, 1007);
            assert_eq!(command.request.parameter, "{\"color\":\"cyan\",\"time\":9,\"flash_cycle\":700}");
        }
        other => panic!("{other:?}"),
    }
    assert_eq!(message(&["util", "led", "11", "eth0"]), "led brightness must be 0..10 (got 11)");
    assert_eq!(message(&["util", "led", "dim", "eth0"]), "led mode must be on|off|0..10 (got \"dim\")");
    assert_eq!(
        message(&["util", "led-color", "red", "eth0", "2", "2001"]),
        "led flash cycle must be 499..=2000 ms for a 2s hold (got 2001)"
    );
    assert_eq!(message(&["util", "led-color", "red", "eth0", "0"]), "led colour duration (secs) must be >= 1");
    assert!(message(&["util", "led-color", "pink", "eth0"]).ends_with("(got \"pink\")"));
}

#[test]
fn the_led_service_is_opened_in_turn() {
    let run = |args: &[&str]| run_util(&cli(args), unreachable_service).unwrap_err();
    assert_eq!(run(&["util", "led", "7", "eth0"]), "no vui service");
    assert_eq!(run(&["util", "led", "11", "eth0"]), "no vui service");
    assert_eq!(run(&["util", "led", "dim", "eth0"]), "no vui service");
    assert_eq!(run(&["util", "led-color", "red", "eth0"]), "no vui service");
    assert_eq!(run(&["util", "led-color", "red", "eth0", "0"]), "led colour duration (secs) must be >= 1");
    assert_eq!(run(&["util", "led"]), "usage: go2-gait-runner util led <on|off|0..10> <iface>");
    assert!(run_util(&cli(&["util", "lidar", "on", "eth0"]), unreachable_service).is_ok());
    let request = plan_util(&cli(&["util", "led", "on", "eth0"])).unwrap();
    assert!(matches!(util_call(&request, opened), Ok(UtilCall::Led { service, .. }) if service == "vui on eth0"));
    assert_eq!(util_call(&request, unreachable_service).unwrap_err(), "no vui service");
}

#[test]
fn unknown_auxiliary_commands() {
    assert_eq!(
        message(&["util"]),
        "usage: go2-gait-runner util <cmd> <mode> <iface>   (cmd: lidar|led|led-color)"
    );
    assert_eq!(message(&["util", "arm"]), "unknown util cmd \"arm\" (supported: lidar, led, led-color)");
    assert_eq!(
        message(&["util", "a\"m"]),
        "unknown util cmd \"a\\\"m\" (supported: lidar, led, led-color)"
    );
    match plan_util(&cli(&["util", "arm"])) {
        Err(e @ UtilError::UnknownCommand(_)) => {
            assert_eq!(e.message_showing("ARM"), "unknown util cmd ARM (supported: lidar, led, led-color)")
        }
        other => panic!("{other:?}"),
    }
}

#[test]
fn led_switch_and_brightness() {
    let on = led_mode("on").unwrap();
    assert_eq!((on.request.api_id, on.request.parameter.as_str()), (1001, "{\"enable\":1}"));
    assert_eq!(on.report, "head LED ON (vui SetSwitch, enable=1)");
    let off = led_mode("off").unwrap();
    assert_eq!((off.request.api_id, off.request.parameter.as_str()), (1001, "{\"enable\":0}"));
    assert_eq!(off.report, "head LED OFF (vui SetSwitch, enable=0)");
    for level in 0..=10 {
        let c = led_mode(&level.to_string()).unwrap();
        assert_eq!(c.request.api_id, 1005);
        assert_eq!(c.request.parameter, format!("{{\"brightness\":{level}}}"));
        assert_eq!(c.report, format!("head LED brightness = {level}/10 (vui SetBrightness)"));
    }
    assert_eq!(led_mode("11").unwrap_err().message(), "led brightness must be 0..10 (got 11)");
    assert_eq!(led_mode("-1").unwrap_err().message(), "led brightness must be 0..10 (got -1)");
    assert_eq!(led_mode("ON").unwrap_err().message(), "led mode must be on|off|0..10 (got \"ON\")");
    assert_eq!(led_switch(true).parameter, "{\"enable\":1}");
    assert_eq!(led_brightness(0).parameter, "{\"brightness\":0}");
    let (service, command) = util_led(Ok::<u8, String>(3), "on").unwrap();
    assert_eq!((service, command.request.api_id), (3, 1001));
    assert_eq!(util_led(Ok::<u8, String>(3), "11").unwrap_err(), "led brightness must be 0..10 (got 11)");
    assert_eq!(util_led(Err::<u8, String>("down".to_string()), "11").unwrap_err(), "down");
}

#[test]
fn led_colors() {
    for color in ["white", "red", "yellow", "blue", "green", "cyan", "purple"] {
        let c = util_led_color(color, 5, None).unwrap();
        assert_eq!(c.request.api_id, 1007);
        assert_eq!(c.request.parameter, format!("{{\"color\":\"{color}\",\"time\":5}}"));
        assert_eq!(c.report, format!("head LED colour = {color} for 5s (vui SetLedColor, api 1007)"));
    }
    let c = util_led_color("red", 2, Some(499)).unwrap();
    assert_eq!(c.request.parameter, "{\"color\":\"red\",\"time\":2,\"flash_cycle\":499}");
    assert_eq!(c.report, "head LED colour = red for 2s, flashing every 499ms (vui SetLedColor, api 1007)");
    assert!(util_led_color("red", 2, Some(2000)).is_ok());
    assert!(util_led_color("red", u32::MAX, Some(u32::MAX)).is_ok());
    assert_eq!(
        util_led_color("red", 2, Some(2001)).unwrap_err().message(),
        "led flash cycle must be 499..=2000 ms for a 2s hold (got 2001)"
    );
    assert_eq!(
        util_led_color("red", 2, Some(498)).unwrap_err().message(),
        "led flash cycle must be 499..=2000 ms for a 2s hold (got 498)"
    );
    assert_eq!(
        util_led_color("red", 0, Some(1)).unwrap_err().message(),
        "led colour duration (secs) must be >= 1"
    );
    let palette = ["white", "red", "yellow", "blue", "green", "cyan", "purple"];
    assert_eq!(
        util_led_color("pink", 0, None).unwrap_err().message(),
        format!("led colour must be one of {palette:?} (got \"pink\")")
    );
}

#[test]
fn indicator_holds_the_light() {
    let mut led = LedIndicator::new(2);
    let support = [4, 4, 3, 3, 4, 4, 4, 3];
    let sent: Vec<Option<i32>> = support.iter().map(|&n| led.tick(n, 4)).collect();
    assert_eq!(sent, vec![Some(0), None, Some(10), None, None, None, Some(0), Some(10)]);
    let mut led = LedIndicator::new(1);
    assert_eq!((led.tick(3, 4), led.tick(4, 4), led.tick(4, 4)), (Some(10), None, Some(0)));
}

#[test]
fn indicator_looks_ahead() {
    let three = |t: usize| t == 1 || (10..14).contains(&t) || t == 30;
    for margin in 0..6usize {
        let support: Vec<usize> = (0..50).map(|t| if three(t) { 3 } else { 4 }).collect();
        let mut led = LedIndicator::new(margin as u32);
        for ahead in &support[..margin] {
            led.foresee(*ahead);
        }
        let mut shown = -1;
        for t in 0..44usize {
            if let Some(b) = led.tick(support[t], support[t + margin]) {
                assert_ne!(b, shown);
                shown = b;
            }
            let near = (0..50usize).any(|u| three(u) && u + margin >= t && u <= t + margin);
            assert_eq!(shown, if near { 10 } else { 0 }, "margin {margin} tick {t}");
        }
    }
}

#[test]
fn indicator_without_margin() {
    let mut led = LedIndicator::new(0);
    assert_eq!(led.tick(3, 4), Some(10));
    assert_eq!(led.tick(4, 4), Some(0));
    assert_eq!(led.tick(4, 3), Some(10));
    assert_eq!(led.tick(2, 2), Some(0));
}

#[test]
fn worker_takes_the_newest() {
    let (mut worker, switch, dark) = LedWorker::start();
    assert_eq!(switch.parameter, "{\"enable\":1}");
    assert_eq!(dark.parameter, "{\"brightness\":0}");
    assert!(worker.take(0, &vec![]).is_none());
    assert_eq!(worker.take(10, &vec![]).unwrap().parameter, "{\"brightness\":10}");
    assert!(worker.take(0, &vec![0, 10]).is_none());
    assert_eq!(worker.take(10, &vec![10, 0]).unwrap().api_id, 1005);
    assert_eq!(worker.finish().parameter, "{\"brightness\":0}");
}

#[test]
fn start_wait_warns_once() {
    let mut wait = StartWait::new();
    assert_eq!(wait.look(false, false), WaitAction::WarnAndWait);
    assert_eq!(wait.look(false, false), WaitAction::Wait);
    assert_eq!(wait.look(false, true), WaitAction::TimedOut);
    assert_eq!(wait.look(true, true), WaitAction::Ready);
    assert!(timeout_message().starts_with("timeout waiting for LowState"));
    assert!(waiting_message().starts_with("... waiting for LowState"));
}

#[test]
fn frames_are_thinned_out() {
    let mut viz = VizPublisher::new("go2/gait/planned", 5);
    assert_eq!(viz.key(), "go2/gait/planned");
    let mut frames = Vec::new();
    for n in 1..=23u64 {
        let frame = viz.publish();
        assert_eq!(frame.is_some(), n % 5 == 0);
        frames.extend(frame);
    }
    assert_eq!(frames, vec![0, 1, 2, 3]);
    assert_eq!(viz.published(), 4);
    let mut every = VizPublisher::new("k", 0);
    assert_eq!((every.publish(), every.publish()), (Some(0), Some(1)));
}

#[test]
fn session_without_endpoint_is_untouched() {
    let mut config = zenoh::Config::default();
    let before = config.to_string();
    assert!(configure(&mut config, None).is_ok());
    assert_eq!(config.to_string(), before);
}

#[test]
fn session_with_endpoint_listens_there() {
    let mut config = zenoh::Config::default();
    assert!(configure(&mut config, Some("tcp/0.0.0.0:7447")).is_ok());
    assert!(config.get_json("listen/endpoints").unwrap().contains("tcp/0.0.0.0:7447"));
    assert_eq!(config.get_json("scouting/multicast/enabled").unwrap(), "false");
}

#[test]
fn session_with_bad_endpoint_is_refused() {
    let mut config = zenoh::Config::default();
    let before = config.to_string();
    let e = configure(&mut config, Some("nowhere")).unwrap_err();
    assert!(e.starts_with("zenoh listen endpoint 'nowhere': "), "{e}");
    assert_eq!(config.to_string(), before);
    assert_eq!(listen_endpoints("tcp/x:1"), "[\"tcp/x:1\"]");
    assert_eq!(endpoint_refusal("x", "why"), "zenoh listen endpoint 'x': why");
}

#[test]
fn listening_notes() {
    assert_eq!(listening_suffix(None), "");
    assert_eq!(listening_suffix(Some("tcp/0.0.0.0:7447")), ", listening on tcp/0.0.0.0:7447");
}

#[test]
fn frames_show_what_is_commanded() {
    let signs = [[1.0, -1.0, -1.0], [1.0, 1.0, -1.0], [-1.0, 1.0, 1.0], [1.0, 1.0, 1.0]];
    let sign = |slot: usize, k: usize, q: f64| q * signs[slot][k];
    let legs = [LegId::FL, LegId::FR, LegId::RL, LegId::RR];
    let joints: [f64; 12] = [1.0, 2.0, 3.0, 4.0, 5.0, 6.0, 7.0, 8.0, 9.0, 10.0, 11.0, 12.0];
    let targets: Vec<(String, f64)> =
        (0..12).rev().map(|i| (model_joint_name(legs[i / 3], i % 3), joints[i])).collect();
    let q = output_to_go2(&targets, 0.0, sign).unwrap();
    let shown = corrected_joints(&joints, sign);
    for slot in 0..4 {
        for k in 0..3 {
            assert_eq!(shown[3 * slot + k], q[leg_base_motor(legs[slot]) + k]);
        }
    }
}

#[test]
fn frame_joints_are_sign_corrected() {
    let signs = [[1.0, -1.0, -1.0], [1.0, 1.0, -1.0], [-1.0, 1.0, 1.0], [1.0, 1.0, 1.0]];
    let joints: [f64; 12] = [1.0, 2.0, 3.0, 4.0, 5.0, 6.0, 7.0, 8.0, 9.0, 10.0, 11.0, 12.0];
    let out = corrected_joints(&joints, |slot: usize, k: usize, q: f64| q * signs[slot][k]);
    assert_eq!(out, [1.0, -2.0, -3.0, 4.0, 5.0, -6.0, -7.0, 8.0, 9.0, 10.0, 11.0, 12.0]);
}
