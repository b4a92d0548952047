use go2_gait_runner::audit::{check_tick, dump_phases, LimitAudit, Violation};
use go2_gait_runner::joints::{
    build_home_q, combined, gait_command, gait_slot, go2_motor_index, joint_kind, joint_route, leg_q_dq_ik,
    model_joint_name, output_to_go2, set_joint,
};
use go2_gait_runner::legs::{leg_base_motor, leg_slot, slot_leg, stance_legs, support_count, LegId};
use go2_gait_runner::record::{IntentExtent, Recorder};
use go2_gait_runner::run::{recorded, Run};
use go2_gait_runner::schedule::{plan_tick, Course, Phase, Pose, Schedule, Share, Step};
use go2_gait_runner::support::{level_correction, support_tau_go2, BodyObserver};
use go2_gait_runner::telemetry::{
    csv_header, csv_record, csv_row, is_shown, motor_name, MotorRecord, TelemetryRecord, LEAD_COLUMNS,
};
use go2_gait_runner::text;

const LEGS: [LegId; 4] = [LegId::FL, LegId::FR, LegId::RL, LegId::RR];

#[test]
fn motor_indices() {
    assert_eq!(go2_motor_index("FL_thigh"), Some(4));
    assert_eq!(go2_motor_index("FR_hip_joint"), Some(0));
    assert_eq!(go2_motor_index("RR_calf_joint"), Some(8));
    assert_eq!(go2_motor_index("RL_hip_joint"), Some(9));
    assert_eq!(go2_motor_index("XX_hip"), None);
    assert_eq!(go2_motor_index("FL_knee"), None);
    assert_eq!(go2_motor_index("F"), None);
    assert_eq!(go2_motor_index(""), None);
    assert_eq!(go2_motor_index("\u{e9}FL_hip"), None);
}

#[test]
fn joint_kinds_and_slots() {
    assert_eq!(joint_kind("FL_hip_joint"), Some(0));
    assert_eq!(joint_kind("thigh"), Some(1));
    assert_eq!(joint_kind("calf_thigh"), Some(1));
    assert_eq!(joint_kind("calf"), Some(2));
    assert_eq!(joint_kind("hi"), None);
    assert_eq!(gait_slot("FL_x"), Some(0));
    assert_eq!(gait_slot("FR"), Some(1));
    assert_eq!(gait_slot("RL_hip"), Some(2));
    assert_eq!(gait_slot("RR_hip"), Some(3));
    assert_eq!(gait_slot("fl_hip"), None);
    assert_eq!(gait_slot("R"), None);
}

#[test]
fn tables_agree() {
    for (slot, leg) in LEGS.iter().enumerate() {
        assert_eq!(leg_slot(*leg), slot);
        assert_eq!(slot_leg(slot), *leg);
        for kind in 0..3 {
            let name = model_joint_name(*leg, kind);
            let route = joint_route(&name).unwrap();
            assert_eq!((route.slot, route.kind), (slot, kind));
            assert_eq!(route.motor, leg_base_motor(*leg) + kind);
            assert_eq!(go2_motor_index(&name), Some(route.motor));
        }
    }
    assert_eq!(model_joint_name(LegId::RR, 2), "RR_calf_joint");
}

fn signs() -> [[f64; 3]; 4] {
    [[1.0, -1.0, -1.0], [-1.0, -1.0, 1.0], [1.0, 1.0, -1.0], [1.0, -1.0, 1.0]]
}

fn targets() -> Vec<(String, f64)> {
    let mut v = Vec::new();
    for (i, leg) in LEGS.iter().enumerate() {
        for k in 0..3 {
            v.push((model_joint_name(*leg, k), (10 * i + k) as f64 + 0.5));
        }
    }
    v
}

#[test]
fn targets_are_ordered_by_motor() {
    let s = signs();
    let q = output_to_go2(&targets(), 0.0, |slot: usize, k: usize, x: f64| x * s[slot][k]).unwrap();
    assert_eq!(
        q,
        [-10.5, -11.5, 12.5, 0.5, -1.5, -2.5, 30.5, -31.5, 32.5, 20.5, 21.5, -22.5]
    );
}

#[test]
fn missing_targets_stay_zero_and_the_last_counts() {
    let t = vec![("FR_hip".to_string(), 1.0), ("FR_hip".to_string(), 2.0)];
    let q = output_to_go2(&t, 9.0, |_s: usize, _k: usize, x: f64| x).unwrap();
    assert_eq!(q[0], 2.0);
    assert!(q[1..].iter().all(|&x| x == 9.0));
}

#[test]
fn bad_names_are_refused() {
    let id = |_s: usize, _k: usize, x: f64| x;
    let t = vec![("FR_hip".to_string(), 1.0), ("FR_knee".to_string(), 2.0), ("??".to_string(), 2.0)];
    assert_eq!(output_to_go2(&t, 0.0, id).unwrap_err(), "bad joint name FR_knee");
    assert_eq!(joint_route("XX_hip").unwrap_err(), "bad joint name XX_hip");
    assert_eq!(gait_command(&t, 0.0, id, None, |a: f64, b: f64| a + b, None).unwrap_err(), "bad joint name FR_knee");
}

#[test]
fn reading_back_gives_the_targets() {
    let s = signs();
    let q = output_to_go2(&targets(), 0.0, |slot: usize, k: usize, x: f64| x * s[slot][k]).unwrap();
    let dq = [7.0; 12];
    for slot in 0..4usize {
        let r = leg_q_dq_ik(&q, &dq, slot, |k: usize, x: f64| x * s[slot][k]);
        let base = 10.0 * slot as f64 + 0.5;
        assert_eq!((r.0, r.1, r.2), (base, base + 1.0, base + 2.0));
        assert_eq!((r.3, r.4, r.5), (7.0 * s[slot][0], 7.0 * s[slot][1], 7.0 * s[slot][2]));
    }
}

#[test]
fn reading_back_rounded_motors_gives_rounded_targets() {
    let s = signs();
    let t: Vec<(String, f64)> = targets().into_iter().map(|(n, x)| (n, x / 7.0)).collect();
    let q = output_to_go2(&t, 0.0, |slot: usize, k: usize, x: f64| x * s[slot][k]).unwrap();
    let held: [f64; 12] = std::array::from_fn(|m| q[m] as f32 as f64);
    for slot in 0..4usize {
        let r = leg_q_dq_ik(&held, &held, slot, |k: usize, x: f64| x * s[slot][k]);
        let rounded = |k: usize| t[3 * slot + k].1 as f32 as f64;
        assert_eq!((r.0, r.1, r.2), (rounded(0), rounded(1), rounded(2)));
    }
}

#[test]
fn commands_add_trim_and_torque() {
    let id = |_s: usize, _k: usize, x: f64| x;
    let plus = |a: f64, b: f64| a + b;
    let (q, tau) = gait_command(&targets(), 0.0, id, Some([0.25; 12]), plus, Some([3.0; 12])).unwrap();
    assert_eq!(q[3], 0.75);
    assert_eq!(tau, [3.0; 12]);
    let (q, tau) = gait_command(&targets(), 0.0, id, None, plus, None).unwrap();
    assert_eq!(q[3], 0.5);
    assert_eq!(tau, [0.0; 12]);
    let mixed = combined(&[1.0; 12], &[3.0; 12], |a: f64, b: f64| 0.5 * a + 0.5 * b);
    assert_eq!(mixed, [2.0; 12]);
}

#[test]
fn home_pose_sets_the_leg_joints() {
    let joints: Vec<String> =
        ["root", "FL_hip_joint", "FL_thigh_joint", "FL_calf_joint", "RR_thigh_joint", "arm", "FL_hip_joint"]
            .iter()
            .map(|s| s.to_string())
            .collect();
    let places = vec![0, 7, 8, 9, 3, 4, 5];
    let q = build_home_q(vec![-1.0; 10], &joints, &places, &[0.0, 0.9, -1.8]);
    assert_eq!(q, vec![-1.0, -1.0, -1.0, 0.9, -1.0, -1.0, -1.0, 0.0, 0.9, -1.8]);
    let mut q = vec![1, 2];
    set_joint(&joints, &places, &mut q, "root", 5);
    set_joint(&joints, &places, &mut q, "none", 6);
    assert_eq!(q, vec![5, 2]);
}

#[test]
fn stance_legs_in_slot_order() {
    assert_eq!(stance_legs(&[true, false, true, true]), vec![LegId::FL, LegId::RL, LegId::RR]);
    assert_eq!(support_count(&[true, false, true, true]), 3);
    assert_eq!(support_count(&[false; 4]), 0);
    assert!(stance_legs(&[false; 4]).is_empty());
}

#[test]
fn swinging_and_skipped_legs_stay_zero() {
    let r = level_correction(&[true, true, false, true], 0.0, |leg: LegId| match leg {
        LegId::FL => Some([1.0, 2.0, 3.0]),
        LegId::FR => None,
        _ => Some([7.0, 8.0, 9.0]),
    });
    assert_eq!(r, [0.0, 0.0, 0.0, 1.0, 2.0, 3.0, 7.0, 8.0, 9.0, 0.0, 0.0, 0.0]);
}

#[test]
fn support_is_balanced_or_shared_equally() {
    let torque = |leg: LegId, f: f64| [f, leg_slot(leg) as f64, -f];
    let weighted = |legs: &Vec<LegId>| Some(legs.iter().map(|l| 10.0 + leg_slot(*l) as f64).collect());
    let none = |_: &Vec<LegId>| None;
    let equal = |n: usize| 120.0 / n as f64;
    let r = support_tau_go2(&[true, true, true, false], 0.0, weighted, equal, torque);
    assert_eq!(r, [11.0, 1.0, -11.0, 10.0, 0.0, -10.0, 0.0, 0.0, 0.0, 12.0, 2.0, -12.0]);
    let r = support_tau_go2(&[true; 4], 0.0, none, equal, torque);
    assert_eq!(r, [30.0, 1.0, -30.0, 30.0, 0.0, -30.0, 30.0, 3.0, -30.0, 30.0, 2.0, -30.0]);
    let r = support_tau_go2(&[false, true, false, false], 0.0, weighted, equal, torque);
    assert_eq!(r, [120.0, 1.0, -120.0, 0.0, 0.0, 0.0, 0.0, 0.0, 0.0, 0.0, 0.0, 0.0]);
    let r = support_tau_go2(&[true, false, false, true], 0.0, weighted, equal, torque);
    assert_eq!(r, [0.0, 0.0, 0.0, 60.0, 0.0, -60.0, 60.0, 3.0, -60.0, 0.0, 0.0, 0.0]);
    let r = support_tau_go2(&[false; 4], 0.0, none, equal, torque);
    assert_eq!(r, [0.0; 12]);
}

#[test]
fn observer_averages_the_stance_legs() {
    let mut body = BodyObserver::new(100.0);
    let of_leg = |leg: LegId| [1.0, 2.0, 3.0, 8.0][leg_slot(leg)];
    let plus = |a: f64, b: f64| a + b;
    let over = |a: f64, n: u32| a / n as f64;
    let world = |v: f64| -v;
    let moved = |p: f64, v: f64| p + 0.5 * v;
    assert_eq!(body.feed(&[true, false, true, true], 0.0, of_leg, plus, over, world, moved), -4.0);
    assert_eq!(body.pos(), 98.0);
    assert_eq!(body.feed(&[false; 4], 0.0, of_leg, plus, over, world, moved), 0.0);
    assert_eq!(body.pos(), 98.0);
}

fn default_schedule(forward: bool) -> Schedule {
    Schedule::new(1000, 1500, 750, 2000, 1000, 250, forward)
}

fn all_steps(schedule: Schedule) -> Vec<Step> {
    let mut course = Course::new(schedule);
    let mut steps = Vec::new();
    while let Some(step) = course.advance() {
        steps.push(step);
    }
    assert!(course.advance().is_none());
    steps
}

#[test]
fn run_takes_as_long_as_documented() {
    assert_eq!(all_steps(default_schedule(true)).len() as f64 * 0.002, 14.5);
    assert_eq!(all_steps(default_schedule(false)).len() as f64 * 0.002, 7.5);
}

#[test]
fn phases_come_in_order() {
    let mut phases: Vec<Phase> = all_steps(default_schedule(true)).iter().map(|s| s.phase).collect();
    phases.dedup();
    assert_eq!(
        phases,
        vec![
            Phase::Ramp,
            Phase::InPlace,
            Phase::Accelerate,
            Phase::Cruise,
            Phase::Decelerate,
            Phase::Fold,
            Phase::Rest
        ]
    );
    let mut phases: Vec<Phase> = all_steps(default_schedule(false)).iter().map(|s| s.phase).collect();
    phases.dedup();
    assert_eq!(phases, vec![Phase::Ramp, Phase::InPlace, Phase::Fold, Phase::Rest]);
}

#[test]
fn every_part_takes_a_tick() {
    let steps = all_steps(Schedule::new(0, 0, 0, 0, 0, 0, true));
    assert_eq!(steps.len(), 7);
    assert!(steps.iter().all(|s| s.index == 0 && s.total == 1));
    let huge = Schedule::new(u64::MAX, u64::MAX, u64::MAX, u64::MAX, u64::MAX, u64::MAX, true);
    assert_eq!(Course::new(huge).advance(), Some(Step { phase: Phase::Ramp, index: 0, total: u64::MAX }));
}

#[test]
fn recorded_time_runs_on() {
    let schedule = Schedule::new(3, 4, 2, 5, 3, 2, true);
    let steps = all_steps(schedule);
    let times: Vec<u64> = steps
        .iter()
        .filter_map(|s| plan_tick(&schedule, *s).record)
        .map(|t| t.in_place_before + t.accelerate_before + t.cruise_before + t.index)
        .collect();
    assert_eq!(times, (0..13).collect::<Vec<u64>>());
    let forward: Vec<bool> =
        steps.iter().filter_map(|s| plan_tick(&schedule, *s).record).map(|t| t.forward).collect();
    assert_eq!(forward.iter().filter(|f| !**f).count(), 4);
    let labels: Vec<&str> =
        steps.iter().filter_map(|s| plan_tick(&schedule, *s).record).map(|t| t.label()).collect();
    assert_eq!(labels.concat(), "BBBBCCCCCCCCC");
}

#[test]
fn tick_plans() {
    let schedule = Schedule::new(3, 4, 2, 5, 3, 2, true);
    let plans: Vec<_> = all_steps(schedule).iter().map(|s| plan_tick(&schedule, *s)).collect();
    assert_eq!(plans.len(), 21);
    assert_eq!(plans[0].pose, Pose::IntoStance);
    assert_eq!(plans[0].gain, Share::Rising { index: 0, total: 3 });
    assert_eq!(plans[2].blend, Share::Rising { index: 2, total: 3 });
    assert!(!plans[2].poll && !plans[2].supported);
    assert_eq!(plans[3].velocity, Some(Share::Zero));
    assert_eq!(plans[4].velocity, None);
    assert!(plans[4].poll && plans[4].supported && plans[4].pose == Pose::Gait);
    assert_eq!(plans[8].velocity, Some(Share::Rising { index: 1, total: 2 }));
    assert_eq!(plans[9].velocity, Some(Share::Full));
    assert_eq!(plans[10].velocity, None);
    assert_eq!(plans[15].velocity, Some(Share::Falling { index: 1, total: 2 }));
    assert!(plans[15].record.is_some() && plans[15].poll);
    assert!(plans[2].record.is_none() && plans[16].record.is_none());
    assert_eq!(plans[16].pose, Pose::IntoLying);
    assert_eq!(plans.iter().filter(|p| p.capture).count(), 1);
    assert!(plans[16].capture);
    assert_eq!(plans[16].gain, Share::Full);
    assert_eq!(plans[20].pose, Pose::Lying);
    assert!(!plans[20].supported);
}

fn parts(share: Share, unit: u64) -> u64 {
    match share {
        Share::Zero => 0,
        Share::Rising { index, .. } => index,
        Share::Full => unit,
        Share::Falling { index, total } => total - index,
    }
}

#[test]
fn gain_and_speed_change_gently() {
    let schedule = Schedule::new(5, 3, 4, 2, 6, 2, true);
    let plans: Vec<_> = all_steps(schedule).iter().map(|s| plan_tick(&schedule, *s)).collect();
    let gains: Vec<u64> = plans.iter().map(|p| parts(p.gain, 5)).collect();
    assert_eq!(gains[..6], [0, 1, 2, 3, 4, 5]);
    assert!(gains.windows(2).all(|w| w[0] <= w[1]));
    let mut speed = 0;
    let mut speeds = Vec::new();
    for plan in plans.iter().filter(|p| p.pose == Pose::Gait) {
        if let Some(share) = plan.velocity {
            speed = parts(share, 4);
        }
        speeds.push(speed);
    }
    assert_eq!(speeds, vec![0, 0, 0, 0, 1, 2, 3, 4, 4, 4, 3, 2, 1]);
}

#[test]
fn standing_still_sets_no_speed() {
    let schedule = Schedule::new(2, 3, 4, 2, 2, 2, false);
    for step in all_steps(schedule) {
        if let Some(share) = plan_tick(&schedule, step).velocity {
            assert_eq!(share, Share::Zero);
        }
    }
}

#[test]
fn audit_counts_and_reports() {
    let mut audit = LimitAudit::new();
    assert!(audit.verdict().is_ok());
    assert!(!audit.check(false));
    for i in 0..25 {
        assert_eq!(audit.check(true), i < 20);
    }
    assert_eq!(audit.violations(), 25);
    assert_eq!(audit.verdict().unwrap_err(), "25 joint-limit violations \u{2014} not safe to send");
    let (a, b) = dump_phases();
    assert_eq!((a.label.as_str(), a.vx.text(), a.steps), ("inplace", "0.0", 500));
    assert_eq!((b.label.as_str(), b.vx.text(), b.steps), ("forward", "0.1", 1000));
}

#[test]
fn targets_are_held_to_their_limits() {
    let s = signs();
    let sign = |slot: usize, k: usize, x: f64| x * s[slot][k];
    let limits = [(-1.0, 1.0), (-1.5, 3.4), (-2.7, -0.8)];
    let outside = |k: usize, q: f64| q < limits[k].0 || q > limits[k].1;
    let mut audit = LimitAudit::new();
    let t = vec![("FL_calf".to_string(), 1.5), ("FR_calf".to_string(), 1.5), ("FR_hip".to_string(), 2.0)];
    let tick = check_tick(&mut audit, &t, 0.0, sign, outside).unwrap();
    assert_eq!(tick.angles, vec![-1.5, 1.5, -2.0]);
    assert_eq!(tick.outs, vec![false, true, true]);
    assert_eq!(tick.q, [-2.0, 0.0, 1.5, 0.0, 0.0, -1.5, 0.0, 0.0, 0.0, 0.0, 0.0, 0.0]);
    assert_eq!(tick.reports, vec![Violation { target: 1, kind: 2 }, Violation { target: 2, kind: 0 }]);
    assert_eq!(audit.violations(), 2);
    let bad = vec![("FR_hip".to_string(), 2.0), ("FR".to_string(), 0.0), ("FR_hip".to_string(), 2.0)];
    assert_eq!(check_tick(&mut audit, &bad, 0.0, sign, outside).unwrap_err(), "bad joint name FR");
    assert_eq!(audit.violations(), 3);
}

#[test]
fn reports_stop_at_the_limit() {
    let mut audit = LimitAudit::new();
    let t: Vec<(String, f64)> = (0..9).map(|_| ("RL_thigh".to_string(), 1.0)).collect();
    let mut reported = Vec::new();
    for _ in 0..3 {
        let tick = check_tick(&mut audit, &t, 0.0, |_s: usize, _k: usize, x: f64| x, |_k: usize, _q: f64| true);
        reported.push(tick.unwrap().reports.len());
    }
    assert_eq!(reported, vec![9, 9, 2]);
    assert_eq!(audit.violations(), 27);
}

#[test]
fn table_header() {
    let header = csv_header();
    assert!(header.starts_with(
        "t_s,phase,roll,pitch,yaw,gyro_x,gyro_y,gyro_z,acc_x,acc_y,acc_z,quat_w,quat_x,quat_y,quat_z,imu_temp,\
         power_v,power_a,foot0,foot1,foot2,foot3,FR_hip_cmd,FR_hip_q,FR_hip_dq,FR_hip_tau,FR_thigh_cmd,"
    ));
    assert!(header.ends_with(",RL_calf_cmd,RL_calf_q,RL_calf_dq,RL_calf_tau\n"));
    assert_eq!(header.split(',').count(), 70);
    assert_eq!(motor_name(0), "FR_hip");
    assert_eq!(motor_name(4), "FL_thigh");
    assert_eq!(motor_name(11), "RL_calf");
}

#[test]
fn table_rows() {
    let lead: Vec<String> = (0..LEAD_COLUMNS).map(|i| format!("a{i}")).collect();
    let joints: Vec<String> = (0..48).map(|i| format!("j{i}")).collect();
    let row = csv_row(&lead, &joints);
    assert_eq!(row.split(',').count(), 70);
    assert!(row.starts_with("a0,a1,"));
    assert!(row.contains(",a21,j0,"));
    assert!(row.ends_with(",j47\n"));
    assert_eq!(csv_row(&vec![], &vec![]), "\n");
}

#[test]
fn cells_stand_in_the_columns_of_their_names() {
    let text = |s: &str| s.to_string();
    let motors = std::array::from_fn(|m| MotorRecord {
        cmd: format!("{}_cmd", motor_name(m)),
        q: format!("{}_q", motor_name(m)),
        dq: format!("{}_dq", motor_name(m)),
        tau: format!("{}_tau", motor_name(m)),
    });
    let record = TelemetryRecord {
        t_s: text("t_s"),
        phase: text("phase"),
        roll: text("roll"),
        pitch: text("pitch"),
        yaw: text("yaw"),
        gyro_x: text("gyro_x"),
        gyro_y: text("gyro_y"),
        gyro_z: text("gyro_z"),
        acc_x: text("acc_x"),
        acc_y: text("acc_y"),
        acc_z: text("acc_z"),
        quat_w: text("quat_w"),
        quat_x: text("quat_x"),
        quat_y: text("quat_y"),
        quat_z: text("quat_z"),
        imu_temp: text("imu_temp"),
        power_v: text("power_v"),
        power_a: text("power_a"),
        foot0: text("foot0"),
        foot1: text("foot1"),
        foot2: text("foot2"),
        foot3: text("foot3"),
        motors,
    };
    assert_eq!(csv_record(&record), csv_header());
}

#[test]
fn shown_steps() {
    assert!(is_shown(0, 50) && is_shown(100, 50));
    assert!(!is_shown(49, 50));
}

#[test]
fn recorder_keeps_sums_and_maxima() {
    let gap = |a: f64, b: f64| (a - b).abs();
    let plus = |a: f64, b: f64| a + b;
    let larger = |a: f64, b: f64| a.max(b);
    let size = |a: f64| a.abs();
    let drift = |first: f64, now: f64| now - first;
    let mut r = Recorder::new(0.0);
    assert_eq!(r.mean_error(0, 0.0, |s: f64, n: u64| s / n as f64), 0.0);
    let mut shown = 0;
    for i in 0..26 {
        let yaw = if i == 0 { 1.0 } else { 1.5 };
        if r.record(&[1.0; 12], &[0.5; 12], (-0.2, 0.1, yaw), gap, plus, larger, size, drift) {
            shown += 1;
        }
    }
    assert_eq!(shown, 2);
    assert_eq!(r.samples, 26);
    assert_eq!(r.err_sum, [13.0; 12]);
    assert_eq!(r.err_max, [0.5; 12]);
    assert_eq!(r.mean_error(3, 0.0, |s: f64, n: u64| s / n as f64), 0.5);
    assert_eq!((r.roll_max, r.pitch_max), (0.2, 0.1));
    assert_eq!((r.yaw_first, r.yaw_last, r.yaw_dev_max), (Some(1.0), 0.5, 0.5));
}

#[test]
fn extent_of_an_intent() {
    let mut e = IntentExtent::new(0.0, f64::MIN, f64::MAX);
    let smaller = |a: f64, b: f64| a.min(b);
    let larger = |a: f64, b: f64| a.max(b);
    e.note(1.0, 0.1, 0.2, 0.3, smaller, larger);
    e.note(2.0, -0.1, 0.5, 0.1, smaller, larger);
    assert_eq!((e.x_first, e.x_last), (Some(1.0), 2.0));
    assert_eq!((e.sway_min, e.sway_max), (-0.1, 0.1));
    assert_eq!((e.foot_min, e.foot_max, e.lift_max), (0.2, 0.5, 0.3));
}

#[test]
fn text_operations() {
    assert!(text::starts_with("--vx", "--"));
    assert!(!text::starts_with("-", "--"));
    assert!(text::contains("FL_thigh_joint", "thigh"));
    assert!(!text::contains("hi", "hip"));
    assert!(text::contains("x", ""));
    assert_eq!(text::find_char("a=b=c", '='), Some(1));
    assert_eq!(text::find_char("abc", '='), None);
    assert!(text::same_lowered("Linear-CRAWL", "linear-crawl"));
    assert!(!text::same_lowered("\u{c9}", "\u{e9}"));
    assert_eq!(text::lowered('Q'), 'q');
    assert_eq!(text::join(&vec!["a".to_string(), "".to_string(), "b".to_string()], ","), "a,,b");
    assert_eq!(text::join(&vec![], ","), "");
    assert_eq!(text::glue3("a", "b", "c"), "abc");
    assert_eq!(text::glue("a", "b"), "ab");
    assert!(text::same_text("a", "a"));
    assert_eq!(text::chars_of("a\u{e9}"), vec!['a', '\u{e9}']);
}

#[test]
fn run_remembers_the_tick_before() {
    let schedule = Schedule::new(1, 3, 1, 1, 1, 1, false);
    let mut run = Run::new(schedule, (0.0, 0.0, 0.0), Some(1));
    let mut ticks = 0;
    let mut before = [true; 4];
    let mut sent = Vec::new();
    let gait = [[true, true, true, false], [true; 4], [true; 4]];
    while let Some((step, plan)) = run.next_tick() {
        ticks += 1;
        assert_eq!(plan, plan_tick(&schedule, step));
        if plan.poll {
            assert_eq!(run.saw((0.1 * ticks as f64, 0.2, 0.3)), before);
            assert_eq!(run.rpy(), (0.1 * ticks as f64, 0.2, 0.3));
            assert_eq!(recorded(&plan, true), plan.record);
            assert_eq!(recorded(&plan, false), None);
        }
        if plan.pose == Pose::Gait {
            before = gait[step.index as usize];
            sent.push(run.walked(before, 4));
        }
    }
    assert_eq!(ticks, 6);
    assert_eq!(sent, vec![Some(10), None, Some(0)]);
    assert!(run.next_tick().is_none());
}

#[test]
fn run_foresees_the_first_ticks() {
    let mut run = Run::new(Schedule::new(1, 3, 1, 1, 1, 1, false), (0, 0, 0), Some(2));
    run.foresee(4);
    run.foresee(3);
    assert_eq!(run.walked([true; 4], 4), Some(10));
}

#[test]
fn a_row_for_every_tick_of_walking() {
    let schedule = default_schedule(true);
    let rows = all_steps(schedule).iter().filter(|s| plan_tick(&schedule, **s).record.is_some()).count();
    assert_eq!(rows, 1500 + 750 + 2000 + 750);
}

#[test]
fn run_without_indicator_sends_nothing() {
    let mut run = Run::new(Schedule::new(1, 1, 1, 1, 1, 1, false), (0, 0, 0), None);
    assert_eq!(run.walked([true, true, true, false], 3), None);
}
