//! How the program is used.

use vstd::prelude::*;

verus! {

/// Every mode and every flag.
pub const HELP_TEXT: &'static str = "\
go2-gait-runner — drive quadruped-gait controllers on a real Unitree Go2.

USAGE:
  go2-gait-runner <mode> [<iface>] [flags]

MODES:
  dump            Offline: assert the gait stays within Go2 joint limits.
  intent          Offline: quantify forward displacement, foot sweep, lift.
  run    <iface>  Hardware: release sport_mode -> ramp -> in-place -> forward
                  -> fold; reads state back and prints a tracking/tilt summary.
  diag   <iface>  Alias for `run` (identical behaviour).
  release <iface> Deactivate sport_mode (native RPC; replaces go2_motion_ctrl).
  restore <iface> Re-select \"normal\" so the onboard controller takes over.
  checkmode <iface>  Print the currently active motion mode.
  util <cmd> <mode> <iface>  Auxiliary device commands (not gait playback):
                  util lidar <on|off> <iface>  toggle the L1 LiDAR
                  (publishes ON/OFF to rt/utlidar/switch).
                  util led <on|off|0..10> <iface>  head LED: on/off switch or
                  brightness 0..10 (vui service, white).
                  util led-color <white|red|yellow|blue|green|cyan|purple>
                  <iface> [secs] [flash_ms]  head LED colour (vui api 1007;
                  named palette only, no arbitrary RGB; secs default 5).

FLAGS (all optional; <iface> is the 1st positional for run/diag):
  --misa PATH       model .misa file        (default models/unitree_go2/go2.misa)
  --gait MODE       linear-crawl (default) | champ | mpc | centroidal-srbd |
                    full-centroidal. linear-crawl and champ are open-loop; the
                    others are closed-loop on the robot's state (IMU + leg
                    odometry).
  --gait-type T     footfall pattern for champ/mpc: trot|walk|pace|bound|crawl
                    (default crawl for linear-crawl, trot otherwise; linear-crawl
                    ignores the pattern but uses the preset's timing)
  --vx V            forward speed, m/s       (run/diag default 0.0; intent 0.05)
  --inplace S       in-place phase, seconds  (default 3)        [run/diag]
  --forward S       forward phase, seconds   (default 4)        [run/diag]
  --kp K            position gain            (default 60)        [run/diag]
  --kd K            damping gain             (default 5)         [run/diag]
  --swing H         foot lift height, m      (default 0.04)
  --stance-height M trunk height above the feet, m (default 0.35)
  --cycle S         gait cycle period, s     (default: crawl preset)
  --four-support F  4-support fraction 0..1  (default: crawl preset)
  --sway M          lateral body-sway amplitude, m (default 0 = off)
  --stance-width M  widen the stance outward, m: bigger support, no trunk motion
  --smooth-swing    C2 swing profile: zero accel at lift-off/touchdown (gentler)
  --max-swing-speed V  cap peak swing-foot speed, m/s: auto-slows forward speed
                    so a high --four-support doesn't shake the body (default 3.0;
                    0 = disable = legacy unbounded). Slowing --cycle does NOT help.
  --led-3support    light the head LED during the 3-leg support period (and the
                    --led-margin window before/after it)            [run/diag]
  --led-margin S    seconds before/after the 3-support period to keep the LED
                    lit (default 0.1)                               [run/diag]
  --level           active IMU body-leveling: trim stance feet to hold trunk flat
  --level-gain G    leveling strength, signed (default 0.3; negate if it worsens)
  --ff              enable body-weight support feedforward      [run/diag]
  --ff-scale S      fraction of body weight to support, 1.0=full (default 1.0) [run/diag]
  --csv PATH        write full per-tick telemetry CSV           [run/diag]
  --viz             stream the generated gait over Zenoh for live viewing in
                    the articara GUI (key go2/gait/planned, JSON). On `intent`
                    it streams offline in real time (no robot)  [run/diag/intent]
  --viz-key K       Zenoh key to publish on (default go2/gait/planned)
  --viz-rate HZ     viz publish rate, Hz (default 100)
  --viz-endpoint EP Zenoh listen endpoint (e.g. tcp/0.0.0.0:7447) for hosts
                    without multicast (same PC / WSL2); the viewer connects to
                    it. Default: auto multicast discovery (works on a LAN).
  --no-release      do NOT auto-release sport_mode at startup   [run/diag]
  --restore         re-activate sport_mode after the run        [run/diag]
  -h, --help        show this help

EXAMPLE (validated on slippery flooring):
  go2-gait-runner run eth0 --vx 0.02 --cycle 2.5 --four-support 0.9 \\
      --swing 0.04 --kp 200 --kd 6 --ff
";

} // verus!
