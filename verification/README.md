# go2_gait_runner

A gait runner for the Unitree Go2 quadruped: it drives a gait controller over the
robot's low-level interface at 500 Hz, checks gaits offline, and switches the
robot's auxiliary devices.

- `src/` is the library, verified with Verus: the command line, the plan of a run
  tick by tick, joint and motor order, the share of the legs on the ground, the
  limit check, telemetry, the LED indicator and the pacing of the live stream.
  It holds no floating-point number: numbers of the command line are carried as
  texts, and measured values as a type parameter together with the arithmetic on
  them.
- `app/` is the program: it loads the model, talks to the robot, and computes in
  floating point.
- `tests/` exercises the library with real numbers and a real session
  configuration.

Two things are believed rather than proved: how std shows a string in quotation
marks (`src/quote.rs`), and what inserting a setting does to a session
configuration (`src/viz.rs`).
