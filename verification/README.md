# klipper_estimator

How long a print takes on a printer that runs Klipper: a verified library that
reads G-code, plans its moves the way the firmware does, and adds up the time.

## Layout

- `src/` is the library. Every function states what it computes, and Verus
  proves it. What is believed instead is stated at ten places: the wrappers
  around one call each of `sha2` (in `fingerprint`) and `url` (in `moonraker`),
  that around `std::str::from_utf8` (in `calibration`), and the contract of
  `String::push` (in `text`).
  - Numbers: `rounding`, `double`, `big`, `decimal` and `shortest` are binary64
    arithmetic with correct rounding, and reading and writing of decimal
    numbers.
  - Planning: `gcode`, `arcs`, `toolhead`, `motion_transform`, `kinematics`,
    `limits`, `planning_move`, `lookahead`, `operations` and `planner` turn
    commands into planned moves and delays, with `diagnostics` for what is not
    modelled.
  - Configuration: `walk`, `search`, `offline` and `inclusion` read a tree of
    configuration files, `resolution`, `saved_transforms` and `settings` find
    the values, `machine`, `imports` and `printer_settings` turn them into
    limits, and `snapshot` and `fingerprint` keep them together with where they
    came from. `moonraker` makes the addresses of requests.
  - Estimates: `duration`, `estimate`, `calibration`, `history`, `report`,
    `presentation` and `post_process` add up times, compare them with finished
    jobs, and tell them.
  - `laws`, `motion_laws`, `speed_laws`, `queue_laws`, `calibration_laws` and
    `written_laws` hold what is true of several of these at once.
- `app/` is the program around the library: the command line, files, requests to
  Moonraker, JSON, and the trigonometry of arcs and skew.
- `tests/` holds tests on concrete values.

## Numbers

All times, lengths and speeds are `Double`, a number by its binary64 bit
pattern. `f64::to_bits` and `f64::from_bits` convert in both directions. Sums,
products, quotients, square roots, rounding and remainders are those of the
machine, bit for bit.
