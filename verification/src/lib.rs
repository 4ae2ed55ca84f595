//! Print-time estimation for Klipper printers.

pub mod arc_laws;
pub mod arcs;
pub mod big;
pub mod calibration;
pub mod calibration_laws;
pub mod command_laws;
pub mod constant_laws;
pub mod constants;
pub mod corner_laws;
pub mod decimal;
pub mod delay;
pub mod delay_laws;
pub mod diagnostics;
pub mod double;
pub mod duration;
pub mod errors;
pub mod estimate;
pub mod fetch_laws;
pub mod fingerprint;
pub mod gcode;
pub mod gcode_laws;
pub mod geometry;
pub mod history;
pub mod import_laws;
pub mod imports;
pub mod inclusion;
pub mod kinds;
pub mod kinematics;
pub mod laws;
pub mod limit_laws;
pub mod limits;
pub mod line_laws;
pub mod lookahead;
pub mod machine;
pub mod mesh_laws;
pub mod moonraker;
pub mod motion_laws;
pub mod motion_transform;
pub mod move_laws;
pub mod offline;
pub mod offset_laws;
pub mod operations;
pub mod options;
pub mod order_laws;
pub mod plan_laws;
pub mod planner;
pub mod planning_move;
pub mod post_process;
pub mod presentation;
pub mod printer_settings;
pub mod progress_laws;
pub mod queue_laws;
pub mod report;
pub mod report_laws;
pub mod resolution;
pub mod resolved_laws;
pub mod right_angle_laws;
pub mod rounding;
pub mod sample_laws;
pub mod saved_laws;
pub mod saved_transforms;
pub mod search;
pub mod settings;
pub mod shortest;
pub mod slicer_laws;
pub mod snapshot;
pub mod speed_laws;
pub mod state_laws;
pub mod statistics_laws;
pub mod table;
pub mod telling_laws;
pub mod text;
pub mod time_laws;
pub mod toolhead;
pub mod walk;
pub mod whole_laws;
pub mod written_laws;
