use klipper_estimator::calibration::{
    find_marker, is_marker_line, marker_comment, verify_marker, CalibrationMarker,
};
use klipper_estimator::double::Double;
use klipper_estimator::fingerprint::fingerprint_bytes;
use klipper_estimator::gcode::parse_gcode;
use klipper_estimator::limits::PrinterLimits;
use klipper_estimator::post_process::{
    closing_line, metadata_processor, EstimateRunner, Interceptor, Rewrite, Slicer,
};

fn d(x: f64) -> Double {
    Double { bits: x.to_bits() }
}

fn f(x: Double) -> f64 {
    f64::from_bits(x.bits)
}

fn comment(output: Option<Rewrite>) -> String {
    match output {
        Some(Rewrite::Comment(text)) => text,
        _ => panic!("expected a comment"),
    }
}

#[test]
fn post_process_legacy_total_tracks_expected_total() {
    let mut runner = EstimateRunner::new(PrinterLimits::default());
    for line in "G1 X10 F600\n; ESTIMATOR_ADD_TIME 2 measured\n".lines() {
        runner.process(parse_gcode(line).unwrap());
    }
    runner.finish();

    assert_eq!(f(runner.total_time), f(runner.duration.expected_total_time));
    assert_eq!(
        f(runner.duration.expected_total_time),
        f(runner.duration.deterministic_time) + 2.0
    );
}

#[test]
fn legacy_cura_fields_use_expected_total_time() {
    let mut interceptor = metadata_processor(Slicer::Cura);
    let output = interceptor.output_process(&parse_gcode(";TIME:999").unwrap(), d(42.4));
    assert_eq!(comment(output), "TIME:43");
}

#[test]
fn prusaslicer_estimated_time_marker_is_rewritten_without_a_regex() {
    let mut interceptor = metadata_processor(Slicer::PrusaSlicer);
    let output = interceptor.output_process(
        &parse_gcode("; estimated printing time (normal mode) = 1s").unwrap(),
        d(3661.0),
    );
    assert_eq!(
        comment(output),
        " estimated printing time (normal mode) = 1h 1m 1s"
    );
}

#[test]
fn progress_lines_get_the_times_that_were_noted() {
    let mut runner = EstimateRunner::new(PrinterLimits::default());
    let lines = [
        "; generated by PrusaSlicer 2.6",
        "G1 X10 F600",
        "M73 P50 R10",
        "G1 X20 F600",
        "M73 P100 R0",
    ];
    for line in lines {
        runner.process(parse_gcode(line).unwrap());
    }
    runner.finish();
    assert_eq!(runner.slicer, Some(Slicer::PrusaSlicer));
    assert!(runner.buffer.is_empty());
    let total = runner.total_time;
    let written: Vec<String> = lines
        .iter()
        .filter_map(|line| runner.interceptor.write_line(line, total))
        .collect();
    assert_eq!(written.len(), 5);
    assert_eq!(written[1], "G1 X10 F600");
    assert!(written[2].starts_with("M73 P"));
    assert_ne!(written[2], "M73 P50 R10");
    assert_eq!(written[4], "M73 P100.000 R0");
}

#[test]
fn each_slicer_has_its_own_fields() {
    let mut idea = metadata_processor(Slicer::IdeaMaker);
    idea.post_command(&parse_gcode(";PRINTING_TIME: 1").unwrap(), d(10.5));
    let total = d(100.0);
    assert_eq!(
        idea.write_line(";Print Time: 5", total).unwrap(),
        ";Print Time: 100"
    );
    assert_eq!(
        idea.write_line(";PRINTING_TIME: 1", total).unwrap(),
        ";PRINTING_TIME: 11"
    );
    assert_eq!(
        idea.write_line(";REMAINING_TIME: 1", total).unwrap(),
        ";REMAINING_TIME: 90"
    );
    assert_eq!(
        idea.write_line(";REMAINING_TIME: 1", total).unwrap(),
        ";REMAINING_TIME: 1"
    );
    let mut simplify = metadata_processor(Slicer::Simplify3D);
    assert_eq!(
        simplify.write_line(";   Build Time: 1", d(3661.0)).unwrap(),
        ";   Build Time: 1 hours 1 minutes 1 sec"
    );
    let mut cura = metadata_processor(Slicer::Cura);
    cura.post_command(&parse_gcode(";TIME_ELAPSED:1").unwrap(), d(7.25));
    assert_eq!(
        cura.write_line(";TIME_ELAPSED:1", total).unwrap(),
        ";TIME_ELAPSED:8"
    );
    assert_eq!(
        cura.write_line(";PRINT.TIME:1", total).unwrap(),
        ";PRINT.TIME:100"
    );
    let mut none = Interceptor::Noop;
    assert_eq!(none.write_line(";TIME:1", total).unwrap(), ";TIME:1");
}

#[test]
fn old_markers_are_left_out_and_unreadable_lines_stay() {
    let mut none = Interceptor::Noop;
    assert_eq!(
        none.write_line("; klipper_estimator calibration: {}", d(1.0)),
        None
    );
    assert_eq!(none.write_line("?", d(1.0)).as_deref(), Some("?"));
}

#[test]
fn slicers_are_known_by_their_comments() {
    for (text, slicer) in [
        (" generated by PrusaSlicer 2.6", Slicer::PrusaSlicer),
        (" generated by SuperSlicer 2.5", Slicer::SuperSlicer),
        (" generated by OrcaSlicer 1.8", Slicer::OrcaSlicer),
        ("Sliced by ideaMaker 4", Slicer::IdeaMaker),
        ("Generated with Cura_SteamEngine 5.0", Slicer::Cura),
        (" G-Code generated by Simplify3D(R) Version 4", Slicer::Simplify3D),
    ] {
        assert_eq!(Slicer::determine(text), Some(slicer));
    }
    assert_eq!(Slicer::determine("LAYER:1"), None);
    assert_eq!(
        closing_line("v3", Some(Slicer::Cura)),
        "; Processed by klipper_estimator v3, detected slicer Cura"
    );
    assert_eq!(
        closing_line("v3", None),
        "; Processed by klipper_estimator v3, no slicer detected"
    );
}

#[test]
fn written_files_hold_one_marker_on_their_last_line() {
    let old = marker_comment("{\"stale\":true}");
    let lines = [";FLAVOR:Marlin", old.as_str(), ";TIME:99", "G1 X10", "; say \u{e9}", old.as_str()];
    let mut interceptor = metadata_processor(Slicer::Cura);
    let mut text = String::new();
    for line in lines {
        if let Some(written) = interceptor.write_line(line, d(12.5)) {
            assert!(!is_marker_line(&written));
            text.push_str(&written);
            text.push('\n');
        }
    }
    text.push_str(&closing_line("v1", Some(Slicer::Cura)));
    text.push('\n');
    assert!(text.contains(";TIME:13\n"));
    let marker = CalibrationMarker::new(
        "v1".into(),
        "config".into(),
        fingerprint_bytes(&text.clone().into_bytes()),
        d(12.5),
    );
    let whole = format!("{}{}\n", text, marker_comment("{}"));
    assert_eq!(whole.lines().filter(|line| is_marker_line(line)).count(), 1);
    assert!(is_marker_line(whole.lines().last().unwrap()));
    let bytes = whole.into_bytes();
    let (start, encoded) = find_marker(&bytes).unwrap();
    assert_eq!(start, text.len());
    assert_eq!(encoded, b"{}");
    assert!(verify_marker(&marker, &bytes, start).is_ok());
    let mut changed = bytes.clone();
    changed[0] = b'#';
    assert!(verify_marker(&marker, &changed, start).is_err());
}
