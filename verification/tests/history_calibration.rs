use klipper_estimator::calibration::{
    build_history_calibration, find_marker, fit_model, is_marker_line, judge, marker_comment,
    plan_history_request, quantile, reject, validate_job, verify_marker, CalibrationMarker,
    CalibrationReport, CalibrationSample, CalibrationStatus, HistoryJob, HistoryRequest,
    MarkerFault, Rejection,
};
use klipper_estimator::double::Double;
use klipper_estimator::duration::DurationEstimate;
use klipper_estimator::fingerprint::fingerprint_bytes;
use klipper_estimator::history::{calibrate_history, files_to_fetch};
use klipper_estimator::table::Table;

fn d(x: f64) -> Double {
    Double { bits: x.to_bits() }
}

fn f(x: Double) -> f64 {
    f64::from_bits(x.bits)
}

fn job(status: &str, end_time: f64, print: f64, total: f64) -> HistoryJob {
    HistoryJob {
        exists: true,
        status: status.into(),
        filename: "cube.gcode".into(),
        end_time: Some(d(end_time)),
        print_duration: d(print),
        total_duration: d(total),
        uuid: "file-1".into(),
        file_processors: vec!["klipper_estimator".into()],
    }
}

fn sample(residual: f64, end_time: u64) -> CalibrationSample {
    CalibrationSample {
        residual: d(residual),
        end_time,
    }
}

fn encoded(marker: &CalibrationMarker) -> String {
    format!(
        "{{\"version\":\"{}\",\"configuration\":\"{}\",\"gcode\":\"{}\"}}",
        marker.estimator_version, marker.configuration_fingerprint, marker.gcode_fingerprint
    )
}

fn marker(configuration: &str, baseline: f64) -> CalibrationMarker {
    CalibrationMarker::new(
        "v3".into(),
        configuration.into(),
        "fixture-hash".into(),
        d(baseline),
    )
}

#[test]
fn marker_verifies_the_exact_preceding_bytes() {
    let body = b"G1 X10\n";
    let marker = CalibrationMarker::new(
        "v3".into(),
        "config".into(),
        fingerprint_bytes(&body.to_vec()),
        d(10.0),
    );
    let contents = format!(
        "{}{}\n",
        std::str::from_utf8(body).unwrap(),
        marker_comment(&encoded(&marker))
    );
    let (start, text) = find_marker(&contents.clone().into_bytes()).unwrap();
    assert_eq!(start, body.len());
    assert_eq!(text, encoded(&marker).into_bytes());
    assert!(verify_marker(&marker, &contents.clone().into_bytes(), start).is_ok());

    let changed = contents.replacen("X10", "X11", 1);
    assert_eq!(
        verify_marker(&marker, &changed.into_bytes(), start),
        Err(MarkerFault::Fingerprint)
    );
}

#[test]
fn markers_stand_alone_on_the_last_line() {
    let line = marker_comment("{}");
    assert_eq!(line, "; klipper_estimator calibration: {}");
    assert!(is_marker_line(&line));
    assert!(!is_marker_line("; something else"));
    let at = |text: String| find_marker(&text.into_bytes());
    assert_eq!(at("G28\n".into()), Err(MarkerFault::Missing));
    assert_eq!(at(format!("G28 {line}\n")), Err(MarkerFault::NotOwnLine));
    assert_eq!(at(format!("{line}\nG28\n")), Err(MarkerFault::NotFinalLine));
    let mut old = marker("config", 1.0);
    old.schema_version = 99;
    assert_eq!(
        verify_marker(&old, &b"G28\n".to_vec(), 0),
        Err(MarkerFault::Schema)
    );
}

#[test]
fn rejects_incomplete_stale_and_possibly_paused_jobs() {
    let reason = |job: HistoryJob| validate_job(&job, 1_000, 200).map(|r| r.text());
    assert_eq!(
        reason(job("cancelled", 900.0, 10.0, 10.0)),
        Some("incomplete_status")
    );
    assert_eq!(
        reason(job("completed", 700.0, 10.0, 10.0)),
        Some("stale")
    );
    assert_eq!(
        reason(job("completed", 900.0, 10.0, 12.0)),
        Some("possible_pause")
    );
}

#[test]
fn every_reason_for_a_rejection_has_an_input() {
    let good = job("completed", 900.0, 10.0, 10.0);
    let now = 1_000;
    let age = 200;
    assert_eq!(validate_job(&good, now, age), None);
    assert_eq!(
        validate_job(&HistoryJob { exists: false, ..good.clone() }, now, age),
        Some(Rejection::ModifiedOrMissingGcode)
    );
    assert_eq!(
        validate_job(&HistoryJob { uuid: "".into(), ..good.clone() }, now, age),
        Some(Rejection::ModifiedOrMissingGcode)
    );
    assert_eq!(
        validate_job(&HistoryJob { file_processors: vec![], ..good.clone() }, now, age),
        Some(Rejection::NotEstimatorProcessed)
    );
    assert_eq!(
        validate_job(&HistoryJob { end_time: None, ..good.clone() }, now, age),
        Some(Rejection::InvalidEndTime)
    );
    assert_eq!(
        validate_job(&HistoryJob { print_duration: d(f64::NAN), ..good.clone() }, now, age),
        Some(Rejection::InvalidDuration)
    );
    let judged = |m: Option<CalibrationMarker>| judge(&good, &m, "a", now, age).map(|s| f(s.residual));
    assert_eq!(judged(None), Err(Rejection::UnverifiableGcode));
    assert_eq!(judged(Some(marker("b", 10.0))), Err(Rejection::ConfigurationMismatch));
    assert_eq!(judged(Some(marker("a", 0.0))), Err(Rejection::InvalidBaseline));
    let long = job("completed", 900.0, 700.0, 700.0);
    assert_eq!(
        judge(&long, &Some(marker("a", 1.0)), "a", now, age).map(|s| f(s.residual)),
        Err(Rejection::ResidualOutlier)
    );
    assert_eq!(judged(Some(marker("a", 8.0))), Ok(2.0));
}

#[test]
fn robust_model_is_reproducible_and_reports_error() {
    let samples = vec![
        sample(9.0, 900),
        sample(10.0, 850),
        sample(11.0, 800),
        sample(100.0, 750),
    ];
    let report = fit_model(samples, Table::new(), "config", 3, 1_000);
    let model = report.model.unwrap();
    assert_eq!(model.sample_count, 4);
    assert_eq!(f(model.median_residual), 10.5);
    assert_eq!(model.newest_sample_age_seconds, 100);
    assert_eq!(model.oldest_sample_age_seconds, 250);
    assert_eq!(f(model.residual_interval.lower), 9.3);
    assert!((f(model.residual_interval.upper) - 73.3).abs() < 1e-9);
    assert_eq!(f(model.error_metrics.median_absolute_error), 1.0);
}

#[test]
fn history_is_filtered_before_a_model_is_fitted() {
    let good = |print: f64, end: f64| job("completed", end, print, print);
    let named = |name: &str, j: HistoryJob| HistoryJob { filename: name.into(), ..j };
    let jobs = vec![
        good(109.0, 900.0),
        good(110.0, 850.0),
        good(112.0, 800.0),
        job("cancelled", 900.0, 110.0, 110.0),
        good(110.0, 100.0),
        HistoryJob { exists: false, ..good(110.0, 900.0) },
        named("wrong-config.gcode", good(110.0, 900.0)),
        job("completed", 900.0, 110.0, 150.0),
    ];
    let markers = jobs
        .iter()
        .map(|j| {
            Some(marker(
                if j.filename == "wrong-config.gcode" {
                    "config-b"
                } else {
                    "config-a"
                },
                100.0,
            ))
        })
        .collect();
    let report = build_history_calibration(&jobs, &markers, "config-a", 500, 3, 1_000);
    let model = report.model.unwrap();
    assert_eq!(model.sample_count, 3);
    assert_eq!(f(model.median_residual), 10.0);
    for reason in [
        "incomplete_status",
        "stale",
        "modified_or_missing_gcode",
        "configuration_mismatch",
        "possible_pause",
    ] {
        assert_eq!(report.rejected_samples.get(reason), Some(&1));
    }
}

#[test]
fn calibration_keeps_deterministic_time_available() {
    let mut report = fit_model(
        vec![sample(8.0, 900), sample(10.0, 850), sample(12.0, 800)],
        Table::new(),
        "config",
        3,
        1_000,
    );
    let mut estimate = DurationEstimate::default();
    estimate.add_deterministic("motion", d(100.0));
    report.apply(&mut estimate);
    assert_eq!(f(estimate.deterministic_time), 100.0);
    assert_eq!(f(estimate.expected_total_time), 110.0);
    assert_eq!(f(report.prediction.unwrap().lower), 108.4);
}

#[test]
fn too_few_samples_leave_the_estimate_alone() {
    let mut report = fit_model(vec![sample(8.0, 900)], Table::new(), "config", 3, 1_000);
    assert_eq!(report.status, CalibrationStatus::InsufficientData);
    let mut estimate = DurationEstimate::default();
    estimate.add_deterministic("motion", d(100.0));
    report.apply(&mut estimate);
    assert_eq!(f(estimate.expected_total_time), 100.0);
    assert!(report.prediction.is_none());
    let unavailable = CalibrationReport::unavailable("no connection");
    assert_eq!(unavailable.status, CalibrationStatus::Unavailable);
    assert_eq!(unavailable.reason.as_deref(), Some("no connection"));
}

#[test]
fn the_history_is_only_asked_with_a_connection_and_a_limit() {
    assert_eq!(
        plan_history_request(true, 50, 90, 0).unwrap(),
        HistoryRequest {
            limit: 50,
            max_age_seconds: 7_776_000,
            min_samples: 1,
        }
    );
    assert_eq!(
        plan_history_request(true, 1, u64::MAX, 3)
            .unwrap()
            .max_age_seconds,
        u64::MAX
    );
    let report = plan_history_request(true, 0, 90, 3).unwrap_err();
    assert_eq!(report.status, CalibrationStatus::Unavailable);
    assert_eq!(
        report.reason.as_deref(),
        Some("history calibration limit must be greater than zero")
    );
    let report = plan_history_request(false, 0, 90, 3).unwrap_err();
    assert_eq!(
        report.reason.as_deref(),
        Some("history calibration requires --config_moonraker_url")
    );
}

#[test]
fn the_order_of_samples_is_of_no_account() {
    let a = vec![sample(8.0, 900), sample(-2.0, 800), sample(5.0, 950)];
    let mut b = a.clone();
    b.reverse();
    let of = |samples| format!("{:?}", fit_model(samples, Table::new(), "config", 1, 1_000));
    assert_eq!(of(a), of(b));
}

#[test]
fn markers_are_only_found_in_texts() {
    let mut bytes = vec![0xffu8, b'\n'];
    bytes.extend(marker_comment("{}").into_bytes());
    assert_eq!(find_marker(&bytes), Err(MarkerFault::NotText));
    assert_eq!(MarkerFault::NotText.text(), "history G-code is not UTF-8");
}

#[test]
fn quantiles_lie_between_neighbours() {
    let values = vec![d(1.0), d(2.0), d(4.0)];
    assert_eq!(f(quantile(&values, 0.5f64.to_bits())), 2.0);
    assert_eq!(f(quantile(&values, 0.75f64.to_bits())), 3.0);
    assert_eq!(f(quantile(&values, 1.0f64.to_bits())), 4.0);
}

#[test]
fn rejections_are_counted_by_reason() {
    let mut counts = Table::new();
    reject(&mut counts, "stale");
    reject(&mut counts, "stale");
    reject(&mut counts, "possible_pause");
    assert_eq!(counts.get("stale"), Some(&2));
    assert_eq!(counts.get("possible_pause"), Some(&1));
    assert_eq!(counts.get("other"), None);
}

#[test]
fn files_are_asked_for_once_and_only_where_they_matter() {
    let good = |name: &str, uuid: &str| HistoryJob {
        filename: name.into(),
        uuid: uuid.into(),
        ..job("completed", 900.0, 110.0, 110.0)
    };
    let jobs = vec![
        HistoryJob { status: "cancelled".into(), ..good("a.gcode", "1") },
        good("a.gcode", "1"),
        good("b.gcode", "1"),
        good("a.gcode", "1"),
        good("a.gcode", "2"),
        HistoryJob { exists: false, ..good("c.gcode", "3") },
    ];
    assert_eq!(files_to_fetch(&jobs, 1_000, 500), vec![1, 2, 4]);
    assert!(files_to_fetch(&jobs, 2_000, 500).is_empty());
    let fetched = vec![Some(marker("config", 100.0)), None, Some(marker("other", 100.0))];
    let report = calibrate_history(&jobs, &fetched, "config", 500, 2, 1_000);
    assert_eq!(report.model.unwrap().sample_count, 2);
    for (reason, count) in [
        ("incomplete_status", 1),
        ("unverifiable_gcode", 1),
        ("configuration_mismatch", 1),
        ("modified_or_missing_gcode", 1),
    ] {
        assert_eq!(report.rejected_samples.get(reason), Some(&count));
    }
}

#[test]
fn the_signs_of_zeros_are_of_no_account() {
    let residuals = [-0.0, 0.0, 3.0, 0.0, -0.0];
    let mut reports = Vec::new();
    for turn in 0..residuals.len() {
        let samples = (0..residuals.len())
            .map(|i| sample(residuals[(i + turn) % residuals.len()], 900))
            .collect();
        let model = fit_model(samples, Table::new(), "config", 1, 1_000).model.unwrap();
        reports.push([
            model.median_residual.bits,
            model.residual_interval.lower.bits,
            model.residual_interval.upper.bits,
            model.error_metrics.median_absolute_error.bits,
            model.error_metrics.root_mean_squared_error.bits,
        ]);
    }
    assert_eq!(reports[0][0], 0);
    for report in &reports {
        assert_eq!(*report, reports[0]);
    }
}
