//! The text of a whole estimate.

use vstd::prelude::*;

use crate::calibration::CalibrationReport;
use crate::calibration::CalibrationStatus;
use crate::calibration::ReportView;
use crate::constants::HUNDRED;
use crate::decimal::fixed;
use crate::decimal::format_fixed;
use crate::diagnostics::PlannerDiagnostic;
use crate::double::num;
use crate::duration::omissions;
use crate::duration::OmittedDurationComponent;
use crate::estimate::runs_of;
use crate::estimate::EstimateAccuracyClass;
use crate::estimate::EstimationMetadata;
use crate::estimate::EstimationSequence;
use crate::estimate::EstimationState;
use crate::estimate::RunView;
use crate::estimate::StateView;
use crate::kinds::texts;
use crate::limits::UnknownDurationCategory;
use crate::operations::reported;
use crate::report::kind_distribution;
use crate::report::kind_lines;
use crate::report::layer_distribution;
use crate::report::layer_lines;
use crate::report::push_line;
use crate::report::run_lines;
use crate::report::run_texts;
use crate::report::timed;
use crate::report::timed_text;
use crate::snapshot::ConfigSnapshotSummary;
use crate::snapshot::SummaryView;
use crate::text::decimal;
use crate::text::to_decimal;

verus! {

/// The lines that a text is made of.
pub type Lines = Seq<Seq<char>>;

pub open spec fn accuracy_name(class: EstimateAccuracyClass) -> Seq<char> {
    match class {
        EstimateAccuracyClass::Complete => "Complete"@,
        EstimateAccuracyClass::Degraded => "Degraded"@,
        EstimateAccuracyClass::LowerBound => "LowerBound"@,
    }
}

fn accuracy_text(class: EstimateAccuracyClass) -> (r: &'static str)
    ensures
        r@ == accuracy_name(class),
{
    match class {
        EstimateAccuracyClass::Complete => "Complete",
        EstimateAccuracyClass::Degraded => "Degraded",
        EstimateAccuracyClass::LowerBound => "LowerBound",
    }
}

pub open spec fn category_name(category: UnknownDurationCategory) -> Seq<char> {
    match category {
        UnknownDurationCategory::TemperatureWait => "TemperatureWait"@,
        UnknownDurationCategory::Homing => "Homing"@,
        UnknownDurationCategory::FilamentChange => "FilamentChange"@,
        UnknownDurationCategory::CommandOrMacro => "CommandOrMacro"@,
    }
}

fn category_text(category: UnknownDurationCategory) -> (r: &'static str)
    ensures
        r@ == category_name(category),
{
    match category {
        UnknownDurationCategory::TemperatureWait => "TemperatureWait",
        UnknownDurationCategory::Homing => "Homing",
        UnknownDurationCategory::FilamentChange => "FilamentChange",
        UnknownDurationCategory::CommandOrMacro => "CommandOrMacro",
    }
}

pub open spec fn status_name(status: CalibrationStatus) -> Seq<char> {
    match status {
        CalibrationStatus::Applied => "Applied"@,
        CalibrationStatus::InsufficientData => "InsufficientData"@,
        CalibrationStatus::Unavailable => "Unavailable"@,
    }
}

fn status_text(status: CalibrationStatus) -> (r: &'static str)
    ensures
        r@ == status_name(status),
{
    match status {
        CalibrationStatus::Applied => "Applied",
        CalibrationStatus::InsufficientData => "InsufficientData",
        CalibrationStatus::Unavailable => "Unavailable",
    }
}

/// What the estimate was made with.
pub open spec fn identity(m: EstimationMetadata<Seq<char>>) -> Seq<char> {
    "Estimator: "@ + m.estimator_version + " | Klipper: "@ + (match m.klipper_version {
        Some(v) => v,
        None => "unknown"@,
    }) + " | Backend: "@ + m.backend + " | Accuracy: "@ + accuracy_name(m.accuracy_class)
}

fn identity_line(m: &EstimationMetadata) -> (r: String)
    ensures
        r@ == identity(m@),
{
    let mut r: String = "Estimator: ".to_owned();
    r.append(m.estimator_version.as_str());
    r.append(" | Klipper: ");
    match &m.klipper_version {
        Some(v) => r.append(v.as_str()),
        None => r.append("unknown"),
    }
    r.append(" | Backend: ");
    r.append(m.backend.as_str());
    r.append(" | Accuracy: ");
    r.append(accuracy_text(m.accuracy_class));
    r
}

/// The first `i` warnings.
pub open spec fn warning_texts(w: Seq<Seq<char>>, i: int) -> Lines
    decreases i,
{
    if i <= 0 {
        Seq::empty()
    } else {
        warning_texts(w, i - 1).push("  Warning: "@ + w[i - 1])
    }
}

/// The first `i` reports.
pub open spec fn diagnostic_texts(d: Seq<PlannerDiagnostic<Seq<char>>>, i: int) -> Lines
    decreases i,
{
    if i <= 0 {
        Seq::empty()
    } else {
        diagnostic_texts(d, i - 1).push("  "@ + d[i - 1].command + ": "@ + d[i - 1].message)
    }
}

/// The first `i` omissions.
pub open spec fn omission_texts(o: Seq<OmittedDurationComponent<Seq<char>>>, i: int) -> Lines
    decreases i,
{
    if i <= 0 {
        Seq::empty()
    } else {
        omission_texts(o, i - 1).push(
            "  "@ + o[i - 1].command + " ("@ + category_name(o[i - 1].category) + "): "@
                + o[i - 1].reason,
        )
    }
}

/// A list behind a heading, with an empty line after it; nothing for an empty list.
pub open spec fn headed(heading: Seq<char>, list: Lines) -> Lines {
    if list.len() == 0 {
        Seq::empty()
    } else {
        seq![heading] + list + seq![""@]
    }
}

/// What is told of a calibration.
pub open spec fn calibration_texts(c: ReportView) -> Lines {
    let status = seq!["History calibration: "@ + status_name(c.status)];
    let reason = match c.reason {
        Some(r) => seq!["  Reason: "@ + r],
        None => Seq::empty(),
    };
    let model = match c.model {
        Some(m) => seq![
            "  Samples: "@ + decimal(m.sample_count as nat),
            "  Median residual: "@ + fixed(m.median_residual, 3) + "s"@,
        ],
        None => Seq::empty(),
    };
    let prediction = match c.prediction {
        Some(p) => seq![
            timed_text("  Expected total: "@, p.expected_total_time),
            "  "@ + fixed(p.confidence * num(HUNDRED), 0) + "% interval: "@ + fixed(p.lower, 3)
                + "s .. "@ + fixed(p.upper, 3) + "s"@,
        ],
        None => Seq::empty(),
    };
    status + reason + model + prediction + seq![""@]
}

/// What is told of a run.
pub open spec fn run_report(i: nat, run: RunView, kinds: bool, layers: bool, width: nat) -> Lines {
    (if i > 0 {
        seq![""@]
    } else {
        Seq::empty()
    }) + run_texts(i, run) + (if kinds {
        kind_distribution(run.kind_times)
    } else {
        Seq::empty()
    }) + (if layers {
        layer_distribution(run.layer_times, width)
    } else {
        Seq::empty()
    })
}

/// What is told of the first `i` runs.
pub open spec fn run_reports(
    runs: Seq<RunView>,
    kinds: bool,
    layers: bool,
    width: nat,
    i: int,
) -> Lines
    decreases i,
{
    if i <= 0 {
        Seq::empty()
    } else {
        run_reports(runs, kinds, layers, width, i - 1) + run_report(
            (i - 1) as nat,
            runs[i - 1],
            kinds,
            layers,
            width,
        )
    }
}

/// The text of an estimate.
pub open spec fn estimate_texts(
    s: StateView,
    c: SummaryView,
    calibration: Option<ReportView>,
    kinds: bool,
    layers: bool,
    width: nat,
) -> Lines {
    let n = c.warnings.len() as int;
    let opening = seq![identity(s.metadata), ""@, "Configuration: "@ + c.fingerprint]
        + warning_texts(c.warnings, n) + seq![""@];
    let problems = headed(
        "Diagnostics:"@,
        diagnostic_texts(s.diagnostics, s.diagnostics.len() as int),
    ) + headed(
        "Omitted duration components:"@,
        omission_texts(s.duration.omitted, s.duration.omitted.len() as int),
    );
    let calibrated = match calibration {
        Some(r) => calibration_texts(r),
        None => Seq::empty(),
    };
    opening + problems + calibrated + seq!["Sequences:"@] + run_reports(
        s.runs,
        kinds,
        layers,
        width,
        s.runs.len() as int,
    )
}

fn add_lines(out: &mut Vec<String>, lines: Vec<String>)
    ensures
        texts(final(out)@) == texts(old(out)@) + texts(lines@),
{
    let ghost before = texts(out@);
    let ghost all = texts(lines@);
    let mut i: usize = 0;
    assert(before + all.take(0) == before);
    while i < lines.len()
        invariant
            i <= lines@.len(),
            all == texts(lines@),
            texts(out@) == before + all.take(i as int),
        decreases lines.len() - i,
    {
        assert(all.take(i + 1) == all.take(i as int).push(all[i as int]));
        push_line(out, lines[i].clone());
        assert(before + all.take(i + 1) == (before + all.take(i as int)).push(all[i as int]));
        i = i + 1;
    }
    assert(all.take(i as int) == all);
}

fn warning_lines(w: &Vec<String>) -> (out: Vec<String>)
    ensures
        texts(out@) == warning_texts(texts(w@), w@.len() as int),
{
    let mut out: Vec<String> = Vec::new();
    let mut i: usize = 0;
    assert(texts(out@) == Seq::<Seq<char>>::empty());
    while i < w.len()
        invariant
            i <= w@.len(),
            texts(out@) == warning_texts(texts(w@), i as int),
        decreases w.len() - i,
    {
        let mut t: String = "  Warning: ".to_owned();
        t.append(w[i].as_str());
        assert(texts(w@)[i as int] == w@[i as int]@);
        push_line(&mut out, t);
        i = i + 1;
    }
    out
}

fn diagnostic_lines(d: &Vec<PlannerDiagnostic>) -> (out: Vec<String>)
    ensures
        texts(out@) == headed(
            "Diagnostics:"@,
            diagnostic_texts(reported(d@), d@.len() as int),
        ),
{
    let mut out: Vec<String> = Vec::new();
    let mut list: Vec<String> = Vec::new();
    let mut i: usize = 0;
    assert(texts(list@) == Seq::<Seq<char>>::empty());
    assert(texts(out@) == Seq::<Seq<char>>::empty());
    while i < d.len()
        invariant
            i <= d@.len(),
            texts(list@) == diagnostic_texts(reported(d@), i as int),
            list@.len() == i,
        decreases d.len() - i,
    {
        let mut t: String = "  ".to_owned();
        t.append(d[i].command.as_str());
        t.append(": ");
        t.append(d[i].message.as_str());
        assert(reported(d@)[i as int] == d@[i as int]@);
        push_line(&mut list, t);
        assert(texts(list@).len() == list@.len());
        i = i + 1;
    }
    assert(texts(list@).len() == list@.len());
    if list.len() > 0 {
        let ghost all = texts(list@);
        push_line(&mut out, "Diagnostics:".to_owned());
        assert(texts(out@) == seq!["Diagnostics:"@]);
        add_lines(&mut out, list);
        push_line(&mut out, "".to_owned());
        assert(texts(out@) == seq!["Diagnostics:"@] + all + seq![""@]);
    }
    out
}

fn omission_lines(o: &Vec<OmittedDurationComponent>) -> (out: Vec<String>)
    ensures
        texts(out@) == headed(
            "Omitted duration components:"@,
            omission_texts(omissions(o@), o@.len() as int),
        ),
{
    let mut out: Vec<String> = Vec::new();
    let mut list: Vec<String> = Vec::new();
    let mut i: usize = 0;
    assert(texts(list@) == Seq::<Seq<char>>::empty());
    assert(texts(out@) == Seq::<Seq<char>>::empty());
    while i < o.len()
        invariant
            i <= o@.len(),
            texts(list@) == omission_texts(omissions(o@), i as int),
            list@.len() == i,
        decreases o.len() - i,
    {
        let mut t: String = "  ".to_owned();
        t.append(o[i].command.as_str());
        t.append(" (");
        t.append(category_text(o[i].category));
        t.append("): ");
        t.append(o[i].reason.as_str());
        assert(omissions(o@)[i as int] == o@[i as int]@);
        push_line(&mut list, t);
        assert(texts(list@).len() == list@.len());
        i = i + 1;
    }
    assert(texts(list@).len() == list@.len());
    if list.len() > 0 {
        let ghost all = texts(list@);
        push_line(&mut out, "Omitted duration components:".to_owned());
        assert(texts(out@) == seq!["Omitted duration components:"@]);
        add_lines(&mut out, list);
        push_line(&mut out, "".to_owned());
        assert(texts(out@) == seq!["Omitted duration components:"@] + all + seq![""@]);
    }
    out
}

/// What is told of a calibration.
fn calibration_lines(c: &CalibrationReport) -> (out: Vec<String>)
    ensures
        texts(out@) == calibration_texts(c@),
{
    let ghost v = c@;
    let mut out: Vec<String> = Vec::new();
    assert(texts(out@) == Seq::<Seq<char>>::empty());
    let mut status: String = "History calibration: ".to_owned();
    status.append(status_text(c.status));
    push_line(&mut out, status);
    let ghost a = seq!["History calibration: "@ + status_name(v.status)];
    assert(texts(out@) == a);
    let ghost b = match v.reason {
        Some(r) => seq!["  Reason: "@ + r],
        None => Seq::empty(),
    };
    if let Some(r) = &c.reason {
        let mut t: String = "  Reason: ".to_owned();
        t.append(r.as_str());
        push_line(&mut out, t);
    }
    assert(texts(out@) == a + b);
    let ghost m = match v.model {
        Some(m) => seq![
            "  Samples: "@ + decimal(m.sample_count as nat),
            "  Median residual: "@ + fixed(m.median_residual, 3) + "s"@,
        ],
        None => Seq::empty(),
    };
    if let Some(model) = &c.model {
        let mut t: String = "  Samples: ".to_owned();
        t.append(to_decimal(model.sample_count as u128).as_str());
        push_line(&mut out, t);
        let mut t: String = "  Median residual: ".to_owned();
        t.append(format_fixed(model.median_residual, 3).as_str());
        t.append("s");
        push_line(&mut out, t);
    }
    assert(texts(out@) == a + b + m);
    let ghost p = match v.prediction {
        Some(p) => seq![
            timed_text("  Expected total: "@, p.expected_total_time),
            "  "@ + fixed(p.confidence * num(HUNDRED), 0) + "% interval: "@ + fixed(p.lower, 3)
                + "s .. "@ + fixed(p.upper, 3) + "s"@,
        ],
        None => Seq::empty(),
    };
    if let Some(prediction) = &c.prediction {
        push_line(&mut out, timed("  Expected total: ", prediction.expected_total_time));
        let mut t: String = "  ".to_owned();
        t.append(format_fixed(prediction.confidence * num(HUNDRED), 0).as_str());
        t.append("% interval: ");
        t.append(format_fixed(prediction.lower, 3).as_str());
        t.append("s .. ");
        t.append(format_fixed(prediction.upper, 3).as_str());
        t.append("s");
        push_line(&mut out, t);
    }
    assert(texts(out@) == a + b + m + p);
    push_line(&mut out, "".to_owned());
    assert(texts(out@) == a + b + m + p + seq![""@]);
    out
}

fn run_section(i: usize, run: &EstimationSequence, kinds: bool, layers: bool, width: usize) -> (out:
    Vec<String>)
    ensures
        texts(out@) == run_report(i as nat, run@, kinds, layers, width as nat),
{
    let mut out: Vec<String> = Vec::new();
    assert(texts(out@) == Seq::<Seq<char>>::empty());
    if i > 0 {
        push_line(&mut out, "".to_owned());
        assert(texts(out@) == seq![""@]);
    }
    add_lines(&mut out, run_lines(i, run));
    if kinds {
        add_lines(&mut out, kind_lines(&run.kind_times));
    } else {
        assert(texts(out@) + Seq::<Seq<char>>::empty() == texts(out@));
    }
    if layers {
        add_lines(&mut out, layer_lines(&run.layer_times, width));
    } else {
        assert(texts(out@) + Seq::<Seq<char>>::empty() == texts(out@));
    }
    out
}

fn run_sections(
    runs: &Vec<EstimationSequence>,
    kinds: bool,
    layers: bool,
    width: usize,
) -> (out: Vec<String>)
    ensures
        texts(out@) == run_reports(
            runs_of(runs@),
            kinds,
            layers,
            width as nat,
            runs@.len() as int,
        ),
{
    let mut out: Vec<String> = Vec::new();
    let mut i: usize = 0;
    assert(texts(out@) == Seq::<Seq<char>>::empty());
    while i < runs.len()
        invariant
            i <= runs@.len(),
            texts(out@) == run_reports(runs_of(runs@), kinds, layers, width as nat, i as int),
        decreases runs.len() - i,
    {
        assert(runs_of(runs@)[i as int] == runs@[i as int]@);
        add_lines(&mut out, run_section(i, &runs[i], kinds, layers, width));
        i = i + 1;
    }
    out
}

/// The text of an estimate.
pub fn estimate_lines(
    state: &EstimationState,
    summary: &ConfigSnapshotSummary,
    calibration: Option<&CalibrationReport>,
    kinds: bool,
    layers: bool,
    width: usize,
) -> (out: Vec<String>)
    ensures
        texts(out@) == estimate_texts(
            state@,
            summary@,
            match calibration {
                Some(r) => Some(r@),
                None => None,
            },
            kinds,
            layers,
            width as nat,
        ),
{
    let mut out: Vec<String> = Vec::new();
    assert(texts(out@) == Seq::<Seq<char>>::empty());
    push_line(&mut out, identity_line(&state.metadata));
    push_line(&mut out, "".to_owned());
    let mut t: String = "Configuration: ".to_owned();
    t.append(summary.fingerprint.as_str());
    push_line(&mut out, t);
    let ghost head = seq![identity(state@.metadata), ""@, "Configuration: "@ + summary@.fingerprint];
    assert(texts(out@) == head);
    add_lines(&mut out, warning_lines(&summary.warnings));
    push_line(&mut out, "".to_owned());
    let ghost opening = texts(out@);
    assert(opening == head + warning_texts(summary@.warnings, summary@.warnings.len() as int) + seq![
        ""@,
    ]);
    add_lines(&mut out, diagnostic_lines(&state.diagnostics));
    add_lines(&mut out, omission_lines(&state.duration.omitted_duration_components));
    let ghost problems = headed(
        "Diagnostics:"@,
        diagnostic_texts(state@.diagnostics, state@.diagnostics.len() as int),
    ) + headed(
        "Omitted duration components:"@,
        omission_texts(state@.duration.omitted, state@.duration.omitted.len() as int),
    );
    assert(texts(out@) == opening + problems);
    match calibration {
        Some(report) => {
            add_lines(&mut out, calibration_lines(report));
        },
        None => {
            assert(texts(out@) + Seq::<Seq<char>>::empty() == texts(out@));
        },
    }
    let ghost before = texts(out@);
    push_line(&mut out, "Sequences:".to_owned());
    assert(texts(out@) == before + seq!["Sequences:"@]);
    add_lines(&mut out, run_sections(&state.sequences, kinds, layers, width));
    out
}

} // verus!
