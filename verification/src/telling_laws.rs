//! What an estimate tells.

use vstd::prelude::*;

use crate::calibration::ReportView;
use crate::constants::HUNDRED;
use crate::decimal::fixed;
use crate::diagnostics::PlannerDiagnostic;
use crate::double::num;
use crate::duration::OmittedDurationComponent;
use crate::estimate::StateView;
use crate::kinds::lemma_text_index;
use crate::kinds::KindView;
use crate::presentation::calibration_texts;
use crate::presentation::category_name;
use crate::presentation::diagnostic_texts;
use crate::presentation::estimate_texts;
use crate::presentation::omission_texts;
use crate::presentation::run_reports;
use crate::presentation::warning_texts;
use crate::presentation::Lines;
use crate::snapshot::SummaryView;
use crate::text::decimal;
use crate::text::trim;

verus! {

proof fn lemma_either(a: Lines, b: Lines, x: Seq<char>)
    ensures
        a.contains(x) || b.contains(x) ==> (a + b).contains(x),
{
    if a.contains(x) {
        let i = a.index_of(x);
        assert((a + b)[i] == x);
    } else if b.contains(x) {
        let i = b.index_of(x);
        assert((a + b)[a.len() + i] == x);
    }
}

proof fn lemma_warned(w: Seq<Seq<char>>, n: int, i: int)
    requires
        0 <= i < n <= w.len(),
    ensures
        warning_texts(w, n).contains("  Warning: "@ + w[i]),
    decreases n,
{
    let before = warning_texts(w, n - 1);
    let line = "  Warning: "@ + w[n - 1];
    lemma_either(before, seq![line], "  Warning: "@ + w[i]);
    assert(before.push(line) == before + seq![line]);
    if i < n - 1 {
        lemma_warned(w, n - 1, i);
    } else {
        assert(seq![line][0] == line);
    }
}

proof fn lemma_diagnosed(d: Seq<PlannerDiagnostic<Seq<char>>>, n: int, i: int)
    requires
        0 <= i < n <= d.len(),
    ensures
        diagnostic_texts(d, n).contains("  "@ + d[i].command + ": "@ + d[i].message),
    decreases n,
{
    let before = diagnostic_texts(d, n - 1);
    let line = "  "@ + d[n - 1].command + ": "@ + d[n - 1].message;
    lemma_either(before, seq![line], "  "@ + d[i].command + ": "@ + d[i].message);
    assert(before.push(line) == before + seq![line]);
    if i < n - 1 {
        lemma_diagnosed(d, n - 1, i);
    } else {
        assert(seq![line][0] == line);
    }
}

/// What is told of a duration that was left out.
pub open spec fn omission_told(o: OmittedDurationComponent<Seq<char>>) -> Seq<char> {
    "  "@ + o.command + " ("@ + category_name(o.category) + "): "@ + o.reason
}

proof fn lemma_omitted(o: Seq<OmittedDurationComponent<Seq<char>>>, n: int, i: int)
    requires
        0 <= i < n <= o.len(),
    ensures
        omission_texts(o, n).contains(omission_told(o[i])),
    decreases n,
{
    let before = omission_texts(o, n - 1);
    let line = omission_told(o[n - 1]);
    lemma_either(before, seq![line], omission_told(o[i]));
    assert(before.push(line) == before + seq![line]);
    if i < n - 1 {
        lemma_omitted(o, n - 1, i);
    } else {
        assert(seq![line][0] == line);
    }
}

proof fn lemma_told(
    s: StateView,
    c: SummaryView,
    calibration: Option<ReportView>,
    kinds: bool,
    layers: bool,
    width: nat,
    x: Seq<char>,
)
    ensures
        ({
            let lines = estimate_texts(s, c, calibration, kinds, layers, width);
            &&& warning_texts(c.warnings, c.warnings.len() as int).contains(x) ==> lines.contains(x)
            &&& diagnostic_texts(s.diagnostics, s.diagnostics.len() as int).contains(x)
                ==> lines.contains(x)
            &&& omission_texts(s.duration.omitted, s.duration.omitted.len() as int).contains(x)
                ==> lines.contains(x)
            &&& calibration matches Some(r) ==> (calibration_texts(r).contains(x)
                ==> lines.contains(x))
            &&& run_reports(s.runs, kinds, layers, width, s.runs.len() as int).contains(x)
                ==> lines.contains(x)
        }),
{
    let warnings = warning_texts(c.warnings, c.warnings.len() as int);
    let head = seq![
        crate::presentation::identity(s.metadata),
        ""@,
        "Configuration: "@ + c.fingerprint,
    ];
    let opening = head + warnings + seq![""@];
    let d = diagnostic_texts(s.diagnostics, s.diagnostics.len() as int);
    let o = omission_texts(s.duration.omitted, s.duration.omitted.len() as int);
    let dh = crate::presentation::headed("Diagnostics:"@, d);
    let oh = crate::presentation::headed("Omitted duration components:"@, o);
    let calibrated: Lines = match calibration {
        Some(r) => calibration_texts(r),
        None => Seq::empty(),
    };
    let runs = run_reports(s.runs, kinds, layers, width, s.runs.len() as int);
    lemma_either(head, warnings, x);
    lemma_either(head + warnings, seq![""@], x);
    lemma_either(seq!["Diagnostics:"@], d, x);
    lemma_either(seq!["Diagnostics:"@] + d, seq![""@], x);
    lemma_either(seq!["Omitted duration components:"@], o, x);
    lemma_either(seq!["Omitted duration components:"@] + o, seq![""@], x);
    lemma_either(dh, oh, x);
    lemma_either(opening, dh + oh, x);
    lemma_either(opening + (dh + oh), calibrated, x);
    lemma_either(opening + (dh + oh) + calibrated, seq!["Sequences:"@], x);
    lemma_either(opening + (dh + oh) + calibrated + seq!["Sequences:"@], runs, x);
}

/// Every warning, every diagnostic and every duration that was left out is told.
pub proof fn everything_noted_is_told(
    s: StateView,
    c: SummaryView,
    calibration: Option<ReportView>,
    kinds: bool,
    layers: bool,
    width: nat,
    i: int,
)
    ensures
        ({
            let lines = estimate_texts(s, c, calibration, kinds, layers, width);
            &&& 0 <= i < c.warnings.len() ==> lines.contains("  Warning: "@ + c.warnings[i])
            &&& 0 <= i < s.diagnostics.len() ==> lines.contains(
                "  "@ + s.diagnostics[i].command + ": "@ + s.diagnostics[i].message,
            )
            &&& 0 <= i < s.duration.omitted.len() ==> lines.contains(
                omission_told(s.duration.omitted[i]),
            )
        }),
{
    if 0 <= i < c.warnings.len() {
        lemma_warned(c.warnings, c.warnings.len() as int, i);
        lemma_told(s, c, calibration, kinds, layers, width, "  Warning: "@ + c.warnings[i]);
    }
    if 0 <= i < s.diagnostics.len() {
        let d = s.diagnostics[i];
        lemma_diagnosed(s.diagnostics, s.diagnostics.len() as int, i);
        let x = "  "@ + d.command + ": "@ + d.message;
        lemma_told(s, c, calibration, kinds, layers, width, x);
    }
    if 0 <= i < s.duration.omitted.len() {
        let o = s.duration.omitted[i];
        lemma_omitted(s.duration.omitted, s.duration.omitted.len() as int, i);
        lemma_told(s, c, calibration, kinds, layers, width, omission_told(o));
    }
}

/// The size and the median of a model are told, and what it predicts.
pub proof fn calibrations_are_told(
    s: StateView,
    c: SummaryView,
    r: ReportView,
    kinds: bool,
    layers: bool,
    width: nat,
)
    ensures
        ({
            let lines = estimate_texts(s, c, Some(r), kinds, layers, width);
            &&& r.reason matches Some(reason) ==> lines.contains("  Reason: "@ + reason)
            &&& r.model matches Some(m) ==> lines.contains(
                "  Samples: "@ + decimal(m.sample_count as nat),
            ) && lines.contains("  Median residual: "@ + fixed(m.median_residual, 3) + "s"@)
            &&& r.prediction matches Some(p) ==> lines.contains(
                "  "@ + fixed(p.confidence * num(HUNDRED), 0) + "% interval: "@ + fixed(p.lower, 3)
                    + "s .. "@ + fixed(p.upper, 3) + "s"@,
            )
        }),
{
    let status: Lines = seq![
        "History calibration: "@ + crate::presentation::status_name(r.status),
    ];
    let reason: Lines = match r.reason {
        Some(t) => seq!["  Reason: "@ + t],
        None => Seq::empty(),
    };
    let model: Lines = match r.model {
        Some(m) => seq![
            "  Samples: "@ + decimal(m.sample_count as nat),
            "  Median residual: "@ + fixed(m.median_residual, 3) + "s"@,
        ],
        None => Seq::empty(),
    };
    let prediction: Lines = match r.prediction {
        Some(p) => seq![
            crate::report::timed_text("  Expected total: "@, p.expected_total_time),
            "  "@ + fixed(p.confidence * num(HUNDRED), 0) + "% interval: "@ + fixed(p.lower, 3)
                + "s .. "@ + fixed(p.upper, 3) + "s"@,
        ],
        None => Seq::empty(),
    };
    let all = status + reason + model + prediction + seq![""@];
    assert(calibration_texts(r) == all);
    let a = status.len() as int;
    let b = a + reason.len() as int;
    let n = b + model.len() as int;
    if r.reason is Some {
        assert(all[a] == reason[0]);
        lemma_told(s, c, Some(r), kinds, layers, width, reason[0]);
    }
    if r.model is Some {
        assert(all[b] == model[0] && all[b + 1] == model[1]);
        lemma_told(s, c, Some(r), kinds, layers, width, model[0]);
        lemma_told(s, c, Some(r), kinds, layers, width, model[1]);
    }
    if r.prediction is Some {
        assert(all[n + 1] == prediction[1]);
        lemma_told(s, c, Some(r), kinds, layers, width, prediction[1]);
    }
}

/// The comment of a move names its kind, without the white space around it. A move without one is
/// of the kind that was named last for all moves.
pub proof fn comments_name_the_kind_of_their_move(k: KindView, comment: Seq<char>)
    requires
        k.names.len() < usize::MAX,
    ensures
        trim(comment).len() > 0 ==> k.after_comment(Some(comment)).name_of(
            k.comment_kind(Some(comment)),
        ) == Some(trim(comment)),
        trim(comment).len() == 0 ==> k.comment_kind(Some(comment)) == k.current
            && k.after_comment(Some(comment)) == k,
        k.comment_kind(None) == k.current,
        k.after_comment(None) == k,
{
    lemma_text_index(k.names, trim(comment));
}

} // verus!
