//! What samples of past prints are, and what is made of them.

use vstd::arithmetic::div_mod::lemma_div_multiples_vanish;
use vstd::arithmetic::div_mod::lemma_fundamental_div_mod_converse;
use vstd::arithmetic::div_mod::lemma_mod_multiples_basic;
use vstd::arithmetic::power2::lemma_pow2_adds;
use vstd::arithmetic::power2::lemma_pow2_pos;
use vstd::arithmetic::power2::pow2;
use vstd::prelude::*;

use crate::calibration::calibrated;
use crate::calibration::capped;
use crate::calibration::distances;
use crate::calibration::extreme_end;
use crate::calibration::fitted;
use crate::calibration::in_increasing_order;
use crate::calibration::judged;
use crate::calibration::model_of;
use crate::calibration::prediction_of;
use crate::calibration::quantile_of;
use crate::calibration::residuals_of;
use crate::calibration::squares;
use crate::calibration::CalibrationMarker;
use crate::calibration::CalibrationSample;
use crate::calibration::Counts;
use crate::calibration::HistoryCalibrationModel;
use crate::calibration::HistoryJob;
use crate::calibration_laws::lemma_ranked;
use crate::calibration_laws::ranked;
use crate::constants::EIGHT_TENTHS;
use crate::constants::HALF;
use crate::constants::NINE_TENTHS;
use crate::constants::SIX_HUNDRED;
use crate::constants::TENTH;
use crate::double::nearest_integer;
use crate::double::num;
use crate::double::one_units;
use crate::double::signed;
use crate::double::significand;
use crate::double::units;
use crate::double::whole_part;
use crate::double::Double;
use crate::double::ONE;
use crate::double::ZERO;
use crate::duration::EstimateView;
use crate::kinds::texts;
use crate::motion_laws::adding_zero_changes_nothing;
use crate::motion_laws::multiples_of_zero_are_zero;
use crate::motion_laws::numbers_are_nearest_to_themselves;
use crate::motion_laws::sums_commute;
use crate::order_laws::rounding_depends_on_the_ratio;
use crate::order_laws::sums_are_monotone;
use crate::rounding::lemma_two52;
use crate::rounding::nearest;
use crate::rounding::HIDDEN_BIT;
use crate::whole_laws::lemma_exact;
use crate::whole_laws::small_whole_numbers_are_exact;

verus! {

/// Whether a print ran to its end without a pause, of a file that is still there and that was
/// estimated, and not too long ago.
pub open spec fn ran_through(job: HistoryJob, now: u64, max_age_seconds: u64) -> bool {
    &&& job.status@ == "completed"@
    &&& job.exists
    &&& job.uuid@.len() > 0
    &&& texts(job.file_processors@).contains("klipper_estimator"@)
    &&& job.end_time is Some
    &&& (job.end_time->0).finite()
    &&& num(ZERO) <= job.end_time->0
    &&& job.end_time->0 <= Double::from_u64(now)
    &&& now - (job.end_time->0).to_u64() <= max_age_seconds
    &&& job.total_duration.finite()
    &&& job.print_duration.finite()
    &&& job.total_duration > num(ZERO)
    &&& job.print_duration > num(ZERO)
    &&& (job.total_duration - job.print_duration).abs() <= num(ONE)
}

/// Whether a print took a time that its estimate can be held against: at most twice as long, or
/// at most ten minutes more or less.
pub open spec fn comparable(total: Double, baseline: Double) -> bool {
    &&& baseline.finite()
    &&& baseline > num(ZERO)
    &&& !((total - baseline).abs() > baseline && (total - baseline).abs() > num(SIX_HUNDRED))
}

/// A print is a sample if and only if it ran through, its file was estimated for the same
/// configuration, and it took a time that can be held against the estimate. Its residual is how
/// much longer it took than was estimated, and its time is that of its end.
pub proof fn samples_are_times_beyond_the_estimate(
    job: HistoryJob,
    m: CalibrationMarker<Seq<char>>,
    configuration: Seq<char>,
    now: u64,
    max_age_seconds: u64,
)
    ensures
        ({
            let total = job.total_duration;
            let baseline = m.baseline_expected_time;
            let good = ran_through(job, now, max_age_seconds) && m.configuration_fingerprint
                == configuration && comparable(total, baseline);
            match judged(job, Some(m), configuration, now, max_age_seconds) {
                Ok(s) => good && s.residual == total - baseline && job.end_time is Some
                    && s.end_time == (job.end_time->0).to_u64(),
                Err(_) => !good,
            }
        }),
        judged(job, None, configuration, now, max_age_seconds) is Err,
{
    lemma_two52();
    assert(!Double::from_u64(now).nan()) by {
        reveal(Double::of_integer);
        crate::speed_laws::rounding_is_monotone(now as nat * one_units(), now as nat * one_units(), 1);
    }
    if job.total_duration.finite() && job.print_duration.finite() {
        lemma_difference(job.total_duration, job.print_duration);
    }
    if job.total_duration.finite() && m.baseline_expected_time.finite() {
        lemma_difference(job.total_duration, m.baseline_expected_time);
    }
}

proof fn lemma_difference(a: Double, b: Double)
    requires
        a.finite(),
        b.finite(),
    ensures
        !(a - b).abs().nan(),
{
    reveal(Double::spec_add);
    lemma_two52();
    let v = a.value() + b.negated().value();
    crate::speed_laws::rounding_is_monotone(
        crate::double::magnitude_of(v),
        crate::double::magnitude_of(v),
        1,
    );
}

/// A model is made of enough samples only, of all of them, and of none where there is none.
pub proof fn models_take_enough_samples(
    samples: Seq<CalibrationSample>,
    rejected: Counts,
    configuration: Seq<char>,
    min_samples: usize,
    now: u64,
)
    requires
        samples.len() <= u64::MAX,
    ensures
        ({
            let r = fitted(samples, rejected, configuration, min_samples, now);
            &&& r.model is Some <==> samples.len() > 0 && samples.len() >= min_samples
            &&& r.model is Some <==> r.reason is None
            &&& r.model matches Some(m) ==> m.sample_count == samples.len()
                && m.applicability.configuration_fingerprint == configuration
                && m.generated_at_unix_seconds == now
            &&& r.rejected == rejected
        }),
{
}

/// A corrected estimate is the estimate and the median together, but never below what is certain.
pub proof fn corrections_keep_what_is_certain(
    model: HistoryCalibrationModel<Seq<char>>,
    v: EstimateView,
)
    requires
        !(v.expected + model.median_residual).nan(),
        !v.deterministic.nan(),
    ensures
        calibrated(model, v) >= v.deterministic,
        calibrated(model, v) >= v.expected + model.median_residual,
        v.expected + model.median_residual >= v.deterministic ==> calibrated(model, v)
            == v.expected + model.median_residual,
        v.expected + model.median_residual < v.deterministic ==> calibrated(model, v)
            == v.deterministic,
{
}

proof fn lemma_half()
    ensures
        2 * units(HALF as nat) == one_units(),
        num(HALF).finite(),
        !num(HALF).negative(),
        num(HALF).magnitude() == HALF,
{
    lemma_two52();
    let mag = HALF as nat;
    assert(mag / (HIDDEN_BIT as nat) == 1022);
    assert(significand(mag) == 0x10_0000_0000_0000);
    lemma_pow2_adds(52, 1021);
    lemma_pow2_adds(1, 1073);
    vstd::arithmetic::power2::lemma2_to64();
}

/// Half of an even number is exact.
proof fn lemma_halved(m: nat)
    requires
        2 * m < 0x20_0000_0000_0000,
    ensures
        num(HALF) * Double::from_u64((2 * m) as u64) == Double::from_u64(m as u64),
{
    reveal(Double::spec_mul);
    reveal(Double::of_integer);
    lemma_two52();
    lemma_half();
    lemma_pow2_pos(1074);
    let o = one_units();
    let h = units(HALF as nat);
    small_whole_numbers_are_exact(2 * m);
    small_whole_numbers_are_exact(m);
    let x = Double::from_u64((2 * m) as u64);
    assert(x.magnitude() == nearest_integer(2 * m));
    assert(h * ((2 * m) * o) == (m * o) * o) by (nonlinear_arith)
        requires
            2 * h == o,
    ;
    rounding_depends_on_the_ratio(m * o, 1, o);
    assert(1 * o == o);
}

proof fn lemma_whole(m: nat)
    requires
        m < 0x20_0000_0000_0000,
    ensures
        Double::from_u64(m as u64).floor() == Double::from_u64(m as u64),
        Double::from_u64(m as u64).ceil() == Double::from_u64(m as u64),
        Double::from_u64(m as u64).to_u64() == m,
        Double::from_u64(m as u64).finite(),
{
    reveal(Double::of_integer);
    reveal(Double::as_integer);
    reveal(Double::rounded_down);
    reveal(Double::rounded_up);
    lemma_two52();
    lemma_pow2_pos(1074);
    small_whole_numbers_are_exact(m);
    let o = one_units();
    let x = Double::from_u64(m as u64);
    lemma_mod_multiples_basic(m as int, o as int);
    lemma_div_multiples_vanish(m as int, o as int);
    assert(o * m == m * o) by (nonlinear_arith);
    assert(whole_part(x.magnitude()) == m);
}

/// Of an odd number of numbers in increasing order, the middle one is the median.
pub proof fn medians_are_in_the_middle(s: Seq<Double>, m: nat)
    requires
        s.len() == 2 * m + 1,
        2 * m < 0x20_0000_0000_0000,
        s[m as int].finite(),
    ensures
        quantile_of(s, HALF).equals(s[m as int]),
{
    lemma_two52();
    lemma_halved(m);
    lemma_whole(m);
    let x = s[m as int];
    let position = num(HALF) * Double::from_u64((s.len() - 1) as u64);
    assert(position == Double::from_u64(m as u64));
    assert(capped(m as u64, s.len()) == m);
    let w = Double::from_u64(m as u64);
    assert((x - x).magnitude() == 0 && (w - w).magnitude() == 0) by {
        reveal(Double::spec_add);
    }
    multiples_of_zero_are_zero(w - w, x - x);
    adding_zero_changes_nothing(x, (x - x) * (w - w));
}

proof fn lemma_between(m: nat)
    requires
        0 < m,
        2 * m < 0x20_0000_0000_0000,
    ensures
        ({
            let position = num(HALF) * Double::from_u64((2 * m - 1) as u64);
            &&& position.floor() == Double::from_u64((m - 1) as u64)
            &&& position.ceil() == Double::from_u64(m as u64)
            &&& position - Double::from_u64((m - 1) as u64) == num(HALF)
        }),
{
    let o = one_units();
    let h = units(HALF as nat);
    let w = (2 * m - 1) as nat;
    let v = (m - 1) as nat;
    lemma_two52();
    lemma_half();
    lemma_pow2_pos(1074);
    lemma_pow2_pos(1073);
    lemma_pow2_adds(1, 1073);
    vstd::arithmetic::power2::lemma2_to64();
    small_whole_numbers_are_exact(w);
    small_whole_numbers_are_exact(m);
    small_whole_numbers_are_exact(v);
    lemma_exact(w, 1073);
    assert(h == pow2(1073));
    let position = num(HALF) * Double::from_u64(w as u64);
    assert(h * (w * o) == (w * h) * o) by (nonlinear_arith);
    rounding_depends_on_the_ratio(w * h, 1, o);
    assert(1 * o == o);
    assert(position == signed(false, nearest(w * h, 1))) by {
        reveal(Double::spec_mul);
        reveal(Double::of_integer);
    }
    let u = units(position.magnitude());
    assert(u == w * h);
    assert(u == v * o + h && u == o * v + h) by (nonlinear_arith)
        requires
            u == w * h,
            w == 2 * v + 1,
            o == 2 * h,
    ;
    lemma_fundamental_div_mod_converse(u as int, o as int, v as int, h as int);
    reveal(Double::rounded_down);
    reveal(Double::rounded_up);
    reveal(Double::of_integer);
    assert(position - Double::from_u64(v as u64) == num(HALF)) by {
        reveal(Double::spec_add);
        numbers_are_nearest_to_themselves(HALF as nat);
    }
}

/// Of an even number of numbers in increasing order, the median lies half-way between the two in
/// the middle.
pub proof fn medians_are_between_the_middle_two(s: Seq<Double>, m: nat)
    requires
        s.len() == 2 * m,
        0 < m,
        2 * m < 0x20_0000_0000_0000,
    ensures
        quantile_of(s, HALF) == s[m - 1] + (s[m as int] - s[m - 1]) * num(HALF),
{
    lemma_between(m);
    lemma_whole((m - 1) as nat);
    lemma_whole(m);
    assert(capped((m - 1) as u64, s.len()) == m - 1);
    assert(capped(m as u64, s.len()) == m);
}

/// A model holds the median of the residuals in increasing order, the median of how far they lie
/// from it, and the range from a tenth to nine tenths of them.
pub proof fn models_hold_medians(
    samples: Seq<CalibrationSample>,
    configuration: Seq<char>,
    now: u64,
    m: nat,
)
    requires
        samples.len() == 2 * m + 1,
        2 * m < 0x20_0000_0000_0000,
        forall|i: int| 0 <= i < samples.len() ==> (#[trigger] samples[i]).residual.finite(),
    ensures
        ({
            let model = model_of(samples, configuration, now);
            let sorted = in_increasing_order(residuals_of(samples), samples.len() as int);
            let errors = Seq::new(
                samples.len(),
                |i: int| (sorted[i] - model.median_residual).abs(),
            );
            &&& ranked(sorted)
            &&& model.median_residual.equals(sorted[m as int])
            &&& model.error_metrics.median_absolute_error == quantile_of(
                in_increasing_order(errors, samples.len() as int),
                HALF,
            )
            &&& model.residual_interval.lower == quantile_of(sorted, TENTH)
            &&& model.residual_interval.upper == quantile_of(sorted, NINE_TENTHS)
            &&& model.residual_interval.confidence == num(EIGHT_TENTHS)
        }),
{
    let n = samples.len() as int;
    let r = residuals_of(samples);
    assert forall|i: int| 0 <= i < r.len() implies (#[trigger] r[i]).finite() by {
        assert(samples[i].residual.finite());
    }
    lemma_ranked(r, n);
    let sorted = in_increasing_order(r, n);
    medians_are_in_the_middle(sorted, m);
    let model = model_of(samples, configuration, now);
    let errors = Seq::new(samples.len(), |i: int| (sorted[i] - model.median_residual).abs());
    assert(distances(sorted, model.median_residual) == errors);
}

/// Whether a time is the end of a sample, and no sample ends later, or earlier.
pub open spec fn is_extreme(samples: Seq<CalibrationSample>, latest: bool, n: int, end: u64) -> bool {
    &&& exists|i: int| 0 <= i < n && (#[trigger] samples[i]).end_time == end
    &&& forall|i: int|
        0 <= i < n ==> if latest {
            (#[trigger] samples[i]).end_time <= end
        } else {
            samples[i].end_time >= end
        }
}

proof fn lemma_extreme(samples: Seq<CalibrationSample>, latest: bool, n: int)
    requires
        0 < n <= samples.len(),
    ensures
        is_extreme(samples, latest, n, extreme_end(samples, latest, n)),
    decreases n,
{
    let end = extreme_end(samples, latest, n);
    assert(samples[n - 1].end_time == samples[n - 1].end_time);
    if n > 1 {
        lemma_extreme(samples, latest, n - 1);
        let before = extreme_end(samples, latest, n - 1);
        if end == before {
            let i = choose|i: int|
                0 <= i < n - 1 && (#[trigger] samples[i]).end_time == before;
            assert(samples[i].end_time == end);
        }
    }
}

/// A model tells how long ago the last and the first of its samples ended.
pub proof fn models_tell_the_age_of_their_samples(
    samples: Seq<CalibrationSample>,
    configuration: Seq<char>,
    now: u64,
)
    requires
        samples.len() > 0,
        forall|i: int| 0 <= i < samples.len() ==> (#[trigger] samples[i]).end_time <= now,
    ensures
        ({
            let m = model_of(samples, configuration, now);
            let n = samples.len() as int;
            &&& is_extreme(samples, true, n, (now - m.newest_sample_age_seconds) as u64)
            &&& is_extreme(samples, false, n, (now - m.oldest_sample_age_seconds) as u64)
            &&& m.newest_sample_age_seconds <= m.oldest_sample_age_seconds <= now
        }),
{
    let n = samples.len() as int;
    lemma_extreme(samples, true, n);
    lemma_extreme(samples, false, n);
    let last = extreme_end(samples, true, n);
    let first = extreme_end(samples, false, n);
    assert(samples[0].end_time <= last);
    assert(samples[0].end_time >= first);
}

/// The sum of the squares of the first `n` differences to a number.
pub open spec fn sum_of_squares(s: Seq<Double>, x: Double, n: int) -> Double
    decreases n,
{
    if n <= 0 {
        num(ZERO)
    } else {
        sum_of_squares(s, x, n - 1) + (s[n - 1] - x) * (s[n - 1] - x)
    }
}

proof fn lemma_squares(s: Seq<Double>, x: Double, n: int)
    ensures
        squares(s, x, n) == sum_of_squares(s, x, n),
    decreases n,
{
    if n > 0 {
        lemma_squares(s, x, n - 1);
    }
}

/// The error of a model is the root of the mean of the squares of how far residuals lie from
/// their median.
pub proof fn errors_are_roots_of_mean_squares(
    samples: Seq<CalibrationSample>,
    configuration: Seq<char>,
    now: u64,
)
    ensures
        ({
            let model = model_of(samples, configuration, now);
            let n = samples.len() as int;
            let sorted = in_increasing_order(residuals_of(samples), n);
            model.error_metrics.root_mean_squared_error == (sum_of_squares(
                sorted,
                model.median_residual,
                n,
            ) / Double::from_u64(n as u64)).sqrt()
        }),
{
    let model = model_of(samples, configuration, now);
    let n = samples.len() as int;
    lemma_squares(in_increasing_order(residuals_of(samples), n), model.median_residual, n);
}

/// The estimate with what is usual for such prints, or what is certain if that is more.
pub open spec fn shifted(v: EstimateView, residual: Double) -> Double {
    if v.expected + residual < v.deterministic {
        v.deterministic
    } else {
        v.expected + residual
    }
}

/// A prediction shifts the estimate by the median of the residuals and by the ends of their
/// range, but never below what is certain. It lies within its range where the median does.
pub proof fn predictions_shift_the_estimate(
    model: HistoryCalibrationModel<Seq<char>>,
    v: EstimateView,
)
    requires
        !v.deterministic.nan(),
        !(v.expected + model.median_residual).nan(),
        !(v.expected + model.residual_interval.lower).nan(),
        !(v.expected + model.residual_interval.upper).nan(),
    ensures
        ({
            let p = prediction_of(model, v);
            let range = model.residual_interval;
            &&& p.expected_total_time == shifted(v, model.median_residual)
            &&& p.lower == shifted(v, range.lower)
            &&& p.upper == shifted(v, range.upper)
            &&& p.confidence == range.confidence
            &&& range.lower <= model.median_residual ==> p.lower <= p.expected_total_time
            &&& model.median_residual <= range.upper ==> p.expected_total_time <= p.upper
        }),
{
    let range = model.residual_interval;
    let x = v.expected;
    sums_commute(x, model.median_residual);
    sums_commute(x, range.lower);
    sums_commute(x, range.upper);
    if range.lower <= model.median_residual {
        sums_are_monotone(range.lower, model.median_residual, x);
    }
    if model.median_residual <= range.upper {
        sums_are_monotone(model.median_residual, range.upper, x);
    }
}

} // verus!
