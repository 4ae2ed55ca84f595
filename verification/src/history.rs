//! Which files of the prints in a history are needed, and the report on the prints from them.

use vstd::prelude::*;

use crate::calibration::fit_model;
use crate::calibration::fitted;
use crate::calibration::job_rejection;
use crate::calibration::judge;
use crate::calibration::reject;
use crate::calibration::sorted_out;
use crate::calibration::validate_job;
use crate::calibration::CalibrationMarker;
use crate::calibration::CalibrationReport;
use crate::calibration::CalibrationSample;
use crate::calibration::HistoryJob;
use crate::table::Table;
use crate::text::same;

verus! {

/// Whether two prints are of the same file.
pub open spec fn same_file(a: HistoryJob, b: HistoryJob) -> bool {
    a.filename@ == b.filename@ && a.uuid@ == b.uuid@
}

fn is_same_file(a: &HistoryJob, b: &HistoryJob) -> (r: bool)
    ensures
        r == same_file(*a, *b),
{
    same(a.filename.as_str(), b.filename.as_str()) && same(a.uuid.as_str(), b.uuid.as_str())
}

/// Whether nothing in its own record speaks against a print.
pub open spec fn acceptable(job: HistoryJob, now: u64, max_age_seconds: u64) -> bool {
    job_rejection(job, now, max_age_seconds) is None
}

/// The position of a print's file among `files[k..]`, which name prints, or their number.
pub open spec fn file_of(jobs: Seq<HistoryJob>, files: Seq<usize>, job: HistoryJob, k: int) -> int
    decreases files.len() - k,
{
    if k >= files.len() {
        files.len() as int
    } else if same_file(jobs[files[k] as int], job) {
        k
    } else {
        file_of(jobs, files, job, k + 1)
    }
}

/// Of the first `i` prints, those whose files are needed: the first acceptable one of each file.
pub open spec fn needed_files(
    jobs: Seq<HistoryJob>,
    now: u64,
    max_age_seconds: u64,
    i: int,
) -> Seq<usize>
    decreases i,
{
    if i <= 0 {
        Seq::empty()
    } else {
        let prior = needed_files(jobs, now, max_age_seconds, i - 1);
        if acceptable(jobs[i - 1], now, max_age_seconds) && file_of(jobs, prior, jobs[i - 1], 0)
            == prior.len() {
            prior.push((i - 1) as usize)
        } else {
            prior
        }
    }
}

fn find_file(jobs: &Vec<HistoryJob>, files: &Vec<usize>, job: &HistoryJob) -> (r: usize)
    requires
        forall|k: int| 0 <= k < files@.len() ==> (#[trigger] files@[k]) < jobs@.len(),
    ensures
        r == file_of(jobs@, files@, *job, 0),
        r <= files@.len(),
{
    let mut k: usize = 0;
    while k < files.len()
        invariant
            k <= files@.len(),
            forall|k: int| 0 <= k < files@.len() ==> (#[trigger] files@[k]) < jobs@.len(),
            file_of(jobs@, files@, *job, 0) == file_of(jobs@, files@, *job, k as int),
        decreases files.len() - k,
    {
        if is_same_file(&jobs[files[k]], job) {
            return k;
        }
        k = k + 1;
    }
    k
}

/// The prints whose files are needed, by their indices: only those that can become samples, and
/// only one of each file.
pub fn files_to_fetch(jobs: &Vec<HistoryJob>, now: u64, max_age_seconds: u64) -> (r: Vec<usize>)
    ensures
        r@ == needed_files(jobs@, now, max_age_seconds, jobs@.len() as int),
        forall|k: int| 0 <= k < r@.len() ==> (#[trigger] r@[k]) < jobs@.len(),
{
    let mut files: Vec<usize> = Vec::new();
    let mut i: usize = 0;
    while i < jobs.len()
        invariant
            i <= jobs@.len(),
            files@ == needed_files(jobs@, now, max_age_seconds, i as int),
            forall|k: int| 0 <= k < files@.len() ==> (#[trigger] files@[k]) < jobs@.len(),
        decreases jobs.len() - i,
    {
        if validate_job(&jobs[i], now, max_age_seconds).is_none() && find_file(
            jobs,
            &files,
            &jobs[i],
        ) == files.len() {
            files.push(i);
        }
        i = i + 1;
    }
    files
}

/// The markers of the prints, from those of the needed files.
pub open spec fn spread(
    jobs: Seq<HistoryJob>,
    fetched: Seq<Option<CalibrationMarker>>,
    now: u64,
    max_age_seconds: u64,
) -> Seq<Option<CalibrationMarker>> {
    let files = needed_files(jobs, now, max_age_seconds, jobs.len() as int);
    Seq::new(
        jobs.len(),
        |i: int|
            if acceptable(jobs[i], now, max_age_seconds) {
                fetched[file_of(jobs, files, jobs[i], 0)]
            } else {
                None
            },
    )
}

/// The position of a file is that of the first print of it.
pub proof fn lemma_found(jobs: Seq<HistoryJob>, files: Seq<usize>, job: HistoryJob, k: int)
    requires
        0 <= k <= files.len(),
    ensures
        k <= file_of(jobs, files, job, k) <= files.len(),
        file_of(jobs, files, job, k) < files.len() ==> same_file(
            jobs[files[file_of(jobs, files, job, k)] as int],
            job,
        ),
        forall|j: int|
            k <= j < file_of(jobs, files, job, k) ==> !same_file(
                jobs[#[trigger] files[j] as int],
                job,
            ),
    decreases files.len() - k,
{
    if k < files.len() && !same_file(jobs[files[k] as int], job) {
        lemma_found(jobs, files, job, k + 1);
    }
}

/// A file is needed only of prints that nothing speaks against, and of each such print; none is
/// needed twice.
pub proof fn files_are_fetched_once(jobs: Seq<HistoryJob>, now: u64, max_age_seconds: u64, n: int)
    requires
        0 <= n <= jobs.len() <= usize::MAX,
    ensures
        ({
            let files = needed_files(jobs, now, max_age_seconds, n);
            &&& forall|k: int|
                0 <= k < files.len() ==> (#[trigger] files[k]) < n && acceptable(
                    jobs[files[k] as int],
                    now,
                    max_age_seconds,
                )
            &&& forall|j: int, k: int|
                0 <= j < k < files.len() ==> files[j] < files[k] && !same_file(
                    jobs[#[trigger] files[j] as int],
                    jobs[#[trigger] files[k] as int],
                )
            &&& forall|i: int|
                0 <= i < n && acceptable(#[trigger] jobs[i], now, max_age_seconds) ==> file_of(
                    jobs,
                    files,
                    jobs[i],
                    0,
                ) < files.len()
        }),
    decreases n,
{
    if n > 0 {
        files_are_fetched_once(jobs, now, max_age_seconds, n - 1);
        let prior = needed_files(jobs, now, max_age_seconds, n - 1);
        let files = needed_files(jobs, now, max_age_seconds, n);
        let last = jobs[n - 1];
        lemma_found(jobs, prior, last, 0);
        assert forall|j: int, k: int| 0 <= j < k < files.len() implies files[j] < files[k]
            && !same_file(jobs[#[trigger] files[j] as int], jobs[#[trigger] files[k] as int]) by {
            if k < prior.len() {
                assert(files[j] == prior[j] && files[k] == prior[k]);
            } else {
                assert(files[j] == prior[j]);
            }
        }
        assert forall|i: int|
            0 <= i < n && acceptable(#[trigger] jobs[i], now, max_age_seconds) implies file_of(
            jobs,
            files,
            jobs[i],
            0,
        ) < files.len() by {
            lemma_found(jobs, files, jobs[i], 0);
            let p = file_of(jobs, prior, jobs[i], 0);
            lemma_found(jobs, prior, jobs[i], 0);
            if p < prior.len() {
                assert(files[p] == prior[p]);
            } else {
                assert(i == n - 1);
                assert(files[prior.len() as int] == n - 1);
            }
        }
    }
}

/// The report on the prints in a history, from the markers of the needed files, each if it could
/// be verified.
pub fn calibrate_history(
    jobs: &Vec<HistoryJob>,
    fetched: &Vec<Option<CalibrationMarker>>,
    configuration_fingerprint: &str,
    max_age_seconds: u64,
    min_samples: usize,
    now: u64,
) -> (r: CalibrationReport)
    requires
        fetched@.len() == needed_files(jobs@, now, max_age_seconds, jobs@.len() as int).len(),
    ensures
        ({
            let markers = spread(jobs@, fetched@, now, max_age_seconds);
            let (samples, rejected) = sorted_out(
                jobs@,
                markers,
                configuration_fingerprint@,
                now,
                max_age_seconds,
                jobs@.len() as int,
            );
            r@ == fitted(samples, rejected, configuration_fingerprint@, min_samples, now)
        }),
{
    let files: Vec<usize> = files_to_fetch(jobs, now, max_age_seconds);
    let ghost markers = spread(jobs@, fetched@, now, max_age_seconds);
    let mut samples: Vec<CalibrationSample> = Vec::new();
    let mut rejected: Table<u64> = Table::new();
    let mut i: usize = 0;
    proof {
        assert(jobs.len() == jobs@.len());
        files_are_fetched_once(jobs@, now, max_age_seconds, jobs@.len() as int);
    }
    while i < jobs.len()
        invariant
            i <= jobs@.len(),
            files@ == needed_files(jobs@, now, max_age_seconds, jobs@.len() as int),
            fetched@.len() == files@.len(),
            forall|k: int| 0 <= k < files@.len() ==> (#[trigger] files@[k]) < jobs@.len(),
            forall|i: int|
                0 <= i < jobs@.len() && acceptable(#[trigger] jobs@[i], now, max_age_seconds)
                    ==> file_of(jobs@, files@, jobs@[i], 0) < files@.len(),
            markers == spread(jobs@, fetched@, now, max_age_seconds),
            (samples@, rejected@) == sorted_out(
                jobs@,
                markers,
                configuration_fingerprint@,
                now,
                max_age_seconds,
                i as int,
            ),
        decreases jobs.len() - i,
    {
        let verdict = if validate_job(&jobs[i], now, max_age_seconds).is_none() {
            let k: usize = find_file(jobs, &files, &jobs[i]);
            judge(&jobs[i], &fetched[k], configuration_fingerprint, now, max_age_seconds)
        } else {
            judge(&jobs[i], &None, configuration_fingerprint, now, max_age_seconds)
        };
        match verdict {
            Ok(sample) => samples.push(sample),
            Err(rejection) => reject(&mut rejected, rejection.text()),
        }
        i = i + 1;
    }
    fit_model(samples, rejected, configuration_fingerprint, min_samples, now)
}

} // verus!
