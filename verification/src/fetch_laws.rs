//! Which files are fetched, and from where.

use vstd::prelude::*;

use crate::calibration::CalibrationMarker;
use crate::calibration::HistoryJob;
use crate::history::acceptable;
use crate::history::file_of;
use crate::history::files_are_fetched_once;
use crate::history::lemma_found;
use crate::history::needed_files;
use crate::history::same_file;
use crate::history::spread;
use crate::moonraker::file_segments;
use crate::moonraker::route_text;

verus! {

/// The marker of a fetched file goes to every acceptable print of that file, and to no other.
pub proof fn markers_go_to_the_prints_of_their_file(
    jobs: Seq<HistoryJob>,
    fetched: Seq<Option<CalibrationMarker>>,
    now: u64,
    max_age_seconds: u64,
    i: int,
)
    requires
        jobs.len() <= usize::MAX,
        0 <= i < jobs.len(),
    ensures
        ({
            let files = needed_files(jobs, now, max_age_seconds, jobs.len() as int);
            let markers = spread(jobs, fetched, now, max_age_seconds);
            &&& markers.len() == jobs.len()
            &&& !acceptable(jobs[i], now, max_age_seconds) ==> markers[i] is None
            &&& acceptable(jobs[i], now, max_age_seconds) ==> exists|k: int|
                0 <= k < files.len() && same_file(jobs[#[trigger] files[k] as int], jobs[i])
                    && markers[i] == fetched[k]
        }),
{
    let files = needed_files(jobs, now, max_age_seconds, jobs.len() as int);
    files_are_fetched_once(jobs, now, max_age_seconds, jobs.len() as int);
    if acceptable(jobs[i], now, max_age_seconds) {
        let k = file_of(jobs, files, jobs[i], 0);
        lemma_found(jobs, files, jobs[i], 0);
        assert(same_file(jobs[files[k] as int], jobs[i]));
    }
}

/// The route of a file ends in the parts of its name, in their order.
pub proof fn routes_keep_the_parts_of_names(pieces: Seq<Seq<char>>, n: int)
    requires
        0 <= n <= pieces.len(),
        forall|i: int| 0 <= i < n ==> (#[trigger] pieces[i]).len() > 0,
    ensures
        file_segments(pieces, n) == seq!["server"@, "files"@, "gcodes"@] + pieces.take(n),
    decreases n,
{
    let head = seq!["server"@, "files"@, "gcodes"@];
    if n > 0 {
        routes_keep_the_parts_of_names(pieces, n - 1);
        assert(pieces[n - 1].len() > 0);
        assert(head + pieces.take(n) == (head + pieces.take(n - 1)).push(pieces[n - 1]));
    } else {
        assert(head + pieces.take(0) == head);
    }
}

/// Empty parts of a name count for nothing.
pub proof fn empty_parts_count_for_nothing(pieces: Seq<Seq<char>>, n: int)
    requires
        0 < n <= pieces.len(),
        pieces[n - 1].len() == 0,
    ensures
        file_segments(pieces, n) == file_segments(pieces, n - 1),
{
}

/// A route is written with a slash before each of its parts.
pub proof fn routes_are_written_with_slashes(s: Seq<Seq<char>>, part: Seq<char>)
    ensures
        route_text(s.push(part)) == route_text(s) + "/"@ + part,
        route_text(Seq::empty()) == Seq::<char>::empty(),
{
    assert(s.push(part).drop_last() == s);
}

} // verus!
