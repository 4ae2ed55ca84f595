//! Calibration of estimates from finished prints.

use vstd::prelude::*;

use crate::constants::EIGHT_TENTHS;
use crate::constants::HALF;
use crate::constants::NINE_TENTHS;
use crate::constants::SIX_HUNDRED;
use crate::constants::TENTH;
use crate::double::num;
use crate::double::Double;
use crate::double::ONE;
use crate::double::ZERO;
use crate::duration::DurationEstimate;
use crate::duration::EstimateView;
use crate::fingerprint::file_fingerprint;
use crate::fingerprint::fingerprint_bytes;
use crate::kinds::texts;
use crate::offline::viewed;
use crate::table::inserted;
use crate::table::has_key;
use crate::table::lemma_position;
use crate::table::lemma_slot;
use crate::table::lookup;
use crate::table::position;
use crate::table::slot;
use crate::table::Table;
use crate::text::chars_of;
use crate::text::decimal;
use crate::text::same;
use crate::text::to_decimal;

verus! {

pub const CALIBRATION_MARKER_SCHEMA_VERSION: u32 = 1;

pub const CALIBRATION_MODEL_VERSION: u32 = 1;

/// The start of the line that ends a processed file.
pub open spec fn marker_prefix() -> Seq<char> {
    "; klipper_estimator calibration: "@
}

/// What a processed file says of its estimate.
#[derive(Clone, Debug)]
pub struct CalibrationMarker<S = String> {
    pub schema_version: u32,
    pub estimator_version: S,
    pub configuration_fingerprint: S,
    pub gcode_fingerprint: S,
    pub baseline_expected_time: Double,
}

impl View for CalibrationMarker {
    type V = CalibrationMarker<Seq<char>>;

    open spec fn view(&self) -> CalibrationMarker<Seq<char>> {
        CalibrationMarker {
            schema_version: self.schema_version,
            estimator_version: self.estimator_version@,
            configuration_fingerprint: self.configuration_fingerprint@,
            gcode_fingerprint: self.gcode_fingerprint@,
            baseline_expected_time: self.baseline_expected_time,
        }
    }
}

impl CalibrationMarker {
    pub fn new(
        estimator_version: String,
        configuration_fingerprint: String,
        gcode_fingerprint: String,
        baseline_expected_time: Double,
    ) -> (r: CalibrationMarker)
        ensures
            r@ == (CalibrationMarker {
                schema_version: CALIBRATION_MARKER_SCHEMA_VERSION,
                estimator_version: estimator_version@,
                configuration_fingerprint: configuration_fingerprint@,
                gcode_fingerprint: gcode_fingerprint@,
                baseline_expected_time,
            }),
    {
        CalibrationMarker {
            schema_version: CALIBRATION_MARKER_SCHEMA_VERSION,
            estimator_version,
            configuration_fingerprint,
            gcode_fingerprint,
            baseline_expected_time,
        }
    }
}

/// The line of an encoded marker.
pub fn marker_comment(encoded: &str) -> (r: String)
    ensures
        r@ == marker_prefix() + encoded@,
{
    let mut r: String = "; klipper_estimator calibration: ".to_owned();
    r.append(encoded);
    r
}

/// Whether a line is one of a marker.
pub fn is_marker_line(line: &str) -> (r: bool)
    ensures
        r == crate::text::has_prefix(line@, marker_prefix()),
{
    crate::text::starts_with(line, "; klipper_estimator calibration: ")
}

/// Why a file has no usable marker.
#[derive(Clone, Copy, Debug, PartialEq, Eq, Structural)]
pub enum MarkerFault {
    NotText,
    Missing,
    NotOwnLine,
    NotFinalLine,
    Schema,
    Fingerprint,
}

impl MarkerFault {
    pub fn text(&self) -> (r: &'static str)
        ensures
            r@ == (match *self {
                MarkerFault::NotText => "history G-code is not UTF-8"@,
                MarkerFault::Missing => "history G-code has no calibration marker"@,
                MarkerFault::NotOwnLine => "calibration marker is not on its own line"@,
                MarkerFault::NotFinalLine => "calibration marker is not the final G-code line"@,
                MarkerFault::Schema => "unsupported calibration marker schema"@,
                MarkerFault::Fingerprint => "calibration marker G-code fingerprint mismatch"@,
            }),
    {
        match self {
            MarkerFault::NotText => "history G-code is not UTF-8",
            MarkerFault::Missing => "history G-code has no calibration marker",
            MarkerFault::NotOwnLine => "calibration marker is not on its own line",
            MarkerFault::NotFinalLine => "calibration marker is not the final G-code line",
            MarkerFault::Schema => "unsupported calibration marker schema",
            MarkerFault::Fingerprint => "calibration marker G-code fingerprint mismatch",
        }
    }
}

/// A text of ASCII characters as bytes.
pub open spec fn ascii(s: Seq<char>) -> Seq<u8> {
    Seq::new(s.len(), |i: int| s[i] as u32 as u8)
}

fn ascii_bytes(s: &str) -> (r: Vec<u8>)
    ensures
        r@ == ascii(s@),
{
    let v: Vec<char> = chars_of(s);
    let mut out: Vec<u8> = Vec::new();
    let mut i: usize = 0;
    while i < v.len()
        invariant
            i <= v@.len(),
            v@ == s@,
            out@.len() == i,
            forall|k: int| 0 <= k < i ==> #[trigger] out@[k] == s@[k] as u32 as u8,
        decreases v.len() - i,
    {
        let code: u32 = v[i] as u32;
        out.push(
            #[verifier::truncate]
            (code as u8),
        );
        i = i + 1;
    }
    assert(out@ == ascii(s@));
    out
}

/// Whether `part` stands in `bytes` at an index.
pub open spec fn stands_at(bytes: Seq<u8>, part: Seq<u8>, i: int) -> bool {
    0 <= i && i + part.len() <= bytes.len() && bytes.subrange(i, i + part.len()) == part
}

/// The last index below `i` at which `part` stands, or -1.
pub open spec fn last_before(bytes: Seq<u8>, part: Seq<u8>, i: int) -> int
    decreases i,
{
    if i <= 0 {
        -1
    } else if stands_at(bytes, part, i - 1) {
        i - 1
    } else {
        last_before(bytes, part, i - 1)
    }
}

fn check_at(bytes: &Vec<u8>, part: &Vec<u8>, at: usize) -> (r: bool)
    requires
        at <= bytes@.len(),
    ensures
        r == stands_at(bytes@, part@, at as int),
{
    let n: usize = bytes.len();
    if n - at < part.len() {
        return false;
    }
    let ghost here = bytes@.subrange(at as int, at + part@.len());
    let mut i: usize = 0;
    while i < part.len()
        invariant
            i <= part@.len(),
            n == bytes@.len(),
            at + part@.len() <= n,
            here == bytes@.subrange(at as int, at + part@.len()),
            forall|k: int| 0 <= k < i ==> here[k] == part@[k],
        decreases part.len() - i,
    {
        assert(here[i as int] == bytes@[at + i]);
        if bytes[at + i] != part[i] {
            return false;
        }
        i = i + 1;
    }
    assert(here == part@);
    true
}

/// The end of bytes without the line ends behind them.
pub open spec fn text_end(bytes: Seq<u8>, i: int) -> int
    decreases i,
{
    if i <= 0 {
        0
    } else if bytes[i - 1] == 10 || bytes[i - 1] == 13 {
        text_end(bytes, i - 1)
    } else {
        i
    }
}

/// Whether a line ends between two indices.
pub open spec fn line_ends_in(bytes: Seq<u8>, from: int, to: int) -> bool {
    exists|i: int| from <= i < to && (#[trigger] bytes[i] == 10 || bytes[i] == 13)
}

/// Where the marker of a file starts and where its encoding lies. It must be the last line.
pub open spec fn marker_span(bytes: Seq<u8>) -> Result<(int, int, int), MarkerFault> {
    let prefix = ascii(marker_prefix());
    let start = last_before(bytes, prefix, bytes.len() as int);
    let end = text_end(bytes, bytes.len() as int);
    if start < 0 {
        Err(MarkerFault::Missing)
    } else if start > 0 && bytes[start - 1] != 10 {
        Err(MarkerFault::NotOwnLine)
    } else if line_ends_in(bytes, start, end) {
        Err(MarkerFault::NotFinalLine)
    } else {
        Ok((start, start + prefix.len(), end))
    }
}

proof fn lemma_last_before(bytes: Seq<u8>, part: Seq<u8>, i: int)
    ensures
        -1 <= last_before(bytes, part, i),
        last_before(bytes, part, i) >= 0 ==> last_before(bytes, part, i) < i && stands_at(
            bytes,
            part,
            last_before(bytes, part, i),
        ),
        forall|k: int|
            last_before(bytes, part, i) < k < i && 0 <= k ==> !stands_at(bytes, part, k),
    decreases i,
{
    if i > 0 && !stands_at(bytes, part, i - 1) {
        lemma_last_before(bytes, part, i - 1);
    }
}

proof fn lemma_text_end(bytes: Seq<u8>, i: int)
    requires
        i <= bytes.len(),
    ensures
        i >= 0 ==> 0 <= text_end(bytes, i) <= i,
        forall|k: int|
            text_end(bytes, i) <= k < i && 0 <= k ==> #[trigger] bytes[k] == 10 || bytes[k] == 13,
        text_end(bytes, i) > 0 ==> bytes[text_end(bytes, i) - 1] != 10 && bytes[text_end(bytes, i)
            - 1] != 13,
    decreases i,
{
    if i > 0 && (bytes[i - 1] == 10 || bytes[i - 1] == 13) {
        lemma_text_end(bytes, i - 1);
    }
}

pub proof fn lemma_prefix_bytes()
    ensures
        ascii(marker_prefix()).len() == 33,
        marker_prefix()[0] == ';',
        marker_prefix()[1] == ' ',
        marker_prefix()[2] == 'k',
        forall|i: int| 0 <= i < 33 ==> (#[trigger] marker_prefix()[i]) as u32 <= 0x7f,
        ascii(marker_prefix())[0] == 59,
        forall|i: int|
            0 < i < 33 ==> #[trigger] ascii(marker_prefix())[i] != 59,
        forall|i: int|
            0 <= i < 33 ==> #[trigger] ascii(marker_prefix())[i] != 10 && ascii(marker_prefix())[i]
                != 13,
{
    reveal_strlit("; klipper_estimator calibration: ");
    let p = marker_prefix();
    assert(p.len() == 33);
    assert forall|i: int| 0 <= i < 33 implies #[trigger] ascii(p)[i] == p[i] as u32 as u8 by {}
    assert(p =~= seq![
        ';', ' ', 'k', 'l', 'i', 'p', 'p', 'e', 'r', '_', 'e', 's', 't', 'i', 'm', 'a', 't', 'o',
        'r', ' ', 'c', 'a', 'l', 'i', 'b', 'r', 'a', 't', 'i', 'o', 'n', ':', ' ',
    ]);
    assert(59u32 as u8 == 59u8 && 32u32 as u8 == 32u8 && 95u32 as u8 == 95u8 && 58u32 as u8 == 58u8
        && 97u32 as u8 == 97u8 && 98u32 as u8 == 98u8 && 99u32 as u8 == 99u8 && 101u32 as u8
        == 101u8 && 105u32 as u8 == 105u8 && 107u32 as u8 == 107u8 && 108u32 as u8 == 108u8
        && 109u32 as u8 == 109u8 && 110u32 as u8 == 110u8 && 111u32 as u8 == 111u8 && 112u32 as u8
        == 112u8 && 114u32 as u8 == 114u8 && 115u32 as u8 == 115u8 && 116u32 as u8 == 116u8)
        by (bit_vector);
}

/// `std::str::from_utf8`: whether the bytes are the UTF-8 encoding of a text.
#[verifier::external_body]
fn is_text(bytes: &Vec<u8>) -> (r: bool)
    ensures
        r == vstd::utf8::valid_utf8(bytes@),
{
    std::str::from_utf8(bytes).is_ok()
}

/// The place of the marker of a file, which must be a text.
pub open spec fn marker_in(bytes: Seq<u8>) -> Result<(int, int, int), MarkerFault> {
    if vstd::utf8::valid_utf8(bytes) {
        marker_span(bytes)
    } else {
        Err(MarkerFault::NotText)
    }
}

/// Finds the marker of a file: where it starts, and its encoding.
pub fn find_marker(bytes: &Vec<u8>) -> (r: Result<(usize, Vec<u8>), MarkerFault>)
    ensures
        match (r, marker_in(bytes@)) {
            (Ok((start, encoded)), Ok((s, from, to))) => start == s && encoded@ == bytes@.subrange(
                from,
                if from <= to {
                    to
                } else {
                    from
                },
            ),
            (Err(e), Err(f)) => e == f,
            _ => false,
        },
{
    if !is_text(bytes) {
        return Err(MarkerFault::NotText);
    }
    let prefix: Vec<u8> = ascii_bytes("; klipper_estimator calibration: ");
    let mut start: usize = bytes.len();
    let mut found: bool = false;
    while start > 0 && !found
        invariant
            start <= bytes@.len(),
            prefix@ == ascii(marker_prefix()),
            found ==> stands_at(bytes@, prefix@, start as int) && last_before(
                bytes@,
                prefix@,
                bytes@.len() as int,
            ) == start,
            !found ==> last_before(bytes@, prefix@, bytes@.len() as int) == last_before(
                bytes@,
                prefix@,
                start as int,
            ),
        decreases start,
    {
        start = start - 1;
        found = check_at(bytes, &prefix, start);
    }
    if !found {
        return Err(MarkerFault::Missing);
    }
    if start > 0 && bytes[start - 1] != 10 {
        return Err(MarkerFault::NotOwnLine);
    }
    let mut end: usize = bytes.len();
    while end > 0 && (bytes[end - 1] == 10 || bytes[end - 1] == 13)
        invariant
            end <= bytes@.len(),
            text_end(bytes@, bytes@.len() as int) == text_end(bytes@, end as int),
        decreases end,
    {
        end = end - 1;
    }
    let mut i: usize = start;
    while i < end
        invariant
            start <= i,
            end <= bytes@.len(),
            prefix@ == ascii(marker_prefix()),
            last_before(bytes@, prefix@, bytes@.len() as int) == start,
            !(start > 0 && bytes@[start - 1] != 10),
            text_end(bytes@, bytes@.len() as int) == end,
            vstd::utf8::valid_utf8(bytes@),
            forall|k: int| start <= k < i ==> #[trigger] bytes@[k] != 10 && bytes@[k] != 13,
        decreases end - i,
    {
        if bytes[i] == 10 || bytes[i] == 13 {
            assert(line_ends_in(bytes@, start as int, end as int));
            return Err(MarkerFault::NotFinalLine);
        }
        i = i + 1;
    }
    let from: usize = start + prefix.len();
    let mut encoded: Vec<u8> = Vec::new();
    let ghost to = if from <= end {
        end
    } else {
        from
    };
    let mut k: usize = from;
    assert(encoded@ == bytes@.subrange(from as int, from as int));
    while k < end
        invariant
            from <= k,
            end <= bytes@.len(),
            k <= end || k == from,
            from <= bytes@.len(),
            encoded@ == bytes@.subrange(from as int, k as int),
        decreases end - k,
    {
        encoded.push(bytes[k]);
        assert(bytes@.subrange(from as int, k + 1) == bytes@.subrange(from as int, k as int).push(
            bytes@[k as int],
        ));
        k = k + 1;
    }
    Ok((start, encoded))
}

/// What is wrong with a marker that starts at an index of a file.
pub open spec fn marker_fault(m: CalibrationMarker<Seq<char>>, bytes: Seq<u8>, start: int) -> Option<
    MarkerFault,
> {
    if m.schema_version != CALIBRATION_MARKER_SCHEMA_VERSION {
        Some(MarkerFault::Schema)
    } else if m.gcode_fingerprint != file_fingerprint(bytes.take(start)) {
        Some(MarkerFault::Fingerprint)
    } else {
        None
    }
}

/// Checks a marker against everything in front of it.
pub fn verify_marker(marker: &CalibrationMarker, bytes: &Vec<u8>, start: usize) -> (r: Result<
    (),
    MarkerFault,
>)
    requires
        start <= bytes@.len(),
    ensures
        match r {
            Ok(()) => marker_fault(marker@, bytes@, start as int) is None,
            Err(e) => marker_fault(marker@, bytes@, start as int) == Some(e),
        },
{
    if marker.schema_version != CALIBRATION_MARKER_SCHEMA_VERSION {
        return Err(MarkerFault::Schema);
    }
    let mut body: Vec<u8> = Vec::new();
    let mut i: usize = 0;
    assert(body@ == bytes@.take(0));
    while i < start
        invariant
            i <= start <= bytes@.len(),
            body@ == bytes@.take(i as int),
        decreases start - i,
    {
        body.push(bytes[i]);
        assert(bytes@.take(i + 1) == bytes@.take(i as int).push(bytes@[i as int]));
        i = i + 1;
    }
    let actual: String = fingerprint_bytes(&body);
    if !same(marker.gcode_fingerprint.as_str(), actual.as_str()) {
        return Err(MarkerFault::Fingerprint);
    }
    Ok(())
}

/// A marker that is put on a line of its own behind a file is found there again, with the file
/// in front of it and its encoding behind its prefix, unless the encoding holds the prefix
/// itself.
pub proof fn appended_marker_is_found(body: Seq<u8>, encoded: Seq<u8>)
    requires
        body.len() == 0 || body.last() == 10,
        encoded.len() > 0,
        forall|i: int| 0 <= i < encoded.len() ==> #[trigger] encoded[i] != 10 && encoded[i] != 13,
        forall|i: int| !stands_at(encoded, ascii(marker_prefix()), i),
    ensures
        ({
            let prefix = ascii(marker_prefix());
            let file = body + prefix + encoded + seq![10u8];
            marker_span(file) == Ok::<(int, int, int), MarkerFault>(
                (body.len() as int, (body.len() + prefix.len()) as int, file.len() - 1),
            ) && file.take(body.len() as int) == body && file.subrange(
                (body.len() + prefix.len()) as int,
                file.len() - 1,
            ) == encoded
        }),
{
    let prefix = ascii(marker_prefix());
    let file = body + prefix + encoded + seq![10u8];
    let n = body.len() as int;
    lemma_prefix_bytes();
    lemma_last_before(file, prefix, file.len() as int);
    lemma_text_end(file, file.len() as int);
    assert(file.subrange(n, n + prefix.len()) == prefix);
    assert(stands_at(file, prefix, n));
    assert forall|k: int| n < k < file.len() implies !stands_at(file, prefix, k) by {
        if stands_at(file, prefix, k) {
            let here = file.subrange(k, k + prefix.len());
            assert(here[0] == file[k]);
            if k < n + prefix.len() {
                assert(file[k] == prefix[k - n]);
            } else {
                let last = k + prefix.len() - 1;
                assert(here[prefix.len() - 1] == file[last]);
                if last == file.len() - 1 {
                    assert(file[last] == 10);
                    assert(false);
                }
                let at = k - n - prefix.len();
                assert(encoded.subrange(at, at + prefix.len()) == prefix) by {
                    assert forall|j: int| 0 <= j < prefix.len() implies encoded.subrange(
                        at,
                        at + prefix.len(),
                    )[j] == prefix[j] by {
                        assert(here[j] == file[k + j]);
                        assert(file[k + j] == encoded[at + j]);
                    }
                }
                assert(stands_at(encoded, prefix, at));
                assert(false);
            }
        }
    }
    let start = last_before(file, prefix, file.len() as int);
    assert(start == n);
    let end = text_end(file, file.len() as int);
    assert(file[file.len() - 1] == 10);
    assert(file[file.len() - 2] == encoded[encoded.len() - 1]);
    assert(end == file.len() - 1);
    assert forall|i: int| start <= i < end implies file[i] != 10 && file[i] != 13 by {
        if i < n + prefix.len() {
            assert(file[i] == prefix[i - n]);
        } else {
            assert(file[i] == encoded[i - n - prefix.len()]);
        }
    }
    if n > 0 {
        assert(file[n - 1] == body.last());
    }
    assert(file.take(n) == body);
    assert(file.subrange(n + prefix.len(), file.len() - 1) == encoded);
}

/// A marker that is put on a line of its own behind a file is read back if and only if it holds
/// the fingerprint of just the bytes in front of it. `encoded` is the encoding of the marker,
/// which does not hold the prefix itself.
pub proof fn marker_round_trip(
    body: Seq<u8>,
    encoded: Seq<u8>,
    m: CalibrationMarker<Seq<char>>,
)
    requires
        body.len() == 0 || body.last() == 10,
        encoded.len() > 0,
        forall|i: int| 0 <= i < encoded.len() ==> #[trigger] encoded[i] != 10 && encoded[i] != 13,
        forall|i: int| !stands_at(encoded, ascii(marker_prefix()), i),
        m.schema_version == CALIBRATION_MARKER_SCHEMA_VERSION,
    ensures
        ({
            let prefix = ascii(marker_prefix());
            let file = body + prefix + encoded + seq![10u8];
            let start = body.len() as int;
            &&& marker_in(file) == (if vstd::utf8::valid_utf8(file) {
                Ok((start, start + prefix.len(), file.len() - 1))
            } else {
                Err(MarkerFault::NotText)
            })
            &&& file.subrange(start + prefix.len(), file.len() - 1) == encoded
            &&& marker_fault(m, file, start) == (if m.gcode_fingerprint == file_fingerprint(body) {
                None
            } else {
                Some(MarkerFault::Fingerprint)
            })
        }),
{
    appended_marker_is_found(body, encoded);
}

/// A file that was changed in front of its marker no longer fits it, unless the change goes
/// unnoticed by the digest.
pub proof fn changed_file_does_not_fit(
    m: CalibrationMarker<Seq<char>>,
    bytes: Seq<u8>,
    start: int,
    other: Seq<u8>,
    other_start: int,
)
    requires
        marker_fault(m, bytes, start) is None,
        crate::fingerprint::sha256_of(other.take(other_start))
            != crate::fingerprint::sha256_of(bytes.take(start)),
    ensures
        marker_fault(m, other, other_start) == Some(MarkerFault::Fingerprint),
{
    let a = crate::fingerprint::sha256_of(bytes.take(start));
    let b = crate::fingerprint::sha256_of(other.take(other_start));
    if crate::fingerprint::hex_of(a) == crate::fingerprint::hex_of(b) {
        crate::fingerprint::hexadecimal_is_injective(a, b);
    }
}

/// A print in the history of a printer.
#[derive(Clone, Debug)]
pub struct HistoryJob {
    pub exists: bool,
    pub status: String,
    pub filename: String,
    pub end_time: Option<Double>,
    pub print_duration: Double,
    pub total_duration: Double,
    pub uuid: String,
    pub file_processors: Vec<String>,
}

/// Why a print is no sample.
#[derive(Clone, Copy, Debug, PartialEq, Eq, Structural)]
pub enum Rejection {
    IncompleteStatus,
    ModifiedOrMissingGcode,
    NotEstimatorProcessed,
    InvalidEndTime,
    Stale,
    InvalidDuration,
    PossiblePause,
    UnverifiableGcode,
    ConfigurationMismatch,
    InvalidBaseline,
    ResidualOutlier,
}

pub open spec fn rejection_text(r: Rejection) -> Seq<char> {
    match r {
        Rejection::IncompleteStatus => "incomplete_status"@,
        Rejection::ModifiedOrMissingGcode => "modified_or_missing_gcode"@,
        Rejection::NotEstimatorProcessed => "not_estimator_processed"@,
        Rejection::InvalidEndTime => "invalid_end_time"@,
        Rejection::Stale => "stale"@,
        Rejection::InvalidDuration => "invalid_duration"@,
        Rejection::PossiblePause => "possible_pause"@,
        Rejection::UnverifiableGcode => "unverifiable_gcode"@,
        Rejection::ConfigurationMismatch => "configuration_mismatch"@,
        Rejection::InvalidBaseline => "invalid_baseline"@,
        Rejection::ResidualOutlier => "residual_outlier"@,
    }
}

impl Rejection {
    pub fn text(&self) -> (r: &'static str)
        ensures
            r@ == rejection_text(*self),
    {
        match self {
            Rejection::IncompleteStatus => "incomplete_status",
            Rejection::ModifiedOrMissingGcode => "modified_or_missing_gcode",
            Rejection::NotEstimatorProcessed => "not_estimator_processed",
            Rejection::InvalidEndTime => "invalid_end_time",
            Rejection::Stale => "stale",
            Rejection::InvalidDuration => "invalid_duration",
            Rejection::PossiblePause => "possible_pause",
            Rejection::UnverifiableGcode => "unverifiable_gcode",
            Rejection::ConfigurationMismatch => "configuration_mismatch",
            Rejection::InvalidBaseline => "invalid_baseline",
            Rejection::ResidualOutlier => "residual_outlier",
        }
    }
}

/// The seconds from one time to a later one.
#[verifier::allow_in_spec]
pub fn age(now: u64, then: u64) -> u64
    returns
        (if now > then {
            (now - then) as u64
        } else {
            0
        }),
{
    if now > then {
        now - then
    } else {
        0
    }
}

/// What the times of a print say against it.
#[verifier::allow_in_spec]
pub fn time_rejection(
    end_time: Option<Double>,
    print_duration: Double,
    total_duration: Double,
    now: u64,
    max_age_seconds: u64,
) -> Option<Rejection>
    returns
        (match end_time {
            None => Some(Rejection::InvalidEndTime),
            Some(end) => if !end.is_finite() || end < num(ZERO) || end > Double::from_u64(now) {
                Some(Rejection::InvalidEndTime)
            } else if age(now, end.to_u64()) > max_age_seconds {
                Some(Rejection::Stale)
            } else if !total_duration.is_finite() || !print_duration.is_finite() || total_duration
                <= num(ZERO) || print_duration <= num(ZERO) {
                Some(Rejection::InvalidDuration)
            } else if (total_duration - print_duration).abs() > num(ONE) {
                Some(Rejection::PossiblePause)
            } else {
                None
            },
        }),
{
    match end_time {
        None => Some(Rejection::InvalidEndTime),
        Some(end) => if !end.is_finite() || end < num(ZERO) || end > Double::from_u64(now) {
            Some(Rejection::InvalidEndTime)
        } else if age(now, end.to_u64()) > max_age_seconds {
            Some(Rejection::Stale)
        } else if !total_duration.is_finite() || !print_duration.is_finite() || total_duration
            <= num(ZERO) || print_duration <= num(ZERO) {
            Some(Rejection::InvalidDuration)
        } else if (total_duration - print_duration).abs() > num(ONE) {
            Some(Rejection::PossiblePause)
        } else {
            None
        },
    }
}

/// What a print's own record says against it.
pub open spec fn job_rejection(job: HistoryJob, now: u64, max_age_seconds: u64) -> Option<
    Rejection,
> {
    if job.status@ != "completed"@ {
        Some(Rejection::IncompleteStatus)
    } else if !job.exists || job.uuid@.len() == 0 {
        Some(Rejection::ModifiedOrMissingGcode)
    } else if !texts(job.file_processors@).contains("klipper_estimator"@) {
        Some(Rejection::NotEstimatorProcessed)
    } else {
        time_rejection(
            job.end_time,
            job.print_duration,
            job.total_duration,
            now,
            max_age_seconds,
        )
    }
}

/// What a print's own record says against it.
pub fn validate_job(job: &HistoryJob, now: u64, max_age_seconds: u64) -> (r: Option<Rejection>)
    ensures
        r == job_rejection(*job, now, max_age_seconds),
{
    if !same(job.status.as_str(), "completed") {
        return Some(Rejection::IncompleteStatus);
    }
    if !job.exists || job.uuid.as_str().unicode_len() == 0 {
        return Some(Rejection::ModifiedOrMissingGcode);
    }
    let mut processed: bool = false;
    let mut i: usize = 0;
    while i < job.file_processors.len()
        invariant
            i <= job.file_processors@.len(),
            processed == exists|k: int|
                0 <= k < i && #[trigger] texts(job.file_processors@)[k] == "klipper_estimator"@,
        decreases job.file_processors.len() - i,
    {
        assert(texts(job.file_processors@)[i as int] == job.file_processors@[i as int]@);
        if same(job.file_processors[i].as_str(), "klipper_estimator") {
            processed = true;
        }
        i = i + 1;
    }
    assert(processed == texts(job.file_processors@).contains("klipper_estimator"@));
    if !processed {
        return Some(Rejection::NotEstimatorProcessed);
    }
    time_rejection(job.end_time, job.print_duration, job.total_duration, now, max_age_seconds)
}

/// What a print adds to a model.
#[derive(Clone, Copy, Debug)]
pub struct CalibrationSample {
    pub residual: Double,
    pub end_time: u64,
}

/// What a print amounts to, with the marker of its file, if that could be verified.
pub open spec fn judged(
    job: HistoryJob,
    marker: Option<CalibrationMarker<Seq<char>>>,
    configuration: Seq<char>,
    now: u64,
    max_age_seconds: u64,
) -> Result<CalibrationSample, Rejection> {
    match (job_rejection(job, now, max_age_seconds), marker) {
        (Some(r), _) => Err(r),
        (None, None) => Err(Rejection::UnverifiableGcode),
        (None, Some(m)) => {
            let baseline = m.baseline_expected_time;
            let residual = job.total_duration - baseline;
            if m.configuration_fingerprint != configuration {
                Err(Rejection::ConfigurationMismatch)
            } else if !baseline.is_finite() || baseline <= num(ZERO) {
                Err(Rejection::InvalidBaseline)
            } else if residual.abs() > baseline.max(num(SIX_HUNDRED)) {
                Err(Rejection::ResidualOutlier)
            } else {
                Ok(
                    CalibrationSample {
                        residual,
                        end_time: match job.end_time {
                            Some(end) => end.to_u64(),
                            None => 0,
                        },
                    },
                )
            }
        },
    }
}

pub open spec fn marker_view(m: Option<CalibrationMarker>) -> Option<
    CalibrationMarker<Seq<char>>,
> {
    match m {
        Some(x) => Some(x@),
        None => None,
    }
}

/// What a print amounts to, with the marker of its file, if that could be verified.
pub fn judge(
    job: &HistoryJob,
    marker: &Option<CalibrationMarker>,
    configuration: &str,
    now: u64,
    max_age_seconds: u64,
) -> (r: Result<CalibrationSample, Rejection>)
    ensures
        r == judged(*job, marker_view(*marker), configuration@, now, max_age_seconds),
{
    if let Some(rejection) = validate_job(job, now, max_age_seconds) {
        return Err(rejection);
    }
    match marker {
        None => Err(Rejection::UnverifiableGcode),
        Some(m) => {
            let baseline: Double = m.baseline_expected_time;
            if !same(m.configuration_fingerprint.as_str(), configuration) {
                return Err(Rejection::ConfigurationMismatch);
            }
            if !baseline.is_finite() || baseline <= num(ZERO) {
                return Err(Rejection::InvalidBaseline);
            }
            let residual: Double = job.total_duration - baseline;
            if residual.abs() > baseline.max(num(SIX_HUNDRED)) {
                return Err(Rejection::ResidualOutlier);
            }
            Ok(
                CalibrationSample {
                    residual,
                    end_time: match job.end_time {
                        Some(end) => end.to_u64(),
                        None => 0,
                    },
                },
            )
        },
    }
}

pub type Counts = Seq<(Seq<char>, u64)>;

/// The counts with one increased.
pub open spec fn counted(c: Counts, name: Seq<char>) -> Counts {
    inserted(
        c,
        name,
        match lookup(c, name) {
            Some(n) => crate::estimate::one_more(n),
            None => 1,
        },
    )
}

/// Counts a rejection.
pub fn reject(counts: &mut Table<u64>, reason: &str)
    ensures
        final(counts)@ == counted(old(counts)@, reason@),
        old(counts).well_formed() ==> final(counts).well_formed(),
{
    let n: u64 = match counts.get(reason) {
        Some(n) => crate::estimate::one_more(*n),
        None => 1,
    };
    counts.insert(reason, n);
}

/// The samples among the first `i` prints, and why the others are none.
pub open spec fn sorted_out(
    jobs: Seq<HistoryJob>,
    markers: Seq<Option<CalibrationMarker>>,
    configuration: Seq<char>,
    now: u64,
    max_age_seconds: u64,
    i: int,
) -> (Seq<CalibrationSample>, Counts)
    decreases i,
{
    if i <= 0 {
        (Seq::empty(), Seq::empty())
    } else {
        let (samples, rejected) = sorted_out(
            jobs,
            markers,
            configuration,
            now,
            max_age_seconds,
            i - 1,
        );
        match judged(
            jobs[i - 1],
            marker_view(markers[i - 1]),
            configuration,
            now,
            max_age_seconds,
        ) {
            Ok(s) => (samples.push(s), rejected),
            Err(r) => (samples, counted(rejected, rejection_text(r))),
        }
    }
}

#[derive(Clone, Copy, Debug, PartialEq, Eq, Structural)]
pub enum CalibrationStatus {
    Applied,
    InsufficientData,
    Unavailable,
}

/// What a model applies to.
#[derive(Clone, Debug)]
pub struct CalibrationApplicability<S = String> {
    pub configuration_fingerprint: S,
    pub baseline: S,
}

#[derive(Clone, Copy, Debug)]
pub struct CalibrationErrorMetrics {
    pub median_absolute_error: Double,
    pub root_mean_squared_error: Double,
}

#[derive(Clone, Copy, Debug)]
pub struct ResidualInterval {
    pub confidence: Double,
    pub lower: Double,
    pub upper: Double,
}

/// A model of how prints differ from their estimates.
#[derive(Clone, Debug)]
pub struct HistoryCalibrationModel<S = String> {
    pub model_version: u32,
    pub sample_count: u64,
    pub generated_at_unix_seconds: u64,
    pub newest_sample_age_seconds: u64,
    pub oldest_sample_age_seconds: u64,
    pub applicability: CalibrationApplicability<S>,
    pub median_residual: Double,
    pub error_metrics: CalibrationErrorMetrics,
    pub residual_interval: ResidualInterval,
}

#[derive(Clone, Copy, Debug)]
pub struct CalibratedPrediction {
    pub expected_total_time: Double,
    pub confidence: Double,
    pub lower: Double,
    pub upper: Double,
}

#[derive(Clone, Debug)]
pub struct CalibrationReport {
    pub status: CalibrationStatus,
    pub reason: Option<String>,
    pub rejected_samples: Table<u64>,
    pub model: Option<HistoryCalibrationModel>,
    pub prediction: Option<CalibratedPrediction>,
}

#[verifier::ext_equal]
pub struct ReportView {
    pub status: CalibrationStatus,
    pub reason: Option<Seq<char>>,
    pub rejected: Counts,
    pub model: Option<HistoryCalibrationModel<Seq<char>>>,
    pub prediction: Option<CalibratedPrediction>,
}

impl View for HistoryCalibrationModel {
    type V = HistoryCalibrationModel<Seq<char>>;

    open spec fn view(&self) -> HistoryCalibrationModel<Seq<char>> {
        HistoryCalibrationModel {
            model_version: self.model_version,
            sample_count: self.sample_count,
            generated_at_unix_seconds: self.generated_at_unix_seconds,
            newest_sample_age_seconds: self.newest_sample_age_seconds,
            oldest_sample_age_seconds: self.oldest_sample_age_seconds,
            applicability: CalibrationApplicability {
                configuration_fingerprint: self.applicability.configuration_fingerprint@,
                baseline: self.applicability.baseline@,
            },
            median_residual: self.median_residual,
            error_metrics: self.error_metrics,
            residual_interval: self.residual_interval,
        }
    }
}

impl View for CalibrationReport {
    type V = ReportView;

    open spec fn view(&self) -> ReportView {
        ReportView {
            status: self.status,
            reason: viewed(self.reason),
            rejected: self.rejected_samples@,
            model: match self.model {
                Some(m) => Some(m@),
                None => None,
            },
            prediction: self.prediction,
        }
    }
}

/// The number of leading numbers that are not above `x`.
pub open spec fn number_slot(s: Seq<Double>, x: Double) -> int
    decreases s.len(),
{
    if s.len() == 0 || x < s[0] {
        0
    } else {
        1 + number_slot(s.skip(1), x)
    }
}

/// The first `i` numbers in increasing order.
pub open spec fn in_increasing_order(s: Seq<Double>, i: int) -> Seq<Double>
    decreases i,
{
    if i <= 0 {
        Seq::empty()
    } else {
        let prior = in_increasing_order(s, i - 1);
        prior.insert(number_slot(prior, s[i - 1]), s[i - 1])
    }
}

proof fn lemma_order_length(s: Seq<Double>, i: int)
    requires
        0 <= i,
    ensures
        in_increasing_order(s, i).len() == i,
    decreases i,
{
    if i > 0 {
        lemma_order_length(s, i - 1);
        lemma_number_slot(in_increasing_order(s, i - 1), s[i - 1]);
    }
}

proof fn lemma_number_slot(s: Seq<Double>, x: Double)
    ensures
        0 <= number_slot(s, x) <= s.len(),
    decreases s.len(),
{
    if s.len() > 0 && !(x < s[0]) {
        lemma_number_slot(s.skip(1), x);
    }
}

fn sort_numbers(s: &Vec<Double>) -> (r: Vec<Double>)
    ensures
        r@ == in_increasing_order(s@, s@.len() as int),
        r@.len() == s@.len(),
{
    let mut sorted: Vec<Double> = Vec::new();
    let mut i: usize = 0;
    while i < s.len()
        invariant
            i <= s@.len(),
            sorted@ == in_increasing_order(s@, i as int),
        decreases s.len() - i,
    {
        let x: Double = s[i];
        let ghost v = sorted@;
        let mut k: usize = 0;
        assert(v.skip(0) == v);
        while k < sorted.len() && !(x < sorted[k])
            invariant
                k <= sorted@.len(),
                v == sorted@,
                number_slot(v, x) == k + number_slot(v.skip(k as int), x),
            decreases sorted.len() - k,
        {
            assert(v.skip(k as int)[0] == v[k as int]);
            assert(v.skip(k as int).skip(1) == v.skip(k + 1));
            k = k + 1;
        }
        if k < sorted.len() {
            assert(v.skip(k as int)[0] == v[k as int]);
        }
        sorted.insert(k, x);
        i = i + 1;
    }
    proof {
        lemma_order_length(s@, s@.len() as int);
    }
    sorted
}

/// An index that does not leave a list of `n` numbers.
pub open spec fn capped(i: u64, n: nat) -> int {
    if i < n - 1 {
        i as int
    } else {
        n - 1
    }
}

fn cap(i: u64, n: usize) -> (r: usize)
    requires
        n > 0,
    ensures
        r == capped(i, n as nat),
        r < n,
{
    if i < (n - 1) as u64 {
        i as usize
    } else {
        n - 1
    }
}

/// A quantile of numbers in increasing order, between two neighbours.
pub open spec fn quantile_of(s: Seq<Double>, q: u64) -> Double {
    let position = num(q) * Double::from_u64((s.len() - 1) as u64);
    let lower = position.floor().to_u64();
    let a = s[capped(lower, s.len())];
    let b = s[capped(position.ceil().to_u64(), s.len())];
    a + (b - a) * (position - Double::from_u64(lower))
}

/// A quantile of numbers in increasing order, between two neighbours.
pub fn quantile(sorted: &Vec<Double>, q: u64) -> (r: Double)
    requires
        sorted@.len() > 0,
    ensures
        r == quantile_of(sorted@, q),
{
    let n: usize = sorted.len();
    let position: Double = num(q) * Double::from_u64((n - 1) as u64);
    let lower: u64 = position.floor().to_u64();
    let upper: u64 = position.ceil().to_u64();
    let a: Double = sorted[cap(lower, n)];
    let b: Double = sorted[cap(upper, n)];
    a + (b - a) * (position - Double::from_u64(lower))
}

/// How far numbers lie from a number.
pub open spec fn distances(s: Seq<Double>, x: Double) -> Seq<Double> {
    Seq::new(s.len(), |i: int| (s[i] - x).abs())
}

fn distances_from(s: &Vec<Double>, x: Double) -> (r: Vec<Double>)
    ensures
        r@ == distances(s@, x),
{
    let mut out: Vec<Double> = Vec::new();
    let mut i: usize = 0;
    while i < s.len()
        invariant
            i <= s@.len(),
            out@.len() == i,
            forall|k: int| 0 <= k < i ==> #[trigger] out@[k] == (s@[k] - x).abs(),
        decreases s.len() - i,
    {
        out.push((s[i] - x).abs());
        i = i + 1;
    }
    assert(out@ == distances(s@, x));
    out
}

/// The sum of the squares of the first `i` distances to a number.
pub open spec fn squares(s: Seq<Double>, x: Double, i: int) -> Double
    decreases i,
{
    if i <= 0 {
        num(ZERO)
    } else {
        squares(s, x, i - 1) + (s[i - 1] - x).squared()
    }
}

fn sum_squares(s: &Vec<Double>, x: Double) -> (r: Double)
    ensures
        r == squares(s@, x, s@.len() as int),
{
    let mut sum: Double = num(ZERO);
    let mut i: usize = 0;
    while i < s.len()
        invariant
            i <= s@.len(),
            sum == squares(s@, x, i as int),
        decreases s.len() - i,
    {
        sum = sum + (s[i] - x).squared();
        i = i + 1;
    }
    sum
}

pub open spec fn residuals_of(samples: Seq<CalibrationSample>) -> Seq<Double> {
    Seq::new(samples.len(), |i: int| samples[i].residual)
}

/// The latest or the earliest end among the first `i` samples.
pub open spec fn extreme_end(samples: Seq<CalibrationSample>, latest: bool, i: int) -> u64
    decreases i,
{
    if i <= 1 {
        samples[0].end_time
    } else {
        let prior = extreme_end(samples, latest, i - 1);
        let e = samples[i - 1].end_time;
        if (latest && e > prior) || (!latest && e < prior) {
            e
        } else {
            prior
        }
    }
}

fn find_end(samples: &Vec<CalibrationSample>, latest: bool) -> (r: u64)
    requires
        samples@.len() > 0,
    ensures
        r == extreme_end(samples@, latest, samples@.len() as int),
{
    let mut found: u64 = samples[0].end_time;
    let mut i: usize = 1;
    while i < samples.len()
        invariant
            1 <= i <= samples@.len(),
            found == extreme_end(samples@, latest, i as int),
        decreases samples.len() - i,
    {
        let e: u64 = samples[i].end_time;
        if (latest && e > found) || (!latest && e < found) {
            found = e;
        }
        i = i + 1;
    }
    found
}

/// A model of residuals: their median, how far they scatter, and the range of most of them.
pub open spec fn model_of(samples: Seq<CalibrationSample>, configuration: Seq<char>, now: u64) -> HistoryCalibrationModel<
    Seq<char>,
> {
    let n = samples.len() as int;
    let sorted = in_increasing_order(residuals_of(samples), n);
    let median = quantile_of(sorted, HALF);
    let errors = in_increasing_order(distances(sorted, median), n);
    HistoryCalibrationModel {
        model_version: CALIBRATION_MODEL_VERSION,
        sample_count: n as u64,
        generated_at_unix_seconds: now,
        newest_sample_age_seconds: age(now, extreme_end(samples, true, n)),
        oldest_sample_age_seconds: age(now, extreme_end(samples, false, n)),
        applicability: CalibrationApplicability {
            configuration_fingerprint: configuration,
            baseline: "expected_total_time_before_history_calibration"@,
        },
        median_residual: median,
        error_metrics: CalibrationErrorMetrics {
            median_absolute_error: quantile_of(errors, HALF),
            root_mean_squared_error: (squares(sorted, median, n) / Double::from_u64(
                n as u64,
            )).sqrt(),
        },
        residual_interval: ResidualInterval {
            confidence: num(EIGHT_TENTHS),
            lower: quantile_of(sorted, TENTH),
            upper: quantile_of(sorted, NINE_TENTHS),
        },
    }
}

/// The report on samples: a model, or why there is none.
pub open spec fn fitted(
    samples: Seq<CalibrationSample>,
    rejected: Counts,
    configuration: Seq<char>,
    min_samples: usize,
    now: u64,
) -> ReportView {
    if samples.len() < min_samples || samples.len() == 0 {
        ReportView {
            status: CalibrationStatus::InsufficientData,
            reason: Some(
                "history supplied "@ + decimal(samples.len()) + " verified samples; at least "@
                    + decimal(min_samples as nat) + " are required"@,
            ),
            rejected,
            model: None,
            prediction: None,
        }
    } else {
        ReportView {
            status: CalibrationStatus::Applied,
            reason: None,
            rejected,
            model: Some(model_of(samples, configuration, now)),
            prediction: None,
        }
    }
}

fn make_model(samples: &Vec<CalibrationSample>, configuration: &str, now: u64) -> (r:
    HistoryCalibrationModel)
    requires
        samples@.len() > 0,
    ensures
        r@ == model_of(samples@, configuration@, now),
{
    let mut residuals: Vec<Double> = Vec::new();
    let mut i: usize = 0;
    while i < samples.len()
        invariant
            i <= samples@.len(),
            residuals@.len() == i,
            forall|k: int| 0 <= k < i ==> #[trigger] residuals@[k] == samples@[k].residual,
        decreases samples.len() - i,
    {
        residuals.push(samples[i].residual);
        i = i + 1;
    }
    assert(residuals@ == residuals_of(samples@));
    let sorted: Vec<Double> = sort_numbers(&residuals);
    let median: Double = quantile(&sorted, HALF);
    let errors: Vec<Double> = sort_numbers(&distances_from(&sorted, median));
    let n: usize = samples.len();
    HistoryCalibrationModel {
        model_version: CALIBRATION_MODEL_VERSION,
        sample_count: n as u64,
        generated_at_unix_seconds: now,
        newest_sample_age_seconds: age(now, find_end(samples, true)),
        oldest_sample_age_seconds: age(now, find_end(samples, false)),
        applicability: CalibrationApplicability {
            configuration_fingerprint: configuration.to_owned(),
            baseline: "expected_total_time_before_history_calibration".to_owned(),
        },
        median_residual: median,
        error_metrics: CalibrationErrorMetrics {
            median_absolute_error: quantile(&errors, HALF),
            root_mean_squared_error: (sum_squares(&sorted, median) / Double::from_u64(
                n as u64,
            )).sqrt(),
        },
        residual_interval: ResidualInterval {
            confidence: num(EIGHT_TENTHS),
            lower: quantile(&sorted, TENTH),
            upper: quantile(&sorted, NINE_TENTHS),
        },
    }
}

/// The report on samples: a model, or why there is none.
pub fn fit_model(
    samples: Vec<CalibrationSample>,
    rejected_samples: Table<u64>,
    configuration_fingerprint: &str,
    min_samples: usize,
    now: u64,
) -> (r: CalibrationReport)
    ensures
        r@ == fitted(
            samples@,
            rejected_samples@,
            configuration_fingerprint@,
            min_samples,
            now,
        ),
{
    if samples.len() < min_samples || samples.len() == 0 {
        let mut reason: String = "history supplied ".to_owned();
        reason.append(to_decimal(samples.len() as u128).as_str());
        reason.append(" verified samples; at least ");
        reason.append(to_decimal(min_samples as u128).as_str());
        reason.append(" are required");
        return CalibrationReport {
            status: CalibrationStatus::InsufficientData,
            reason: Some(reason),
            rejected_samples,
            model: None,
            prediction: None,
        };
    }
    CalibrationReport {
        status: CalibrationStatus::Applied,
        reason: None,
        rejected_samples,
        model: Some(make_model(&samples, configuration_fingerprint, now)),
        prediction: None,
    }
}

/// The report on the prints in a history, each with the marker of its file, if that could be
/// verified.
pub fn build_history_calibration(
    jobs: &Vec<HistoryJob>,
    markers: &Vec<Option<CalibrationMarker>>,
    configuration_fingerprint: &str,
    max_age_seconds: u64,
    min_samples: usize,
    now: u64,
) -> (r: CalibrationReport)
    requires
        markers@.len() == jobs@.len(),
    ensures
        ({
            let (samples, rejected) = sorted_out(
                jobs@,
                markers@,
                configuration_fingerprint@,
                now,
                max_age_seconds,
                jobs@.len() as int,
            );
            r@ == fitted(samples, rejected, configuration_fingerprint@, min_samples, now)
        }),
{
    let mut samples: Vec<CalibrationSample> = Vec::new();
    let mut rejected: Table<u64> = Table::new();
    let mut i: usize = 0;
    while i < jobs.len()
        invariant
            i <= jobs@.len(),
            markers@.len() == jobs@.len(),
            (samples@, rejected@) == sorted_out(
                jobs@,
                markers@,
                configuration_fingerprint@,
                now,
                max_age_seconds,
                i as int,
            ),
        decreases jobs.len() - i,
    {
        match judge(&jobs[i], &markers[i], configuration_fingerprint, now, max_age_seconds) {
            Ok(sample) => samples.push(sample),
            Err(rejection) => reject(&mut rejected, rejection.text()),
        }
        i = i + 1;
    }
    fit_model(samples, rejected, configuration_fingerprint, min_samples, now)
}

/// The estimate that a model corrects, which never falls below what is certain.
pub open spec fn calibrated(model: HistoryCalibrationModel<Seq<char>>, v: EstimateView) -> Double {
    (v.expected + model.median_residual).max(v.deterministic)
}

/// What a model predicts for an estimate: the corrected time, and the range of most prints.
pub open spec fn prediction_of(
    model: HistoryCalibrationModel<Seq<char>>,
    v: EstimateView,
) -> CalibratedPrediction {
    CalibratedPrediction {
        expected_total_time: calibrated(model, v),
        confidence: model.residual_interval.confidence,
        lower: (v.expected + model.residual_interval.lower).max(v.deterministic),
        upper: (v.expected + model.residual_interval.upper).max(v.deterministic),
    }
}

/// A report without a model.
pub open spec fn unavailable_report(reason: Seq<char>) -> ReportView {
    ReportView {
        status: CalibrationStatus::Unavailable,
        reason: Some(reason),
        rejected: Seq::empty(),
        model: None,
        prediction: None,
    }
}

/// What to ask of the history of prints.
#[derive(Clone, Copy, Debug, PartialEq, Eq, Structural)]
pub struct HistoryRequest {
    pub limit: usize,
    pub max_age_seconds: u64,
    pub min_samples: usize,
}

/// What to ask of the history of prints, or the report that it cannot be asked.
pub fn plan_history_request(
    connected: bool,
    limit: usize,
    max_age_days: u64,
    min_samples: usize,
) -> (r: Result<HistoryRequest, CalibrationReport>)
    ensures
        match r {
            Ok(q) => {
                &&& connected && limit > 0
                &&& q.limit == limit
                &&& q.max_age_seconds == (if max_age_days * 86400 <= u64::MAX {
                    max_age_days * 86400
                } else {
                    u64::MAX as int
                })
                &&& q.min_samples == (if min_samples >= 1 {
                    min_samples
                } else {
                    1
                })
            },
            Err(report) => if connected {
                limit == 0 && report@ == unavailable_report(
                    "history calibration limit must be greater than zero"@,
                )
            } else {
                report@ == unavailable_report(
                    "history calibration requires --config_moonraker_url"@,
                )
            },
        },
{
    if !connected {
        return Err(
            CalibrationReport::unavailable("history calibration requires --config_moonraker_url"),
        );
    }
    if limit == 0 {
        return Err(
            CalibrationReport::unavailable("history calibration limit must be greater than zero"),
        );
    }
    let max_age_seconds: u64 = match max_age_days.checked_mul(86400) {
        Some(seconds) => seconds,
        None => u64::MAX,
    };
    Ok(
        HistoryRequest {
            limit,
            max_age_seconds,
            min_samples: if min_samples >= 1 {
                min_samples
            } else {
                1
            },
        },
    )
}

impl CalibrationReport {
    /// A report without a model.
    pub fn unavailable(reason: &str) -> (r: CalibrationReport)
        ensures
            r@ == unavailable_report(reason@),
    {
        CalibrationReport {
            status: CalibrationStatus::Unavailable,
            reason: Some(reason.to_owned()),
            rejected_samples: Table::new(),
            model: None,
            prediction: None,
        }
    }

    /// Corrects an estimate by the model, if there is one. Certain time stays as it is.
    pub fn apply(&mut self, estimate: &mut DurationEstimate)
        ensures
            match old(self)@.model {
                None => *final(self) == *old(self) && *final(estimate) == *old(estimate),
                Some(model) => {
                    let v = old(estimate)@;
                    let p = prediction_of(model, v);
                    final(estimate)@ == v.with_expected(
                        "history_calibration"@,
                        p.expected_total_time - v.expected,
                    ) && final(self)@ == (ReportView { prediction: Some(p), ..old(self)@ })
                },
            },
    {
        if let Some(model) = &self.model {
            let uncalibrated: Double = estimate.expected_total_time;
            let certain: Double = estimate.deterministic_time;
            let corrected: Double = (uncalibrated + model.median_residual).max(certain);
            let prediction = CalibratedPrediction {
                expected_total_time: corrected,
                confidence: model.residual_interval.confidence,
                lower: (uncalibrated + model.residual_interval.lower).max(certain),
                upper: (uncalibrated + model.residual_interval.upper).max(certain),
            };
            estimate.add_expected("history_calibration", corrected - uncalibrated);
            self.prediction = Some(prediction);
        }
    }
}

/// Calibration changes no certain time, and no time of moves.
pub proof fn calibration_keeps_certain_time(v: EstimateView, adjustment: Double)
    ensures
        v.with_expected("history_calibration"@, adjustment).deterministic == v.deterministic,
        v.with_expected("history_calibration"@, adjustment).motion == v.motion,
        v.with_expected("history_calibration"@, adjustment).omitted == v.omitted,
{
}

/// The sum of the first `i` counts.
pub open spec fn total_count(c: Counts, i: int) -> int
    decreases i,
{
    if i <= 0 {
        0
    } else {
        total_count(c, i - 1) + c[i - 1].1
    }
}

proof fn lemma_total_extends(a: Counts, b: Counts, i: int)
    requires
        i <= a.len(),
        i <= b.len(),
        forall|k: int| 0 <= k < i ==> a[k] == b[k],
    ensures
        total_count(a, i) == total_count(b, i),
    decreases i,
{
    if i > 0 {
        lemma_total_extends(a, b, i - 1);
    }
}

proof fn lemma_total_update(c: Counts, k: int, e: (Seq<char>, u64), i: int)
    requires
        0 <= k < i <= c.len(),
    ensures
        total_count(c.update(k, e), i) == total_count(c, i) - c[k].1 + e.1,
    decreases i,
{
    if k < i - 1 {
        lemma_total_update(c, k, e, i - 1);
    } else {
        lemma_total_extends(c, c.update(k, e), i - 1);
    }
}

proof fn lemma_total_insert(c: Counts, k: int, e: (Seq<char>, u64), i: int)
    requires
        0 <= k <= i <= c.len(),
    ensures
        total_count(c.insert(k, e), i + 1) == total_count(c, i) + e.1,
    decreases i,
{
    if k < i {
        lemma_total_insert(c, k, e, i - 1);
        assert(c.insert(k, e)[i] == c[i - 1]);
    } else {
        lemma_total_extends(c, c.insert(k, e), i);
    }
}

proof fn lemma_count_below_total(c: Counts, k: int, i: int)
    requires
        0 <= k < i <= c.len(),
    ensures
        c[k].1 <= total_count(c, i),
    decreases i,
{
    if i > 0 {
        lemma_total_natural(c, i - 1);
        if k < i - 1 {
            lemma_count_below_total(c, k, i - 1);
        }
    }
}

proof fn lemma_total_natural(c: Counts, i: int)
    requires
        i <= c.len(),
    ensures
        total_count(c, i) >= 0,
    decreases i,
{
    if i > 0 {
        lemma_total_natural(c, i - 1);
    }
}

proof fn lemma_counted(c: Counts, name: Seq<char>)
    requires
        total_count(c, c.len() as int) < u64::MAX,
    ensures
        total_count(counted(c, name), counted(c, name).len() as int) == total_count(
            c,
            c.len() as int,
        ) + 1,
{
    lemma_position(c, name);
    lemma_slot(c, name);
    let n = c.len() as int;
    if has_key(c, name) {
        let k = position(c, name);
        lemma_count_below_total(c, k, n);
        lemma_total_update(c, k, (name, crate::estimate::one_more(c[k].1)), n);
    } else {
        lemma_total_insert(c, slot(c, name), (name, 1u64), n);
    }
}

/// Every print of a history is a sample or is counted as rejected, and none is both.
pub proof fn every_print_is_accounted_for(
    jobs: Seq<HistoryJob>,
    markers: Seq<Option<CalibrationMarker>>,
    configuration: Seq<char>,
    now: u64,
    max_age_seconds: u64,
    i: int,
)
    requires
        0 <= i <= u64::MAX,
    ensures
        ({
            let (samples, rejected) = sorted_out(
                jobs,
                markers,
                configuration,
                now,
                max_age_seconds,
                i,
            );
            samples.len() + total_count(rejected, rejected.len() as int) == i
        }),
    decreases i,
{
    if i > 0 {
        every_print_is_accounted_for(jobs, markers, configuration, now, max_age_seconds, i - 1);
        let (samples, rejected) = sorted_out(
            jobs,
            markers,
            configuration,
            now,
            max_age_seconds,
            i - 1,
        );
        match judged(
            jobs[i - 1],
            marker_view(markers[i - 1]),
            configuration,
            now,
            max_age_seconds,
        ) {
            Ok(_) => {},
            Err(r) => lemma_counted(rejected, rejection_text(r)),
        }
    }
}

} // verus!
