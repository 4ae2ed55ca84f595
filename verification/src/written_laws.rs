//! What holds of a file that estimates were written into.

use vstd::prelude::*;
use vstd::utf8::encode_utf8;
use vstd::utf8::encode_utf8_valid_utf8;
use vstd::utf8::valid_utf8;
use vstd::utf8::valid_utf8_concat;

use crate::calibration::ascii;
use crate::calibration::lemma_prefix_bytes;
use crate::calibration::marker_fault;
use crate::calibration::marker_in;
use crate::calibration::marker_prefix;
use crate::calibration::marker_round_trip;
use crate::calibration::stands_at;
use crate::calibration::CalibrationMarker;
use crate::calibration::CALIBRATION_MARKER_SCHEMA_VERSION;
use crate::double::Double;
use crate::fingerprint::file_fingerprint;
use crate::gcode::command_of;
use crate::gcode::CommandView;
use crate::post_process::closing;
use crate::post_process::estimate_label;
use crate::post_process::find_text_from;
use crate::post_process::rewrite_text;
use crate::post_process::InterceptorKind;
use crate::post_process::InterceptorView;
use crate::post_process::Slicer;
use crate::text::has_prefix;

verus! {

/// The lines that are written for the first `i` lines of a file, and the state after them.
pub open spec fn written_lines(
    v: InterceptorView,
    lines: Seq<Seq<char>>,
    total: Double,
    i: int,
) -> (InterceptorView, Seq<Seq<char>>)
    decreases i,
{
    if i <= 0 {
        (v, Seq::empty())
    } else {
        let (w, out) = written_lines(v, lines, total, i - 1);
        let (after, line) = w.written(lines[i - 1], total);
        (
            after,
            match line {
                Some(t) => out.push(t),
                None => out,
            },
        )
    }
}

/// The lines of a written file in front of its marker.
pub open spec fn marked_lines(
    v: InterceptorView,
    lines: Seq<Seq<char>>,
    total: Double,
    version: Seq<char>,
    slicer: Option<Slicer>,
) -> Seq<Seq<char>> {
    written_lines(v, lines, total, lines.len() as int).1.push(closing(version, slicer))
}

/// Lines as one text, each with its end.
pub open spec fn lines_text(lines: Seq<Seq<char>>) -> Seq<char>
    decreases lines.len(),
{
    if lines.len() == 0 {
        Seq::empty()
    } else {
        lines_text(lines.drop_last()) + lines.last().push('\n')
    }
}

/// The bytes of a written file: its lines, and the marker on a line of its own.
pub open spec fn written_file(lines: Seq<Seq<char>>, encoded: Seq<u8>) -> Seq<u8> {
    encode_utf8(lines_text(lines)) + ascii(marker_prefix()) + encoded + seq![10u8]
}

/// A text with another character early on is no marker.
proof fn lemma_no_marker(s: Seq<char>, k: int)
    requires
        0 <= k < 33,
        k < s.len() ==> s[k] != marker_prefix()[k],
    ensures
        !has_prefix(s, marker_prefix()),
{
    lemma_prefix_bytes();
    assert(ascii(marker_prefix()).len() == marker_prefix().len());
    if has_prefix(s, marker_prefix()) {
        assert(s.take(33)[k] == s[k]);
    }
}

proof fn lemma_found_text(s: Seq<char>, part: Seq<char>, i: int)
    requires
        i >= 0,
    ensures
        find_text_from(s, part, i) < s.len() ==> i <= find_text_from(s, part, i) <= s.len()
            - part.len(),
    decreases s.len() - i,
{
    if i < s.len() && i + part.len() <= s.len() && s.subrange(i, i + part.len()) != part {
        lemma_found_text(s, part, i + 1);
    }
}

proof fn lemma_rewritten(v: InterceptorView, c: CommandView, total: Double)
    ensures
        v.output(c, total).1 matches Some(r) ==> !has_prefix(rewrite_text(r), marker_prefix()),
{
    lemma_prefix_bytes();
    reveal_strlit(";");
    reveal_strlit("M73 P");
    reveal_strlit("Print Time: ");
    reveal_strlit("PRINTING_TIME: ");
    reveal_strlit("REMAINING_TIME: ");
    reveal_strlit("TIME:");
    reveal_strlit("PRINT.TIME:");
    reveal_strlit("TIME_ELAPSED:");
    reveal_strlit("   Build Time:");
    reveal_strlit(" estimated printing time (");
    if let Some(r) = v.output(c, total).1 {
        let t = rewrite_text(r);
        match v.kind {
            InterceptorKind::Prusa => {
                if let Some(label) = estimate_label(c) {
                    let comment = c.comment->0;
                    let head = " estimated printing time ("@;
                    lemma_found_text(comment.skip(head.len() as int), ") ="@, 0);
                    assert(comment.take(head.len() as int)[1] == comment[1]);
                    assert(label[0] == comment[0]);
                    assert(label[1] == comment[1]);
                    assert(comment[1] == 'e');
                }
                if t[0] == ';' {
                    assert(t[2] == 'e');
                    lemma_no_marker(t, 2);
                } else {
                    lemma_no_marker(t, 0);
                }
            },
            InterceptorKind::Simplify3D => {
                assert(t[2] == ' ');
                lemma_no_marker(t, 2);
            },
            _ => {
                assert(t[1] != ' ');
                lemma_no_marker(t, 1);
            },
        }
    }
}

proof fn lemma_closing(version: Seq<char>, slicer: Option<Slicer>)
    ensures
        !has_prefix(closing(version, slicer), marker_prefix()),
{
    lemma_prefix_bytes();
    reveal_strlit("; Processed by klipper_estimator ");
    assert(closing(version, slicer)[2] == 'P');
    lemma_no_marker(closing(version, slicer), 2);
}

proof fn lemma_written(v: InterceptorView, lines: Seq<Seq<char>>, total: Double, i: int)
    requires
        0 <= i <= lines.len(),
    ensures
        forall|k: int|
            0 <= k < written_lines(v, lines, total, i).1.len() ==> !has_prefix(
                #[trigger] written_lines(v, lines, total, i).1[k],
                marker_prefix(),
            ),
    decreases i,
{
    if i > 0 {
        lemma_written(v, lines, total, i - 1);
        let w = written_lines(v, lines, total, i - 1).0;
        if let Some(c) = command_of(lines[i - 1]) {
            lemma_rewritten(w, c, total);
        }
    }
}

proof fn lemma_encoded_sum(a: Seq<char>, b: Seq<char>)
    ensures
        encode_utf8(a + b) == encode_utf8(a) + encode_utf8(b),
    decreases a.len(),
{
    if a.len() == 0 {
        assert(a + b == b);
    } else {
        assert((a + b).drop_first() == a.drop_first() + b);
        lemma_encoded_sum(a.drop_first(), b);
    }
}

proof fn lemma_encoded_ascii(s: Seq<char>)
    requires
        forall|i: int| 0 <= i < s.len() ==> (#[trigger] s[i]) as u32 <= 0x7f,
    ensures
        encode_utf8(s) == ascii(s),
    decreases s.len(),
{
    if s.len() > 0 {
        let t = s.drop_first();
        assert forall|i: int| 0 <= i < t.len() implies (#[trigger] t[i]) as u32 <= 0x7f by {
            assert(t[i] == s[i + 1]);
        }
        lemma_encoded_ascii(t);
        let c = s[0] as u32;
        assert((c & 0x7f) == c) by (bit_vector)
            requires
                c <= 0x7f,
        ;
        assert(vstd::utf8::encode_scalar(c) == seq![c as u8]);
        assert(ascii(s) == seq![c as u8] + ascii(t));
    }
}

/// A written file has just one marker, on its last line, and the marker is found and accepted if
/// it holds the fingerprint of all bytes in front of it. `encoded` is the encoding of the marker,
/// which does not hold the prefix itself.
pub proof fn written_files_have_one_marker(
    v: InterceptorView,
    lines: Seq<Seq<char>>,
    total: Double,
    version: Seq<char>,
    slicer: Option<Slicer>,
    encoded: Seq<u8>,
    m: CalibrationMarker<Seq<char>>,
)
    requires
        encoded.len() > 0,
        valid_utf8(encoded),
        forall|i: int| 0 <= i < encoded.len() ==> #[trigger] encoded[i] != 10 && encoded[i] != 13,
        forall|i: int| !stands_at(encoded, ascii(marker_prefix()), i),
        m.schema_version == CALIBRATION_MARKER_SCHEMA_VERSION,
    ensures
        ({
            let out = marked_lines(v, lines, total, version, slicer);
            let body = encode_utf8(lines_text(out));
            let file = written_file(out, encoded);
            let start = body.len() as int;
            let from = start + ascii(marker_prefix()).len();
            &&& forall|k: int|
                0 <= k < out.len() ==> !has_prefix(#[trigger] out[k], marker_prefix())
            &&& marker_in(file) == Ok::<(int, int, int), crate::calibration::MarkerFault>(
                (start, from, file.len() - 1),
            )
            &&& file.subrange(from, file.len() - 1) == encoded
            &&& marker_fault(m, file, start) is None <==> m.gcode_fingerprint == file_fingerprint(
                body,
            )
        }),
{
    let out = marked_lines(v, lines, total, version, slicer);
    let text = lines_text(out);
    let body = encode_utf8(text);
    let prefix = ascii(marker_prefix());
    lemma_written(v, lines, total, lines.len() as int);
    lemma_closing(version, slicer);
    lemma_prefix_bytes();
    assert(prefix.len() == marker_prefix().len());
    // the text ends with the end of a line
    let rest = lines_text(out.drop_last()) + out.last();
    assert(text == rest + seq!['\n']);
    lemma_encoded_sum(rest, seq!['\n']);
    lemma_encoded_ascii(seq!['\n']);
    assert(10u32 as u8 == 10u8) by (bit_vector);
    assert(ascii(seq!['\n'])[0] == 10);
    assert(body.last() == 10);
    // every part is a text
    lemma_encoded_ascii(marker_prefix());
    encode_utf8_valid_utf8(text);
    encode_utf8_valid_utf8(marker_prefix());
    encode_utf8_valid_utf8(seq!['\n']);
    assert(ascii(seq!['\n']) == seq![10u8]);
    valid_utf8_concat(body, prefix);
    valid_utf8_concat(body + prefix, encoded);
    valid_utf8_concat(body + prefix + encoded, seq![10u8]);
    marker_round_trip(body, encoded, m);
}

} // verus!
