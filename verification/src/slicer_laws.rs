//! How files of slicers are recognised, and what is written into them.

use vstd::prelude::*;

use crate::calibration::marker_prefix;
use crate::double::Double;
use crate::gcode::command_of;
use crate::gcode::CommandView;
use crate::post_process::comment_starts;
use crate::post_process::find_text_from;
use crate::post_process::interceptor_kind;
use crate::post_process::long_time;
use crate::post_process::mentions;
use crate::post_process::rewrite_text;
use crate::post_process::short_time;
use crate::post_process::shows_progress;
use crate::post_process::slicer_of;
use crate::post_process::InterceptorKind;
use crate::post_process::InterceptorView;
use crate::post_process::Rewrite;
use crate::post_process::RunnerView;
use crate::post_process::Slicer;
use crate::text::has_prefix;

verus! {

proof fn lemma_found(s: Seq<char>, part: Seq<char>, i: int)
    requires
        0 <= i,
        part.len() > 0,
    ensures
        find_text_from(s, part, i) <= s.len(),
        find_text_from(s, part, i) < s.len() ==> {
            let k = find_text_from(s, part, i);
            &&& i <= k && k + part.len() <= s.len()
            &&& s.subrange(k, k + part.len()) == part
        },
        forall|k: int|
            i <= k && k + part.len() <= s.len() && #[trigger] s.subrange(k, k + part.len()) == part
                ==> find_text_from(s, part, i) <= k,
    decreases s.len() - i,
{
    if !(i >= s.len() || i + part.len() > s.len()) && s.subrange(i, i + part.len()) != part {
        lemma_found(s, part, i + 1);
    }
}

/// A comment mentions the texts that it holds, wherever they stand, and no others.
pub proof fn comments_mention_what_they_hold(
    before: Seq<char>,
    part: Seq<char>,
    after: Seq<char>,
    comment: Seq<char>,
)
    requires
        part.len() > 0,
    ensures
        mentions(before + part + after, part),
        mentions(comment, part) ==> exists|k: int|
            0 <= k && k + part.len() <= comment.len() && #[trigger] comment.subrange(
                k,
                k + part.len(),
            ) == part,
{
    let s = before + part + after;
    let k = before.len() as int;
    lemma_found(s, part, 0);
    assert(s.subrange(k, k + part.len()) == part);
    lemma_found(comment, part, 0);
}

/// How a slicer names itself in its files.
pub open spec fn signature(s: Slicer) -> Seq<char> {
    match s {
        Slicer::PrusaSlicer => "generated by PrusaSlicer"@,
        Slicer::SuperSlicer => "generated by SuperSlicer"@,
        Slicer::OrcaSlicer => "generated by OrcaSlicer"@,
        Slicer::IdeaMaker => "Sliced by ideaMaker"@,
        Slicer::Cura => "Generated with Cura_SteamEngine"@,
        Slicer::Simplify3D => "generated by Simplify3D"@,
    }
}

/// A slicer is recognised by how it names itself, and one that does not name itself is not.
pub proof fn slicers_are_recognised_by_their_names(comment: Seq<char>, s: Slicer)
    ensures
        slicer_of(comment) matches Some(found) ==> mentions(comment, signature(found)),
        slicer_of(comment) is None ==> !mentions(comment, signature(s)),
        mentions(comment, signature(s)) && (forall|o: Slicer|
            o != s ==> !mentions(comment, #[trigger] signature(o))) ==> slicer_of(comment) == Some(
            s,
        ),
{
    if mentions(comment, signature(s)) && (forall|o: Slicer|
        o != s ==> !mentions(comment, #[trigger] signature(o))) {
        match slicer_of(comment) {
            Some(found) => {
                assert(mentions(comment, signature(found)));
            },
            None => {},
        }
    }
}

/// The first line that names a slicer decides what is written, and later lines change nothing of
/// it. Only lines without a command are read for it.
pub proof fn first_names_count(v: RunnerView, c: CommandView)
    ensures
        v.slicer is Some ==> v.noticing(c) == v,
        !(c.op is Nop) ==> v.noticing(c) == v,
        c.comment is None ==> v.noticing(c) == v,
        v.slicer is None && c.op is Nop ==> (c.comment matches Some(comment) ==> (slicer_of(
            comment,
        ) matches Some(s) ==> v.noticing(c).slicer == Some(s) && v.noticing(c).interceptor.kind
            == interceptor_kind(s) && v.noticing(c).interceptor.times.len() == 0)),
{
}

/// Files of PrusaSlicer, SuperSlicer and OrcaSlicer are treated alike, and those of any other
/// slicer in a way of their own.
pub proof fn kindred_slicers_are_treated_alike()
    ensures
        interceptor_kind(Slicer::PrusaSlicer) == InterceptorKind::Prusa,
        interceptor_kind(Slicer::SuperSlicer) == InterceptorKind::Prusa,
        interceptor_kind(Slicer::OrcaSlicer) == InterceptorKind::Prusa,
        interceptor_kind(Slicer::IdeaMaker) == InterceptorKind::IdeaMaker,
        interceptor_kind(Slicer::Cura) == InterceptorKind::Cura,
        interceptor_kind(Slicer::Simplify3D) == InterceptorKind::Simplify3D,
{
}

proof fn lemma_end(mode: Seq<char>, rest: Seq<char>)
    requires
        forall|k: int| 0 <= k < mode.len() ==> mode[k] != ')',
    ensures
        find_text_from(mode + ") ="@ + rest, ") ="@, 0) == mode.len(),
        mode.len() < (mode + ") ="@ + rest).len(),
{
    let end = ") ="@;
    let tail = mode + end + rest;
    let m = mode.len() as int;
    reveal_strlit(") =");
    assert(end.len() == 3 && end[0] == ')');
    lemma_found(tail, end, 0);
    assert(tail.subrange(m, m + end.len()) == end);
    let k = find_text_from(tail, end, 0);
    if k < m {
        assert(tail.subrange(k, k + end.len())[0] == mode[k]);
    }
}

/// The estimated time of a file takes the place of the time that the slicer has written, behind
/// the same words.
pub proof fn estimates_replace_those_of_slicers(
    v: InterceptorView,
    c: CommandView,
    total: Double,
    mode: Seq<char>,
    rest: Seq<char>,
)
    requires
        !shows_progress(c.op),
        forall|k: int| 0 <= k < mode.len() ==> mode[k] != ')',
        c.comment == Some(" estimated printing time ("@ + mode + ") ="@ + rest),
    ensures
        v.kind == InterceptorKind::Prusa ==> v.output(c, total) == (
            v,
            Some(
                Rewrite::Comment(
                    " estimated printing time ("@ + mode + ") ="@ + short_time(total),
                ),
            ),
        ),
{
    let head = " estimated printing time ("@;
    let end = ") ="@;
    let comment = head + mode + end + rest;
    let n = head.len() as int;
    let m = mode.len() as int;
    let tail = mode + end + rest;
    assert(comment.take(n) == head);
    assert(comment.skip(n) == tail);
    lemma_end(mode, rest);
    assert(comment.take(n + m + end.len()) == head + mode + end);
}

/// Files of Simplify3D have one line with their time.
pub proof fn build_times_are_replaced(v: InterceptorView, c: CommandView, total: Double)
    requires
        v.kind == InterceptorKind::Simplify3D,
    ensures
        comment_starts(c, "   Build Time: "@) ==> v.output(c, total) == (
            v,
            Some(Rewrite::Comment("   Build Time:"@ + long_time(total.ceil()))),
        ),
        !comment_starts(c, "   Build Time: "@) ==> v.output(c, total) == (
            v,
            None::<Rewrite<Seq<char>>>,
        ),
{
}

/// A line stays as it is unless something takes its place. Old markers are left out.
pub proof fn other_lines_stay_as_they_are(v: InterceptorView, line: Seq<char>, total: Double)
    ensures
        has_prefix(line, marker_prefix()) ==> v.written(line, total) == (v, None::<Seq<char>>),
        !has_prefix(line, marker_prefix()) && command_of(line) is None ==> v.written(line, total)
            == (v, Some(line)),
        !has_prefix(line, marker_prefix()) && v.kind == InterceptorKind::Noop ==> v.written(
            line,
            total,
        ) == (v, Some(line)),
        !has_prefix(line, marker_prefix()) ==> (command_of(line) matches Some(c) ==> v.written(
            line,
            total,
        ).0 == v.output(c, total).0 && v.written(line, total).1 == match v.output(c, total).1 {
            Some(r) => Some(rewrite_text(r)),
            None => Some(line),
        }),
{
}

} // verus!
