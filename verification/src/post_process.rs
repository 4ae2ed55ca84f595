//! Writing estimated times into the comments of a file.

use vstd::prelude::*;

use std::collections::VecDeque;

use crate::calibration::is_marker_line;
use crate::calibration::marker_prefix;
use crate::constants::DAY;
use crate::constants::HOUR;
use crate::constants::HUNDRED;
use crate::constants::MINUTE;
use crate::constants::SIXTY;
use crate::decimal::fixed;
use crate::decimal::format_fixed;
use crate::diagnostics::unsupported_kinematics_of;
use crate::double::num;
use crate::double::Double;
use crate::double::ZERO;
use crate::duration::DurationEstimate;
use crate::duration::EstimateView;
use crate::gcode::command_of;
use crate::gcode::parse_gcode;
use crate::gcode::CommandView;
use crate::gcode::GCodeCommand;
use crate::gcode::GCodeOperation;
use crate::gcode::OperationView;
use crate::kinds::texts;
use crate::kinds::KindView;
use crate::kinematics::Kinematics;
use crate::laws::lemma_step_counted;
use crate::limits::PrinterLimits;
use crate::offline::viewed;
use crate::operations::held;
use crate::operations::operations_of;
use crate::operations::OperationsView;
use crate::operations::PlanningOperation;
use crate::planner::initial_reports;
use crate::planner::transform_reports;
use crate::planner::Planner;
use crate::planner::PlannerView;
use crate::queue_laws::all_sound;
use crate::queue_laws::drained_operations_are_gone;
use crate::queue_laws::planned_queues_run_empty;
use crate::queue_laws::planned_runs_are_sound;
use crate::queue_laws::taken_operations_are_gone;
use crate::text::has_prefix;
use crate::text::same;
use crate::text::starts_with;

verus! {

/// The programs whose files are understood.
#[derive(Clone, Copy, Debug, PartialEq, Eq, Structural)]
pub enum Slicer {
    PrusaSlicer,
    SuperSlicer,
    OrcaSlicer,
    IdeaMaker,
    Cura,
    Simplify3D,
}

/// The index of the first `part` in `s` at or after `i`, or the length of `s`.
pub open spec fn find_text_from(s: Seq<char>, part: Seq<char>, i: int) -> int
    decreases s.len() - i,
{
    if i < 0 || i >= s.len() || i + part.len() > s.len() {
        s.len() as int
    } else if s.subrange(i, i + part.len()) == part {
        i
    } else {
        find_text_from(s, part, i + 1)
    }
}

fn find_text(s: &str, part: &str) -> (r: usize)
    requires
        part@.len() > 0,
    ensures
        r == find_text_from(s@, part@, 0),
        r <= s@.len(),
        r < s@.len() ==> r + part@.len() <= s@.len(),
{
    let n: usize = s.unicode_len();
    let k: usize = part.unicode_len();
    let mut i: usize = 0;
    while i < n && k <= n - i
        invariant
            i <= n,
            n == s@.len(),
            k == part@.len(),
            k > 0,
            find_text_from(s@, part@, 0) == find_text_from(s@, part@, i as int),
        decreases n - i,
    {
        let here: &str = s.substring_char(i, i + k);
        assert(here@ == s@.subrange(i as int, i + k));
        if same(here, part) {
            return i;
        }
        i = i + 1;
    }
    n
}

/// Whether a comment holds a text.
pub open spec fn mentions(comment: Seq<char>, part: Seq<char>) -> bool {
    find_text_from(comment, part, 0) < comment.len()
}

/// The program that a comment names as the origin of a file.
pub open spec fn slicer_of(comment: Seq<char>) -> Option<Slicer> {
    if mentions(comment, "generated by PrusaSlicer"@) {
        Some(Slicer::PrusaSlicer)
    } else if mentions(comment, "generated by SuperSlicer"@) {
        Some(Slicer::SuperSlicer)
    } else if mentions(comment, "generated by OrcaSlicer"@) {
        Some(Slicer::OrcaSlicer)
    } else if mentions(comment, "Sliced by ideaMaker"@) {
        Some(Slicer::IdeaMaker)
    } else if mentions(comment, "Generated with Cura_SteamEngine"@) {
        Some(Slicer::Cura)
    } else if mentions(comment, "generated by Simplify3D"@) {
        Some(Slicer::Simplify3D)
    } else {
        None
    }
}

fn does_mention(comment: &str, part: &str) -> (r: bool)
    requires
        part@.len() > 0,
    ensures
        r == mentions(comment@, part@),
{
    find_text(comment, part) < comment.unicode_len()
}

pub open spec fn slicer_name(s: Slicer) -> Seq<char> {
    match s {
        Slicer::PrusaSlicer => "PrusaSlicer"@,
        Slicer::SuperSlicer => "SuperSlicer"@,
        Slicer::OrcaSlicer => "OrcaSlicer"@,
        Slicer::IdeaMaker => "ideaMaker"@,
        Slicer::Cura => "Cura"@,
        Slicer::Simplify3D => "Simplify3D"@,
    }
}

impl Slicer {
    /// The program that a comment names as the origin of a file.
    pub fn determine(comment: &str) -> (r: Option<Slicer>)
        ensures
            r == slicer_of(comment@),
    {
        proof {
            reveal_strlit("generated by PrusaSlicer");
            reveal_strlit("generated by SuperSlicer");
            reveal_strlit("generated by OrcaSlicer");
            reveal_strlit("Sliced by ideaMaker");
            reveal_strlit("Generated with Cura_SteamEngine");
            reveal_strlit("generated by Simplify3D");
        }
        if does_mention(comment, "generated by PrusaSlicer") {
            Some(Slicer::PrusaSlicer)
        } else if does_mention(comment, "generated by SuperSlicer") {
            Some(Slicer::SuperSlicer)
        } else if does_mention(comment, "generated by OrcaSlicer") {
            Some(Slicer::OrcaSlicer)
        } else if does_mention(comment, "Sliced by ideaMaker") {
            Some(Slicer::IdeaMaker)
        } else if does_mention(comment, "Generated with Cura_SteamEngine") {
            Some(Slicer::Cura)
        } else if does_mention(comment, "generated by Simplify3D") {
            Some(Slicer::Simplify3D)
        } else {
            None
        }
    }

    pub fn name(&self) -> (r: &'static str)
        ensures
            r@ == slicer_name(*self),
    {
        match self {
            Slicer::PrusaSlicer => "PrusaSlicer",
            Slicer::SuperSlicer => "SuperSlicer",
            Slicer::OrcaSlicer => "OrcaSlicer",
            Slicer::IdeaMaker => "ideaMaker",
            Slicer::Cura => "Cura",
            Slicer::Simplify3D => "Simplify3D",
        }
    }
}

/// A line that takes the place of another.
#[derive(Clone, Debug)]
pub enum Rewrite<S = String> {
    Comment(S),
    /// Progress in percent and remaining minutes.
    Progress { percent: S, remaining: S },
}

impl View for Rewrite {
    type V = Rewrite<Seq<char>>;

    open spec fn view(&self) -> Rewrite<Seq<char>> {
        match *self {
            Rewrite::Comment(t) => Rewrite::Comment(t@),
            Rewrite::Progress { percent, remaining } => Rewrite::Progress {
                percent: percent@,
                remaining: remaining@,
            },
        }
    }
}

pub open spec fn rewritten(r: Option<Rewrite>) -> Option<Rewrite<Seq<char>>> {
    match r {
        Some(x) => Some(x@),
        None => None,
    }
}

/// The line as it is written.
pub open spec fn rewrite_text(r: Rewrite<Seq<char>>) -> Seq<char> {
    match r {
        Rewrite::Comment(t) => ";"@ + t,
        Rewrite::Progress { percent, remaining } => "M73 P"@ + percent + " R"@ + remaining,
    }
}

impl Rewrite {
    /// The line as it is written.
    pub fn line(&self) -> (r: String)
        ensures
            r@ == rewrite_text(self@),
    {
        match self {
            Rewrite::Comment(t) => {
                let mut r: String = ";".to_owned();
                r.append(t.as_str());
                r
            },
            Rewrite::Progress { percent, remaining } => {
                let mut r: String = "M73 P".to_owned();
                r.append(percent.as_str());
                r.append(" R");
                r.append(remaining.as_str());
                r
            },
        }
    }
}

/// A number of whole units in front of a mark, if there is any, and what is left.
pub open spec fn whole_part(t: Double, unit: u64, mark: Seq<char>) -> (Seq<char>, Double) {
    let n = (t / num(unit)).floor();
    (
        if n > num(ZERO) {
            " "@ + fixed(n, 0) + mark
        } else {
            Seq::empty()
        },
        t.rem(num(unit)),
    )
}

fn add_whole(out: &mut String, t: Double, unit: u64, mark: &str) -> (r: Double)
    ensures
        ({
            let (part, rest) = whole_part(t, unit, mark@);
            final(out)@ == old(out)@ + part && r == rest
        }),
{
    let ghost before = out@;
    let n: Double = (t / num(unit)).floor();
    if n > num(ZERO) {
        out.append(" ");
        out.append(format_fixed(n, 0).as_str());
        out.append(mark);
        assert(out@ == before + (" "@ + fixed(n, 0) + mark@));
    } else {
        assert(before + Seq::<char>::empty() == before);
    }
    t.rem(num(unit))
}

/// A time such as ` 1d 2h 3m 4s`.
pub open spec fn short_time(t: Double) -> Seq<char> {
    let (d, a) = whole_part(t.ceil(), DAY, "d"@);
    let (h, b) = whole_part(a, HOUR, "h"@);
    let (m, c) = whole_part(b, MINUTE, "m"@);
    d + h + m + " "@ + fixed(c, 0) + "s"@
}

fn format_short_time(t: Double) -> (r: String)
    ensures
        r@ == short_time(t),
{
    let mut out: String = String::new();
    let a: Double = add_whole(&mut out, t.ceil(), DAY, "d");
    proof {
        let (d, x) = whole_part(t.ceil(), DAY, "d"@);
        assert(Seq::<char>::empty() + d == d);
    }
    let b: Double = add_whole(&mut out, a, HOUR, "h");
    let c: Double = add_whole(&mut out, b, MINUTE, "m");
    out.append(" ");
    out.append(format_fixed(c, 0).as_str());
    out.append("s");
    out
}

/// A time such as ` 1 hours 2 minutes 3 sec`.
pub open spec fn long_time(t: Double) -> Seq<char> {
    let (h, a) = whole_part(t.ceil(), HOUR, " hours"@);
    let (m, b) = whole_part(a, MINUTE, " minutes"@);
    h + m + " "@ + fixed(b, 0) + " sec"@
}

fn format_long_time(t: Double) -> (r: String)
    ensures
        r@ == long_time(t),
{
    let mut out: String = String::new();
    let a: Double = add_whole(&mut out, t.ceil(), HOUR, " hours");
    proof {
        let (h, x) = whole_part(t.ceil(), HOUR, " hours"@);
        assert(Seq::<char>::empty() + h == h);
    }
    let b: Double = add_whole(&mut out, a, MINUTE, " minutes");
    out.append(" ");
    out.append(format_fixed(b, 0).as_str());
    out.append(" sec");
    out
}

/// What is noted of a file, and what is written into it.
#[derive(Debug)]
pub enum Interceptor {
    Noop,
    /// PrusaSlicer, SuperSlicer and OrcaSlicer.
    Prusa { times: VecDeque<Double> },
    IdeaMaker { times: VecDeque<Double> },
    Cura { times: VecDeque<Double> },
    Simplify3D,
}

#[derive(Clone, Copy, Debug, PartialEq, Eq, Structural)]
pub enum InterceptorKind {
    Noop,
    Prusa,
    IdeaMaker,
    Cura,
    Simplify3D,
}

#[verifier::ext_equal]
pub struct InterceptorView {
    pub kind: InterceptorKind,
    pub times: Seq<Double>,
}

impl View for Interceptor {
    type V = InterceptorView;

    open spec fn view(&self) -> InterceptorView {
        match *self {
            Interceptor::Noop => InterceptorView {
                kind: InterceptorKind::Noop,
                times: Seq::empty(),
            },
            Interceptor::Prusa { times } => InterceptorView {
                kind: InterceptorKind::Prusa,
                times: times@,
            },
            Interceptor::IdeaMaker { times } => InterceptorView {
                kind: InterceptorKind::IdeaMaker,
                times: times@,
            },
            Interceptor::Cura { times } => InterceptorView {
                kind: InterceptorKind::Cura,
                times: times@,
            },
            Interceptor::Simplify3D => InterceptorView {
                kind: InterceptorKind::Simplify3D,
                times: Seq::empty(),
            },
        }
    }
}

/// Whether a command shows progress.
pub open spec fn shows_progress(op: OperationView) -> bool {
    op matches OperationView::Traditional { letter, code, .. } && letter == 'M' && code == 73
}

fn is_progress(op: &GCodeOperation) -> (r: bool)
    ensures
        r == shows_progress(op@),
{
    match op {
        GCodeOperation::Traditional { letter, code, .. } => *letter == 'M' && *code == 73,
        _ => false,
    }
}

/// Whether a command has a comment that starts with a text.
pub open spec fn comment_starts(c: CommandView, t: Seq<char>) -> bool {
    c.comment matches Some(comment) && has_prefix(comment, t)
}

fn has_comment(c: &GCodeCommand, t: &str) -> (r: bool)
    ensures
        r == comment_starts(c@, t@),
{
    match &c.comment {
        Some(comment) => starts_with(comment.as_str(), t),
        None => false,
    }
}

/// The part of a comment up to an estimated time.
pub open spec fn estimate_label(c: CommandView) -> Option<Seq<char>> {
    match c.comment {
        Some(comment) => {
            let head = " estimated printing time ("@;
            let rest = comment.skip(head.len() as int);
            let end = find_text_from(rest, ") ="@, 0);
            if has_prefix(comment, head) && end < rest.len() {
                Some(comment.take(head.len() + end + ") ="@.len()))
            } else {
                None
            }
        },
        None => None,
    }
}

fn find_estimate_label<'a>(c: &'a GCodeCommand) -> (r: Option<&'a str>)
    ensures
        estimate_label(c@) == match r {
            Some(t) => Some(t@),
            None => None,
        },
{
    match &c.comment {
        Some(comment) => {
            let comment: &'a str = comment.as_str();
            let head: &str = " estimated printing time (";
            match crate::text::strip_prefix(comment, head) {
                Some(rest) => {
                    proof {
                        reveal_strlit(") =");
                    }
                    let end: usize = find_text(rest, ") =");
                    if end < rest.unicode_len() {
                        let n: usize = comment.unicode_len();
                        let k: usize = head.unicode_len();
                        let label: &'a str = comment.substring_char(0, k + end + 3);
                        assert(label@ == comment@.take(k + end + 3));
                        Some(label)
                    } else {
                        None
                    }
                },
                None => None,
            }
        },
        None => None,
    }
}

/// A label with a time in whole seconds, rounded up.
pub open spec fn seconds_comment(label: Seq<char>, t: Double) -> Rewrite<Seq<char>> {
    Rewrite::Comment(label + fixed(t.ceil(), 0))
}

fn write_seconds(label: &str, t: Double) -> (r: Rewrite)
    ensures
        r@ == seconds_comment(label@, t),
{
    let mut text: String = label.to_owned();
    text.append(format_fixed(t.ceil(), 0).as_str());
    Rewrite::Comment(text)
}

/// Progress after a time.
pub open spec fn progress_at(next: Double, total: Double) -> Rewrite<Seq<char>> {
    Rewrite::Progress {
        percent: fixed(next / total * num(HUNDRED), 3),
        remaining: fixed(((total - next) / num(SIXTY)).round(), 0),
    }
}

fn write_progress(next: Double, total: Double) -> (r: Rewrite)
    ensures
        r@ == progress_at(next, total),
{
    Rewrite::Progress {
        percent: format_fixed(next / total * num(HUNDRED), 3),
        remaining: format_fixed(((total - next) / num(SIXTY)).round(), 0),
    }
}

impl InterceptorView {
    /// Whether a command's time is noted.
    pub open spec fn notes(self, c: CommandView) -> bool {
        match self.kind {
            InterceptorKind::Prusa => shows_progress(c.op),
            InterceptorKind::IdeaMaker => comment_starts(c, "PRINTING_TIME: "@),
            InterceptorKind::Cura => comment_starts(c, "TIME_ELAPSED:"@),
            _ => false,
        }
    }

    /// The state after a command that is done at some time.
    pub open spec fn after_command(self, c: CommandView, time: Double) -> InterceptorView {
        if self.notes(c) {
            InterceptorView { times: self.times.push(time), ..self }
        } else {
            self
        }
    }

    /// The state with the first time used up.
    pub open spec fn advanced(self) -> InterceptorView {
        InterceptorView { times: self.times.skip(1), ..self }
    }

    /// What takes the place of a line, and the state after it.
    pub open spec fn output(self, c: CommandView, total: Double) -> (
        InterceptorView,
        Option<Rewrite<Seq<char>>>,
    ) {
        let has_time = self.times.len() > 0;
        match self.kind {
            InterceptorKind::Noop => (self, None),
            InterceptorKind::Prusa => if shows_progress(c.op) && has_time {
                (self.advanced(), Some(progress_at(self.times[0], total)))
            } else {
                match estimate_label(c) {
                    Some(label) => (self, Some(Rewrite::Comment(label + short_time(total)))),
                    None => (self, None),
                }
            },
            InterceptorKind::IdeaMaker => if comment_starts(c, "Print Time: "@) {
                (self, Some(seconds_comment("Print Time: "@, total)))
            } else if comment_starts(c, "PRINTING_TIME: "@) {
                if has_time {
                    (self, Some(seconds_comment("PRINTING_TIME: "@, self.times[0])))
                } else {
                    (self, None)
                }
            } else if comment_starts(c, "REMAINING_TIME: "@) && has_time {
                (
                    self.advanced(),
                    Some(seconds_comment("REMAINING_TIME: "@, total - self.times[0])),
                )
            } else {
                (self, None)
            },
            InterceptorKind::Cura => if comment_starts(c, "TIME:"@) {
                (self, Some(seconds_comment("TIME:"@, total)))
            } else if comment_starts(c, "PRINT.TIME:"@) {
                (self, Some(seconds_comment("PRINT.TIME:"@, total)))
            } else if comment_starts(c, "TIME_ELAPSED:"@) && has_time {
                (self.advanced(), Some(seconds_comment("TIME_ELAPSED:"@, self.times[0])))
            } else {
                (self, None)
            },
            InterceptorKind::Simplify3D => if comment_starts(c, "   Build Time: "@) {
                (self, Some(Rewrite::Comment("   Build Time:"@ + long_time(total.ceil()))))
            } else {
                (self, None)
            },
        }
    }
}

/// What is done with the files of a slicer.
pub open spec fn interceptor_kind(s: Slicer) -> InterceptorKind {
    match s {
        Slicer::PrusaSlicer => InterceptorKind::Prusa,
        Slicer::SuperSlicer => InterceptorKind::Prusa,
        Slicer::OrcaSlicer => InterceptorKind::Prusa,
        Slicer::IdeaMaker => InterceptorKind::IdeaMaker,
        Slicer::Cura => InterceptorKind::Cura,
        Slicer::Simplify3D => InterceptorKind::Simplify3D,
    }
}

/// What is done with the files of a slicer.
pub fn metadata_processor(s: Slicer) -> (r: Interceptor)
    ensures
        r@ == (InterceptorView { kind: interceptor_kind(s), times: Seq::empty() }),
{
    match s {
        Slicer::PrusaSlicer => Interceptor::Prusa { times: VecDeque::new() },
        Slicer::SuperSlicer => Interceptor::Prusa { times: VecDeque::new() },
        Slicer::OrcaSlicer => Interceptor::Prusa { times: VecDeque::new() },
        Slicer::IdeaMaker => Interceptor::IdeaMaker { times: VecDeque::new() },
        Slicer::Cura => Interceptor::Cura { times: VecDeque::new() },
        Slicer::Simplify3D => Interceptor::Simplify3D,
    }
}

fn peek_time(times: &VecDeque<Double>) -> (r: Option<Double>)
    ensures
        r == (if times@.len() > 0 {
            Some(times@[0])
        } else {
            None
        }),
{
    if times.len() > 0 {
        Some(times[0])
    } else {
        None
    }
}

fn next_time(times: &mut VecDeque<Double>) -> (r: Option<Double>)
    ensures
        r == (if old(times)@.len() > 0 {
            Some(old(times)@[0])
        } else {
            None
        }),
        final(times)@ == (if old(times)@.len() > 0 {
            old(times)@.skip(1)
        } else {
            old(times)@
        }),
{
    let ghost before = times@;
    let r: Option<Double> = times.pop_front();
    assert(before.len() > 0 ==> times@ == before.skip(1));
    r
}

impl Interceptor {
    /// Notes the time at which a command is done.
    pub fn post_command(&mut self, command: &GCodeCommand, time: Double)
        ensures
            final(self)@ == old(self)@.after_command(command@, time),
    {
        match self {
            Interceptor::Prusa { times } => {
                if is_progress(&command.op) {
                    times.push_back(time);
                }
            },
            Interceptor::IdeaMaker { times } => {
                if has_comment(command, "PRINTING_TIME: ") {
                    times.push_back(time);
                }
            },
            Interceptor::Cura { times } => {
                if has_comment(command, "TIME_ELAPSED:") {
                    times.push_back(time);
                }
            },
            _ => {},
        }
    }

    /// What takes the place of a line.
    pub fn output_process(&mut self, command: &GCodeCommand, total: Double) -> (r: Option<Rewrite>)
        ensures
            (final(self)@, rewritten(r)) == old(self)@.output(command@, total),
    {
        match self {
            Interceptor::Noop => None,
            Interceptor::Prusa { times } => {
                if is_progress(&command.op) {
                    if let Some(next) = next_time(times) {
                        return Some(write_progress(next, total));
                    }
                }
                match find_estimate_label(command) {
                    Some(label) => {
                        let mut text: String = label.to_owned();
                        text.append(format_short_time(total).as_str());
                        Some(Rewrite::Comment(text))
                    },
                    None => None,
                }
            },
            Interceptor::IdeaMaker { times } => {
                if has_comment(command, "Print Time: ") {
                    Some(write_seconds("Print Time: ", total))
                } else if has_comment(command, "PRINTING_TIME: ") {
                    match peek_time(times) {
                        Some(next) => Some(write_seconds("PRINTING_TIME: ", next)),
                        None => None,
                    }
                } else if has_comment(command, "REMAINING_TIME: ") {
                    match next_time(times) {
                        Some(next) => Some(write_seconds("REMAINING_TIME: ", total - next)),
                        None => None,
                    }
                } else {
                    None
                }
            },
            Interceptor::Cura { times } => {
                if has_comment(command, "TIME:") {
                    Some(write_seconds("TIME:", total))
                } else if has_comment(command, "PRINT.TIME:") {
                    Some(write_seconds("PRINT.TIME:", total))
                } else if has_comment(command, "TIME_ELAPSED:") {
                    match next_time(times) {
                        Some(next) => Some(write_seconds("TIME_ELAPSED:", next)),
                        None => None,
                    }
                } else {
                    None
                }
            },
            Interceptor::Simplify3D => {
                if has_comment(command, "   Build Time: ") {
                    let mut text: String = "   Build Time:".to_owned();
                    text.append(format_long_time(total.ceil()).as_str());
                    Some(Rewrite::Comment(text))
                } else {
                    None
                }
            },
        }
    }
}

impl InterceptorView {
    /// What is written for a line, and the state after it. Old markers are left out.
    pub open spec fn written(self, line: Seq<char>, total: Double) -> (
        InterceptorView,
        Option<Seq<char>>,
    ) {
        if has_prefix(line, marker_prefix()) {
            (self, None)
        } else {
            match command_of(line) {
                Some(c) => {
                    let (after, r) = self.output(c, total);
                    (
                        after,
                        match r {
                            Some(x) => Some(rewrite_text(x)),
                            None => Some(line),
                        },
                    )
                },
                None => (self, Some(line)),
            }
        }
    }
}

impl Interceptor {
    /// What is written for a line. Old markers are left out.
    pub fn write_line(&mut self, line: &str, total: Double) -> (r: Option<String>)
        ensures
            (final(self)@, viewed(r)) == old(self)@.written(line@, total),
    {
        if is_marker_line(line) {
            return None;
        }
        match parse_gcode(line) {
            Some(c) => match self.output_process(&c, total) {
                Some(x) => Some(x.line()),
                None => Some(line.to_owned()),
            },
            None => Some(line.to_owned()),
        }
    }
}

/// The line that is added at the end of a file.
pub open spec fn closing(version: Seq<char>, slicer: Option<Slicer>) -> Seq<char> {
    "; Processed by klipper_estimator "@ + version + ", "@ + match slicer {
        Some(s) => "detected slicer "@ + slicer_name(s),
        None => "no slicer detected"@,
    }
}

/// The line that is added at the end of a file.
pub fn closing_line(version: &str, slicer: Option<Slicer>) -> (r: String)
    ensures
        r@ == closing(version@, slicer),
{
    let mut r: String = "; Processed by klipper_estimator ".to_owned();
    r.append(version);
    r.append(", ");
    let ghost head = r@;
    match slicer {
        Some(s) => {
            r.append("detected slicer ");
            r.append(s.name());
            assert(r@ == head + ("detected slicer "@ + slicer_name(s)));
        },
        None => {
            r.append("no slicer detected");
        },
    }
    r
}

/// An estimate that is kept in step with the commands of a file.
#[derive(Debug)]
pub struct EstimateRunner {
    pub planner: Planner,
    pub duration: DurationEstimate,
    pub total_time: Double,
    pub slicer: Option<Slicer>,
    pub interceptor: Interceptor,
    /// Commands that are not done, each with the number of its operations.
    pub buffer: VecDeque<(usize, GCodeCommand)>,
    pub lines: u64,
}

#[verifier::ext_equal]
pub struct RunnerView {
    pub planner: PlannerView,
    pub estimate: EstimateView,
    pub total: Double,
    pub slicer: Option<Slicer>,
    pub interceptor: InterceptorView,
    pub buffer: Seq<(usize, CommandView)>,
    pub lines: u64,
}

pub open spec fn buffered(v: Seq<(usize, GCodeCommand)>) -> Seq<(usize, CommandView)> {
    Seq::new(v.len(), |i: int| (v[i].0, v[i].1@))
}

impl View for EstimateRunner {
    type V = RunnerView;

    open spec fn view(&self) -> RunnerView {
        RunnerView {
            planner: self.planner@,
            estimate: self.duration@,
            total: self.total_time,
            slicer: self.slicer,
            interceptor: self.interceptor@,
            buffer: buffered(self.buffer@),
            lines: self.lines,
        }
    }
}

impl RunnerView {
    /// The state with a command whose origin may be named.
    pub open spec fn noticing(self, c: CommandView) -> RunnerView {
        match (c.op, self.slicer, c.comment) {
            (OperationView::Nop, None, Some(comment)) => match slicer_of(comment) {
                Some(s) => RunnerView {
                    slicer: Some(s),
                    interceptor: InterceptorView {
                        kind: interceptor_kind(s),
                        times: Seq::empty(),
                    },
                    ..self
                },
                None => self,
            },
            _ => self,
        }
    }

    /// The state after an operation that the planner has finished. It belongs to the command at
    /// the front of the buffer, which is done with its last operation.
    pub open spec fn after_operation(self, op: PlanningOperation<Seq<char>>) -> RunnerView {
        let estimate = self.estimate.with_operation(self.planner.kinds, op);
        let timed = RunnerView { estimate, total: estimate.expected, ..self };
        if self.buffer.len() == 0 {
            timed
        } else {
            let (n, c) = self.buffer[0];
            RunnerView {
                interceptor: self.interceptor.after_command(c, estimate.expected),
                buffer: if n <= 1 {
                    self.buffer.skip(1)
                } else {
                    self.buffer.update(0, ((n - 1) as usize, c))
                },
                ..timed
            }
        }
    }

    /// The state after the first `i` operations.
    pub open spec fn after_operations(self, ops: Seq<PlanningOperation<Seq<char>>>, i: int) -> RunnerView
        decreases i,
    {
        if i <= 0 {
            self
        } else {
            self.after_operations(ops, i - 1).after_operation(ops[i - 1])
        }
    }

    /// The state after the planner has handed out `n` operations, which are all it has.
    pub open spec fn flushed(self, n: nat) -> RunnerView {
        let (v, ops) = self.planner.operations.drained(n);
        RunnerView {
            planner: PlannerView { operations: v.taken(), ..self.planner },
            ..self
        }.after_operations(ops, n as int)
    }

    /// Whether the planner has just `n` operations to hand out.
    pub open spec fn has_ready(self, n: nat) -> bool {
        let (v, ops) = self.planner.operations.drained(n);
        ops.len() == n && v.front() is None
    }

    /// The state with a command planned.
    pub open spec fn planned(self, c: CommandView) -> RunnerView {
        let s = self.noticing(c);
        let p = s.planner.step(c);
        let n = held(p.operations.ops) - held(s.planner.operations.ops);
        RunnerView {
            planner: p,
            buffer: s.buffer.push((n as usize, c)),
            lines: crate::estimate::one_more(s.lines),
            ..s
        }
    }
}

impl EstimateRunner {
    pub open spec fn well_formed(&self) -> bool {
        self.planner.well_formed()
    }

    pub fn new(limits: PrinterLimits) -> (r: EstimateRunner)
        ensures
            r.well_formed(),
            r@.planner.operations == initial_reports(limits),
            r@.planner.toolhead.starts_from(limits),
            r@.planner.kinds == (KindView { names: Seq::empty(), current: None }),
            r@.estimate == EstimateView::empty(),
            r@.total == num(ZERO),
            r@.slicer is None,
            r@.interceptor == (InterceptorView {
                kind: InterceptorKind::Noop,
                times: Seq::empty(),
            }),
            r@.buffer.len() == 0,
            r@.lines == 0,
            in_step(r@),
    {
        proof {
            reports_hold_no_operations(limits);
        }
        EstimateRunner {
            planner: Planner::from_limits(limits),
            duration: DurationEstimate::default(),
            total_time: num(ZERO),
            slicer: None,
            interceptor: Interceptor::Noop,
            buffer: VecDeque::new(),
            lines: 0,
        }
    }

    fn notice(&mut self, cmd: &GCodeCommand)
        ensures
            final(self)@ == old(self)@.noticing(cmd@),
            final(self).planner == old(self).planner,
    {
        if let (GCodeOperation::Nop, None, Some(comment)) = (&cmd.op, self.slicer, &cmd.comment) {
            if let Some(s) = Slicer::determine(comment.as_str()) {
                self.slicer = Some(s);
                self.interceptor = metadata_processor(s);
            }
        }
    }

    fn account(&mut self, op: &PlanningOperation)
        ensures
            final(self)@ == old(self)@.after_operation(op@),
            final(self).planner == old(self).planner,
    {
        let ghost v = self@;
        let ghost raw = self.buffer@;
        self.duration.add_operation(&self.planner, op);
        self.total_time = self.duration.expected_total_time;
        match self.buffer.pop_front() {
            None => {
                assert(buffered(self.buffer@) == v.buffer);
            },
            Some((n, cmd)) => {
                assert(raw[0] == (n, cmd));
                assert(v.buffer[0] == (n, cmd@));
                assert(buffered(self.buffer@) == v.buffer.skip(1));
                self.interceptor.post_command(&cmd, self.total_time);
                if n > 1 {
                    let ghost c = cmd@;
                    self.buffer.push_front((n - 1, cmd));
                    assert(buffered(self.buffer@) == v.buffer.update(0, ((n - 1) as usize, c)));
                }
            },
        }
    }

    /// Accounts for everything that the planner has finished.
    pub fn flush(&mut self)
        requires
            old(self).well_formed(),
        ensures
            final(self).well_formed(),
            exists|n: nat|
                old(self)@.has_ready(n) && final(self)@ == #[trigger] old(self)@.flushed(n),
            in_step(old(self)@) ==> in_step(final(self)@),
    {
        let ghost v = self@;
        let ops: Vec<PlanningOperation> = self.planner.drain();
        let ghost n = ops@.len();
        let ghost all = operations_of(ops@);
        let ghost start = self@;
        proof {
            assert(v.has_ready(n));
        }
        let mut i: usize = 0;
        while i < ops.len()
            invariant
                i <= ops@.len(),
                all == operations_of(ops@),
                self.well_formed(),
                self@ == start.after_operations(all, i as int),
            decreases ops.len() - i,
        {
            assert(all[i as int] == ops@[i as int]@);
            self.account(&ops[i]);
            i = i + 1;
        }
        proof {
            assert(self@ == v.flushed(n));
            if in_step(v) {
                flushes_stay_in_step(*old(self), n);
            }
        }
    }

    /// Plans a command. Every so many lines, what is finished is accounted for.
    pub fn process(&mut self, cmd: GCodeCommand)
        requires
            old(self).well_formed(),
        ensures
            final(self).well_formed(),
            ({
                let v = old(self)@.planned(cmd@);
                if old(self)@.lines % 1000 == 0 {
                    exists|n: nat| v.has_ready(n) && final(self)@ == #[trigger] v.flushed(n)
                } else {
                    final(self)@ == v
                }
            }),
            in_step(old(self)@) ==> in_step(final(self)@),
    {
        let due: bool = self.lines % 1000 == 0;
        self.notice(&cmd);
        let n: usize = self.planner.process_cmd(&cmd);
        let ghost raw = self.buffer@;
        let ghost c = cmd@;
        self.buffer.push_back((n, cmd));
        assert(buffered(self.buffer@) == buffered(raw).push((n, c)));
        self.lines = crate::estimate::one_more(self.lines);
        assert(self@ == old(self)@.planned(c));
        proof {
            if in_step(old(self)@) {
                planned_commands_stay_in_step(old(self)@, c);
            }
        }
        if due {
            self.flush();
        }
    }

    /// Plans and accounts for everything that is still open.
    pub fn finish(&mut self)
        requires
            old(self).well_formed(),
        ensures
            final(self).well_formed(),
            ({
                let v = RunnerView {
                    planner: PlannerView {
                        operations: old(self)@.planner.operations.all_flushed(),
                        ..old(self)@.planner
                    },
                    ..old(self)@
                };
                exists|n: nat| v.has_ready(n) && final(self)@ == #[trigger] v.flushed(n)
            }),
            in_step(old(self)@) ==> final(self)@.buffer.len() == 0,
    {
        self.planner.finalize();
        let ghost v = self@;
        self.flush();
        proof {
            let n = choose|n: nat| v.has_ready(n) && self@ == #[trigger] v.flushed(n);
            let ops = old(self)@.planner.operations;
            planned_runs_are_sound(old(self).planner.operations);
            planned_queues_run_empty(ops, n);
            if in_step(old(self)@) {
                lemma_flushed_planner(v, n);
                lemma_nothing_owed(self@.buffer);
            }
        }
    }
}

/// The total that is written into a file is always the expected total of the estimate.
pub proof fn written_total_is_expected(
    v: RunnerView,
    ops: Seq<PlanningOperation<Seq<char>>>,
    i: int,
)
    requires
        v.total == v.estimate.expected,
    ensures
        v.after_operations(ops, i).total == v.after_operations(ops, i).estimate.expected,
    decreases i,
{
    if i > 0 {
        written_total_is_expected(v, ops, i - 1);
    }
}

/// The estimate of a file does not depend on what is written into it.
pub proof fn estimate_ignores_comments(
    v: RunnerView,
    w: RunnerView,
    ops: Seq<PlanningOperation<Seq<char>>>,
    i: int,
)
    requires
        v.estimate == w.estimate,
        v.planner == w.planner,
    ensures
        v.after_operations(ops, i).estimate == w.after_operations(ops, i).estimate,
        v.after_operations(ops, i).planner == w.after_operations(ops, i).planner,
    decreases i,
{
    if i > 0 {
        estimate_ignores_comments(v, w, ops, i - 1);
    }
}

impl InterceptorView {
    /// The state after the first `i` lines.
    pub open spec fn after_lines(self, lines: Seq<CommandView>, total: Double, i: int) -> InterceptorView
        decreases i,
    {
        if i <= 0 {
            self
        } else {
            self.after_lines(lines, total, i - 1).output(lines[i - 1], total).0
        }
    }
}

/// Progress lines take the noted times in the order in which they were noted.
pub proof fn progress_follows_the_noted_times(
    v: InterceptorView,
    lines: Seq<CommandView>,
    total: Double,
    i: int,
)
    requires
        v.kind == InterceptorKind::Prusa,
        0 <= i < v.times.len(),
        i < lines.len(),
        forall|k: int| 0 <= k < lines.len() ==> shows_progress((#[trigger] lines[k]).op),
    ensures
        v.after_lines(lines, total, i).times == v.times.skip(i),
        v.after_lines(lines, total, i).output(lines[i], total).1 == Some(
            progress_at(v.times[i], total),
        ),
    decreases i,
{
    lemma_after_lines(v, lines, total, i);
    assert(shows_progress(lines[i].op));
}

proof fn lemma_after_lines(v: InterceptorView, lines: Seq<CommandView>, total: Double, i: int)
    requires
        v.kind == InterceptorKind::Prusa,
        0 <= i <= v.times.len(),
        i <= lines.len(),
        forall|k: int| 0 <= k < lines.len() ==> shows_progress((#[trigger] lines[k]).op),
    ensures
        v.after_lines(lines, total, i) == (InterceptorView { times: v.times.skip(i), ..v }),
    decreases i,
{
    if i == 0 {
        assert(v.times.skip(0) == v.times);
    } else {
        lemma_after_lines(v, lines, total, i - 1);
        assert(shows_progress(lines[i - 1].op));
        assert(v.times.skip(i - 1).skip(1) == v.times.skip(i));
    }
}

/// The number of operations that the buffered commands still have to come.
pub open spec fn owed(buffer: Seq<(usize, CommandView)>) -> nat
    decreases buffer.len(),
{
    if buffer.len() == 0 {
        0
    } else {
        owed(buffer.drop_last()) + buffer.last().0 as nat
    }
}

/// Whether the buffered commands are those of the operations that the planner holds.
pub open spec fn in_step(v: RunnerView) -> bool {
    &&& owed(v.buffer) == held(v.planner.operations.ops)
    &&& forall|i: int| 0 <= i < v.buffer.len() ==> (#[trigger] v.buffer[i]).0 >= 1
}

proof fn lemma_owed_front(buffer: Seq<(usize, CommandView)>)
    requires
        buffer.len() > 0,
    ensures
        owed(buffer) == buffer[0].0 + owed(buffer.skip(1)),
    decreases buffer.len(),
{
    if buffer.len() == 1 {
        assert(buffer.drop_last() == buffer.skip(1));
        assert(owed(buffer.skip(1)) == 0);
    } else {
        lemma_owed_front(buffer.drop_last());
        assert(buffer.drop_last().skip(1) == buffer.skip(1).drop_last());
        assert(buffer.skip(1).last() == buffer.last());
    }
}

proof fn lemma_reports(v: OperationsView, names: Seq<Seq<char>>, i: int)
    ensures
        transform_reports(v, names, i).ops == v.ops,
    decreases i,
{
    reveal(OperationsView::with_diagnostic);
    if i > 0 {
        lemma_reports(v, names, i - 1);
    }
}

/// Before the first command nothing is held.
pub proof fn reports_hold_no_operations(limits: PrinterLimits)
    ensures
        held(initial_reports(limits).ops) == 0,
{
    reveal(OperationsView::with_diagnostic);
    let names = texts(limits.motion_transforms.unsupported_active@);
    let empty = OperationsView { ops: Seq::empty(), diagnostics: Seq::empty() };
    lemma_reports(empty, names, names.len() as int);
    if let Kinematics::Unsupported { backend, reason } = limits.kinematics {
        lemma_reports(
            empty.with_diagnostic(unsupported_kinematics_of(backend@, reason@)),
            names,
            names.len() as int,
        );
    }
}

/// A planned command is buffered with just the operations that it adds, also where a mesh splits
/// its moves.
pub proof fn planned_commands_stay_in_step(v: RunnerView, c: CommandView)
    requires
        in_step(v),
        held(v.planner.step(c).operations.ops) - held(v.planner.operations.ops) <= usize::MAX,
    ensures
        in_step(v.planned(c)),
{
    lemma_step_counted(v.planner, c);
    let s = v.noticing(c);
    assert(s.planner == v.planner && s.buffer == v.buffer);
    let w = v.planned(c);
    assert(w.buffer.drop_last() == v.buffer);
    assert forall|i: int| 0 <= i < w.buffer.len() implies (#[trigger] w.buffer[i]).0 >= 1 by {
        if i < v.buffer.len() {
            assert(w.buffer[i] == v.buffer[i]);
        }
    }
}

proof fn lemma_accounted(v: RunnerView, ops: Seq<PlanningOperation<Seq<char>>>, i: int)
    requires
        0 <= i <= owed(v.buffer),
        forall|j: int| 0 <= j < v.buffer.len() ==> (#[trigger] v.buffer[j]).0 >= 1,
    ensures
        ({
            let w = v.after_operations(ops, i);
            &&& owed(w.buffer) + i == owed(v.buffer)
            &&& forall|j: int| 0 <= j < w.buffer.len() ==> (#[trigger] w.buffer[j]).0 >= 1
            &&& w.planner == v.planner
        }),
    decreases i,
{
    if i > 0 {
        lemma_accounted(v, ops, i - 1);
        let b = v.after_operations(ops, i - 1).buffer;
        let w = v.after_operations(ops, i).buffer;
        assert(owed(b) > 0);
        lemma_owed_front(b);
        if b[0].0 > 1 {
            lemma_owed_front(w);
            assert(w.skip(1) == b.skip(1));
        }
        assert forall|j: int| 0 <= j < w.len() implies (#[trigger] w[j]).0 >= 1 by {
            if b[0].0 <= 1 {
                assert(w[j] == b[j + 1]);
            } else if j > 0 {
                assert(w[j] == b[j]);
            }
        }
    }
}

/// Accounting for the finished operations keeps the rest in step: each operation belongs to the
/// command that it came from.
pub proof fn flushes_stay_in_step(runner: EstimateRunner, n: nat)
    requires
        runner.well_formed(),
        in_step(runner@),
        runner@.has_ready(n),
    ensures
        in_step(runner@.flushed(n)),
{
    let v = runner@;
    planned_runs_are_sound(runner.planner.operations);
    let (rest, ops) = v.planner.operations.drained(n);
    drained_operations_are_gone(v.planner.operations, n);
    taken_operations_are_gone(rest);
    let s = RunnerView {
        planner: PlannerView { operations: rest.taken(), ..v.planner },
        ..v
    };
    lemma_accounted(s, ops, n as int);
}

proof fn lemma_flushed_planner(v: RunnerView, n: nat)
    requires
        in_step(v),
        v.has_ready(n),
        all_sound(v.planner.operations.ops),
    ensures
        v.flushed(n).planner.operations == v.planner.operations.drained(n).0.taken(),
{
    let (rest, ops) = v.planner.operations.drained(n);
    drained_operations_are_gone(v.planner.operations, n);
    let s = RunnerView {
        planner: PlannerView { operations: rest.taken(), ..v.planner },
        ..v
    };
    lemma_accounted(s, ops, n as int);
}

proof fn lemma_nothing_owed(buffer: Seq<(usize, CommandView)>)
    requires
        owed(buffer) == 0,
        forall|i: int| 0 <= i < buffer.len() ==> (#[trigger] buffer[i]).0 >= 1,
    ensures
        buffer.len() == 0,
{
    if buffer.len() > 0 {
        lemma_owed_front(buffer);
    }
}

} // verus!
