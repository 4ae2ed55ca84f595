//! Estimates as text.

use vstd::prelude::*;

use crate::constants::FILAMENT_RADIUS;
use crate::constants::PI;
use crate::decimal::fixed;
use crate::decimal::format_fixed;
use crate::double::num;
use crate::double::Double;
use crate::double::ZERO;
use crate::duration::Times;
use crate::estimate::format_time;
use crate::estimate::time_text;
use crate::estimate::EstimationSequence;
use crate::estimate::ExtruderEstimation;
use crate::estimate::LayerTimes;
use crate::estimate::RunView;
use crate::kinds::texts;
use crate::planning_move::PlanningMove;
use crate::table::Table;
use crate::text::decimal;
use crate::text::to_decimal;

verus! {

/// Adds a line.
pub fn push_line(out: &mut Vec<String>, t: String)
    ensures
        texts(final(out)@) == texts(old(out)@).push(t@),
{
    let ghost before = out@;
    let ghost v = t@;
    out.push(t);
    assert(texts(out@) == texts(before).push(v));
}

fn labelled(label: &str, value: &str) -> (r: String)
    ensures
        r@ == label@ + value@,
{
    let mut r: String = label.to_owned();
    r.append(value);
    r
}

fn measured(label: &str, x: Double, unit: &str) -> (r: String)
    ensures
        r@ == label@ + fixed(x, 3) + unit@,
{
    let mut r: String = label.to_owned();
    r.append(format_fixed(x, 3).as_str());
    r.append(unit);
    r
}

/// A time in two forms behind a label.
pub open spec fn timed_text(label: Seq<char>, t: Double) -> Seq<char> {
    label + time_text(t) + " ("@ + fixed(t, 3) + "s)"@
}

/// A time in two forms behind a label.
pub fn timed(label: &str, t: Double) -> (r: String)
    ensures
        r@ == timed_text(label@, t),
{
    let mut r: String = label.to_owned();
    r.append(format_time(t).as_str());
    r.append(" (");
    r.append(format_fixed(t, 3).as_str());
    r.append("s)");
    r
}

/// A largest value behind a label, or a dash.
pub open spec fn top_text(label: Seq<char>, x: Option<Double>, unit: Seq<char>) -> Seq<char> {
    match x {
        Some(v) => label + fixed(v, 3) + unit,
        None => label + "-"@,
    }
}

fn top(label: &str, x: Option<Double>, unit: &str) -> (r: String)
    ensures
        r@ == top_text(label@, x, unit@),
{
    match x {
        Some(v) => measured(label, v, unit),
        None => labelled(label, "-"),
    }
}

/// The filament of an extruder.
pub open spec fn extruder_text(name: Seq<char>, x: ExtruderEstimation) -> Seq<char> {
    "   "@ + name + ": net "@ + fixed(x.net_distance, 3) + "mm, extruded "@ + fixed(
        x.extruded_distance,
        3,
    ) + "mm, retracted "@ + fixed(x.retracted_distance, 3) + "mm"@
}

fn extruder_line(name: &str, x: &ExtruderEstimation) -> (r: String)
    ensures
        r@ == extruder_text(name@, *x),
{
    let mut r: String = "   ".to_owned();
    r.append(name);
    r.append(": net ");
    r.append(format_fixed(x.net_distance, 3).as_str());
    r.append("mm, extruded ");
    r.append(format_fixed(x.extruded_distance, 3).as_str());
    r.append("mm, retracted ");
    r.append(format_fixed(x.retracted_distance, 3).as_str());
    r.append("mm");
    r
}

/// The lines of the first `i` extruders.
pub open spec fn extruder_texts(x: Seq<(Seq<char>, ExtruderEstimation)>, i: int) -> Seq<Seq<char>>
    decreases i,
{
    if i <= 0 {
        Seq::empty()
    } else {
        extruder_texts(x, i - 1).push(extruder_text(x[i - 1].0, x[i - 1].1))
    }
}

fn add_extruder_lines(out: &mut Vec<String>, x: &Table<ExtruderEstimation>)
    ensures
        texts(final(out)@) == texts(old(out)@) + extruder_texts(x@, x@.len() as int),
{
    let ghost before = texts(out@);
    let mut i: usize = 0;
    assert(before + Seq::<Seq<char>>::empty() == before);
    while i < x.len()
        invariant
            i <= x@.len(),
            texts(out@) == before + extruder_texts(x@, i as int),
        decreases x@.len() - i,
    {
        push_line(out, extruder_line(x.key_at(i), x.value_at(i)));
        assert(texts(out@) == before + extruder_texts(x@, i + 1));
        i = i + 1;
    }
}

/// The cross section of usual filament.
#[verifier::allow_in_spec]
pub fn filament_section() -> Double
    returns
        num(PI) * num(FILAMENT_RADIUS).squared(),
{
    num(PI) * num(FILAMENT_RADIUS).squared()
}

/// The lines on the distances of a run.
pub open spec fn distance_texts(i: nat, v: RunView) -> Seq<Seq<char>> {
    seq![
        " Run "@ + decimal(i) + ":"@,
        "  Total moves:                 "@ + decimal(v.num_moves as nat),
        "  Total distance:              "@ + fixed(v.total_distance, 3) + "mm"@,
        "  Total extrude distance:      "@ + fixed(v.total_extrude_distance, 3) + "mm"@,
    ]
}

/// The lines on the times of a run.
pub open spec fn time_texts(v: RunView) -> Seq<Seq<char>> {
    seq![
        timed_text("  Motion time:                 "@, v.duration.motion),
        timed_text("  Deterministic time:          "@, v.duration.deterministic),
        timed_text("  Expected total time:         "@, v.duration.expected),
        timed_text("  Total print move time:       "@, v.total_output_time),
        timed_text("  Total extrude-only time:     "@, v.total_extrude_only_time),
        timed_text("  Total travel time:           "@, v.total_travel_time),
    ]
}

/// The lines on the speeds of a run.
pub open spec fn speed_texts(v: RunView) -> Seq<Seq<char>> {
    let volume = v.total_extrude_distance * filament_section();
    seq![
        "  Average speed:               "@ + fixed(v.total_distance / v.duration.total, 3)
            + " mm/s"@,
        top_text("  Top speed:                   "@, v.max_speed, " mm/s"@),
        "  Average flow:                "@ + fixed(volume / v.duration.total, 3) + " mm³/s"@,
        top_text("  Maximum flow:                "@, v.max_flow, " mm³/s"@),
        "  Average flow (output only):  "@ + fixed(volume / v.total_output_time, 3) + " mm³/s"@,
        "  Phases:"@,
        "   Acceleration:               "@ + time_text(v.phase_times.acceleration),
        "   Cruise:                     "@ + time_text(v.phase_times.cruise),
        "   Deceleration:               "@ + time_text(v.phase_times.deceleration),
    ]
}

/// All lines on the totals of a run.
pub open spec fn run_texts(i: nat, v: RunView) -> Seq<Seq<char>> {
    distance_texts(i, v) + extruder_texts(v.extruders, v.extruders.len() as int) + time_texts(v)
        + speed_texts(v)
}

fn distance_lines(i: usize, run: &EstimationSequence) -> (out: Vec<String>)
    ensures
        texts(out@) == distance_texts(i as nat, run@),
{
    let mut out: Vec<String> = Vec::new();
    let mut head: String = labelled(" Run ", to_decimal(i as u128).as_str());
    head.append(":");
    push_line(&mut out, head);
    push_line(
        &mut out,
        labelled("  Total moves:                 ", to_decimal(run.num_moves as u128).as_str()),
    );
    push_line(
        &mut out,
        measured("  Total distance:              ", run.total_distance, "mm"),
    );
    push_line(
        &mut out,
        measured("  Total extrude distance:      ", run.total_extrude_distance, "mm"),
    );
    assert(texts(out@) == distance_texts(i as nat, run@));
    out
}

fn add_time_lines(out: &mut Vec<String>, run: &EstimationSequence)
    ensures
        texts(final(out)@) == texts(old(out)@) + time_texts(run@),
{
    let ghost before = texts(out@);
    push_line(out, timed("  Motion time:                 ", run.duration.motion_time));
    push_line(out, timed("  Deterministic time:          ", run.duration.deterministic_time));
    push_line(out, timed("  Expected total time:         ", run.duration.expected_total_time));
    push_line(out, timed("  Total print move time:       ", run.total_output_time));
    push_line(out, timed("  Total extrude-only time:     ", run.total_extrude_only_time));
    push_line(out, timed("  Total travel time:           ", run.total_travel_time));
    assert(texts(out@) == before + time_texts(run@));
}

fn add_speed_lines(out: &mut Vec<String>, run: &EstimationSequence)
    ensures
        texts(final(out)@) == texts(old(out)@) + speed_texts(run@),
{
    let ghost before = texts(out@);
    let volume: Double = run.total_extrude_distance * filament_section();
    let total: Double = run.duration.total_time;
    push_line(
        out,
        measured("  Average speed:               ", run.total_distance / total, " mm/s"),
    );
    push_line(out, top("  Top speed:                   ", run.max_speed, " mm/s"));
    push_line(out, measured("  Average flow:                ", volume / total, " mm³/s"));
    push_line(out, top("  Maximum flow:                ", run.max_flow, " mm³/s"));
    push_line(
        out,
        measured("  Average flow (output only):  ", volume / run.total_output_time, " mm³/s"),
    );
    push_line(out, "  Phases:".to_owned());
    push_line(
        out,
        labelled(
            "   Acceleration:               ",
            format_time(run.phase_times.acceleration).as_str(),
        ),
    );
    push_line(
        out,
        labelled("   Cruise:                     ", format_time(run.phase_times.cruise).as_str()),
    );
    push_line(
        out,
        labelled(
            "   Deceleration:               ",
            format_time(run.phase_times.deceleration).as_str(),
        ),
    );
    assert(texts(out@) == before + speed_texts(run@));
}

/// The lines on the totals of a run.
pub fn run_lines(i: usize, run: &EstimationSequence) -> (out: Vec<String>)
    ensures
        texts(out@) == run_texts(i as nat, run@),
{
    let mut out: Vec<String> = distance_lines(i, run);
    add_extruder_lines(&mut out, &run.extruders);
    add_time_lines(&mut out, run);
    add_speed_lines(&mut out, run);
    out
}

/// So many spaces.
pub open spec fn spaces(n: int) -> Seq<char> {
    Seq::new(
        if n > 0 {
            n as nat
        } else {
            0
        },
        |i: int| ' ',
    )
}

fn add_spaces(out: &mut String, n: usize)
    ensures
        final(out)@ == old(out)@ + spaces(n as int),
{
    let ghost before = out@;
    let mut i: usize = 0;
    assert(before + spaces(0) == before);
    while i < n
        invariant
            i <= n,
            out@ == before + spaces(i as int),
        decreases n - i,
    {
        out.push(' ');
        assert(out@ == before + spaces(i + 1));
        i = i + 1;
    }
}

/// The time by which kinds are ordered.
#[verifier::allow_in_spec]
pub fn order_time(t: Double) -> Double
    returns
        (if t.is_nan() {
            num(ZERO)
        } else {
            t
        }),
{
    if t.is_nan() {
        num(ZERO)
    } else {
        t
    }
}

/// The number of leading kinds whose time is not above `t`.
pub open spec fn kind_slot(list: Times, t: Double) -> int
    decreases list.len(),
{
    if list.len() == 0 || order_time(t) < order_time(list[0].1) {
        0
    } else {
        1 + kind_slot(list.skip(1), t)
    }
}

/// The first `i` kinds in increasing order of their times.
pub open spec fn kinds_by_time(t: Times, i: int) -> Times
    decreases i,
{
    if i <= 0 {
        Seq::empty()
    } else {
        let prior = kinds_by_time(t, i - 1);
        prior.insert(kind_slot(prior, t[i - 1].1), t[i - 1])
    }
}

pub open spec fn picked_times(t: Times, v: Seq<usize>) -> Times {
    Seq::new(v.len(), |i: int| t[v[i] as int])
}

fn sort_kinds(t: &Table<Double>) -> (r: Vec<usize>)
    ensures
        picked_times(t@, r@) == kinds_by_time(t@, t@.len() as int),
        forall|k: int| 0 <= k < r@.len() ==> #[trigger] r@[k] < t@.len(),
{
    let mut sorted: Vec<usize> = Vec::new();
    let mut i: usize = 0;
    assert(picked_times(t@, sorted@) == Times::empty());
    while i < t.len()
        invariant
            i <= t@.len(),
            picked_times(t@, sorted@) == kinds_by_time(t@, i as int),
            forall|k: int| 0 <= k < sorted@.len() ==> #[trigger] sorted@[k] < t@.len(),
        decreases t@.len() - i,
    {
        let key: Double = order_time(*t.value_at(i));
        let ghost list = picked_times(t@, sorted@);
        let ghost x = t@[i as int].1;
        let mut k: usize = 0;
        assert(list.skip(0) == list);
        while k < sorted.len() && !(key < order_time(*t.value_at(sorted[k])))
            invariant
                k <= sorted@.len(),
                list == picked_times(t@, sorted@),
                key == order_time(x),
                forall|j: int| 0 <= j < sorted@.len() ==> #[trigger] sorted@[j] < t@.len(),
                kind_slot(list, x) == k + kind_slot(list.skip(k as int), x),
            decreases sorted.len() - k,
        {
            assert(list.skip(k as int)[0] == list[k as int]);
            assert(list.skip(k as int).skip(1) == list.skip(k + 1));
            k = k + 1;
        }
        if k < sorted.len() {
            assert(list.skip(k as int)[0] == list[k as int]);
        }
        let ghost before = sorted@;
        sorted.insert(k, i);
        assert(picked_times(t@, sorted@) == list.insert(k as int, t@[i as int]));
        i = i + 1;
    }
    sorted
}

/// The greatest length of the first `i` times as text.
pub open spec fn longest_time(t: Times, i: int) -> nat
    decreases i,
{
    if i <= 0 {
        0
    } else {
        let n = time_text(t[i - 1].1).len();
        let prior = longest_time(t, i - 1);
        if n > prior {
            n
        } else {
            prior
        }
    }
}

fn find_longest_time(t: &Table<Double>) -> (r: usize)
    ensures
        r == longest_time(t@, t@.len() as int),
{
    let mut longest: usize = 0;
    let mut i: usize = 0;
    while i < t.len()
        invariant
            i <= t@.len(),
            longest == longest_time(t@, i as int),
        decreases t@.len() - i,
    {
        let n: usize = format_time(*t.value_at(i)).as_str().unicode_len();
        if n > longest {
            longest = n;
        }
        i = i + 1;
    }
    longest
}

/// The line of a kind: its time, padded, and its name.
pub open spec fn kind_text(name: Seq<char>, t: Double, width: nat) -> Seq<char> {
    "   "@ + time_text(t) + spaces(width - time_text(t).len()) + "     "@ + name
}

/// The lines of kinds, the last of the first `i` first.
pub open spec fn kind_texts(list: Times, width: nat, i: int) -> Seq<Seq<char>>
    decreases i,
{
    if i <= 0 {
        Seq::empty()
    } else {
        seq![kind_text(list[i - 1].0, list[i - 1].1, width)] + kind_texts(list, width, i - 1)
    }
}

/// The lines on the kinds of moves, the longest time first.
pub open spec fn kind_distribution(t: Times) -> Seq<Seq<char>> {
    if t.len() == 0 {
        Seq::empty()
    } else {
        let list = kinds_by_time(t, t.len() as int);
        seq!["  Move kind distribution:"@] + kind_texts(
            list,
            longest_time(t, t.len() as int),
            list.len() as int,
        )
    }
}

/// The lines on the kinds of moves, the longest time first.
pub fn kind_lines(t: &Table<Double>) -> (out: Vec<String>)
    ensures
        texts(out@) == kind_distribution(t@),
{
    let mut out: Vec<String> = Vec::new();
    assert(texts(out@) == Seq::<Seq<char>>::empty());
    if t.len() == 0 {
        return out;
    }
    push_line(&mut out, "  Move kind distribution:".to_owned());
    let width: usize = find_longest_time(t);
    let sorted: Vec<usize> = sort_kinds(t);
    let ghost list = kinds_by_time(t@, t@.len() as int);
    let ghost all = kind_texts(list, width as nat, list.len() as int);
    assert(list.len() == sorted@.len());
    let mut i: usize = sorted.len();
    assert(texts(out@) + all == seq!["  Move kind distribution:"@] + all);
    while i > 0
        invariant
            i <= sorted@.len(),
            t@.len() > 0,
            width == longest_time(t@, t@.len() as int),
            list == picked_times(t@, sorted@),
            list == kinds_by_time(t@, t@.len() as int),
            all == kind_texts(list, width as nat, list.len() as int),
            forall|k: int| 0 <= k < sorted@.len() ==> #[trigger] sorted@[k] < t@.len(),
            texts(out@) + kind_texts(list, width as nat, i as int) == seq![
                "  Move kind distribution:"@,
            ] + all,
        decreases i,
    {
        let at: usize = sorted[i - 1];
        let time: Double = *t.value_at(at);
        let name: &str = t.key_at(at);
        assert(list[i - 1] == (name@, time));
        let text: String = format_time(time);
        let n: usize = text.as_str().unicode_len();
        let mut line: String = labelled("   ", text.as_str());
        if n < width {
            add_spaces(&mut line, width - n);
        } else {
            assert(line@ + spaces(width - n) == line@);
        }
        line.append("     ");
        line.append(name);
        let ghost before = texts(out@);
        let ghost l = line@;
        push_line(&mut out, line);
        proof {
            let rest = kind_texts(list, width as nat, i - 1);
            assert(before + (seq![l] + rest) == before.push(l) + rest);
        }
        i = i - 1;
    }
    assert(texts(out@) + Seq::<Seq<char>>::empty() == texts(out@));
    out
}

/// Heights and times as text.
pub open spec fn layer_cells(l: LayerTimes) -> Seq<(Seq<char>, Seq<char>)> {
    Seq::new(l.len(), |i: int| (fixed(l[i].0, 3), time_text(l[i].1)))
}

/// The greatest length of the first `i` heights or times.
pub open spec fn longest_cell(c: Seq<(Seq<char>, Seq<char>)>, heights: bool, i: int) -> nat
    decreases i,
{
    if i <= 0 {
        0
    } else {
        let n = if heights {
            c[i - 1].0.len()
        } else {
            c[i - 1].1.len()
        };
        let prior = longest_cell(c, heights, i - 1);
        if n > prior {
            n
        } else {
            prior
        }
    }
}

/// The number of rows that a number of cells takes on a terminal.
pub open spec fn row_count(cells: nat, column: nat, width: nat) -> nat {
    let available = if width > 3 {
        width - 3
    } else {
        0
    };
    let columns = if available > column {
        (available - column) / (column + 4) as int + 1
    } else {
        1
    };
    (cells / columns as nat + if cells % columns as nat != 0 {
        1nat
    } else {
        0
    }) as nat
}

fn count_rows(cells: usize, longest_z: usize, longest_t: usize, width: usize) -> (r: usize)
    ensures
        r == row_count(cells as nat, (longest_z + longest_t + 2) as nat, width as nat),
        cells > 0 ==> 0 < r <= cells,
{
    let column: u128 = longest_z as u128 + longest_t as u128 + 2;
    let available: u128 = if width > 3 {
        (width - 3) as u128
    } else {
        0
    };
    let columns: u128 = if available > column {
        (available - column) / (column + 4) + 1
    } else {
        1
    };
    let n: u128 = cells as u128;
    let rows: u128 = n / columns + if n % columns != 0 {
        1
    } else {
        0
    };
    proof {
        assert(rows <= n && (n > 0 ==> rows > 0)) by (nonlinear_arith)
            requires
                columns >= 1,
                rows == n / columns + (if n % columns != 0 {
                    1int
                } else {
                    0int
                }),
        ;
    }
    rows as usize
}

/// A cell: a height and a time, both to the right.
pub open spec fn cell_text(cell: (Seq<char>, Seq<char>), longest_z: nat, longest_t: nat) -> Seq<char> {
    spaces(longest_z - cell.0.len()) + cell.0 + ": "@ + spaces(longest_t - cell.1.len()) + cell.1
}

/// A row from the cell at `index` on, every `rows` cells.
pub open spec fn row_text(
    c: Seq<(Seq<char>, Seq<char>)>,
    rows: nat,
    longest_z: nat,
    longest_t: nat,
    index: nat,
) -> Seq<char>
    decreases
            if index < c.len() {
                c.len() - index
            } else {
                0
            },
{
    if index >= c.len() || rows == 0 {
        Seq::empty()
    } else {
        (if index >= rows {
            "    "@
        } else {
            Seq::empty()
        }) + cell_text(c[index as int], longest_z, longest_t) + row_text(
            c,
            rows,
            longest_z,
            longest_t,
            index + rows,
        )
    }
}

/// The lines on layers for a terminal of some width.
pub open spec fn layer_distribution(l: LayerTimes, width: nat) -> Seq<Seq<char>> {
    if l.len() == 0 {
        Seq::empty()
    } else {
        let c = layer_cells(l);
        let z = longest_cell(c, true, c.len() as int);
        let t = longest_cell(c, false, c.len() as int);
        let rows = row_count(c.len(), z + t + 2, width);
        seq!["  Layer time distribution:"@] + Seq::new(
            rows,
            |i: int| "   "@ + row_text(c, rows, z, t, i as nat),
        )
    }
}

pub open spec fn cells_of(v: Seq<(String, String)>) -> Seq<(Seq<char>, Seq<char>)> {
    Seq::new(v.len(), |i: int| (v[i].0@, v[i].1@))
}

fn make_cells(l: &Vec<(Double, Double)>) -> (r: Vec<(String, String)>)
    ensures
        cells_of(r@) == layer_cells(l@),
{
    let mut cells: Vec<(String, String)> = Vec::new();
    let mut i: usize = 0;
    while i < l.len()
        invariant
            i <= l@.len(),
            cells@.len() == i,
            forall|k: int|
                0 <= k < i ==> (#[trigger] cells@[k]).0@ == fixed(l@[k].0, 3) && cells@[k].1@
                    == time_text(l@[k].1),
        decreases l.len() - i,
    {
        let (z, t): (Double, Double) = l[i];
        cells.push((format_fixed(z, 3), format_time(t)));
        i = i + 1;
    }
    assert(cells_of(cells@) == layer_cells(l@));
    cells
}

fn find_longest_cell(c: &Vec<(String, String)>, heights: bool) -> (r: usize)
    ensures
        r == longest_cell(cells_of(c@), heights, c@.len() as int),
{
    let mut longest: usize = 0;
    let mut i: usize = 0;
    while i < c.len()
        invariant
            i <= c@.len(),
            longest == longest_cell(cells_of(c@), heights, i as int),
        decreases c.len() - i,
    {
        assert(cells_of(c@)[i as int] == (c@[i as int].0@, c@[i as int].1@));
        let n: usize = if heights {
            c[i].0.as_str().unicode_len()
        } else {
            c[i].1.as_str().unicode_len()
        };
        if n > longest {
            longest = n;
        }
        i = i + 1;
    }
    longest
}

fn add_padded(out: &mut String, t: &str, width: usize)
    ensures
        final(out)@ == old(out)@ + spaces(width - t@.len()) + t@,
{
    let ghost before = out@;
    let n: usize = t.unicode_len();
    if n < width {
        add_spaces(out, width - n);
    } else {
        assert(before + spaces(width - n) == before);
    }
    out.append(t);
}

fn make_row(
    c: &Vec<(String, String)>,
    rows: usize,
    longest_z: usize,
    longest_t: usize,
    start: usize,
) -> (r: String)
    requires
        rows > 0,
    ensures
        r@ == "   "@ + row_text(
            cells_of(c@),
            rows as nat,
            longest_z as nat,
            longest_t as nat,
            start as nat,
        ),
{
    let ghost v = cells_of(c@);
    let mut out: String = "   ".to_owned();
    let mut index: usize = start;
    let ghost target = "   "@ + row_text(
        v,
        rows as nat,
        longest_z as nat,
        longest_t as nat,
        start as nat,
    );
    loop
        invariant_except_break
            rows > 0,
            v == cells_of(c@),
            out@ + row_text(
                v,
                rows as nat,
                longest_z as nat,
                longest_t as nat,
                index as nat,
            ) == target,
        ensures
            out@ == target,
        decreases c@.len() - index,
    {
        let ghost done = out@;
        if index >= c.len() {
            assert(done + Seq::<char>::empty() == done);
            break;
        }
        assert(v[index as int] == (c@[index as int].0@, c@[index as int].1@));
        let ghost cell = v[index as int];
        if index >= rows {
            out.append("    ");
        } else {
            assert(done + Seq::<char>::empty() == done);
        }
        add_padded(&mut out, c[index].0.as_str(), longest_z);
        out.append(": ");
        add_padded(&mut out, c[index].1.as_str(), longest_t);
        proof {
            let gap = if index >= rows {
                "    "@
            } else {
                Seq::<char>::empty()
            };
            let rest = row_text(
                v,
                rows as nat,
                longest_z as nat,
                longest_t as nat,
                (index + rows) as nat,
            );
            let text = cell_text(cell, longest_z as nat, longest_t as nat);
            assert(out@ == done + gap + text);
            assert(done + (gap + text + rest) == done + gap + text + rest);
        }
        if c.len() - index <= rows {
            proof {
                assert(row_text(
                    v,
                    rows as nat,
                    longest_z as nat,
                    longest_t as nat,
                    (index + rows) as nat,
                ) == Seq::<char>::empty());
                assert(out@ + Seq::<char>::empty() == out@);
            }
            break;
        }
        index = index + rows;
    }
    out
}

/// The lines on layers for a terminal of some width.
pub fn layer_lines(l: &Vec<(Double, Double)>, width: usize) -> (out: Vec<String>)
    ensures
        texts(out@) == layer_distribution(l@, width as nat),
{
    let mut out: Vec<String> = Vec::new();
    assert(texts(out@) == Seq::<Seq<char>>::empty());
    if l.len() == 0 {
        return out;
    }
    push_line(&mut out, "  Layer time distribution:".to_owned());
    let c: Vec<(String, String)> = make_cells(l);
    let ghost v = layer_cells(l@);
    assert(v.len() == c@.len());
    let z: usize = find_longest_cell(&c, true);
    let t: usize = find_longest_cell(&c, false);
    let rows: usize = count_rows(c.len(), z, t, width);
    let ghost lines = Seq::new(
        rows as nat,
        |i: int| "   "@ + row_text(v, rows as nat, z as nat, t as nat, i as nat),
    );
    let ghost head = seq!["  Layer time distribution:"@];
    let mut i: usize = 0;
    assert(texts(out@) == head + lines.take(0));
    while i < rows
        invariant
            i <= rows,
            v == cells_of(c@),
            lines.len() == rows,
            forall|k: int|
                0 <= k < rows ==> #[trigger] lines[k] == "   "@ + row_text(
                    v,
                    rows as nat,
                    z as nat,
                    t as nat,
                    k as nat,
                ),
            texts(out@) == head + lines.take(i as int),
        decreases rows - i,
    {
        push_line(&mut out, make_row(&c, rows, z, t, i));
        assert(head + lines.take(i + 1) == (head + lines.take(i as int)).push(lines[i as int]));
        i = i + 1;
    }
    assert(lines.take(i as int) == lines);
    out
}

/// The clock of a listing of moves.
#[derive(Clone, Copy, Debug)]
pub struct DumpMovesState {
    pub move_idx: u64,
    pub ctime: Double,
    pub ztime: Double,
}

/// What a move does, as letters.
pub open spec fn move_letters(m: PlanningMove) -> Seq<char> {
    (if m.is_extrude_move() {
        "E"@
    } else {
        Seq::empty()
    }) + if m.is_kinematic_move() {
        "K"@
    } else {
        Seq::empty()
    }
}

impl DumpMovesState {
    #[verifier::allow_in_spec]
    pub fn start() -> DumpMovesState
        returns
            (DumpMovesState {
                move_idx: 0,
                ctime: num(crate::constants::QUARTER),
                ztime: num(ZERO),
            }),
    {
        DumpMovesState {
            move_idx: 0,
            ctime: num(crate::constants::QUARTER),
            ztime: num(ZERO),
        }
    }

    /// The clock after a move.
    #[verifier::allow_in_spec]
    pub fn after(&self, m: &PlanningMove) -> DumpMovesState
        returns
            (DumpMovesState {
                move_idx: crate::estimate::one_more(self.move_idx),
                ctime: self.ctime + m.total_time(),
                ztime: self.ztime + m.total_time(),
            }),
    {
        DumpMovesState {
            move_idx: crate::estimate::one_more(self.move_idx),
            ctime: self.ctime + m.total_time(),
            ztime: self.ztime + m.total_time(),
        }
    }

    /// The heading of the next move.
    pub fn heading(&self, m: &PlanningMove) -> (r: String)
        ensures
            r@ == "N"@ + decimal(crate::estimate::one_more(self.move_idx) as nat) + "["@
                + move_letters(*m) + "] @ "@ + fixed(self.ctime, 8) + " => "@ + fixed(
                self.ctime + m.total_time(),
                8,
            ) + " / z"@ + fixed(self.ztime, 8) + ":"@,
    {
        let mut letters: String = String::new();
        if m.is_extrude_move() {
            letters.append("E");
        }
        if m.is_kinematic_move() {
            letters.append("K");
        }
        assert(letters@ == move_letters(*m));
        let mut r: String = "N".to_owned();
        r.append(to_decimal(crate::estimate::one_more(self.move_idx) as u128).as_str());
        r.append("[");
        r.append(letters.as_str());
        r.append("] @ ");
        r.append(format_fixed(self.ctime, 8).as_str());
        r.append(" => ");
        r.append(format_fixed(self.ctime + m.total_time(), 8).as_str());
        r.append(" / z");
        r.append(format_fixed(self.ztime, 8).as_str());
        r.append(":");
        r
    }
}

/// Three numbers and what they add up to.
pub open spec fn sum_text(
    label: Seq<char>,
    a: Double,
    b: Double,
    c: Double,
    total: Double,
    k: nat,
) -> Seq<char> {
    label + fixed(a, k) + "+"@ + fixed(b, k) + "+"@ + fixed(c, k) + " = "@ + fixed(total, k)
}

fn sum_line(label: &str, a: Double, b: Double, c: Double, total: Double, k: u32) -> (r: String)
    requires
        k <= 9,
    ensures
        r@ == sum_text(label@, a, b, c, total, k as nat),
{
    let mut r: String = label.to_owned();
    r.append(format_fixed(a, k).as_str());
    r.append("+");
    r.append(format_fixed(b, k).as_str());
    r.append("+");
    r.append(format_fixed(c, k).as_str());
    r.append(" = ");
    r.append(format_fixed(total, k).as_str());
    r
}

fn fine(label: &str, x: Double) -> (r: String)
    ensures
        r@ == label@ + fixed(x, 4),
{
    labelled(label, format_fixed(x, 4).as_str())
}

/// The lines on how a move is planned.
pub open spec fn plan_texts(m: PlanningMove) -> Seq<Seq<char>> {
    seq![
        "    Acceleration "@ + fixed(m.acceleration, 4),
        "    Delta v2: "@ + fixed(m.delta_v2, 4),
        "    Max start_v2: "@ + fixed(m.max_start_v2, 4),
        "    Max cruise_v2: "@ + fixed(m.max_cruise_v2, 4),
        "    Next junction_v2: "@ + fixed(m.next_junction_v2, 4),
        "    Max MCR start_v2: "@ + fixed(m.max_mcr_start_v2, 4),
        "    Velocity:   "@ + fixed(m.start_v, 3) + " => "@ + fixed(m.cruise_v, 3) + " => "@
            + fixed(m.end_v, 3),
        sum_text(
            "    Time:       "@,
            m.accel_time(),
            m.cruise_time(),
            m.decel_time(),
            m.total_time(),
            4,
        ),
        sum_text(
            "    Distances:  "@,
            m.accel_distance(),
            m.cruise_distance(),
            m.decel_distance(),
            m.distance,
            3,
        ),
    ]
}

/// The lines on how a move is planned.
pub fn plan_lines(m: &PlanningMove) -> (out: Vec<String>)
    ensures
        texts(out@) == plan_texts(*m),
{
    let mut out: Vec<String> = Vec::new();
    push_line(&mut out, fine("    Acceleration ", m.acceleration));
    push_line(&mut out, fine("    Delta v2: ", m.delta_v2));
    push_line(&mut out, fine("    Max start_v2: ", m.max_start_v2));
    push_line(&mut out, fine("    Max cruise_v2: ", m.max_cruise_v2));
    push_line(&mut out, fine("    Next junction_v2: ", m.next_junction_v2));
    push_line(&mut out, fine("    Max MCR start_v2: ", m.max_mcr_start_v2));
    let mut velocity: String = labelled("    Velocity:   ", format_fixed(m.start_v, 3).as_str());
    velocity.append(" => ");
    velocity.append(format_fixed(m.cruise_v, 3).as_str());
    velocity.append(" => ");
    velocity.append(format_fixed(m.end_v, 3).as_str());
    push_line(&mut out, velocity);
    push_line(
        &mut out,
        sum_line(
            "    Time:       ",
            m.accel_time(),
            m.cruise_time(),
            m.decel_time(),
            m.total_time(),
            4,
        ),
    );
    push_line(
        &mut out,
        sum_line(
            "    Distances:  ",
            m.accel_distance(),
            m.cruise_distance(),
            m.decel_distance(),
            m.distance,
            3,
        ),
    );
    assert(texts(out@) == plan_texts(*m));
    out
}

} // verus!
