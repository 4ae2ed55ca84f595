//! What reports list, and in which order.

use vstd::prelude::*;

use crate::calibration_laws::lemma_inserted;
use crate::constants::FILAMENT_RADIUS;
use crate::constants::PI;
use crate::decimal::fixed;
use crate::double::num;
use crate::double::Double;
use crate::duration::Times;
use crate::estimate::time_text;
use crate::estimate::RunView;
use crate::report::kind_distribution;
use crate::report::kind_slot;
use crate::report::kind_text;
use crate::report::kind_texts;
use crate::report::kinds_by_time;
use crate::report::longest_time;
use crate::report::order_time;
use crate::report::row_count;
use crate::report::run_texts;

verus! {

/// Whether kinds stand in the order of their times, the shortest first.
pub open spec fn by_time(list: Times) -> bool {
    forall|i: int, j: int|
        0 <= i <= j < list.len() ==> order_time((#[trigger] list[i]).1) <= order_time(
            (#[trigger] list[j]).1,
        )
}

proof fn lemma_kind_slot(list: Times, t: Double)
    ensures
        0 <= kind_slot(list, t) <= list.len(),
        forall|j: int|
            0 <= j < kind_slot(list, t) ==> order_time((#[trigger] list[j]).1) <= order_time(t),
        kind_slot(list, t) < list.len() ==> order_time(t) <= order_time(
            list[kind_slot(list, t)].1,
        ),
    decreases list.len(),
{
    crate::rounding::lemma_two52();
    if list.len() > 0 && !(order_time(t) < order_time(list[0].1)) {
        let rest = list.skip(1);
        lemma_kind_slot(rest, t);
        assert forall|j: int| 0 <= j < kind_slot(list, t) implies order_time(
            (#[trigger] list[j]).1,
        ) <= order_time(t) by {
            if j > 0 {
                assert(rest[j - 1] == list[j]);
            }
        }
    }
}

proof fn lemma_by_time(t: Times, n: int)
    requires
        0 <= n <= t.len(),
    ensures
        by_time(kinds_by_time(t, n)),
        kinds_by_time(t, n).len() == n,
        kinds_by_time(t, n).to_multiset() == t.take(n).to_multiset(),
    decreases n,
{
    broadcast use vstd::seq_lib::group_to_multiset_ensures;

    crate::rounding::lemma_two52();
    if n > 0 {
        lemma_by_time(t, n - 1);
        let prior = kinds_by_time(t, n - 1);
        let x = t[n - 1];
        let k = kind_slot(prior, x.1);
        lemma_kind_slot(prior, x.1);
        let list = prior.insert(k, x);
        assert forall|i: int, j: int| 0 <= i <= j < list.len() implies order_time(
            (#[trigger] list[i]).1,
        ) <= order_time((#[trigger] list[j]).1) by {
            let a = if i < k {
                i
            } else {
                i - 1
            };
            let b = if j < k {
                j
            } else {
                j - 1
            };
            if i != k {
                assert(list[i] == prior[a]);
            }
            if j != k {
                assert(list[j] == prior[b]);
            }
            if i == k && j > k {
                assert(order_time(prior[k].1) <= order_time(prior[b].1));
            }
        }
        lemma_inserted(prior, k, x);
        assert(t.take(n) == t.take(n - 1).push(x));
    } else {
        assert(t.take(0) == Times::empty());
    }
}

proof fn lemma_texts(list: Times, width: nat, n: int)
    requires
        0 <= n <= list.len(),
    ensures
        kind_texts(list, width, n).len() == n,
        forall|k: int|
            0 <= k < n ==> #[trigger] kind_texts(list, width, n)[k] == kind_text(
                list[n - 1 - k].0,
                list[n - 1 - k].1,
                width,
            ),
    decreases n,
{
    if n > 0 {
        lemma_texts(list, width, n - 1);
        let rest = kind_texts(list, width, n - 1);
        assert forall|k: int| 0 <= k < n implies #[trigger] kind_texts(list, width, n)[k]
            == kind_text(list[n - 1 - k].0, list[n - 1 - k].1, width) by {
            if k > 0 {
                assert(kind_texts(list, width, n)[k] == rest[k - 1]);
            }
        }
    }
}

proof fn lemma_longest(t: Times, n: int, i: int)
    requires
        0 <= i < n <= t.len(),
    ensures
        time_text(t[i].1).len() <= longest_time(t, n),
    decreases n,
{
    if i < n - 1 {
        lemma_longest(t, n - 1, i);
    }
}

/// The kinds of moves are listed with their times, each once and the longest time first, in a
/// column that is wide enough for every time.
pub proof fn kinds_are_listed_by_their_times(t: Times, i: int)
    requires
        0 <= i < t.len(),
    ensures
        ({
            let list = kinds_by_time(t, t.len() as int);
            let lines = kind_distribution(t);
            let width = longest_time(t, t.len() as int);
            &&& list.to_multiset() == t.to_multiset()
            &&& by_time(list)
            &&& lines.len() == t.len() + 1
            &&& lines[i + 1] == kind_text(
                list[t.len() - 1 - i].0,
                list[t.len() - 1 - i].1,
                width,
            )
            &&& time_text(t[i].1).len() <= width
        }),
{
    let n = t.len() as int;
    lemma_by_time(t, n);
    assert(t.take(n) == t);
    lemma_texts(kinds_by_time(t, n), longest_time(t, n), n);
    lemma_longest(t, n, i);
}

/// The rows of a table hold all its cells, and no row is empty.
pub proof fn rows_hold_all_cells(cells: nat, column: nat, width: nat)
    ensures
        ({
            let rows = row_count(cells, column, width);
            let columns = if width > column + 3 {
                (width - 3 - column) / (column + 4) as int + 1
            } else {
                1
            };
            &&& columns >= 1
            &&& rows * columns >= cells
            &&& cells > 0 ==> (rows - 1) * columns < cells
            &&& columns > 1 ==> columns * (column + 4) - 4 + 3 <= width
        }),
{
    let columns = if width > column + 3 {
        (width - 3 - column) / (column + 4) as int + 1
    } else {
        1
    };
    if width > column + 3 {
        let a = (width - 3 - column) as int;
        let b = (column + 4) as int;
        vstd::arithmetic::div_mod::lemma_fundamental_div_mod(a, b);
        vstd::arithmetic::div_mod::lemma_div_pos_is_pos(a, b);
        assert(columns * b == b * (a / b) + b) by (nonlinear_arith)
            requires
                columns == a / b + 1,
        ;
    }
    let c = columns as nat;
    let rows = row_count(cells, column, width);
    vstd::arithmetic::div_mod::lemma_fundamental_div_mod(cells as int, c as int);
    let q = cells / c;
    let r = cells % c;
    assert(rows == q + if r != 0 {
        1nat
    } else {
        0
    });
    assert(rows * columns >= cells && (cells > 0 ==> (rows - 1) * columns < cells))
        by (nonlinear_arith)
        requires
            cells == c * q + r,
            r < c,
            columns == c,
            c >= 1,
            r != 0 ==> rows == q + 1,
            r == 0 ==> rows == q,
    ;
}

/// Average speeds and flows are distances and volumes over times. A flow is the volume of the
/// filament, which is round.
pub proof fn averages_are_over_times(i: nat, v: RunView)
    ensures
        ({
            let lines = run_texts(i, v);
            let volume = v.total_extrude_distance * (num(PI) * (num(FILAMENT_RADIUS) * num(
                FILAMENT_RADIUS,
            )));
            let n = lines.len() - 9;
            &&& lines[n] == "  Average speed:               "@ + fixed(
                v.total_distance / v.duration.total,
                3,
            ) + " mm/s"@
            &&& lines[n + 2] == "  Average flow:                "@ + fixed(
                volume / v.duration.total,
                3,
            ) + " mm³/s"@
            &&& lines[n + 4] == "  Average flow (output only):  "@ + fixed(
                volume / v.total_output_time,
                3,
            ) + " mm³/s"@
            &&& lines[n + 6] == "   Acceleration:               "@ + time_text(
                v.phase_times.acceleration,
            )
            &&& lines[n + 7] == "   Cruise:                     "@ + time_text(
                v.phase_times.cruise,
            )
            &&& lines[n + 8] == "   Deceleration:               "@ + time_text(
                v.phase_times.deceleration,
            )
        }),
{
}

} // verus!
