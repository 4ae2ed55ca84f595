//! What the times that are written into a file say.

use vstd::arithmetic::div_mod::lemma_fundamental_div_mod;
use vstd::arithmetic::div_mod::lemma_fundamental_div_mod_converse;
use vstd::arithmetic::power2::lemma_pow2_adds;
use vstd::arithmetic::power2::lemma_pow2_pos;
use vstd::arithmetic::power2::pow2;
use vstd::prelude::*;

use crate::constants::HUNDRED;
use crate::constants::SIXTY;
use crate::corner_laws::lemma_quotient;
use crate::decimal::all_digits;
use crate::decimal::digits_value;
use crate::decimal::fixed;
use crate::decimal::is_digit;
use crate::decimal::last_digits;
use crate::decimal::lemma_digits_push;
use crate::decimal::pow10;
use crate::double::num;
use crate::double::one_units;
use crate::double::units;
use crate::double::Double;
use crate::double::ZERO;
use crate::gcode::CommandView;
use crate::motion_laws::adding_zero_changes_nothing;
use crate::motion_laws::lemma_packed_units;
use crate::motion_laws::products_commute;
use crate::order_laws::differences_are_monotone;
use crate::order_laws::lemma_some_units;
use crate::order_laws::lemma_value_monotone;
use crate::order_laws::numbers_over_themselves_are_one;
use crate::order_laws::products_are_monotone;
use crate::order_laws::quotients_are_monotone;
use crate::post_process::comment_starts;
use crate::post_process::seconds_comment;
use crate::post_process::shows_progress;
use crate::post_process::InterceptorKind;
use crate::post_process::InterceptorView;
use crate::post_process::Rewrite;
use crate::right_angle_laws::ones_change_nothing;
use crate::rounding::divide_half_even;
use crate::rounding::lemma_two52;
use crate::speed_laws::lemma_units_monotone;
use crate::speed_laws::not_negative;
use crate::speed_laws::rounding_is_monotone;
use crate::text::decimal;
use crate::text::digit_char;
use crate::whole_laws::nearest_whole;
use crate::whole_laws::nearest_whole_numbers_are_monotone;
use crate::whole_laws::numbers_round_to_the_nearest_whole_number;
use crate::whole_laws::numbers_round_up;

verus! {

/// A decimal notation is made of digits and stands for its number.
pub proof fn decimals_stand_for_their_numbers(n: nat)
    ensures
        all_digits(decimal(n)),
        digits_value(decimal(n)) == n,
        decimal(n).len() > 0,
    decreases n,
{
    if n < 10 {
        assert(Seq::<char>::empty().push(digit_char(n)) == decimal(n));
        lemma_digits_push(Seq::empty(), digit_char(n));
    } else {
        decimals_stand_for_their_numbers(n / 10);
        lemma_digits_push(decimal(n / 10), digit_char(n % 10));
        assert forall|i: int| 0 <= i < decimal(n).len() implies is_digit(decimal(n)[i]) by {
            if i < decimal(n / 10).len() {
                assert(decimal(n)[i] == decimal(n / 10)[i]);
            }
        }
    }
}

proof fn lemma_last_digits(n: nat, k: nat)
    ensures
        all_digits(last_digits(n, k)),
        digits_value(last_digits(n, k)) == n % pow10(k),
        last_digits(n, k).len() == k,
    decreases k,
{
    if k > 0 {
        let j = (k - 1) as nat;
        let s = last_digits(n / 10, j);
        lemma_last_digits(n / 10, j);
        lemma_digits_push(s, digit_char(n % 10));
        assert forall|i: int| 0 <= i < k implies is_digit(last_digits(n, k)[i]) by {
            if i < j {
                assert(last_digits(n, k)[i] == s[i]);
            }
        }
        let p = pow10(j);
        crate::decimal::lemma_pow10_pos(j);
        let q = (n / 10) / p;
        let r = (n / 10) % p;
        lemma_fundamental_div_mod((n / 10) as int, p as int);
        assert(n == q * (10 * p) + (10 * r + n % 10)) by (nonlinear_arith)
            requires
                n / 10 == p * q + r,
                n == 10 * (n / 10) + n % 10,
        ;
        lemma_fundamental_div_mod_converse(
            n as int,
            (10 * p) as int,
            q as int,
            (10 * r + n % 10) as int,
        );
    } else {
        assert(n % 1 == 0);
    }
}

/// Half to even is one of the two nearest whole quotients.
pub proof fn lemma_half_even(n: nat, d: nat)
    requires
        d > 0,
    ensures
        2 * (divide_half_even(n, d) * d) <= 2 * n + d,
        2 * (divide_half_even(n, d) * d) + d >= 2 * n,
{
    lemma_fundamental_div_mod(n as int, d as int);
    let q = n / d;
    assert(d * q == q * d) by (nonlinear_arith);
    assert((q + 1) * d == q * d + d) by (nonlinear_arith);
}

/// Whether a text is the decimal notation of a whole number.
pub open spec fn stands_for(t: Seq<char>, n: nat) -> bool {
    t.len() > 0 && all_digits(t) && digits_value(t) == n
}

/// A whole number without a sign is written as its digits.
proof fn lemma_whole_text(x: Double, n: nat)
    requires
        x.finite(),
        !x.negative(),
        units(x.magnitude()) == n * one_units(),
    ensures
        stands_for(fixed(x, 0), n),
{
    lemma_pow2_pos(1074);
    let o = one_units();
    assert(pow10(0) == 1);
    assert(units(x.magnitude()) * 1 == n * o);
    lemma_fundamental_div_mod_converse((n * o) as int, o as int, n as int, 0);
    decimals_stand_for_their_numbers(n);
}

/// The time that remains, in minutes.
pub open spec fn minutes_left(t: Double, total: Double) -> Double {
    (total - t) / num(SIXTY)
}

/// Whether a time lies within a print.
pub open spec fn within_print(t: Double, total: Double) -> bool {
    &&& t.finite() && not_negative(t)
    &&& total.finite() && !total.negative()
    &&& t <= total
}

proof fn lemma_left(t: Double, total: Double)
    requires
        within_print(t, total),
    ensures
        (total - t).finite(),
        !(total - t).negative(),
        minutes_left(t, total).finite(),
        !minutes_left(t, total).negative(),
        not_negative(minutes_left(t, total)),
{
    lemma_two52();
    lemma_some_units(1);
    lemma_value_monotone(t, total);
    let v = total.value() - t.value();
    assert(total.value() == units(total.magnitude()));
    assert(t.value() >= 0) by {
        lemma_value_monotone(num(ZERO), t);
    }
    rounding_is_monotone(v as nat, units(total.magnitude()), 1);
    crate::motion_laws::numbers_are_nearest_to_themselves(total.magnitude());
    assert((total - t).finite() && !(total - t).negative()) by {
        reveal(Double::spec_add);
    }
    let d = total - t;
    lemma_sixty();
    lemma_quotient(d, num(SIXTY));
    assert((d / num(SIXTY)).finite() && !(d / num(SIXTY)).negative()) by {
        reveal(Double::over);
        let u = units(d.magnitude());
        let o = one_units();
        lemma_pow2_pos(1074);
        assert(u * o <= u * (60 * o)) by (nonlinear_arith);
        rounding_is_monotone(u * o, u * (60 * o), 60 * o);
        crate::order_laws::rounding_depends_on_the_ratio(u, 1, 60 * o);
        assert(1 * (60 * o) == 60 * o);
        crate::motion_laws::numbers_are_nearest_to_themselves(d.magnitude());
    }
}

/// Sixty and one hundred stand for as many units.
proof fn lemma_sixty()
    ensures
        units(num(SIXTY).magnitude()) == 60 * one_units(),
        units(num(HUNDRED).magnitude()) == 100 * one_units(),
{
    lemma_two52();
    lemma_packed_units(1027, 0x1e_0000_0000_0000);
    lemma_packed_units(1028, 0x19_0000_0000_0000);
    lemma_pow2_adds(47, 1027);
    lemma_pow2_adds(46, 1028);
    vstd::arithmetic::power2::lemma2_to64();
    vstd::arithmetic::power2::lemma2_to64_rest();
    let p = pow2(1027);
    let q = pow2(1028);
    assert(0x1e_0000_0000_0000 * p == 60 * (0x8000_0000_0000 * p)) by (nonlinear_arith);
    assert(0x19_0000_0000_0000 * q == 100 * (0x4000_0000_0000 * q)) by (nonlinear_arith);
}

/// What a progress line shows: the percentage in thousandths, and the remaining minutes.
pub open spec fn shown(r: Option<Rewrite<Seq<char>>>, thousandths: nat, minutes: nat) -> bool {
    r matches Some(Rewrite::Progress { percent, remaining }) && stands_for(remaining, minutes)
        && exists|whole: Seq<char>, rest: Seq<char>|
        percent == #[trigger] (whole + seq!['.'] + rest) && rest.len() == 3 && all_digits(whole)
            && all_digits(rest) && digits_value(whole) * 1000 + digits_value(rest) == thousandths
}

/// The whole number of minutes nearest to those that remain.
pub open spec fn whole_minutes_left(t: Double, total: Double) -> nat {
    nearest_whole(units(minutes_left(t, total).magnitude()))
}

/// The percentage of a print that is done.
pub open spec fn percentage(t: Double, total: Double) -> Double {
    t / total * num(HUNDRED)
}

/// The percentage of a print that is done, in thousandths.
pub open spec fn thousandths_done(t: Double, total: Double) -> nat {
    divide_half_even(units(percentage(t, total).magnitude()) * 1000, one_units())
}

proof fn lemma_percentage(t: Double, total: Double)
    requires
        within_print(t, total),
        total > num(ZERO),
    ensures
        percentage(t, total).finite(),
        not_negative(percentage(t, total)),
        percentage(t, total) <= num(HUNDRED),
        percentage(total, total) == num(HUNDRED),
{
    lemma_quotient(t, total);
    lemma_quotient(total, total);
    quotients_are_monotone(t, total, total);
    numbers_over_themselves_are_one(total);
    products_commute(num(crate::double::ONE), num(HUNDRED));
    ones_change_nothing(num(HUNDRED));
    crate::corner_laws::lemma_scaled(t / total, num(crate::double::ONE), num(HUNDRED));
}

/// A fixed notation with three digits after the point.
proof fn lemma_thousandths(x: Double, n: nat)
    requires
        x.finite(),
        !x.negative(),
        n == divide_half_even(units(x.magnitude()) * 1000, one_units()),
    ensures
        exists|whole: Seq<char>, rest: Seq<char>|
            fixed(x, 3) == #[trigger] (whole + seq!['.'] + rest) && rest.len() == 3 && all_digits(
                whole,
            ) && all_digits(rest) && digits_value(whole) * 1000 + digits_value(rest) == n,
{
    assert(pow10(3) == 1000) by {
        assert(pow10(0) == 1 && pow10(1) == 10 && pow10(2) == 100 && pow10(3) == 1000) by {
            reveal_with_fuel(pow10, 4);
        }
    }
    let whole = decimal(n / 1000);
    let rest = last_digits(n, 3);
    decimals_stand_for_their_numbers(n / 1000);
    lemma_last_digits(n, 3);
    assert(fixed(x, 3) == whole + seq!['.'] + rest);
    lemma_fundamental_div_mod(n as int, 1000);
}

/// A progress line shows, for the time that was noted for it, the percentage that is done and the
/// whole number of minutes nearest to those that remain; it uses up that time.
pub proof fn progress_lines_show_what_remains(v: InterceptorView, c: CommandView, total: Double)
    requires
        v.kind == InterceptorKind::Prusa,
        shows_progress(c.op),
        v.times.len() > 0,
        within_print(v.times[0], total),
        !v.times[0].negative(),
        total > num(ZERO),
    ensures
        ({
            let t = v.times[0];
            let n = whole_minutes_left(t, total);
            let left = minutes_left(t, total).value();
            let k = thousandths_done(t, total);
            let done = percentage(t, total).value();
            let (after, r) = v.output(c, total);
            &&& after == InterceptorView { times: v.times.skip(1), ..v }
            &&& shown(r, k, n)
            &&& 2 * (n * one_units()) <= 2 * left + one_units()
            &&& 2 * (n * one_units()) >= 2 * left - one_units()
            &&& 2 * (k * one_units()) <= 2 * (done * 1000) + one_units()
            &&& 2 * (k * one_units()) >= 2 * (done * 1000) - one_units()
            &&& t == total ==> n == 0 && k == 100_000
            &&& t == num(ZERO) ==> k == 0 && n == nearest_whole(
                units((total / num(SIXTY)).magnitude()),
            )
        }),
{
    let t = v.times[0];
    let d = minutes_left(t, total);
    lemma_left(t, total);
    numbers_round_to_the_nearest_whole_number(d);
    lemma_whole_text(d.round(), whole_minutes_left(t, total));
    lemma_percentage(t, total);
    let x = percentage(t, total);
    let k = thousandths_done(t, total);
    lemma_pow2_pos(1074);
    assert(!x.negative()) by {
        reveal(Double::spec_mul);
        reveal(Double::over);
        lemma_two52();
        lemma_some_units(total.magnitude());
        let a = units(t.magnitude()) * one_units();
        rounding_is_monotone(a, a, units(total.magnitude()));
        let b = units((t / total).magnitude()) * units(num(HUNDRED).magnitude());
        rounding_is_monotone(b, b, one_units());
    }
    lemma_thousandths(x, k);
    lemma_half_even(units(x.magnitude()) * 1000, one_units());
    lemma_sixty();
    lemma_some_units(1);
    if t == total {
        assert(d.magnitude() == 0) by {
            reveal(Double::spec_add);
            reveal(Double::over);
            lemma_two52();
            assert(total - t == num(ZERO));
            lemma_some_units(num(SIXTY).magnitude());
            crate::rounding::lemma_nearest_zero(units(num(SIXTY).magnitude()));
            assert(units(0) * one_units() == 0) by (nonlinear_arith)
                requires
                    units(0) == 0,
            ;
        }
        lemma_fundamental_div_mod_converse(
            one_units() as int,
            (2 * one_units()) as int,
            0,
            one_units() as int,
        );
        assert(whole_minutes_left(t, total) == 0);
        assert(100 * one_units() * 1000 == 100_000 * one_units()) by (nonlinear_arith);
        lemma_fundamental_div_mod_converse(
            (100_000 * one_units()) as int,
            one_units() as int,
            100_000,
            0,
        );
    }
    if t == num(ZERO) {
        adding_zero_changes_nothing(total, t.negated());
        assert((total - t).equals(total));
        assert(total - t == total);
        assert(x.magnitude() == 0) by {
            reveal(Double::spec_mul);
            reveal(Double::over);
            lemma_two52();
            lemma_some_units(total.magnitude());
            crate::rounding::lemma_nearest_zero(units(total.magnitude()));
            crate::rounding::lemma_nearest_zero(one_units());
            assert(units(0) * one_units() == 0) by (nonlinear_arith)
                requires
                    units(0) == 0,
            ;
            assert(units(0) * units(num(HUNDRED).magnitude()) == 0) by (nonlinear_arith)
                requires
                    units(0) == 0,
            ;
        }
        lemma_fundamental_div_mod_converse(0, one_units() as int, 0, 0);
    }
}

/// From one progress line to a later one, the remaining minutes never increase, and the percentage
/// never falls.
pub proof fn progress_counts_down(t: Double, u: Double, total: Double)
    requires
        within_print(t, total),
        within_print(u, total),
        total > num(ZERO),
        t <= u,
    ensures
        whole_minutes_left(u, total) <= whole_minutes_left(t, total),
        thousandths_done(t, total) <= thousandths_done(u, total),
{
    lemma_left(t, total);
    lemma_left(u, total);
    differences_are_monotone(t, u, total);
    lemma_sixty();
    quotients_are_monotone(total - u, total - t, num(SIXTY));
    let a = minutes_left(u, total);
    let b = minutes_left(t, total);
    lemma_units_monotone(a.magnitude(), b.magnitude());
    nearest_whole_numbers_are_monotone(units(a.magnitude()), units(b.magnitude()));
    lemma_percentage(t, total);
    lemma_percentage(u, total);
    lemma_quotient(t, total);
    lemma_quotient(u, total);
    quotients_are_monotone(t, u, total);
    products_are_monotone(t / total, u / total, num(HUNDRED));
    let x = percentage(t, total);
    let y = percentage(u, total);
    lemma_units_monotone(x.magnitude(), y.magnitude());
    lemma_pow2_pos(1074);
    crate::speed_laws::lemma_divide_monotone(
        units(x.magnitude()) * 1000,
        units(y.magnitude()) * 1000,
        one_units(),
    );
}

/// Whether a comment is a label with a number of whole seconds: the smallest one that is not below
/// a time.
pub open spec fn seconds_shown(r: Option<Rewrite<Seq<char>>>, label: Seq<char>, t: Double) -> bool {
    exists|digits: Seq<char>, n: nat|
        {
            &&& #[trigger] stands_for(digits, n)
            &&& r == Some(Rewrite::Comment(label + digits))
            &&& n * one_units() >= t.value()
            &&& n * one_units() < t.value() + one_units()
        }
}

proof fn lemma_seconds(label: Seq<char>, t: Double)
    requires
        t.finite(),
        !t.negative(),
    ensures
        seconds_shown(Some(seconds_comment(label, t)), label, t),
{
    numbers_round_up(t);
    let x = t.ceil();
    let o = one_units();
    lemma_pow2_pos(1074);
    let n = units(x.magnitude()) / o;
    lemma_fundamental_div_mod(units(x.magnitude()) as int, o as int);
    assert(o * n == n * o) by (nonlinear_arith);
    lemma_whole_text(x, n);
    assert(stands_for(fixed(x, 0), n));
}

/// The comments of ideaMaker and Cura show the whole print, the time that has passed, or the time
/// that remains, in seconds rounded up.
pub proof fn comments_show_seconds(v: InterceptorView, c: CommandView, total: Double)
    requires
        total.finite(),
        !total.negative(),
        v.times.len() > 0 ==> within_print(v.times[0], total) && !v.times[0].negative(),
    ensures
        ({
            let (after, r) = v.output(c, total);
            let noted = v.times.len() > 0;
            let used = InterceptorView { times: v.times.skip(1), ..v };
            &&& v.kind == InterceptorKind::IdeaMaker && comment_starts(c, "Print Time: "@)
                ==> seconds_shown(r, "Print Time: "@, total) && after == v
            &&& v.kind == InterceptorKind::IdeaMaker && comment_starts(c, "PRINTING_TIME: "@)
                && noted && !comment_starts(c, "Print Time: "@) ==> seconds_shown(
                r,
                "PRINTING_TIME: "@,
                v.times[0],
            ) && after == v
            &&& v.kind == InterceptorKind::IdeaMaker && comment_starts(c, "REMAINING_TIME: "@)
                && noted && !comment_starts(c, "Print Time: "@) && !comment_starts(
                c,
                "PRINTING_TIME: "@,
            ) ==> seconds_shown(r, "REMAINING_TIME: "@, total - v.times[0]) && after == used
            &&& v.kind == InterceptorKind::Cura && comment_starts(c, "TIME:"@) ==> seconds_shown(
                r,
                "TIME:"@,
                total,
            ) && after == v
            &&& v.kind == InterceptorKind::Cura && comment_starts(c, "PRINT.TIME:"@)
                && !comment_starts(c, "TIME:"@) ==> seconds_shown(r, "PRINT.TIME:"@, total)
                && after == v
            &&& v.kind == InterceptorKind::Cura && comment_starts(c, "TIME_ELAPSED:"@) && noted
                && !comment_starts(c, "TIME:"@) && !comment_starts(c, "PRINT.TIME:"@)
                ==> seconds_shown(r, "TIME_ELAPSED:"@, v.times[0]) && after == used
        }),
{
    lemma_seconds("Print Time: "@, total);
    lemma_seconds("TIME:"@, total);
    lemma_seconds("PRINT.TIME:"@, total);
    if v.times.len() > 0 {
        let t = v.times[0];
        lemma_left(t, total);
        lemma_seconds("PRINTING_TIME: "@, t);
        lemma_seconds("REMAINING_TIME: "@, total - t);
        lemma_seconds("TIME_ELAPSED:"@, t);
    }
}

} // verus!
