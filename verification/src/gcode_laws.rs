//! What the words of a line of G-code mean.

use vstd::prelude::*;

use crate::decimal::parsed;
use crate::gcode::classic_head;
use crate::gcode::classic_params;
use crate::gcode::command_of;
use crate::gcode::is_letter;
use crate::gcode::is_name;
use crate::gcode::lettered_text;
use crate::gcode::named_params;
use crate::gcode::named_text;
use crate::gcode::operation_of;
use crate::gcode::space_from;
use crate::gcode::words;
use crate::gcode::CommandView;
use crate::gcode::OperationView;
use crate::progress_laws::decimals_stand_for_their_numbers;
use crate::text::decimal;
use crate::text::first;
use crate::text::is_space;
use crate::text::lemma_first_range;
use crate::text::lower;
use crate::text::split_once;
use crate::text::trim_start;
use crate::text::upper_char;

verus! {

/// What follows the first semicolon of a line is its comment, and has no part in its command.
pub proof fn comments_stand_apart(line: Seq<char>, comment: Seq<char>)
    requires
        forall|i: int| 0 <= i < line.len() ==> line[i] != ';',
    ensures
        command_of(line) matches Some(c) ==> c.comment is None && command_of(
            line + seq![';'] + comment,
        ) == Some(CommandView { comment: Some(comment), ..c }),
        command_of(line) is None ==> command_of(line + seq![';'] + comment) is None,
{
    let full = line + seq![';'] + comment;
    let n = line.len() as int;
    lemma_first_range(line, ';', 0);
    lemma_first_range(full, ';', 0);
    assert(first(line, ';') == n);
    assert(full[n] == ';');
    assert(forall|i: int| 0 <= i < n ==> full[i] == line[i]);
    assert(first(full, ';') == n);
    assert(full.take(n) == line);
    assert(line.take(n) == line);
    assert(full.skip(n + 1) == comment);
}

proof fn lemma_trim(a: Seq<char>, b: Seq<char>)
    ensures
        trim_start(a).len() <= a.len(),
        trim_start(a).len() > 0 ==> !is_space(trim_start(a)[0]) && trim_start(a + b) == trim_start(
            a,
        ) + b,
        trim_start(a).len() == 0 ==> trim_start(a + b) == trim_start(b),
    decreases a.len(),
{
    if a.len() > 0 && is_space(a[0]) {
        lemma_trim(a.skip(1), b);
        assert((a + b).skip(1) == a.skip(1) + b);
    } else if a.len() == 0 {
        assert(a + b == b);
    }
}

proof fn lemma_space(t: Seq<char>, b: Seq<char>, i: int)
    requires
        0 <= i <= t.len(),
    ensures
        i <= space_from(t, i) <= t.len(),
        i < t.len() && !is_space(t[i]) ==> space_from(t, i) > i,
        b.len() > 0 && is_space(b[0]) ==> space_from(t + b, i) == space_from(t, i),
    decreases t.len() - i,
{
    if i < t.len() {
        assert((t + b)[i] == t[i]);
        if !is_space(t[i]) {
            lemma_space(t, b, i + 1);
        }
    } else if b.len() > 0 {
        assert((t + b)[i] == b[0]);
    }
}

/// The words of two texts with white space between them are those of the one and then those of
/// the other.
pub proof fn words_are_separated_by_spaces(a: Seq<char>, b: Seq<char>)
    requires
        b.len() > 0,
        is_space(b[0]),
    ensures
        words(a + b) == words(a) + words(b),
    decreases a.len(),
{
    lemma_trim(a, b);
    let t = trim_start(a);
    if t.len() == 0 {
        assert(words(a) == Seq::<Seq<char>>::empty());
        assert(words(a + b) == words(b)) by {
            lemma_trim(b, Seq::empty());
            assert(trim_start(a + b) == trim_start(b));
        }
        assert(words(a) + words(b) == words(b));
    } else {
        let k = space_from(t, 0);
        lemma_space(t, b, 0);
        assert((t + b).take(k) == t.take(k));
        assert((t + b).skip(k) == t.skip(k) + b);
        words_are_separated_by_spaces(t.skip(k), b);
        assert(words(a) == seq![t.take(k)] + words(t.skip(k)));
        assert(words(a + b) == seq![t.take(k)] + words(t.skip(k) + b));
        assert(words(a + b) == words(a) + words(b));
    }
}

proof fn lemma_no_space(w: Seq<char>, i: int)
    requires
        0 <= i <= w.len(),
        forall|k: int| 0 <= k < w.len() ==> !is_space(w[k]),
    ensures
        space_from(w, i) == w.len(),
    decreases w.len() - i,
{
    if i < w.len() {
        lemma_no_space(w, i + 1);
    }
}

/// A text without white space is one word.
pub proof fn texts_without_spaces_are_words(w: Seq<char>)
    requires
        w.len() > 0,
        forall|k: int| 0 <= k < w.len() ==> !is_space(w[k]),
    ensures
        words(w) == seq![w],
{
    lemma_no_space(w, 0);
    assert(w.take(w.len() as int) == w);
    assert(w.skip(w.len() as int) == Seq::<char>::empty());
    assert(words(Seq::<char>::empty()) == Seq::<Seq<char>>::empty());
    assert(seq![w] + Seq::<Seq<char>>::empty() == seq![w]);
}

/// A letter and a number name a command, in upper or lower case.
pub proof fn letters_and_numbers_name_commands(letter: char, code: u16)
    requires
        is_letter(letter),
    ensures
        classic_head(seq![letter] + decimal(code as nat)) == Some((upper_char(letter), code)),
{
    let word = seq![letter] + decimal(code as nat);
    decimals_stand_for_their_numbers(code as nat);
    assert(word.skip(1) == decimal(code as nat));
}

/// Whether a word gives the value of a letter.
pub open spec fn gives(word: Seq<char>, letter: char) -> bool {
    word.len() > 0 && is_letter(word[0]) && upper_char(word[0]) == letter
}

/// Whether the value of a letter is given by the word `i` and by none before it.
pub open spec fn first_given(w: Seq<Seq<char>>, letter: char, i: int) -> bool {
    0 <= i < w.len() && gives(w[i], letter) && forall|k: int|
        0 <= k < i ==> !gives(#[trigger] w[k], letter)
}

proof fn lemma_lettered_push(p: Seq<(char, Seq<char>)>, q: (char, Seq<char>), letter: char)
    ensures
        lettered_text(p.push(q), letter) == match lettered_text(p, letter) {
            Some(t) => Some(t),
            None => if q.0 == letter {
                Some(q.1)
            } else {
                None
            },
        },
    decreases p.len(),
{
    let full = p.push(q);
    if p.len() == 0 {
        assert(full[0] == q);
        assert(full.skip(1) == Seq::<(char, Seq<char>)>::empty());
        assert(lettered_text(full.skip(1), letter) is None);
    } else {
        assert(full[0] == p[0]);
        assert(full.skip(1) == p.skip(1).push(q));
        lemma_lettered_push(p.skip(1), q, letter);
    }
}

proof fn lemma_not_given(w: Seq<Seq<char>>, letter: char)
    requires
        forall|k: int| 0 <= k < w.len() ==> !gives(#[trigger] w[k], letter),
    ensures
        lettered_text(classic_params(w), letter) is None,
    decreases w.len(),
{
    if w.len() > 0 {
        let before = w.drop_last();
        assert forall|k: int| 0 <= k < before.len() implies !gives(#[trigger] before[k], letter) by {
            assert(before[k] == w[k]);
        }
        lemma_not_given(before, letter);
        let word = w.last();
        assert(!gives(w[w.len() - 1], letter));
        if word.len() > 0 && is_letter(word[0]) {
            lemma_lettered_push(
                classic_params(before),
                (upper_char(word[0]), word.skip(1)),
                letter,
            );
        }
    }
}

proof fn lemma_given(w: Seq<Seq<char>>, letter: char, i: int)
    requires
        first_given(w, letter, i),
    ensures
        lettered_text(classic_params(w), letter) == Some(w[i].skip(1)),
    decreases w.len(),
{
    let before = w.drop_last();
    let word = w.last();
    if i < w.len() - 1 {
        assert(before[i] == w[i]);
        assert forall|k: int| 0 <= k < i implies !gives(#[trigger] before[k], letter) by {
            assert(before[k] == w[k]);
        }
        lemma_given(before, letter, i);
    } else {
        assert forall|k: int| 0 <= k < before.len() implies !gives(#[trigger] before[k], letter) by {
            assert(before[k] == w[k]);
        }
        lemma_not_given(before, letter);
    }
    if word.len() > 0 && is_letter(word[0]) {
        lemma_lettered_push(classic_params(before), (upper_char(word[0]), word.skip(1)), letter);
    }
}

/// The value of a letter is what follows it in the first word that begins with it.
pub proof fn parameters_follow_their_letters(w: Seq<Seq<char>>, letter: char, i: int)
    ensures
        first_given(w, letter, i) ==> lettered_text(classic_params(w), letter) == Some(
            w[i].skip(1),
        ),
        (forall|k: int| 0 <= k < w.len() ==> !gives(#[trigger] w[k], letter)) ==> lettered_text(
            classic_params(w),
            letter,
        ) is None,
{
    if first_given(w, letter, i) {
        lemma_given(w, letter, i);
    }
    if forall|k: int| 0 <= k < w.len() ==> !gives(#[trigger] w[k], letter) {
        lemma_not_given(w, letter);
    }
}

/// A line of `G0` or `G1` is a move: each coordinate is the number behind its letter, and is
/// left out where no word begins with the letter. Other letters and numbers name other commands.
pub proof fn moves_are_read_as_written(body: Seq<char>, letter: char, i: int)
    requires
        words(body).len() > 0,
        classic_head(words(body)[0]) is Some,
    ensures
        ({
            let w = words(body);
            let (head, code) = classic_head(w[0])->0;
            let rest = w.skip(1);
            let value = if first_given(rest, letter, i) {
                parsed(rest[i].skip(1))
            } else {
                None
            };
            let known = first_given(rest, letter, i) || forall|k: int|
                0 <= k < rest.len() ==> !gives(#[trigger] rest[k], letter);
            match operation_of(body) {
                Some(OperationView::Move { x, y, z, e, f }) => {
                    &&& head == 'G' && code <= 1
                    &&& known && letter == 'X' ==> x == value
                    &&& known && letter == 'Y' ==> y == value
                    &&& known && letter == 'Z' ==> z == value
                    &&& known && letter == 'E' ==> e == value
                    &&& known && letter == 'F' ==> f == value
                },
                Some(OperationView::Traditional { letter: l, code: c, params }) => {
                    &&& l == head && c == code && !(head == 'G' && code <= 1)
                    &&& first_given(rest, letter, i) ==> lettered_text(params, letter) == Some(
                        rest[i].skip(1),
                    )
                },
                Some(_) => false,
                None => head == 'G' && code <= 1,
            }
        }),
{
    let rest = words(body).skip(1);
    parameters_follow_their_letters(rest, letter, i);
}

proof fn lemma_named_push(p: Seq<(Seq<char>, Seq<char>)>, q: (Seq<char>, Seq<char>), name: Seq<char>)
    ensures
        named_text(p.push(q), name) == match named_text(p, name) {
            Some(t) => Some(t),
            None => if q.0 == name {
                Some(q.1)
            } else {
                None
            },
        },
    decreases p.len(),
{
    let full = p.push(q);
    if p.len() == 0 {
        assert(full[0] == q);
        assert(full.skip(1) == Seq::<(Seq<char>, Seq<char>)>::empty());
        assert(named_text(full.skip(1), name) is None);
    } else {
        assert(full[0] == p[0]);
        assert(full.skip(1) == p.skip(1).push(q));
        lemma_named_push(p.skip(1), q, name);
    }
}

/// Whether a word gives the value of a name, in upper or lower case.
pub open spec fn names(word: Seq<char>, name: Seq<char>) -> bool {
    split_once(word, '=') is Some && lower((split_once(word, '=')->0).0) == name
}

proof fn lemma_not_named(w: Seq<Seq<char>>, name: Seq<char>)
    requires
        forall|k: int| 0 <= k < w.len() ==> !names(#[trigger] w[k], name),
    ensures
        named_text(named_params(w), name) is None,
    decreases w.len(),
{
    if w.len() > 0 {
        let before = w.drop_last();
        assert forall|k: int| 0 <= k < before.len() implies !names(#[trigger] before[k], name) by {
            assert(before[k] == w[k]);
        }
        lemma_not_named(before, name);
        assert(!names(w[w.len() - 1], name));
        match split_once(w.last(), '=') {
            Some((n, v)) => lemma_named_push(named_params(before), (lower(n), v), name),
            None => {},
        }
    }
}

/// The value of a name is what follows the equals sign in the first word that gives it.
pub proof fn values_follow_their_names(w: Seq<Seq<char>>, name: Seq<char>, i: int)
    requires
        0 <= i < w.len(),
        names(w[i], name),
        forall|k: int| 0 <= k < i ==> !names(#[trigger] w[k], name),
    ensures
        named_text(named_params(w), name) == Some((split_once(w[i], '=')->0).1),
    decreases w.len(),
{
    let before = w.drop_last();
    if i < w.len() - 1 {
        assert(before[i] == w[i]);
        assert forall|k: int| 0 <= k < i implies !names(#[trigger] before[k], name) by {
            assert(before[k] == w[k]);
        }
        values_follow_their_names(before, name, i);
    } else {
        assert forall|k: int| 0 <= k < before.len() implies !names(#[trigger] before[k], name) by {
            assert(before[k] == w[k]);
        }
        lemma_not_named(before, name);
    }
    match split_once(w.last(), '=') {
        Some((n, v)) => lemma_named_push(named_params(before), (lower(n), v), name),
        None => {},
    }
}

/// A line that begins with a name is the command of that name, in upper or lower case.
pub proof fn names_name_commands(body: Seq<char>)
    requires
        words(body).len() > 0,
        classic_head(words(body)[0]) is None,
    ensures
        is_name(words(body)[0]) ==> operation_of(body) == Some(
            OperationView::Extended {
                command: lower(words(body)[0]),
                params: named_params(words(body).skip(1)),
            },
        ),
        !is_name(words(body)[0]) ==> operation_of(body) is None,
{
}

} // verus!
