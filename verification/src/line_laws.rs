//! What the lines of a configuration file mean.

use vstd::prelude::*;

use crate::offline::comment_start;
use crate::offline::delimiter;
use crate::offline::header_of;
use crate::offline::option_value;
use crate::offline::setting_an_option_changes_it_alone;
use crate::offline::starts_comment;
use crate::offline::uncommented;
use crate::offline::with_section;
use crate::offline::ChunkState;
use crate::offline::SectionsView;
use crate::table::lemma_lookup_inserted;
use crate::text::has_prefix;
use crate::text::is_space;
use crate::text::lower;
use crate::text::trim;

verus! {

proof fn lemma_comment(a: Seq<char>, b: Seq<char>, i: int)
    requires
        0 <= i <= a.len(),
    ensures
        i <= comment_start(a, i) <= a.len(),
        comment_start(a, i) < a.len() ==> comment_start(a + b, i) == comment_start(a, i),
        comment_start(a, i) == a.len() ==> comment_start(a + b, i) == comment_start(
            a + b,
            a.len() as int,
        ),
    decreases a.len() - i,
{
    if i < a.len() {
        assert((a + b)[i] == a[i]);
        if i > 0 {
            assert((a + b)[i - 1] == a[i - 1]);
        }
        if !starts_comment(a, i) {
            lemma_comment(a, b, i + 1);
        }
    }
}

/// A hash begins a comment wherever it stands, and a semicolon at the start of a line or after
/// white space. Anywhere else a semicolon belongs to the value.
pub proof fn comments_end_lines(a: Seq<char>, b: Seq<char>)
    ensures
        uncommented(a + seq!['#'] + b) == uncommented(a),
        a.len() == 0 || is_space(a.last()) ==> uncommented(a + seq![';'] + b) == uncommented(a),
        a.len() > 0 && !is_space(a.last()) && comment_start(a, 0) == a.len() ==> uncommented(
            a + seq![';'],
        ) == a + seq![';'],
{
    let n = a.len() as int;
    let h = seq!['#'] + b;
    let s = seq![';'] + b;
    assert(a + seq!['#'] + b == a + h);
    assert(a + seq![';'] + b == a + s);
    lemma_comment(a, h, 0);
    lemma_comment(a, s, 0);
    assert((a + h)[n] == '#');
    assert((a + s)[n] == ';');
    if n > 0 {
        assert((a + s)[n - 1] == a.last());
    }
    assert(comment_start(a + h, n) == n);
    let k = comment_start(a, 0);
    assert((a + h).take(k) == a.take(k));
    assert((a + s).take(k) == a.take(k));
    if n > 0 && !is_space(a.last()) && k == n {
        let t = a + seq![';'];
        lemma_comment(a, seq![';'], 0);
        assert(t[n] == ';' && t[n - 1] == a.last());
        assert(!starts_comment(t, n));
        assert(comment_start(t, n + 1) == n + 1);
        assert(comment_start(t, n) == n + 1);
        assert(t.take(n + 1) == t);
    }
}

proof fn lemma_delimiter(name: Seq<char>, rest: Seq<char>, i: int)
    requires
        0 <= i <= name.len(),
        forall|k: int| 0 <= k < name.len() ==> name[k] != '=' && name[k] != ':',
        rest.len() > 0,
        rest[0] == '=' || rest[0] == ':',
    ensures
        delimiter(name + rest, i) == name.len(),
    decreases name.len() - i,
{
    if i < name.len() {
        assert((name + rest)[i] == name[i]);
        lemma_delimiter(name, rest, i + 1);
    } else {
        assert((name + rest)[i] == rest[0]);
    }
}

/// A name, an equals sign or a colon, and a value set the option of that name in the present
/// section, and no other.
pub proof fn options_are_read_as_written(
    state: ChunkState,
    path: Seq<char>,
    number: int,
    line: Seq<char>,
    name: Seq<char>,
    sign: char,
    value: Seq<char>,
    section: Seq<char>,
    option: Seq<char>,
)
    requires
        trim(uncommented(line)) == name + seq![sign] + value,
        sign == '=' || sign == ':',
        forall|k: int| 0 <= k < name.len() ==> name[k] != '=' && name[k] != ':',
        lower(trim(name)).len() > 0,
        header_of(name + seq![sign] + value) is None,
        !is_space(line[0]),
        state.section is Some,
    ensures
        ({
            let next = state.after(path, number, line);
            &&& next is Ok
            &&& next->Ok_0.section == state.section
            &&& next->Ok_0.option == Some(lower(trim(name)))
            &&& option_value(next->Ok_0.sections, section, option) == if section
                == state.section->0 && option == lower(trim(name)) {
                Some(trim(value))
            } else {
                option_value(state.sections, section, option)
            }
        }),
{
    let text = name + seq![sign] + value;
    let rest = seq![sign] + value;
    assert(text == name + rest);
    lemma_delimiter(name, rest, 0);
    let n = name.len() as int;
    assert(text.take(n) == name);
    assert(text.skip(n + 1) == value);
    setting_an_option_changes_it_alone(
        state.sections,
        state.section->0,
        lower(trim(name)),
        trim(value),
        section,
        option,
    );
}

/// An indented line is a further line of the value of the present option.
pub proof fn indented_lines_continue_values(
    state: ChunkState,
    path: Seq<char>,
    number: int,
    line: Seq<char>,
    known: Seq<char>,
    section: Seq<char>,
    option: Seq<char>,
)
    requires
        trim(uncommented(line)).len() > 0,
        header_of(trim(uncommented(line))) is None,
        is_space(line[0]),
        state.section is Some,
        state.option is Some,
        option_value(state.sections, state.section->0, state.option->0) == Some(known),
    ensures
        ({
            let next = state.after(path, number, line);
            &&& next is Ok
            &&& next->Ok_0.section == state.section
            &&& next->Ok_0.option == state.option
            &&& option_value(next->Ok_0.sections, section, option) == if section
                == state.section->0 && option == state.option->0 {
                Some(known + seq!['\n'] + trim(uncommented(line)))
            } else {
                option_value(state.sections, section, option)
            }
        }),
{
    setting_an_option_changes_it_alone(
        state.sections,
        state.section->0,
        state.option->0,
        known + seq!['\n'] + trim(uncommented(line)),
        section,
        option,
    );
}

proof fn lemma_section(s: SectionsView, new: Seq<char>, section: Seq<char>, option: Seq<char>)
    ensures
        option_value(with_section(s, new), section, option) == option_value(s, section, option),
{
    lemma_lookup_inserted(s, new, Seq::empty(), section);
}

/// A name in brackets begins its section, in upper or lower case, and changes no option.
pub proof fn brackets_begin_sections(
    state: ChunkState,
    path: Seq<char>,
    number: int,
    line: Seq<char>,
    name: Seq<char>,
    section: Seq<char>,
    option: Seq<char>,
)
    requires
        trim(uncommented(line)) == seq!['['] + name + seq![']'],
        trim(name).len() > 0,
        !has_prefix(trim(name), "include "@),
    ensures
        ({
            let next = state.after(path, number, line);
            &&& next is Ok
            &&& next->Ok_0.section == Some(lower(trim(name)))
            &&& next->Ok_0.option is None
            &&& option_value(next->Ok_0.sections, section, option) == option_value(
                state.sections,
                section,
                option,
            )
        }),
{
    let text = seq!['['] + name + seq![']'];
    assert(text.subrange(1, text.len() - 1) == name);
    assert(text[0] == '[' && text.last() == ']');
    lemma_section(state.sections, lower(trim(name)), section, option);
}

/// Lines with nothing but white space and a comment mean nothing.
pub proof fn empty_lines_mean_nothing(
    state: ChunkState,
    path: Seq<char>,
    number: int,
    line: Seq<char>,
)
    requires
        trim(uncommented(line)).len() == 0,
    ensures
        state.after(path, number, line) == Ok::<ChunkState, crate::errors::SnapshotError<Seq<char>>>(
            state,
        ),
{
}

} // verus!
