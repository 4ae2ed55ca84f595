//! G-code commands and their line syntax.

use vstd::prelude::*;

use crate::decimal::all_digits;
use crate::decimal::digits_value;
use crate::decimal::exponent;
use crate::decimal::is_digit;
use crate::decimal::lemma_digits_push;
use crate::decimal::parse_double;
use crate::decimal::parse_integer;
use crate::decimal::parsed;
use crate::double::Double;
use crate::geometry::Vec4;
use crate::text::chars_of;
use crate::text::find_char;
use crate::text::first;
use crate::text::is_space;
use crate::text::lower;
use crate::text::same;
use crate::text::split_at_char;
use crate::text::split_once;
use crate::text::to_lower;
use crate::text::trim_start;
use crate::text::trimmed_start;
use crate::text::upper_char;

verus! {

/// What a command does.
#[derive(Clone, Debug)]
pub enum GCodeOperation {
    /// Nothing, as on a line with only a comment.
    Nop,
    /// A linear move.
    Move { x: Option<Double>, y: Option<Double>, z: Option<Double>, e: Option<Double>, f: Option<
        Double,
    > },
    /// A letter with a number and lettered parameters.
    Traditional { letter: char, code: u16, params: Vec<(char, String)> },
    /// A named command with named parameters; names are lower case.
    Extended { command: String, params: Vec<(String, String)> },
}

/// Values of a command that take trigonometry, which is computed elsewhere.
#[derive(Clone, Debug)]
pub struct Resolution {
    /// The end points of the segments of an arc move.
    pub arc: Vec<Vec4>,
    /// The tangents of the complements of the angles of a skew command, for the planes XY, XZ
    /// and YZ.
    pub skew: [Option<Double>; 3],
}

#[derive(Clone, Debug)]
pub struct GCodeCommand {
    pub op: GCodeOperation,
    pub comment: Option<String>,
    pub resolution: Resolution,
}

/// What a command does, with texts as sequences.
#[verifier::ext_equal]
pub enum OperationView {
    Nop,
    Move { x: Option<Double>, y: Option<Double>, z: Option<Double>, e: Option<Double>, f: Option<
        Double,
    > },
    Traditional { letter: char, code: u16, params: Seq<(char, Seq<char>)> },
    Extended { command: Seq<char>, params: Seq<(Seq<char>, Seq<char>)> },
}

#[verifier::ext_equal]
pub struct CommandView {
    pub op: OperationView,
    pub comment: Option<Seq<char>>,
    pub arc: Seq<Vec4>,
    pub skew: [Option<Double>; 3],
}

pub open spec fn lettered(v: Seq<(char, String)>) -> Seq<(char, Seq<char>)> {
    Seq::new(v.len(), |i: int| (v[i].0, v[i].1@))
}

pub open spec fn named(v: Seq<(String, String)>) -> Seq<(Seq<char>, Seq<char>)> {
    Seq::new(v.len(), |i: int| (v[i].0@, v[i].1@))
}

impl View for GCodeOperation {
    type V = OperationView;

    open spec fn view(&self) -> OperationView {
        match *self {
            GCodeOperation::Nop => OperationView::Nop,
            GCodeOperation::Move { x, y, z, e, f } => OperationView::Move { x, y, z, e, f },
            GCodeOperation::Traditional { letter, code, params } => OperationView::Traditional {
                letter,
                code,
                params: lettered(params@),
            },
            GCodeOperation::Extended { command, params } => OperationView::Extended {
                command: command@,
                params: named(params@),
            },
        }
    }
}

impl View for GCodeCommand {
    type V = CommandView;

    open spec fn view(&self) -> CommandView {
        CommandView {
            op: self.op@,
            comment: match self.comment {
                Some(c) => Some(c@),
                None => None,
            },
            arc: self.resolution.arc@,
            skew: self.resolution.skew,
        }
    }
}

/// The text of the first parameter with the given letter.
pub open spec fn lettered_text(params: Seq<(char, Seq<char>)>, letter: char) -> Option<Seq<char>>
    decreases params.len(),
{
    if params.len() == 0 {
        None
    } else if params[0].0 == letter {
        Some(params[0].1)
    } else {
        lettered_text(params.skip(1), letter)
    }
}

/// The number of the first parameter with the given letter.
pub open spec fn lettered_number(params: Seq<(char, Seq<char>)>, letter: char) -> Option<Double> {
    match lettered_text(params, letter) {
        Some(t) => parsed(t),
        None => None,
    }
}

/// The text of the first parameter with the given name.
pub open spec fn named_text(params: Seq<(Seq<char>, Seq<char>)>, name: Seq<char>) -> Option<
    Seq<char>,
>
    decreases params.len(),
{
    if params.len() == 0 {
        None
    } else if params[0].0 == name {
        Some(params[0].1)
    } else {
        named_text(params.skip(1), name)
    }
}

/// The number of the first parameter with the given name.
pub open spec fn named_number(params: Seq<(Seq<char>, Seq<char>)>, name: Seq<char>) -> Option<
    Double,
> {
    match named_text(params, name) {
        Some(t) => parsed(t),
        None => None,
    }
}

/// Whether a text is a 64-bit integer other than zero.
pub open spec fn is_set(t: Seq<char>) -> bool {
    match exponent(t) {
        Some(v) => i64::MIN <= v <= i64::MAX && v != 0,
        None => false,
    }
}

/// Whether the parameter with the given name is a 64-bit integer other than zero.
pub open spec fn named_flag(params: Seq<(Seq<char>, Seq<char>)>, name: Seq<char>) -> bool {
    match named_text(params, name) {
        Some(t) => is_set(t),
        None => false,
    }
}

pub fn get_text<'a>(params: &'a Vec<(char, String)>, letter: char) -> (r: Option<&'a str>)
    ensures
        lettered_text(lettered(params@), letter) == match r {
            Some(t) => Some(t@),
            None => None,
        },
{
    let ghost all = lettered(params@);
    let mut i: usize = 0;
    assert(all.skip(0) == all);
    while i < params.len()
        invariant
            i <= params@.len(),
            all == lettered(params@),
            lettered_text(all, letter) == lettered_text(all.skip(i as int), letter),
        decreases params.len() - i,
    {
        assert(all.skip(i as int)[0] == all[i as int]);
        if params[i].0 == letter {
            return Some(params[i].1.as_str());
        }
        assert(all.skip(i as int).skip(1) == all.skip(i + 1));
        i = i + 1;
    }
    None
}

pub fn get_number(params: &Vec<(char, String)>, letter: char) -> (r: Option<Double>)
    ensures
        r == lettered_number(lettered(params@), letter),
{
    match get_text(params, letter) {
        Some(t) => parse_double(t),
        None => None,
    }
}

pub fn get_named_text<'a>(params: &'a Vec<(String, String)>, name: &str) -> (r: Option<&'a str>)
    ensures
        named_text(named(params@), name@) == match r {
            Some(t) => Some(t@),
            None => None,
        },
{
    let ghost all = named(params@);
    let mut i: usize = 0;
    assert(all.skip(0) == all);
    while i < params.len()
        invariant
            i <= params@.len(),
            all == named(params@),
            named_text(all, name@) == named_text(all.skip(i as int), name@),
        decreases params.len() - i,
    {
        assert(all.skip(i as int)[0] == all[i as int]);
        if same(params[i].0.as_str(), name) {
            return Some(params[i].1.as_str());
        }
        assert(all.skip(i as int).skip(1) == all.skip(i + 1));
        i = i + 1;
    }
    None
}

pub fn get_named_number(params: &Vec<(String, String)>, name: &str) -> (r: Option<Double>)
    ensures
        r == named_number(named(params@), name@),
{
    match get_named_text(params, name) {
        Some(t) => parse_double(t),
        None => None,
    }
}

pub fn get_flag(params: &Vec<(String, String)>, name: &str) -> (r: bool)
    ensures
        r == named_flag(named(params@), name@),
{
    match get_named_text(params, name) {
        Some(t) => match parse_integer(t) {
            Some(v) => v >= i64::MIN as i128 && v <= i64::MAX as i128 && v != 0,
            None => false,
        },
        None => false,
    }
}

impl GCodeOperation {
    pub fn is_nop(&self) -> (r: bool)
        ensures
            r == (*self is Nop),
    {
        match self {
            GCodeOperation::Nop => true,
            _ => false,
        }
    }
}

/// The index of the first white space at or after `i`, or the length.
pub open spec fn space_from(s: Seq<char>, i: int) -> int
    decreases s.len() - i,
{
    if i >= s.len() || is_space(s[i]) {
        i
    } else {
        space_from(s, i + 1)
    }
}

proof fn lemma_space_range(s: Seq<char>, i: int)
    requires
        0 <= i <= s.len(),
    ensures
        i <= space_from(s, i) <= s.len(),
        i < s.len() && !is_space(s[i]) ==> space_from(s, i) > i,
    decreases s.len() - i,
{
    if i < s.len() && !is_space(s[i]) {
        lemma_space_range(s, i + 1);
    }
}

proof fn lemma_trim_start(s: Seq<char>)
    ensures
        trim_start(s).len() <= s.len(),
        trim_start(s).len() > 0 ==> !is_space(trim_start(s)[0]),
    decreases s.len(),
{
    if s.len() > 0 && is_space(s[0]) {
        lemma_trim_start(s.skip(1));
    }
}

/// The words of a text, separated by white space.
pub open spec fn words(s: Seq<char>) -> Seq<Seq<char>>
    decreases s.len(),
    via words_decreases
{
    let t = trim_start(s);
    if t.len() == 0 {
        Seq::empty()
    } else {
        let k = space_from(t, 0);
        seq![t.take(k)] + words(t.skip(k))
    }
}

#[via_fn]
proof fn words_decreases(s: Seq<char>) {
    lemma_trim_start(s);
    lemma_space_range(trim_start(s), 0);
}

fn find_space(s: &str) -> (r: usize)
    ensures
        r == space_from(s@, 0),
        r <= s@.len(),
{
    let v: Vec<char> = chars_of(s);
    let mut i: usize = 0;
    while i < v.len() && !is_space(v[i])
        invariant
            i <= v@.len(),
            v@ == s@,
            space_from(s@, 0) == space_from(s@, i as int),
        decreases v.len() - i,
    {
        i = i + 1;
    }
    i
}

/// The texts of a list of words.
pub open spec fn word_views(v: Seq<&str>) -> Seq<Seq<char>> {
    Seq::new(v.len(), |i: int| v[i]@)
}

pub fn split_words<'a>(s: &'a str) -> (r: Vec<&'a str>)
    ensures
        word_views(r@) == words(s@),
{
    let mut out: Vec<&'a str> = Vec::new();
    let mut rest: &'a str = s;
    loop
        invariant_except_break
            words(s@) == word_views(out@) + words(rest@),
        ensures
            words(s@) == word_views(out@),
        decreases rest@.len(),
    {
        proof {
            lemma_trim_start(rest@);
            lemma_space_range(trim_start(rest@), 0);
        }
        let t = trimmed_start(rest);
        let n: usize = t.unicode_len();
        if n == 0 {
            assert(word_views(out@) + words(rest@) == word_views(out@));
            break;
        }
        let k: usize = find_space(t);
        let word = t.substring_char(0, k);
        let tail = t.substring_char(k, n);
        assert(word@ == t@.take(k as int));
        assert(tail@ == t@.skip(k as int));
        let ghost before = word_views(out@);
        out.push(word);
        assert(word_views(out@) == before.push(word@));
        assert(before + (seq![word@] + words(tail@)) == before.push(word@) + words(tail@));
        rest = tail;
    }
    out
}

pub open spec fn is_letter(c: char) -> bool {
    ('A' <= c && c <= 'Z') || ('a' <= c && c <= 'z')
}

/// The letter and number of a word such as `G1`.
pub open spec fn classic_head(word: Seq<char>) -> Option<(char, u16)> {
    if word.len() >= 2 && is_letter(word[0]) && all_digits(word.skip(1)) && digits_value(
        word.skip(1),
    ) <= u16::MAX {
        Some((upper_char(word[0]), digits_value(word.skip(1)) as u16))
    } else {
        None
    }
}

/// Whether a word can name a command.
pub open spec fn is_name(word: Seq<char>) -> bool {
    word.len() > 0 && is_letter(word[0]) && forall|i: int|
        0 <= i < word.len() ==> is_name_char(#[trigger] word[i])
}

pub open spec fn is_name_char(c: char) -> bool {
    is_letter(c) || is_digit(c) || c == '_' || c == '.'
}

/// Lettered parameters; words that do not begin with a letter are skipped.
pub open spec fn classic_params(w: Seq<Seq<char>>) -> Seq<(char, Seq<char>)>
    decreases w.len(),
{
    if w.len() == 0 {
        Seq::empty()
    } else {
        let before = classic_params(w.drop_last());
        let word = w.last();
        if word.len() > 0 && is_letter(word[0]) {
            before.push((upper_char(word[0]), word.skip(1)))
        } else {
            before
        }
    }
}

/// Named parameters; words without an equals sign are skipped.
pub open spec fn named_params(w: Seq<Seq<char>>) -> Seq<(Seq<char>, Seq<char>)>
    decreases w.len(),
{
    if w.len() == 0 {
        Seq::empty()
    } else {
        let before = named_params(w.drop_last());
        match split_once(w.last(), '=') {
            Some((name, value)) => before.push((lower(name), value)),
            None => before,
        }
    }
}

/// A move coordinate: absent, a number, or malformed.
pub open spec fn coordinate_ok(params: Seq<(char, Seq<char>)>, letter: char) -> bool {
    lettered_text(params, letter) is Some ==> lettered_number(params, letter) is Some
}

/// The operation that a line without its comment denotes.
pub open spec fn operation_of(body: Seq<char>) -> Option<OperationView> {
    let w = words(body);
    if w.len() == 0 {
        Some(OperationView::Nop)
    } else {
        match classic_head(w[0]) {
            Some((letter, code)) => {
                let params = classic_params(w.skip(1));
                if letter == 'G' && code <= 1 {
                    if coordinate_ok(params, 'X') && coordinate_ok(params, 'Y') && coordinate_ok(
                        params,
                        'Z',
                    ) && coordinate_ok(params, 'E') && coordinate_ok(params, 'F') {
                        Some(
                            OperationView::Move {
                                x: lettered_number(params, 'X'),
                                y: lettered_number(params, 'Y'),
                                z: lettered_number(params, 'Z'),
                                e: lettered_number(params, 'E'),
                                f: lettered_number(params, 'F'),
                            },
                        )
                    } else {
                        None
                    }
                } else {
                    Some(OperationView::Traditional { letter, code, params })
                }
            },
            None => if is_name(w[0]) {
                Some(
                    OperationView::Extended {
                        command: lower(w[0]),
                        params: named_params(w.skip(1)),
                    },
                )
            } else {
                None
            },
        }
    }
}

/// The command that a line denotes: everything after the first semicolon is a comment.
pub open spec fn command_of(line: Seq<char>) -> Option<CommandView> {
    let i = first(line, ';');
    match operation_of(line.take(i)) {
        Some(op) => Some(
            CommandView {
                op,
                comment: if i < line.len() {
                    Some(line.skip(i + 1))
                } else {
                    None
                },
                arc: Seq::empty(),
                skew: [None, None, None],
            },
        ),
        None => None,
    }
}

fn letter_of(c: char) -> (r: Option<char>)
    ensures
        r == (if is_letter(c) {
            Some(upper_char(c))
        } else {
            None
        }),
{
    if 'A' <= c && c <= 'Z' {
        Some(c)
    } else if 'a' <= c && c <= 'z' {
        Some((c as u8 - 32) as char)
    } else {
        None
    }
}

fn read_classic_head(word: &str) -> (r: Option<(char, u16)>)
    ensures
        r == classic_head(word@),
{
    let v: Vec<char> = chars_of(word);
    let ghost tail = word@.skip(1);
    if v.len() < 2 {
        return None;
    }
    let letter: char = match letter_of(v[0]) {
        Some(c) => c,
        None => {
            return None;
        },
    };
    let mut code: u64 = 0;
    let mut i: usize = 1;
    assert(tail.take(0) == Seq::<char>::empty());
    while i < v.len()
        invariant
            1 <= i <= v@.len(),
            v@ == word@,
            v@.len() >= 2,
            tail == word@.skip(1),
            forall|j: int| 0 <= j < i - 1 ==> is_digit(#[trigger] tail[j]),
            code <= 0xffff_ffff,
            code == digits_value(tail.take(i - 1)) || (code > u16::MAX && digits_value(
                tail.take(i - 1),
            ) > u16::MAX),
        decreases v.len() - i,
    {
        let c: char = v[i];
        assert(tail[i - 1] == c);
        if !('0' <= c && c <= '9') {
            assert(!is_digit(tail[i - 1]));
            return None;
        }
        proof {
            assert(tail.take(i as int) == tail.take(i - 1).push(c));
            lemma_digits_push(tail.take(i - 1), c);
        }
        if code <= u16::MAX as u64 {
            code = 10 * code + (c as u32 - 48) as u64;
        }
        i = i + 1;
    }
    assert(tail.take(i - 1) == tail);
    if code <= u16::MAX as u64 {
        Some((letter, code as u16))
    } else {
        None
    }
}

fn name_is_valid(word: &str) -> (r: bool)
    ensures
        r == is_name(word@),
{
    let v: Vec<char> = chars_of(word);
    if v.len() == 0 || letter_of(v[0]).is_none() {
        return false;
    }
    let mut i: usize = 0;
    while i < v.len()
        invariant
            i <= v@.len(),
            v@ == word@,
            forall|j: int| 0 <= j < i ==> is_name_char(#[trigger] word@[j]),
        decreases v.len() - i,
    {
        let c: char = v[i];
        if letter_of(c).is_none() && !('0' <= c && c <= '9') && c != '_' && c != '.' {
            assert(!is_name_char(word@[i as int]));
            return false;
        }
        i = i + 1;
    }
    true
}

fn read_classic_params(w: &Vec<&str>) -> (r: Vec<(char, String)>)
    requires
        w@.len() >= 1,
    ensures
        lettered(r@) == classic_params(word_views(w@).skip(1)),
{
    let ghost all = word_views(w@).skip(1);
    let mut out: Vec<(char, String)> = Vec::new();
    let mut i: usize = 1;
    assert(lettered(out@) == Seq::<(char, Seq<char>)>::empty());
    assert(all.take(0) == Seq::<Seq<char>>::empty());
    while i < w.len()
        invariant
            1 <= i <= w@.len(),
            all == word_views(w@).skip(1),
            lettered(out@) == classic_params(all.take(i - 1)),
        decreases w.len() - i,
    {
        let word: &str = w[i];
        assert(all.take(i as int).drop_last() == all.take(i - 1));
        assert(all.take(i as int).last() == word@);
        let ghost before = lettered(out@);
        let n: usize = word.unicode_len();
        if n > 0 {
            if let Some(letter) = letter_of(word.get_char(0)) {
                let value = word.substring_char(1, n);
                assert(value@ == word@.skip(1));
                out.push((letter, value.to_owned()));
                assert(lettered(out@) == before.push((letter, value@)));
            }
        }
        i = i + 1;
    }
    assert(all.take(i - 1) == all);
    out
}

fn read_named_params(w: &Vec<&str>) -> (r: Vec<(String, String)>)
    requires
        w@.len() >= 1,
    ensures
        named(r@) == named_params(word_views(w@).skip(1)),
{
    let ghost all = word_views(w@).skip(1);
    let mut out: Vec<(String, String)> = Vec::new();
    let mut i: usize = 1;
    assert(named(out@) == Seq::<(Seq<char>, Seq<char>)>::empty());
    assert(all.take(0) == Seq::<Seq<char>>::empty());
    while i < w.len()
        invariant
            1 <= i <= w@.len(),
            all == word_views(w@).skip(1),
            named(out@) == named_params(all.take(i - 1)),
        decreases w.len() - i,
    {
        let word: &str = w[i];
        assert(all.take(i as int).drop_last() == all.take(i - 1));
        assert(all.take(i as int).last() == word@);
        let ghost before = named(out@);
        if let Some((name, value)) = split_at_char(word, '=') {
            out.push((to_lower(name), value.to_owned()));
            assert(named(out@) == before.push((lower(name@), value@)));
        }
        i = i + 1;
    }
    assert(all.take(i - 1) == all);
    out
}

/// A coordinate of a move: `Err` when it is present and malformed.
fn read_coordinate(params: &Vec<(char, String)>, letter: char) -> (r: Result<Option<Double>, ()>)
    ensures
        r is Ok == coordinate_ok(lettered(params@), letter),
        r matches Ok(v) ==> v == lettered_number(lettered(params@), letter),
{
    match get_text(params, letter) {
        Some(t) => match parse_double(t) {
            Some(v) => Ok(Some(v)),
            None => Err(()),
        },
        None => Ok(None),
    }
}

fn parse_operation(body: &str) -> (r: Option<GCodeOperation>)
    ensures
        operation_of(body@) == match r {
            Some(op) => Some(op@),
            None => None,
        },
{
    let w: Vec<&str> = split_words(body);
    if w.len() == 0 {
        return Some(GCodeOperation::Nop);
    }
    assert(word_views(w@)[0] == w@[0]@);
    match read_classic_head(w[0]) {
        Some((letter, code)) => {
            let params = read_classic_params(&w);
            if letter == 'G' && code <= 1 {
                match (
                    read_coordinate(&params, 'X'),
                    read_coordinate(&params, 'Y'),
                    read_coordinate(&params, 'Z'),
                    read_coordinate(&params, 'E'),
                    read_coordinate(&params, 'F'),
                ) {
                    (Ok(x), Ok(y), Ok(z), Ok(e), Ok(f)) => Some(
                        GCodeOperation::Move { x, y, z, e, f },
                    ),
                    _ => None,
                }
            } else {
                Some(GCodeOperation::Traditional { letter, code, params })
            }
        },
        None => if name_is_valid(w[0]) {
            let command = to_lower(w[0]);
            let params = read_named_params(&w);
            Some(GCodeOperation::Extended { command, params })
        } else {
            None
        },
    }
}

/// Reads one line of G-code.
pub fn parse_gcode(line: &str) -> (r: Option<GCodeCommand>)
    ensures
        command_of(line@) == match r {
            Some(c) => Some(c@),
            None => None,
        },
{
    let i: usize = find_char(line, ';');
    let n: usize = line.unicode_len();
    let body = line.substring_char(0, i);
    assert(body@ == line@.take(i as int));
    let comment: Option<String> = if i < n {
        let c = line.substring_char(i + 1, n);
        assert(c@ == line@.skip(i + 1));
        Some(c.to_owned())
    } else {
        None
    };
    match parse_operation(body) {
        Some(op) => {
            let r = GCodeCommand {
                op,
                comment,
                resolution: Resolution { arc: Vec::new(), skew: [None, None, None] },
            };
            assert(r@.arc == Seq::<Vec4>::empty());
            Some(r)
        },
        None => None,
    }
}

} // verus!
