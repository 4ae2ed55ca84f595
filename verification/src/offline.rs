//! Reading of Klipper configuration files.

use vstd::prelude::*;

use crate::errors::Outcome;
use crate::errors::SnapshotError;
use crate::table::in_order;
use crate::table::inserted;
use crate::table::lemma_before_irreflexive;
use crate::table::lemma_deep;
use crate::table::lemma_inserted_in_order;
use crate::table::lemma_lookup_inserted;
use crate::table::lemma_position;
use crate::table::lemma_position_is;
use crate::table::lookup;
use crate::table::position;
use crate::table::Table;
use crate::text::chars_of;
use crate::text::has_prefix;
use crate::text::is_space;
use crate::text::lower;
use crate::text::same;
use crate::text::split;
use crate::text::split_char;
use crate::text::starts_with;
use crate::text::strip_prefix;
use crate::text::strip_suffix;
use crate::text::to_lower;
use crate::text::trim;
use crate::text::trimmed;
use crate::text::views;

verus! {

/// The options of a section.
pub type Options = Table<String>;

/// Options by section.
pub type Sections = Table<Table<String>>;

pub type OptionsView = Seq<(Seq<char>, Seq<char>)>;

pub type SectionsView = Seq<(Seq<char>, OptionsView)>;

/// The options of a section, or none.
pub open spec fn options_in(s: SectionsView, section: Seq<char>) -> OptionsView {
    match lookup(s, section) {
        Some(o) => o,
        None => Seq::empty(),
    }
}

/// The sections with an option set.
pub open spec fn with_option(
    s: SectionsView,
    section: Seq<char>,
    option: Seq<char>,
    value: Seq<char>,
) -> SectionsView {
    inserted(s, section, inserted(options_in(s, section), option, value))
}

fn set_option(sections: &mut Sections, section: &str, option: &str, value: String)
    ensures
        final(sections).deep_view() == with_option(
            old(sections).deep_view(),
            section@,
            option@,
            value@,
        ),
{
    let ghost before = sections.deep_view();
    let ghost raw = sections@;
    let i: usize = sections.index_of(section);
    proof {
        lemma_deep(sections@, section@);
        lemma_position(sections@, section@);
    }
    if i < sections.len() {
        let (name, options): (String, Table<String>) = sections.entries.remove(i);
        let mut options: Table<String> = options;
        proof {
            assert(raw[i as int].1 == options);
            assert(before[i as int].1 == options.deep_view());
        }
        options.put(option, value);
        let ghost changed = options.deep_view();
        sections.entries.insert(i, (name, options));
        assert(sections.deep_view() == before.update(i as int, (section@, changed)));
    } else {
        let mut options: Table<String> = Table::new();
        assert(options.deep_view() == OptionsView::empty());
        options.put(option, value);
        sections.put(section, options);
    }
}

/// The sections with a section that may be new.
pub open spec fn with_section(s: SectionsView, section: Seq<char>) -> SectionsView {
    match lookup(s, section) {
        Some(_) => s,
        None => inserted(s, section, Seq::empty()),
    }
}

fn open_section(sections: &mut Sections, section: &str)
    ensures
        final(sections).deep_view() == with_section(old(sections).deep_view(), section@),
{
    if sections.find(section).is_none() {
        let options: Table<String> = Table::new();
        assert(options.deep_view() == OptionsView::empty());
        sections.put(section, options);
    }
}

/// The text with `\r\n` as `\n`.
pub open spec fn unified(s: Seq<char>) -> Seq<char>
    decreases s.len(),
{
    if s.len() == 0 {
        s
    } else if s.len() >= 2 && s[0] == '\r' && s[1] == '\n' {
        seq!['\n'] + unified(s.skip(2))
    } else {
        seq![s[0]] + unified(s.skip(1))
    }
}

/// The text with `\r\n` as `\n`.
pub fn unify_line_ends(s: &str) -> (r: String)
    ensures
        r@ == unified(s@),
{
    let v: Vec<char> = chars_of(s);
    let mut out: String = String::new();
    let mut i: usize = 0;
    assert(s@.skip(0) == s@);
    assert(out@ + unified(s@) == unified(s@));
    while i < v.len()
        invariant
            i <= v@.len(),
            v@ == s@,
            unified(s@) == out@ + unified(s@.skip(i as int)),
        decreases v.len() - i,
    {
        let ghost rest = s@.skip(i as int);
        let ghost done = out@;
        if i + 1 < v.len() && v[i] == '\r' && v[i + 1] == '\n' {
            out.push('\n');
            proof {
                assert(rest.skip(2) == s@.skip(i + 2));
                assert(done + (seq!['\n'] + unified(s@.skip(i + 2))) == done.push('\n') + unified(
                    s@.skip(i + 2),
                ));
            }
            i = i + 2;
        } else {
            let c: char = v[i];
            out.push(c);
            proof {
                assert(rest.skip(1) == s@.skip(i + 1));
                assert(done + (seq![c] + unified(s@.skip(i + 1))) == done.push(c) + unified(
                    s@.skip(i + 1),
                ));
            }
            i = i + 1;
        }
    }
    assert(s@.skip(i as int) == Seq::<char>::empty());
    assert(out@ + Seq::<char>::empty() == out@);
    out
}

/// A line that ended in `\n`, without the `\r` before it.
pub open spec fn without_return(s: Seq<char>) -> Seq<char> {
    if s.len() > 0 && s.last() == '\r' {
        s.drop_last()
    } else {
        s
    }
}

/// The lines of a text, without their ends.
pub open spec fn lines(s: Seq<char>) -> Seq<Seq<char>> {
    let pieces = split(s, '\n');
    let n = if pieces.last().len() == 0 {
        (pieces.len() - 1) as nat
    } else {
        pieces.len()
    };
    Seq::new(
        n,
        |i: int|
            if i < pieces.len() - 1 {
                without_return(pieces[i])
            } else {
                pieces[i]
            },
    )
}

/// The lines of a text, without their ends.
pub fn lines_of<'a>(s: &'a str) -> (r: Vec<&'a str>)
    ensures
        views(r@) == lines(s@),
{
    let pieces: Vec<&'a str> = split_char(s, '\n');
    let ghost parts = split(s@, '\n');
    let mut out: Vec<&'a str> = Vec::new();
    let last: usize = pieces.len() - 1;
    assert(parts.len() == pieces@.len() && parts.last() == pieces@[last as int]@);
    let mut i: usize = 0;
    while i < last
        invariant
            i <= last,
            last == pieces@.len() - 1,
            parts == views(pieces@),
            out@.len() == i,
            forall|k: int| 0 <= k < i ==> (#[trigger] out@[k])@ == without_return(parts[k]),
        decreases last - i,
    {
        let piece: &'a str = pieces[i];
        assert(parts[i as int] == piece@);
        let kept: &'a str = match strip_suffix(piece, "\r") {
            Some(head) => head,
            None => piece,
        };
        proof {
            reveal_strlit("\r");
            if piece@.len() > 0 {
                assert(piece@.skip(piece@.len() - 1) == seq![piece@.last()]);
                assert("\r"@ == seq!['\r']);
                if piece@.last() != '\r' {
                    assert(seq![piece@.last()][0] != "\r"@[0]);
                }
                assert(piece@.take(piece@.len() - 1) == piece@.drop_last());
            }
        }
        out.push(kept);
        i = i + 1;
    }
    if pieces[last].unicode_len() > 0 {
        out.push(pieces[last]);
    }
    assert(views(out@) == lines(s@));
    out
}

/// Texts with line ends between them.
pub open spec fn joined_lines(parts: Seq<Seq<char>>) -> Seq<char>
    decreases parts.len(),
{
    if parts.len() == 0 {
        Seq::empty()
    } else if parts.len() == 1 {
        parts[0]
    } else {
        joined_lines(parts.drop_last()) + seq!['\n'] + parts.last()
    }
}

/// Texts with line ends between them.
pub fn join_lines(parts: &Vec<&str>) -> (r: String)
    ensures
        r@ == joined_lines(views(parts@)),
{
    let mut out: String = String::new();
    let mut i: usize = 0;
    assert(views(parts@).take(0) == Seq::<Seq<char>>::empty());
    while i < parts.len()
        invariant
            i <= parts@.len(),
            out@ == joined_lines(views(parts@).take(i as int)),
        decreases parts.len() - i,
    {
        let ghost done = out@;
        if i > 0 {
            out.push('\n');
        }
        out.append(parts[i]);
        proof {
            let t = views(parts@).take(i + 1);
            assert(t.drop_last() == views(parts@).take(i as int));
            assert(t.last() == parts@[i as int]@);
            if i == 0 {
                assert(out@ == parts@[0]@);
            } else {
                assert(done.push('\n') + parts@[i as int]@ == done + seq!['\n']
                    + parts@[i as int]@);
            }
        }
        i = i + 1;
    }
    assert(views(parts@).take(i as int) == views(parts@));
    out
}

/// A fault in a file.
pub fn offline_parse_error(path: &str, line: usize, message: &str) -> (r: SnapshotError)
    ensures
        r@ == (SnapshotError::OfflineParse { path: path@, line, message: message@ }),
{
    SnapshotError::OfflineParse {
        path: path.to_owned(),
        line,
        message: message.to_owned(),
    }
}

/// The number of a line; what does not fit counts as the largest number.
pub open spec fn line_number(line: int) -> usize {
    if line < usize::MAX {
        line as usize
    } else {
        usize::MAX
    }
}

/// The number of the line that is `i` lines after another one.
pub fn line_after(start: usize, i: usize) -> (r: usize)
    ensures
        r == line_number(start + i),
{
    match start.checked_add(i) {
        Some(n) => n,
        None => usize::MAX,
    }
}

pub open spec fn parse_fault(path: Seq<char>, line: int, message: Seq<char>) -> SnapshotError<
    Seq<char>,
> {
    SnapshotError::OfflineParse { path, line: line_number(line), message }
}

/// The index of the first line that equals `text`, or the number of lines.
pub open spec fn line_index(all: Seq<Seq<char>>, text: Seq<char>) -> int
    decreases all.len(),
{
    if all.len() == 0 {
        0
    } else if all[0] == text {
        0
    } else {
        1 + line_index(all.skip(1), text)
    }
}

fn find_line(all: &Vec<&str>, text: &str) -> (r: usize)
    ensures
        r == line_index(views(all@), text@),
        r <= all@.len(),
{
    let mut i: usize = 0;
    let ghost v = views(all@);
    assert(v.skip(0) == v);
    while i < all.len()
        invariant
            i <= all@.len(),
            v == views(all@),
            line_index(v, text@) == i + line_index(v.skip(i as int), text@),
        decreases all.len() - i,
    {
        assert(v.skip(i as int)[0] == all@[i as int]@);
        if same(all[i], text) {
            return i;
        }
        assert(v.skip(i as int).skip(1) == v.skip(i + 1));
        i = i + 1;
    }
    i
}

/// Whether one of the first `n` lines starts with `text`.
pub open spec fn some_line_starts(all: Seq<Seq<char>>, n: int, text: Seq<char>) -> bool {
    exists|i: int| 0 <= i < n && has_prefix(#[trigger] all[i], text)
}

fn any_line_starts(all: &Vec<&str>, n: usize, text: &str) -> (r: bool)
    requires
        n <= all@.len(),
    ensures
        r == some_line_starts(views(all@), n as int, text@),
{
    let mut i: usize = 0;
    let ghost v = views(all@);
    while i < n
        invariant
            i <= n <= all@.len(),
            v == views(all@),
            forall|k: int| 0 <= k < i ==> !has_prefix(#[trigger] v[k], text@),
        decreases n - i,
    {
        assert(v[i as int] == all@[i as int]@);
        if starts_with(all[i], text) {
            return true;
        }
        i = i + 1;
    }
    false
}

/// The content of a line of saved values.
pub open spec fn saved_line(s: Seq<char>) -> Option<Seq<char>> {
    if s.len() == 0 || s == "#*#"@ {
        Some(Seq::empty())
    } else if has_prefix(s, "#*# "@) {
        Some(s.skip("#*# "@.len() as int))
    } else {
        None
    }
}

/// The contents of lines of saved values, up to the first that is none.
pub open spec fn saved_lines(all: Seq<Seq<char>>) -> Seq<Seq<char>>
    decreases all.len(),
{
    if all.len() == 0 {
        Seq::empty()
    } else {
        match saved_line(all[0]) {
            Some(t) => seq![t] + saved_lines(all.skip(1)),
            None => Seq::empty(),
        }
    }
}

/// The regular text of a file and the values saved at its end.
pub open spec fn save_config(path: Seq<char>, data: Seq<char>) -> Outcome<
    (Seq<char>, Option<Seq<char>>),
> {
    let all = split(unified(data), '\n');
    let at = line_index(all, "#*# <---------------------- SAVE_CONFIG ---------------------->"@);
    let saved = saved_lines(all.skip(at + 3));
    if at >= all.len() {
        if some_line_starts(all, all.len() as int, "#*# "@) {
            Err(parse_fault(path, 1, "corrupted SAVE_CONFIG marker"@))
        } else {
            Ok((unified(data), None))
        }
    } else if at + 2 >= all.len() || all[at + 1]
        != "#*# DO NOT EDIT THIS BLOCK OR BELOW. The contents are auto-generated."@ || all[at + 2]
        != "#*#"@ {
        Err(parse_fault(path, at + 1, "corrupted SAVE_CONFIG header"@))
    } else if some_line_starts(all, at, "#*# "@) {
        Err(parse_fault(path, at + 1, "duplicate or misplaced SAVE_CONFIG data"@))
    } else if saved.len() < all.len() - at - 3 {
        Err(
            parse_fault(
                path,
                at + 4 + saved.len(),
                "content after SAVE_CONFIG header is not auto-generated data"@,
            ),
        )
    } else {
        Ok((joined_lines(all.take(at)), Some(joined_lines(saved))))
    }
}

fn decode_saved_line<'a>(line: &'a str) -> (r: Option<&'a str>)
    ensures
        saved_line(line@) == match r {
            Some(t) => Some(t@),
            None => None,
        },
{
    if line.unicode_len() == 0 || same(line, "#*#") {
        let empty: &'a str = line.substring_char(0, 0);
        assert(empty@ == Seq::<char>::empty());
        Some(empty)
    } else {
        strip_prefix(line, "#*# ")
    }
}

fn decode_saved_lines<'a>(all: &Vec<&'a str>, from: usize) -> (r: Vec<&'a str>)
    requires
        from <= all@.len(),
    ensures
        views(r@) == saved_lines(views(all@).skip(from as int)),
        r@.len() <= all@.len() - from,
{
    let mut decoded: Vec<&'a str> = Vec::new();
    let mut i: usize = from;
    let ghost v = views(all@);
    assert(views(decoded@) + saved_lines(v.skip(from as int)) == saved_lines(v.skip(from as int)));
    loop
        invariant_except_break
            from <= i <= all@.len(),
            v == views(all@),
            decoded@.len() == i - from,
            saved_lines(v.skip(from as int)) == views(decoded@) + saved_lines(v.skip(i as int)),
        ensures
            views(decoded@) == saved_lines(v.skip(from as int)),
            decoded@.len() <= all@.len() - from,
        decreases all.len() - i,
    {
        if i >= all.len() {
            assert(v.skip(i as int).len() == 0);
            assert(views(decoded@) + Seq::<Seq<char>>::empty() == views(decoded@));
            break;
        }
        assert(v.skip(i as int)[0] == all@[i as int]@);
        match decode_saved_line(all[i]) {
            Some(t) => {
                proof {
                    assert(v.skip(i as int).skip(1) == v.skip(i + 1));
                    assert(views(decoded@.push(t)) == views(decoded@).push(t@));
                    assert(views(decoded@) + (seq![t@] + saved_lines(v.skip(i + 1))) == views(
                        decoded@,
                    ).push(t@) + saved_lines(v.skip(i + 1)));
                }
                decoded.push(t);
                i = i + 1;
            },
            None => {
                assert(views(decoded@) + Seq::<Seq<char>>::empty() == views(decoded@));
                break;
            },
        }
    }
    decoded
}

/// Splits the values that Klipper saved at the end of a file off its regular text.
pub fn split_save_config(path: &str, data: &str) -> (r: Result<
    (String, Option<String>),
    SnapshotError,
>)
    ensures
        save_config(path@, data@) == match r {
            Ok((regular, Some(saved))) => Ok((regular@, Some(saved@))),
            Ok((regular, None)) => Ok((regular@, None)),
            Err(e) => Err(e@),
        },
{
    let normalized: String = unify_line_ends(data);
    let mut all: Vec<&str> = split_char(normalized.as_str(), '\n');
    let ghost v = views(all@);
    assert(v.len() == all@.len());
    let at: usize = find_line(
        &all,
        "#*# <---------------------- SAVE_CONFIG ---------------------->",
    );
    if at >= all.len() {
        if any_line_starts(&all, all.len(), "#*# ") {
            return Err(offline_parse_error(path, 1, "corrupted SAVE_CONFIG marker"));
        }
        return Ok((unify_line_ends(data), None));
    }
    if all.len() - at <= 2 {
        return Err(offline_parse_error(path, at + 1, "corrupted SAVE_CONFIG header"));
    }
    assert(v[at + 1] == all@[at + 1]@ && v[at + 2] == all@[at + 2]@);
    if !same(
        all[at + 1],
        "#*# DO NOT EDIT THIS BLOCK OR BELOW. The contents are auto-generated.",
    ) || !same(all[at + 2], "#*#") {
        return Err(offline_parse_error(path, at + 1, "corrupted SAVE_CONFIG header"));
    }
    if any_line_starts(&all, at, "#*# ") {
        return Err(offline_parse_error(path, at + 1, "duplicate or misplaced SAVE_CONFIG data"));
    }
    let saved: Vec<&str> = decode_saved_lines(&all, at + 3);
    assert(views(saved@).len() == saved@.len());
    if saved.len() < all.len() - at - 3 {
        return Err(
            offline_parse_error(
                path,
                at + 4 + saved.len(),
                "content after SAVE_CONFIG header is not auto-generated data",
            ),
        );
    }
    all.truncate(at);
    assert(views(all@) == v.take(at as int));
    Ok((join_lines(&all), Some(join_lines(&saved))))
}

/// Whether a `;` at index `i` starts a comment: at the start of a line or after white space.
pub open spec fn starts_comment(s: Seq<char>, i: int) -> bool {
    s[i] == '#' || (s[i] == ';' && (i == 0 || is_space(s[i - 1])))
}

/// The index at which the comment of a line starts, or its length.
pub open spec fn comment_start(s: Seq<char>, i: int) -> int
    decreases s.len() - i,
{
    if i >= s.len() {
        s.len() as int
    } else if starts_comment(s, i) {
        i
    } else {
        comment_start(s, i + 1)
    }
}

/// A line without its comment.
pub open spec fn uncommented(s: Seq<char>) -> Seq<char> {
    s.take(comment_start(s, 0))
}

/// A line without its comment.
pub fn strip_ini_comment<'a>(line: &'a str) -> (r: &'a str)
    ensures
        r@ == uncommented(line@),
{
    let v: Vec<char> = chars_of(line);
    let mut i: usize = 0;
    while i < v.len() && !(v[i] == '#' || (v[i] == ';' && (i == 0 || is_space(v[i - 1]))))
        invariant
            i <= v@.len(),
            v@ == line@,
            comment_start(line@, 0) == comment_start(line@, i as int),
        decreases v.len() - i,
    {
        i = i + 1;
    }
    let r = line.substring_char(0, i);
    assert(r@ == line@.take(i as int));
    r
}

/// The name between the brackets of a section header.
pub open spec fn header_of(s: Seq<char>) -> Option<Seq<char>> {
    if s.len() >= 2 && s[0] == '[' && s.last() == ']' {
        Some(trim(s.subrange(1, s.len() - 1)))
    } else {
        None
    }
}

/// The name between the brackets of a section header.
pub fn section_header<'a>(line: &'a str) -> (r: Option<&'a str>)
    ensures
        header_of(line@) == match r {
            Some(t) => Some(t@),
            None => None,
        },
{
    let n: usize = line.unicode_len();
    if n < 2 || line.get_char(0) != '[' || line.get_char(n - 1) != ']' {
        return None;
    }
    let inner = line.substring_char(1, n - 1);
    assert(inner@ == line@.subrange(1, line@.len() - 1));
    Some(trimmed(inner))
}

/// What has been read of a chunk.
#[verifier::ext_equal]
pub struct ChunkState {
    pub sections: SectionsView,
    pub section: Option<Seq<char>>,
    pub option: Option<Seq<char>>,
}

/// The index of the first `=` or `:`, or the length.
pub open spec fn delimiter(s: Seq<char>, i: int) -> int
    decreases s.len() - i,
{
    if i >= s.len() {
        s.len() as int
    } else if s[i] == '=' || s[i] == ':' {
        i
    } else {
        delimiter(s, i + 1)
    }
}

fn find_delimiter(s: &str) -> (r: usize)
    ensures
        r == delimiter(s@, 0),
        r <= s@.len(),
{
    let v: Vec<char> = chars_of(s);
    let mut i: usize = 0;
    while i < v.len() && v[i] != '=' && v[i] != ':'
        invariant
            i <= v@.len(),
            v@ == s@,
            delimiter(s@, 0) == delimiter(s@, i as int),
        decreases v.len() - i,
    {
        i = i + 1;
    }
    i
}

impl ChunkState {
    /// The state after a section header.
    pub open spec fn headed(self, path: Seq<char>, number: int, header: Seq<char>) -> Outcome<
        ChunkState,
    > {
        if header.len() == 0 || has_prefix(header, "include "@) {
            Err(parse_fault(path, number, "invalid section header"@))
        } else {
            Ok(
                ChunkState {
                    sections: with_section(self.sections, lower(header)),
                    section: Some(lower(header)),
                    option: None,
                },
            )
        }
    }

    /// The state after a line that continues the value of an option.
    pub open spec fn continued(self, path: Seq<char>, number: int, text: Seq<char>) -> Outcome<
        ChunkState,
    > {
        match (self.section, self.option) {
            (None, _) => Err(parse_fault(path, number, "continuation without a section"@)),
            (Some(_), None) => Err(parse_fault(path, number, "continuation without an option"@)),
            (Some(section), Some(option)) => Ok(
                ChunkState {
                    sections: match lookup(options_in(self.sections, section), option) {
                        Some(value) => with_option(
                            self.sections,
                            section,
                            option,
                            value + seq!['\n'] + text,
                        ),
                        None => self.sections,
                    },
                    ..self
                },
            ),
        }
    }

    /// The state after a line that sets an option.
    pub open spec fn set(self, path: Seq<char>, number: int, text: Seq<char>) -> Outcome<
        ChunkState,
    > {
        let d = delimiter(text, 0);
        let option = lower(trim(text.take(d)));
        match self.section {
            None => Err(parse_fault(path, number, "option outside a section"@)),
            Some(section) => if d >= text.len() {
                Err(parse_fault(path, number, "option must use '=' or ':'"@))
            } else if option.len() == 0 {
                Err(parse_fault(path, number, "empty option name"@))
            } else {
                Ok(
                    ChunkState {
                        sections: with_option(
                            self.sections,
                            section,
                            option,
                            trim(text.skip(d + 1)),
                        ),
                        option: Some(option),
                        ..self
                    },
                )
            },
        }
    }

    /// The state after a line.
    pub open spec fn after(self, path: Seq<char>, number: int, line: Seq<char>) -> Outcome<
        ChunkState,
    > {
        let text = trim(uncommented(line));
        if text.len() == 0 {
            Ok(self)
        } else {
            match header_of(text) {
                Some(header) => self.headed(path, number, header),
                None => if is_space(line[0]) {
                    self.continued(path, number, text)
                } else {
                    self.set(path, number, text)
                },
            }
        }
    }

    /// The state after the first `i` lines, and the fault of the first faulty line.
    pub open spec fn after_lines(
        self,
        path: Seq<char>,
        start: int,
        all: Seq<Seq<char>>,
        i: int,
    ) -> (ChunkState, Option<SnapshotError<Seq<char>>>)
        decreases i,
    {
        if i <= 0 {
            (self, None)
        } else {
            match self.after_lines(path, start, all, i - 1) {
                (state, Some(e)) => (state, Some(e)),
                (state, None) => match state.after(path, start + i - 1, all[i - 1]) {
                    Ok(next) => (next, None),
                    Err(e) => (state, Some(e)),
                },
            }
        }
    }
}

/// A fault stays the first one.
proof fn lemma_fault_stays(
    state: ChunkState,
    path: Seq<char>,
    start: int,
    all: Seq<Seq<char>>,
    i: int,
    j: int,
)
    requires
        0 <= i <= j,
        state.after_lines(path, start, all, i).1 is Some,
    ensures
        state.after_lines(path, start, all, j) == state.after_lines(path, start, all, i),
    decreases j,
{
    if i < j {
        lemma_fault_stays(state, path, start, all, i, j - 1);
    }
}

/// The sections after a chunk of lines, and what is wrong with it.
pub open spec fn after_chunk(
    sections: SectionsView,
    path: Seq<char>,
    start: int,
    data: Seq<char>,
) -> (SectionsView, Option<SnapshotError<Seq<char>>>) {
    let all = lines(data);
    let (state, fault) = ChunkState { sections, section: None, option: None }.after_lines(
        path,
        start,
        all,
        all.len() as int,
    );
    (state.sections, fault)
}

fn text_of(t: &Option<String>) -> (r: Option<&str>)
    ensures
        t matches Some(s) ==> r matches Some(x) && x@ == s@,
        *t is None ==> r is None,
{
    match t {
        Some(s) => Some(s.as_str()),
        None => None,
    }
}

pub open spec fn viewed(t: Option<String>) -> Option<Seq<char>> {
    match t {
        Some(s) => Some(s@),
        None => None,
    }
}

fn read_header(
    path: &str,
    number: usize,
    header: &str,
    sections: &mut Sections,
    section: &mut Option<String>,
    option: &mut Option<String>,
) -> (r: Result<(), SnapshotError>)
    ensures
        ({
            let state = ChunkState {
                sections: old(sections).deep_view(),
                section: viewed(*old(section)),
                option: viewed(*old(option)),
            };
            let next = ChunkState {
                sections: final(sections).deep_view(),
                section: viewed(*final(section)),
                option: viewed(*final(option)),
            };
            match (state.headed(path@, number as int, header@), r) {
                (Ok(s), Ok(())) => next == s,
                (Err(e), Err(f)) => f@ == e && next == state,
                _ => false,
            }
        }),
{
    if header.unicode_len() == 0 || starts_with(header, "include ") {
        return Err(offline_parse_error(path, number, "invalid section header"));
    }
    let name: String = to_lower(header);
    open_section(sections, name.as_str());
    *section = Some(name);
    *option = None;
    Ok(())
}

fn read_continuation(
    path: &str,
    number: usize,
    text: &str,
    sections: &mut Sections,
    section: &Option<String>,
    option: &Option<String>,
) -> (r: Result<(), SnapshotError>)
    ensures
        ({
            let state = ChunkState {
                sections: old(sections).deep_view(),
                section: viewed(*section),
                option: viewed(*option),
            };
            let next = ChunkState { sections: final(sections).deep_view(), ..state };
            match (state.continued(path@, number as int, text@), r) {
                (Ok(s), Ok(())) => next == s,
                (Err(e), Err(f)) => f@ == e && next == state,
                _ => false,
            }
        }),
{
    let section: &str = match text_of(section) {
        Some(s) => s,
        None => {
            return Err(offline_parse_error(path, number, "continuation without a section"));
        },
    };
    let option: &str = match text_of(option) {
        Some(s) => s,
        None => {
            return Err(offline_parse_error(path, number, "continuation without an option"));
        },
    };
    let known: Option<String> = match sections.find(section) {
        Some(options) => match options.find(option) {
            Some(value) => Some(value.clone()),
            None => None,
        },
        None => {
            assert(lookup(OptionsView::empty(), option@) is None);
            None
        },
    };
    if let Some(value) = known {
        let mut value: String = value;
        let ghost before = value@;
        value.push('\n');
        value.append(text);
        assert(value@ == before + seq!['\n'] + text@);
        set_option(sections, section, option, value);
    }
    Ok(())
}

fn read_option(
    path: &str,
    number: usize,
    text: &str,
    sections: &mut Sections,
    section: &Option<String>,
    option: &mut Option<String>,
) -> (r: Result<(), SnapshotError>)
    ensures
        ({
            let state = ChunkState {
                sections: old(sections).deep_view(),
                section: viewed(*section),
                option: viewed(*old(option)),
            };
            let next = ChunkState {
                sections: final(sections).deep_view(),
                option: viewed(*final(option)),
                ..state
            };
            match (state.set(path@, number as int, text@), r) {
                (Ok(s), Ok(())) => next == s,
                (Err(e), Err(f)) => f@ == e && next == state,
                _ => false,
            }
        }),
{
    let section: &str = match text_of(section) {
        Some(s) => s,
        None => {
            return Err(offline_parse_error(path, number, "option outside a section"));
        },
    };
    let d: usize = find_delimiter(text);
    let n: usize = text.unicode_len();
    if d >= n {
        return Err(offline_parse_error(path, number, "option must use '=' or ':'"));
    }
    let head = text.substring_char(0, d);
    let tail = text.substring_char(d + 1, n);
    assert(head@ == text@.take(d as int));
    assert(tail@ == text@.skip(d + 1));
    let name: String = to_lower(trimmed(head));
    if name.as_str().unicode_len() == 0 {
        return Err(offline_parse_error(path, number, "empty option name"));
    }
    set_option(sections, section, name.as_str(), trimmed(tail).to_owned());
    *option = Some(name);
    Ok(())
}

fn first_is_space(line: &str) -> (r: bool)
    requires
        line@.len() > 0,
    ensures
        r == is_space(line@[0]),
{
    is_space(line.get_char(0))
}

/// Reads a chunk of lines into the sections.
pub fn parse_ini_chunk(path: &str, start_line: usize, data: &str, sections: &mut Sections) -> (r:
    Result<(), SnapshotError>)
    ensures
        (
            final(sections).deep_view(),
            match r {
                Ok(()) => None,
                Err(e) => Some(e@),
            },
        ) == after_chunk(old(sections).deep_view(), path@, start_line as int, data@),
{
    let all: Vec<&str> = lines_of(data);
    let ghost v = lines(data@);
    let ghost initial = ChunkState {
        sections: sections.deep_view(),
        section: None,
        option: None,
    };
    let mut section: Option<String> = None;
    let mut option: Option<String> = None;
    let mut i: usize = 0;
    while i < all.len()
        invariant
            i <= all@.len(),
            v == views(all@),
            v == lines(data@),
            initial == (ChunkState {
                sections: old(sections).deep_view(),
                section: None,
                option: None,
            }),
            initial.after_lines(path@, start_line as int, v, i as int) == (
                ChunkState {
                    sections: sections.deep_view(),
                    section: viewed(section),
                    option: viewed(option),
                },
                None::<SnapshotError<Seq<char>>>,
            ),
        decreases all.len() - i,
    {
        let line: &str = all[i];
        let number: usize = line_after(start_line, i);
        assert(v[i as int] == line@);
        let text: &str = trimmed(strip_ini_comment(line));
        let ghost state = ChunkState {
            sections: sections.deep_view(),
            section: viewed(section),
            option: viewed(option),
        };
        if text.unicode_len() > 0 {
            proof {
                if line@.len() == 0 {
                    assert(uncommented(line@) == Seq::<char>::empty());
                }
            }
            let step: Result<(), SnapshotError> = match section_header(text) {
                Some(header) => read_header(
                    path,
                    number,
                    header,
                    sections,
                    &mut section,
                    &mut option,
                ),
                None => if first_is_space(line) {
                    read_continuation(path, number, text, sections, &section, &option)
                } else {
                    read_option(path, number, text, sections, &section, &mut option)
                },
            };
            if let Err(e) = step {
                proof {
                    assert(initial.after_lines(path@, start_line as int, v, i + 1).1 is Some);
                    lemma_fault_stays(
                        initial,
                        path@,
                        start_line as int,
                        v,
                        i + 1,
                        v.len() as int,
                    );
                }
                return Err(e);
            }
        }
        i = i + 1;
    }
    Ok(())
}

/// The value of an option.
pub open spec fn option_value(s: SectionsView, section: Seq<char>, option: Seq<char>) -> Option<
    Seq<char>,
> {
    lookup(options_in(s, section), option)
}

/// The sections with an option set that is not set yet.
pub open spec fn with_default(
    s: SectionsView,
    section: Seq<char>,
    option: Seq<char>,
    value: Seq<char>,
) -> SectionsView {
    match option_value(s, section, option) {
        Some(_) => s,
        None => with_option(s, section, option, value),
    }
}

/// The sections with the first `i` options of a section as defaults.
pub open spec fn with_defaults(
    s: SectionsView,
    section: Seq<char>,
    options: OptionsView,
    i: int,
) -> SectionsView
    decreases i,
{
    if i <= 0 {
        with_section(s, section)
    } else {
        with_default(
            with_defaults(s, section, options, i - 1),
            section,
            options[i - 1].0,
            options[i - 1].1,
        )
    }
}

/// The sections with the options of the first `i` other sections as defaults.
pub open spec fn merged(s: SectionsView, saved: SectionsView, i: int) -> SectionsView
    decreases i,
{
    if i <= 0 {
        s
    } else {
        with_defaults(
            merged(s, saved, i - 1),
            saved[i - 1].0,
            saved[i - 1].1,
            saved[i - 1].1.len() as int,
        )
    }
}

/// Adds saved values where no other value is set.
pub fn merge_saved(sections: &mut Sections, saved: &Sections)
    ensures
        final(sections).deep_view() == merged(
            old(sections).deep_view(),
            saved.deep_view(),
            saved.deep_view().len() as int,
        ),
{
    let ghost before = sections.deep_view();
    let ghost other = saved.deep_view();
    let mut i: usize = 0;
    while i < saved.len()
        invariant
            i <= saved@.len(),
            other == saved.deep_view(),
            sections.deep_view() == merged(before, other, i as int),
        decreases saved@.len() - i,
    {
        let section: &str = saved.key_at(i);
        let options: &Options = saved.value_at(i);
        let ghost reached = sections.deep_view();
        let ghost o = options.deep_view();
        assert(other[i as int] == (section@, o));
        open_section(sections, section);
        let mut k: usize = 0;
        while k < options.len()
            invariant
                k <= options@.len(),
                o == options.deep_view(),
                sections.deep_view() == with_defaults(reached, section@, o, k as int),
            decreases options@.len() - k,
        {
            let option: &str = options.key_at(k);
            let value: &String = options.value_at(k);
            assert(o[k as int] == (option@, value@));
            let known: bool = match sections.find(section) {
                Some(present) => present.find(option).is_some(),
                None => {
                    assert(lookup(OptionsView::empty(), option@) is None);
                    false
                },
            };
            if !known {
                set_option(sections, section, option, value.clone());
            }
            k = k + 1;
        }
        i = i + 1;
    }
}

/// Setting an option changes that option alone.
pub proof fn setting_an_option_changes_it_alone(
    s: SectionsView,
    section: Seq<char>,
    option: Seq<char>,
    value: Seq<char>,
    other_section: Seq<char>,
    other_option: Seq<char>,
)
    ensures
        option_value(with_option(s, section, option, value), other_section, other_option) == if (
        other_section == section && other_option == option) {
            Some(value)
        } else {
            option_value(s, other_section, other_option)
        },
{
    let inner = inserted(options_in(s, section), option, value);
    lemma_lookup_inserted(s, section, inner, other_section);
    lemma_lookup_inserted(options_in(s, section), option, value, other_option);
}

proof fn lemma_defaults(
    s: SectionsView,
    section: Seq<char>,
    options: OptionsView,
    i: int,
    other_section: Seq<char>,
    other_option: Seq<char>,
)
    requires
        0 <= i <= options.len(),
    ensures
        option_value(with_defaults(s, section, options, i), other_section, other_option)
            == match option_value(s, other_section, other_option) {
            Some(v) => Some(v),
            None => if other_section == section {
                lookup(options.take(i), other_option)
            } else {
                None
            },
        },
    decreases i,
{
    if i <= 0 {
        assert(options.take(0).len() == 0);
        lemma_lookup_inserted(s, section, OptionsView::empty(), other_section);
        assert(lookup(OptionsView::empty(), other_option) is None);
    } else {
        lemma_defaults(s, section, options, i - 1, other_section, other_option);
        lemma_defaults(s, section, options, i - 1, section, options[i - 1].0);
        setting_an_option_changes_it_alone(
            with_defaults(s, section, options, i - 1),
            section,
            options[i - 1].0,
            options[i - 1].1,
            other_section,
            other_option,
        );
        lemma_lookup_push(options.take(i - 1), options[i - 1], other_option);
        lemma_lookup_push(options.take(i - 1), options[i - 1], options[i - 1].0);
        assert(options.take(i) == options.take(i - 1).push(options[i - 1]));
    }
}

/// A key is found in front of a later entry.
proof fn lemma_lookup_push<V>(s: Seq<(Seq<char>, V)>, e: (Seq<char>, V), key: Seq<char>)
    ensures
        lookup(s.push(e), key) == match lookup(s, key) {
            Some(v) => Some(v),
            None => if e.0 == key {
                Some(e.1)
            } else {
                None
            },
        },
{
    lemma_position(s, key);
    lemma_position(s.push(e), key);
    let p = position(s, key);
    if p < s.len() {
        lemma_position_is(s.push(e), key, p);
    } else if e.0 == key {
        lemma_position_is(s.push(e), key, s.len() as int);
    }
}

proof fn lemma_merged(
    s: SectionsView,
    saved: SectionsView,
    i: int,
    section: Seq<char>,
    option: Seq<char>,
)
    requires
        0 <= i <= saved.len(),
        in_order(saved),
    ensures
        option_value(merged(s, saved, i), section, option) == match option_value(
            s,
            section,
            option,
        ) {
            Some(v) => Some(v),
            None => option_value(saved.take(i), section, option),
        },
    decreases i,
{
    if i <= 0 {
        assert(saved.take(0).len() == 0);
        assert(lookup(OptionsView::empty(), option) is None);
    } else {
        let (name, options) = saved[i - 1];
        lemma_merged(s, saved, i - 1, section, option);
        lemma_defaults(
            merged(s, saved, i - 1),
            name,
            options,
            options.len() as int,
            section,
            option,
        );
        assert(options.take(options.len() as int) == options);
        assert(saved.take(i) == saved.take(i - 1).push(saved[i - 1]));
        lemma_lookup_push(saved.take(i - 1), saved[i - 1], section);
        lemma_position(saved.take(i - 1), name);
        let p = position(saved.take(i - 1), name);
        if p < i - 1 {
            assert(saved.take(i - 1)[p].0 == saved[p].0);
            lemma_before_irreflexive(name);
        }
        assert(lookup(OptionsView::empty(), option) is None);
    }
}

/// A saved value counts exactly where the regular text sets none.
pub proof fn saved_values_fill_gaps(
    s: SectionsView,
    saved: SectionsView,
    section: Seq<char>,
    option: Seq<char>,
)
    requires
        in_order(saved),
    ensures
        option_value(merged(s, saved, saved.len() as int), section, option) == match option_value(
            s,
            section,
            option,
        ) {
            Some(v) => Some(v),
            None => option_value(saved, section, option),
        },
{
    lemma_merged(s, saved, saved.len() as int, section, option);
    assert(saved.take(saved.len() as int) == saved);
}

proof fn lemma_section_in_order(s: SectionsView, section: Seq<char>)
    requires
        in_order(s),
    ensures
        in_order(with_section(s, section)),
{
    lemma_inserted_in_order(s, section, OptionsView::empty());
}

proof fn lemma_lines_in_order(
    state: ChunkState,
    path: Seq<char>,
    start: int,
    all: Seq<Seq<char>>,
    i: int,
)
    requires
        in_order(state.sections),
    ensures
        in_order(state.after_lines(path, start, all, i).0.sections),
    decreases i,
{
    if i > 0 {
        lemma_lines_in_order(state, path, start, all, i - 1);
        let (prior, _) = state.after_lines(path, start, all, i - 1);
        let text = trim(uncommented(all[i - 1]));
        if let Some(header) = header_of(text) {
            lemma_section_in_order(prior.sections, lower(header));
        }
        if let Some(section) = prior.section {
            let d = delimiter(text, 0);
            lemma_inserted_in_order(
                prior.sections,
                section,
                inserted(
                    options_in(prior.sections, section),
                    lower(trim(text.take(d))),
                    trim(text.skip(d + 1)),
                ),
            );
            if let Some(option) = prior.option {
                if let Some(value) = option_value(prior.sections, section, option) {
                    lemma_inserted_in_order(
                        prior.sections,
                        section,
                        inserted(
                            options_in(prior.sections, section),
                            option,
                            value + seq!['\n'] + text,
                        ),
                    );
                }
            }
        }
    }
}

/// Reading keeps the sections in the order of their names, each once.
pub proof fn reading_keeps_sections_in_order(
    s: SectionsView,
    path: Seq<char>,
    start: int,
    data: Seq<char>,
)
    requires
        in_order(s),
    ensures
        in_order(after_chunk(s, path, start, data).0),
{
    lemma_lines_in_order(
        ChunkState { sections: s, section: None, option: None },
        path,
        start,
        lines(data),
        lines(data).len() as int,
    );
}

/// Whether two chunk states are at the same place, and the options of the first are those of the
/// second and, where it has none, those of `s`.
spec fn mirrors(x: ChunkState, y: ChunkState, s: SectionsView) -> bool {
    &&& x.section == y.section
    &&& x.option == y.option
    &&& y.option is Some ==> y.section is Some && option_value(
        y.sections,
        y.section->0,
        y.option->0,
    ) is Some
    &&& forall|a: Seq<char>, b: Seq<char>| #[trigger]
        option_value(x.sections, a, b) == match option_value(y.sections, a, b) {
            Some(v) => Some(v),
            None => option_value(s, a, b),
        }
}

proof fn lemma_section_opened(s: SectionsView, section: Seq<char>, a: Seq<char>, b: Seq<char>)
    ensures
        option_value(with_section(s, section), a, b) == option_value(s, a, b),
{
    if lookup(s, section) is None {
        lemma_lookup_inserted(s, section, OptionsView::empty(), a);
    }
}

proof fn lemma_mirrored_option(
    x: ChunkState,
    y: ChunkState,
    s: SectionsView,
    section: Seq<char>,
    option: Seq<char>,
    value: Seq<char>,
)
    requires
        mirrors(x, y, s),
        y.section == Some(section),
    ensures
        mirrors(
            ChunkState {
                sections: with_option(x.sections, section, option, value),
                option: Some(option),
                ..x
            },
            ChunkState {
                sections: with_option(y.sections, section, option, value),
                option: Some(option),
                ..y
            },
            s,
        ),
{
    let p = with_option(x.sections, section, option, value);
    let q = with_option(y.sections, section, option, value);
    assert forall|a: Seq<char>, b: Seq<char>| #[trigger]
        option_value(p, a, b) == match option_value(q, a, b) {
            Some(v) => Some(v),
            None => option_value(s, a, b),
        } by {
        setting_an_option_changes_it_alone(x.sections, section, option, value, a, b);
        setting_an_option_changes_it_alone(y.sections, section, option, value, a, b);
        assert(option_value(x.sections, a, b) == option_value(x.sections, a, b));
    }
    setting_an_option_changes_it_alone(y.sections, section, option, value, section, option);
}

proof fn lemma_mirrored_line(
    x: ChunkState,
    y: ChunkState,
    s: SectionsView,
    path: Seq<char>,
    number: int,
    line: Seq<char>,
)
    requires
        mirrors(x, y, s),
    ensures
        match (x.after(path, number, line), y.after(path, number, line)) {
            (Ok(p), Ok(q)) => mirrors(p, q, s),
            (Err(a), Err(b)) => a == b,
            _ => false,
        },
{
    let text = trim(uncommented(line));
    if text.len() > 0 {
        match header_of(text) {
            Some(header) => {
                let name = lower(header);
                let p = with_section(x.sections, name);
                let q = with_section(y.sections, name);
                assert forall|a: Seq<char>, b: Seq<char>| #[trigger]
                    option_value(p, a, b) == match option_value(q, a, b) {
                        Some(v) => Some(v),
                        None => option_value(s, a, b),
                    } by {
                    lemma_section_opened(x.sections, name, a, b);
                    lemma_section_opened(y.sections, name, a, b);
                    assert(option_value(x.sections, a, b) == option_value(x.sections, a, b));
                }
            },
            None => {
                if is_space(line[0]) {
                    if let (Some(section), Some(option)) = (y.section, y.option) {
                        assert(option_value(x.sections, section, option) == option_value(
                            y.sections,
                            section,
                            option,
                        ));
                        let value = option_value(y.sections, section, option)->0;
                        lemma_mirrored_option(
                            x,
                            y,
                            s,
                            section,
                            option,
                            value + seq!['\n'] + text,
                        );
                    }
                } else if let Some(section) = y.section {
                    let d = delimiter(text, 0);
                    lemma_mirrored_option(
                        x,
                        y,
                        s,
                        section,
                        lower(trim(text.take(d))),
                        trim(text.skip(d + 1)),
                    );
                }
            },
        }
    }
}

proof fn lemma_mirrored_lines(
    x: ChunkState,
    y: ChunkState,
    s: SectionsView,
    path: Seq<char>,
    start: int,
    all: Seq<Seq<char>>,
    i: int,
)
    requires
        mirrors(x, y, s),
    ensures
        x.after_lines(path, start, all, i).1 == y.after_lines(path, start, all, i).1,
        mirrors(
            x.after_lines(path, start, all, i).0,
            y.after_lines(path, start, all, i).0,
            s,
        ),
    decreases i,
{
    if i > 0 {
        lemma_mirrored_lines(x, y, s, path, start, all, i - 1);
        let (p, e) = x.after_lines(path, start, all, i - 1);
        let (q, f) = y.after_lines(path, start, all, i - 1);
        if e is None {
            lemma_mirrored_line(p, q, s, path, start + i - 1, all[i - 1]);
        }
    }
}

/// Later text wins: an option that a chunk sets has the value that the chunk sets by itself, and
/// every other option keeps its value. What is faulty is faulty whatever was read before.
pub proof fn later_text_wins(
    s: SectionsView,
    path: Seq<char>,
    start: int,
    data: Seq<char>,
    section: Seq<char>,
    option: Seq<char>,
)
    ensures
        ({
            let (after, fault) = after_chunk(s, path, start, data);
            let (own, own_fault) = after_chunk(Seq::empty(), path, start, data);
            &&& fault == own_fault
            &&& option_value(after, section, option) == match option_value(own, section, option) {
                Some(v) => Some(v),
                None => option_value(s, section, option),
            }
        }),
{
    let x = ChunkState { sections: s, section: None, option: None };
    let y = ChunkState { sections: Seq::empty(), section: None, option: None };
    assert(mirrors(x, y, s)) by {
        assert forall|a: Seq<char>, b: Seq<char>| #[trigger]
            option_value(y.sections, a, b) is None by {
            assert(lookup(y.sections, a) is None);
            assert(lookup(OptionsView::empty(), b) is None);
        }
    }
    let all = lines(data);
    lemma_mirrored_lines(x, y, s, path, start, all, all.len() as int);
    let p = x.after_lines(path, start, all, all.len() as int).0;
    assert(option_value(p.sections, section, option) == option_value(p.sections, section, option));
}

} // verus!
