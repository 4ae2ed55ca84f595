//! How configuration files name other files.

use vstd::prelude::*;

use crate::errors::SnapshotError;
use crate::kinds::texts;
use crate::offline::header_of;
use crate::offline::join_lines;
use crate::offline::joined_lines;
use crate::offline::line_after;
use crate::offline::line_number;
use crate::offline::lines;
use crate::offline::lines_of;
use crate::offline::section_header;
use crate::offline::strip_ini_comment;
use crate::offline::uncommented;
use crate::table::before;
use crate::table::lemma_before_irreflexive;
use crate::table::lemma_before_total;
use crate::table::lemma_before_transitive;
use crate::table::text_before;
use crate::text::chars_of;
use crate::text::first;
use crate::text::has_prefix;
use crate::text::lemma_first_range;
use crate::text::same;
use crate::text::split;
use crate::text::split_char;
use crate::text::starts_with;
use crate::text::strip_prefix;
use crate::text::trim;
use crate::text::trimmed;
use crate::text::views;

verus! {

/// A part of a configuration file.
#[allow(inconsistent_fields)]
#[derive(Clone, Debug)]
pub enum Piece<S = String> {
    /// Lines to be read, the first of which has the number `start`.
    Chunk { start: usize, text: S },
    /// Other files to be read.
    Files { pattern: S },
}

impl View for Piece {
    type V = Piece<Seq<char>>;

    open spec fn view(&self) -> Piece<Seq<char>> {
        match *self {
            Piece::Chunk { start, text } => Piece::Chunk { start, text: text@ },
            Piece::Files { pattern } => Piece::Files { pattern: pattern@ },
        }
    }
}

pub open spec fn pieces_of(v: Seq<Piece>) -> Seq<Piece<Seq<char>>> {
    Seq::new(v.len(), |i: int| v[i]@)
}

/// What has been cut off a text so far.
#[verifier::ext_equal]
pub struct CutState {
    pub pieces: Seq<Piece<Seq<char>>>,
    pub chunk: Seq<Seq<char>>,
    pub start: int,
    /// The line of an inclusion that names no files.
    pub fault: Option<int>,
}

impl CutState {
    /// The open chunk as a piece.
    pub open spec fn open_chunk(self) -> Piece<Seq<char>> {
        Piece::Chunk { start: line_number(self.start), text: joined_lines(self.chunk) }
    }

    /// The state after a line.
    pub open spec fn after(self, line: Seq<char>, index: int) -> CutState {
        match header_of(trim(uncommented(line))) {
            Some(header) => if has_prefix(header, "include "@) {
                CutState {
                    pieces: self.pieces.push(self.open_chunk()).push(
                        Piece::Files { pattern: trim(header.skip("include "@.len() as int)) },
                    ),
                    chunk: Seq::empty(),
                    start: index + 2,
                    ..self
                }
            } else if header == "include"@ {
                CutState { fault: Some(index + 1), ..self }
            } else {
                CutState { chunk: self.chunk.push(line), ..self }
            },
            None => CutState { chunk: self.chunk.push(line), ..self },
        }
    }
}

/// The state after the first `i` lines, or up to a fault.
pub open spec fn cut_lines(all: Seq<Seq<char>>, i: int) -> CutState
    decreases i,
{
    if i <= 0 {
        CutState { pieces: Seq::empty(), chunk: Seq::empty(), start: 1, fault: None }
    } else {
        let prior = cut_lines(all, i - 1);
        if prior.fault is Some {
            prior
        } else {
            prior.after(all[i - 1], i - 1)
        }
    }
}

/// The pieces of a text that come before its end or its fault, and the line of the fault.
pub open spec fn cut(data: Seq<char>) -> (Seq<Piece<Seq<char>>>, Option<int>) {
    let all = lines(data);
    let state = cut_lines(all, all.len() as int);
    match state.fault {
        Some(line) => (state.pieces, Some(line)),
        None => (state.pieces.push(state.open_chunk()), None),
    }
}

proof fn lemma_cut_stops(all: Seq<Seq<char>>, i: int, j: int)
    requires
        0 <= i <= j,
        cut_lines(all, i).fault is Some,
    ensures
        cut_lines(all, j) == cut_lines(all, i),
    decreases j,
{
    if i < j {
        lemma_cut_stops(all, i, j - 1);
    }
}

/// Cuts a text into chunks of lines and the names of other files between them. With an empty
/// inclusion comes its line.
pub fn parse_offline_text(data: &str) -> (r: (Vec<Piece>, Option<usize>))
    ensures
        cut(data@) == (
            pieces_of(r.0@),
            match r.1 {
                Some(line) => Some(line as int),
                None => None,
            },
        ),
{
    let all: Vec<&str> = lines_of(data);
    let ghost v = lines(data@);
    let mut pieces: Vec<Piece> = Vec::new();
    let mut chunk: Vec<&str> = Vec::new();
    let mut start: usize = 1;
    let mut i: usize = 0;
    assert(pieces_of(pieces@) == Seq::<Piece<Seq<char>>>::empty());
    assert(views(chunk@) == Seq::<Seq<char>>::empty());
    while i < all.len()
        invariant
            i <= all@.len(),
            v == views(all@),
            v == lines(data@),
            cut_lines(v, i as int) == (CutState {
                pieces: pieces_of(pieces@),
                chunk: views(chunk@),
                start: cut_lines(v, i as int).start,
                fault: None,
            }),
            start == line_number(cut_lines(v, i as int).start),
        decreases all.len() - i,
    {
        let line: &str = all[i];
        assert(v[i as int] == line@);
        let header: Option<&str> = section_header(trimmed(strip_ini_comment(line)));
        let mut named: Option<&str> = None;
        let mut empty: bool = false;
        if let Some(h) = header {
            named = strip_prefix(h, "include ");
            empty = same(h, "include");
        }
        if let Some(rest) = named {
            let text: String = join_lines(&chunk);
            let ghost done = pieces@;
            let ghost a = Piece::Chunk { start, text };
            pieces.push(Piece::Chunk { start, text });
            let pattern: String = trimmed(rest).to_owned();
            let ghost b = Piece::Files { pattern };
            pieces.push(Piece::Files { pattern });
            assert(pieces_of(pieces@) == pieces_of(done).push(a@).push(b@));
            chunk = Vec::new();
            assert(views(chunk@) == Seq::<Seq<char>>::empty());
            start = line_after(i, 2);
        } else if empty {
            proof {
                lemma_cut_stops(v, i + 1, v.len() as int);
            }
            return (pieces, Some(i + 1));
        } else {
            assert(views(chunk@.push(line)) == views(chunk@).push(line@));
            chunk.push(line);
        }
        i = i + 1;
    }
    let text: String = join_lines(&chunk);
    let ghost done = pieces@;
    let ghost a = Piece::Chunk { start, text };
    pieces.push(Piece::Chunk { start, text });
    assert(pieces_of(pieces@) == pieces_of(done).push(a@));
    (pieces, None)
}

/// Whether a name holds a pattern character.
pub open spec fn magic(s: Seq<char>) -> bool {
    exists|i: int| 0 <= i < s.len() && (#[trigger] s[i] == '*' || s[i] == '?' || s[i] == '[')
}

pub fn has_magic(s: &str) -> (r: bool)
    ensures
        r == magic(s@),
{
    let v: Vec<char> = chars_of(s);
    let mut i: usize = 0;
    while i < v.len()
        invariant
            i <= v@.len(),
            v@ == s@,
            forall|k: int|
                0 <= k < i ==> #[trigger] s@[k] != '*' && s@[k] != '?' && s@[k] != '[',
        decreases v.len() - i,
    {
        if v[i] == '*' || v[i] == '?' || v[i] == '[' {
            assert(s@[i as int] == v@[i as int]);
            return true;
        }
        i = i + 1;
    }
    false
}

/// Whether a character class from index `i` on holds `c`; `a-z` is a range.
pub open spec fn class_has(class: Seq<char>, i: int, c: char) -> bool
    decreases class.len() - i,
{
    if i >= class.len() {
        false
    } else if i + 2 < class.len() && class[i + 1] == '-' {
        (class[i] <= c && c <= class[i + 2]) || class_has(class, i + 3, c)
    } else {
        class[i] == c || class_has(class, i + 1, c)
    }
}

/// Whether a class that may begin with a negation holds `c`.
pub open spec fn class_admits(class: Seq<char>, c: char) -> bool {
    if class.len() > 0 && (class[0] == '!' || class[0] == '^') {
        !class_has(class.skip(1), 0, c)
    } else {
        class_has(class, 0, c)
    }
}

/// The index of the first `]` at or after `i`, or the length.
pub open spec fn class_end(p: Seq<char>, i: int) -> int
    decreases p.len() - i,
{
    if i >= p.len() {
        p.len() as int
    } else if p[i] == ']' {
        i
    } else {
        class_end(p, i + 1)
    }
}

/// Whether a pattern from index `i` on matches a name from index `j` on.
pub open spec fn glob(p: Seq<char>, i: int, v: Seq<char>, j: int) -> bool
    decreases p.len() - i, v.len() - j,
{
    let end = class_end(p, i + 1);
    if i < 0 || j < 0 {
        false
    } else if i >= p.len() {
        j >= v.len()
    } else if p[i] == '*' {
        glob(p, i + 1, v, j) || (j < v.len() && glob(p, i, v, j + 1))
    } else if j >= v.len() {
        false
    } else if p[i] == '?' {
        glob(p, i + 1, v, j + 1)
    } else if p[i] == '[' && i < end < p.len() {
        class_admits(p.subrange(i + 1, end), v[j]) && glob(p, end + 1, v, j + 1)
    } else {
        p[i] == v[j] && glob(p, i + 1, v, j + 1)
    }
}

fn in_class(p: &Vec<char>, from: usize, to: usize, c: char) -> (r: bool)
    requires
        from <= to <= p@.len(),
    ensures
        r == class_admits(p@.subrange(from as int, to as int), c),
{
    let negated: bool = from < to && (p[from] == '!' || p[from] == '^');
    let first: usize = if negated {
        from + 1
    } else {
        from
    };
    let ghost class = p@.subrange(first as int, to as int);
    proof {
        if negated {
            assert(p@.subrange(from as int, to as int).skip(1) == class);
        }
        if from < to {
            assert(p@.subrange(from as int, to as int)[0] == p@[from as int]);
        }
    }
    let mut found: bool = false;
    let mut i: usize = first;
    while i < to
        invariant
            first <= i <= to <= p@.len(),
            class == p@.subrange(first as int, to as int),
            class_has(class, 0, c) == (found || class_has(class, i - first, c)),
        decreases to - i,
    {
        assert(class[i - first] == p@[i as int]);
        if to - i > 2 && p[i + 1] == '-' {
            assert(class[i - first + 1] == p@[i + 1]);
            assert(class[i - first + 2] == p@[i + 2]);
            found = found || (p[i] <= c && c <= p[i + 2]);
            i = i + 3;
        } else {
            if to - i > 2 {
                assert(class[i - first + 1] == p@[i + 1]);
            }
            found = found || p[i] == c;
            i = i + 1;
        }
    }
    found != negated
}

fn find_class_end(p: &Vec<char>, from: usize) -> (r: usize)
    requires
        from <= p@.len(),
    ensures
        r == class_end(p@, from as int),
        from <= r <= p@.len(),
{
    let mut i: usize = from;
    while i < p.len() && p[i] != ']'
        invariant
            from <= i <= p@.len(),
            class_end(p@, from as int) == class_end(p@, i as int),
        decreases p.len() - i,
    {
        i = i + 1;
    }
    i
}

fn glob_from(p: &Vec<char>, i: usize, v: &Vec<char>, j: usize) -> (r: bool)
    requires
        i <= p@.len(),
        j <= v@.len(),
    ensures
        r == glob(p@, i as int, v@, j as int),
    decreases p@.len() - i, v@.len() - j,
{
    if i >= p.len() {
        return j >= v.len();
    }
    if p[i] == '*' {
        return glob_from(p, i + 1, v, j) || (j < v.len() && glob_from(p, i, v, j + 1));
    }
    if j >= v.len() {
        return false;
    }
    if p[i] == '?' {
        return glob_from(p, i + 1, v, j + 1);
    }
    if p[i] == '[' {
        let end: usize = find_class_end(p, i + 1);
        if end < p.len() {
            return in_class(p, i + 1, end, v[j]) && glob_from(p, end + 1, v, j + 1);
        }
    }
    p[i] == v[j] && glob_from(p, i + 1, v, j + 1)
}

/// Whether a pattern with `*`, `?` and `[..]` matches a whole name.
pub fn glob_component_matches(pattern: &str, value: &str) -> (r: bool)
    ensures
        r == glob(pattern@, 0, value@, 0),
{
    let p: Vec<char> = chars_of(pattern);
    let v: Vec<char> = chars_of(value);
    glob_from(&p, 0, &v, 0)
}

/// Whether a directory entry belongs to a pattern; a hidden entry only to one that starts with
/// a dot.
pub open spec fn entry_fits(pattern: Seq<char>, name: Seq<char>) -> bool {
    (!has_prefix(name, "."@) || has_prefix(pattern, "."@)) && glob(pattern, 0, name, 0)
}

/// Lexicographic order of lists of texts.
pub open spec fn parts_before(a: Seq<Seq<char>>, b: Seq<Seq<char>>) -> bool
    decreases a.len(),
{
    if b.len() == 0 {
        false
    } else if a.len() == 0 {
        true
    } else if a[0] != b[0] {
        before(a[0], b[0])
    } else {
        parts_before(a.skip(1), b.skip(1))
    }
}

/// The order of paths, component by component.
pub open spec fn path_before(a: Seq<char>, b: Seq<char>) -> bool {
    parts_before(split(a, '/'), split(b, '/'))
}

fn compare_paths(a: &str, b: &str) -> (r: bool)
    ensures
        r == path_before(a@, b@),
{
    let x: Vec<&str> = split_char(a, '/');
    let y: Vec<&str> = split_char(b, '/');
    let ghost u = views(x@);
    let ghost w = views(y@);
    assert(u.skip(0) == u && w.skip(0) == w);
    let mut i: usize = 0;
    while i < x.len() && i < y.len()
        invariant
            u == views(x@),
            w == views(y@),
            u == split(a@, '/'),
            w == split(b@, '/'),
            i <= x@.len(),
            i <= y@.len(),
            parts_before(u, w) == parts_before(u.skip(i as int), w.skip(i as int)),
        decreases x.len() - i,
    {
        assert(u.skip(i as int)[0] == x@[i as int]@);
        assert(w.skip(i as int)[0] == y@[i as int]@);
        if !same(x[i], y[i]) {
            return text_before(x[i], y[i]);
        }
        assert(u.skip(i as int).skip(1) == u.skip(i + 1));
        assert(w.skip(i as int).skip(1) == w.skip(i + 1));
        i = i + 1;
    }
    i < y.len()
}

/// The number of leading paths that do not come after `t`.
pub open spec fn path_slot(s: Seq<Seq<char>>, t: Seq<char>) -> int
    decreases s.len(),
{
    if s.len() == 0 || path_before(t, s[0]) {
        0
    } else {
        1 + path_slot(s.skip(1), t)
    }
}

/// The first `i` paths, in order.
pub open spec fn sorted_paths(s: Seq<Seq<char>>, i: int) -> Seq<Seq<char>>
    decreases i,
{
    if i <= 0 {
        Seq::empty()
    } else {
        let prior = sorted_paths(s, i - 1);
        prior.insert(path_slot(prior, s[i - 1]), s[i - 1])
    }
}

proof fn lemma_path_slot(s: Seq<Seq<char>>, t: Seq<char>)
    ensures
        0 <= path_slot(s, t) <= s.len(),
    decreases s.len(),
{
    if s.len() > 0 && !path_before(t, s[0]) {
        lemma_path_slot(s.skip(1), t);
    }
}

fn insert_path(sorted: &mut Vec<String>, t: String)
    ensures
        texts(final(sorted)@) == texts(old(sorted)@).insert(
            path_slot(texts(old(sorted)@), t@),
            t@,
        ),
{
    let ghost s = texts(sorted@);
    assert(s.skip(0) == s);
    let mut k: usize = 0;
    while k < sorted.len() && !compare_paths(t.as_str(), sorted[k].as_str())
        invariant
            s == texts(sorted@),
            sorted@ == old(sorted)@,
            k <= sorted@.len(),
            path_slot(s, t@) == k + path_slot(s.skip(k as int), t@),
        decreases sorted.len() - k,
    {
        assert(s.skip(k as int)[0] == sorted@[k as int]@);
        assert(s.skip(k as int).skip(1) == s.skip(k + 1));
        k = k + 1;
    }
    if k < sorted.len() {
        assert(s.skip(k as int)[0] == sorted@[k as int]@);
    }
    let ghost name = t@;
    sorted.insert(k, t);
    assert(texts(sorted@) == s.insert(k as int, name));
}

/// Puts paths in order.
pub fn sort_paths(paths: Vec<String>) -> (r: Vec<String>)
    ensures
        texts(r@) == sorted_paths(texts(paths@), paths@.len() as int),
{
    let mut sorted: Vec<String> = Vec::new();
    let mut i: usize = 0;
    assert(texts(sorted@) == Seq::<Seq<char>>::empty());
    while i < paths.len()
        invariant
            i <= paths@.len(),
            texts(sorted@) == sorted_paths(texts(paths@), i as int),
        decreases paths.len() - i,
    {
        assert(texts(paths@)[i as int] == paths@[i as int]@);
        insert_path(&mut sorted, paths[i].clone());
        i = i + 1;
    }
    sorted
}

/// Those of the first `i` names that belong to a pattern.
pub open spec fn fitting(pattern: Seq<char>, names: Seq<Seq<char>>, i: int) -> Seq<Seq<char>>
    decreases i,
{
    if i <= 0 {
        Seq::empty()
    } else if entry_fits(pattern, names[i - 1]) {
        fitting(pattern, names, i - 1).push(names[i - 1])
    } else {
        fitting(pattern, names, i - 1)
    }
}

/// The entries of a directory that belong to a pattern, in order.
pub fn matching_entries(pattern: &str, names: Vec<String>) -> (r: Vec<String>)
    ensures
        texts(r@) == fitting(
            pattern@,
            sorted_paths(texts(names@), names@.len() as int),
            names@.len() as int,
        ),
{
    let ghost n = names@.len();
    let sorted: Vec<String> = sort_paths(names);
    proof {
        lemma_sorted_length(texts(names@), n as int);
    }
    let ghost s = texts(sorted@);
    assert(s.len() == n);
    let mut out: Vec<String> = Vec::new();
    let mut i: usize = 0;
    assert(texts(out@) == Seq::<Seq<char>>::empty());
    while i < sorted.len()
        invariant
            i <= sorted@.len(),
            s == texts(sorted@),
            texts(out@) == fitting(pattern@, s, i as int),
        decreases sorted.len() - i,
    {
        let name: &str = sorted[i].as_str();
        assert(s[i as int] == name@);
        if (!starts_with(name, ".") || starts_with(pattern, ".")) && glob_component_matches(
            pattern,
            name,
        ) {
            let ghost prior = out@;
            let kept: String = name.to_owned();
            let ghost k = kept;
            out.push(kept);
            assert(texts(out@) == texts(prior).push(k@));
        }
        i = i + 1;
    }
    out
}

proof fn lemma_sorted_length(s: Seq<Seq<char>>, i: int)
    requires
        0 <= i,
    ensures
        sorted_paths(s, i).len() == i,
    decreases i,
{
    if i > 0 {
        lemma_sorted_length(s, i - 1);
        lemma_path_slot(sorted_paths(s, i - 1), s[i - 1]);
    }
}

/// A component of a relative path.
#[derive(Clone, Debug)]
pub enum PathPart<S = String> {
    Parent,
    Name(S),
}

impl View for PathPart {
    type V = PathPart<Seq<char>>;

    open spec fn view(&self) -> PathPart<Seq<char>> {
        match *self {
            PathPart::Parent => PathPart::Parent,
            PathPart::Name(t) => PathPart::Name(t@),
        }
    }
}

pub open spec fn parts_of(v: Seq<PathPart>) -> Seq<PathPart<Seq<char>>> {
    Seq::new(v.len(), |i: int| v[i]@)
}

/// The components among the first `i` pieces of a path.
pub open spec fn components(pieces: Seq<Seq<char>>, i: int) -> Seq<PathPart<Seq<char>>>
    decreases i,
{
    if i <= 0 {
        Seq::empty()
    } else {
        let prior = components(pieces, i - 1);
        let piece = pieces[i - 1];
        if piece.len() == 0 || piece == "."@ {
            prior
        } else if piece == ".."@ {
            prior.push(PathPart::Parent)
        } else {
            prior.push(PathPart::Name(piece))
        }
    }
}

/// The components of a path.
pub open spec fn all_components(path: Seq<char>) -> Seq<PathPart<Seq<char>>> {
    components(split(path, '/'), split(path, '/').len() as int)
}

fn components_of(path: &str) -> (r: Vec<PathPart>)
    ensures
        parts_of(r@) == all_components(path@),
{
    let pieces: Vec<&str> = split_char(path, '/');
    let ghost v = split(path@, '/');
    let mut parts: Vec<PathPart> = Vec::new();
    let mut i: usize = 0;
    assert(parts_of(parts@) == Seq::<PathPart<Seq<char>>>::empty());
    while i < pieces.len()
        invariant
            i <= pieces@.len(),
            v == views(pieces@),
            parts_of(parts@) == components(v, i as int),
        decreases pieces.len() - i,
    {
        let piece: &str = pieces[i];
        assert(v[i as int] == piece@);
        let ghost prior = parts@;
        if piece.unicode_len() == 0 || same(piece, ".") {
        } else if same(piece, "..") {
            parts.push(PathPart::Parent);
            assert(parts_of(parts@) == parts_of(prior).push(PathPart::Parent));
        } else {
            let name: String = piece.to_owned();
            let ghost n = name@;
            parts.push(PathPart::Name(name));
            assert(parts_of(parts@) == parts_of(prior).push(PathPart::Name(n)));
        }
        i = i + 1;
    }
    parts
}

/// The components of a relative path; an absolute path is rejected.
pub fn path_parts(pattern: &str) -> (r: Result<Vec<PathPart>, SnapshotError>)
    ensures
        match r {
            Ok(parts) => !has_prefix(pattern@, "/"@) && parts_of(parts@) == all_components(
                pattern@,
            ),
            Err(e) => has_prefix(pattern@, "/"@) && e@ == SnapshotError::OfflineAbsolutePath(
                pattern@,
            ),
        },
{
    if starts_with(pattern, "/") {
        return Err(SnapshotError::OfflineAbsolutePath(pattern.to_owned()));
    }
    Ok(components_of(pattern))
}

impl PathPart {
    fn equals(&self, other: &PathPart) -> (r: bool)
        ensures
            r == (self@ == other@),
    {
        match (self, other) {
            (PathPart::Parent, PathPart::Parent) => true,
            (PathPart::Name(a), PathPart::Name(b)) => same(a.as_str(), b.as_str()),
            _ => false,
        }
    }
}

/// Whether a full path is that of a directory or lies below it, component by component.
pub open spec fn below(root: Seq<char>, path: Seq<char>) -> bool {
    let r = all_components(root);
    let p = all_components(path);
    &&& has_prefix(root, "/"@) == has_prefix(path, "/"@)
    &&& r.len() <= p.len()
    &&& p.take(r.len() as int) == r
}

fn is_below(root: &str, path: &str) -> (r: bool)
    ensures
        r == below(root@, path@),
{
    let a: Vec<PathPart> = components_of(root);
    let b: Vec<PathPart> = components_of(path);
    let ghost r = all_components(root@);
    let ghost p = all_components(path@);
    assert(r.len() == a@.len() && p.len() == b@.len());
    if starts_with(root, "/") != starts_with(path, "/") || a.len() > b.len() {
        return false;
    }
    let mut i: usize = 0;
    while i < a.len()
        invariant
            i <= a@.len(),
            a@.len() <= b@.len(),
            r == parts_of(a@),
            p == parts_of(b@),
            r == all_components(root@),
            p == all_components(path@),
            forall|k: int| 0 <= k < i ==> p[k] == #[trigger] r[k],
        decreases a.len() - i,
    {
        assert(r[i as int] == a@[i as int]@ && p[i as int] == b@[i as int]@);
        if !a[i].equals(&b[i]) {
            assert(p.take(r.len() as int)[i as int] != r[i as int]);
            return false;
        }
        i = i + 1;
    }
    assert(p.take(r.len() as int) == r);
    true
}

/// Rejects a file that does not lie below the declared root. Both paths are full paths without
/// links.
pub fn confine(root: &str, canonical: &str) -> (r: Result<(), SnapshotError>)
    ensures
        match r {
            Ok(()) => below(root@, canonical@),
            Err(e) => !below(root@, canonical@) && e@ == (SnapshotError::OfflineOutsideRoot {
                path: canonical@,
                root: root@,
            }),
        },
{
    if is_below(root, canonical) {
        Ok(())
    } else {
        Err(
            SnapshotError::OfflineOutsideRoot {
                path: canonical.to_owned(),
                root: root.to_owned(),
            },
        )
    }
}

/// What lies below a directory below the root lies below the root.
pub proof fn confinement_is_transitive(root: Seq<char>, directory: Seq<char>, path: Seq<char>)
    requires
        below(root, directory),
        below(directory, path),
    ensures
        below(root, path),
{
    let r = all_components(root);
    let d = all_components(directory);
    let p = all_components(path);
    assert(p.take(r.len() as int) == p.take(d.len() as int).take(r.len() as int));
}

/// The files that an inclusion resolves to, with the names that led to them.
#[derive(Clone, Debug)]
pub struct Inclusion {
    pub pattern: String,
    pub source_file: String,
    pub files: Vec<(String, String)>,
}

#[verifier::ext_equal]
pub struct InclusionView {
    pub pattern: Seq<char>,
    pub source_file: Seq<char>,
    pub files: Seq<(Seq<char>, Seq<char>)>,
}

impl View for Inclusion {
    type V = InclusionView;

    open spec fn view(&self) -> InclusionView {
        InclusionView {
            pattern: self.pattern@,
            source_file: self.source_file@,
            files: Seq::new(
                self.files@.len(),
                |i: int| (self.files@[i].0@, self.files@[i].1@),
            ),
        }
    }
}

/// The index of a file among those found, or their number.
pub open spec fn file_index(files: Seq<(Seq<char>, Seq<char>)>, path: Seq<char>) -> int
    decreases files.len(),
{
    if files.len() == 0 {
        0
    } else if files[0].0 == path {
        0
    } else {
        1 + file_index(files.skip(1), path)
    }
}

impl InclusionView {
    pub open spec fn missing(self) -> SnapshotError<Seq<char>> {
        SnapshotError::OfflineMissingInclude {
            pattern: self.pattern,
            source_file: self.source_file,
        }
    }

    pub open spec fn paths(self) -> Seq<Seq<char>> {
        Seq::new(self.files.len(), |i: int| self.files[i].0)
    }
}

impl Inclusion {
    /// A file that a plain name leads to does not exist.
    pub fn missing(&self) -> (r: SnapshotError)
        ensures
            r@ == self@.missing(),
    {
        SnapshotError::OfflineMissingInclude {
            pattern: self.pattern.clone(),
            source_file: self.source_file.clone(),
        }
    }

    /// Adds a file by its full path; two names of one file are ambiguous.
    pub fn resolve(&mut self, path: &str, candidate: &str) -> (r: Result<(), SnapshotError>)
        ensures
            ({
                let i = file_index(old(self)@.files, path@);
                match r {
                    Ok(()) => i >= old(self)@.files.len() && final(self)@ == (InclusionView {
                        files: old(self)@.files.push((path@, candidate@)),
                        ..old(self)@
                    }),
                    Err(e) => i < old(self)@.files.len() && final(self)@ == old(self)@ && e@ == (
                    SnapshotError::OfflineAmbiguousInclude {
                        pattern: old(self)@.pattern,
                        source_file: old(self)@.source_file,
                        first: old(self)@.files[i].1,
                        second: candidate@,
                    }),
                }
            }),
    {
        let ghost v = self@;
        let mut i: usize = 0;
        assert(v.files.skip(0) == v.files);
        while i < self.files.len()
            invariant
                i <= self.files@.len(),
                v == self@,
                v == old(self)@,
                file_index(v.files, path@) == i + file_index(v.files.skip(i as int), path@),
            decreases self.files.len() - i,
        {
            assert(v.files.skip(i as int)[0] == v.files[i as int]);
            if same(self.files[i].0.as_str(), path) {
                return Err(
                    SnapshotError::OfflineAmbiguousInclude {
                        pattern: self.pattern.clone(),
                        source_file: self.source_file.clone(),
                        first: self.files[i].1.clone(),
                        second: candidate.to_owned(),
                    },
                );
            }
            assert(v.files.skip(i as int).skip(1) == v.files.skip(i + 1));
            i = i + 1;
        }
        self.files.push((path.to_owned(), candidate.to_owned()));
        assert(self@.files == v.files.push((path@, candidate@)));
        Ok(())
    }

    /// The full paths of the files, in order.
    pub fn clone_paths(&self) -> (r: Vec<String>)
        ensures
            texts(r@) == sorted_paths(self@.paths(), self@.files.len() as int),
    {
        let mut paths: Vec<String> = Vec::new();
        let mut i: usize = 0;
        while i < self.files.len()
            invariant
                i <= self.files@.len(),
                texts(paths@) == self@.paths().take(i as int),
            decreases self.files.len() - i,
        {
            let ghost prior = paths@;
            let path: String = self.files[i].0.clone();
            let ghost p = path@;
            paths.push(path);
            assert(texts(paths@) == texts(prior).push(p));
            assert(self@.paths().take(i + 1) == self@.paths().take(i as int).push(p));
            i = i + 1;
        }
        assert(self@.paths().take(i as int) == self@.paths());
        sort_paths(paths)
    }
}

proof fn lemma_parts_irreflexive(a: Seq<Seq<char>>)
    ensures
        !parts_before(a, a),
    decreases a.len(),
{
    if a.len() > 0 {
        lemma_parts_irreflexive(a.skip(1));
    }
}

proof fn lemma_parts_transitive(a: Seq<Seq<char>>, b: Seq<Seq<char>>, c: Seq<Seq<char>>)
    requires
        parts_before(a, b),
        parts_before(b, c),
    ensures
        parts_before(a, c),
    decreases a.len(),
{
    if a.len() > 0 {
        if a[0] == b[0] && b[0] == c[0] {
            lemma_parts_transitive(a.skip(1), b.skip(1), c.skip(1));
        } else if a[0] != b[0] && b[0] != c[0] {
            lemma_before_transitive(a[0], b[0], c[0]);
            lemma_before_irreflexive(a[0]);
        }
    }
}

proof fn lemma_path_slot_place(s: Seq<Seq<char>>, t: Seq<char>, i: int)
    requires
        0 <= i < s.len(),
    ensures
        i < path_slot(s, t) ==> !path_before(t, s[i]),
        i == path_slot(s, t) ==> path_before(t, s[i]),
    decreases s.len(),
{
    if !path_before(t, s[0]) {
        lemma_path_slot(s.skip(1), t);
        if i > 0 {
            lemma_path_slot_place(s.skip(1), t, i - 1);
        }
    }
}

/// Whether no path comes before one that stands earlier.
pub open spec fn paths_in_order(s: Seq<Seq<char>>) -> bool {
    forall|i: int, j: int|
        0 <= i < j < s.len() ==> !path_before(#[trigger] s[j], #[trigger] s[i])
}

proof fn lemma_path_inserted(s: Seq<Seq<char>>, t: Seq<char>)
    requires
        paths_in_order(s),
    ensures
        paths_in_order(s.insert(path_slot(s, t), t)),
{
    let k = path_slot(s, t);
    lemma_path_slot(s, t);
    let r = s.insert(k, t);
    assert forall|i: int, j: int| 0 <= i < j < r.len() implies !path_before(
        #[trigger] r[j],
        #[trigger] r[i],
    ) by {
        if j == k {
            lemma_path_slot_place(s, t, i);
        } else if i == k {
            lemma_path_slot_place(s, t, k);
            if path_before(r[j], t) {
                lemma_parts_transitive(split(r[j], '/'), split(t, '/'), split(s[k], '/'));
                lemma_parts_irreflexive(split(s[k], '/'));
                assert(r[j] == s[j - 1]);
            }
        } else {
            let a = if i < k {
                i
            } else {
                i - 1
            };
            let b = if j < k {
                j
            } else {
                j - 1
            };
            assert(r[i] == s[a] && r[j] == s[b]);
        }
    }
}

/// Sorting puts paths in order, and keeps each of them.
pub proof fn sorting_orders_and_keeps_paths(s: Seq<Seq<char>>, i: int)
    requires
        0 <= i <= s.len(),
    ensures
        paths_in_order(sorted_paths(s, i)),
        sorted_paths(s, i).to_multiset() == s.take(i).to_multiset(),
    decreases i,
{
    broadcast use vstd::seq_lib::group_to_multiset_ensures;

    if i == 0 {
        assert(s.take(0) == Seq::<Seq<char>>::empty());
    } else {
        sorting_orders_and_keeps_paths(s, i - 1);
        let prior = sorted_paths(s, i - 1);
        lemma_path_slot(prior, s[i - 1]);
        lemma_path_inserted(prior, s[i - 1]);
        assert(s.take(i) == s.take(i - 1).push(s[i - 1]));
        vstd::seq_lib::to_multiset_insert(prior, path_slot(prior, s[i - 1]), s[i - 1]);
    }
}

proof fn lemma_parts_total(a: Seq<Seq<char>>, b: Seq<Seq<char>>)
    ensures
        parts_before(a, b) || parts_before(b, a) || a == b,
    decreases a.len(),
{
    if a.len() > 0 && b.len() > 0 {
        if a[0] == b[0] {
            lemma_parts_total(a.skip(1), b.skip(1));
            if a.skip(1) == b.skip(1) {
                assert(a == seq![a[0]] + a.skip(1));
                assert(b == seq![b[0]] + b.skip(1));
            }
        } else {
            lemma_before_total(a[0], b[0]);
        }
    } else if a.len() == 0 && b.len() == 0 {
        assert(a == b);
    }
}

proof fn lemma_split_injective(a: Seq<char>, b: Seq<char>)
    requires
        split(a, '/') == split(b, '/'),
    ensures
        a == b,
    decreases a.len(),
{
    let i = first(a, '/');
    let j = first(b, '/');
    lemma_first_range(a, '/', 0);
    lemma_first_range(b, '/', 0);
    lemma_split_length(a);
    lemma_split_length(b);
    let s = split(a, '/');
    let t = split(b, '/');
    if i < a.len() {
        lemma_split_length(a.skip(i + 1));
        assert(s.len() >= 2);
        assert(j < b.len());
        assert(s[0] == a.take(i) && t[0] == b.take(j));
        assert(s.skip(1) == split(a.skip(i + 1), '/'));
        assert(t.skip(1) == split(b.skip(j + 1), '/'));
        lemma_split_injective(a.skip(i + 1), b.skip(j + 1));
        assert(a == a.take(i).push('/') + a.skip(i + 1));
        assert(b == b.take(j).push('/') + b.skip(j + 1));
    } else {
        if j < b.len() {
            lemma_split_length(b.skip(j + 1));
        }
        assert(s[0] == a && t[0] == b);
    }
}

proof fn lemma_split_length(a: Seq<char>)
    ensures
        split(a, '/').len() >= 1,
{
}

/// Different paths have an order.
pub proof fn paths_are_ordered(a: Seq<char>, b: Seq<char>)
    requires
        a != b,
    ensures
        path_before(a, b) || path_before(b, a),
{
    lemma_parts_total(split(a, '/'), split(b, '/'));
    if split(a, '/') == split(b, '/') {
        lemma_split_injective(a, b);
    }
}

/// Whether every path comes before those that stand later.
pub open spec fn paths_increase(s: Seq<Seq<char>>) -> bool {
    forall|i: int, j: int| 0 <= i < j < s.len() ==> path_before(#[trigger] s[i], #[trigger] s[j])
}

/// Sorting puts different paths in strictly increasing order.
pub proof fn different_paths_increase(s: Seq<Seq<char>>)
    requires
        s.no_duplicates(),
    ensures
        paths_increase(sorted_paths(s, s.len() as int)),
        sorted_paths(s, s.len() as int).len() == s.len(),
        forall|k: int|
            0 <= k < s.len() ==> s.contains(#[trigger] sorted_paths(s, s.len() as int)[k]),
{
    broadcast use vstd::multiset::group_multiset_axioms;
    broadcast use vstd::seq_lib::group_to_multiset_ensures;

    let t = sorted_paths(s, s.len() as int);
    sorting_orders_and_keeps_paths(s, s.len() as int);
    assert(s.take(s.len() as int) == s);
    lemma_sorted_length(s, s.len() as int);
    s.lemma_multiset_has_no_duplicates();
    assert(t.no_duplicates()) by {
        t.lemma_multiset_has_no_duplicates_conv();
    }
    assert forall|i: int, j: int| 0 <= i < j < t.len() implies path_before(
        #[trigger] t[i],
        #[trigger] t[j],
    ) by {
        paths_are_ordered(t[i], t[j]);
    }
    assert forall|k: int| 0 <= k < s.len() implies s.contains(#[trigger] t[k]) by {
        assert(t.contains(t[k]));
        assert(s.to_multiset().count(t[k]) > 0);
    }
}

/// Whether a pattern without character classes matches a name.
pub open spec fn plain_glob(p: Seq<char>, v: Seq<char>) -> bool
    decreases p.len(), v.len(),
{
    if p.len() == 0 {
        v.len() == 0
    } else if p[0] == '*' {
        plain_glob(p.skip(1), v) || (v.len() > 0 && plain_glob(p, v.skip(1)))
    } else if v.len() == 0 {
        false
    } else {
        (p[0] == '?' || p[0] == v[0]) && plain_glob(p.skip(1), v.skip(1))
    }
}

/// Whether a pattern has no character class.
pub open spec fn classless(p: Seq<char>) -> bool {
    forall|i: int| 0 <= i < p.len() ==> #[trigger] p[i] != '['
}

proof fn lemma_plain(p: Seq<char>, i: int, v: Seq<char>, j: int)
    requires
        classless(p),
        0 <= i <= p.len(),
        0 <= j <= v.len(),
    ensures
        glob(p, i, v, j) == plain_glob(p.skip(i), v.skip(j)),
    decreases p.len() - i, v.len() - j,
{
    let a = p.skip(i);
    let b = v.skip(j);
    if i < p.len() {
        assert(a[0] == p[i]);
        assert(a.skip(1) == p.skip(i + 1));
        if j < v.len() {
            assert(b[0] == v[j]);
            assert(b.skip(1) == v.skip(j + 1));
        }
        if p[i] == '*' {
            lemma_plain(p, i + 1, v, j);
            if j < v.len() {
                lemma_plain(p, i, v, j + 1);
            }
        } else if j < v.len() {
            lemma_plain(p, i + 1, v, j + 1);
        }
    }
}

proof fn lemma_glob_splits(p: Seq<char>, q: Seq<char>, v: Seq<char>) -> (k: int)
    requires
        plain_glob(p + q, v),
    ensures
        0 <= k <= v.len(),
        plain_glob(p, v.take(k)),
        plain_glob(q, v.skip(k)),
    decreases p.len(), v.len(),
{
    if p.len() == 0 {
        assert(p + q == q);
        assert(v.skip(0) == v);
        0
    } else {
        assert((p + q).skip(1) == p.skip(1) + q);
        if p[0] == '*' && plain_glob(p.skip(1) + q, v) {
            lemma_glob_splits(p.skip(1), q, v)
        } else if p[0] == '*' {
            let k = lemma_glob_splits(p, q, v.skip(1));
            assert(v.take(k + 1).skip(1) == v.skip(1).take(k));
            assert(v.skip(k + 1) == v.skip(1).skip(k));
            k + 1
        } else {
            let k = lemma_glob_splits(p.skip(1), q, v.skip(1));
            assert(v.take(k + 1).skip(1) == v.skip(1).take(k));
            assert(v.skip(k + 1) == v.skip(1).skip(k));
            k + 1
        }
    }
}

proof fn lemma_glob_joins(p: Seq<char>, q: Seq<char>, v: Seq<char>, k: int)
    requires
        0 <= k <= v.len(),
        plain_glob(p, v.take(k)),
        plain_glob(q, v.skip(k)),
    ensures
        plain_glob(p + q, v),
    decreases p.len(), k,
{
    if p.len() == 0 {
        assert(p + q == q);
        assert(v.skip(0) == v);
    } else {
        assert((p + q).skip(1) == p.skip(1) + q);
        if p[0] == '*' && plain_glob(p.skip(1), v.take(k)) {
            lemma_glob_joins(p.skip(1), q, v, k);
        } else {
            assert(v.take(k).skip(1) == v.skip(1).take(k - 1));
            assert(v.skip(k) == v.skip(1).skip(k - 1));
            if p[0] == '*' {
                lemma_glob_joins(p, q, v.skip(1), k - 1);
            } else {
                lemma_glob_joins(p.skip(1), q, v.skip(1), k - 1);
            }
        }
    }
}

/// Two patterns without character classes, one behind the other, match just the names that are
/// made of a name that the first one matches and a name that the second one matches.
pub proof fn patterns_match_in_parts(p: Seq<char>, q: Seq<char>, v: Seq<char>)
    requires
        classless(p),
        classless(q),
    ensures
        glob(p + q, 0, v, 0) <==> exists|k: int|
            0 <= k <= v.len() && glob(p, 0, #[trigger] v.take(k), 0) && glob(q, 0, v.skip(k), 0),
{
    assert((p + q).skip(0) == p + q && v.skip(0) == v && p.skip(0) == p && q.skip(0) == q);
    assert(classless(p + q)) by {
        assert forall|i: int| 0 <= i < (p + q).len() implies #[trigger] (p + q)[i] != '[' by {
            if i < p.len() {
                assert((p + q)[i] == p[i]);
            } else {
                assert((p + q)[i] == q[i - p.len()]);
            }
        }
    }
    lemma_plain(p + q, 0, v, 0);
    assert forall|k: int| 0 <= k <= v.len() implies glob(p, 0, #[trigger] v.take(k), 0)
        == plain_glob(p, v.take(k)) && glob(q, 0, v.skip(k), 0) == plain_glob(q, v.skip(k)) by {
        assert(v.take(k).skip(0) == v.take(k));
        assert(v.skip(k).skip(0) == v.skip(k));
        lemma_plain(p, 0, v.take(k), 0);
        lemma_plain(q, 0, v.skip(k), 0);
    }
    if glob(p + q, 0, v, 0) {
        let k = lemma_glob_splits(p, q, v);
        assert(glob(p, 0, v.take(k), 0) && glob(q, 0, v.skip(k), 0));
    }
    if exists|k: int|
        0 <= k <= v.len() && glob(p, 0, #[trigger] v.take(k), 0) && glob(q, 0, v.skip(k), 0) {
        let k = choose|k: int|
            0 <= k <= v.len() && glob(p, 0, #[trigger] v.take(k), 0) && glob(q, 0, v.skip(k), 0);
        lemma_glob_joins(p, q, v, k);
    }
}

proof fn lemma_star(v: Seq<char>)
    ensures
        plain_glob(seq!['*'], v),
    decreases v.len(),
{
    let p = seq!['*'];
    reveal_with_fuel(plain_glob, 3);
    assert(p.skip(1) == Seq::<char>::empty());
    if v.len() > 0 {
        lemma_star(v.skip(1));
    }
}

/// A star matches every name, and a question mark matches the names of one character.
pub proof fn wildcards_match(v: Seq<char>)
    ensures
        glob(seq!['*'], 0, v, 0),
        glob(seq!['?'], 0, v, 0) <==> v.len() == 1,
{
    assert(seq!['*'].skip(0) == seq!['*'] && seq!['?'].skip(0) == seq!['?'] && v.skip(0) == v);
    lemma_plain(seq!['*'], 0, v, 0);
    lemma_plain(seq!['?'], 0, v, 0);
    lemma_star(v);
    reveal_with_fuel(plain_glob, 3);
    assert(seq!['?'].skip(1) == Seq::<char>::empty());
}

} // verus!
