//! Text operations over character sequences.

use vstd::prelude::*;

verus! {

/// `String::push` appends one character.
pub assume_specification[ String::push ](s: &mut String, c: char)
    ensures
        final(s)@ == old(s)@.push(c),
;

/// Whether a character has the Unicode `White_Space` property.
#[verifier::allow_in_spec]
pub fn is_space(c: char) -> bool
    returns
        ('\u{9}' <= c && c <= '\u{d}') || c == ' ' || c == '\u{85}' || c == '\u{a0}' || c
            == '\u{1680}' || ('\u{2000}' <= c && c <= '\u{200a}') || c == '\u{2028}' || c
            == '\u{2029}' || c == '\u{202f}' || c == '\u{205f}' || c == '\u{3000}',
{
    ('\u{9}' <= c && c <= '\u{d}') || c == ' ' || c == '\u{85}' || c == '\u{a0}' || c == '\u{1680}'
        || ('\u{2000}' <= c && c <= '\u{200a}') || c == '\u{2028}' || c == '\u{2029}' || c
        == '\u{202f}' || c == '\u{205f}' || c == '\u{3000}'
}

/// Whether two texts hold the same characters.
pub fn same(a: &str, b: &str) -> (r: bool)
    ensures
        r == (a@ == b@),
{
    a.to_owned() == b.to_owned()
}

/// The characters of a text.
pub fn chars_of(s: &str) -> (v: Vec<char>)
    ensures
        v@ == s@,
{
    let mut v: Vec<char> = Vec::new();
    for c in it: s.chars()
        invariant
            v@ == it.seq().take(it.index() as int),
            it.seq() == s@,
    {
        v.push(c);
    }
    v
}

/// The index of the first `c` in `s` at or after `i`, or the length of `s`.
pub open spec fn first_from(s: Seq<char>, c: char, i: int) -> int
    decreases s.len() - i,
{
    if i >= s.len() {
        s.len() as int
    } else if s[i] == c {
        i
    } else {
        first_from(s, c, i + 1)
    }
}

/// The index of the first `c` in `s`, or the length of `s`.
pub open spec fn first(s: Seq<char>, c: char) -> int {
    first_from(s, c, 0)
}

pub proof fn lemma_first_range(s: Seq<char>, c: char, i: int)
    requires
        0 <= i <= s.len(),
    ensures
        i <= first_from(s, c, i) <= s.len(),
        first_from(s, c, i) < s.len() ==> s[first_from(s, c, i)] == c,
        forall|j: int| i <= j < first_from(s, c, i) ==> s[j] != c,
    decreases s.len() - i,
{
    if i < s.len() && s[i] != c {
        lemma_first_range(s, c, i + 1);
    }
}

/// The index of the first `c` in `s`, or the number of characters.
pub fn find_char(s: &str, c: char) -> (r: usize)
    ensures
        r == first(s@, c),
        r <= s@.len(),
{
    let v: Vec<char> = chars_of(s);
    let mut i: usize = 0;
    while i < v.len()
        invariant
            i <= v@.len(),
            v@ == s@,
            first_from(s@, c, i as int) == first(s@, c),
        decreases v.len() - i,
    {
        if v[i] == c {
            return i;
        }
        i = i + 1;
    }
    i
}

/// The parts before and after the first `c`.
pub open spec fn split_once(s: Seq<char>, c: char) -> Option<(Seq<char>, Seq<char>)> {
    let i = first(s, c);
    if i < s.len() {
        Some((s.take(i), s.skip(i + 1)))
    } else {
        None
    }
}

pub fn split_at_char<'a>(s: &'a str, c: char) -> (r: Option<(&'a str, &'a str)>)
    ensures
        split_once(s@, c) == match r {
            Some(p) => Some((p.0@, p.1@)),
            None => None,
        },
{
    let i: usize = find_char(s, c);
    let n: usize = s.unicode_len();
    if i < n {
        let a = s.substring_char(0, i);
        let b = s.substring_char(i + 1, n);
        assert(a@ == s@.take(i as int));
        assert(b@ == s@.skip(i + 1));
        Some((a, b))
    } else {
        None
    }
}

/// The pieces of `s` between occurrences of `c`.
pub open spec fn split(s: Seq<char>, c: char) -> Seq<Seq<char>>
    decreases s.len(),
    via split_decreases
{
    let i = first(s, c);
    if i < s.len() {
        seq![s.take(i)] + split(s.skip(i + 1), c)
    } else {
        seq![s]
    }
}

#[via_fn]
proof fn split_decreases(s: Seq<char>, c: char) {
    lemma_first_range(s, c, 0);
}

/// The views of a list of texts.
pub open spec fn views(v: Seq<&str>) -> Seq<Seq<char>> {
    Seq::new(v.len(), |i: int| v[i]@)
}

pub fn split_char<'a>(s: &'a str, c: char) -> (r: Vec<&'a str>)
    ensures
        views(r@) == split(s@, c),
        r@.len() >= 1,
{
    let mut out: Vec<&'a str> = Vec::new();
    let mut rest: &'a str = s;
    loop
        invariant_except_break
            split(s@, c) == views(out@) + split(rest@, c),
        ensures
            views(out@) == split(s@, c),
            out@.len() >= 1,
        decreases rest@.len(),
    {
        match split_at_char(rest, c) {
            Some((head, tail)) => {
                proof {
                    lemma_first_range(rest@, c, 0);
                    assert(views(out@.push(head)) == views(out@).push(head@));
                    assert(views(out@) + (seq![head@] + split(tail@, c)) == views(out@).push(head@)
                        + split(tail@, c));
                }
                out.push(head);
                rest = tail;
            },
            None => {
                proof {
                    assert(views(out@.push(rest)) == views(out@).push(rest@));
                    assert(views(out@) + seq![rest@] == views(out@).push(rest@));
                }
                out.push(rest);
                break;
            },
        }
    }
    out
}

pub open spec fn trim_start(s: Seq<char>) -> Seq<char>
    decreases s.len(),
{
    if s.len() > 0 && is_space(s[0]) {
        trim_start(s.skip(1))
    } else {
        s
    }
}

pub open spec fn trim_end(s: Seq<char>) -> Seq<char>
    decreases s.len(),
{
    if s.len() > 0 && is_space(s.last()) {
        trim_end(s.drop_last())
    } else {
        s
    }
}

/// The text without leading and trailing white space.
pub open spec fn trim(s: Seq<char>) -> Seq<char> {
    trim_end(trim_start(s))
}

pub fn trimmed_start<'a>(s: &'a str) -> (r: &'a str)
    ensures
        r@ == trim_start(s@),
{
    let v: Vec<char> = chars_of(s);
    let mut i: usize = 0;
    assert(s@.skip(0) == s@);
    while i < v.len() && is_space(v[i])
        invariant
            i <= v@.len(),
            v@ == s@,
            trim_start(s@) == trim_start(s@.skip(i as int)),
        decreases v.len() - i,
    {
        assert(s@.skip(i as int).skip(1) == s@.skip(i + 1));
        i = i + 1;
    }
    let n: usize = s.unicode_len();
    let r = s.substring_char(i, n);
    assert(r@ == s@.skip(i as int));
    r
}

pub fn trimmed_end<'a>(s: &'a str) -> (r: &'a str)
    ensures
        r@ == trim_end(s@),
{
    let v: Vec<char> = chars_of(s);
    let mut i: usize = v.len();
    assert(s@.take(s@.len() as int) == s@);
    while i > 0 && is_space(v[i - 1])
        invariant
            i <= v@.len(),
            v@ == s@,
            trim_end(s@) == trim_end(s@.take(i as int)),
        decreases i,
    {
        assert(s@.take(i as int).drop_last() == s@.take(i - 1));
        i = i - 1;
    }
    let r = s.substring_char(0, i);
    assert(r@ == s@.take(i as int));
    r
}

pub fn trimmed<'a>(s: &'a str) -> (r: &'a str)
    ensures
        r@ == trim(s@),
{
    trimmed_end(trimmed_start(s))
}

/// Whether `s` begins with `p`.
pub open spec fn has_prefix(s: Seq<char>, p: Seq<char>) -> bool {
    p.len() <= s.len() && s.take(p.len() as int) == p
}

pub open spec fn has_suffix(s: Seq<char>, p: Seq<char>) -> bool {
    p.len() <= s.len() && s.skip(s.len() - p.len()) == p
}

/// What follows the prefix `p`.
pub open spec fn after_prefix(s: Seq<char>, p: Seq<char>) -> Option<Seq<char>> {
    if has_prefix(s, p) {
        Some(s.skip(p.len() as int))
    } else {
        None
    }
}

pub fn strip_prefix<'a>(s: &'a str, p: &str) -> (r: Option<&'a str>)
    ensures
        r is Some == has_prefix(s@, p@),
        r matches Some(rest) ==> rest@ == s@.skip(p@.len() as int),
{
    let n: usize = s.unicode_len();
    let k: usize = p.unicode_len();
    if k > n {
        return None;
    }
    let head = s.substring_char(0, k);
    assert(head@ == s@.take(k as int));
    if same(head, p) {
        let rest = s.substring_char(k, n);
        assert(rest@ == s@.skip(k as int));
        Some(rest)
    } else {
        None
    }
}

pub fn starts_with(s: &str, p: &str) -> (r: bool)
    ensures
        r == has_prefix(s@, p@),
{
    strip_prefix(s, p).is_some()
}

pub fn strip_suffix<'a>(s: &'a str, p: &str) -> (r: Option<&'a str>)
    ensures
        r is Some == has_suffix(s@, p@),
        r matches Some(rest) ==> rest@ == s@.take(s@.len() - p@.len()),
{
    let n: usize = s.unicode_len();
    let k: usize = p.unicode_len();
    if k > n {
        return None;
    }
    let tail = s.substring_char(n - k, n);
    assert(tail@ == s@.skip(n - k));
    if same(tail, p) {
        let rest = s.substring_char(0, n - k);
        assert(rest@ == s@.take(n - k));
        Some(rest)
    } else {
        None
    }
}

/// ASCII lower case of one character.
pub open spec fn lower_char(c: char) -> char {
    if 'A' <= c && c <= 'Z' {
        (c as u8 + 32) as char
    } else {
        c
    }
}

/// ASCII upper case of one character.
pub open spec fn upper_char(c: char) -> char {
    if 'a' <= c && c <= 'z' {
        (c as u8 - 32) as char
    } else {
        c
    }
}

pub open spec fn lower(s: Seq<char>) -> Seq<char> {
    s.map_values(|c: char| lower_char(c))
}

pub open spec fn upper(s: Seq<char>) -> Seq<char> {
    s.map_values(|c: char| upper_char(c))
}

pub fn to_lower(s: &str) -> (r: String)
    ensures
        r@ == lower(s@),
{
    let v: Vec<char> = chars_of(s);
    let mut r: String = String::new();
    let mut i: usize = 0;
    while i < v.len()
        invariant
            i <= v@.len(),
            v@ == s@,
            r@ == lower(s@.take(i as int)),
        decreases v.len() - i,
    {
        let c: char = v[i];
        if 'A' <= c && c <= 'Z' {
            r.push((c as u8 + 32) as char);
        } else {
            r.push(c);
        }
        assert(lower(s@.take(i + 1)) == lower(s@.take(i as int)).push(lower_char(s@[i as int])));
        i = i + 1;
    }
    assert(s@.take(i as int) == s@);
    r
}

pub fn to_upper(s: &str) -> (r: String)
    ensures
        r@ == upper(s@),
{
    let v: Vec<char> = chars_of(s);
    let mut r: String = String::new();
    let mut i: usize = 0;
    while i < v.len()
        invariant
            i <= v@.len(),
            v@ == s@,
            r@ == upper(s@.take(i as int)),
        decreases v.len() - i,
    {
        let c: char = v[i];
        if 'a' <= c && c <= 'z' {
            r.push((c as u8 - 32) as char);
        } else {
            r.push(c);
        }
        assert(upper(s@.take(i + 1)) == upper(s@.take(i as int)).push(upper_char(s@[i as int])));
        i = i + 1;
    }
    assert(s@.take(i as int) == s@);
    r
}

/// One piece of text after another.
pub open spec fn joined(parts: Seq<Seq<char>>) -> Seq<char>
    decreases parts.len(),
{
    if parts.len() == 0 {
        Seq::empty()
    } else {
        joined(parts.drop_last()) + parts.last()
    }
}

/// The decimal digit with the value `d`.
pub open spec fn digit_char(d: nat) -> char {
    (48 + d) as char
}

/// The decimal notation of `n`.
pub open spec fn decimal(n: nat) -> Seq<char>
    decreases n,
{
    if n < 10 {
        seq![digit_char(n)]
    } else {
        decimal(n / 10).push(digit_char(n % 10))
    }
}

pub fn to_decimal(n: u128) -> (r: String)
    ensures
        r@ == decimal(n as nat),
    decreases n,
{
    let d: u8 = (n % 10) as u8;
    let mut r: String = if n < 10 {
        String::new()
    } else {
        to_decimal(n / 10)
    };
    r.push((48 + d) as char);
    assert(r@ == decimal(n as nat));
    r
}

} // verus!
