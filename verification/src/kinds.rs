//! Names of move kinds.

use vstd::prelude::*;

use crate::planning_move::Kind;
use crate::text::same;
use crate::text::trim;
use crate::text::trimmed;

verus! {

/// Interned kind names and the current kind.
#[derive(Debug)]
pub struct KindTracker {
    pub names: Vec<String>,
    pub current: Option<Kind>,
}

#[verifier::ext_equal]
pub struct KindView {
    pub names: Seq<Seq<char>>,
    pub current: Option<Kind>,
}

pub open spec fn texts(v: Seq<String>) -> Seq<Seq<char>> {
    Seq::new(v.len(), |i: int| v[i]@)
}

impl View for KindTracker {
    type V = KindView;

    open spec fn view(&self) -> KindView {
        KindView { names: texts(self.names@), current: self.current }
    }
}

/// The index of a text in a list, or the length.
pub open spec fn text_index(s: Seq<Seq<char>>, t: Seq<char>) -> int
    decreases s.len(),
{
    if s.len() == 0 || s[0] == t {
        0
    } else {
        1 + text_index(s.skip(1), t)
    }
}

pub proof fn lemma_text_index(s: Seq<Seq<char>>, t: Seq<char>)
    ensures
        0 <= text_index(s, t) <= s.len(),
        text_index(s, t) < s.len() ==> s[text_index(s, t)] == t,
    decreases s.len(),
{
    if s.len() > 0 && s[0] != t {
        lemma_text_index(s.skip(1), t);
    }
}

impl KindView {
    /// The kind of a name.
    pub open spec fn kind_of(self, name: Seq<char>) -> Kind {
        Kind { index: text_index(self.names, name) as usize }
    }

    /// The tracker that knows a name.
    pub open spec fn knowing(self, name: Seq<char>) -> KindView {
        if text_index(self.names, name) < self.names.len() {
            self
        } else {
            KindView { names: self.names.push(name), ..self }
        }
    }

    /// The name given by a comment, if it has any text.
    pub open spec fn comment_name(comment: Option<Seq<char>>) -> Option<Seq<char>> {
        match comment {
            Some(c) => if trim(c).len() > 0 {
                Some(trim(c))
            } else {
                None
            },
            None => None,
        }
    }

    pub open spec fn comment_kind(self, comment: Option<Seq<char>>) -> Option<Kind> {
        match KindView::comment_name(comment) {
            Some(name) => Some(self.kind_of(name)),
            None => self.current,
        }
    }

    pub open spec fn after_comment(self, comment: Option<Seq<char>>) -> KindView {
        match KindView::comment_name(comment) {
            Some(name) => self.knowing(name),
            None => self,
        }
    }

    /// The name of a kind.
    pub open spec fn name_of(self, kind: Option<Kind>) -> Option<Seq<char>> {
        match kind {
            Some(k) => if k.index < self.names.len() {
                Some(self.names[k.index as int])
            } else {
                None
            },
            None => None,
        }
    }
}

impl KindTracker {
    pub fn new() -> (r: KindTracker)
        ensures
            r@ == (KindView { names: Seq::empty(), current: None }),
    {
        let r = KindTracker { names: Vec::new(), current: None };
        assert(r@.names == Seq::<Seq<char>>::empty());
        r
    }

    /// The kind of a name, which is remembered if it is new.
    pub fn get_kind(&mut self, name: &str) -> (r: Kind)
        ensures
            r == old(self)@.kind_of(name@),
            final(self)@ == old(self)@.knowing(name@),
    {
        let ghost all = self@.names;
        let mut i: usize = 0;
        assert(all.skip(0) == all);
        proof {
            lemma_text_index(all, name@);
        }
        while i < self.names.len()
            invariant
                i <= self.names@.len(),
                all == self@.names,
                self@ == old(self)@,
                text_index(all, name@) == i + text_index(all.skip(i as int), name@),
            decreases self.names.len() - i,
        {
            assert(all.skip(i as int)[0] == all[i as int]);
            if same(self.names[i].as_str(), name) {
                return Kind { index: i };
            }
            assert(all.skip(i as int).skip(1) == all.skip(i + 1));
            i = i + 1;
        }
        self.names.push(name.to_owned());
        assert(self@.names == all.push(name@));
        Kind { index: i }
    }

    pub fn set_current(&mut self, kind: Option<Kind>)
        ensures
            final(self)@ == (KindView { current: kind, ..old(self)@ }),
    {
        self.current = kind;
    }

    /// The kind that a comment names, or the current kind.
    pub fn kind_from_comment(&mut self, comment: &Option<String>) -> (r: Option<Kind>)
        ensures
            r == old(self)@.comment_kind(
                match *comment {
                    Some(c) => Some(c@),
                    None => None,
                },
            ),
            final(self)@ == old(self)@.after_comment(
                match *comment {
                    Some(c) => Some(c@),
                    None => None,
                },
            ),
    {
        match comment {
            Some(c) => {
                let name = trimmed(c.as_str());
                if name.unicode_len() > 0 {
                    Some(self.get_kind(name))
                } else {
                    self.current
                }
            },
            None => self.current,
        }
    }

    /// The name of a kind.
    pub fn resolve_kind(&self, kind: Option<Kind>) -> (r: Option<&str>)
        ensures
            self@.name_of(kind) == match r {
                Some(t) => Some(t@),
                None => None,
            },
    {
        match kind {
            Some(k) => if k.index < self.names.len() {
                Some(self.names[k.index].as_str())
            } else {
                None
            },
            None => None,
        }
    }
}

} // verus!
