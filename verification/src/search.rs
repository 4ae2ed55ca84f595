//! The search for the files that an inclusion stands for.

use vstd::prelude::*;

use crate::errors::SnapshotError;
use crate::inclusion::all_components;
use crate::inclusion::below;
use crate::inclusion::components;
use crate::inclusion::confine;
use crate::inclusion::different_paths_increase;
use crate::inclusion::file_index;
use crate::inclusion::fitting;
use crate::inclusion::has_magic;
use crate::inclusion::magic;
use crate::inclusion::matching_entries;
use crate::inclusion::parts_of;
use crate::inclusion::path_parts;
use crate::inclusion::paths_increase;
use crate::inclusion::sorted_paths;
use crate::inclusion::Inclusion;
use crate::inclusion::InclusionView;
use crate::inclusion::PathPart;
use crate::kinds::texts;
use crate::text::chars_of;
use crate::text::first;
use crate::text::has_prefix;
use crate::text::lemma_first_range;
use crate::text::split;

verus! {

/// A path within a directory.
pub open spec fn joined(directory: Seq<char>, name: Seq<char>) -> Seq<char> {
    if directory.len() == 0 || directory.last() == '/' {
        directory + name
    } else {
        directory.push('/') + name
    }
}

fn join(directory: &str, name: &str) -> (r: String)
    ensures
        r@ == joined(directory@, name@),
{
    let mut r: String = directory.to_owned();
    let n: usize = directory.unicode_len();
    if n > 0 && directory.get_char(n - 1) != '/' {
        r.push('/');
    }
    r.append(name);
    r
}

/// The position after the last slash of the first `n` characters.
pub open spec fn name_start(path: Seq<char>, n: int) -> int
    decreases n,
{
    if n <= 0 {
        0
    } else if path[n - 1] == '/' {
        n
    } else {
        name_start(path, n - 1)
    }
}

proof fn lemma_name_start(path: Seq<char>, n: int)
    requires
        0 <= n,
    ensures
        0 <= name_start(path, n) <= n,
    decreases n,
{
    if n > 0 && path[n - 1] != '/' {
        lemma_name_start(path, n - 1);
    }
}

/// The directory that a file lies in.
pub open spec fn directory_of(path: Seq<char>) -> Seq<char> {
    let k = name_start(path, path.len() as int);
    if k <= 1 {
        path.take(k)
    } else {
        path.take(k - 1)
    }
}

fn parent_directory(path: &str) -> (r: String)
    ensures
        r@ == directory_of(path@),
{
    let v: Vec<char> = chars_of(path);
    let mut n: usize = v.len();
    while n > 0 && v[n - 1] != '/'
        invariant
            v@ == path@,
            n <= v@.len(),
            name_start(path@, v@.len() as int) == name_start(path@, n as int),
        decreases n,
    {
        n = n - 1;
    }
    let k: usize = if n <= 1 {
        n
    } else {
        n - 1
    };
    let part = path.substring_char(0, k);
    assert(part@ == path@.take(k as int));
    part.to_owned()
}

/// A search: the components of the pattern that are left, the paths that the components so far
/// lead to, and the files that were found.
#[derive(Debug)]
pub struct SearchState {
    pub root: String,
    pub found: Inclusion,
    pub parts: Vec<PathPart>,
    /// The index of the first component that is left.
    pub part: usize,
    pub paths: Vec<String>,
    /// The index of the first path that is left.
    pub at: usize,
    pub next: Vec<String>,
    /// The directory whose entries are wanted.
    pub directory: Option<String>,
}

#[verifier::ext_equal]
pub struct SearchView {
    pub root: Seq<char>,
    pub found: InclusionView,
    pub parts: Seq<PathPart<Seq<char>>>,
    pub paths: Seq<Seq<char>>,
    pub next: Seq<Seq<char>>,
    pub directory: Option<Seq<char>>,
}

impl View for SearchState {
    type V = SearchView;

    open spec fn view(&self) -> SearchView {
        SearchView {
            root: self.root@,
            found: self.found@,
            parts: parts_of(self.parts@).skip(self.part as int),
            paths: texts(self.paths@).skip(self.at as int),
            next: texts(self.next@),
            directory: crate::offline::viewed(self.directory),
        }
    }
}

/// What has happened outside.
#[derive(Debug)]
pub enum SearchEvent<S = String, L = Vec<String>> {
    Start,
    /// The full path, without links, of what was to be located.
    Located { path: S },
    /// What was to be located or listed does not exist.
    Missing,
    /// The entries of the directory that was to be listed.
    Listed { names: L },
}

pub type SearchEventView = SearchEvent<Seq<char>, Seq<Seq<char>>>;

impl View for SearchEvent {
    type V = SearchEventView;

    open spec fn view(&self) -> SearchEventView {
        match *self {
            SearchEvent::Start => SearchEvent::Start,
            SearchEvent::Located { path } => SearchEvent::Located { path: path@ },
            SearchEvent::Missing => SearchEvent::Missing,
            SearchEvent::Listed { names } => SearchEvent::Listed { names: texts(names@) },
        }
    }
}

/// What is to be done outside.
#[allow(inconsistent_fields)]
#[derive(Debug)]
pub enum SearchAction<S = String, L = Vec<String>, E = SnapshotError> {
    /// To find the full path, without links, of a path.
    Locate { path: S },
    /// To list the entries of a directory.
    List { directory: S },
    Done { paths: L },
    /// To report that what was to be located could not be.
    Report,
    Fail(E),
}

pub type SearchActionView = SearchAction<Seq<char>, Seq<Seq<char>>, SnapshotError<Seq<char>>>;

impl View for SearchAction {
    type V = SearchActionView;

    open spec fn view(&self) -> SearchActionView {
        match *self {
            SearchAction::Locate { path } => SearchAction::Locate { path: path@ },
            SearchAction::List { directory } => SearchAction::List { directory: directory@ },
            SearchAction::Done { paths } => SearchAction::Done { paths: texts(paths@) },
            SearchAction::Report => SearchAction::Report,
            SearchAction::Fail(e) => SearchAction::Fail(e@),
        }
    }
}

/// The paths of entries of a directory.
pub open spec fn within(directory: Seq<char>, names: Seq<Seq<char>>) -> Seq<Seq<char>> {
    Seq::new(names.len(), |i: int| joined(directory, names[i]))
}

/// The search for a pattern that stands in a file.
pub open spec fn search_for(
    root: Seq<char>,
    source_file: Seq<char>,
    pattern: Seq<char>,
) -> SearchView {
    SearchView {
        root,
        found: InclusionView { pattern, source_file, files: Seq::empty() },
        parts: all_components(pattern),
        paths: seq![directory_of(source_file)],
        next: Seq::empty(),
        directory: None,
    }
}

impl SearchView {
    /// The search without the path that was looked at, and with paths for the next component.
    pub open spec fn passed(self, more: Seq<Seq<char>>) -> SearchView {
        SearchView {
            paths: self.paths.skip(1),
            next: self.next + more,
            directory: None,
            ..self
        }
    }

    /// The search at which something has to be done outside. Plain components are appended to
    /// the paths; for one with a wildcard, each path is a directory to be listed. What the last
    /// component leads to is located.
    pub open spec fn advanced(self) -> (SearchView, SearchActionView)
        decreases self.parts.len(), self.paths.len(),
    {
        if self.paths.len() == 0 {
            if self.parts.len() == 0 {
                (
                    self,
                    SearchAction::Done {
                        paths: sorted_paths(self.found.paths(), self.found.files.len() as int),
                    },
                )
            } else {
                SearchView {
                    parts: self.parts.skip(1),
                    paths: self.next,
                    next: Seq::empty(),
                    ..self
                }.advanced()
            }
        } else if self.parts.len() == 0 {
            (self, SearchAction::Locate { path: self.paths[0] })
        } else {
            match self.parts[0] {
                PathPart::Parent => self.passed(seq![joined(self.paths[0], ".."@)]).advanced(),
                PathPart::Name(name) => if magic(name) {
                    (self, SearchAction::Locate { path: self.paths[0] })
                } else {
                    self.passed(seq![joined(self.paths[0], name)]).advanced()
                },
            }
        }
    }

    /// The search with a file: it must lie below the root, and no other name may lead to it.
    pub open spec fn with_file(self, path: Seq<char>) -> (SearchView, SearchActionView) {
        let i = file_index(self.found.files, path);
        if i < self.found.files.len() {
            (
                self,
                SearchAction::Fail(
                    SnapshotError::OfflineAmbiguousInclude {
                        pattern: self.found.pattern,
                        source_file: self.found.source_file,
                        first: self.found.files[i].1,
                        second: self.paths[0],
                    },
                ),
            )
        } else {
            SearchView {
                found: InclusionView {
                    files: self.found.files.push((path, self.paths[0])),
                    ..self.found
                },
                ..self.passed(Seq::empty())
            }.advanced()
        }
    }
}

impl SearchView {
    /// Whether the search waits for a directory that a wildcard is to be matched in.
    pub open spec fn awaits_directory(self) -> bool {
        self.paths.len() > 0 && self.parts.len() > 0 && (self.parts[0] matches PathPart::Name(name)
            && magic(name))
    }

    /// Whether the search waits for a file.
    pub open spec fn awaits_file(self) -> bool {
        self.paths.len() > 0 && self.parts.len() == 0
    }

    /// The names among the entries of a directory that belong to the wildcard at hand.
    pub open spec fn fitting_names(self, names: Seq<Seq<char>>) -> Seq<Seq<char>> {
        fitting(
            self.parts[0]->Name_0,
            sorted_paths(names, names.len() as int),
            names.len() as int,
        )
    }
}

/// The next state of a search, and what is to be done. Nothing outside of the root is listed or
/// found. A directory that does not exist has no entries; a file that does not exist is an error,
/// for a plain name that of its inclusion. What nothing waits for changes nothing.
pub open spec fn search_next(v: SearchView, event: SearchEventView) -> (
    SearchView,
    SearchActionView,
) {
    match event {
        SearchEvent::Start => v.advanced(),
        SearchEvent::Located { path } => if !v.awaits_directory() && !v.awaits_file() {
            v.advanced()
        } else if !below(v.root, path) {
            (
                v,
                SearchAction::Fail(SnapshotError::OfflineOutsideRoot { path, root: v.root }),
            )
        } else if v.awaits_directory() {
            (
                SearchView { directory: Some(path), ..v },
                SearchAction::List { directory: path },
            )
        } else {
            v.with_file(path)
        },
        SearchEvent::Missing => if v.awaits_directory() {
            v.passed(Seq::empty()).advanced()
        } else if !v.awaits_file() {
            v.advanced()
        } else if magic(v.found.pattern) {
            (v, SearchAction::Report)
        } else {
            (v, SearchAction::Fail(v.found.missing()))
        },
        SearchEvent::Listed { names } => match v.directory {
            Some(directory) => if v.awaits_directory() {
                v.passed(within(directory, v.fitting_names(names))).advanced()
            } else {
                v.advanced()
            },
            None => v.advanced(),
        },
    }
}

/// Whether components hold no wildcard.
pub open spec fn plain_parts(parts: Seq<PathPart<Seq<char>>>) -> bool {
    forall|i: int|
        0 <= i < parts.len() ==> (#[trigger] parts[i] matches PathPart::Name(name) ==> !magic(name))
}

/// Whether all found files lie below the root, each found once, and a pattern without wildcard
/// leads to one path.
pub open spec fn confined(v: SearchView) -> bool {
    &&& forall|k: int|
        0 <= k < v.found.files.len() ==> below(v.root, (#[trigger] v.found.files[k]).0)
    &&& v.found.paths().no_duplicates()
    &&& v.parts.len() == 0 ==> v.next.len() == 0
    &&& !magic(v.found.pattern) ==> plain_parts(v.parts) && v.found.files.len() + v.paths.len()
        + v.next.len() == 1
}

proof fn lemma_advanced(v: SearchView)
    requires
        confined(v),
    ensures
        confined(v.advanced().0),
        v.advanced().0.root == v.root,
        v.advanced().0.found == v.found,
        !(v.advanced().1 is List),
        v.advanced().1 matches SearchAction::Done { paths } ==> {
            &&& v.advanced().0.parts.len() == 0
            &&& v.advanced().0.paths.len() == 0
            &&& paths == sorted_paths(v.found.paths(), v.found.files.len() as int)
        },
    decreases v.parts.len(), v.paths.len(),
{
    if v.paths.len() == 0 {
        if v.parts.len() > 0 {
            let w = SearchView {
                parts: v.parts.skip(1),
                paths: v.next,
                next: Seq::empty(),
                ..v
            };
            assert(confined(w));
            lemma_advanced(w);
        }
    } else if v.parts.len() > 0 {
        match v.parts[0] {
            PathPart::Parent => {
                lemma_advanced(v.passed(seq![joined(v.paths[0], ".."@)]));
            },
            PathPart::Name(name) => if !magic(name) {
                lemma_advanced(v.passed(seq![joined(v.paths[0], name)]));
            },
        }
    }
}

proof fn lemma_file_index(files: Seq<(Seq<char>, Seq<char>)>, path: Seq<char>)
    ensures
        0 <= file_index(files, path) <= files.len(),
        forall|k: int| 0 <= k < file_index(files, path) ==> (#[trigger] files[k]).0 != path,
    decreases files.len(),
{
    if files.len() > 0 && files[0].0 != path {
        lemma_file_index(files.skip(1), path);
        assert forall|k: int| 0 <= k < file_index(files, path) implies (#[trigger] files[k]).0
            != path by {
            if k > 0 {
                assert(files.skip(1)[k - 1] == files[k]);
            }
        }
    }
}

/// Whatever happens outside, a search stays confined to its root. It ends with files below the
/// root in strictly increasing order, and with just one for a pattern without wildcard.
pub proof fn searches_stay_confined(v: SearchView, event: SearchEventView)
    requires
        confined(v),
    ensures
        confined(search_next(v, event).0),
        search_next(v, event).0.root == v.root,
        search_next(v, event).0.found.pattern == v.found.pattern,
        search_next(v, event).1 matches SearchAction::List { directory } ==> below(
            v.root,
            directory,
        ),
        search_next(v, event).1 matches SearchAction::Done { paths } ==> {
            &&& forall|k: int| 0 <= k < paths.len() ==> below(v.root, #[trigger] paths[k])
            &&& paths_increase(paths)
            &&& !magic(v.found.pattern) ==> paths.len() == 1
        },
{
    let w = match event {
        SearchEvent::Located { path } => if v.awaits_file() && file_index(v.found.files, path)
            >= v.found.files.len() {
            SearchView {
                found: InclusionView {
                    files: v.found.files.push((path, v.paths[0])),
                    ..v.found
                },
                ..v.passed(Seq::empty())
            }
        } else {
            v
        },
        SearchEvent::Missing => if v.awaits_directory() {
            v.passed(Seq::empty())
        } else {
            v
        },
        SearchEvent::Listed { names } => if v.awaits_directory() && v.directory is Some {
            v.passed(within(v.directory->0, v.fitting_names(names)))
        } else {
            v
        },
        SearchEvent::Start => v,
    };
    lemma_advanced(v);
    lemma_done(v);
    if let SearchEvent::Located { path } = event {
        lemma_file_index(v.found.files, path);
        if below(v.root, path) {
            if v.awaits_file() && file_index(v.found.files, path) >= v.found.files.len() {
                let a = v.found.paths();
                let b = w.found.paths();
                assert forall|i: int, j: int|
                    0 <= i < b.len() && 0 <= j < b.len() && i != j implies b[i] != b[j] by {
                    if i < a.len() {
                        assert(b[i] == a[i] && a[i] == v.found.files[i].0);
                    }
                    if j < a.len() {
                        assert(b[j] == a[j] && a[j] == v.found.files[j].0);
                    }
                }
                assert forall|k: int| 0 <= k < w.found.files.len() implies below(
                    w.root,
                    (#[trigger] w.found.files[k]).0,
                ) by {
                    if k < v.found.files.len() {
                        assert(w.found.files[k] == v.found.files[k]);
                    }
                }
            }
            assert(confined(w));
            lemma_advanced(w);
            lemma_done(w);
        }
    } else {
        assert(confined(w));
        lemma_advanced(w);
        lemma_done(w);
    }
}

proof fn lemma_done(v: SearchView)
    requires
        confined(v),
    ensures
        v.advanced().1 matches SearchAction::Done { paths } ==> {
            &&& forall|k: int| 0 <= k < paths.len() ==> below(v.root, #[trigger] paths[k])
            &&& paths_increase(paths)
            &&& !magic(v.found.pattern) ==> paths.len() == 1
        },
{
    lemma_advanced(v);
    if let SearchAction::Done { paths } = v.advanced().1 {
        let s = v.found.paths();
        different_paths_increase(s);
        assert forall|k: int| 0 <= k < paths.len() implies below(v.root, #[trigger] paths[k]) by {
            assert(s.contains(paths[k]));
            let i = s.index_of(paths[k]);
            assert(s[i] == v.found.files[i].0);
        }
    }
}

proof fn lemma_piece(s: Seq<char>, k: int)
    requires
        !magic(s),
        0 <= k < split(s, '/').len(),
    ensures
        !magic(split(s, '/')[k]),
    decreases s.len(),
{
    let i = first(s, '/');
    lemma_first_range(s, '/', 0);
    if i < s.len() {
        let rest = s.skip(i + 1);
        assert forall|j: int| 0 <= j < s.len() implies #[trigger] s[j] != '*' && s[j] != '?' && s[j]
            != '[' by {}
        assert(!magic(rest)) by {
            assert forall|j: int| 0 <= j < rest.len() implies #[trigger] rest[j] != '*' && rest[j]
                != '?' && rest[j] != '[' by {
                assert(rest[j] == s[j + i + 1]);
            }
        }
        if k > 0 {
            lemma_piece(rest, k - 1);
            assert(split(s, '/')[k] == split(rest, '/')[k - 1]);
        } else {
            let head = s.take(i);
            assert forall|j: int| 0 <= j < head.len() implies #[trigger] head[j] != '*' && head[j]
                != '?' && head[j] != '[' by {
                assert(head[j] == s[j]);
            }
        }
    }
}

proof fn lemma_plain_parts(pattern: Seq<char>, i: int)
    requires
        !magic(pattern),
        0 <= i <= split(pattern, '/').len(),
    ensures
        plain_parts(components(split(pattern, '/'), i)),
    decreases i,
{
    if i > 0 {
        lemma_plain_parts(pattern, i - 1);
        lemma_piece(pattern, i - 1);
    }
}

impl SearchState {
    pub open spec fn well_formed(&self) -> bool {
        &&& self.part <= self.parts@.len()
        &&& self.at <= self.paths@.len()
        &&& confined(self@)
    }

    /// The search for the pattern of an inclusion; an absolute pattern is rejected.
    pub fn new(root: &str, source_file: &str, pattern: &str) -> (r: Result<
        SearchState,
        SnapshotError,
    >)
        ensures
            match r {
                Ok(state) => {
                    &&& !has_prefix(pattern@, "/"@)
                    &&& state.well_formed()
                    &&& state@ == search_for(root@, source_file@, pattern@)
                },
                Err(e) => has_prefix(pattern@, "/"@) && e@ == SnapshotError::OfflineAbsolutePath(
                    pattern@,
                ),
            },
    {
        let parts: Vec<PathPart> = path_parts(pattern)?;
        let base: String = parent_directory(source_file);
        let ghost b = base@;
        let mut paths: Vec<String> = Vec::new();
        paths.push(base);
        assert(texts(paths@) == seq![b]);
        let next: Vec<String> = Vec::new();
        assert(texts(next@) == Seq::<Seq<char>>::empty());
        let files: Vec<(String, String)> = Vec::new();
        let state = SearchState {
            root: root.to_owned(),
            found: Inclusion {
                pattern: pattern.to_owned(),
                source_file: source_file.to_owned(),
                files,
            },
            parts,
            part: 0,
            paths,
            at: 0,
            next,
            directory: None,
        };
        proof {
            assert(state.found@.files == Seq::<(Seq<char>, Seq<char>)>::empty());
            assert(parts_of(state.parts@).skip(0) == parts_of(state.parts@));
            assert(texts(state.paths@).skip(0) == texts(state.paths@));
            if !magic(pattern@) {
                lemma_plain_parts(pattern@, split(pattern@, '/').len() as int);
            }
        }
        Ok(state)
    }

    /// Goes on to the next path, with a path for the next component.
    fn pass(&mut self, more: String)
        requires
            old(self).part <= old(self).parts@.len(),
            old(self).at < old(self).paths@.len(),
        ensures
            final(self)@ == old(self)@.passed(seq![more@]),
            final(self).part == old(self).part,
            final(self).parts == old(self).parts,
            final(self).at <= final(self).paths@.len(),
            final(self).paths == old(self).paths,
            final(self).at == old(self).at + 1,
    {
        let ghost before = self@;
        let ghost m = more@;
        self.next.push(more);
        assert(self.paths.len() == self.paths@.len());
        self.at = self.at + 1;
        self.directory = None;
        proof {
            assert(self@.next == before.next + seq![m]);
            assert(self@.paths == before.paths.skip(1));
        }
    }

    /// Goes on to the next path.
    fn skip(&mut self)
        requires
            old(self).part <= old(self).parts@.len(),
            old(self).at < old(self).paths@.len(),
        ensures
            final(self)@ == old(self)@.passed(Seq::empty()),
            final(self).part == old(self).part,
            final(self).parts == old(self).parts,
            final(self).at <= final(self).paths@.len(),
    {
        let ghost before = self@;
        assert(self.paths.len() == self.paths@.len());
        self.at = self.at + 1;
        self.directory = None;
        proof {
            assert(self@.next == before.next + Seq::<Seq<char>>::empty());
            assert(self@.paths == before.paths.skip(1));
        }
    }

    fn advance(&mut self) -> (r: SearchAction)
        requires
            old(self).part <= old(self).parts@.len(),
            old(self).at <= old(self).paths@.len(),
        ensures
            final(self).part <= final(self).parts@.len(),
            final(self).at <= final(self).paths@.len(),
            (final(self)@, r@) == old(self)@.advanced(),
    {
        let ghost v = self@;
        loop
            invariant
                self.part <= self.parts@.len(),
                self.at <= self.paths@.len(),
                self@.advanced() == v.advanced(),
                v == old(self)@,
            decreases self.parts@.len() - self.part, self.paths@.len() - self.at,
        {
            let ghost w = self@;
            proof {
                assert(w.parts.len() == self.parts@.len() - self.part);
                assert(w.paths.len() == self.paths@.len() - self.at);
                if self.part < self.parts@.len() {
                    assert(w.parts[0] == self.parts@[self.part as int]@);
                }
                if self.at < self.paths@.len() {
                    assert(w.paths[0] == self.paths@[self.at as int]@);
                }
            }
            if self.at == self.paths.len() {
                if self.part == self.parts.len() {
                    return SearchAction::Done { paths: self.found.clone_paths() };
                }
                let mut level: Vec<String> = Vec::new();
                std::mem::swap(&mut level, &mut self.next);
                self.paths = level;
                self.at = 0;
                self.part = self.part + 1;
                proof {
                    assert(self@.next == Seq::<Seq<char>>::empty());
                    assert(self@.paths == w.next);
                    assert(self@.parts == w.parts.skip(1));
                    assert(self@ == SearchView {
                        parts: w.parts.skip(1),
                        paths: w.next,
                        next: Seq::empty(),
                        ..w
                    });
                }
            } else if self.part == self.parts.len() {
                return SearchAction::Locate { path: self.paths[self.at].clone() };
            } else {
                match &self.parts[self.part] {
                    PathPart::Parent => {
                        let path: String = join(self.paths[self.at].as_str(), "..");
                        self.pass(path);
                    },
                    PathPart::Name(name) => {
                        if has_magic(name.as_str()) {
                            return SearchAction::Locate { path: self.paths[self.at].clone() };
                        }
                        let path: String = join(self.paths[self.at].as_str(), name.as_str());
                        self.pass(path);
                    },
                }
            }
        }
    }

    fn awaits_directory(&self) -> (r: bool)
        requires
            self.part <= self.parts@.len(),
            self.at <= self.paths@.len(),
        ensures
            r == self@.awaits_directory(),
    {
        if self.at == self.paths.len() || self.part == self.parts.len() {
            return false;
        }
        assert(self@.parts[0] == self.parts@[self.part as int]@);
        match &self.parts[self.part] {
            PathPart::Parent => false,
            PathPart::Name(name) => has_magic(name.as_str()),
        }
    }

    fn list(&mut self, directory: &str, names: Vec<String>)
        requires
            old(self).part <= old(self).parts@.len(),
            old(self).at <= old(self).paths@.len(),
            old(self)@.awaits_directory(),
        ensures
            final(self).part <= final(self).parts@.len(),
            final(self).at <= final(self).paths@.len(),
            final(self)@ == old(self)@.passed(
                within(directory@, old(self)@.fitting_names(texts(names@))),
            ),
    {
        let ghost v = self@;
        assert(v.parts[0] == self.parts@[self.part as int]@);
        let kept: Vec<String> = match &self.parts[self.part] {
            PathPart::Parent => Vec::new(),
            PathPart::Name(name) => matching_entries(name.as_str(), names),
        };
        let ghost all = texts(kept@);
        let ghost d = directory@;
        let mut i: usize = 0;
        assert(v.next + within(d, all).take(0) == v.next);
        while i < kept.len()
            invariant
                i <= kept@.len(),
                all == texts(kept@),
                d == directory@,
                self.part == old(self).part,
                self.parts == old(self).parts,
                self.at == old(self).at,
                self.paths == old(self).paths,
                self.root == old(self).root,
                self.found == old(self).found,
                v == old(self)@,
                texts(self.next@) == v.next + within(d, all).take(i as int),
            decreases kept.len() - i,
        {
            assert(all[i as int] == kept@[i as int]@);
            let path: String = join(directory, kept[i].as_str());
            let ghost p = path@;
            let ghost before = texts(self.next@);
            self.next.push(path);
            assert(texts(self.next@) == before.push(p));
            assert(within(d, all).take(i + 1) == within(d, all).take(i as int).push(p));
            assert(texts(self.next@) == v.next + within(d, all).take(i + 1));
            i = i + 1;
        }
        assert(within(d, all).take(i as int) == within(d, all));
        assert(self.paths.len() == self.paths@.len());
        self.at = self.at + 1;
        self.directory = None;
        assert(self@.paths == v.paths.skip(1));
    }
}

/// A step of a search.
pub fn search_step(state: SearchState, event: SearchEvent) -> (r: (SearchState, SearchAction))
    requires
        state.well_formed(),
    ensures
        r.0.well_formed(),
        (r.0@, r.1@) == search_next(state@, event@),
        r.1 matches SearchAction::Done { paths } ==> {
            &&& forall|k: int| 0 <= k < paths@.len() ==> below(state@.root, (#[trigger] paths@[k])@)
            &&& paths_increase(texts(paths@))
            &&& !magic(state@.found.pattern) ==> paths@.len() == 1
        },
{
    proof {
        searches_stay_confined(state@, event@);
    }
    let r = take_step(state, event);
    proof {
        if r.1 is Done {
            let paths = r.1->paths;
            assert forall|k: int| 0 <= k < paths@.len() implies below(
                state@.root,
                (#[trigger] paths@[k])@,
            ) by {
                assert(texts(paths@)[k] == paths@[k]@);
            }
        }
    }
    r
}

fn take_step(state: SearchState, event: SearchEvent) -> (r: (SearchState, SearchAction))
    requires
        state.well_formed(),
    ensures
        r.0.part <= r.0.parts@.len(),
        r.0.at <= r.0.paths@.len(),
        (r.0@, r.1@) == search_next(state@, event@),
{
    let mut s: SearchState = state;
    let ghost v = s@;
    let directory: bool = s.awaits_directory();
    let file: bool = s.at < s.paths.len() && s.part == s.parts.len();
    assert(file == v.awaits_file());
    match event {
        SearchEvent::Start => {},
        SearchEvent::Located { path } => {
            if directory || file {
                if let Err(e) = confine(s.root.as_str(), path.as_str()) {
                    return (s, SearchAction::Fail(e));
                }
            }
            if directory {
                s.directory = Some(path.clone());
                assert(s@ == SearchView { directory: Some(path@), ..v });
                return (s, SearchAction::List { directory: path });
            }
            if file {
                assert(v.paths[0] == s.paths@[s.at as int]@);
                let candidate: String = s.paths[s.at].clone();
                if let Err(e) = s.found.resolve(path.as_str(), candidate.as_str()) {
                    return (s, SearchAction::Fail(e));
                }
                s.skip();
            }
        },
        SearchEvent::Missing => {
            if directory {
                s.skip();
            } else if file {
                if has_magic(s.found.pattern.as_str()) {
                    return (s, SearchAction::Report);
                }
                let e: SnapshotError = s.found.missing();
                return (s, SearchAction::Fail(e));
            }
        },
        SearchEvent::Listed { names } => {
            if directory {
                if let Some(d) = s.directory.clone() {
                    s.list(d.as_str(), names);
                }
            }
        },
    }
    let action: SearchAction = s.advance();
    (s, action)
}

} // verus!
