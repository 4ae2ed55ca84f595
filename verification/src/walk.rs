//! The order in which the files of a configuration are read.

use vstd::prelude::*;

use crate::errors::SnapshotError;
use crate::inclusion::below;
use crate::inclusion::cut;
use crate::inclusion::parse_offline_text;
use crate::inclusion::pieces_of;
use crate::inclusion::Piece;
use crate::kinds::texts;
use crate::offline::after_chunk;
use crate::offline::merge_saved;
use crate::offline::merged;
use crate::offline::offline_parse_error;
use crate::offline::option_value;
use crate::offline::parse_fault;
use crate::offline::parse_ini_chunk;
use crate::offline::reading_keeps_sections_in_order;
use crate::offline::save_config;
use crate::offline::saved_values_fill_gaps;
use crate::offline::split_save_config;
use crate::offline::unified;
use crate::offline::unify_line_ends;
use crate::offline::viewed;
use crate::offline::Sections;
use crate::offline::SectionsView;
use crate::table::Table;
use crate::text::same;

verus! {

/// What is left to be done of a file that is being read.
#[derive(Debug)]
pub struct OpenFile {
    pub path: String,
    pub pieces: Vec<Piece>,
    /// The index of the first piece that is left.
    pub piece: usize,
    pub files: Vec<String>,
    /// The index of the first file that is left of an inclusion.
    pub file: usize,
    pub fault: Option<usize>,
    pub saved: Option<String>,
}

#[verifier::ext_equal]
pub struct OpenView {
    pub path: Seq<char>,
    pub pieces: Seq<Piece<Seq<char>>>,
    pub files: Seq<Seq<char>>,
    pub fault: Option<int>,
    pub saved: Option<Seq<char>>,
}

impl View for OpenFile {
    type V = OpenView;

    open spec fn view(&self) -> OpenView {
        OpenView {
            path: self.path@,
            pieces: pieces_of(self.pieces@).skip(self.piece as int),
            files: texts(self.files@).skip(self.file as int),
            fault: match self.fault {
                Some(line) => Some(line as int),
                None => None,
            },
            saved: viewed(self.saved),
        }
    }
}

impl OpenFile {
    pub open spec fn well_formed(&self) -> bool {
        self.piece <= self.pieces@.len() && self.file <= self.files@.len()
    }
}

/// The sections that were read so far, and the files that are being read, innermost last.
#[derive(Debug)]
pub struct WalkState {
    pub sections: Sections,
    pub open: Vec<OpenFile>,
}

#[verifier::ext_equal]
pub struct WalkView {
    pub sections: SectionsView,
    pub open: Seq<OpenView>,
}

pub open spec fn opened(v: Seq<OpenFile>) -> Seq<OpenView> {
    Seq::new(v.len(), |i: int| v[i]@)
}

impl View for WalkState {
    type V = WalkView;

    open spec fn view(&self) -> WalkView {
        WalkView { sections: self.sections.deep_view(), open: opened(self.open@) }
    }
}

/// What has happened outside.
#[derive(Debug)]
pub enum WalkEvent<S = String, F = Vec<String>> {
    /// The walk begins with a file.
    Start { path: S },
    /// The text of the file that was to be read.
    Text { data: S },
    /// The files that an inclusion stands for, in order.
    Found { files: F },
}

impl View for WalkEvent {
    type V = WalkEvent<Seq<char>, Seq<Seq<char>>>;

    open spec fn view(&self) -> WalkEvent<Seq<char>, Seq<Seq<char>>> {
        match *self {
            WalkEvent::Start { path } => WalkEvent::Start { path: path@ },
            WalkEvent::Text { data } => WalkEvent::Text { data: data@ },
            WalkEvent::Found { files } => WalkEvent::Found { files: texts(files@) },
        }
    }
}

/// What is to be done outside.
#[allow(inconsistent_fields)]
#[derive(Debug)]
pub enum WalkAction<S = String, E = SnapshotError> {
    /// To read a file.
    Read { path: S },
    /// To find the files that an inclusion stands for.
    Resolve { pattern: S, source_file: S },
    Done,
    Fail(E),
}

pub type ActionView = WalkAction<Seq<char>, SnapshotError<Seq<char>>>;

impl View for WalkAction {
    type V = ActionView;

    open spec fn view(&self) -> ActionView {
        match *self {
            WalkAction::Read { path } => WalkAction::Read { path: path@ },
            WalkAction::Resolve { pattern, source_file } => WalkAction::Resolve {
                pattern: pattern@,
                source_file: source_file@,
            },
            WalkAction::Done => WalkAction::Done,
            WalkAction::Fail(e) => WalkAction::Fail(e@),
        }
    }
}

impl WalkView {
    pub open spec fn paths(self) -> Seq<Seq<char>> {
        Seq::new(self.open.len(), |i: int| self.open[i].path)
    }

    /// The state with the innermost file replaced.
    pub open spec fn with_file(self, f: OpenView) -> WalkView {
        WalkView { open: self.open.drop_last().push(f), ..self }
    }

    /// The step into a file. A file that is being read already is recursive.
    pub open spec fn entered(self, path: Seq<char>) -> (WalkView, ActionView) {
        if self.paths().contains(path) {
            (self, WalkAction::Fail(SnapshotError::OfflineRecursiveInclude(path)))
        } else {
            let f = OpenView {
                path,
                pieces: Seq::empty(),
                files: Seq::empty(),
                fault: None,
                saved: None,
            };
            (WalkView { open: self.open.push(f), ..self }, WalkAction::Read { path })
        }
    }

    /// The sections after the end of a file: saved values only where none are set.
    pub open spec fn closed(self, f: OpenView) -> (SectionsView, Option<SnapshotError<Seq<char>>>) {
        match f.saved {
            None => (self.sections, None),
            Some(text) => match after_chunk(Seq::empty(), f.path, 1, text) {
                (_, Some(e)) => (self.sections, Some(e)),
                (saved, None) => (merged(self.sections, saved, saved.len() as int), None),
            },
        }
    }

    /// The state at which something has to be done outside: the files of an inclusion in order,
    /// then what follows the inclusion, then the fault of the file, then its saved values.
    pub open spec fn advanced(self) -> (WalkView, ActionView)
        decreases self.open.len(), self.open.last().pieces.len(),
    {
        if self.open.len() == 0 {
            (self, WalkAction::Done)
        } else {
            let f = self.open.last();
            if f.files.len() > 0 {
                self.with_file(OpenView { files: f.files.skip(1), ..f }).entered(f.files[0])
            } else if f.pieces.len() > 0 {
                let rest = OpenView { pieces: f.pieces.skip(1), ..f };
                match f.pieces[0] {
                    Piece::Chunk { start, text } => match after_chunk(
                        self.sections,
                        f.path,
                        start as int,
                        text,
                    ) {
                        (sections, Some(e)) => (
                            WalkView { sections, ..self.with_file(rest) },
                            WalkAction::Fail(e),
                        ),
                        (sections, None) => WalkView {
                            sections,
                            ..self.with_file(rest)
                        }.advanced(),
                    },
                    Piece::Files { pattern } => (
                        self.with_file(rest),
                        WalkAction::Resolve { pattern, source_file: f.path },
                    ),
                }
            } else {
                match f.fault {
                    Some(line) => (
                        self,
                        WalkAction::Fail(
                            parse_fault(f.path, line, "empty include specification"@),
                        ),
                    ),
                    None => match self.closed(f) {
                        (_, Some(e)) => (self, WalkAction::Fail(e)),
                        (sections, None) => WalkView {
                            sections,
                            open: self.open.drop_last(),
                        }.advanced(),
                    },
                }
            }
        }
    }

    /// The state with the text of the innermost file.
    pub open spec fn with_text(self, regular: Seq<char>, saved: Option<Seq<char>>) -> WalkView {
        let (pieces, fault) = cut(regular);
        self.with_file(OpenView { pieces, fault, saved, ..self.open.last() })
    }
}

/// The next state, and what is to be done. Only the outermost file has saved values.
pub open spec fn next(
    v: WalkView,
    event: WalkEvent<Seq<char>, Seq<Seq<char>>>,
) -> (WalkView, ActionView) {
    match event {
        WalkEvent::Start { path } => v.entered(path),
        WalkEvent::Text { data } => if v.open.len() == 0 {
            (v, WalkAction::Done)
        } else if v.open.len() == 1 {
            match save_config(v.open.last().path, data) {
                Err(e) => (v, WalkAction::Fail(e)),
                Ok((regular, saved)) => v.with_text(regular, saved).advanced(),
            }
        } else {
            v.with_text(unified(data), None).advanced()
        },
        WalkEvent::Found { files } => if v.open.len() == 0 {
            (v, WalkAction::Done)
        } else {
            v.with_file(OpenView { files, ..v.open.last() }).advanced()
        },
    }
}

impl WalkState {
    pub open spec fn well_formed(&self) -> bool {
        forall|i: int| 0 <= i < self.open@.len() ==> (#[trigger] self.open@[i]).well_formed()
    }

    pub fn new() -> (r: WalkState)
        ensures
            r.well_formed(),
            r@ == (WalkView { sections: Seq::empty(), open: Seq::empty() }),
    {
        let r = WalkState { sections: Table::new(), open: Vec::new() };
        assert(r@.open == Seq::<OpenView>::empty());
        assert(r@.sections == SectionsView::empty());
        r
    }

    fn is_open(&self, path: &str) -> (r: bool)
        ensures
            r == self@.paths().contains(path@),
    {
        let mut i: usize = 0;
        while i < self.open.len()
            invariant
                i <= self.open@.len(),
                forall|k: int| 0 <= k < i ==> #[trigger] self@.paths()[k] != path@,
            decreases self.open.len() - i,
        {
            assert(self@.paths()[i as int] == self.open@[i as int].path@);
            if same(self.open[i].path.as_str(), path) {
                return true;
            }
            i = i + 1;
        }
        false
    }

    fn enter(&mut self, path: String) -> (r: WalkAction)
        requires
            old(self).well_formed(),
        ensures
            final(self).well_formed(),
            (final(self)@, r@) == old(self)@.entered(path@),
    {
        if self.is_open(path.as_str()) {
            return WalkAction::Fail(SnapshotError::OfflineRecursiveInclude(path));
        }
        let ghost before = self@;
        let f = OpenFile {
            path: path.clone(),
            pieces: Vec::new(),
            piece: 0,
            files: Vec::new(),
            file: 0,
            fault: None,
            saved: None,
        };
        assert(f@.pieces == Seq::<Piece<Seq<char>>>::empty());
        assert(f@.files == Seq::<Seq<char>>::empty());
        let ghost g = f@;
        self.open.push(f);
        assert(self@.open == before.open.push(g));
        WalkAction::Read { path }
    }

    fn put(&mut self, f: OpenFile)
        requires
            old(self).well_formed(),
            f.well_formed(),
        ensures
            final(self).well_formed(),
            final(self)@ == (WalkView { open: old(self)@.open.push(f@), ..old(self)@ }),
    {
        let ghost before = self@;
        let ghost g = f@;
        self.open.push(f);
        assert(self@.open == before.open.push(g));
    }

    fn take(&mut self) -> (r: Option<OpenFile>)
        requires
            old(self).well_formed(),
        ensures
            final(self).well_formed(),
            match r {
                None => old(self)@.open.len() == 0 && final(self)@ == old(self)@,
                Some(f) => old(self)@.open.len() > 0 && f@ == old(self)@.open.last()
                    && f.well_formed() && final(self)@ == (WalkView {
                    open: old(self)@.open.drop_last(),
                    ..old(self)@
                }),
            },
    {
        let ghost before = self@;
        let ghost raw = self.open@;
        match self.open.pop() {
            None => None,
            Some(f) => {
                assert(raw.last().well_formed());
                assert(self@.open == before.open.drop_last());
                Some(f)
            },
        }
    }

    fn close(&mut self, f: &OpenFile) -> (r: Result<(), SnapshotError>)
        requires
            old(self).well_formed(),
        ensures
            final(self).well_formed(),
            final(self)@.open == old(self)@.open,
            (
                final(self)@.sections,
                match r {
                    Ok(()) => None,
                    Err(e) => Some(e@),
                },
            ) == old(self)@.closed(f@),
    {
        match &f.saved {
            None => Ok(()),
            Some(text) => {
                let mut saved: Sections = Table::new();
                assert(saved.deep_view() == SectionsView::empty());
                parse_ini_chunk(f.path.as_str(), 1, text.as_str(), &mut saved)?;
                merge_saved(&mut self.sections, &saved);
                Ok(())
            },
        }
    }

    fn advance(&mut self) -> (r: WalkAction)
        requires
            old(self).well_formed(),
        ensures
            final(self).well_formed(),
            (final(self)@, r@) == old(self)@.advanced(),
    {
        let ghost start = self@;
        loop
            invariant
                self.well_formed(),
                start == old(self)@,
                start.advanced() == self@.advanced(),
            decreases self@.open.len(), self@.open.last().pieces.len(),
        {
            let ghost v = self@;
            let mut f: OpenFile = match self.take() {
                Some(f) => f,
                None => {
                    return WalkAction::Done;
                },
            };
            let ghost g = f@;
            if f.file < f.files.len() {
                let path: String = f.files[f.file].clone();
                assert(g.files[0] == path@);
                f.file = f.file + 1;
                assert(f@.files == g.files.skip(1));
                self.put(f);
                return self.enter(path);
            }
            assert(g.files.len() == 0);
            if f.piece < f.pieces.len() {
                let at: usize = f.piece;
                assert(g.pieces[0] == f.pieces@[at as int]@);
                f.piece = at + 1;
                assert(f@.pieces == g.pieces.skip(1));
                match &f.pieces[at] {
                    Piece::Chunk { start, text } => {
                        let step: Result<(), SnapshotError> = parse_ini_chunk(
                            f.path.as_str(),
                            *start,
                            text.as_str(),
                            &mut self.sections,
                        );
                        self.put(f);
                        if let Err(e) = step {
                            return WalkAction::Fail(e);
                        }
                    },
                    Piece::Files { pattern } => {
                        let action = WalkAction::Resolve {
                            pattern: pattern.clone(),
                            source_file: f.path.clone(),
                        };
                        self.put(f);
                        return action;
                    },
                }
            } else {
                assert(g.pieces.len() == 0);
                if let Some(line) = f.fault {
                    let e = offline_parse_error(
                        f.path.as_str(),
                        line,
                        "empty include specification",
                    );
                    self.put(f);
                    assert(self@.open == v.open);
                    return WalkAction::Fail(e);
                }
                if let Err(e) = self.close(&f) {
                    self.put(f);
                    assert(self@.open == v.open);
                    return WalkAction::Fail(e);
                }
            }
        }
    }

    fn begin(&mut self, regular: &str, saved: Option<String>) -> (r: WalkAction)
        requires
            old(self).well_formed(),
            old(self)@.open.len() > 0,
        ensures
            final(self).well_formed(),
            (final(self)@, r@) == old(self)@.with_text(regular@, viewed(saved)).advanced(),
    {
        let (pieces, fault) = parse_offline_text(regular);
        if let Some(f) = self.take() {
            let f = OpenFile { pieces, piece: 0, fault, saved, ..f };
            assert(f@.pieces == pieces_of(f.pieces@));
            self.put(f);
        }
        self.advance()
    }
}

/// The next step of a walk through configuration files.
pub fn walk_step(state: WalkState, event: WalkEvent) -> (r: (WalkState, WalkAction))
    requires
        state.well_formed(),
    ensures
        r.0.well_formed(),
        (r.0@, r.1@) == next(state@, event@),
{
    let mut state: WalkState = state;
    let action: WalkAction = match event {
        WalkEvent::Start { path } => state.enter(path),
        WalkEvent::Text { data } => {
            let n: usize = state.open.len();
            assert(n == state@.open.len());
            if n == 0 {
                WalkAction::Done
            } else if n == 1 {
                assert(state@.open.last() == state.open@[n - 1]@);
                match split_save_config(state.open[n - 1].path.as_str(), data.as_str()) {
                    Err(e) => WalkAction::Fail(e),
                    Ok((regular, saved)) => state.begin(regular.as_str(), saved),
                }
            } else {
                let regular: String = unify_line_ends(data.as_str());
                state.begin(regular.as_str(), None)
            }
        },
        WalkEvent::Found { files } => match state.take() {
            None => WalkAction::Done,
            Some(f) => {
                let f = OpenFile { files, file: 0, ..f };
                assert(f@.files == texts(f.files@));
                state.put(f);
                state.advance()
            },
        },
    };
    (state, action)
}

/// A saved value never overrides a value that regular text has set; it only fills a gap.
pub proof fn saved_values_never_override(
    v: WalkView,
    f: OpenView,
    section: Seq<char>,
    option: Seq<char>,
)
    requires
        v.closed(f).1 is None,
    ensures
        option_value(v.closed(f).0, section, option) == match option_value(
            v.sections,
            section,
            option,
        ) {
            Some(x) => Some(x),
            None => match f.saved {
                Some(text) => option_value(
                    after_chunk(Seq::empty(), f.path, 1, text).0,
                    section,
                    option,
                ),
                None => None,
            },
        },
{
    if let Some(text) = f.saved {
        let saved = after_chunk(Seq::empty(), f.path, 1, text).0;
        reading_keeps_sections_in_order(Seq::empty(), f.path, 1, text);
        saved_values_fill_gaps(v.sections, saved, section, option);
    }
}

proof fn lemma_entered(v: WalkView, path: Seq<char>)
    requires
        v.paths().no_duplicates(),
    ensures
        v.entered(path).0.paths().no_duplicates(),
{
    let w = v.entered(path).0;
    if !v.paths().contains(path) {
        assert(w.paths() == v.paths().push(path));
        assert forall|i: int, j: int|
            0 <= i < w.paths().len() && 0 <= j < w.paths().len() && i != j implies w.paths()[i]
            != w.paths()[j] by {
            if i == v.paths().len() {
                assert(v.paths().contains(v.paths()[j]));
            }
            if j == v.paths().len() {
                assert(v.paths().contains(v.paths()[i]));
            }
        }
    }
}

proof fn lemma_advanced(v: WalkView)
    requires
        v.paths().no_duplicates(),
    ensures
        v.advanced().0.paths().no_duplicates(),
    decreases v.open.len(), v.open.last().pieces.len(),
{
    if v.open.len() > 0 {
        let f = v.open.last();
        let a = v.with_file(OpenView { files: f.files.skip(1), ..f });
        let b = v.with_file(OpenView { pieces: f.pieces.skip(1), ..f });
        assert(a.paths() == v.paths());
        assert(b.paths() == v.paths());
        if f.files.len() > 0 {
            lemma_entered(a, f.files[0]);
        } else if f.pieces.len() > 0 {
            if let Piece::Chunk { start, text } = f.pieces[0] {
                let w = WalkView {
                    sections: after_chunk(v.sections, f.path, start as int, text).0,
                    ..b
                };
                assert(w.paths() == v.paths());
                lemma_advanced(w);
            }
        } else if f.fault is None && v.closed(f).1 is None {
            let w = WalkView { sections: v.closed(f).0, open: v.open.drop_last() };
            assert(w.paths() == v.paths().drop_last());
            lemma_advanced(w);
        }
    }
}

/// No file is ever read inside itself.
pub proof fn open_files_are_distinct(v: WalkView, event: WalkEvent<Seq<char>, Seq<Seq<char>>>)
    requires
        v.paths().no_duplicates(),
    ensures
        next(v, event).0.paths().no_duplicates(),
{
    match event {
        WalkEvent::Start { path } => {
            lemma_entered(v, path);
        },
        WalkEvent::Text { data } => {
            if v.open.len() == 1 {
                if let Ok((regular, saved)) = save_config(v.open.last().path, data) {
                    assert(v.with_text(regular, saved).paths() == v.paths());
                    lemma_advanced(v.with_text(regular, saved));
                }
            } else if v.open.len() > 1 {
                assert(v.with_text(unified(data), None).paths() == v.paths());
                lemma_advanced(v.with_text(unified(data), None));
            }
        },
        WalkEvent::Found { files } => {
            if v.open.len() > 0 {
                let w = v.with_file(OpenView { files, ..v.open.last() });
                assert(w.paths() == v.paths());
                lemma_advanced(w);
            }
        },
    }
}

/// Whether everything that a walk reads or is about to read lies below a directory.
pub open spec fn confined(root: Seq<char>, v: WalkView) -> bool {
    forall|i: int| 0 <= i < v.open.len() ==> file_confined(root, #[trigger] v.open[i])
}

pub open spec fn file_confined(root: Seq<char>, f: OpenView) -> bool {
    &&& below(root, f.path)
    &&& forall|k: int| 0 <= k < f.files.len() ==> below(root, #[trigger] f.files[k])
}

proof fn lemma_file_replaced(root: Seq<char>, v: WalkView, f: OpenView)
    requires
        confined(root, v),
        v.open.len() > 0,
        file_confined(root, f),
    ensures
        confined(root, v.with_file(f)),
{
    let w = v.with_file(f);
    assert forall|i: int| 0 <= i < w.open.len() implies file_confined(root, #[trigger] w.open[i]) by {
        if i < v.open.len() - 1 {
            assert(w.open[i] == v.open[i]);
        }
    }
}

proof fn lemma_entered_confined(root: Seq<char>, v: WalkView, path: Seq<char>)
    requires
        confined(root, v),
        below(root, path),
    ensures
        confined(root, v.entered(path).0),
        v.entered(path).1 matches WalkAction::Read { path: p } ==> below(root, p),
{
    let w = v.entered(path).0;
    assert forall|i: int| 0 <= i < w.open.len() implies file_confined(root, #[trigger] w.open[i]) by {
        if i < v.open.len() {
            assert(w.open[i] == v.open[i]);
        }
    }
}

proof fn lemma_advanced_confined(root: Seq<char>, v: WalkView)
    requires
        confined(root, v),
    ensures
        confined(root, v.advanced().0),
        v.advanced().1 matches WalkAction::Read { path } ==> below(root, path),
        v.advanced().1 matches WalkAction::Resolve { source_file, .. } ==> below(root, source_file),
    decreases v.open.len(), v.open.last().pieces.len(),
{
    if v.open.len() > 0 {
        let f = v.open.last();
        assert(file_confined(root, v.open[v.open.len() - 1]));
        let a = OpenView { files: f.files.skip(1), ..f };
        let b = OpenView { pieces: f.pieces.skip(1), ..f };
        if f.files.len() > 0 {
            assert(file_confined(root, a)) by {
                assert forall|k: int| 0 <= k < a.files.len() implies below(
                    root,
                    #[trigger] a.files[k],
                ) by {
                    assert(a.files[k] == f.files[k + 1]);
                }
            }
            lemma_file_replaced(root, v, a);
            lemma_entered_confined(root, v.with_file(a), f.files[0]);
        } else if f.pieces.len() > 0 {
            lemma_file_replaced(root, v, b);
            if let Piece::Chunk { start, text } = f.pieces[0] {
                let w = WalkView {
                    sections: after_chunk(v.sections, f.path, start as int, text).0,
                    ..v.with_file(b)
                };
                assert(confined(root, w)) by {
                    assert(w.open == v.with_file(b).open);
                }
                if after_chunk(v.sections, f.path, start as int, text).1 is None {
                    lemma_advanced_confined(root, w);
                }
            }
        } else if f.fault is None && v.closed(f).1 is None {
            let w = WalkView { sections: v.closed(f).0, open: v.open.drop_last() };
            assert forall|i: int| 0 <= i < w.open.len() implies file_confined(
                root,
                #[trigger] w.open[i],
            ) by {
                assert(w.open[i] == v.open[i]);
            }
            lemma_advanced_confined(root, w);
        }
    }
}

/// A walk that begins below a directory, and whose inclusions are found below it, reads nothing
/// else.
pub proof fn walks_stay_confined(
    root: Seq<char>,
    v: WalkView,
    event: WalkEvent<Seq<char>, Seq<Seq<char>>>,
)
    requires
        confined(root, v),
        event matches WalkEvent::Start { path } ==> below(root, path),
        event matches WalkEvent::Found { files } ==> forall|k: int|
            0 <= k < files.len() ==> below(root, #[trigger] files[k]),
    ensures
        confined(root, next(v, event).0),
        next(v, event).1 matches WalkAction::Read { path } ==> below(root, path),
{
    match event {
        WalkEvent::Start { path } => lemma_entered_confined(root, v, path),
        WalkEvent::Text { data } => if v.open.len() > 0 {
            let f = v.open.last();
            assert(file_confined(root, v.open[v.open.len() - 1]));
            let (regular, saved) = if v.open.len() == 1 {
                match save_config(f.path, data) {
                    Ok(p) => p,
                    Err(_) => (data, None),
                }
            } else {
                (unified(data), None)
            };
            let (pieces, fault) = cut(regular);
            lemma_file_replaced(root, v, OpenView { pieces, fault, saved, ..f });
            lemma_advanced_confined(root, v.with_text(regular, saved));
        },
        WalkEvent::Found { files } => if v.open.len() > 0 {
            let f = v.open.last();
            assert(file_confined(root, v.open[v.open.len() - 1]));
            lemma_file_replaced(root, v, OpenView { files, ..f });
            lemma_advanced_confined(root, v.with_file(OpenView { files, ..f }));
        },
    }
}

} // verus!
