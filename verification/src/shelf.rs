//! The contact sheets at hand: the one on screen, those of clips visited
//! before, and the one being read ahead.
//!
//! Every sheet has a number under which the caller runs its reader. Letting go
//! of a sheet means stopping that reader, so whatever a call lets go of it
//! reports by number.

use std::collections::VecDeque;

use vstd::prelude::*;

use crate::naming;

verus! {

/// Total thumbnails the sheets of clips visited before may hold. Counted in
/// thumbnails rather than clips because a sheet holds about one per second of
/// footage.
pub const RECENT_MAX_THUMBS: usize = 200;

/// Where a clip lies: its folder and its file name.
pub struct ClipPath {
    pub folder: String,
    pub name: String,
}

impl View for ClipPath {
    type V = (Seq<char>, Seq<char>);

    open spec fn view(&self) -> (Seq<char>, Seq<char>) {
        (self.folder@, self.name@)
    }
}

impl ClipPath {
    /// Whether two paths are the same.
    pub fn same(&self, other: &ClipPath) -> (same: bool)
        ensures
            same == (self@ == other@),
    {
        naming::same_text(self.folder.as_str(), other.folder.as_str()) && naming::same_text(
            self.name.as_str(),
            other.name.as_str(),
        )
    }

    /// A copy of this path.
    pub fn copy(&self) -> (p: ClipPath)
        ensures
            p@ == self@,
    {
        ClipPath { folder: self.folder.clone(), name: self.name.clone() }
    }
}

/// A clip being (or already) read.
pub struct Loaded {
    /// The number its reader runs under.
    pub id: u64,
    pub path: ClipPath,
    pub duration_ns: i64,
    /// Height over width of a thumbnail.
    pub aspect: (u32, u32),
    /// The cells of the sheet: the media time of each thumbnail that has come.
    pub cells: Vec<Option<i64>>,
    /// How many thumbnails have come.
    pub ready: usize,
    /// The clip has been read to the end.
    pub done: bool,
    /// The selected cell.
    pub cursor: usize,
}

/// Whether `l` is a sheet whose reader has just been started.
pub open spec fn just_started(l: Loaded, id: u64, path: (Seq<char>, Seq<char>)) -> bool {
    &&& l.id == id
    &&& l.path@ == path
    &&& l.duration_ns == 0
    &&& l.aspect == (9u32, 16u32)
    &&& l.cells@.len() == 0
    &&& l.ready == 0
    &&& !l.done
    &&& l.cursor == 0
}

impl Loaded {
    /// A sheet whose reader, numbered `id`, is just being started.
    pub fn start(path: ClipPath, id: u64) -> (l: Loaded)
        ensures
            just_started(l, id, path@),
            l.path == path,
    {
        Loaded {
            id,
            path,
            duration_ns: 0,
            aspect: (9, 16),
            cells: Vec::new(),
            ready: 0,
            done: false,
            cursor: 0,
        }
    }
}

/// How many thumbnails the sheets hold.
pub open spec fn thumbs_in(sheets: Seq<Loaded>) -> nat
    decreases sheets.len(),
{
    if sheets.len() == 0 {
        0
    } else {
        thumbs_in(sheets.drop_last()) + sheets.last().cells@.len()
    }
}

/// What is left of the sheets once the oldest, which stand last, have made way
/// for the budget.
pub open spec fn within_thumbs(sheets: Seq<Loaded>) -> Seq<Loaded>
    decreases sheets.len(),
{
    if sheets.len() == 0 || thumbs_in(sheets) <= RECENT_MAX_THUMBS {
        sheets
    } else {
        within_thumbs(sheets.drop_last())
    }
}

/// The numbers of the sheets that made way, oldest first.
pub open spec fn made_way(sheets: Seq<Loaded>) -> Seq<u64>
    decreases sheets.len(),
{
    if sheets.len() == 0 || thumbs_in(sheets) <= RECENT_MAX_THUMBS {
        Seq::empty()
    } else {
        seq![sheets.last().id] + made_way(sheets.drop_last())
    }
}

/// Whether a sheet is kept when it is left: it is finished, and it fits the
/// budget on its own. A larger one would push out everything else and still not
/// fit.
pub open spec fn worth_keeping(l: Loaded) -> bool {
    l.done && l.cells@.len() <= RECENT_MAX_THUMBS
}

/// The sheets visited before once `l` has been set aside: one worth keeping goes
/// first.
pub open spec fn with_parked(recent: Seq<Loaded>, l: Option<Loaded>) -> Seq<Loaded> {
    match l {
        Some(s) => if worth_keeping(s) {
            within_thumbs(seq![s] + recent)
        } else {
            recent
        },
        None => recent,
    }
}

/// The numbers let go of when `l` is set aside.
pub open spec fn let_go_by_parking(recent: Seq<Loaded>, l: Option<Loaded>) -> Seq<u64> {
    match l {
        Some(s) => if worth_keeping(s) {
            made_way(seq![s] + recent)
        } else {
            seq![s.id]
        },
        None => Seq::empty(),
    }
}

/// Whether the first sheet of `path` is number `i`.
pub open spec fn first_of(sheets: Seq<Loaded>, path: (Seq<char>, Seq<char>), i: int) -> bool {
    &&& 0 <= i < sheets.len()
    &&& sheets[i].path@ == path
    &&& forall|j: int| 0 <= j < i ==> (#[trigger] sheets[j]).path@ != path
}

/// Whether there is a sheet of `path`.
pub open spec fn holds(sheets: Seq<Loaded>, path: (Seq<char>, Seq<char>)) -> bool {
    exists|i: int| #[trigger] first_of(sheets, path, i)
}

/// Where an opened clip's sheet came from.
#[derive(Clone, Copy, Debug, PartialEq, Eq, Structural)]
pub enum Source {
    /// From a clip visited before.
    Cached,
    /// From the read-ahead, which goes on.
    ReadAhead,
    /// From nowhere: a reader has to be started for it.
    Started,
}

/// The sheets at hand.
pub struct Shelf {
    /// The sheet on screen.
    pub loaded: Option<Loaded>,
    /// Sheets of clips visited before, newest first.
    pub recent: VecDeque<Loaded>,
    /// The next sibling's sheet, being read in the background.
    pub prefetch: Option<Loaded>,
}

/// Whether the sheet on screen is the finished one of `path`.
pub open spec fn on_screen(s: Shelf, path: (Seq<char>, Seq<char>)) -> bool {
    s.loaded is Some && s.loaded->0.done && s.loaded->0.path@ == path
}

/// Whether opening `path` led from these sheets to those, letting go of `gone`.
/// A finished sheet of it is taken from those at hand first, the outgoing one
/// among them; only then is the outgoing one set aside.
pub open spec fn opened(
    before: Shelf,
    after: Shelf,
    path: (Seq<char>, Seq<char>),
    id: u64,
    source: Source,
    gone: Seq<u64>,
) -> bool {
    let ahead = match before.prefetch {
        Some(l) => seq![l.id],
        None => Seq::empty(),
    };
    let recent = with_parked(before.recent(), before.loaded);
    let parked = let_go_by_parking(before.recent(), before.loaded);
    &&& after.prefetch is None
    &&& if on_screen(before, path) {
        &&& source == Source::Cached
        &&& after.loaded == before.loaded
        &&& after.recent() == before.recent()
        &&& gone == ahead
    } else if holds(before.recent(), path) {
        &&& source == Source::Cached
        &&& exists|i: int| #[trigger]
            first_of(before.recent(), path, i) && after.loaded == Some(before.recent()[i])
                && after.recent() == with_parked(before.recent().remove(i), before.loaded)
                && gone == let_go_by_parking(before.recent().remove(i), before.loaded) + ahead
    } else if before.prefetch is Some && before.prefetch->0.path@ == path {
        &&& source == Source::ReadAhead
        &&& after.loaded == before.prefetch
        &&& after.recent() == recent
        &&& gone == parked
    } else {
        &&& source == Source::Started
        &&& after.loaded is Some
        &&& just_started(after.loaded->0, id, path)
        &&& after.recent() == recent
        &&& gone == parked + ahead
    }
}

impl Shelf {
    /// The sheets of clips visited before, newest first.
    pub open spec fn recent(self) -> Seq<Loaded> {
        self.recent@
    }

    /// The sheets visited before are all finished and within the budget.
    pub open spec fn wf(self) -> bool {
        &&& thumbs_in(self.recent@) <= RECENT_MAX_THUMBS
        &&& forall|i: int| 0 <= i < self.recent@.len() ==> (#[trigger] self.recent@[i]).done
    }

    /// No sheets.
    pub fn new() -> (s: Shelf)
        ensures
            s.wf(),
            s.loaded is None,
            s.prefetch is None,
            s.recent() == Seq::<Loaded>::empty(),
    {
        Shelf { loaded: None, recent: VecDeque::new(), prefetch: None }
    }

    /// How many sheets of clips visited before are held.
    pub fn recent_len(&self) -> (n: usize)
        ensures
            n == self.recent().len(),
    {
        self.recent.len()
    }

    /// How many thumbnails they hold.
    pub fn recent_thumbs(&self) -> (n: usize)
        requires
            self.wf(),
        ensures
            n == thumbs_in(self.recent()),
            n <= RECENT_MAX_THUMBS,
    {
        let mut total: usize = 0;
        let mut i: usize = 0;
        assert(self.recent@.take(0) =~= Seq::<Loaded>::empty());
        while i < self.recent.len()
            invariant
                i <= self.recent@.len(),
                total == thumbs_in(self.recent@.take(i as int)),
                thumbs_in(self.recent@) <= RECENT_MAX_THUMBS,
            decreases self.recent@.len() - i,
        {
            proof {
                let next = self.recent@.take(i + 1);
                assert(next.drop_last() =~= self.recent@.take(i as int));
                assert(next.last() == self.recent@[i as int]);
                lemma_thumbs_of_prefix(self.recent@, i + 1);
            }
            total = total + self.recent[i].cells.len();
            i = i + 1;
        }
        assert(self.recent@.take(i as int) =~= self.recent@);
        total
    }

    /// Set the outgoing sheet aside so that stepping back to it later is free,
    /// letting the oldest make way for the budget. An unfinished one is let go
    /// instead: keeping it would leave its reader at a clip nobody looks at. So
    /// is one larger than the whole budget, before it pushes out the others.
    pub fn park_current(&mut self) -> (gone: Vec<u64>)
        requires
            old(self).wf(),
        ensures
            final(self).wf(),
            final(self).loaded is None,
            final(self).prefetch == old(self).prefetch,
            final(self).recent() == with_parked(old(self).recent(), old(self).loaded),
            gone@ == let_go_by_parking(old(self).recent(), old(self).loaded),
    {
        let mut gone: Vec<u64> = Vec::new();
        match self.loaded.take() {
            None => {},
            Some(l) => {
                if !l.done || l.cells.len() > RECENT_MAX_THUMBS {
                    gone.push(l.id);
                    assert(gone@ =~= seq![l.id]);
                } else {
                    let ghost before = self.recent@;
                    let held: usize = self.recent_thumbs();
                    let mut total: u128 = held as u128 + l.cells.len() as u128;
                    self.recent.push_front(l);
                    let ghost full = self.recent@;
                    proof {
                        assert(full =~= seq![l] + before);
                        lemma_thumbs_of_front(l, before);
                        assert forall|i: int| 0 <= i < full.len() implies (#[trigger] full[i]).done by {
                            if i > 0 {
                                assert(full[i] == before[i - 1]);
                            }
                        }
                    }
                    while total > RECENT_MAX_THUMBS as u128
                        invariant
                            total == thumbs_in(self.recent@),
                            self.loaded is None,
                            self.prefetch == old(self).prefetch,
                            within_thumbs(self.recent@) == within_thumbs(full),
                            gone@ + made_way(self.recent@) == made_way(full),
                            forall|i: int|
                                0 <= i < self.recent@.len() ==> (#[trigger] self.recent@[i]).done,
                        decreases self.recent@.len(),
                    {
                        let ghost now = self.recent@;
                        let ghost let_go = gone@;
                        match self.recent.pop_back() {
                            Some(oldest) => {
                                total = total - oldest.cells.len() as u128;
                                gone.push(oldest.id);
                                proof {
                                    assert(self.recent@ =~= now.drop_last());
                                    assert(made_way(now) == seq![oldest.id] + made_way(
                                        now.drop_last(),
                                    ));
                                    assert(gone@ + made_way(self.recent@) =~= let_go + made_way(
                                        now,
                                    ));
                                }
                            },
                            None => {
                                assert(now.len() == 0);
                                assert(false);
                            },
                        }
                    }
                    assert(gone@ =~= made_way(full));
                }
            },
        }
        gone
    }

    /// Take the sheet of `path` out of those visited before, if it is there.
    pub fn take_recent(&mut self, path: &ClipPath) -> (l: Option<Loaded>)
        requires
            old(self).wf(),
        ensures
            final(self).wf(),
            final(self).loaded == old(self).loaded,
            final(self).prefetch == old(self).prefetch,
            match l {
                Some(s) => exists|i: int| #[trigger]
                    first_of(old(self).recent(), path@, i) && s == old(self).recent()[i]
                        && final(self).recent() == old(self).recent().remove(i),
                None => !holds(old(self).recent(), path@) && final(self).recent()
                    == old(self).recent(),
            },
    {
        let mut i: usize = 0;
        while i < self.recent.len()
            invariant
                i <= self.recent@.len(),
                *self == *old(self),
                self.wf(),
                forall|j: int| 0 <= j < i ==> (#[trigger] self.recent@[j]).path@ != path@,
            decreases self.recent@.len() - i,
        {
            if self.recent[i].path.same(path) {
                let ghost before = self.recent@;
                proof {
                    assert(before == old(self).recent());
                    assert(first_of(old(self).recent(), path@, i as int));
                    lemma_thumbs_of_removal(before, i as int);
                }
                let l = self.recent.remove(i);
                proof {
                    assert(self.recent@ =~= before.remove(i as int));
                    assert(l is Some);
                    assert forall|j: int| 0 <= j < self.recent@.len() implies (
                    #[trigger] self.recent@[j]).done by {
                        if j < i {
                            assert(self.recent@[j] == before[j]);
                        } else {
                            assert(self.recent@[j] == before[j + 1]);
                        }
                    }
                }
                return l;
            }
            i = i + 1;
        }
        None
    }

    /// Whether the sheet of `path` is among those visited before.
    pub fn has_recent(&self, path: &ClipPath) -> (has: bool)
        ensures
            has == holds(self.recent(), path@),
    {
        let mut i: usize = 0;
        while i < self.recent.len()
            invariant
                i <= self.recent@.len(),
                forall|j: int| 0 <= j < i ==> (#[trigger] self.recent@[j]).path@ != path@,
            decreases self.recent@.len() - i,
        {
            if self.recent[i].path.same(path) {
                assert(first_of(self.recent@, path@, i as int));
                return true;
            }
            i = i + 1;
        }
        false
    }

    /// Put the sheet of `path` on screen, without ever reading a clip again that
    /// is at hand: from the clips visited before, or from a read-ahead of it,
    /// else from a reader to be started under the number `id`. Opening the very
    /// clip being left finds its finished sheet, and the sheet asked for is taken
    /// out before the outgoing one is set aside, so that it never makes way for
    /// that one.
    pub fn open(&mut self, path: ClipPath, id: u64) -> (r: (Source, Vec<u64>))
        requires
            old(self).wf(),
        ensures
            final(self).wf(),
            opened(*old(self), *final(self), path@, id, r.0, r.1@),
    {
        let ahead: Option<Loaded> = self.prefetch.take();
        let stays: bool = match &self.loaded {
            Some(l) => l.done && l.path.same(&path),
            None => false,
        };
        if stays {
            let mut gone: Vec<u64> = Vec::new();
            if let Some(a) = ahead {
                gone.push(a.id);
                assert(gone@ =~= seq![a.id]);
            } else {
                assert(gone@ =~= Seq::<u64>::empty());
            }
            return (Source::Cached, gone);
        }
        let taken: Option<Loaded> = self.take_recent(&path);
        let mut gone: Vec<u64> = self.park_current();
        let ghost parked = gone@;
        match taken {
            Some(l) => {
                if let Some(a) = ahead {
                    gone.push(a.id);
                    assert(gone@ =~= parked + seq![a.id]);
                } else {
                    assert(gone@ =~= parked + Seq::<u64>::empty());
                }
                self.loaded = Some(l);
                (Source::Cached, gone)
            },
            None => match ahead {
                Some(a) => {
                    if a.path.same(&path) {
                        self.loaded = Some(a);
                        (Source::ReadAhead, gone)
                    } else {
                        gone.push(a.id);
                        assert(gone@ =~= parked + seq![a.id]);
                        self.loaded = Some(Loaded::start(path, id));
                        (Source::Started, gone)
                    }
                },
                None => {
                    assert(gone@ =~= parked + Seq::<u64>::empty());
                    self.loaded = Some(Loaded::start(path, id));
                    (Source::Started, gone)
                },
            },
        }
    }

    /// Start reading `next` ahead under the number `id`, unless its sheet is at
    /// hand already. Says whether a reader has to be started, and the number of
    /// a read-ahead that this one takes the place of.
    pub fn read_ahead(&mut self, next: ClipPath, id: u64) -> (r: (bool, Option<u64>))
        requires
            old(self).wf(),
        ensures
            final(self).wf(),
            final(self).loaded == old(self).loaded,
            final(self).recent() == old(self).recent(),
            r.0 == !holds(old(self).recent(), next@),
            r.0 ==> final(self).prefetch is Some && just_started(
                final(self).prefetch->0,
                id,
                next@,
            ),
            r.0 ==> r.1 == match old(self).prefetch {
                Some(l) => Some(l.id),
                None => None,
            },
            !r.0 ==> final(self).prefetch == old(self).prefetch && r.1 is None,
    {
        if self.has_recent(&next) {
            return (false, None);
        }
        let replaced = match &self.prefetch {
            Some(l) => Some(l.id),
            None => None,
        };
        self.prefetch = Some(Loaded::start(next, id));
        (true, replaced)
    }

    /// Let go of the sheet on screen.
    pub fn unload(&mut self) -> (gone: Option<u64>)
        requires
            old(self).wf(),
        ensures
            final(self).wf(),
            final(self).loaded is None,
            final(self).prefetch == old(self).prefetch,
            final(self).recent() == old(self).recent(),
            gone == match old(self).loaded {
                Some(l) => Some(l.id),
                None => None,
            },
    {
        match self.loaded.take() {
            Some(l) => Some(l.id),
            None => None,
        }
    }

    /// Stop reading the clip on screen, letting its partial sheet go. Says under
    /// which number it was being read; nothing if it had been read to the end,
    /// in which case its file is closed already and its sheet stays.
    pub fn stop_reading(&mut self) -> (gone: Option<u64>)
        requires
            old(self).wf(),
        ensures
            final(self).wf(),
            final(self).prefetch == old(self).prefetch,
            final(self).recent() == old(self).recent(),
            match old(self).loaded {
                Some(l) => if l.done {
                    gone is None && final(self).loaded == old(self).loaded
                } else {
                    gone == Some(l.id) && final(self).loaded is None
                },
                None => gone is None && final(self).loaded is None,
            },
    {
        let reading: bool = match &self.loaded {
            Some(l) => !l.done,
            None => false,
        };
        if reading {
            self.unload()
        } else {
            None
        }
    }
}

proof fn lemma_thumbs_of_front(l: Loaded, rest: Seq<Loaded>)
    ensures
        thumbs_in(seq![l] + rest) == l.cells@.len() + thumbs_in(rest),
    decreases rest.len(),
{
    let s = seq![l] + rest;
    if rest.len() == 0 {
        assert(s =~= seq![l]);
        assert(s.drop_last() =~= Seq::<Loaded>::empty());
        assert(thumbs_in(s.drop_last()) == 0);
    } else {
        assert(s.drop_last() =~= seq![l] + rest.drop_last());
        assert(s.last() == rest.last());
        lemma_thumbs_of_front(l, rest.drop_last());
    }
}

proof fn lemma_thumbs_of_prefix(s: Seq<Loaded>, n: int)
    requires
        0 <= n <= s.len(),
    ensures
        thumbs_in(s.take(n)) <= thumbs_in(s),
    decreases s.len(),
{
    if n < s.len() {
        assert(s.drop_last().take(n) =~= s.take(n));
        lemma_thumbs_of_prefix(s.drop_last(), n);
    } else {
        assert(s.take(n) =~= s);
    }
}

proof fn lemma_thumbs_of_removal(s: Seq<Loaded>, i: int)
    requires
        0 <= i < s.len(),
    ensures
        thumbs_in(s.remove(i)) <= thumbs_in(s),
    decreases s.len(),
{
    if i == s.len() - 1 {
        assert(s.remove(i) =~= s.drop_last());
    } else {
        assert(s.remove(i).drop_last() =~= s.drop_last().remove(i));
        assert(s.remove(i).last() == s.last());
        lemma_thumbs_of_removal(s.drop_last(), i);
    }
}

} // verus!
