//! What the shelf of contact sheets promises as a whole.

use vstd::prelude::*;
use vstd::multiset::Multiset;

use crate::shelf;
use crate::shelf::{ClipPath, Loaded, Shelf, Source, RECENT_MAX_THUMBS};

verus! {

/// The sheets kept are the newest that fit the budget: what makes way is the
/// oldest, and one sheet more would not fit.
pub proof fn the_newest_sheets_that_fit_are_kept(sheets: Seq<Loaded>)
    ensures
        shelf::thumbs_in(shelf::within_thumbs(sheets)) <= RECENT_MAX_THUMBS,
        shelf::within_thumbs(sheets).len() <= sheets.len(),
        shelf::within_thumbs(sheets) == sheets.take(shelf::within_thumbs(sheets).len() as int),
        shelf::within_thumbs(sheets).len() < sheets.len() ==> shelf::thumbs_in(
            sheets.take(shelf::within_thumbs(sheets).len() as int + 1),
        ) > RECENT_MAX_THUMBS,
    decreases sheets.len(),
{
    let kept = shelf::within_thumbs(sheets);
    if sheets.len() == 0 || shelf::thumbs_in(sheets) <= RECENT_MAX_THUMBS {
        assert(sheets.take(sheets.len() as int) =~= sheets);
    } else {
        let rest = sheets.drop_last();
        the_newest_sheets_that_fit_are_kept(rest);
        assert(rest.take(kept.len() as int) =~= sheets.take(kept.len() as int));
        if kept.len() == rest.len() {
            assert(sheets.take(kept.len() as int + 1) =~= sheets);
        } else {
            assert(rest.take(kept.len() as int + 1) =~= sheets.take(kept.len() as int + 1));
        }
    }
}

/// A finished sheet that fits the budget on its own comes back: once set aside it
/// is the first of those visited before.
pub proof fn a_finished_sheet_comes_back(recent: Seq<Loaded>, l: Loaded)
    requires
        l.done,
        l.cells@.len() <= RECENT_MAX_THUMBS,
    ensures
        shelf::first_of(shelf::with_parked(recent, Some(l)), l.path@, 0),
        shelf::with_parked(recent, Some(l))[0] == l,
{
    let all = seq![l] + recent;
    the_newest_sheets_that_fit_are_kept(all);
    let kept = shelf::within_thumbs(all);
    if kept.len() == 0 {
        assert(all.take(1) =~= seq![l]);
        assert(seq![l].drop_last() =~= Seq::<Loaded>::empty());
        assert(shelf::thumbs_in(seq![l].drop_last()) == 0);
        assert(shelf::thumbs_in(seq![l]) == l.cells@.len());
    }
    assert(kept[0] == all[0]);
}

/// An unfinished sheet is let go rather than kept, and what is kept does not
/// change.
pub proof fn an_unfinished_sheet_is_let_go(recent: Seq<Loaded>, l: Loaded)
    requires
        !l.done,
    ensures
        shelf::with_parked(recent, Some(l)) == recent,
        shelf::let_go_by_parking(recent, Some(l)) == seq![l.id],
{
}

/// A sheet larger than the whole budget is never kept.
pub proof fn a_sheet_over_the_budget_is_not_kept(recent: Seq<Loaded>, l: Loaded)
    requires
        l.done,
        l.cells@.len() > RECENT_MAX_THUMBS,
    ensures
        shelf::with_parked(recent, Some(l)) == recent,
        shelf::let_go_by_parking(recent, Some(l)) == seq![l.id],
{
}

/// A clip at hand is never read again: one that was visited before and whose
/// sheet is still held comes from there, whatever the outgoing sheet takes up;
/// one being read ahead is taken over; and a reader is started for no other.
pub proof fn a_clip_at_hand_is_never_read_again(
    before: Shelf,
    after: Shelf,
    path: (Seq<char>, Seq<char>),
    id: u64,
    source: Source,
    gone: Seq<u64>,
)
    requires
        before.wf(),
        shelf::opened(before, after, path, id, source, gone),
    ensures
        shelf::holds(before.recent(), path) ==> source == Source::Cached && after.loaded is Some
            && after.loaded->0.path@ == path && after.loaded->0.done,
        before.prefetch is Some && before.prefetch->0.path@ == path ==> source
            != Source::Started,
        source == Source::Started <==> !shelf::on_screen(before, path) && !shelf::holds(
            before.recent(),
            path,
        ) && !(before.prefetch is Some && before.prefetch->0.path@ == path),
{
}

/// Opening the very clip being left finds its finished sheet, however large:
/// nothing is read again, and no other sheet makes way.
pub proof fn reopening_the_clip_being_left_reads_nothing(
    before: Shelf,
    after: Shelf,
    l: Loaded,
    id: u64,
    source: Source,
    gone: Seq<u64>,
)
    requires
        before.loaded == Some(l),
        l.done,
        shelf::opened(before, after, l.path@, id, source, gone),
    ensures
        source == Source::Cached,
        after.loaded == Some(l),
        after.recent() == before.recent(),
{
}

/// The numbers of the sheets.
pub open spec fn ids(sheets: Seq<Loaded>) -> Seq<u64> {
    sheets.map_values(|l: Loaded| l.id)
}

/// The number of a sheet, if there is one.
pub open spec fn id_of(l: Option<Loaded>) -> Multiset<u64> {
    match l {
        Some(s) => Multiset::singleton(s.id),
        None => Multiset::empty(),
    }
}

/// The numbers of all the sheets at hand.
pub open spec fn at_hand(s: Shelf) -> Multiset<u64> {
    id_of(s.loaded).add(id_of(s.prefetch)).add(ids(s.recent()).to_multiset())
}

proof fn lemma_made_way(sheets: Seq<Loaded>)
    ensures
        ids(sheets).to_multiset() =~= ids(shelf::within_thumbs(sheets)).to_multiset().add(
            shelf::made_way(sheets).to_multiset(),
        ),
    decreases sheets.len(),
{
    broadcast use vstd::seq_lib::group_to_multiset_ensures;

    if sheets.len() == 0 || shelf::thumbs_in(sheets) <= RECENT_MAX_THUMBS {
        assert(shelf::made_way(sheets) == Seq::<u64>::empty());
    } else {
        let rest = sheets.drop_last();
        lemma_made_way(rest);
        assert(ids(sheets) =~= ids(rest).push(sheets.last().id));
        lemma_front_to_multiset(sheets.last().id, shelf::made_way(rest));
    }
}

proof fn lemma_front_to_multiset(x: u64, s: Seq<u64>)
    ensures
        (seq![x] + s).to_multiset() =~= s.to_multiset().insert(x),
{
    vstd::seq_lib::to_multiset_insert(s, 0, x);
    assert(seq![x] + s =~= s.insert(0, x));
}

proof fn lemma_parking_loses_nothing(recent: Seq<Loaded>, l: Option<Loaded>)
    ensures
        id_of(l).add(ids(recent).to_multiset()) =~= ids(
            shelf::with_parked(recent, l),
        ).to_multiset().add(shelf::let_go_by_parking(recent, l).to_multiset()),
{
    broadcast use vstd::seq_lib::group_to_multiset_ensures;

    match l {
        Some(s) => if shelf::worth_keeping(s) {
            let all = seq![s] + recent;
            lemma_made_way(all);
            assert(ids(all) =~= seq![s.id] + ids(recent));
            lemma_front_to_multiset(s.id, ids(recent));
        } else {
            assert(seq![s.id] =~= Seq::<u64>::empty().push(s.id));
        },
        None => {},
    }
}

/// No sheet is ever lost: whatever was at hand before a clip is opened is at hand
/// afterwards or is reported as let go, each once, and the only sheet to join
/// them is the one whose reader is started.
pub proof fn opening_loses_no_sheet(
    before: Shelf,
    after: Shelf,
    path: (Seq<char>, Seq<char>),
    id: u64,
    source: Source,
    gone: Seq<u64>,
)
    requires
        shelf::opened(before, after, path, id, source, gone),
    ensures
        at_hand(after).add(gone.to_multiset()) =~= at_hand(before).add(
            if source == Source::Started {
                Multiset::singleton(id)
            } else {
                Multiset::empty()
            },
        ),
{
    broadcast use vstd::seq_lib::group_to_multiset_ensures;

    let ahead = match before.prefetch {
        Some(l) => seq![l.id],
        None => Seq::empty(),
    };
    let ahead_id = id_of(before.prefetch);
    let old_ids = ids(before.recent()).to_multiset();
    assert(ahead.to_multiset() =~= ahead_id) by {
        if before.prefetch is Some {
            assert(ahead =~= Seq::<u64>::empty().push(before.prefetch->0.id));
        }
    }
    assert(at_hand(before) =~= id_of(before.loaded).add(old_ids).add(ahead_id));
    if shelf::on_screen(before, path) {
        assert(at_hand(after) =~= id_of(before.loaded).add(old_ids));
    } else if shelf::holds(before.recent(), path) {
        let i = choose|i: int| #[trigger]
            shelf::first_of(before.recent(), path, i) && after.loaded == Some(before.recent()[i])
                && after.recent() == shelf::with_parked(before.recent().remove(i), before.loaded)
                && gone == shelf::let_go_by_parking(before.recent().remove(i), before.loaded)
                + ahead;
        let rest = before.recent().remove(i);
        let found = before.recent()[i].id;
        let parked = shelf::let_go_by_parking(rest, before.loaded);
        lemma_parking_loses_nothing(rest, before.loaded);
        lemma_joined(parked, before.prefetch);
        assert(ids(rest) =~= ids(before.recent()).remove(i));
        vstd::seq_lib::to_multiset_remove(ids(before.recent()), i);
        assert(old_ids.count(found) > 0) by {
            assert(ids(before.recent()).contains(ids(before.recent())[i]));
        }
        assert(old_ids =~= ids(rest).to_multiset().insert(found));
        assert(at_hand(after) =~= Multiset::singleton(found).add(
            ids(after.recent()).to_multiset(),
        ));
        let kept = ids(after.recent()).to_multiset();
        let let_go = parked.to_multiset();
        assert(gone.to_multiset() =~= let_go.add(ahead_id));
        assert(id_of(before.loaded).add(ids(rest).to_multiset()) =~= kept.add(let_go));
        assert(at_hand(before) =~= kept.add(let_go).insert(found).add(ahead_id));
    } else {
        let recent = shelf::with_parked(before.recent(), before.loaded);
        let parked = shelf::let_go_by_parking(before.recent(), before.loaded);
        lemma_parking_loses_nothing(before.recent(), before.loaded);
        lemma_joined(parked, before.prefetch);
        let kept = ids(recent).to_multiset();
        assert((parked + ahead).to_multiset() =~= parked.to_multiset().add(ahead_id));
        assert(at_hand(before) =~= kept.add(parked.to_multiset()).add(ahead_id));
        if before.prefetch is Some && before.prefetch->0.path@ == path {
            assert(at_hand(after) =~= kept.add(ahead_id));
        } else {
            assert(at_hand(after) =~= kept.add(Multiset::singleton(id)));
        }
    }
}

/// The numbers let go by parking, and then that of the read-ahead.
proof fn lemma_joined(parked: Seq<u64>, prefetch: Option<Loaded>)
    ensures
        (parked + match prefetch {
            Some(l) => seq![l.id],
            None => Seq::empty(),
        }).to_multiset() =~= parked.to_multiset().add(id_of(prefetch)),
{
    broadcast use vstd::seq_lib::group_to_multiset_ensures;

    match prefetch {
        Some(l) => assert(parked + seq![l.id] =~= parked.push(l.id)),
        None => assert(parked + Seq::<u64>::empty() =~= parked),
    }
}

/// The thumbnails that sheets hold are those of each, added up.
pub proof fn the_thumbnails_held_add_up(sheets: Seq<Loaded>, l: Loaded)
    ensures
        shelf::thumbs_in(Seq::empty()) == 0,
        shelf::thumbs_in(sheets.push(l)) == shelf::thumbs_in(sheets) + l.cells@.len(),
        shelf::thumbs_in(seq![l] + sheets) == l.cells@.len() + shelf::thumbs_in(sheets),
    decreases sheets.len(),
{
    assert(sheets.push(l).drop_last() =~= sheets);
    let s = seq![l] + sheets;
    if sheets.len() == 0 {
        assert(s.drop_last() =~= Seq::<Loaded>::empty());
        assert(s.last() == l);
        assert(shelf::thumbs_in(s.drop_last()) == 0);
    } else {
        the_thumbnails_held_add_up(sheets.drop_last(), l);
        assert(s.drop_last() =~= seq![l] + sheets.drop_last());
        assert(s.last() == sheets.last());
    }
}

/// Opening a clip puts its sheet on screen: the very one at hand, finished or
/// being read ahead, or else an empty one under the new number; and nothing is
/// read ahead any longer.
pub proof fn opening_puts_the_clip_on_screen(
    before: Shelf,
    after: Shelf,
    path: (Seq<char>, Seq<char>),
    id: u64,
    source: Source,
    gone: Seq<u64>,
)
    requires
        shelf::opened(before, after, path, id, source, gone),
    ensures
        after.prefetch is None,
        after.loaded is Some,
        after.loaded->0.path@ == path,
        source == Source::Cached ==> before.recent().contains(after.loaded->0) || after.loaded
            == before.loaded,
        source == Source::ReadAhead ==> after.loaded == before.prefetch,
        source == Source::Started ==> after.loaded->0.id == id && after.loaded->0.cells@.len() == 0
            && after.loaded->0.ready == 0 && !after.loaded->0.done && after.loaded->0.cursor == 0
            && after.loaded->0.duration_ns == 0,
{
}

/// A finished sheet of up to two hundred thumbnails that is left for another clip
/// is the first of those visited before, and as long as they all fit the others
/// stand behind it as they stood; the one opened from among them is taken out.
pub proof fn leaving_a_finished_sheet_keeps_it_first(
    before: Shelf,
    after: Shelf,
    path: (Seq<char>, Seq<char>),
    id: u64,
    source: Source,
    gone: Seq<u64>,
    l: Loaded,
)
    requires
        shelf::opened(before, after, path, id, source, gone),
        before.loaded == Some(l),
        l.done,
        l.cells@.len() <= 200,
        l.path@ != path,
    ensures
        after.recent().len() > 0,
        after.recent()[0] == l,
        source != Source::Cached && l.cells@.len() + shelf::thumbs_in(before.recent()) <= 200
            ==> after.recent() == seq![l] + before.recent(),
        source == Source::Cached && l.cells@.len() + shelf::thumbs_in(before.recent()) <= 200
            ==> exists|i: int|
            0 <= i < before.recent().len() && after.loaded == Some(#[trigger] before.recent()[i])
                && after.recent() == seq![l] + before.recent().remove(i),
{
    if shelf::holds(before.recent(), path) {
        let i = choose|i: int| #[trigger]
            shelf::first_of(before.recent(), path, i) && after.loaded == Some(before.recent()[i])
                && after.recent() == shelf::with_parked(before.recent().remove(i), before.loaded);
        let rest = before.recent().remove(i);
        a_finished_sheet_comes_back(rest, l);
        the_thumbnails_held_add_up(rest, l);
        lemma_fewer_without_one(before.recent(), i);
        assert(after.loaded == Some(before.recent()[i]));
    } else {
        a_finished_sheet_comes_back(before.recent(), l);
        the_thumbnails_held_add_up(before.recent(), l);
    }
}

proof fn lemma_fewer_without_one(s: Seq<Loaded>, i: int)
    requires
        0 <= i < s.len(),
    ensures
        shelf::thumbs_in(s.remove(i)) <= shelf::thumbs_in(s),
    decreases s.len(),
{
    if i == s.len() - 1 {
        assert(s.remove(i) =~= s.drop_last());
    } else {
        assert(s.remove(i).drop_last() =~= s.drop_last().remove(i));
        assert(s.remove(i).last() == s.last());
        lemma_fewer_without_one(s.drop_last(), i);
    }
}

/// A clip is at hand among those visited before exactly when one of their sheets
/// is of its path, and the first such sheet is the one meant.
pub proof fn a_clip_is_found_by_its_path(sheets: Seq<Loaded>, path: (Seq<char>, Seq<char>), i: int)
    requires
        0 <= i < sheets.len(),
        sheets[i].path@ == path,
        forall|j: int| 0 <= j < i ==> (#[trigger] sheets[j]).path@ != path,
    ensures
        shelf::holds(sheets, path),
        forall|k: int| #[trigger] shelf::first_of(sheets, path, k) ==> k == i,
{
    assert(shelf::first_of(sheets, path, i));
    assert forall|k: int| #[trigger] shelf::first_of(sheets, path, k) implies k == i by {
        if k < i {
            assert(sheets[k].path@ != path);
        }
    }
}

/// A path is its folder and its name.
pub proof fn a_path_is_its_folder_and_its_name(p: ClipPath)
    ensures
        p@.0 == p.folder@,
        p@.1 == p.name@,
{
}

/// The sheets that make way are those that are not kept, told by their numbers
/// from the oldest on.
pub proof fn the_oldest_sheets_make_way_first(sheets: Seq<Loaded>, i: int)
    requires
        0 <= i < sheets.len() - shelf::within_thumbs(sheets).len(),
    ensures
        shelf::made_way(sheets).len() == sheets.len() - shelf::within_thumbs(sheets).len(),
        shelf::made_way(sheets)[i] == sheets[sheets.len() - 1 - i].id,
    decreases sheets.len(),
{
    lemma_made_way_len(sheets);
    if i > 0 {
        let rest = sheets.drop_last();
        lemma_made_way_len(rest);
        the_oldest_sheets_make_way_first(rest, i - 1);
    }
}

proof fn lemma_made_way_len(sheets: Seq<Loaded>)
    ensures
        shelf::made_way(sheets).len() == sheets.len() - shelf::within_thumbs(sheets).len(),
    decreases sheets.len(),
{
    if sheets.len() > 0 && shelf::thumbs_in(sheets) > RECENT_MAX_THUMBS {
        lemma_made_way_len(sheets.drop_last());
    }
}

/// A sheet whose reader has just been started is empty, of its own path and
/// number, and has the shape of a common frame until its own is known.
pub proof fn a_sheet_starts_empty(l: Loaded, id: u64, path: (Seq<char>, Seq<char>))
    requires
        shelf::just_started(l, id, path),
    ensures
        (l.id, l.path@) == (id, path),
        l.cells@.len() == 0,
        (l.ready, l.cursor, l.duration_ns) == (0usize, 0usize, 0i64),
        !l.done,
        l.aspect.0 * 16 == l.aspect.1 * 9,
{
}

} // verus!
