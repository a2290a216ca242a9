//! The clips of a folder, in order, and the neighbours of one of them.

use vstd::prelude::*;
use vstd::utf8::*;

use crate::naming;

verus! {

/// One entry of a folder, as its listing reports it.
pub struct DirEntry {
    pub name: String,
    pub is_dir: bool,
}

/// Whether byte text `a` sorts no later than `b`.
pub open spec fn lex_le(a: Seq<u8>, b: Seq<u8>) -> bool
    decreases a.len(),
{
    if a.len() == 0 {
        true
    } else if b.len() == 0 {
        false
    } else {
        a[0] < b[0] || (a[0] == b[0] && lex_le(a.drop_first(), b.drop_first()))
    }
}

/// Whether a file name sorts no later than another: by their bytes in UTF-8.
pub open spec fn name_le(a: Seq<char>, b: Seq<char>) -> bool {
    lex_le(encode_utf8(a), encode_utf8(b))
}

/// The texts of a list of strings.
pub open spec fn texts(names: Seq<String>) -> Seq<Seq<char>> {
    names.map_values(|s: String| s@)
}

/// The names of a folder's clips in the order of its listing: the entries with a
/// video extension that are not folders themselves.
pub open spec fn clips_of(entries: Seq<DirEntry>) -> Seq<Seq<char>>
    decreases entries.len(),
{
    if entries.len() == 0 {
        Seq::empty()
    } else {
        let rest = clips_of(entries.drop_last());
        let e = entries.last();
        if naming::names_a_video(e.name@) && !e.is_dir {
            rest.push(e.name@)
        } else {
            rest
        }
    }
}

/// Whether names stand in sorted order.
pub open spec fn in_order(names: Seq<Seq<char>>) -> bool {
    forall|i: int, j: int| 0 <= i <= j < names.len() ==> name_le(names[i], names[j])
}

proof fn lemma_lex_reflexive(a: Seq<u8>)
    ensures
        lex_le(a, a),
    decreases a.len(),
{
    if a.len() > 0 {
        lemma_lex_reflexive(a.drop_first());
    }
}

proof fn lemma_lex_total(a: Seq<u8>, b: Seq<u8>)
    ensures
        lex_le(a, b) || lex_le(b, a),
    decreases a.len(),
{
    if a.len() > 0 && b.len() > 0 {
        lemma_lex_total(a.drop_first(), b.drop_first());
    }
}

proof fn lemma_lex_transitive(a: Seq<u8>, b: Seq<u8>, c: Seq<u8>)
    requires
        lex_le(a, b),
        lex_le(b, c),
    ensures
        lex_le(a, c),
    decreases a.len(),
{
    if a.len() > 0 && b.len() > 0 && c.len() > 0 && a[0] == b[0] && b[0] == c[0] {
        lemma_lex_transitive(a.drop_first(), b.drop_first(), c.drop_first());
    }
}

/// Whether `a` sorts no later than `b`.
fn sorts_before(a: &str, b: &str) -> (le: bool)
    ensures
        le == name_le(a@, b@),
{
    let x: &[u8] = a.as_bytes();
    let y: &[u8] = b.as_bytes();
    let mut i: usize = 0;
    assert(x@.skip(0) =~= x@);
    assert(y@.skip(0) =~= y@);
    while i < x.len()
        invariant
            i <= x.len(),
            i <= y.len(),
            x@ == encode_utf8(a@),
            y@ == encode_utf8(b@),
            lex_le(x@, y@) == lex_le(x@.skip(i as int), y@.skip(i as int)),
        decreases x.len() - i,
    {
        let ghost p = x@.skip(i as int);
        let ghost q = y@.skip(i as int);
        if i >= y.len() {
            return false;
        }
        assert(p[0] == x@[i as int]);
        assert(q[0] == y@[i as int]);
        assert(p.drop_first() =~= x@.skip(i + 1));
        assert(q.drop_first() =~= y@.skip(i + 1));
        if x[i] < y[i] {
            return true;
        }
        if x[i] > y[i] {
            return false;
        }
        i = i + 1;
    }
    true
}

/// Where `name` goes in a sorted list: behind every name that sorts no later.
fn place_of(names: &Vec<String>, name: &str) -> (at: usize)
    requires
        in_order(texts(names@)),
    ensures
        at <= names.len(),
        forall|i: int| 0 <= i < at ==> name_le(#[trigger] texts(names@)[i], name@),
        forall|i: int|
            at <= i < names.len() ==> !name_le(#[trigger] texts(names@)[i], name@),
{
    let mut low: usize = 0;
    let mut high: usize = names.len();
    while low < high
        invariant
            low <= high <= names.len(),
            in_order(texts(names@)),
            forall|i: int| 0 <= i < low ==> name_le(#[trigger] texts(names@)[i], name@),
            forall|i: int|
                high <= i < names.len() ==> !name_le(#[trigger] texts(names@)[i], name@),
        decreases high - low,
    {
        let mid: usize = low + (high - low) / 2;
        let ghost m = texts(names@)[mid as int];
        assert(m == names@[mid as int]@);
        if sorts_before(names[mid].as_str(), name) {
            proof {
                assert forall|i: int| 0 <= i < mid + 1 implies name_le(
                    #[trigger] texts(names@)[i],
                    name@,
                ) by {
                    assert(name_le(texts(names@)[i], m));
                    lemma_lex_transitive(
                        encode_utf8(texts(names@)[i]),
                        encode_utf8(m),
                        encode_utf8(name@),
                    );
                }
            }
            low = mid + 1;
        } else {
            proof {
                assert forall|i: int| mid <= i < names.len() implies !name_le(
                    #[trigger] texts(names@)[i],
                    name@,
                ) by {
                    if name_le(texts(names@)[i], name@) {
                        assert(name_le(m, texts(names@)[i]));
                        lemma_lex_transitive(
                            encode_utf8(m),
                            encode_utf8(texts(names@)[i]),
                            encode_utf8(name@),
                        );
                    }
                }
            }
            high = mid;
        }
    }
    low
}

proof fn lemma_insert_keeps_order(names: Seq<Seq<char>>, at: int, name: Seq<char>)
    requires
        in_order(names),
        0 <= at <= names.len(),
        forall|i: int| 0 <= i < at ==> name_le(#[trigger] names[i], name),
        forall|i: int| at <= i < names.len() ==> !name_le(#[trigger] names[i], name),
    ensures
        in_order(names.insert(at, name)),
{
    let after = names.insert(at, name);
    assert forall|i: int, j: int| 0 <= i <= j < after.len() implies name_le(after[i], after[j]) by {
        if i == j {
            lemma_lex_reflexive(encode_utf8(after[i]));
        } else if j < at {
            assert(name_le(names[i], names[j]));
        } else if j == at {
            assert(name_le(names[i], name));
        } else if i == at {
            assert(!name_le(names[j - 1], name));
            lemma_lex_total(encode_utf8(names[j - 1]), encode_utf8(name));
        } else if i < at {
            assert(name_le(names[i], names[j - 1]));
        } else {
            assert(name_le(names[i - 1], names[j - 1]));
        }
    }
}

/// The clips among a folder's entries, sorted by name. Folders are left out, so
/// a linked clip stays in.
pub fn sibling_videos(entries: &Vec<DirEntry>) -> (names: Vec<String>)
    ensures
        in_order(texts(names@)),
        texts(names@).to_multiset() == clips_of(entries@).to_multiset(),
{
    let mut names: Vec<String> = Vec::new();
    let mut i: usize = 0;
    assert(entries@.take(0) =~= Seq::<DirEntry>::empty());
    assert(texts(names@) =~= Seq::<Seq<char>>::empty());
    while i < entries.len()
        invariant
            i <= entries.len(),
            in_order(texts(names@)),
            texts(names@).to_multiset() == clips_of(entries@.take(i as int)).to_multiset(),
        decreases entries.len() - i,
    {
        let e = &entries[i];
        let ghost done = entries@.take(i as int);
        let ghost more = entries@.take(i + 1);
        assert(more.drop_last() =~= done);
        assert(more.last() == *e);
        if naming::is_video(e.name.as_str()) && !e.is_dir {
            let at: usize = place_of(&names, e.name.as_str());
            let ghost before = texts(names@);
            proof {
                lemma_insert_keeps_order(before, at as int, e.name@);
                vstd::seq_lib::to_multiset_insert(before, at as int, e.name@);
                vstd::seq_lib::to_multiset_build(clips_of(done), e.name@);
            }
            names.insert(at, e.name.clone());
            assert(texts(names@) =~= before.insert(at as int, e.name@));
        }
        i = i + 1;
    }
    assert(entries@.take(i as int) =~= entries@);
    names
}

/// Where `name` first stands in a list.
pub open spec fn first_at(names: Seq<Seq<char>>, name: Seq<char>, i: int) -> bool {
    &&& 0 <= i < names.len()
    &&& names[i] == name
    &&& forall|j: int| 0 <= j < i ==> #[trigger] names[j] != name
}

/// The name of the clip `delta` positions from `current` among its siblings
/// (-1 previous, +1 next); nothing past the ends, or where the clip is not among
/// them.
pub fn neighbor_of(names: &Vec<String>, current: &str, delta: i32) -> (n: Option<String>)
    ensures
        match n {
            Some(s) => exists|i: int| #[trigger]
                first_at(texts(names@), current@, i) && 0 <= i + delta < names.len() && s@
                    == names@[i + delta]@,
            None => forall|i: int| #[trigger]
                first_at(texts(names@), current@, i) ==> !(0 <= i + delta < names.len()),
        },
{
    let mut i: usize = 0;
    while i < names.len()
        invariant
            i <= names.len(),
            forall|j: int| 0 <= j < i ==> #[trigger] texts(names@)[j] != current@,
        decreases names.len() - i,
    {
        assert(texts(names@)[i as int] == names@[i as int]@);
        if naming::same_text(names[i].as_str(), current) {
            assert(first_at(texts(names@), current@, i as int));
            proof {
                assert forall|j: int| #[trigger] first_at(texts(names@), current@, j) implies j
                    == i by {
                    if j < i {
                        assert(texts(names@)[j] != current@);
                    } else if i < j {
                        assert(texts(names@)[i as int] != current@);
                    }
                }
            }
            let target: i128 = i as i128 + delta as i128;
            if 0 <= target && target < names.len() as i128 {
                return Some(names[target as usize].clone());
            }
            return None;
        }
        i = i + 1;
    }
    proof {
        assert forall|j: int| #[trigger] first_at(texts(names@), current@, j) implies !(0 <= j
            + delta < names.len()) by {
            assert(texts(names@)[j] != current@);
        }
    }
    None
}

/// The clip to go on with once `current` is gone: the next of its siblings, or
/// the previous one where it was the last.
pub fn after_delete(names: &Vec<String>, current: &str) -> (n: Option<String>)
    ensures
        match n {
            Some(s) => if has_neighbor(texts(names@), current@, 1) {
                stands(texts(names@), current@, 1, s@)
            } else {
                stands(texts(names@), current@, -1, s@)
            },
            None => !has_neighbor(texts(names@), current@, 1) && !has_neighbor(
                texts(names@),
                current@,
                -1,
            ),
        },
{
    match neighbor_of(names, current, 1) {
        Some(s) => {
            proof {
                let t = texts(names@);
                let i = choose|i: int| #[trigger]
                    first_at(t, current@, i) && 0 <= i + 1 < names.len() && s@ == names@[i + 1]@;
                assert(t[i + 1] == s@);
                assert(stands(t, current@, 1, s@));
            }
            Some(s)
        },
        None => match neighbor_of(names, current, -1) {
            Some(s) => {
                proof {
                    let t = texts(names@);
                    let i = choose|i: int| #[trigger]
                        first_at(t, current@, i) && 0 <= i - 1 < names.len() && s@
                            == names@[i - 1]@;
                    assert(t[i - 1] == s@);
                    assert(stands(t, current@, -1, s@));
                }
                Some(s)
            },
            None => None,
        },
    }
}

/// Whether `b` is the name `delta` positions from `a`.
pub open spec fn stands(names: Seq<Seq<char>>, a: Seq<char>, delta: int, b: Seq<char>) -> bool {
    exists|i: int| #[trigger]
        first_at(names, a, i) && 0 <= i + delta < names.len() && b == names[i + delta]
}

/// Whether any name stands `delta` positions from `a`.
pub open spec fn has_neighbor(names: Seq<Seq<char>>, a: Seq<char>, delta: int) -> bool {
    exists|i: int| #[trigger] first_at(names, a, i) && 0 <= i + delta < names.len()
}

/// Stepping on and back again returns to the clip one came from, in any folder
/// whose names are distinct.
pub proof fn stepping_back_returns(
    names: Seq<Seq<char>>,
    a: Seq<char>,
    delta: int,
    b: Seq<char>,
)
    requires
        names.no_duplicates(),
        stands(names, a, delta, b),
    ensures
        stands(names, b, -delta, a),
{
    let i = choose|i: int| #[trigger]
        first_at(names, a, i) && 0 <= i + delta < names.len() && b == names[i + delta];
    assert(first_at(names, b, i + delta));
}

/// Every clip of a folder but the last has a next one, and every one but the
/// first a previous one, so that stepping in one direction visits them all.
pub proof fn only_the_ends_have_no_neighbor(names: Seq<Seq<char>>, i: int)
    requires
        names.no_duplicates(),
        0 <= i < names.len(),
    ensures
        i + 1 < names.len() ==> stands(names, names[i], 1, names[i + 1]),
        i > 0 ==> stands(names, names[i], -1, names[i - 1]),
        i + 1 == names.len() ==> !has_neighbor(names, names[i], 1),
        i == 0 ==> !has_neighbor(names, names[i], -1),
{
    assert(first_at(names, names[i], i));
    assert forall|j: int| #[trigger] first_at(names, names[i], j) implies j == i by {}
}

/// The first byte in which two texts differ decides their order, whatever comes
/// behind it.
pub proof fn the_first_difference_decides(a: Seq<u8>, b: Seq<u8>, k: int)
    requires
        0 <= k < a.len(),
        k < b.len(),
        forall|i: int| 0 <= i < k ==> a[i] == b[i],
        a[k] < b[k],
    ensures
        lex_le(a, b),
        !lex_le(b, a),
    decreases k,
{
    if k > 0 {
        let x = a.drop_first();
        let y = b.drop_first();
        assert(a[0] == b[0]);
        assert forall|i: int| 0 <= i < k - 1 implies x[i] == y[i] by {
            assert(a[i + 1] == b[i + 1]);
        }
        the_first_difference_decides(x, y, k - 1);
    }
}

/// A text sorts before every longer one that it begins, and no later than
/// itself.
pub proof fn a_beginning_sorts_first(a: Seq<u8>, b: Seq<u8>)
    requires
        a.len() <= b.len(),
        forall|i: int| 0 <= i < a.len() ==> a[i] == b[i],
    ensures
        lex_le(a, b),
        lex_le(b, a) <==> a.len() == b.len(),
    decreases a.len(),
{
    if a.len() > 0 {
        let x = a.drop_first();
        let y = b.drop_first();
        assert(a[0] == b[0]);
        assert forall|i: int| 0 <= i < x.len() implies x[i] == y[i] by {
            assert(a[i + 1] == b[i + 1]);
        }
        a_beginning_sorts_first(x, y);
    }
}

/// In a sorted list of names, of any two the earlier has the smaller byte where
/// they first differ.
pub proof fn a_sorted_list_goes_up_by_bytes(names: Seq<Seq<char>>, i: int, j: int, k: int)
    requires
        in_order(names),
        0 <= i < j < names.len(),
        0 <= k < encode_utf8(names[i]).len(),
        k < encode_utf8(names[j]).len(),
        forall|n: int|
            0 <= n < k ==> #[trigger] encode_utf8(names[i])[n] == encode_utf8(names[j])[n],
        encode_utf8(names[i])[k] != encode_utf8(names[j])[k],
    ensures
        encode_utf8(names[i])[k] < encode_utf8(names[j])[k],
{
    assert(name_le(names[i], names[j]));
    if encode_utf8(names[j])[k] < encode_utf8(names[i])[k] {
        the_first_difference_decides(encode_utf8(names[j]), encode_utf8(names[i]), k);
    }
}

/// In a sorted list of names, one that begins another does not come behind it.
pub proof fn a_sorted_list_goes_from_short_to_long(names: Seq<Seq<char>>, i: int, j: int)
    requires
        in_order(names),
        0 <= i < j < names.len(),
        encode_utf8(names[j]).len() <= encode_utf8(names[i]).len(),
        forall|n: int|
            0 <= n < encode_utf8(names[j]).len() ==> #[trigger] encode_utf8(names[j])[n]
                == encode_utf8(names[i])[n],
    ensures
        encode_utf8(names[i]) == encode_utf8(names[j]),
{
    assert(name_le(names[i], names[j]));
    a_beginning_sorts_first(encode_utf8(names[j]), encode_utf8(names[i]));
    assert(encode_utf8(names[i]) =~= encode_utf8(names[j]));
}

/// A list of names that goes up by bytes is a sorted one: the order asks for
/// nothing else.
pub proof fn going_up_by_bytes_is_enough(names: Seq<Seq<char>>, first: spec_fn(int, int) -> int)
    requires
        forall|i: int, j: int|
            #![trigger names[i], names[j]]
            0 <= i < j < names.len() ==> {
                let a = encode_utf8(names[i]);
                let b = encode_utf8(names[j]);
                let k = first(i, j);
                &&& 0 <= k <= a.len()
                &&& k <= b.len()
                &&& forall|n: int| 0 <= n < k ==> a[n] == b[n]
                &&& k == a.len() || (k < b.len() && a[k] < b[k])
            },
    ensures
        in_order(names),
{
    assert forall|i: int, j: int| 0 <= i <= j < names.len() implies name_le(names[i], names[j]) by {
        let a = encode_utf8(names[i]);
        let b = encode_utf8(names[j]);
        if i == j {
            a_beginning_sorts_first(a, b);
        } else {
            let k = first(i, j);
            if k == a.len() {
                a_beginning_sorts_first(a, b);
            } else {
                the_first_difference_decides(a, b, k);
            }
        }
    }
}

/// The clips of a folder are its entries that name a video and are no folders,
/// all of them, each as often as it is listed.
pub proof fn the_clips_are_the_listed_videos(entries: Seq<DirEntry>)
    ensures
        clips_of(entries) == entries.filter(
            |e: DirEntry| naming::names_a_video(e.name@) && !e.is_dir,
        ).map_values(|e: DirEntry| e.name@),
    decreases entries.len(),
{
    reveal(Seq::filter);
    let p = |e: DirEntry| naming::names_a_video(e.name@) && !e.is_dir;
    let f = |e: DirEntry| e.name@;
    if entries.len() > 0 {
        the_clips_are_the_listed_videos(entries.drop_last());
        let rest = entries.drop_last().filter(p);
        assert(rest.push(entries.last()).map_values(f) =~= rest.map_values(f).push(
            entries.last().name@,
        ));
    } else {
        assert(entries.filter(p).map_values(f) =~= Seq::<Seq<char>>::empty());
    }
}

/// The clip to go on with is another one, in any folder whose names are
/// distinct, and every step leads to a name of the folder.
pub proof fn a_step_leads_to_another_clip(
    names: Seq<Seq<char>>,
    a: Seq<char>,
    delta: int,
    b: Seq<char>,
)
    requires
        names.no_duplicates(),
        delta != 0,
        stands(names, a, delta, b),
    ensures
        names.contains(a),
        names.contains(b),
        a != b,
{
    let i = choose|i: int| #[trigger]
        first_at(names, a, i) && 0 <= i + delta < names.len() && b == names[i + delta];
    assert(names[i] == a);
}

/// The texts of a list are those of its strings, one by one.
pub proof fn a_list_reads_as_its_strings(names: Seq<String>, i: int)
    requires
        0 <= i < names.len(),
    ensures
        texts(names).len() == names.len(),
        texts(names)[i] == names[i]@,
{
}

/// A clip has a neighbour exactly where one stands: every clip but the last has a
/// next one and every clip but the first a previous one.
pub proof fn a_neighbor_is_a_clip_that_stands_there(names: Seq<Seq<char>>, i: int, delta: int)
    requires
        names.no_duplicates(),
        0 <= i < names.len(),
    ensures
        has_neighbor(names, names[i], delta) <==> 0 <= i + delta < names.len(),
        0 <= i + delta < names.len() ==> stands(names, names[i], delta, names[i + delta]),
{
    assert(first_at(names, names[i], i));
    assert forall|j: int| #[trigger] first_at(names, names[i], j) implies j == i by {}
}

} // verus!
