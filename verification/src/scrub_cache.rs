//! Scaled frames a scrub has already shown, so stepping back over ground just
//! covered shows them again instead of decoding them again.

use std::collections::VecDeque;

use vstd::prelude::*;

use crate::clock::FRAME_EPS_NS;

verus! {

/// Memory a [`ScrubCache`] may hold, in bytes. Counted in bytes rather than
/// frames because a frame's cost is set by the playback box, not the source.
pub const SCRUB_CACHE_BYTES: u64 = 134_217_728;

/// One scaled RGBA frame and the media time it was sampled at.
pub struct Thumbnail {
    pub time_ns: i64,
    pub width: u32,
    pub height: u32,
    pub rgba: Vec<u8>,
}

/// What a [`Thumbnail`] shows and when.
#[verifier::ext_equal]
pub struct Picture {
    pub time_ns: i64,
    pub width: u32,
    pub height: u32,
    pub rgba: Seq<u8>,
}

impl View for Thumbnail {
    type V = Picture;

    open spec fn view(&self) -> Picture {
        Picture {
            time_ns: self.time_ns,
            width: self.width,
            height: self.height,
            rgba: self.rgba@,
        }
    }
}

impl Thumbnail {
    /// A copy of this frame.
    pub fn copy(&self) -> (t: Thumbnail)
        ensures
            t@ == self@,
    {
        Thumbnail {
            time_ns: self.time_ns,
            width: self.width,
            height: self.height,
            rgba: self.rgba.clone(),
        }
    }
}

/// The earliest time that counts as being at `target`.
pub open spec fn landing_bound(target: int) -> int {
    target - FRAME_EPS_NS
}

/// Whether frame `i` answers a scrub to `target`: it is the earliest held frame
/// that counts as being at the target (the longest held of several at one
/// time), and it sits within one frame of the bound, so that no frame that is
/// not held can lie between the two.
pub open spec fn serves(held: Seq<Picture>, frame_dur: int, target: int, i: int) -> bool {
    &&& 0 <= i < held.len()
    &&& held[i].time_ns >= landing_bound(target)
    &&& forall|j: int|
        0 <= j < held.len() && #[trigger] held[j].time_ns >= landing_bound(target)
            ==> held[i].time_ns <= held[j].time_ns && (j < i ==> held[i].time_ns
            < held[j].time_ns)
    &&& held[i].time_ns - landing_bound(target) < frame_dur
}

/// Whether some held frame answers a scrub to `target`.
pub open spec fn answered(held: Seq<Picture>, frame_dur: int, target: int) -> bool {
    exists|i: int| #[trigger] serves(held, frame_dur, target, i)
}

/// The pixels of all the frames in `held`, in bytes.
pub open spec fn held_bytes(held: Seq<Picture>) -> nat
    decreases held.len(),
{
    if held.len() == 0 {
        0
    } else {
        held[0].rgba.len() + held_bytes(held.drop_first())
    }
}

/// What is left of `held` once the oldest frames have made way for the budget.
pub open spec fn within_budget(held: Seq<Picture>) -> Seq<Picture>
    decreases held.len(),
{
    if held.len() == 0 || held_bytes(held) <= SCRUB_CACHE_BYTES {
        held
    } else {
        within_budget(held.drop_first())
    }
}

/// What the cache holds once the frame `f` has been offered to it.
pub open spec fn with_frame(held: Seq<Picture>, frame_dur: int, f: Picture) -> Seq<Picture> {
    if frame_dur <= 0 || answered(held, frame_dur, f.time_ns as int) {
        held
    } else {
        within_budget(held.push(f))
    }
}

/// The frames this clip's scrubs have shown, oldest first.
pub struct ScrubCache {
    frames: VecDeque<Thumbnail>,
    bytes: u128,
    frame_dur_ns: i64,
}

impl View for ScrubCache {
    type V = Seq<Picture>;

    closed spec fn view(&self) -> Seq<Picture> {
        self.frames@.map_values(|t: Thumbnail| t@)
    }
}

impl ScrubCache {
    /// The nominal frame duration, which sets how far a held frame may sit from
    /// a target and still be the frame at it. Zero when the stream declares no
    /// rate, which turns the cache off.
    pub closed spec fn frame_dur(self) -> int {
        self.frame_dur_ns as int
    }

    /// The frames held are within the budget, and none are held where the
    /// cache is off.
    pub closed spec fn wf(self) -> bool {
        &&& self.bytes == held_bytes(self@)
        &&& self.bytes <= SCRUB_CACHE_BYTES
        &&& self.frame_dur_ns <= 0 ==> self@.len() == 0
    }

    /// An empty cache for a stream with this nominal frame duration.
    pub fn new(frame_dur_ns: i64) -> (c: ScrubCache)
        ensures
            c.wf(),
            c@ == Seq::<Picture>::empty(),
            c.frame_dur() == frame_dur_ns,
    {
        let c = ScrubCache { frames: VecDeque::new(), bytes: 0, frame_dur_ns };
        assert(c@ =~= Seq::<Picture>::empty());
        c
    }

    /// How many frames are held.
    pub fn len(&self) -> (n: usize)
        ensures
            n == self@.len(),
    {
        self.frames.len()
    }

    /// The frame a scrub to `target_ns` would land on, if it is held.
    pub fn get(&self, target_ns: i64) -> (hit: Option<&Thumbnail>)
        ensures
            match hit {
                Some(f) => exists|i: int| #[trigger]
                    serves(self@, self.frame_dur(), target_ns as int, i) && f@ == self@[i],
                None => !answered(self@, self.frame_dur(), target_ns as int),
            },
    {
        let from: i128 = target_ns as i128 - FRAME_EPS_NS as i128;
        let mut best: Option<usize> = None;
        let mut i: usize = 0;
        while i < self.frames.len()
            invariant
                i <= self.frames@.len(),
                from == landing_bound(target_ns as int),
                match best {
                    Some(b) => {
                        &&& b < i
                        &&& self@[b as int].time_ns >= from
                        &&& forall|j: int|
                            0 <= j < i && #[trigger] self@[j].time_ns >= from ==> self@[b as int].time_ns
                                <= self@[j].time_ns && (j < b ==> self@[b as int].time_ns
                                < self@[j].time_ns)
                    },
                    None => forall|j: int| 0 <= j < i ==> #[trigger] self@[j].time_ns < from,
                },
            decreases self.frames@.len() - i,
        {
            let t: i64 = self.frames[i].time_ns;
            assert(self@[i as int].time_ns == t);
            if t as i128 >= from {
                let closer: bool = match best {
                    Some(b) => t < self.frames[b].time_ns,
                    None => true,
                };
                if closer {
                    best = Some(i);
                }
            }
            i = i + 1;
        }
        match best {
            Some(b) => {
                let f = &self.frames[b];
                if (f.time_ns as i128) - from < self.frame_dur_ns as i128 {
                    assert(serves(self@, self.frame_dur(), target_ns as int, b as int));
                    Some(f)
                } else {
                    proof {
                        assert forall|k: int| !serves(
                            self@,
                            self.frame_dur(),
                            target_ns as int,
                            k,
                        ) by {
                            if serves(self@, self.frame_dur(), target_ns as int, k) {
                                assert(self@[k].time_ns >= from);
                                assert(self@[b as int].time_ns >= from);
                            }
                        }
                    }
                    None
                }
            },
            None => None,
        }
    }

    /// Keep a copy of a frame a scrub just showed, letting the oldest frames go
    /// until the cache is back within its budget.
    pub fn put(&mut self, f: &Thumbnail)
        requires
            old(self).wf(),
        ensures
            final(self).wf(),
            final(self).frame_dur() == old(self).frame_dur(),
            final(self)@ == with_frame(old(self)@, old(self).frame_dur(), f@),
    {
        if self.frame_dur_ns <= 0 {
            return ;
        }
        let held: bool = self.get(f.time_ns).is_some();
        if held {
            return ;
        }
        let ghost before = self@;
        self.bytes = self.bytes + f.rgba.len() as u128;
        self.frames.push_back(f.copy());
        proof {
            assert(self@ =~= before.push(f@));
            lemma_bytes_of_push(before, f@);
        }
        let ghost full = self@;
        while self.bytes > SCRUB_CACHE_BYTES as u128
            invariant
                self.bytes == held_bytes(self@),
                self.frame_dur_ns > 0,
                self.frame_dur_ns == old(self).frame_dur_ns,
                within_budget(self@) == within_budget(full),
            decreases self.frames@.len(),
        {
            let ghost held_before = self@;
            match self.frames.pop_front() {
                Some(oldest) => {
                    proof {
                        assert(self@ =~= held_before.drop_first());
                        assert(held_before[0] == oldest@);
                    }
                    self.bytes = self.bytes - oldest.rgba.len() as u128;
                },
                None => {
                    assert(held_before.len() == 0);
                    assert(false);
                },
            }
        }
    }

    /// Drop every held frame. They are all scaled to one output size, and a
    /// rescale makes that the wrong one.
    pub fn clear(&mut self)
        ensures
            final(self).wf(),
            final(self).frame_dur() == old(self).frame_dur(),
            final(self)@ == Seq::<Picture>::empty(),
    {
        self.frames.clear();
        self.bytes = 0;
        assert(self@ =~= Seq::<Picture>::empty());
    }
}

proof fn lemma_bytes_of_push(s: Seq<Picture>, f: Picture)
    ensures
        held_bytes(s.push(f)) == held_bytes(s) + f.rgba.len(),
    decreases s.len(),
{
    if s.len() > 0 {
        assert(s.push(f).drop_first() =~= s.drop_first().push(f));
        lemma_bytes_of_push(s.drop_first(), f);
    } else {
        assert(s.push(f).drop_first() =~= s);
        assert(held_bytes(s) == 0);
    }
}

/// The times of a stream's frames in presentation order, at least `frame_dur`
/// apart, as a constant frame rate has them.
pub open spec fn steady(times: Seq<int>, frame_dur: int) -> bool {
    forall|i: int, j: int|
        0 <= i < j < times.len() ==> #[trigger] times[j] - #[trigger] times[i] >= frame_dur
}

/// Whether every held frame is a frame of the stream.
pub open spec fn held_from(held: Seq<Picture>, times: Seq<int>) -> bool {
    forall|i: int| 0 <= i < held.len() ==> times.contains(#[trigger] held[i].time_ns as int)
}

/// Whether frame `k` of the stream is the one a decode toward `target` stops
/// on: the first that counts as being at the target.
pub open spec fn decode_lands_on(times: Seq<int>, target: int, k: int) -> bool {
    &&& 0 <= k < times.len()
    &&& times[k] >= landing_bound(target)
    &&& forall|j: int| 0 <= j < k ==> #[trigger] times[j] < landing_bound(target)
}

/// A move to the very time of a frame lands on that frame, at a constant frame
/// rate below a thousand frames a second. This is what brings a frame on screen
/// back when it has to be decoded again.
pub proof fn a_frame_is_landed_on_at_its_own_time(times: Seq<int>, frame_dur: int, k: int)
    requires
        frame_dur > FRAME_EPS_NS,
        steady(times, frame_dur),
        0 <= k < times.len(),
    ensures
        decode_lands_on(times, times[k], k),
{
    assert forall|j: int| 0 <= j < k implies #[trigger] times[j] < landing_bound(times[k]) by {
        assert(times[k] - times[j] >= frame_dur);
    }
}

/// A held frame answers a target exactly when one lies within a frame of the
/// landing bound.
pub proof fn answered_within_one_frame(held: Seq<Picture>, frame_dur: int, target: int)
    ensures
        answered(held, frame_dur, target) <==> exists|i: int|
            0 <= i < held.len() && landing_bound(target) <= #[trigger] held[i].time_ns
                < landing_bound(target) + frame_dur,
{
    if exists|i: int|
        0 <= i < held.len() && landing_bound(target) <= #[trigger] held[i].time_ns < landing_bound(
            target,
        ) + frame_dur {
        let i = choose|i: int|
            0 <= i < held.len() && landing_bound(target) <= #[trigger] held[i].time_ns
                < landing_bound(target) + frame_dur;
        let e = lemma_earliest(held, target, held.len() as int, i);
        assert(serves(held, frame_dur, target, e));
    }
    if answered(held, frame_dur, target) {
        let i = choose|i: int| #[trigger] serves(held, frame_dur, target, i);
        assert(landing_bound(target) <= held[i].time_ns < landing_bound(target) + frame_dur);
    }
}

/// Among the first `n` frames, the earliest that counts as being at `target`.
proof fn lemma_earliest(held: Seq<Picture>, target: int, n: int, witness: int) -> (e: int)
    requires
        0 <= witness < n <= held.len(),
        held[witness].time_ns >= landing_bound(target),
    ensures
        0 <= e < n,
        landing_bound(target) <= held[e].time_ns <= held[witness].time_ns,
        forall|j: int|
            0 <= j < n && #[trigger] held[j].time_ns >= landing_bound(target) ==> held[e].time_ns
                <= held[j].time_ns && (j < e ==> held[e].time_ns < held[j].time_ns),
    decreases n,
{
    let last = n - 1;
    if exists|j: int| 0 <= j < last && #[trigger] held[j].time_ns >= landing_bound(target) {
        let w = if witness < last {
            witness
        } else {
            choose|j: int| 0 <= j < last && #[trigger] held[j].time_ns >= landing_bound(target)
        };
        let e = lemma_earliest(held, target, last, w);
        if held[last].time_ns >= landing_bound(target) && held[last].time_ns < held[e].time_ns {
            last
        } else {
            e
        }
    } else {
        last
    }
}

/// On a constant frame rate a hit is the very frame a decode of the same target
/// would stop on.
pub proof fn a_hit_is_what_a_decode_lands_on(
    held: Seq<Picture>,
    times: Seq<int>,
    frame_dur: int,
    target: int,
    i: int,
)
    requires
        frame_dur > 0,
        steady(times, frame_dur),
        held_from(held, times),
        serves(held, frame_dur, target, i),
    ensures
        exists|k: int| #[trigger]
            decode_lands_on(times, target, k) && times[k] == held[i].time_ns,
{
    let k = times.index_of(held[i].time_ns as int);
    assert(times.contains(held[i].time_ns as int));
    assert(times[k] == held[i].time_ns);
    assert(decode_lands_on(times, target, k));
}

/// Whether `f` is held, and is the only frame held of its time.
pub open spec fn held_alone(held: Seq<Picture>, f: Picture) -> bool {
    &&& held.contains(f)
    &&& forall|i: int|
        0 <= i < held.len() && #[trigger] held[i].time_ns == f.time_ns ==> held[i] == f
}

/// A frame that a decode toward a target lands on answers that target while it
/// is held, at a constant frame rate and within one frame of the target.
proof fn lemma_held_frame_serves(
    held: Seq<Picture>,
    times: Seq<int>,
    frame_dur: int,
    target: int,
    k: int,
    f: Picture,
)
    requires
        frame_dur > 0,
        steady(times, frame_dur),
        held_from(held, times),
        decode_lands_on(times, target, k),
        f.time_ns == times[k],
        times[k] - landing_bound(target) < frame_dur,
        held_alone(held, f),
    ensures
        exists|i: int| #[trigger] serves(held, frame_dur, target, i) && held[i] == f,
{
    let w = held.index_of(f);
    assert(held[w] == f);
    let e = lemma_earliest(held, target, held.len() as int, w);
    assert(serves(held, frame_dur, target, e));
    a_hit_is_what_a_decode_lands_on(held, times, frame_dur, target, e);
    let k2 = choose|k2: int| #[trigger]
        decode_lands_on(times, target, k2) && times[k2] == held[e].time_ns;
    assert(k2 == k) by {
        if k2 < k {
            assert(times[k2] < landing_bound(target));
        }
        if k < k2 {
            assert(times[k] < landing_bound(target));
        }
    }
}

/// Scrubbing to a position twice shows the same frame both times: once the
/// frame a decode landed on, no held frame answering the target, has been offered
/// to the cache, the same target is answered with that very frame, to the pixel.
/// This holds at a constant frame rate below a thousand frames a second, for a
/// frame that fits the budget on its own and that lies within one frame of the
/// target.
pub proof fn a_shown_frame_answers_its_target_again(
    held: Seq<Picture>,
    times: Seq<int>,
    frame_dur: int,
    target: int,
    k: int,
    f: Picture,
)
    requires
        frame_dur > FRAME_EPS_NS,
        steady(times, frame_dur),
        held_from(held, times),
        !answered(held, frame_dur, target),
        decode_lands_on(times, target, k),
        f.time_ns == times[k],
        f.rgba.len() <= SCRUB_CACHE_BYTES,
        times[k] - landing_bound(target) < frame_dur,
    ensures
        held_alone(with_frame(held, frame_dur, f), f),
        held_from(with_frame(held, frame_dur, f), times),
        exists|i: int| #[trigger]
            serves(with_frame(held, frame_dur, f), frame_dur, target, i) && with_frame(
                held,
                frame_dur,
                f,
            )[i] == f,
{
    let after = with_frame(held, frame_dur, f);
    answered_within_one_frame(held, frame_dur, target);
    assert(forall|i: int| 0 <= i < held.len() ==> #[trigger] held[i].time_ns != f.time_ns);
    if answered(held, frame_dur, f.time_ns as int) {
        let g = choose|g: int| #[trigger] serves(held, frame_dur, f.time_ns as int, g);
        let m = times.index_of(held[g].time_ns as int);
        assert(times.contains(held[g].time_ns as int));
        assert(m == k) by {
            if m < k {
                assert(times[k] - times[m] >= frame_dur);
            }
            if m > k {
                assert(times[m] - times[k] >= frame_dur);
            }
        }
        assert(false);
    }
    let all = held.push(f);
    lemma_newest_survives(all);
    lemma_budget_is_suffix(all);
    assert(after[after.len() - 1] == f);
    assert forall|i: int|
        0 <= i < after.len() && #[trigger] after[i].time_ns == f.time_ns implies after[i] == f by {
        assert(after[i] == all[all.len() - after.len() + i]);
    }
    lemma_budget_keeps_origin(held, times, f);
    lemma_held_frame_serves(after, times, frame_dur, target, k, f);
}

/// What the cache holds once these frames have been offered to it, in order.
pub open spec fn with_frames(held: Seq<Picture>, frame_dur: int, more: Seq<Picture>) -> Seq<Picture>
    decreases more.len(),
{
    if more.len() == 0 {
        held
    } else {
        with_frame(with_frames(held, frame_dur, more.drop_last()), frame_dur, more.last())
    }
}

proof fn lemma_held_through_more(
    held: Seq<Picture>,
    times: Seq<int>,
    frame_dur: int,
    f: Picture,
    more: Seq<Picture>,
)
    requires
        frame_dur > FRAME_EPS_NS,
        held_from(held, times),
        held_from(more, times),
        held_alone(held, f),
        held_bytes(held) + held_bytes(more) <= SCRUB_CACHE_BYTES,
    ensures
        held_alone(with_frames(held, frame_dur, more), f),
        held_from(with_frames(held, frame_dur, more), times),
        held_bytes(with_frames(held, frame_dur, more)) <= held_bytes(held) + held_bytes(more),
    decreases more.len(),
{
    if more.len() > 0 {
        let rest = more.drop_last();
        let g = more.last();
        assert(more =~= rest.push(g));
        lemma_bytes_of_push(rest, g);
        assert(held_from(rest, times)) by {
            assert forall|i: int| 0 <= i < rest.len() implies times.contains(
                #[trigger] rest[i].time_ns as int,
            ) by {
                assert(times.contains(more[i].time_ns as int));
            }
        }
        lemma_held_through_more(held, times, frame_dur, f, rest);
        let h = with_frames(held, frame_dur, rest);
        let w = h.index_of(f);
        if !answered(h, frame_dur, g.time_ns as int) {
            // A second frame of the same time would have been answered.
            answered_within_one_frame(h, frame_dur, g.time_ns as int);
            assert(h[w].time_ns != g.time_ns);
            lemma_bytes_of_push(h, g);
            let all = h.push(g);
            assert(with_frame(h, frame_dur, g) == all);
            assert(all[w] == f);
            assert(times.contains(more[more.len() - 1].time_ns as int));
        }
    }
}

/// A position keeps showing the frame it showed while others are shown in
/// between: as long as everything shown fits the budget together, the target is
/// still answered with that very frame.
pub proof fn a_shown_frame_answers_after_others(
    held: Seq<Picture>,
    times: Seq<int>,
    frame_dur: int,
    target: int,
    k: int,
    f: Picture,
    more: Seq<Picture>,
)
    requires
        frame_dur > FRAME_EPS_NS,
        steady(times, frame_dur),
        held_from(held, times),
        held_from(more, times),
        decode_lands_on(times, target, k),
        f.time_ns == times[k],
        times[k] - landing_bound(target) < frame_dur,
        held_alone(held, f),
        held_bytes(held) + held_bytes(more) <= SCRUB_CACHE_BYTES,
    ensures
        exists|i: int| #[trigger]
            serves(with_frames(held, frame_dur, more), frame_dur, target, i) && with_frames(
                held,
                frame_dur,
                more,
            )[i] == f,
{
    lemma_held_through_more(held, times, frame_dur, f, more);
    lemma_held_frame_serves(
        with_frames(held, frame_dur, more),
        times,
        frame_dur,
        target,
        k,
        f,
    );
}

/// A frame that fits the budget on its own is never the one to make way when it
/// is the newest.
proof fn lemma_newest_survives(held: Seq<Picture>)
    requires
        held.len() > 0,
        held.last().rgba.len() <= SCRUB_CACHE_BYTES,
    ensures
        within_budget(held).len() > 0,
        within_budget(held).last() == held.last(),
    decreases held.len(),
{
    if held_bytes(held) > SCRUB_CACHE_BYTES {
        if held.len() == 1 {
            assert(held_bytes(held.drop_first()) == 0);
            assert(held[0] == held.last());
        } else {
            assert(held.drop_first().last() == held.last());
            lemma_newest_survives(held.drop_first());
        }
    }
}

proof fn lemma_budget_is_suffix(held: Seq<Picture>)
    ensures
        within_budget(held).len() <= held.len(),
        within_budget(held) == held.skip(held.len() - within_budget(held).len()),
    decreases held.len(),
{
    if held.len() == 0 || held_bytes(held) <= SCRUB_CACHE_BYTES {
        assert(held.skip(0) =~= held);
    } else {
        lemma_budget_is_suffix(held.drop_first());
        let w = within_budget(held);
        assert(held.drop_first().skip(held.len() - 1 - w.len()) =~= held.skip(
            held.len() - w.len(),
        ));
    }
}

proof fn lemma_budget_keeps_origin(held: Seq<Picture>, times: Seq<int>, f: Picture)
    requires
        held_from(held, times),
        times.contains(f.time_ns as int),
    ensures
        forall|d: int| held_from(#[trigger] with_frame(held, d, f), times),
{
    lemma_budget_is_suffix(held.push(f));
}

/// The cache holds as many of the newest frames as fit its budget: what it lets
/// go is the oldest, and one frame more would not fit.
pub proof fn the_newest_frames_that_fit_are_held(held: Seq<Picture>)
    ensures
        held_bytes(within_budget(held)) <= SCRUB_CACHE_BYTES,
        within_budget(held).len() <= held.len(),
        within_budget(held) == held.skip(held.len() - within_budget(held).len()),
        within_budget(held).len() < held.len() ==> held_bytes(
            held.skip(held.len() - within_budget(held).len() - 1),
        ) > SCRUB_CACHE_BYTES,
    decreases held.len(),
{
    lemma_budget_is_suffix(held);
    if held.len() > 0 && held_bytes(held) > SCRUB_CACHE_BYTES {
        the_newest_frames_that_fit_are_held(held.drop_first());
        let w = within_budget(held);
        if w.len() == held.len() - 1 {
            assert(held.skip(0) =~= held);
        } else {
            assert(held.drop_first().skip(held.len() - 1 - w.len() - 1) =~= held.skip(
                held.len() - w.len() - 1,
            ));
        }
    }
}

/// A frame counts as being at a time from one millisecond before it on.
pub proof fn a_frame_counts_from_a_millisecond_before(target: int)
    ensures
        landing_bound(target) + 1_000_000 == target,
{
}

/// What answers a scrub is the earliest frame held that is not a millisecond or
/// more short of the target, and it is less than one frame past that; of several
/// of one time it is the one held longest, so that there is only one answer.
pub proof fn the_earliest_frame_answers(
    held: Seq<Picture>,
    frame_dur: int,
    target: int,
    i: int,
    j: int,
)
    requires
        serves(held, frame_dur, target, i),
        0 <= j < held.len(),
    ensures
        0 <= i < held.len(),
        target - 1_000_000 <= held[i].time_ns < target - 1_000_000 + frame_dur,
        held[j].time_ns >= target - 1_000_000 ==> held[i].time_ns <= held[j].time_ns,
        held[j].time_ns == held[i].time_ns ==> i <= j,
        serves(held, frame_dur, target, j) ==> i == j,
{
    assert(held[i].time_ns >= landing_bound(target));
    assert(held[j].time_ns >= landing_bound(target) ==> held[i].time_ns <= held[j].time_ns && (j < i
        ==> held[i].time_ns < held[j].time_ns));
    if serves(held, frame_dur, target, j) {
        assert(held[i].time_ns >= landing_bound(target) ==> held[j].time_ns <= held[i].time_ns && (i
            < j ==> held[j].time_ns < held[i].time_ns));
    }
}

/// The bytes held are those of all the frames, added up.
pub proof fn the_bytes_held_add_up(a: Seq<Picture>, f: Picture)
    ensures
        held_bytes(Seq::empty()) == 0,
        held_bytes(a.push(f)) == held_bytes(a) + f.rgba.len(),
{
    lemma_bytes_of_push(a, f);
}

/// A frame that nothing held answers for is taken in last, unless it is over the
/// budget by itself, and as long as the budget is kept no other makes way for it.
/// A frame that is answered for changes nothing, nor does any frame of a stream
/// that declares no rate.
pub proof fn a_new_frame_is_taken_in_last(held: Seq<Picture>, frame_dur: int, f: Picture)
    ensures
        frame_dur <= 0 ==> with_frame(held, frame_dur, f) == held,
        answered(held, frame_dur, f.time_ns as int) ==> with_frame(held, frame_dur, f) == held,
        frame_dur > 0 && !answered(held, frame_dur, f.time_ns as int) ==> {
            let after = with_frame(held, frame_dur, f);
            &&& f.rgba.len() <= SCRUB_CACHE_BYTES ==> after.len() > 0 && after.last() == f
            &&& held_bytes(held) + f.rgba.len() <= SCRUB_CACHE_BYTES ==> after == held.push(f)
            &&& held_bytes(after) <= SCRUB_CACHE_BYTES
        },
{
    lemma_bytes_of_push(held, f);
    let all = held.push(f);
    the_newest_frames_that_fit_are_held(all);
    let after = within_budget(all);
    if f.rgba.len() <= SCRUB_CACHE_BYTES {
        if after.len() == 0 {
            let last = all.skip(all.len() - 1);
            assert(last =~= seq![f]);
            assert(last.drop_first() =~= Seq::<Picture>::empty());
            reveal_with_fuel(held_bytes, 2);
            assert(held_bytes(last) == f.rgba.len());
        }
    }
}

/// What a frame shows is its own pixels, at its own size and time.
pub proof fn a_frame_shows_its_own_pixels(t: Thumbnail)
    ensures
        t@.rgba == t.rgba@,
        (t@.time_ns, t@.width, t@.height) == (t.time_ns, t.width, t.height),
{
}

} // verus!
