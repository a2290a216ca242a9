//! What a pass over a clip's packets learns about it: its weight, and how its
//! keyframes are laid out.

use vstd::prelude::*;

verus! {

/// The sum of the samples.
pub open spec fn total(samples: Seq<int>) -> int
    decreases samples.len(),
{
    if samples.len() == 0 {
        0
    } else {
        total(samples.drop_last()) + samples.last()
    }
}

/// The largest magnitude a sample may have.
pub const SAMPLE_LIMIT: i128 = 0x1_0000_0000_0000_0000;

/// Least, greatest and mean of a quantity sampled repeatedly. All three matter:
/// the grid's sampler assumes a constant interval, so footage whose least and
/// greatest disagree is exactly the footage that assumption is wrong for.
pub struct Spread {
    min: i128,
    max: i128,
    sum: i128,
    n: u32,
    samples: Ghost<Seq<int>>,
}

impl View for Spread {
    type V = Seq<int>;

    /// The samples taken so far.
    closed spec fn view(&self) -> Seq<int> {
        self.samples@
    }
}

/// Whether `m` is the least sample, or zero if there are none.
pub open spec fn is_least(m: int, samples: Seq<int>) -> bool {
    if samples.len() == 0 {
        m == 0
    } else {
        samples.contains(m) && forall|i: int| 0 <= i < samples.len() ==> m <= #[trigger] samples[i]
    }
}

/// Whether `m` is the greatest sample, or zero if there are none.
pub open spec fn is_greatest(m: int, samples: Seq<int>) -> bool {
    if samples.len() == 0 {
        m == 0
    } else {
        samples.contains(m) && forall|i: int| 0 <= i < samples.len() ==> #[trigger] samples[i] <= m
    }
}

impl Spread {
    /// The figures kept are those of the samples taken.
    pub closed spec fn wf(self) -> bool {
        &&& self.n == self@.len()
        &&& self.sum == total(self@)
        &&& is_least(self.min as int, self@)
        &&& is_greatest(self.max as int, self@)
        &&& -(self.n * SAMPLE_LIMIT) <= self.sum <= self.n * SAMPLE_LIMIT
        &&& -SAMPLE_LIMIT <= self.min <= SAMPLE_LIMIT
        &&& -SAMPLE_LIMIT <= self.max <= SAMPLE_LIMIT
    }

    /// No samples.
    pub fn new() -> (s: Spread)
        ensures
            s.wf(),
            s@ == Seq::<int>::empty(),
    {
        Spread { min: 0, max: 0, sum: 0, n: 0, samples: Ghost(Seq::empty()) }
    }

    /// Take another sample.
    pub fn add(&mut self, v: i128)
        requires
            old(self).wf(),
            old(self)@.len() < u32::MAX,
            -SAMPLE_LIMIT <= v <= SAMPLE_LIMIT,
        ensures
            final(self).wf(),
            final(self)@ == old(self)@.push(v as int),
    {
        let ghost before = self@;
        if self.n == 0 || v < self.min {
            self.min = v;
        }
        if self.n == 0 || v > self.max {
            self.max = v;
        }
        self.sum = self.sum + v;
        self.n = self.n + 1;
        self.samples = Ghost(self.samples@.push(v as int));
        proof {
            let after = before.push(v as int);
            assert(self@ == after);
            assert(after.drop_last() =~= before);
            assert(after.last() == v);
            assert(after[before.len() as int] == v);
            assert forall|x: int| before.contains(x) implies after.contains(x) by {
                let i = before.index_of(x);
                assert(after[i] == x);
            }
            assert forall|i: int| 0 <= i < after.len() implies self.min <= #[trigger] after[i]
                <= self.max by {
                if i < before.len() {
                    assert(after[i] == before[i]);
                }
            }
        }
    }

    /// How many samples were taken.
    pub fn count(&self) -> (n: u32)
        requires
            self.wf(),
        ensures
            n == self@.len(),
    {
        self.n
    }

    /// The least sample, or zero with nothing sampled.
    pub fn least(&self) -> (m: i128)
        requires
            self.wf(),
        ensures
            is_least(m as int, self@),
            -SAMPLE_LIMIT <= m <= SAMPLE_LIMIT,
    {
        self.min
    }

    /// The greatest sample, or zero with nothing sampled.
    pub fn greatest(&self) -> (m: i128)
        requires
            self.wf(),
        ensures
            is_greatest(m as int, self@),
            -SAMPLE_LIMIT <= m <= SAMPLE_LIMIT,
    {
        self.max
    }

    /// The sum of the samples; the mean is this over their count.
    pub fn sum(&self) -> (t: i128)
        requires
            self.wf(),
        ensures
            t == total(self@),
    {
        self.sum
    }
}

/// The mean lies between the least and the greatest sample.
pub proof fn the_mean_lies_within_the_spread(samples: Seq<int>, least: int, greatest: int)
    requires
        is_least(least, samples),
        is_greatest(greatest, samples),
    ensures
        least * samples.len() <= total(samples) <= greatest * samples.len(),
    decreases samples.len(),
{
    lemma_total_within(samples, least, greatest);
}

proof fn lemma_total_within(samples: Seq<int>, low: int, high: int)
    requires
        forall|i: int| 0 <= i < samples.len() ==> low <= #[trigger] samples[i] <= high,
    ensures
        low * samples.len() <= total(samples) <= high * samples.len(),
    decreases samples.len(),
{
    if samples.len() > 0 {
        let rest = samples.drop_last();
        assert forall|i: int| 0 <= i < rest.len() implies low <= #[trigger] rest[i] <= high by {
            assert(rest[i] == samples[i]);
        }
        lemma_total_within(rest, low, high);
        let n = samples.len() as int;
        assert(low * n == low * (n - 1) + low) by (nonlinear_arith);
        assert(high * n == high * (n - 1) + high) by (nonlinear_arith);
    } else {
        assert(low * 0 == 0 && high * 0 == 0);
    }
}

/// What a pass looks at of one video packet.
#[derive(Clone, Copy, Debug, PartialEq, Eq, Structural)]
pub struct PacketInfo {
    /// Size in bytes.
    pub size: u32,
    pub key: bool,
    pub pts: Option<i64>,
    pub dts: Option<i64>,
}

/// The timestamp a packet is placed by, if it carries one.
pub open spec fn stamp(p: PacketInfo) -> Option<i64> {
    match p.pts {
        Some(t) => Some(t),
        None => p.dts,
    }
}

/// The weight of the packets.
pub open spec fn weight(ps: Seq<PacketInfo>) -> int
    decreases ps.len(),
{
    if ps.len() == 0 {
        0
    } else {
        weight(ps.drop_last()) + ps.last().size
    }
}

/// The keyframe packets among the packets.
pub open spec fn keys(ps: Seq<PacketInfo>) -> Seq<PacketInfo>
    decreases ps.len(),
{
    if ps.len() == 0 {
        Seq::empty()
    } else if ps.last().key {
        keys(ps.drop_last()).push(ps.last())
    } else {
        keys(ps.drop_last())
    }
}

/// The numbers of the keyframe packets, counting packets from one.
pub open spec fn key_places(ps: Seq<PacketInfo>) -> Seq<int>
    decreases ps.len(),
{
    if ps.len() == 0 {
        Seq::empty()
    } else if ps.last().key {
        key_places(ps.drop_last()).push(ps.len() as int)
    } else {
        key_places(ps.drop_last())
    }
}

/// The timestamps of the keyframe packets that carry one.
pub open spec fn key_stamps(ps: Seq<PacketInfo>) -> Seq<int>
    decreases ps.len(),
{
    if ps.len() == 0 {
        Seq::empty()
    } else {
        let rest = key_stamps(ps.drop_last());
        match stamp(ps.last()) {
            Some(t) => if ps.last().key {
                rest.push(t as int)
            } else {
                rest
            },
            None => rest,
        }
    }
}

/// The differences between neighbours.
pub open spec fn gaps(q: Seq<int>) -> Seq<int> {
    Seq::new(
        if q.len() == 0 {
            0
        } else {
            (q.len() - 1) as nat
        },
        |i: int| q[i + 1] - q[i],
    )
}

/// The counts a pass keeps as it weighs every video packet of a clip.
pub struct Tally {
    bytes: u64,
    key_bytes: u64,
    packets: u32,
    keyframes: u32,
    /// Keyframe spacing in packets: what decoding forward from a keyframe to a
    /// target costs.
    gop_frames: Spread,
    /// Keyframe spacing in ticks: how far back a seek to an arbitrary time
    /// lands. Kept apart because the two only agree at a constant frame rate.
    gop_ticks: Spread,
    last_key_packet: Option<u32>,
    last_key_ts: Option<i64>,
    seen: Ghost<Seq<PacketInfo>>,
}

impl View for Tally {
    type V = Seq<PacketInfo>;

    /// The packets weighed so far.
    closed spec fn view(&self) -> Seq<PacketInfo> {
        self.seen@
    }
}

/// The last of a sequence, if it has one.
pub open spec fn last_of(q: Seq<int>) -> Option<int> {
    if q.len() == 0 {
        None
    } else {
        Some(q.last())
    }
}

impl Tally {
    /// The counts are those of the packets weighed.
    pub closed spec fn wf(self) -> bool {
        &&& self.packets == self@.len()
        &&& self.bytes == weight(self@)
        &&& self.keyframes == keys(self@).len()
        &&& self.key_bytes == weight(keys(self@))
        &&& self.bytes <= self.packets * u32::MAX
        &&& self.key_bytes <= self.bytes
        &&& self.keyframes <= self.packets
        &&& self.gop_frames.wf()
        &&& self.gop_ticks.wf()
        &&& self.gop_frames@ == gaps(key_places(self@))
        &&& self.gop_ticks@ == gaps(key_stamps(self@))
        &&& self.gop_frames@.len() <= self.packets
        &&& self.gop_ticks@.len() <= self.packets
        &&& match self.last_key_packet {
            Some(p) => last_of(key_places(self@)) == Some(p as int) && p <= self.packets,
            None => key_places(self@).len() == 0,
        }
        &&& match self.last_key_ts {
            Some(t) => last_of(key_stamps(self@)) == Some(t as int),
            None => key_stamps(self@).len() == 0,
        }
    }

    /// Nothing weighed yet.
    pub fn new() -> (t: Tally)
        ensures
            t.wf(),
            t@ == Seq::<PacketInfo>::empty(),
    {
        let t = Tally {
            bytes: 0,
            key_bytes: 0,
            packets: 0,
            keyframes: 0,
            gop_frames: Spread::new(),
            gop_ticks: Spread::new(),
            last_key_packet: None,
            last_key_ts: None,
            seen: Ghost(Seq::empty()),
        };
        proof {
            assert(gaps(key_places(t@)) =~= Seq::<int>::empty());
            assert(gaps(key_stamps(t@)) =~= Seq::<int>::empty());
        }
        t
    }

    /// Weigh another video packet.
    pub fn weigh(&mut self, p: PacketInfo)
        requires
            old(self).wf(),
            old(self)@.len() < u32::MAX,
        ensures
            final(self).wf(),
            final(self)@ == old(self)@.push(p),
    {
        let ghost before = self@;
        let ghost after = before.push(p);
        assert(after.drop_last() =~= before);
        assert(after.last() == p);
        self.bytes = self.bytes + p.size as u64;
        self.packets = self.packets + 1;
        self.seen = Ghost(after);
        if p.key {
            proof {
                assert(keys(after) == keys(before).push(p));
                assert(keys(after).drop_last() =~= keys(before));
                assert(keys(after).last() == p);
                lemma_gaps_push(key_places(before), after.len() as int);
            }
            self.key_bytes = self.key_bytes + p.size as u64;
            self.keyframes = self.keyframes + 1;
            if let Some(prev) = self.last_key_packet {
                self.gop_frames.add((self.packets - prev) as i128);
            } else {
                assert(gaps(key_places(after)) =~= Seq::<int>::empty());
                assert(gaps(key_places(before)) =~= Seq::<int>::empty());
            }
            self.last_key_packet = Some(self.packets);
            let stamped = match p.pts {
                Some(t) => Some(t),
                None => p.dts,
            };
            if let Some(t) = stamped {
                proof {
                    lemma_gaps_push(key_stamps(before), t as int);
                }
                if let Some(prev) = self.last_key_ts {
                    self.gop_ticks.add(t as i128 - prev as i128);
                } else {
                    assert(gaps(key_stamps(after)) =~= Seq::<int>::empty());
                    assert(gaps(key_stamps(before)) =~= Seq::<int>::empty());
                }
                self.last_key_ts = Some(t);
            }
        }
    }

    /// Bytes of all the packets.
    pub fn bytes(&self) -> (n: u64)
        requires
            self.wf(),
        ensures
            n == weight(self@),
    {
        self.bytes
    }

    /// Bytes of the keyframe packets.
    pub fn key_bytes(&self) -> (n: u64)
        requires
            self.wf(),
        ensures
            n == weight(keys(self@)),
    {
        self.key_bytes
    }

    /// How many packets were weighed.
    pub fn packets(&self) -> (n: u32)
        requires
            self.wf(),
        ensures
            n == self@.len(),
    {
        self.packets
    }

    /// How many of them were keyframes.
    pub fn keyframes(&self) -> (n: u32)
        requires
            self.wf(),
        ensures
            n == keys(self@).len(),
    {
        self.keyframes
    }

    /// The spacing of the keyframes in packets.
    pub fn gop_frames(&self) -> (s: &Spread)
        requires
            self.wf(),
        ensures
            s.wf(),
            s@ == gaps(key_places(self@)),
    {
        &self.gop_frames
    }

    /// The spacing of the keyframes in ticks.
    pub fn gop_ticks(&self) -> (s: &Spread)
        requires
            self.wf(),
        ensures
            s.wf(),
            s@ == gaps(key_stamps(self@)),
    {
        &self.gop_ticks
    }
}

proof fn lemma_gaps_push(q: Seq<int>, x: int)
    ensures
        q.len() > 0 ==> gaps(q.push(x)) == gaps(q).push(x - q.last()),
        q.len() == 0 ==> gaps(q.push(x)) == Seq::<int>::empty(),
{
    if q.len() > 0 {
        assert(gaps(q.push(x)) =~= gaps(q).push(x - q.last()));
    } else {
        assert(gaps(q.push(x)) =~= Seq::<int>::empty());
    }
}

/// Keyframes are a subset of the packets: there are no more of them, and they
/// weigh no more.
pub proof fn keyframes_are_part_of_the_stream(ps: Seq<PacketInfo>)
    ensures
        keys(ps).len() <= ps.len(),
        0 <= weight(keys(ps)) <= weight(ps),
        key_places(ps).len() == keys(ps).len(),
        key_stamps(ps).len() <= keys(ps).len(),
    decreases ps.len(),
{
    if ps.len() > 0 {
        keyframes_are_part_of_the_stream(ps.drop_last());
        if ps.last().key {
            assert(keys(ps).drop_last() =~= keys(ps.drop_last()));
        }
    }
}

/// The gaps add up to the distance between the ends, so the mean spacing is that
/// distance over one less than the number of keyframes.
pub proof fn gaps_add_up_to_the_whole_span(q: Seq<int>)
    requires
        q.len() > 0,
    ensures
        gaps(q).len() == q.len() - 1,
        total(gaps(q)) == q.last() - q[0],
    decreases q.len(),
{
    if q.len() > 1 {
        let rest = q.drop_last();
        gaps_add_up_to_the_whole_span(rest);
        lemma_gaps_push(rest, q.last());
        assert(rest.push(q.last()) =~= q);
        assert(gaps(q).drop_last() =~= gaps(rest));
    } else {
        assert(gaps(q) =~= Seq::<int>::empty());
    }
}

/// In a clip whose frames are all keyframes, the spacing is one frame
/// throughout and the keyframes are the whole stream.
pub proof fn an_all_intra_clip_has_a_spacing_of_one(ps: Seq<PacketInfo>)
    requires
        forall|i: int| 0 <= i < ps.len() ==> (#[trigger] ps[i]).key,
    ensures
        keys(ps) == ps,
        weight(keys(ps)) == weight(ps),
        forall|i: int|
            0 <= i < gaps(key_places(ps)).len() ==> #[trigger] gaps(key_places(ps))[i] == 1,
    decreases ps.len(),
{
    lemma_all_key_places(ps);
    lemma_all_keys(ps);
}

proof fn lemma_all_keys(ps: Seq<PacketInfo>)
    requires
        forall|i: int| 0 <= i < ps.len() ==> (#[trigger] ps[i]).key,
    ensures
        keys(ps) == ps,
    decreases ps.len(),
{
    if ps.len() > 0 {
        assert forall|i: int| 0 <= i < ps.drop_last().len() implies (#[trigger] ps.drop_last()[i]).key by {
            assert(ps.drop_last()[i] == ps[i]);
        }
        lemma_all_keys(ps.drop_last());
        assert(ps.last() == ps[ps.len() - 1]);
        assert(keys(ps) =~= ps);
    } else {
        assert(keys(ps) =~= ps);
    }
}

proof fn lemma_all_key_places(ps: Seq<PacketInfo>)
    requires
        forall|i: int| 0 <= i < ps.len() ==> (#[trigger] ps[i]).key,
    ensures
        key_places(ps).len() == ps.len(),
        forall|i: int| 0 <= i < ps.len() ==> #[trigger] key_places(ps)[i] == i + 1,
    decreases ps.len(),
{
    if ps.len() > 0 {
        assert forall|i: int| 0 <= i < ps.drop_last().len() implies (#[trigger] ps.drop_last()[i]).key by {
            assert(ps.drop_last()[i] == ps[i]);
        }
        lemma_all_key_places(ps.drop_last());
        assert(ps.last() == ps[ps.len() - 1]);
    }
}

/// A sum is what adding the samples one by one to nothing gives.
pub proof fn a_total_adds_up_its_samples(samples: Seq<int>)
    ensures
        total(samples) == samples.fold_left(0int, |sum: int, x: int| sum + x),
    decreases samples.len(),
{
    reveal(Seq::fold_left);
    if samples.len() > 0 {
        a_total_adds_up_its_samples(samples.drop_last());
    }
}

/// The weight of packets is what adding their sizes one by one to nothing gives.
pub proof fn a_weight_adds_up_its_packets(ps: Seq<PacketInfo>)
    ensures
        weight(ps) == ps.fold_left(0int, |sum: int, p: PacketInfo| sum + p.size),
    decreases ps.len(),
{
    reveal(Seq::fold_left);
    if ps.len() > 0 {
        a_weight_adds_up_its_packets(ps.drop_last());
    }
}

/// The keyframe packets are all the packets marked so, in order, and no others.
pub proof fn the_keyframes_are_the_packets_marked_so(ps: Seq<PacketInfo>)
    ensures
        keys(ps) == ps.filter(|p: PacketInfo| p.key),
    decreases ps.len(),
{
    reveal(Seq::filter);
    if ps.len() > 0 {
        the_keyframes_are_the_packets_marked_so(ps.drop_last());
    }
}

/// The numbers of the keyframe packets go up, and they are those of all the
/// packets marked as keyframes, counting packets from one.
pub proof fn the_key_places_are_those_of_the_keyframes(ps: Seq<PacketInfo>)
    ensures
        forall|i: int|
            0 <= i < key_places(ps).len() ==> 1 <= #[trigger] key_places(ps)[i] <= ps.len()
                && ps[key_places(ps)[i] - 1].key,
        forall|i: int, j: int|
            0 <= i < j < key_places(ps).len() ==> key_places(ps)[i] < key_places(ps)[j],
        forall|n: int|
            0 <= n < ps.len() && (#[trigger] ps[n]).key ==> key_places(ps).contains(n + 1),
    decreases ps.len(),
{
    if ps.len() > 0 {
        let rest = ps.drop_last();
        the_key_places_are_those_of_the_keyframes(rest);
        let q = key_places(ps);
        let r = key_places(rest);
        assert forall|i: int| 0 <= i < q.len() implies 1 <= #[trigger] q[i] <= ps.len() && ps[q[i]
            - 1].key by {
            if i < r.len() {
                assert(q[i] == r[i]);
                assert(rest[r[i] - 1] == ps[r[i] - 1]);
            }
        }
        assert forall|i: int, j: int| 0 <= i < j < q.len() implies q[i] < q[j] by {
            assert(q[i] == r[i]);
            if j < r.len() {
                assert(q[j] == r[j]);
            }
        }
        assert forall|n: int| 0 <= n < ps.len() && (#[trigger] ps[n]).key implies q.contains(
            n + 1,
        ) by {
            if n < rest.len() {
                assert(rest[n] == ps[n]);
                assert(r.contains(n + 1));
                let i = choose|i: int| 0 <= i < r.len() && r[i] == n + 1;
                assert(q[i] == n + 1);
            } else {
                assert(q[r.len() as int] == n + 1);
            }
        }
    }
}

/// The timestamps of the keyframes are those that the packets marked as
/// keyframes carry: the presentation time where there is one, and otherwise the
/// decoding time.
pub proof fn the_key_stamps_are_those_of_the_keyframes(ps: Seq<PacketInfo>)
    ensures
        key_stamps(ps) == ps.filter(
            |p: PacketInfo| p.key && (p.pts is Some || p.dts is Some),
        ).map_values(
            |p: PacketInfo|
                if p.pts is Some {
                    p.pts->0 as int
                } else {
                    p.dts->0 as int
                },
        ),
    decreases ps.len(),
{
    reveal(Seq::filter);
    let has = |p: PacketInfo| p.key && (p.pts is Some || p.dts is Some);
    let at = |p: PacketInfo|
        if p.pts is Some {
            p.pts->0 as int
        } else {
            p.dts->0 as int
        };
    if ps.len() > 0 {
        the_key_stamps_are_those_of_the_keyframes(ps.drop_last());
        let rest = ps.drop_last().filter(has);
        assert(rest.push(ps.last()).map_values(at) =~= rest.map_values(at).push(at(ps.last())));
    } else {
        assert(ps.filter(has).map_values(at) =~= Seq::<int>::empty());
    }
}

/// Each gap is the distance from one to the next.
pub proof fn a_gap_leads_from_one_to_the_next(q: Seq<int>, i: int)
    requires
        0 <= i,
        i + 1 < q.len(),
    ensures
        gaps(q).len() == q.len() - 1,
        q[i] + gaps(q)[i] == q[i + 1],
{
}

/// The least and the greatest are samples that no other goes below or above.
pub proof fn the_ends_of_a_spread_are_samples(samples: Seq<int>, least: int, greatest: int, i: int)
    requires
        is_least(least, samples),
        is_greatest(greatest, samples),
        0 <= i < samples.len(),
    ensures
        samples.contains(least),
        samples.contains(greatest),
        least <= samples[i] <= greatest,
{
}

} // verus!
