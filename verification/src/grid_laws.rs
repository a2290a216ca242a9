//! What a pass over a clip promises as a whole.

use vstd::prelude::*;

use crate::clip_stats::ClipStats;
use crate::grid_pass;
use crate::grid_pass::{
    ClipFacts, GridAction, GridDoing, GridEvent, GridPhase, PassTiming, Scan,
};
use crate::sampler;
use crate::sampler::Sampling;
use crate::scrub_cache::Picture;
use crate::session;
use crate::session::StreamShape;
use crate::tally;
use crate::tally::PacketInfo;

verus! {

/// The pass once the first `n` of these events have come.
pub open spec fn scan_after(s: Scan, events: Seq<GridEvent>, n: nat) -> Scan
    decreases n,
{
    if n == 0 {
        s
    } else {
        grid_pass::grid_next(scan_after(s, events, (n - 1) as nat), events[n - 1]).0
    }
}

/// What the pass does on the event numbered `i`.
pub open spec fn doing_at(s: Scan, events: Seq<GridEvent>, i: int) -> GridDoing {
    grid_pass::grid_next(scan_after(s, events, i as nat), events[i]).1
}

/// The times of the keyframes decoded in the first `n` of these events.
pub open spec fn decoded(s: Scan, events: Seq<GridEvent>, n: nat) -> Seq<int>
    decreases n,
{
    if n == 0 {
        Seq::empty()
    } else {
        let before = decoded(s, events, (n - 1) as nat);
        match events[n - 1] {
            GridEvent::Frame(pts, best) => before.push(
                session::time_of(s.shape, pts, best) as int,
            ),
            _ => before,
        }
    }
}

/// The times of the thumbnails handed on in the first `n` of these events.
pub open spec fn handed_on(s: Scan, events: Seq<GridEvent>, n: nat) -> Seq<int>
    decreases n,
{
    if n == 0 {
        Seq::empty()
    } else {
        let before = handed_on(s, events, (n - 1) as nat);
        match doing_at(s, events, n - 1) {
            GridDoing::Emit(_, p) => before.push(p.time_ns as int),
            _ => before,
        }
    }
}

/// The keyframes of these that the sampler keeps.
pub open spec fn sampled(spacing: int, times: Seq<int>) -> Seq<int>
    decreases times.len(),
{
    if times.len() == 0 {
        Seq::empty()
    } else {
        let rest = sampled(spacing, times.drop_last());
        let n = (times.len() - 1) as nat;
        if sampler::kept(sampler::after_keyframes(spacing, times, n), times.last()) {
            rest.push(times.last())
        } else {
            rest
        }
    }
}

/// A pass that has not begun.
pub open spec fn fresh(s: Scan, spacing: int) -> bool {
    &&& s.phase == GridPhase::Checking
    &&& s.sampling == (Sampling {
        spacing_ns: spacing,
        first_ns: None,
        stride: None,
        seen: 0,
    })
    &&& s.kept == 0
}

/// Whether each of the first `n` of these events is awaited when it comes.
pub open spec fn in_turn(s: Scan, events: Seq<GridEvent>, n: nat) -> bool {
    forall|i: int|
        0 <= i < n ==> grid_pass::grid_awaits(
            (#[trigger] scan_after(s, events, i as nat)).phase,
            events[i],
        )
}

proof fn lemma_prefix(spacing: int, a: Seq<int>, b: Seq<int>, n: nat)
    requires
        n <= a.len(),
        n <= b.len(),
        forall|i: int| 0 <= i < n ==> a[i] == b[i],
    ensures
        sampler::after_keyframes(spacing, a, n) == sampler::after_keyframes(spacing, b, n),
    decreases n,
{
    if n > 0 {
        lemma_prefix(spacing, a, b, (n - 1) as nat);
    }
}

proof fn lemma_pass(s: Scan, events: Seq<GridEvent>, spacing: int, n: nat)
    requires
        fresh(s, spacing),
        n <= events.len(),
        in_turn(s, events, n),
    ensures
        ({
            let d = scan_after(s, events, n);
            let times = decoded(s, events, n);
            let out = handed_on(s, events, n);
            &&& d.shape == s.shape
            &&& d.kept == out.len()
            &&& d.sampling == sampler::after_keyframes(spacing, times, times.len())
            &&& match d.phase {
                GridPhase::Failed => true,
                GridPhase::Converting(t, _) => out.push(t as int) == sampled(spacing, times),
                _ => out == sampled(spacing, times),
            }
        }),
    decreases n,
{
    if n > 0 {
        let m = (n - 1) as nat;
        lemma_pass(s, events, spacing, m);
        let b = scan_after(s, events, m);
        let event = events[m as int];
        assert(grid_pass::grid_awaits(b.phase, event));
        let times = decoded(s, events, m);
        match event {
            GridEvent::Frame(pts, best) => {
                let t = session::time_of(s.shape, pts, best) as int;
                let all = times.push(t);
                assert(all.drop_last() =~= times);
                lemma_prefix(spacing, times, all, times.len());
            },
            _ => {},
        }
    }
}

/// Every keyframe that the sampler keeps becomes a thumbnail, in order, and no
/// other does, whatever the decoder holds back and for how long: once a clip has
/// been read to the end, the thumbnails handed on are those of exactly the kept
/// keyframes.
pub proof fn every_kept_keyframe_becomes_a_thumbnail(
    s: Scan,
    events: Seq<GridEvent>,
    spacing: int,
)
    requires
        fresh(s, spacing),
        in_turn(s, events, events.len()),
        scan_after(s, events, events.len()).phase == GridPhase::Finished,
    ensures
        handed_on(s, events, events.len()) == sampled(
            spacing,
            decoded(s, events, events.len()),
        ),
        scan_after(s, events, events.len()).kept == sampled(
            spacing,
            decoded(s, events, events.len()),
        ).len(),
{
    lemma_pass(s, events, spacing, events.len());
}

/// Whether `a` is how `b` begins.
pub open spec fn begins<A>(a: Seq<A>, b: Seq<A>) -> bool {
    a.len() <= b.len() && b.take(a.len() as int) == a
}

proof fn lemma_sampling_a_beginning(spacing: int, a: Seq<int>, b: Seq<int>)
    requires
        begins(a, b),
    ensures
        begins(sampled(spacing, a), sampled(spacing, b)),
    decreases b.len(),
{
    let x = sampled(spacing, a);
    let y = sampled(spacing, b);
    if a.len() == b.len() {
        assert(b.take(b.len() as int) =~= b);
        assert(y.take(y.len() as int) =~= y);
    } else {
        let rest = b.drop_last();
        assert(rest.take(a.len() as int) =~= a);
        lemma_sampling_a_beginning(spacing, a, rest);
        let z = sampled(spacing, rest);
        assert(y.take(x.len() as int) =~= z.take(x.len() as int));
    }
}

/// The thumbnails handed on in the first `n` of these events.
pub open spec fn thumbs(s: Scan, events: Seq<GridEvent>, n: nat) -> Seq<Picture>
    decreases n,
{
    if n == 0 {
        Seq::empty()
    } else {
        let before = thumbs(s, events, (n - 1) as nat);
        match doing_at(s, events, n - 1) {
            GridDoing::Emit(_, p) => before.push(p),
            _ => before,
        }
    }
}

/// Whether scaling the keyframe of a time always gave the pixels that `looks`
/// says.
pub open spec fn scaled_as(
    s: Scan,
    events: Seq<GridEvent>,
    n: nat,
    looks: spec_fn(int) -> Seq<u8>,
) -> bool {
    forall|i: int|
        0 <= i < n ==> match ((#[trigger] scan_after(s, events, i as nat)).phase, events[i]) {
            (GridPhase::Converting(t, _), GridEvent::Scaled(rgba, _)) => rgba@ == looks(t as int),
            _ => true,
        }
}

/// The thumbnail of the keyframe of a time.
pub open spec fn thumb_of(s: Scan, looks: spec_fn(int) -> Seq<u8>, t: int) -> Picture {
    Picture { time_ns: t as i64, width: s.thumb.0, height: s.thumb.1, rgba: looks(t) }
}

proof fn lemma_thumbs(s: Scan, events: Seq<GridEvent>, n: nat, looks: spec_fn(int) -> Seq<u8>)
    requires
        n <= events.len(),
        in_turn(s, events, n),
        scaled_as(s, events, n, looks),
    ensures
        scan_after(s, events, n).thumb == s.thumb,
        thumbs(s, events, n) == handed_on(s, events, n).map_values(
            |t: int| thumb_of(s, looks, t),
        ),
    decreases n,
{
    let f = |t: int| thumb_of(s, looks, t);
    if n > 0 {
        let m = (n - 1) as nat;
        lemma_thumbs(s, events, m, looks);
        let b = scan_after(s, events, m);
        let event = events[m as int];
        assert(grid_pass::grid_awaits(b.phase, event));
        let out = handed_on(s, events, m);
        match doing_at(s, events, m as int) {
            GridDoing::Emit(_, p) => {
                assert(p == f(p.time_ns as int));
                assert(out.push(p.time_ns as int).map_values(f) =~= out.map_values(f).push(p));
            },
            _ => {},
        }
    } else {
        assert(Seq::<int>::empty().map_values(f) =~= Seq::<Picture>::empty());
    }
}

/// What an abandoned pass has handed on is how the thumbnails of the whole pass
/// begin, to the pixel: stopping early leaves out the end of the contact sheet
/// and nothing else. The two passes may differ in how long the decoder holds
/// frames back.
pub proof fn an_abandoned_pass_hands_on_a_beginning(
    s: Scan,
    abandoned: Seq<GridEvent>,
    whole: Seq<GridEvent>,
    spacing: int,
    looks: spec_fn(int) -> Seq<u8>,
)
    requires
        fresh(s, spacing),
        in_turn(s, abandoned, abandoned.len()),
        in_turn(s, whole, whole.len()),
        scan_after(s, abandoned, abandoned.len()).phase == GridPhase::Cancelled,
        scan_after(s, whole, whole.len()).phase == GridPhase::Finished,
        scaled_as(s, abandoned, abandoned.len(), looks),
        scaled_as(s, whole, whole.len(), looks),
        begins(decoded(s, abandoned, abandoned.len()), decoded(s, whole, whole.len())),
    ensures
        begins(thumbs(s, abandoned, abandoned.len()), thumbs(s, whole, whole.len())),
{
    lemma_pass(s, abandoned, spacing, abandoned.len());
    lemma_pass(s, whole, spacing, whole.len());
    let a = decoded(s, abandoned, abandoned.len());
    let b = decoded(s, whole, whole.len());
    lemma_sampling_a_beginning(spacing, a, b);
    lemma_thumbs(s, abandoned, abandoned.len(), looks);
    lemma_thumbs(s, whole, whole.len(), looks);
    let f = |t: int| thumb_of(s, looks, t);
    let x = sampled(spacing, a);
    let y = sampled(spacing, b);
    assert(y.map_values(f).take(x.len() as int) =~= y.take(x.len() as int).map_values(f));
}

/// A packet is sent to the decoder exactly when it is read from the stream and is
/// a keyframe, however many were read before it.
pub proof fn a_packet_is_sent_when_it_is_a_keyframe(s: Scan, ours: bool, p: PacketInfo)
    requires
        s.phase == GridPhase::Reading,
    ensures
        grid_pass::grid_next(s, GridEvent::Packet(ours, p)).1 == GridDoing::Send <==> ours && p.key,
        !(ours && p.key) ==> grid_pass::grid_next(s, GridEvent::Packet(ours, p)).1
            == GridDoing::Check,
        grid_pass::grid_next(s, GridEvent::Packet(true, p)).0.packets == s.packets.push(p),
        grid_pass::grid_next(s, GridEvent::Packet(false, p)).0.packets == s.packets,
{
}

/// The packets of the stream among the first `n` of these events.
pub open spec fn read_packets(events: Seq<GridEvent>, n: nat) -> Seq<PacketInfo>
    decreases n,
{
    if n == 0 {
        Seq::empty()
    } else {
        let before = read_packets(events, (n - 1) as nat);
        match events[n - 1] {
            GridEvent::Packet(true, p) => before.push(p),
            _ => before,
        }
    }
}

/// The packets that were sent to the decoder in the first `n` of these events.
pub open spec fn sent_packets(s: Scan, events: Seq<GridEvent>, n: nat) -> Seq<PacketInfo>
    decreases n,
{
    if n == 0 {
        Seq::empty()
    } else {
        let before = sent_packets(s, events, (n - 1) as nat);
        match (events[n - 1], doing_at(s, events, n - 1)) {
            (GridEvent::Packet(_, p), GridDoing::Send) => before.push(p),
            _ => before,
        }
    }
}

/// Over any pass, the packets sent to the decoder are exactly the keyframe packets
/// of the stream, in order, and every packet of the stream is counted.
pub proof fn every_keyframe_packet_is_sent(s: Scan, events: Seq<GridEvent>, n: nat)
    requires
        n <= events.len(),
        in_turn(s, events, n),
    ensures
        sent_packets(s, events, n) == read_packets(events, n).filter(|p: PacketInfo| p.key),
        scan_after(s, events, n).packets == s.packets + read_packets(events, n),
    decreases n,
{
    reveal(Seq::filter);
    let is_key = |p: PacketInfo| p.key;
    if n > 0 {
        let m = (n - 1) as nat;
        every_keyframe_packet_is_sent(s, events, m);
        let b = scan_after(s, events, m);
        assert(grid_pass::grid_awaits(b.phase, events[m as int]));
        let before = read_packets(events, m);
        match events[m as int] {
            GridEvent::Packet(true, p) => {
                assert(before.push(p).drop_last() =~= before);
                assert(s.packets + before.push(p) =~= (s.packets + before).push(p));
            },
            _ => {},
        }
    } else {
        assert(s.packets + Seq::<PacketInfo>::empty() =~= s.packets);
    }
}

/// The media time a packet is placed at.
pub open spec fn packet_time(shape: StreamShape, p: PacketInfo) -> int {
    session::time_of(shape, p.pts, p.dts) as int
}

/// With a decoder that gives one frame for each packet sent, a finished pass hands
/// on the thumbnails of what the sampler keeps of all the clip's keyframes.
pub proof fn a_finished_pass_samples_all_keyframes(s: Scan, events: Seq<GridEvent>, spacing: int)
    requires
        fresh(s, spacing),
        in_turn(s, events, events.len()),
        scan_after(s, events, events.len()).phase == GridPhase::Finished,
        decoded(s, events, events.len()) == sent_packets(s, events, events.len()).map_values(
            |p: PacketInfo| packet_time(s.shape, p),
        ),
    ensures
        handed_on(s, events, events.len()) == sampled(
            spacing,
            read_packets(events, events.len()).filter(|p: PacketInfo| p.key).map_values(
                |p: PacketInfo| packet_time(s.shape, p),
            ),
        ),
{
    every_keyframe_packet_is_sent(s, events, events.len());
    every_kept_keyframe_becomes_a_thumbnail(s, events, spacing);
}

/// Of keyframes whose first two lie an interval apart, every `k`-th is kept from
/// the first on, where `k` is the whole number of intervals nearest to the
/// spacing: the keyframe numbered `j * k` is the kept one numbered `j`, and there
/// are as many as the keyframes have room for.
pub proof fn sampling_keeps_every_kth_keyframe(spacing: int, times: Seq<int>, k: int, j: int)
    requires
        times.len() >= 2,
        times[1] - times[0] >= 1_000,
        k >= 1,
        2 * spacing < (2 * k + 1) * (times[1] - times[0]),
        k == 1 || (2 * k - 1) * (times[1] - times[0]) <= 2 * spacing,
        0 <= j,
    ensures
        j < sampled(spacing, times).len() <==> j * k < times.len(),
        j * k < times.len() ==> sampled(spacing, times)[j] == times[j * k],
{
    sampler::the_skip_factor_is_the_nearest(spacing, times[1] - times[0], k);
    assert(times.take(times.len() as int) =~= times);
    lemma_every_kth(spacing, times, k, times.len(), j);
    let len = sampled(spacing, times).len() as int;
    if j < len {
        assert(j * k <= (len - 1) * k) by (nonlinear_arith)
            requires
                j <= len - 1,
                k >= 1,
        ;
    } else {
        assert(j * k >= len * k) by (nonlinear_arith)
            requires
                j >= len,
                k >= 1,
        ;
    }
}

proof fn lemma_every_kth(spacing: int, times: Seq<int>, k: int, n: nat, j: int)
    requires
        times.len() >= 2,
        1 <= n <= times.len(),
        k >= 1,
        sampler::stride_for(spacing, times[1] - times[0]) == k,
        0 <= j,
    ensures
        ({
            let out = sampled(spacing, times.take(n as int));
            &&& out.len() >= 1
            &&& (out.len() - 1) * k < n <= out.len() * k
            &&& j < out.len() ==> out[j] == times[j * k]
        }),
    decreases n,
{
    let t = times.take(n as int);
    let out = sampled(spacing, t);
    let i = (n - 1) as nat;
    lemma_prefix(spacing, t, times, i);
    sampler::every_nth_keyframe_is_kept(spacing, times, i);
    assert(t.last() == times[i as int]);
    assert(t.drop_last() =~= times.take(i as int));
    let rest = sampled(spacing, times.take(i as int));
    if n == 1 {
        assert(times.take(i as int) =~= Seq::<int>::empty());
        assert(out =~= seq![times[0]]);
        assert(0 * k == 0 && 1 * k == k) by (nonlinear_arith);
    } else {
        lemma_every_kth(spacing, times, k, i, j);
        let len = rest.len() as int;
        assert((len + 1) * k == len * k + k) by (nonlinear_arith);
        assert(len * k == (len - 1) * k + k) by (nonlinear_arith);
        if i as int % k == 0 {
            assert(i == len * k) by (nonlinear_arith)
                requires
                    i as int % k == 0,
                    (len - 1) * k < i <= len * k,
                    k >= 1,
            {
                let q = i as int / k;
                assert(i as int == q * k);
                assert(q <= len);
                assert(q > len - 1);
            }
            assert(out == rest.push(times[i as int]));
        } else {
            assert(i < len * k) by {
                if i == len * k {
                    vstd::arithmetic::div_mod::lemma_mod_multiples_basic(len, k);
                }
            }
            assert(out == rest);
        }
    }
}

/// Whether the demuxer had no more packets in the first `n` of these events.
pub open spec fn read_out(events: Seq<GridEvent>, n: nat) -> bool {
    exists|i: int| 0 <= i < n && #[trigger] events[i] is NoPacket
}

proof fn lemma_read_out(s: Scan, events: Seq<GridEvent>, n: nat)
    requires
        s.phase == GridPhase::Checking,
        n <= events.len(),
        in_turn(s, events, n),
    ensures
        match scan_after(s, events, n).phase {
            GridPhase::Checking => !read_out(events, n),
            GridPhase::Reading => !read_out(events, n),
            GridPhase::Sending(last) => last == read_out(events, n),
            GridPhase::Draining(last) => last == read_out(events, n),
            GridPhase::Converting(_, last) => last == read_out(events, n),
            GridPhase::Emitting(last) => last == read_out(events, n),
            GridPhase::Finished => read_out(events, n) && n > 0 && events[n - 1] is NoFrame,
            GridPhase::Cancelled => n > 0 && events[n - 1] == GridEvent::Cancel(true),
            GridPhase::Failed => n > 0 && events[n - 1] is Failed,
        },
    decreases n,
{
    if n > 0 {
        let m = (n - 1) as nat;
        lemma_read_out(s, events, m);
        let b = scan_after(s, events, m);
        assert(grid_pass::grid_awaits(b.phase, events[m as int]));
        if read_out(events, m) {
            let i = choose|i: int| 0 <= i < m && #[trigger] events[i] is NoPacket;
            assert(events[i] is NoPacket);
            assert(read_out(events, n));
        }
        if events[m as int] is NoPacket {
            assert(read_out(events, n));
        }
        if read_out(events, n) && !(events[m as int] is NoPacket) {
            let i = choose|i: int| 0 <= i < n && #[trigger] events[i] is NoPacket;
            assert(i < m);
            assert(read_out(events, m));
        }
    }
}

/// A pass is done when there are no more packets and the decoder has given its
/// last frame, and not before; it is abandoned only when told so, and fails only
/// when something outside did. Until then it goes on: after every packet that the
/// decoder has taken it asks for frames until there are none, and then reads the
/// next.
pub proof fn a_pass_ends_when_the_clip_is_read_out(s: Scan, events: Seq<GridEvent>, i: int)
    requires
        s.phase == GridPhase::Checking,
        0 <= i < events.len(),
        in_turn(s, events, events.len()),
    ensures
        doing_at(s, events, i) == GridDoing::Finish <==> events[i] is NoFrame && read_out(
            events,
            i as nat,
        ),
        doing_at(s, events, i) == GridDoing::Abandon <==> events[i] == GridEvent::Cancel(true),
        doing_at(s, events, i) == GridDoing::Fail <==> events[i] is Failed,
        doing_at(s, events, i) == GridDoing::Read <==> events[i] == GridEvent::Cancel(false),
        doing_at(s, events, i) == GridDoing::SendEof <==> events[i] is NoPacket,
        events[i] is Done ==> doing_at(s, events, i) == GridDoing::Receive,
        events[i] is Frame ==> doing_at(s, events, i) == GridDoing::Receive || doing_at(
            s,
            events,
            i,
        ) == GridDoing::Convert(s.thumb.0, s.thumb.1),
        events[i] is NoFrame && !read_out(events, i as nat) ==> doing_at(s, events, i)
            == GridDoing::Check,
        events[i] is Scaled <==> doing_at(s, events, i) is Emit,
{
    assert(in_turn(s, events, i as nat));
    lemma_read_out(s, events, i as nat);
    lemma_thumb_stays(s, events, i as nat);
    assert(grid_pass::grid_awaits(scan_after(s, events, i as nat).phase, events[i]));
}

proof fn lemma_thumb_stays(s: Scan, events: Seq<GridEvent>, n: nat)
    requires
        n <= events.len(),
        in_turn(s, events, n),
    ensures
        scan_after(s, events, n).thumb == s.thumb,
    decreases n,
{
    if n > 0 {
        lemma_thumb_stays(s, events, (n - 1) as nat);
    }
}

/// Whether the first frame scaled in the first `n` of these events came from the
/// GPU.
pub open spec fn first_scaled(events: Seq<GridEvent>, n: nat) -> Option<bool>
    decreases n,
{
    if n == 0 {
        None
    } else {
        match (first_scaled(events, (n - 1) as nat), events[n - 1]) {
            (None, GridEvent::Scaled(_, gpu)) => Some(gpu),
            (before, _) => before,
        }
    }
}

/// Each thumbnail is numbered by those handed on before it, and the pass takes the
/// decoder for the one that the first of them came from.
pub proof fn a_pass_counts_what_it_hands_on(s: Scan, events: Seq<GridEvent>, n: nat)
    requires
        s.kept == 0,
        s.from_gpu is None,
        n < events.len(),
        in_turn(s, events, events.len()),
    ensures
        scan_after(s, events, n).from_gpu == first_scaled(events, n),
        scan_after(s, events, n).kept == handed_on(s, events, n).len(),
        doing_at(s, events, n as int) matches GridDoing::Emit(i, _) ==> i == handed_on(
            s,
            events,
            n,
        ).len(),
    decreases n,
{
    assert(grid_pass::grid_awaits(scan_after(s, events, n).phase, events[n as int]));
    if n > 0 {
        a_pass_counts_what_it_hands_on(s, events, (n - 1) as nat);
        let m = (n - 1) as nat;
        assert(grid_pass::grid_awaits(scan_after(s, events, m).phase, events[m as int]));
    }
}

/// A record of a pass says what was measured: the figures of the packets read, as
/// fractions of the units they are given in, and what the pass was told.
pub proof fn a_record_says_what_was_measured(
    c: ClipStats,
    s: Scan,
    facts: ClipFacts,
    timing: PassTiming,
)
    requires
        grid_pass::learned(c, s, facts, timing),
    ensures
        c.packets == s.packets.len(),
        c.keyframes == s.packets.filter(|p: PacketInfo| p.key).len(),
        c.width == s.shape.src_w,
        c.height == s.shape.src_h,
        c.hw_decode <==> s.from_gpu == Some(true),
        // Megabits per second: bits over microseconds.
        facts.duration_ns > 0 ==> c.video_mbit_s.num * facts.duration_ns == tally::weight(s.packets)
            * 8 * 1000 * c.video_mbit_s.den,
        facts.duration_ns <= 0 ==> c.video_mbit_s.num == 0,
        facts.rate.0 > 0 && facts.rate.1 > 0 ==> c.fps.num * facts.rate.1 == facts.rate.0
            * c.fps.den,
        facts.rate.0 <= 0 || facts.rate.1 <= 0 ==> c.fps.num == 0,
        tally::weight(s.packets) > 0 ==> c.key_share_pct.num * tally::weight(s.packets) == 100
            * tally::weight(s.packets.filter(|p: PacketInfo| p.key)) * c.key_share_pct.den,
        timing.scan_ns > 0 ==> c.scan_mb_s.num * timing.scan_ns == tally::weight(s.packets) * 1000
            * c.scan_mb_s.den,
        timing.scan_ns == 0 ==> c.scan_mb_s.num == 0,
        (c.file@, c.container@, c.profile@) == (
            facts.file@,
            facts.container@,
            facts.profile@,
        ),
        facts.codec matches Some(n) ==> c.codec@ == n@,
        facts.pix_fmt matches Some(n) ==> c.pix_fmt@ == n@,
        facts.codec is None ==> c.codec@ == "unknown"@,
        facts.pix_fmt is None ==> c.pix_fmt@ == "unknown"@,
        (c.size_bytes, c.level, c.duration_ns, c.has_b_frames) == (
            facts.size_bytes,
            facts.level,
            facts.duration_ns,
            facts.has_b_frames,
        ),
        (c.grid_ns, c.open_ns, c.setup_ns) == (timing.grid_ns, timing.open_ns, timing.setup_ns),
        (c.scan_ns, c.decode_ns, c.convert_ns) == (
            timing.scan_ns,
            timing.decode_ns,
            timing.convert_ns,
        ),
{
    tally::the_keyframes_are_the_packets_marked_so(s.packets);
}

/// The spacing of the keyframes is that of their places: the mean is the distance
/// from the first to the last over the number of steps between them, and every
/// step lies between the least and the greatest. In seconds it is that of their
/// timestamps, by the stream's time base.
pub proof fn a_record_says_how_keyframes_lie(
    c: ClipStats,
    s: Scan,
    facts: ClipFacts,
    timing: PassTiming,
    i: int,
)
    requires
        grid_pass::learned(c, s, facts, timing),
    ensures
        ({
            let q = tally::key_places(s.packets);
            &&& q.len() >= 2 ==> c.gop_frames_mean.num == q.last() - q[0] && c.gop_frames_mean.den
                == q.len() - 1
            &&& 0 <= i && i + 1 < q.len() ==> c.gop_frames_min.num <= q[i + 1] - q[i]
                <= c.gop_frames_max.num
            &&& c.gop_frames_min.den == 1 && c.gop_frames_max.den == 1
        }),
        ({
            let q = tally::key_stamps(s.packets);
            let tb = s.shape.time_base;
            &&& q.len() >= 2 ==> c.gop_s_mean.num == (q.last() - q[0]) * tb.num && c.gop_s_mean.den
                == tb.den * (q.len() - 1)
            &&& tb.num >= 0 && 0 <= i && i + 1 < q.len() ==> c.gop_s_min.num <= (q[i + 1] - q[i])
                * tb.num <= c.gop_s_max.num
            &&& c.gop_s_min.den == tb.den && c.gop_s_max.den == tb.den
        }),
{
    let q = tally::key_places(s.packets);
    let r = tally::key_stamps(s.packets);
    let tb = s.shape.time_base;
    let gf = tally::gaps(q);
    let gs = tally::gaps(r);
    let fl = choose|m: int| #[trigger]
        tally::is_least(m, gf) && c.gop_frames_min.num == m * 1 && c.gop_frames_min.den == 1;
    let fg = choose|m: int| #[trigger]
        tally::is_greatest(m, gf) && c.gop_frames_max.num == m * 1 && c.gop_frames_max.den == 1;
    let sl = choose|m: int| #[trigger]
        tally::is_least(m, gs) && c.gop_s_min.num == m * tb.num && c.gop_s_min.den == tb.den;
    let sg = choose|m: int| #[trigger]
        tally::is_greatest(m, gs) && c.gop_s_max.num == m * tb.num && c.gop_s_max.den == tb.den;
    if q.len() >= 2 {
        tally::gaps_add_up_to_the_whole_span(q);
    }
    if r.len() >= 2 {
        tally::gaps_add_up_to_the_whole_span(r);
    }
    if 0 <= i && i + 1 < q.len() {
        tally::the_ends_of_a_spread_are_samples(gf, fl, fg, i);
    }
    if 0 <= i && i + 1 < r.len() && tb.num >= 0 {
        tally::the_ends_of_a_spread_are_samples(gs, sl, sg, i);
        let g = gs[i];
        assert(sl * tb.num <= g * tb.num <= sg * tb.num) by (nonlinear_arith)
            requires
                sl <= g <= sg,
                tb.num >= 0,
        ;
    }
}

/// What is to be done is what is said, and a thumbnail is handed on under its own
/// number.
pub proof fn what_is_said_is_to_be_done(a: GridAction)
    ensures
        a matches GridAction::Emit(i, t) ==> a@ == GridDoing::Emit(i as int, t@),
        a matches GridAction::Convert(w, h) ==> a@ == GridDoing::Convert(w, h),
        a is Check <==> a@ is Check,
        a is Read <==> a@ is Read,
        a is Send <==> a@ is Send,
        a is SendEof <==> a@ is SendEof,
        a is Receive <==> a@ is Receive,
        a is Finish <==> a@ is Finish,
        a is Abandon <==> a@ is Abandon,
        a is Fail <==> a@ is Fail,
{
}

} // verus!
