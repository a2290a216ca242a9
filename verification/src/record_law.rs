//! A record of the dataset is one line of JSON.

use vstd::prelude::*;

use crate::clip_stats;
use crate::clip_stats::ClipStats;
use crate::json;
use crate::text;

verus! {

/// Which decoder ran.
pub open spec fn decoder_name(s: ClipStats) -> Seq<char> {
    if s.hw_decode {
        "GPU"@
    } else {
        "CPU"@
    }
}

/// The members that say which clip a record is about.
pub open spec fn identity_fields(s: ClipStats, ts: Seq<char>) -> Seq<(Seq<char>, Seq<char>)> {
    seq![
        ("ts"@, json::string(ts)),
        ("file"@, json::string(s.file@)),
        ("size_mb"@, text::fixed(s.size_bytes as nat, 1_000_000, 1)),
        ("container"@, json::string(s.container@)),
        ("codec"@, json::string(s.codec@)),
        ("profile"@, json::string(s.profile@)),
        ("level"@, text::signed(s.level as int)),
    ]
}

/// The members that say what the stream is like.
pub open spec fn stream_fields(s: ClipStats) -> Seq<(Seq<char>, Seq<char>)> {
    seq![
        ("w"@, text::decimal(s.width as nat)),
        ("h"@, text::decimal(s.height as nat)),
        ("pix_fmt"@, json::string(s.pix_fmt@)),
        ("fps"@, s.fps.decimal(3)),
        ("dur_s"@, text::signed_fixed(s.duration_ns as int, 1_000_000_000, 3)),
        ("mbit_s"@, s.video_mbit_s.decimal(1)),
        ("has_b"@, clip_stats::truth(s.has_b_frames)),
    ]
}

/// The keyframe spacing in frames.
pub open spec fn frames_fields(s: ClipStats) -> Seq<(Seq<char>, Seq<char>)> {
    seq![
        ("min"@, s.gop_frames_min.decimal(0)),
        ("mean"@, s.gop_frames_mean.decimal(1)),
        ("max"@, s.gop_frames_max.decimal(0)),
    ]
}

/// The keyframe spacing in seconds.
pub open spec fn seconds_fields(s: ClipStats) -> Seq<(Seq<char>, Seq<char>)> {
    seq![
        ("min"@, s.gop_s_min.decimal(3)),
        ("mean"@, s.gop_s_mean.decimal(3)),
        ("max"@, s.gop_s_max.decimal(3)),
    ]
}

/// The members that say how the keyframes are laid out.
pub open spec fn layout_fields(s: ClipStats) -> Seq<(Seq<char>, Seq<char>)> {
    seq![
        ("packets"@, text::decimal(s.packets as nat)),
        ("keyframes"@, text::decimal(s.keyframes as nat)),
        ("gop_frames"@, json::object(frames_fields(s))),
        ("gop_s"@, json::object(seconds_fields(s))),
        ("key_share_pct"@, s.key_share_pct.decimal(1)),
    ]
}

/// The members that say what reading the clip cost.
pub open spec fn cost_fields(s: ClipStats) -> Seq<(Seq<char>, Seq<char>)> {
    seq![
        ("hw"@, json::string(decoder_name(s))),
        ("grid_ms"@, clip_stats::millis(s.grid_ns)),
        ("open_ms"@, clip_stats::millis(s.open_ns)),
        ("setup_ms"@, clip_stats::millis(s.setup_ns)),
        ("scan_ms"@, clip_stats::millis(s.scan_ns)),
        ("decode_ms"@, clip_stats::millis(s.decode_ns)),
        ("convert_ms"@, clip_stats::millis(s.convert_ns)),
        ("scan_mb_s"@, s.scan_mb_s.decimal(0)),
    ]
}

/// The members of a record.
pub open spec fn fields(s: ClipStats, ts: Seq<char>) -> Seq<(Seq<char>, Seq<char>)> {
    identity_fields(s, ts) + stream_fields(s) + layout_fields(s) + cost_fields(s)
}

/// A quote, where there is one.
spec fn quote_if(there: bool) -> Seq<char> {
    if there {
        seq!['"']
    } else {
        Seq::empty()
    }
}

/// A value, between quotes where they are wanted.
spec fn quoted_if(wanted: bool, v: Seq<char>) -> Seq<char> {
    if wanted {
        json::string(v)
    } else {
        v
    }
}

proof fn lemma_first_member(
    lead: char,
    label: Seq<char>,
    k: Seq<char>,
    v: Seq<char>,
    open: bool,
)
    requires
        label == seq![lead] + json::string(k) + seq![':'] + quote_if(open),
    ensures
        label + v + quote_if(open) == seq![lead] + json::joined(seq![(k, quoted_if(open, v))]),
{
    assert(label + v + quote_if(open) =~= seq![lead] + json::member((k, quoted_if(open, v))));
}

/// What stands between two values: the quote that ends the one, a comma, the key
/// of the other, and the quote that begins it.
spec fn label(close: bool, k: Seq<char>, open: bool) -> Seq<char> {
    quote_if(close) + seq![','] + json::string(k) + seq![':'] + quote_if(open)
}

proof fn lemma_next_member(
    lead: char,
    t: Seq<char>,
    ms: Seq<(Seq<char>, Seq<char>)>,
    text: Seq<char>,
    k: Seq<char>,
    v: Seq<char>,
    close: bool,
    open: bool,
)
    requires
        ms.len() > 0,
        text == label(close, k, open),
        t + quote_if(close) == seq![lead] + json::joined(ms),
    ensures
        t + text + v + quote_if(open) == seq![lead] + json::joined(
            ms.push((k, quoted_if(open, v))),
        ),
{
    let m = (k, quoted_if(open, v));
    assert(ms.push(m).drop_last() =~= ms);
    assert(t + text + v + quote_if(open) =~= (t + quote_if(close)) + seq![','] + json::member(m));
    assert((t + quote_if(close)) + seq![','] + json::member(m) =~= seq![lead] + (json::joined(ms)
        + seq![','] + json::member(m)));
}

proof fn lemma_identity_is_members(s: ClipStats, ts: Seq<char>)
    ensures
        clip_stats::identity_part(s, ts) == seq!['{'] + json::joined(identity_fields(s, ts)),
{
    assert("{\"ts\":\""@ == seq!['{'] + json::string("ts"@) + seq![':'] + quote_if(true)) by {
        reveal_strlit("{\"ts\":\"");
        reveal_strlit("ts");
    }
    lemma_first_member('{', "{\"ts\":\""@, "ts"@, ts, true);
    let t0 = "{\"ts\":\""@ + ts;
    let m0 = seq![("ts"@, quoted_if(true, ts))];
    assert("\",\"file\":\""@ == label(true, "file"@, true)) by {
        reveal_strlit("\",\"file\":\"");
        reveal_strlit("file");
    }
    lemma_next_member('{', t0, m0, "\",\"file\":\""@, "file"@, s.file@, true, true);
    let t1 = t0 + "\",\"file\":\""@ + s.file@;
    let m1 = m0.push(("file"@, quoted_if(true, s.file@)));
    assert("\",\"size_mb\":"@ == label(true, "size_mb"@, false)) by {
        reveal_strlit("\",\"size_mb\":");
        reveal_strlit("size_mb");
    }
    lemma_next_member(
        '{',
        t1,
        m1,
        "\",\"size_mb\":"@,
        "size_mb"@,
        text::fixed(s.size_bytes as nat, 1_000_000, 1),
        true,
        false,
    );
    let t2 = t1 + "\",\"size_mb\":"@ + text::fixed(s.size_bytes as nat, 1_000_000, 1);
    let m2 = m1.push(("size_mb"@, quoted_if(false, text::fixed(s.size_bytes as nat, 1_000_000, 1))));
    assert(t2 + quote_if(false) =~= t2);
    assert(",\"container\":\""@ == label(false, "container"@, true)) by {
        reveal_strlit(",\"container\":\"");
        reveal_strlit("container");
    }
    lemma_next_member('{', t2, m2, ",\"container\":\""@, "container"@, s.container@, false, true);
    let t3 = t2 + ",\"container\":\""@ + s.container@;
    let m3 = m2.push(("container"@, quoted_if(true, s.container@)));
    assert("\",\"codec\":\""@ == label(true, "codec"@, true)) by {
        reveal_strlit("\",\"codec\":\"");
        reveal_strlit("codec");
    }
    lemma_next_member('{', t3, m3, "\",\"codec\":\""@, "codec"@, s.codec@, true, true);
    let t4 = t3 + "\",\"codec\":\""@ + s.codec@;
    let m4 = m3.push(("codec"@, quoted_if(true, s.codec@)));
    assert("\",\"profile\":\""@ == label(true, "profile"@, true)) by {
        reveal_strlit("\",\"profile\":\"");
        reveal_strlit("profile");
    }
    lemma_next_member('{', t4, m4, "\",\"profile\":\""@, "profile"@, s.profile@, true, true);
    let t5 = t4 + "\",\"profile\":\""@ + s.profile@;
    let m5 = m4.push(("profile"@, quoted_if(true, s.profile@)));
    assert("\",\"level\":"@ == label(true, "level"@, false)) by {
        reveal_strlit("\",\"level\":");
        reveal_strlit("level");
    }
    lemma_next_member(
        '{',
        t5,
        m5,
        "\",\"level\":"@,
        "level"@,
        text::signed(s.level as int),
        true,
        false,
    );
    let t6 = t5 + "\",\"level\":"@ + text::signed(s.level as int);
    let m6 = m5.push(("level"@, quoted_if(false, text::signed(s.level as int))));
    assert(t6 + quote_if(false) =~= t6);
    assert(m6 =~= identity_fields(s, ts));
}

proof fn lemma_stream_is_members(s: ClipStats)
    ensures
        clip_stats::stream_part(s) == seq![','] + json::joined(stream_fields(s)),
{
    assert(",\"w\":"@ == seq![','] + json::string("w"@) + seq![':'] + quote_if(false)) by {
        reveal_strlit(",\"w\":");
        reveal_strlit("w");
    }
    lemma_first_member(',', ",\"w\":"@, "w"@, text::decimal(s.width as nat), false);
    let t0 = ",\"w\":"@ + text::decimal(s.width as nat);
    let m0 = seq![("w"@, quoted_if(false, text::decimal(s.width as nat)))];
    assert(t0 + quote_if(false) =~= t0);
    assert(",\"h\":"@ == label(false, "h"@, false)) by {
        reveal_strlit(",\"h\":");
        reveal_strlit("h");
    }
    lemma_next_member(',', t0, m0, ",\"h\":"@, "h"@, text::decimal(s.height as nat), false, false);
    let t1 = t0 + ",\"h\":"@ + text::decimal(s.height as nat);
    let m1 = m0.push(("h"@, quoted_if(false, text::decimal(s.height as nat))));
    assert(t1 + quote_if(false) =~= t1);
    assert(",\"pix_fmt\":\""@ == label(false, "pix_fmt"@, true)) by {
        reveal_strlit(",\"pix_fmt\":\"");
        reveal_strlit("pix_fmt");
    }
    lemma_next_member(',', t1, m1, ",\"pix_fmt\":\""@, "pix_fmt"@, s.pix_fmt@, false, true);
    let t2 = t1 + ",\"pix_fmt\":\""@ + s.pix_fmt@;
    let m2 = m1.push(("pix_fmt"@, quoted_if(true, s.pix_fmt@)));
    assert("\",\"fps\":"@ == label(true, "fps"@, false)) by {
        reveal_strlit("\",\"fps\":");
        reveal_strlit("fps");
    }
    lemma_next_member(',', t2, m2, "\",\"fps\":"@, "fps"@, s.fps.decimal(3), true, false);
    let t3 = t2 + "\",\"fps\":"@ + s.fps.decimal(3);
    let m3 = m2.push(("fps"@, quoted_if(false, s.fps.decimal(3))));
    assert(t3 + quote_if(false) =~= t3);
    assert(",\"dur_s\":"@ == label(false, "dur_s"@, false)) by {
        reveal_strlit(",\"dur_s\":");
        reveal_strlit("dur_s");
    }
    lemma_next_member(
        ',',
        t3,
        m3,
        ",\"dur_s\":"@,
        "dur_s"@,
        text::signed_fixed(s.duration_ns as int, 1_000_000_000, 3),
        false,
        false,
    );
    let t4 = t3 + ",\"dur_s\":"@ + text::signed_fixed(s.duration_ns as int, 1_000_000_000, 3);
    let m4 = m3.push(
        ("dur_s"@, quoted_if(false, text::signed_fixed(s.duration_ns as int, 1_000_000_000, 3))),
    );
    assert(t4 + quote_if(false) =~= t4);
    assert(",\"mbit_s\":"@ == label(false, "mbit_s"@, false)) by {
        reveal_strlit(",\"mbit_s\":");
        reveal_strlit("mbit_s");
    }
    lemma_next_member(
        ',',
        t4,
        m4,
        ",\"mbit_s\":"@,
        "mbit_s"@,
        s.video_mbit_s.decimal(1),
        false,
        false,
    );
    let t5 = t4 + ",\"mbit_s\":"@ + s.video_mbit_s.decimal(1);
    let m5 = m4.push(("mbit_s"@, quoted_if(false, s.video_mbit_s.decimal(1))));
    assert(t5 + quote_if(false) =~= t5);
    assert(",\"has_b\":"@ == label(false, "has_b"@, false)) by {
        reveal_strlit(",\"has_b\":");
        reveal_strlit("has_b");
    }
    lemma_next_member(
        ',',
        t5,
        m5,
        ",\"has_b\":"@,
        "has_b"@,
        clip_stats::truth(s.has_b_frames),
        false,
        false,
    );
    let t6 = t5 + ",\"has_b\":"@ + clip_stats::truth(s.has_b_frames);
    let m6 = m5.push(("has_b"@, quoted_if(false, clip_stats::truth(s.has_b_frames))));
    assert(t6 + quote_if(false) =~= t6);
    assert(m6 =~= stream_fields(s));
}

proof fn lemma_frames_is_members(s: ClipStats)
    ensures
        "{\"min\":"@ + s.gop_frames_min.decimal(0) + ",\"mean\":"@ + s.gop_frames_mean.decimal(1)
            + ",\"max\":"@ + s.gop_frames_max.decimal(0)
            == seq!['{'] + json::joined(frames_fields(s)),
{
    assert("{\"min\":"@ == seq!['{'] + json::string("min"@) + seq![':'] + quote_if(false)) by {
        reveal_strlit("{\"min\":");
        reveal_strlit("min");
    }
    lemma_first_member('{', "{\"min\":"@, "min"@, s.gop_frames_min.decimal(0), false);
    let t0 = "{\"min\":"@ + s.gop_frames_min.decimal(0);
    let m0 = seq![("min"@, quoted_if(false, s.gop_frames_min.decimal(0)))];
    assert(t0 + quote_if(false) =~= t0);
    assert(",\"mean\":"@ == label(false, "mean"@, false)) by {
        reveal_strlit(",\"mean\":");
        reveal_strlit("mean");
    }
    lemma_next_member(
        '{',
        t0,
        m0,
        ",\"mean\":"@,
        "mean"@,
        s.gop_frames_mean.decimal(1),
        false,
        false,
    );
    let t1 = t0 + ",\"mean\":"@ + s.gop_frames_mean.decimal(1);
    let m1 = m0.push(("mean"@, quoted_if(false, s.gop_frames_mean.decimal(1))));
    assert(t1 + quote_if(false) =~= t1);
    assert(",\"max\":"@ == label(false, "max"@, false)) by {
        reveal_strlit(",\"max\":");
        reveal_strlit("max");
    }
    lemma_next_member('{', t1, m1, ",\"max\":"@, "max"@, s.gop_frames_max.decimal(0), false, false);
    let t2 = t1 + ",\"max\":"@ + s.gop_frames_max.decimal(0);
    let m2 = m1.push(("max"@, quoted_if(false, s.gop_frames_max.decimal(0))));
    assert(t2 + quote_if(false) =~= t2);
    assert(m2 =~= frames_fields(s));
}

proof fn lemma_seconds_is_members(s: ClipStats)
    ensures
        "{\"min\":"@ + s.gop_s_min.decimal(3) + ",\"mean\":"@ + s.gop_s_mean.decimal(3)
            + ",\"max\":"@ + s.gop_s_max.decimal(3)
            == seq!['{'] + json::joined(seconds_fields(s)),
{
    assert("{\"min\":"@ == seq!['{'] + json::string("min"@) + seq![':'] + quote_if(false)) by {
        reveal_strlit("{\"min\":");
        reveal_strlit("min");
    }
    lemma_first_member('{', "{\"min\":"@, "min"@, s.gop_s_min.decimal(3), false);
    let t0 = "{\"min\":"@ + s.gop_s_min.decimal(3);
    let m0 = seq![("min"@, quoted_if(false, s.gop_s_min.decimal(3)))];
    assert(t0 + quote_if(false) =~= t0);
    assert(",\"mean\":"@ == label(false, "mean"@, false)) by {
        reveal_strlit(",\"mean\":");
        reveal_strlit("mean");
    }
    lemma_next_member('{', t0, m0, ",\"mean\":"@, "mean"@, s.gop_s_mean.decimal(3), false, false);
    let t1 = t0 + ",\"mean\":"@ + s.gop_s_mean.decimal(3);
    let m1 = m0.push(("mean"@, quoted_if(false, s.gop_s_mean.decimal(3))));
    assert(t1 + quote_if(false) =~= t1);
    assert(",\"max\":"@ == label(false, "max"@, false)) by {
        reveal_strlit(",\"max\":");
        reveal_strlit("max");
    }
    lemma_next_member('{', t1, m1, ",\"max\":"@, "max"@, s.gop_s_max.decimal(3), false, false);
    let t2 = t1 + ",\"max\":"@ + s.gop_s_max.decimal(3);
    let m2 = m1.push(("max"@, quoted_if(false, s.gop_s_max.decimal(3))));
    assert(t2 + quote_if(false) =~= t2);
    assert(m2 =~= seconds_fields(s));
}

proof fn lemma_layout_labels()
    ensures
        ",\"gop_frames\":{\"min\":"@ == ",\"gop_frames\":"@ + "{\"min\":"@,
        "},\"gop_s\":{\"min\":"@ == seq!['}'] + (",\"gop_s\":"@ + "{\"min\":"@),
        "},\"key_share_pct\":"@ == seq!['}'] + ",\"key_share_pct\":"@,
{
    reveal_strlit("{\"min\":");
    assert(",\"gop_frames\":{\"min\":"@ =~= ",\"gop_frames\":"@ + "{\"min\":"@) by {
        reveal_strlit(",\"gop_frames\":{\"min\":");
        reveal_strlit(",\"gop_frames\":");
    }
    assert("},\"gop_s\":{\"min\":"@ =~= seq!['}'] + (",\"gop_s\":"@
        + "{\"min\":"@)) by {
        reveal_strlit("},\"gop_s\":{\"min\":");
        reveal_strlit(",\"gop_s\":");
    }
    assert("},\"key_share_pct\":"@ =~= seq!['}'] + ",\"key_share_pct\":"@) by {
        reveal_strlit("},\"key_share_pct\":");
        reveal_strlit(",\"key_share_pct\":");
    }
}

proof fn lemma_nests(
    t: Seq<char>,
    label: Seq<char>,
    key: Seq<char>,
    x: Seq<char>,
    y: Seq<char>,
    z: Seq<char>,
    inner: Seq<char>,
)
    requires
        label == key + "{\"min\":"@,
        "{\"min\":"@ + x + ",\"mean\":"@ + y + ",\"max\":"@ + z == seq!['{'] + inner,
    ensures
        t + label + x + ",\"mean\":"@ + y + ",\"max\":"@ + z == t + key + (seq!['{'] + inner),
{
    assert(t + label + x + ",\"mean\":"@ + y + ",\"max\":"@ + z =~= t + key + (
    "{\"min\":"@ + x + ",\"mean\":"@ + y + ",\"max\":"@ + z));
}

proof fn lemma_closes(u: Seq<char>, label: Seq<char>, rest: Seq<char>)
    requires
        label == seq!['}'] + rest,
    ensures
        u + label == u + seq!['}'] + rest,
{
    assert(u + label =~= u + seq!['}'] + rest);
}

proof fn lemma_shuts(t: Seq<char>, key: Seq<char>, inner: Seq<char>)
    ensures
        t + key + (seq!['{'] + inner) + seq!['}'] == t + key + (seq!['{'] + inner + seq!['}']),
{
    assert(t + key + (seq!['{'] + inner) + seq!['}'] =~= t + key + (seq!['{'] + inner + seq!['}']));
}

proof fn lemma_layout_is_members(s: ClipStats)
    ensures
        clip_stats::layout_part(s) == seq![','] + json::joined(layout_fields(s)),
{
    lemma_layout_labels();
    lemma_frames_is_members(s);
    lemma_seconds_is_members(s);
    assert(",\"packets\":"@ == seq![','] + json::string("packets"@) + seq![':'] + quote_if(false)) by {
        reveal_strlit(",\"packets\":");
        reveal_strlit("packets");
    }
    lemma_first_member(',', ",\"packets\":"@, "packets"@, text::decimal(s.packets as nat), false);
    let t0 = ",\"packets\":"@ + text::decimal(s.packets as nat);
    let m0 = seq![("packets"@, quoted_if(false, text::decimal(s.packets as nat)))];
    assert(t0 + quote_if(false) =~= t0);
    assert(",\"keyframes\":"@ == label(false, "keyframes"@, false)) by {
        reveal_strlit(",\"keyframes\":");
        reveal_strlit("keyframes");
    }
    lemma_next_member(
        ',',
        t0,
        m0,
        ",\"keyframes\":"@,
        "keyframes"@,
        text::decimal(s.keyframes as nat),
        false,
        false,
    );
    let t1 = t0 + ",\"keyframes\":"@ + text::decimal(s.keyframes as nat);
    let m1 = m0.push(("keyframes"@, quoted_if(false, text::decimal(s.keyframes as nat))));
    assert(t1 + quote_if(false) =~= t1);
    assert(",\"gop_frames\":"@ == label(false, "gop_frames"@, false)) by {
        reveal_strlit(",\"gop_frames\":");
        reveal_strlit("gop_frames");
    }
    lemma_next_member(
        ',',
        t1,
        m1,
        ",\"gop_frames\":"@,
        "gop_frames"@,
        json::object(frames_fields(s)),
        false,
        false,
    );
    let t2 = t1 + ",\"gop_frames\":"@ + json::object(frames_fields(s));
    let m2 = m1.push(("gop_frames"@, quoted_if(false, json::object(frames_fields(s)))));
    assert(t2 + quote_if(false) =~= t2);
    assert(",\"gop_s\":"@ == label(false, "gop_s"@, false)) by {
        reveal_strlit(",\"gop_s\":");
        reveal_strlit("gop_s");
    }
    lemma_next_member(
        ',',
        t2,
        m2,
        ",\"gop_s\":"@,
        "gop_s"@,
        json::object(seconds_fields(s)),
        false,
        false,
    );
    let t3 = t2 + ",\"gop_s\":"@ + json::object(seconds_fields(s));
    let m3 = m2.push(("gop_s"@, quoted_if(false, json::object(seconds_fields(s)))));
    assert(t3 + quote_if(false) =~= t3);
    assert(",\"key_share_pct\":"@ == label(false, "key_share_pct"@, false)) by {
        reveal_strlit(",\"key_share_pct\":");
        reveal_strlit("key_share_pct");
    }
    lemma_next_member(
        ',',
        t3,
        m3,
        ",\"key_share_pct\":"@,
        "key_share_pct"@,
        s.key_share_pct.decimal(1),
        false,
        false,
    );
    let t4 = t3 + ",\"key_share_pct\":"@ + s.key_share_pct.decimal(1);
    let m4 = m3.push(("key_share_pct"@, quoted_if(false, s.key_share_pct.decimal(1))));
    assert(t4 + quote_if(false) =~= t4);
    assert(m4 =~= layout_fields(s));
    lemma_nests(
        t1,
        ",\"gop_frames\":{\"min\":"@,
        ",\"gop_frames\":"@,
        s.gop_frames_min.decimal(0),
        s.gop_frames_mean.decimal(1),
        s.gop_frames_max.decimal(0),
        json::joined(frames_fields(s)),
    );
    lemma_closes(
        t1 + ",\"gop_frames\":"@ + (seq!['{'] + json::joined(frames_fields(s))),
        "},\"gop_s\":{\"min\":"@,
        ",\"gop_s\":"@ + "{\"min\":"@,
    );
    lemma_shuts(t1, ",\"gop_frames\":"@, json::joined(frames_fields(s)));
    lemma_nests(
        t2,
        ",\"gop_s\":"@ + "{\"min\":"@,
        ",\"gop_s\":"@,
        s.gop_s_min.decimal(3),
        s.gop_s_mean.decimal(3),
        s.gop_s_max.decimal(3),
        json::joined(seconds_fields(s)),
    );
    lemma_closes(
        t2 + ",\"gop_s\":"@ + (seq!['{'] + json::joined(seconds_fields(s))),
        "},\"key_share_pct\":"@,
        ",\"key_share_pct\":"@,
    );
    lemma_shuts(t2, ",\"gop_s\":"@, json::joined(seconds_fields(s)));
}

proof fn lemma_cost_is_members(s: ClipStats)
    ensures
        clip_stats::cost_part(s) == seq![','] + json::joined(cost_fields(s)) + "}\n"@,
{
    assert(",\"hw\":\""@ == seq![','] + json::string("hw"@) + seq![':'] + quote_if(true)) by {
        reveal_strlit(",\"hw\":\"");
        reveal_strlit("hw");
    }
    lemma_first_member(',', ",\"hw\":\""@, "hw"@, decoder_name(s), true);
    let t0 = ",\"hw\":\""@ + decoder_name(s);
    let m0 = seq![("hw"@, quoted_if(true, decoder_name(s)))];
    assert("\",\"grid_ms\":"@ == label(true, "grid_ms"@, false)) by {
        reveal_strlit("\",\"grid_ms\":");
        reveal_strlit("grid_ms");
    }
    lemma_next_member(
        ',',
        t0,
        m0,
        "\",\"grid_ms\":"@,
        "grid_ms"@,
        clip_stats::millis(s.grid_ns),
        true,
        false,
    );
    let t1 = t0 + "\",\"grid_ms\":"@ + clip_stats::millis(s.grid_ns);
    let m1 = m0.push(("grid_ms"@, quoted_if(false, clip_stats::millis(s.grid_ns))));
    assert(t1 + quote_if(false) =~= t1);
    assert(",\"open_ms\":"@ == label(false, "open_ms"@, false)) by {
        reveal_strlit(",\"open_ms\":");
        reveal_strlit("open_ms");
    }
    lemma_next_member(
        ',',
        t1,
        m1,
        ",\"open_ms\":"@,
        "open_ms"@,
        clip_stats::millis(s.open_ns),
        false,
        false,
    );
    let t2 = t1 + ",\"open_ms\":"@ + clip_stats::millis(s.open_ns);
    let m2 = m1.push(("open_ms"@, quoted_if(false, clip_stats::millis(s.open_ns))));
    assert(t2 + quote_if(false) =~= t2);
    assert(",\"setup_ms\":"@ == label(false, "setup_ms"@, false)) by {
        reveal_strlit(",\"setup_ms\":");
        reveal_strlit("setup_ms");
    }
    lemma_next_member(
        ',',
        t2,
        m2,
        ",\"setup_ms\":"@,
        "setup_ms"@,
        clip_stats::millis(s.setup_ns),
        false,
        false,
    );
    let t3 = t2 + ",\"setup_ms\":"@ + clip_stats::millis(s.setup_ns);
    let m3 = m2.push(("setup_ms"@, quoted_if(false, clip_stats::millis(s.setup_ns))));
    assert(t3 + quote_if(false) =~= t3);
    assert(",\"scan_ms\":"@ == label(false, "scan_ms"@, false)) by {
        reveal_strlit(",\"scan_ms\":");
        reveal_strlit("scan_ms");
    }
    lemma_next_member(
        ',',
        t3,
        m3,
        ",\"scan_ms\":"@,
        "scan_ms"@,
        clip_stats::millis(s.scan_ns),
        false,
        false,
    );
    let t4 = t3 + ",\"scan_ms\":"@ + clip_stats::millis(s.scan_ns);
    let m4 = m3.push(("scan_ms"@, quoted_if(false, clip_stats::millis(s.scan_ns))));
    assert(t4 + quote_if(false) =~= t4);
    assert(",\"decode_ms\":"@ == label(false, "decode_ms"@, false)) by {
        reveal_strlit(",\"decode_ms\":");
        reveal_strlit("decode_ms");
    }
    lemma_next_member(
        ',',
        t4,
        m4,
        ",\"decode_ms\":"@,
        "decode_ms"@,
        clip_stats::millis(s.decode_ns),
        false,
        false,
    );
    let t5 = t4 + ",\"decode_ms\":"@ + clip_stats::millis(s.decode_ns);
    let m5 = m4.push(("decode_ms"@, quoted_if(false, clip_stats::millis(s.decode_ns))));
    assert(t5 + quote_if(false) =~= t5);
    assert(",\"convert_ms\":"@ == label(false, "convert_ms"@, false)) by {
        reveal_strlit(",\"convert_ms\":");
        reveal_strlit("convert_ms");
    }
    lemma_next_member(
        ',',
        t5,
        m5,
        ",\"convert_ms\":"@,
        "convert_ms"@,
        clip_stats::millis(s.convert_ns),
        false,
        false,
    );
    let t6 = t5 + ",\"convert_ms\":"@ + clip_stats::millis(s.convert_ns);
    let m6 = m5.push(("convert_ms"@, quoted_if(false, clip_stats::millis(s.convert_ns))));
    assert(t6 + quote_if(false) =~= t6);
    assert(",\"scan_mb_s\":"@ == label(false, "scan_mb_s"@, false)) by {
        reveal_strlit(",\"scan_mb_s\":");
        reveal_strlit("scan_mb_s");
    }
    lemma_next_member(
        ',',
        t6,
        m6,
        ",\"scan_mb_s\":"@,
        "scan_mb_s"@,
        s.scan_mb_s.decimal(0),
        false,
        false,
    );
    let t7 = t6 + ",\"scan_mb_s\":"@ + s.scan_mb_s.decimal(0);
    let m7 = m6.push(("scan_mb_s"@, quoted_if(false, s.scan_mb_s.decimal(0))));
    assert(t7 + quote_if(false) =~= t7);
    assert(m7 =~= cost_fields(s));
}

proof fn lemma_identity_are_values(s: ClipStats, ts: Seq<char>)
    requires
        json::safe(ts),
        json::safe(s.file@),
        json::safe(s.container@),
        json::safe(s.codec@),
        json::safe(s.profile@),
    ensures
        json::of_scalars(identity_fields(s, ts)),
{
    reveal_strlit("ts");
    assert(json::is_scalar(json::string(ts)));
    reveal_strlit("file");
    assert(json::is_scalar(json::string(s.file@)));
    reveal_strlit("size_mb");
    json::lemma_formats_are_numbers(s.size_bytes as int, 1_000_000, 1);
    reveal_strlit("container");
    assert(json::is_scalar(json::string(s.container@)));
    reveal_strlit("codec");
    assert(json::is_scalar(json::string(s.codec@)));
    reveal_strlit("profile");
    assert(json::is_scalar(json::string(s.profile@)));
    reveal_strlit("level");
    json::lemma_formats_are_numbers(s.level as int, 1, 0);
}

proof fn lemma_stream_are_values(s: ClipStats)
    requires
        json::safe(s.pix_fmt@),
    ensures
        json::of_scalars(stream_fields(s)),
{
    reveal_strlit("w");
    json::lemma_formats_are_numbers(s.width as int, 1, 0);
    reveal_strlit("h");
    json::lemma_formats_are_numbers(s.height as int, 1, 0);
    reveal_strlit("pix_fmt");
    assert(json::is_scalar(json::string(s.pix_fmt@)));
    reveal_strlit("fps");
    json::lemma_formats_are_numbers(s.fps.num as int, s.fps.den as nat, 3);
    reveal_strlit("dur_s");
    json::lemma_formats_are_numbers(s.duration_ns as int, 1_000_000_000, 3);
    reveal_strlit("mbit_s");
    json::lemma_formats_are_numbers(s.video_mbit_s.num as int, s.video_mbit_s.den as nat, 1);
    reveal_strlit("has_b");
}

proof fn lemma_frames_are_values(s: ClipStats)
    ensures
        json::of_scalars(frames_fields(s)),
{
    reveal_strlit("min");
    json::lemma_formats_are_numbers(s.gop_frames_min.num as int, s.gop_frames_min.den as nat, 0);
    reveal_strlit("mean");
    json::lemma_formats_are_numbers(s.gop_frames_mean.num as int, s.gop_frames_mean.den as nat, 1);
    reveal_strlit("max");
    json::lemma_formats_are_numbers(s.gop_frames_max.num as int, s.gop_frames_max.den as nat, 0);
}

proof fn lemma_seconds_are_values(s: ClipStats)
    ensures
        json::of_scalars(seconds_fields(s)),
{
    reveal_strlit("min");
    json::lemma_formats_are_numbers(s.gop_s_min.num as int, s.gop_s_min.den as nat, 3);
    reveal_strlit("mean");
    json::lemma_formats_are_numbers(s.gop_s_mean.num as int, s.gop_s_mean.den as nat, 3);
    reveal_strlit("max");
    json::lemma_formats_are_numbers(s.gop_s_max.num as int, s.gop_s_max.den as nat, 3);
}

proof fn lemma_layout_are_values(s: ClipStats)
    ensures
        json::of_values(layout_fields(s)),
{
    lemma_frames_are_values(s);
    lemma_seconds_are_values(s);
    assert(json::is_value(json::object(frames_fields(s))));
    assert(json::is_value(json::object(seconds_fields(s))));
    reveal_strlit("packets");
    json::lemma_formats_are_numbers(s.packets as int, 1, 0);
    reveal_strlit("keyframes");
    json::lemma_formats_are_numbers(s.keyframes as int, 1, 0);
    reveal_strlit("gop_frames");
    reveal_strlit("gop_s");
    reveal_strlit("key_share_pct");
    json::lemma_formats_are_numbers(s.key_share_pct.num as int, s.key_share_pct.den as nat, 1);
}

proof fn lemma_cost_are_values(s: ClipStats)
    ensures
        json::of_scalars(cost_fields(s)),
{
    reveal_strlit("GPU");
    reveal_strlit("CPU");
    reveal_strlit("hw");
    assert(json::is_scalar(json::string(decoder_name(s))));
    reveal_strlit("grid_ms");
    json::lemma_formats_are_numbers(s.grid_ns as int, 1_000_000, 0);
    reveal_strlit("open_ms");
    json::lemma_formats_are_numbers(s.open_ns as int, 1_000_000, 0);
    reveal_strlit("setup_ms");
    json::lemma_formats_are_numbers(s.setup_ns as int, 1_000_000, 0);
    reveal_strlit("scan_ms");
    json::lemma_formats_are_numbers(s.scan_ns as int, 1_000_000, 0);
    reveal_strlit("decode_ms");
    json::lemma_formats_are_numbers(s.decode_ns as int, 1_000_000, 0);
    reveal_strlit("convert_ms");
    json::lemma_formats_are_numbers(s.convert_ns as int, 1_000_000, 0);
    reveal_strlit("scan_mb_s");
    json::lemma_formats_are_numbers(s.scan_mb_s.num as int, s.scan_mb_s.den as nat, 0);
}

proof fn lemma_parts_make_an_object(a: Seq<char>, b: Seq<char>, c: Seq<char>, d: Seq<char>)
    ensures
        (seq!['{'] + a) + (seq![','] + b) + (seq![','] + c) + (seq![','] + d + "}\n"@) == seq!['{']
            + (a + seq![','] + b + seq![','] + c + seq![','] + d) + seq!['}'] + seq!['\n'],
{
    reveal_strlit("}\n");
    assert("}\n"@ =~= seq!['}'] + seq!['\n']);
    assert((seq!['{'] + a) + (seq![','] + b) + (seq![','] + c) + (seq![','] + d + "}\n"@)
        =~= seq!['{'] + (a + seq![','] + b + seq![','] + c + seq![','] + d) + seq!['}']
        + seq!['\n']);
}

proof fn lemma_values_add(a: Seq<(Seq<char>, Seq<char>)>, b: Seq<(Seq<char>, Seq<char>)>)
    requires
        json::of_values(a),
        json::of_values(b),
    ensures
        json::of_values(a + b),
{
    assert forall|i: int| 0 <= i < (a + b).len() implies json::safe((#[trigger] (a + b)[i]).0)
        && json::is_value((a + b)[i].1) by {
        if i < a.len() {
            assert((a + b)[i] == a[i]);
        } else {
            assert((a + b)[i] == b[i - a.len()]);
        }
    }
}

/// A record is one line that holds one JSON object: the members that
/// [`fields`] lists, each of them a number, a string, a truth value or an object
/// of these, and a line break at the very end and nowhere else. The text it is
/// given must be such as needs no escapes.
pub proof fn a_record_is_one_json_line(s: ClipStats, ts: Seq<char>)
    requires
        json::safe(ts),
        json::safe(s.file@),
        json::safe(s.container@),
        json::safe(s.codec@),
        json::safe(s.profile@),
        json::safe(s.pix_fmt@),
    ensures
        clip_stats::record_text(s, ts) == json::object(fields(s, ts)) + seq!['\n'],
        json::of_values(fields(s, ts)),
        json::printable(json::object(fields(s, ts))),
{
    lemma_identity_is_members(s, ts);
    lemma_stream_is_members(s);
    lemma_layout_is_members(s);
    lemma_cost_is_members(s);
    let a = identity_fields(s, ts);
    let b = a + stream_fields(s);
    let c = b + layout_fields(s);
    json::lemma_joined_add(a, stream_fields(s));
    json::lemma_joined_add(b, layout_fields(s));
    json::lemma_joined_add(c, cost_fields(s));
    lemma_parts_make_an_object(
        json::joined(a),
        json::joined(stream_fields(s)),
        json::joined(layout_fields(s)),
        json::joined(cost_fields(s)),
    );
    lemma_identity_are_values(s, ts);
    lemma_stream_are_values(s);
    lemma_layout_are_values(s);
    lemma_cost_are_values(s);
    lemma_values_add(a, stream_fields(s));
    lemma_values_add(b, layout_fields(s));
    lemma_values_add(c, cost_fields(s));
    json::lemma_an_object_is_printable(fields(s, ts));
}

/// Each figure of a record stands under its own key, in this order, with as many
/// digits as it is given to.
pub proof fn a_record_names_each_figure(s: ClipStats, ts: Seq<char>)
    ensures
        fields(s, ts) == seq![
            ("ts"@, json::string(ts)),
            ("file"@, json::string(s.file@)),
            ("size_mb"@, text::fixed(s.size_bytes as nat, 1_000_000, 1)),
            ("container"@, json::string(s.container@)),
            ("codec"@, json::string(s.codec@)),
            ("profile"@, json::string(s.profile@)),
            ("level"@, text::signed(s.level as int)),
            ("w"@, text::decimal(s.width as nat)),
            ("h"@, text::decimal(s.height as nat)),
            ("pix_fmt"@, json::string(s.pix_fmt@)),
            ("fps"@, text::signed_fixed(s.fps.num as int, s.fps.den as nat, 3)),
            ("dur_s"@, text::signed_fixed(s.duration_ns as int, 1_000_000_000, 3)),
            ("mbit_s"@, text::signed_fixed(s.video_mbit_s.num as int, s.video_mbit_s.den as nat, 1)),
            (
                "has_b"@,
                if s.has_b_frames {
                    "true"@
                } else {
                    "false"@
                },
            ),
            ("packets"@, text::decimal(s.packets as nat)),
            ("keyframes"@, text::decimal(s.keyframes as nat)),
            (
                "gop_frames"@,
                json::object(
                    seq![
                        ("min"@, s.gop_frames_min.decimal(0)),
                        ("mean"@, s.gop_frames_mean.decimal(1)),
                        ("max"@, s.gop_frames_max.decimal(0)),
                    ],
                ),
            ),
            (
                "gop_s"@,
                json::object(
                    seq![
                        ("min"@, s.gop_s_min.decimal(3)),
                        ("mean"@, s.gop_s_mean.decimal(3)),
                        ("max"@, s.gop_s_max.decimal(3)),
                    ],
                ),
            ),
            ("key_share_pct"@, s.key_share_pct.decimal(1)),
            (
                "hw"@,
                json::string(
                    if s.hw_decode {
                        "GPU"@
                    } else {
                        "CPU"@
                    },
                ),
            ),
            ("grid_ms"@, text::fixed(s.grid_ns as nat, 1_000_000, 0)),
            ("open_ms"@, text::fixed(s.open_ns as nat, 1_000_000, 0)),
            ("setup_ms"@, text::fixed(s.setup_ns as nat, 1_000_000, 0)),
            ("scan_ms"@, text::fixed(s.scan_ns as nat, 1_000_000, 0)),
            ("decode_ms"@, text::fixed(s.decode_ns as nat, 1_000_000, 0)),
            ("convert_ms"@, text::fixed(s.convert_ns as nat, 1_000_000, 0)),
            ("scan_mb_s"@, s.scan_mb_s.decimal(0)),
        ],
{
}

/// A fraction of a record says the nearest number with its digits, behind a minus
/// sign where it is below zero.
pub proof fn a_ratio_says_the_nearest(r: clip_stats::Ratio, places: nat)
    requires
        r.valid(),
    ensures
        r.num >= 0 ==> text::says(
            r.decimal(places),
            text::nearest(r.num as nat * text::pow10(places), r.den as nat),
            places,
        ),
        r.num < 0 ==> r.decimal(places)[0] == '-' && text::says(
            r.decimal(places).skip(1),
            text::nearest((-r.num) as nat * text::pow10(places), r.den as nat),
            places,
        ),
{
    if r.num >= 0 {
        text::a_fraction_says_the_nearest(r.num as nat, r.den as nat, places);
    } else {
        let f = text::fixed((-r.num) as nat, r.den as nat, places);
        text::a_fraction_says_the_nearest((-r.num) as nat, r.den as nat, places);
        assert(r.decimal(places).skip(1) =~= f);
    }
}

} // verus!
