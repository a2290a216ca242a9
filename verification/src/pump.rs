//! Pulling frames out of a decoder: when to read another packet, when to tell
//! the decoder that there are no more, and when the stream is drained.

use vstd::prelude::*;

verus! {

/// What asking the decoder for a frame gave.
#[derive(Clone, Copy, Debug, PartialEq, Eq, Structural)]
pub enum Received {
    /// A frame.
    Frame,
    /// Nothing yet: the decoder wants more packets.
    Again,
    /// Nothing any more: the decoder has been drained.
    Eof,
    /// The decoder failed.
    Failed,
}

/// What to do next on the way to a frame.
#[derive(Clone, Copy, Debug, PartialEq, Eq, Structural)]
pub enum PumpStep {
    /// Ask the decoder for a frame.
    Receive,
    /// Tell the decoder that no more packets will come, then ask it again.
    SendEof,
    /// Read the stream's next packet and hand it to the decoder.
    ReadPacket,
    /// The decoder has given a frame.
    Frame,
    /// The stream is fully drained.
    Drained,
    /// Decoding failed.
    Failed,
}

/// End-of-stream bookkeeping between frames. It starts over after a seek.
#[derive(Clone, Copy, Debug, PartialEq, Eq, Structural)]
pub struct Pump {
    /// The demuxer has no more packets of the stream.
    pub demux_eof: bool,
    /// The decoder has been told so.
    pub eof_sent: bool,
}

/// What follows from what the decoder gave.
pub open spec fn pumped(p: Pump, r: Received) -> (Pump, PumpStep) {
    match r {
        Received::Frame => (p, PumpStep::Frame),
        Received::Eof => (p, PumpStep::Drained),
        Received::Failed => (p, PumpStep::Failed),
        Received::Again => if !p.demux_eof {
            (p, PumpStep::ReadPacket)
        } else if !p.eof_sent {
            (Pump { eof_sent: true, ..p }, PumpStep::SendEof)
        } else {
            (p, PumpStep::Drained)
        },
    }
}

/// The bookkeeping once the demuxer was read: `found` says whether it had a
/// packet of the stream left.
pub open spec fn after_read(p: Pump, found: bool) -> Pump {
    Pump { demux_eof: p.demux_eof || !found, ..p }
}

impl Pump {
    /// The bookkeeping at the start of a stream and after every seek.
    pub fn new() -> (p: Pump)
        ensures
            p == (Pump { demux_eof: false, eof_sent: false }),
    {
        Pump { demux_eof: false, eof_sent: false }
    }

    /// Take what the decoder gave and say what to do next.
    pub fn received(&mut self, r: Received) -> (step: PumpStep)
        ensures
            (*final(self), step) == pumped(*old(self), r),
    {
        match r {
            Received::Frame => PumpStep::Frame,
            Received::Eof => PumpStep::Drained,
            Received::Failed => PumpStep::Failed,
            Received::Again => {
                if !self.demux_eof {
                    PumpStep::ReadPacket
                } else if !self.eof_sent {
                    self.eof_sent = true;
                    PumpStep::SendEof
                } else {
                    PumpStep::Drained
                }
            },
        }
    }

    /// Take the outcome of reading a packet; the decoder is asked again next.
    pub fn packet(&mut self, found: bool) -> (step: PumpStep)
        ensures
            *final(self) == after_read(*old(self), found),
            step == PumpStep::Receive,
    {
        if !found {
            self.demux_eof = true;
        }
        PumpStep::Receive
    }
}

/// A decoder that has nothing left never keeps the pump busy: once the packets
/// have run out it is told so once, and the next time it has nothing to give the
/// stream counts as drained.
pub proof fn an_empty_decoder_is_drained(p: Pump)
    ensures
        ({
            let (q, first) = pumped(after_read(p, false), Received::Again);
            let (r, second) = pumped(q, Received::Again);
            &&& !p.eof_sent ==> first == PumpStep::SendEof && second == PumpStep::Drained
            &&& p.eof_sent ==> first == PumpStep::Drained
            &&& r.demux_eof && r.eof_sent
        }),
{
}

/// Each answer of the decoder is followed up: a frame is handed on, a failure and
/// a drained stream are reported, and a decoder that wants more gets a packet for
/// as long as the demuxer may have one.
pub proof fn each_answer_is_followed_up(p: Pump)
    ensures
        pumped(p, Received::Frame) == (p, PumpStep::Frame),
        pumped(p, Received::Eof) == (p, PumpStep::Drained),
        pumped(p, Received::Failed) == (p, PumpStep::Failed),
        !p.demux_eof ==> pumped(p, Received::Again) == (p, PumpStep::ReadPacket),
        pumped(p, Received::Again).1 == PumpStep::SendEof <==> p.demux_eof && !p.eof_sent,
        pumped(p, Received::Again).0.eof_sent <==> p.eof_sent || p.demux_eof,
        pumped(p, Received::Again).0.demux_eof == p.demux_eof,
        after_read(p, true) == p,
        after_read(p, false).demux_eof,
        after_read(p, false).eof_sent == p.eof_sent,
{
}

} // verus!
