//! Whether a machine keeps real time with the frames it plays.

use vstd::prelude::*;

verus! {

/// Frames a stretch must cover before it is reported. A verdict drawn from two
/// frames is noise: the first frames after a start or a rescale carry one-time
/// costs a steady stretch does not.
pub const PACE_MIN_FRAMES: u32 = 10;

/// Frames after which a stretch is reported without waiting for it to end.
pub const PACE_FLUSH_FRAMES: u32 = 100;

/// Frames that missed their slot at one output box.
#[derive(Clone, Copy, Debug, PartialEq, Eq, Structural)]
pub struct PaceReport {
    pub out_w: u32,
    pub out_h: u32,
    pub frames: u32,
    pub late: u32,
    pub worst_ns: u64,
}

/// The stretch that begins where `p` ends.
pub open spec fn restarted(p: PaceReport) -> PaceReport {
    PaceReport { frames: 0, late: 0, worst_ns: 0, ..p }
}

/// What closing the stretch `p` reports: all of it, or nothing if it is short.
pub open spec fn closing(p: PaceReport) -> Option<PaceReport> {
    if p.frames >= PACE_MIN_FRAMES {
        Some(p)
    } else {
        None
    }
}

/// The stretch once another frame has been shown: a long one is closed.
pub open spec fn counted(p: PaceReport) -> (PaceReport, Option<PaceReport>) {
    let q = PaceReport { frames: (p.frames + 1) as u32, ..p };
    if q.frames >= PACE_FLUSH_FRAMES {
        (restarted(q), closing(q))
    } else {
        (q, None)
    }
}

/// The stretch once a frame has missed its slot by `behind` nanoseconds.
pub open spec fn missed(p: PaceReport, behind: u64) -> PaceReport {
    PaceReport {
        late: (p.late + 1) as u32,
        worst_ns: if behind > p.worst_ns {
            behind
        } else {
            p.worst_ns
        },
        ..p
    }
}

/// The stretch at a new output box, and what closing the old one reports.
pub open spec fn reboxed(p: PaceReport, w: u32, h: u32) -> (PaceReport, Option<PaceReport>) {
    (PaceReport { out_w: w, out_h: h, ..restarted(p) }, closing(p))
}

impl PaceReport {
    /// A stretch still short of being closed on its own, in which no more frames
    /// were late than were counted, but for the one on its way out.
    pub open spec fn wf(self, under_way: bool) -> bool {
        &&& self.frames < PACE_FLUSH_FRAMES
        &&& self.late <= self.frames + if under_way {
            1int
        } else {
            0
        }
    }

    /// The report of a player that has shown nothing.
    pub fn new() -> (p: PaceReport)
        ensures
            p == (PaceReport { out_w: 0, out_h: 0, frames: 0, late: 0, worst_ns: 0 }),
            p.wf(false),
    {
        PaceReport { out_w: 0, out_h: 0, frames: 0, late: 0, worst_ns: 0 }
    }

    /// Report the stretch just played and start a new one. Silent on a stretch
    /// too short to say anything.
    pub fn flush(&mut self) -> (report: Option<PaceReport>)
        ensures
            *final(self) == restarted(*old(self)),
            report == closing(*old(self)),
    {
        let report = if self.frames >= PACE_MIN_FRAMES {
            Some(*self)
        } else {
            None
        };
        self.frames = 0;
        self.late = 0;
        self.worst_ns = 0;
        report
    }

    /// Count a frame on its way out, closing a long stretch.
    pub fn count(&mut self) -> (report: Option<PaceReport>)
        requires
            old(self).wf(true),
        ensures
            (*final(self), report) == counted(*old(self)),
            final(self).wf(false),
    {
        self.frames = self.frames + 1;
        if self.frames >= PACE_FLUSH_FRAMES {
            self.flush()
        } else {
            None
        }
    }

    /// Note that the frame on its way out missed its slot by `behind`.
    pub fn miss(&mut self, behind: u64)
        requires
            old(self).wf(false),
        ensures
            *final(self) == missed(*old(self), behind),
            final(self).wf(true),
    {
        self.late = self.late + 1;
        if behind > self.worst_ns {
            self.worst_ns = behind;
        }
    }

    /// Move on to another output box, so the two stretches are comparable
    /// rather than averaged together.
    pub fn rebox(&mut self, w: u32, h: u32) -> (report: Option<PaceReport>)
        ensures
            (*final(self), report) == reboxed(*old(self), w, h),
            final(self).wf(false),
    {
        let report = self.flush();
        self.out_w = w;
        self.out_h = h;
        report
    }
}

/// A stretch loses no frame: counting one more adds it to the stretch, and a
/// stretch is reported whole when it has come to a hundred frames, never before.
pub proof fn a_stretch_counts_every_frame(p: PaceReport)
    requires
        p.frames < 100,
    ensures
        ({
            let (q, report) = counted(p);
            &&& (q.out_w, q.out_h) == (p.out_w, p.out_h)
            &&& report is Some <==> p.frames == 99
            &&& report is None ==> q.frames == p.frames + 1 && q.late == p.late && q.worst_ns
                == p.worst_ns
            &&& report is Some ==> report->0.frames == p.frames + 1 && report->0.late == p.late
                && report->0.worst_ns == p.worst_ns && (report->0.out_w, report->0.out_h) == (
                p.out_w,
                p.out_h,
            )
            &&& report is Some ==> q.frames == 0 && q.late == 0 && q.worst_ns == 0
        }),
{
}

/// A late frame is counted, and the worst delay of a stretch is the greatest of
/// all in it.
pub proof fn the_worst_delay_is_the_greatest(p: PaceReport, a: u64, b: u64)
    requires
        p.late < 100,
    ensures
        missed(p, a).late == p.late + 1,
        missed(p, a).frames == p.frames,
        (missed(p, a).out_w, missed(p, a).out_h) == (p.out_w, p.out_h),
        missed(p, a).worst_ns >= a,
        missed(p, a).worst_ns >= p.worst_ns,
        missed(p, a).worst_ns == a || missed(p, a).worst_ns == p.worst_ns,
        missed(missed(p, a), b).worst_ns == missed(missed(p, b), a).worst_ns,
{
}

/// A new output box starts a stretch of its own; the old one is reported as it
/// stood, if it covers ten frames.
pub proof fn a_new_box_starts_a_stretch_of_its_own(p: PaceReport, w: u32, h: u32)
    ensures
        reboxed(p, w, h).0 == (PaceReport {
            out_w: w,
            out_h: h,
            frames: 0,
            late: 0,
            worst_ns: 0,
        }),
        p.frames >= 10 ==> reboxed(p, w, h).1 == Some(p) && closing(p) == Some(p),
        p.frames < 10 ==> reboxed(p, w, h).1 is None && closing(p) is None,
        (restarted(p).frames, restarted(p).late, restarted(p).worst_ns) == (0u32, 0u32, 0u64),
        (restarted(p).out_w, restarted(p).out_h) == (p.out_w, p.out_h),
{
}

} // verus!
