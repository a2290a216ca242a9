//! Saving the frame at a media time as a still image: finding the frame, taking
//! its visible pixels, and encoding them.

use vstd::prelude::*;

use crate::clock;
use crate::pump;
use crate::pump::{Pump, PumpStep, Received};
use crate::session;
use crate::session::StreamShape;
use crate::scrub_cache;
use crate::sizing;

verus! {

/// Chroma sampling factors a still is encoded with. Pinned rather than left to
/// the encoder, which halves the chroma at lower qualities: a still is kept for
/// its detail.
pub const STILL_SAMPLING_H: u8 = 1;

/// See [`STILL_SAMPLING_H`].
pub const STILL_SAMPLING_V: u8 = 1;

/// What to do next on the way to the still's frame.
#[derive(Clone, Copy, Debug, PartialEq, Eq, Structural)]
pub enum StillStep {
    /// Ask the decoder for a frame, keeping the newest one it has given.
    Receive,
    /// Tell the decoder that no more packets will come, then ask it again.
    SendEof,
    /// Hand the stream's next packet to the decoder.
    ReadPacket,
    /// The newest frame the decoder has given is the one to save.
    Use,
    /// The stream holds no frame at or after the keyframe sought.
    NoFrame,
    /// Decoding failed.
    Failed,
}

/// The search for the frame at one media time.
#[derive(Clone, Copy, Debug, PartialEq, Eq, Structural)]
pub struct StillSearch {
    pub shape: StreamShape,
    pub target_ns: i64,
    pub pump: Pump,
    /// Frames decoded so far.
    pub decoded: u32,
}

/// What follows when nothing more can be decoded: the newest frame serves for a
/// target past the end.
pub open spec fn at_the_end(s: StillSearch) -> StillStep {
    if s.decoded > 0 {
        StillStep::Use
    } else {
        StillStep::NoFrame
    }
}

/// What follows when the decoder gave no frame.
pub open spec fn searched(s: StillSearch, r: Received) -> (StillSearch, StillStep) {
    let (pump, step) = pump::pumped(s.pump, r);
    let t = StillSearch { pump, ..s };
    (
        t,
        match step {
            PumpStep::SendEof => StillStep::SendEof,
            PumpStep::ReadPacket => StillStep::ReadPacket,
            PumpStep::Drained => at_the_end(t),
            PumpStep::Failed => StillStep::Failed,
            _ => StillStep::Receive,
        },
    )
}

/// What follows when the decoder gave a frame of media time `t`: the first that
/// counts as being at the target is the one.
pub open spec fn found(s: StillSearch, t: int) -> (StillSearch, StillStep) {
    (
        StillSearch {
            decoded: if s.decoded < u32::MAX {
                (s.decoded + 1) as u32
            } else {
                s.decoded
            },
            ..s
        },
        if session::short_of(t, s.target_ns as int) {
            StillStep::Receive
        } else {
            StillStep::Use
        },
    )
}

impl StillSearch {
    /// Begin a search. The microseconds say where to seek before decoding.
    pub fn new(shape: StreamShape, target_ns: i64) -> (r: (StillSearch, i64))
        requires
            shape.valid(),
        ensures
            r.0 == (StillSearch {
                shape,
                target_ns,
                pump: Pump { demux_eof: false, eof_sent: false },
                decoded: 0,
            }),
            r.1 == clock::seek_us(
                target_ns as int,
                clock::saturated(
                    clock::ticks_ns(clock::origin(shape.start) as int, shape.time_base),
                ),
            ),
    {
        let us: i64 = clock::seek_target_us(
            target_ns,
            clock::start_ns(shape.start, shape.time_base),
        );
        (StillSearch { shape, target_ns, pump: Pump::new(), decoded: 0 }, us)
    }

    /// The decoder gave a frame with these timestamps.
    pub fn frame(&mut self, pts: Option<i64>, best_effort: Option<i64>) -> (step: StillStep)
        requires
            old(self).shape.valid(),
        ensures
            (*final(self), step) == found(
                *old(self),
                session::time_of(old(self).shape, pts, best_effort) as int,
            ),
    {
        let t: i64 = clock::frame_time(
            clock::frame_pts(pts, best_effort),
            self.shape.start,
            self.shape.time_base,
        );
        if self.decoded < u32::MAX {
            self.decoded = self.decoded + 1;
        }
        if (t as i128) + (clock::FRAME_EPS_NS as i128) < self.target_ns as i128 {
            StillStep::Receive
        } else {
            StillStep::Use
        }
    }

    /// The decoder gave no frame.
    pub fn no_frame(&mut self, r: Received) -> (step: StillStep)
        requires
            r != Received::Frame,
        ensures
            (*final(self), step) == searched(*old(self), r),
    {
        match self.pump.received(r) {
            PumpStep::SendEof => StillStep::SendEof,
            PumpStep::ReadPacket => StillStep::ReadPacket,
            PumpStep::Drained => if self.decoded > 0 {
                StillStep::Use
            } else {
                StillStep::NoFrame
            },
            PumpStep::Failed => StillStep::Failed,
            PumpStep::Receive | PumpStep::Frame => StillStep::Receive,
        }
    }

    /// The demuxer was read; `found` says whether it had a packet left.
    pub fn packet(&mut self, found: bool) -> (step: StillStep)
        ensures
            *final(self) == (StillSearch {
                pump: pump::after_read(old(self).pump, found),
                ..*old(self)
            }),
            step == StillStep::Receive,
    {
        let _ = self.pump.packet(found);
        StillStep::Receive
    }
}

/// The search once the first `n` of these frames have been decoded.
pub open spec fn after_frames(s: StillSearch, times: Seq<int>, n: nat) -> StillSearch
    decreases n,
{
    if n == 0 {
        s
    } else {
        found(after_frames(s, times, (n - 1) as nat), times[n - 1]).0
    }
}

/// A still is the very frame a scrub to the same time shows: of the frames
/// decoded from the keyframe on, the search stops at the one a precise move
/// lands on, and at no earlier one.
pub proof fn a_still_is_the_frame_a_scrub_lands_on(s: StillSearch, times: Seq<int>, k: int)
    requires
        scrub_cache::decode_lands_on(times, s.target_ns as int, k),
    ensures
        found(after_frames(s, times, k as nat), times[k]).1 == StillStep::Use,
        forall|i: int|
            0 <= i < k ==> (#[trigger] found(after_frames(s, times, i as nat), times[i])).1
                == StillStep::Receive,
{
    assert forall|i: int| 0 <= i <= k implies (#[trigger] after_frames(
        s,
        times,
        i as nat,
    )).target_ns == s.target_ns by {
        lemma_target_stays(s, times, i as nat);
    }
    assert(after_frames(s, times, k as nat).target_ns == s.target_ns);
    assert forall|i: int| 0 <= i < k implies (#[trigger] found(
        after_frames(s, times, i as nat),
        times[i],
    )).1 == StillStep::Receive by {
        assert(after_frames(s, times, i as nat).target_ns == s.target_ns);
        assert(times[i] < scrub_cache::landing_bound(s.target_ns as int));
    }
}

proof fn lemma_target_stays(s: StillSearch, times: Seq<int>, n: nat)
    ensures
        after_frames(s, times, n).target_ns == s.target_ns,
    decreases n,
{
    if n > 0 {
        lemma_target_stays(s, times, (n - 1) as nat);
    }
}

/// Why a still could not be encoded.
#[derive(Clone, Copy, Debug, PartialEq, Eq, Structural)]
pub enum StillError {
    /// The image is wider than the format can say.
    TooWide(u32),
    /// The image is taller than the format can say.
    TooTall(u32),
    /// The image has no extent.
    Empty,
    /// There are fewer pixels than the image needs.
    TooFewPixels(usize),
}

/// An error of the JPEG encoder.
#[verifier::external_type_specification]
#[verifier::external_body]
pub struct ExEncodingError(jpeg_encoder::EncodingError);

/// Whether `data` holds an RGB image of this size, and the image has an extent.
pub open spec fn enough_pixels(data: Seq<u8>, width: u16, height: u16) -> bool {
    data.len() >= width * height * 3 && width > 0 && height > 0
}

/// Whether `file` runs from the marker a JPEG file starts with to the one it
/// ends with.
pub open spec fn framed_as_jpeg(file: Seq<u8>) -> bool {
    &&& file.len() >= 4
    &&& file[0] == 0xff
    &&& file[1] == 0xd8
    &&& file[file.len() - 2] == 0xff
    &&& file[file.len() - 1] == 0xd9
}

/// The JPEG file of an RGB image at a quality, with the given chroma sampling
/// factors, as the encoder writes it.
pub uninterp spec fn jpeg_bytes(
    data: Seq<u8>,
    width: u16,
    height: u16,
    quality: u8,
    sampling_h: u8,
    sampling_v: u8,
) -> Seq<u8>;

/// `jpeg_encoder::Encoder::encode` into memory, with the encoder made by
/// `Encoder::new` and its `set_sampling_factor` called first.
///
/// It fails exactly when the image is short of pixels or has no extent; what it
/// writes depends on its arguments alone and is a JPEG stream from its first
/// marker (start of image) to its last (end of image).
#[verifier::external_body]
fn encode_rgb(
    data: &[u8],
    width: u16,
    height: u16,
    quality: u8,
    sampling_h: u8,
    sampling_v: u8,
) -> (file: Result<Vec<u8>, jpeg_encoder::EncodingError>)
    requires
        width * height * 3 <= usize::MAX,
        sampling_h == 1,
        sampling_v == 1,
    ensures
        match file {
            Ok(f) => enough_pixels(data@, width, height) && f@ == jpeg_bytes(
                data@,
                width,
                height,
                quality,
                sampling_h,
                sampling_v,
            ) && framed_as_jpeg(f@),
            Err(_) => !enough_pixels(data@, width, height),
        },
{
    let mut out: Vec<u8> = Vec::new();
    let mut encoder = jpeg_encoder::Encoder::new(&mut out, quality);
    if let Some(f) = jpeg_encoder::SamplingFactor::from_factors(sampling_h, sampling_v) {
        encoder.set_sampling_factor(f);
    }
    encoder.encode(data, width, height, jpeg_encoder::ColorType::Rgb)?;
    Ok(out)
}

/// What encoding a `w` by `h` image of these pixels gives.
pub open spec fn encoded(data: Seq<u8>, w: u32, h: u32, quality: u8) -> Result<
    Seq<u8>,
    StillError,
> {
    if w > u16::MAX {
        Err(StillError::TooWide(w))
    } else if h > u16::MAX {
        Err(StillError::TooTall(h))
    } else if data.len() < w * h * 3 {
        Err(StillError::TooFewPixels(data.len() as usize))
    } else if w == 0 || h == 0 {
        Err(StillError::Empty)
    } else {
        Ok(
            jpeg_bytes(
                data,
                w as u16,
                h as u16,
                quality,
                STILL_SAMPLING_H,
                STILL_SAMPLING_V,
            ),
        )
    }
}

/// Whether a result holds what is said of it.
pub open spec fn file_is(file: Result<Vec<u8>, StillError>, what: Result<Seq<u8>, StillError>) -> bool {
    match file {
        Ok(bytes) => what == Ok::<Seq<u8>, StillError>(bytes@),
        Err(e) => what == Err::<Seq<u8>, StillError>(e),
    }
}

/// Encode tightly packed RGB pixels as a JPEG file at `quality`.
pub fn encode_still(rgb: &Vec<u8>, w: u32, h: u32, quality: u8) -> (file: Result<
    Vec<u8>,
    StillError,
>)
    requires
        w <= u16::MAX && h <= u16::MAX ==> w * h * 3 <= usize::MAX,
    ensures
        file_is(file, encoded(rgb@, w, h, quality)),
        file is Ok ==> framed_as_jpeg(file->Ok_0@),
{
    if w > u16::MAX as u32 {
        return Err(StillError::TooWide(w));
    }
    if h > u16::MAX as u32 {
        return Err(StillError::TooTall(h));
    }
    match encode_rgb(
        rgb.as_slice(),
        w as u16,
        h as u16,
        quality,
        STILL_SAMPLING_H,
        STILL_SAMPLING_V,
    ) {
        Ok(bytes) => Ok(bytes),
        Err(_) => {
            if w == 0 || h == 0 {
                assert(w * h * 3 == 0) by (nonlinear_arith)
                    requires
                        w == 0 || h == 0,
                ;
                Err(StillError::Empty)
            } else {
                Err(StillError::TooFewPixels(rgb.len()))
            }
        },
    }
}

/// Encode a scaled RGB image whose rows are padded to `stride` bytes: its
/// visible pixels, at full resolution.
pub fn still_jpeg(data: &[u8], stride: usize, w: u32, h: u32, quality: u8) -> (file: Result<
    Vec<u8>,
    StillError,
>)
    requires
        w * 3 <= usize::MAX,
        h <= usize::MAX,
        w <= u16::MAX && h <= u16::MAX ==> w * h * 3 <= usize::MAX,
        sizing::holds_rows(data@, stride as int, w * 3, h as int),
    ensures
        file_is(
            file,
            encoded(sizing::visible(data@, stride as int, w * 3, h as int), w, h, quality),
        ),
{
    let rgb: Vec<u8> = sizing::strip_rows(data, stride, w as usize * 3, h as usize);
    encode_still(&rgb, w, h, quality)
}

/// A padded image that holds all its rows and whose sides the format can say is
/// always encoded.
pub proof fn a_whole_frame_is_always_saved(
    data: Seq<u8>,
    stride: int,
    w: u32,
    h: u32,
    quality: u8,
)
    requires
        0 < w <= u16::MAX,
        0 < h <= u16::MAX,
        0 <= stride,
        sizing::holds_rows(data, stride, w * 3, h as int),
    ensures
        encoded(sizing::visible(data, stride, w * 3, h as int), w, h, quality) is Ok,
{
    sizing::stripping_keeps_every_visible_byte(data, stride, w * 3, h as int, 0, 0);
    assert(h * (w * 3) == w * h * 3) by (nonlinear_arith);
}

/// The search takes the first frame that is not a millisecond or more short of
/// its target, and goes on past every other, counting them all.
pub proof fn the_search_takes_the_first_frame_at_its_target(s: StillSearch, t: int)
    ensures
        found(s, t).1 == StillStep::Use <==> t >= s.target_ns - 1_000_000,
        found(s, t).1 != StillStep::Use ==> found(s, t).1 == StillStep::Receive,
        s.decoded < u32::MAX ==> found(s, t).0.decoded == s.decoded + 1,
        found(s, t).0 == (StillSearch { decoded: found(s, t).0.decoded, ..s }),
{
}

/// Where there are no more frames the newest one serves, if there was any; a
/// decoder that wants more gets a packet while there may be one, and is then told
/// once that there are none; a failure ends the search.
pub proof fn the_search_goes_on_to_the_end_of_the_stream(s: StillSearch)
    ensures
        searched(s, Received::Failed).1 == StillStep::Failed,
        s.decoded > 0 ==> searched(s, Received::Eof).1 == StillStep::Use,
        s.decoded == 0 ==> searched(s, Received::Eof).1 == StillStep::NoFrame,
        !s.pump.demux_eof ==> searched(s, Received::Again) == (s, StillStep::ReadPacket),
        s.pump.demux_eof && !s.pump.eof_sent ==> searched(s, Received::Again).1
            == StillStep::SendEof,
        s.pump.demux_eof && s.pump.eof_sent ==> searched(s, Received::Again).1 == searched(
            s,
            Received::Eof,
        ).1,
        searched(s, Received::Again).0.pump.eof_sent <==> s.pump.eof_sent || s.pump.demux_eof,
        ({
            let a = searched(s, Received::Again).0;
            (a.shape, a.target_ns, a.decoded) == (s.shape, s.target_ns, s.decoded)
        }),
{
}

/// An image is saved exactly when the format can say its sides and it has all its
/// pixels, and then with its chroma at full resolution; what is wrong with any
/// other is told.
pub proof fn an_image_is_saved_or_its_fault_told(data: Seq<u8>, w: u32, h: u32, quality: u8)
    ensures
        encoded(data, w, h, quality) is Ok <==> 0 < w <= 65_535 && 0 < h <= 65_535 && data.len() >= w
            * h * 3,
        encoded(data, w, h, quality) is Ok ==> encoded(data, w, h, quality)->Ok_0 == jpeg_bytes(
            data,
            w as u16,
            h as u16,
            quality,
            1,
            1,
        ),
        w > 65_535 ==> encoded(data, w, h, quality) == Err::<Seq<u8>, StillError>(
            StillError::TooWide(w),
        ),
        w <= 65_535 && h > 65_535 ==> encoded(data, w, h, quality) == Err::<Seq<u8>, StillError>(
            StillError::TooTall(h),
        ),
        (w == 0 && h <= 65_535) || (h == 0 && w <= 65_535) ==> encoded(data, w, h, quality) == Err::<
            Seq<u8>,
            StillError,
        >(StillError::Empty),
        0 < w <= 65_535 && 0 < h <= 65_535 && data.len() < w * h * 3 ==> encoded(
            data,
            w,
            h,
            quality,
        ) is Err && encoded(data, w, h, quality)->Err_0 is TooFewPixels,
{
    if w == 0 || h == 0 {
        assert(w * h * 3 == 0) by (nonlinear_arith)
            requires
                w == 0 || h == 0,
        ;
    }
}

/// A result holds a file when that is what encoding gives, to the byte, and a
/// fault when that is what it gives.
pub proof fn a_result_is_the_file_or_the_fault(
    bytes: Vec<u8>,
    e: StillError,
    what: Result<Seq<u8>, StillError>,
)
    ensures
        file_is(Ok(bytes), what) <==> what is Ok && what->Ok_0 == bytes@,
        file_is(Err(e), what) <==> what is Err && what->Err_0 == e,
{
}

} // verus!
