//! The encode pipeline: what happens to each frame that the camera hands
//! over. Every frame goes to the local preview. While broadcasting, every
//! frame is also encoded, with a keyframe forced at a fixed cadence, and the
//! encoder's bitstream is cut into NAL units that can be sent one by one.
//!
//! Capturing frames and sending chunks is left to the caller: the pipeline
//! is a step from one captured frame to the chunks to send for it.

use vstd::prelude::*;

use crate::video::codec::{annex_b_units, encode_rgb, force_intra_frame, nal_units, new_encoder};
use crate::video::encoding::{has_short_start_code, unit_views};
use crate::video::error::Error;
use crate::video::handler::{holds_picture, picture_bytes};

verus! {

/// Frames between two forced keyframes, unless told otherwise.
pub const DEFAULT_KEYFRAME_INTERVAL: u32 = 30;

/// Milliseconds from the start of one capture to the start of the next,
/// unless told otherwise.
pub const DEFAULT_FRAME_INTERVAL_MS: u64 = 50;

/// How long to wait before the next capture: what is left of the frame
/// interval once capturing and encoding are done. A frame that took longer
/// than the interval is followed at once; no frame is skipped to catch up.
pub fn pacing_delay(elapsed_ms: u64, interval_ms: u64) -> (wait_ms: u64)
    ensures
        elapsed_ms < interval_ms ==> wait_ms == interval_ms - elapsed_ms,
        elapsed_ms >= interval_ms ==> wait_ms == 0,
{
    if elapsed_ms < interval_ms {
        interval_ms - elapsed_ms
    } else {
        0
    }
}

/// Where the frame with the given number falls in the keyframe cadence:
/// frames are counted from zero, and a position of zero means a keyframe.
pub open spec fn cadence_position(frame: nat, interval: u32) -> int {
    frame as int % interval as int
}

/// The cadence of forced keyframes: of every `interval` frames handed to
/// the encoder, the first is forced to be a keyframe.
#[derive(Clone, Copy, Debug, PartialEq, Eq, Structural)]
pub struct KeyframeSchedule {
    interval: u32,
    position: u32,
}

impl KeyframeSchedule {
    /// Frames from one forced keyframe to the next.
    pub closed spec fn interval(&self) -> u32 {
        self.interval
    }

    /// Frames handed to the encoder since the last forced keyframe was
    /// due; zero means that the next frame is a keyframe.
    pub closed spec fn position(&self) -> u32 {
        self.position
    }

    /// The position stays below the interval.
    #[verifier::type_invariant]
    spec fn in_cadence(&self) -> bool {
        self.interval >= 1 && self.position < self.interval
    }

    /// A schedule that forces the first frame and then every
    /// `interval`-th. An interval of zero counts as one: every frame is a
    /// keyframe.
    pub fn new(interval: u32) -> (schedule: Self)
        ensures
            schedule.interval() == if interval == 0 {
                1
            } else {
                interval
            },
            schedule.position() == 0,
    {
        KeyframeSchedule {
            interval: if interval == 0 {
                1
            } else {
                interval
            },
            position: 0,
        }
    }

    /// Frames from one forced keyframe to the next.
    pub fn keyframe_interval(&self) -> (interval: u32)
        ensures
            interval == self.interval(),
            interval >= 1,
    {
        proof {
            use_type_invariant(self);
        }
        self.interval
    }

    /// Counts one frame handed to the encoder and says whether it must be
    /// a keyframe.
    pub fn advance(&mut self) -> (force_intra: bool)
        ensures
            force_intra == (old(self).position() == 0),
            final(self).interval() == old(self).interval(),
            final(self).position() == (old(self).position() + 1) % (old(self).interval() as int),
            final(self).position() < final(self).interval(),
    {
        proof {
            use_type_invariant(&*self);
        }
        let force_intra = self.position == 0;
        let next: u32 = if self.position == self.interval - 1 {
            0
        } else {
            self.position + 1
        };
        assert(next == (self.position + 1) % (self.interval as int)) by {
            if self.position == self.interval - 1 {
                assert((self.position + 1) % (self.interval as int) == 0) by (nonlinear_arith)
                    requires
                        self.position + 1 == self.interval,
                        self.interval >= 1,
                ;
            } else {
                vstd::arithmetic::div_mod::lemma_small_mod(
                    (self.position + 1) as nat,
                    self.interval as nat,
                );
            }
        }
        self.position = next;
        force_intra
    }
}

/// The position in the cadence follows the step that `advance` takes: it
/// begins at zero, one more frame moves it as `advance` moves the position
/// of a schedule, and it stays below the interval. So a schedule started
/// afresh stands at `cadence_position(k, interval)` after `k` frames, and
/// frame number `k` is forced to be a keyframe exactly if `k` is a multiple
/// of the interval.
pub proof fn lemma_cadence(frames: nat, interval: u32)
    requires
        interval >= 1,
    ensures
        0 <= cadence_position(frames, interval) < interval,
        cadence_position(0, interval) == 0,
        cadence_position(frames + 1, interval) == (cadence_position(frames, interval) + 1) % (
        interval as int),
        cadence_position(frames, interval) == 0 <==> frames as int % (interval as int) == 0,
{
    vstd::arithmetic::div_mod::lemma_mod_bound(frames as int, interval as int);
    vstd::arithmetic::div_mod::lemma_add_mod_noop(frames as int, 1, interval as int);
    vstd::arithmetic::div_mod::lemma_mod_twice(frames as int, interval as int);
    if interval == 1 {
        assert((frames + 1) as int % 1 == 0);
        assert((cadence_position(frames, interval) + 1) % 1 == 0);
    } else {
        vstd::arithmetic::div_mod::lemma_small_mod(1, interval as nat);
    }
}

/// What to do with one captured frame.
#[derive(Clone, Copy, Debug, PartialEq, Eq, Structural)]
pub enum FramePlan {
    /// Show the frame in the local preview and nothing more.
    PreviewOnly,
    /// Show the frame in the local preview and encode it for the peer,
    /// as a keyframe if `force_intra` is set.
    Encode { force_intra: bool },
}

/// Whether a camera resolution can be encoded: both sides even and not
/// zero, and a frame of three bytes per pixel fits in memory.
pub open spec fn is_encodable(width: usize, height: usize) -> bool {
    &&& width >= 1 && height >= 1
    &&& width % 2 == 0 && height % 2 == 0
    &&& width * height * 3 <= usize::MAX
}

/// Whether the bytes are a frame of the given resolution that the encoder
/// can take.
pub open spec fn is_frame(resolution: (usize, usize), rgb: Seq<u8>) -> bool {
    is_encodable(resolution.0, resolution.1) && rgb.len() == resolution.0 * resolution.1 * 3
}

/// What the pipeline answers for an outcome of the encoder and the units
/// that its bitstream splits into.
pub open spec fn chunks_answer(outcome: Result<Vec<u8>, String>, chunks: Result<
    Vec<Vec<u8>>,
    Error,
>) -> bool {
    match outcome {
        Ok(bitstream) => chunks matches Ok(units) && unit_views(units@) == annex_b_units(
            bitstream@,
        ),
        Err(message) => chunks == Err::<Vec<Vec<u8>>, Error>(Error::OpenH264 { message }),
    }
}

/// Cuts what the encoder answered into chunks: the NAL units of its
/// bitstream, each beginning with a start code, in stream order. A failure
/// of the encoder becomes `OpenH264` with the codec's text.
pub fn split_bitstream(outcome: Result<Vec<u8>, String>) -> (chunks: Result<Vec<Vec<u8>>, Error>)
    ensures
        chunks_answer(outcome, chunks),
        chunks matches Ok(units) ==> forall|i: int|
            0 <= i < units@.len() ==> has_short_start_code(#[trigger] units@[i]@),
{
    match outcome {
        Ok(bitstream) => Ok(nal_units(bitstream.as_slice())),
        Err(message) => Err(Error::OpenH264 { message }),
    }
}

/// The encode pipeline of one camera.
pub struct EncodePipeline {
    h264_encoder: openh264::encoder::Encoder,
    width: usize,
    height: usize,
    schedule: KeyframeSchedule,
    forced: Ghost<bool>,
}

impl EncodePipeline {
    /// Whether the encoder was told to make a keyframe of the frame that
    /// it was given last; `false` before the first.
    pub closed spec fn forced(&self) -> bool {
        self.forced@
    }

    /// Width and height of the frames that the pipeline takes.
    pub closed spec fn resolution(&self) -> (usize, usize) {
        (self.width, self.height)
    }

    /// The keyframe cadence and where the pipeline stands in it.
    pub closed spec fn schedule(&self) -> KeyframeSchedule {
        self.schedule
    }

    /// A pipeline for a camera of the given resolution that forces a
    /// keyframe every `keyframe_interval` frames.
    ///
    /// A resolution that cannot be encoded is refused with
    /// `CameraNotReady`; `OpenH264` means that the encoder could not be
    /// made.
    pub fn new(width: usize, height: usize, keyframe_interval: u32) -> (pipeline: Result<
        Self,
        Error,
    >)
        ensures
            match pipeline {
                Ok(made) => is_encodable(width, height) && made.resolution() == (width, height)
                    && !made.forced() && made.schedule().position()
                    == 0 && made.schedule().interval() == if keyframe_interval == 0 {
                    1
                } else {
                    keyframe_interval
                },
                Err(error) => error is CameraNotReady || error is OpenH264,
            },
            !is_encodable(width, height) ==> (pipeline matches Err(error)
                && error is CameraNotReady),
            is_encodable(width, height) ==> (pipeline matches Err(error) ==> error is OpenH264),
    {
        let fits = picture_bytes(width, height).is_some();
        if width == 0 || height == 0 || width % 2 != 0 || height % 2 != 0 || !fits {
            return Err(
                Error::CameraNotReady {
                    message: String::from_str("camera resolution cannot be encoded"),
                },
            );
        }
        match new_encoder() {
            Ok(h264_encoder) => Ok(
                EncodePipeline {
                    h264_encoder,
                    width,
                    height,
                    schedule: KeyframeSchedule::new(keyframe_interval),
                    forced: Ghost(false),
                },
            ),
            Err(message) => Err(Error::OpenH264 { message }),
        }
    }

    /// Decides what happens to the next captured frame. Without
    /// broadcasting the frame is only previewed and the cadence stands
    /// still; with it the frame is counted and encoded.
    pub fn plan(&mut self, broadcast: bool) -> (plan: FramePlan)
        ensures
            final(self).resolution() == old(self).resolution(),
            final(self).forced() == old(self).forced(),
            !broadcast ==> plan == FramePlan::PreviewOnly && final(self).schedule() == old(self).schedule(),
            broadcast ==> plan == (FramePlan::Encode {
                force_intra: old(self).schedule().position() == 0,
            }) && final(self).schedule().interval() == old(self).schedule().interval() && final(self).schedule().position() == (old(self).schedule().position() + 1) % (old(self).schedule().interval() as int),
    {
        if broadcast {
            let mut schedule = self.schedule;
            let force_intra = schedule.advance();
            self.schedule = schedule;
            FramePlan::Encode { force_intra }
        } else {
            FramePlan::PreviewOnly
        }
    }

    /// Takes one captured frame through the pipeline and returns the
    /// chunks to send for it.
    ///
    /// Without broadcasting there is nothing to send. A frame that is not
    /// a picture of the camera's resolution is refused with
    /// `CameraNotReady` before it counts. Otherwise the frame counts in the
    /// keyframe cadence, the encoder is told to make a keyframe if the
    /// cadence calls for one (`forced` keeps whether it was), the encoder
    /// runs once, and its bitstream is cut into NAL units as
    /// `split_bitstream` does; a failure of the encoder is `OpenH264`.
    pub fn process(&mut self, rgb_buffer: &[u8], broadcast: bool) -> (chunks: Result<
        Vec<Vec<u8>>,
        Error,
    >)
        ensures
            final(self).resolution() == old(self).resolution(),
            !broadcast ==> (chunks matches Ok(units) && units@.len() == 0) && final(self).schedule() == old(self).schedule() && final(self).forced() == old(self).forced(),
            broadcast && !is_frame(old(self).resolution(), rgb_buffer@) ==> (chunks matches Err(
                error,
            ) && error is CameraNotReady) && final(self).schedule() == old(self).schedule()
                && final(self).forced() == old(self).forced(),
            broadcast && is_frame(old(self).resolution(), rgb_buffer@) ==> {
                &&& final(self).forced() == (old(self).schedule().position() == 0)
                &&& final(self).schedule().interval() == old(self).schedule().interval()
                &&& final(self).schedule().position() == (old(self).schedule().position() + 1) % (
                old(self).schedule().interval() as int)
                &&& chunks matches Ok(units) ==> forall|i: int|
                    0 <= i < units@.len() ==> has_short_start_code(#[trigger] units@[i]@)
                &&& chunks matches Err(error) ==> error is OpenH264
            },
    {
        if !broadcast {
            return Ok(Vec::new());
        }
        if self.width % 2 != 0 || self.height % 2 != 0 || !holds_picture(
            self.width,
            self.height,
            rgb_buffer.len(),
        ) {
            return Err(
                Error::CameraNotReady {
                    message: String::from_str("frame does not match the camera resolution"),
                },
            );
        }
        match self.plan(true) {
            FramePlan::Encode { force_intra: true } => {
                force_intra_frame(&mut self.h264_encoder);
                self.forced = Ghost(true);
            },
            _ => {
                self.forced = Ghost(false);
            },
        }
        let outcome = encode_rgb(&mut self.h264_encoder, rgb_buffer, self.width, self.height);
        split_bitstream(outcome)
    }
}

} // verus!
