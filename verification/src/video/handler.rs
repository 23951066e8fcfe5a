//! The two sources of frames: the local camera, whose frames arrive as raw
//! RGB, and a remote peer, whose frames arrive as H.264 and pass through the
//! decode pipeline.

use vstd::prelude::*;

use crate::video::codec::{annex_b_units, decode_rgb, nal_units, new_decoder};
use crate::video::encoding::{deframed, get_prefix_code, unit_views, NalType};
use crate::video::error::Error;

verus! {

/// Whether `rgb` holds a picture of the given size: three bytes for each of
/// `width * height` pixels, with at least one pixel.
pub open spec fn is_picture(width: usize, height: usize, rgb: Seq<u8>) -> bool {
    width >= 1 && height >= 1 && rgb.len() == width * height * 3
}

/// The bytes that a picture of the given size takes, three for each pixel,
/// or `None` where that many do not fit in memory.
pub fn picture_bytes(width: usize, height: usize) -> (bytes: Option<usize>)
    ensures
        width * height * 3 <= usize::MAX ==> bytes == Some((width * height * 3) as usize),
        width * height * 3 > usize::MAX ==> bytes.is_none(),
{
    match width.checked_mul(height) {
        Some(pixels) => pixels.checked_mul(3),
        None => {
            assert(width * height * 3 > usize::MAX) by (nonlinear_arith)
                requires
                    width * height > usize::MAX,
            ;
            None
        },
    }
}

/// Decides at run time whether `length` bytes hold a picture of the given
/// size, without overflow.
pub fn holds_picture(width: usize, height: usize, length: usize) -> (fits: bool)
    ensures
        fits == (width >= 1 && height >= 1 && length == width * height * 3),
{
    if width == 0 || height == 0 {
        return false;
    }
    match picture_bytes(width, height) {
        Some(bytes) => bytes == length,
        None => false,
    }
}

/// A source of RGB frames for a video panel.
pub trait VideoHandler: Sized {
    /// The pixels of the frame received last.
    spec fn frame(&self) -> Seq<u8>;

    /// Width and height of the frame received last.
    spec fn frame_size(&self) -> (usize, usize);

    /// Whether a source in this state, given the message `stream`, may
    /// answer `size` and be in the state `after` then: what this kind of
    /// source does with a message.
    spec fn answers(
        &self,
        stream: Seq<u8>,
        size: Result<(usize, usize), Error>,
        after: Self,
    ) -> bool;

    /// Takes in one message of the stream, as `answers` says for this kind
    /// of source. On success returns the size of the frame that `rgb_buffer`
    /// now holds; on an error the last frame is kept.
    fn receive_stream(&mut self, stream: &Vec<u8>) -> (size: Result<(usize, usize), Error>)
        ensures
            old(self).answers(stream@, size, *final(self)),
            size matches Ok((width, height)) ==> final(self).frame_size() == (width, height)
                && is_picture(width, height, final(self).frame()),
            size is Err ==> final(self).frame() == old(self).frame() && final(self).frame_size()
                == old(self).frame_size(),
    ;

    /// The pixels of the frame received last, three bytes per pixel, row by
    /// row.
    fn rgb_buffer(&self) -> (pixels: &[u8])
        ensures
            pixels@ == self.frame(),
    ;
}

/// Frames of the local camera: raw RGB of a fixed size.
pub struct LocalVideoHandler {
    width: usize,
    height: usize,
    rgb_buffer: Vec<u8>,
}

impl LocalVideoHandler {
    /// The buffer always holds a picture of the camera's size.
    #[verifier::type_invariant]
    spec fn holds_frame(&self) -> bool {
        is_picture(self.width, self.height, self.rgb_buffer@)
    }

    /// A handler for a camera of the given resolution, with a black frame.
    /// A resolution without pixels, or one whose frame does not fit in
    /// memory, is refused with `CameraNotReady`.
    pub fn new(width: usize, height: usize) -> (handler: Result<Self, Error>)
        ensures
            match handler {
                Ok(made) => made.frame_size() == (width, height) && made.frame() == Seq::new(
                    (width * height * 3) as nat,
                    |i: int| 0u8,
                ),
                Err(error) => error is CameraNotReady,
            },
            handler is Ok <==> width >= 1 && height >= 1 && width * height * 3 <= usize::MAX,
    {
        if width == 0 || height == 0 {
            return Err(
                Error::CameraNotReady { message: String::from_str("camera reports an empty frame") },
            );
        }
        match picture_bytes(width, height) {
            Some(length) => {
                let mut rgb_buffer: Vec<u8> = Vec::new();
                rgb_buffer.resize(length, 0);
                assert(rgb_buffer@ =~= Seq::new((width * height * 3) as nat, |i: int| 0u8));
                Ok(LocalVideoHandler { width, height, rgb_buffer })
            },
            None => Err(
                Error::CameraNotReady {
                    message: String::from_str("camera frame does not fit in memory"),
                },
            ),
        }
    }
}

impl VideoHandler for LocalVideoHandler {
    closed spec fn frame(&self) -> Seq<u8> {
        self.rgb_buffer@
    }

    closed spec fn frame_size(&self) -> (usize, usize) {
        (self.width, self.height)
    }

    /// A message of the length of the camera's frames is taken as the next
    /// frame; any other is refused with `Decoding` and the last frame is
    /// kept.
    open spec fn answers(
        &self,
        stream: Seq<u8>,
        size: Result<(usize, usize), Error>,
        after: Self,
    ) -> bool {
        &&& after.frame_size() == self.frame_size()
        &&& stream.len() == self.frame().len() ==> size == Ok::<(usize, usize), Error>(
            self.frame_size(),
        ) && after.frame() == stream
        &&& stream.len() != self.frame().len() ==> size == Err::<(usize, usize), Error>(
            Error::Decoding,
        ) && after.frame() == self.frame()
    }

    /// Takes a raw frame of the camera. A frame of another size than the
    /// camera's is refused with `Decoding` and the last frame is kept.
    fn receive_stream(&mut self, stream: &Vec<u8>) -> (size: Result<(usize, usize), Error>)
        ensures
            stream@.len() == old(self).frame().len() ==> size == Ok::<(usize, usize), Error>(
                old(self).frame_size(),
            ) && final(self).frame() == stream@,
            stream@.len() != old(self).frame().len() ==> size == Err::<(usize, usize), Error>(
                Error::Decoding,
            ),
            final(self).frame_size() == old(self).frame_size(),
    {
        proof {
            use_type_invariant(&*self);
        }
        if stream.len() != self.rgb_buffer.len() {
            return Err(Error::Decoding);
        }
        self.rgb_buffer = stream.clone();
        Ok((self.width, self.height))
    }

    fn rgb_buffer(&self) -> (pixels: &[u8]) {
        self.rgb_buffer.as_slice()
    }
}

/// Whether every unit of a batch begins with a start code that a header
/// byte follows.
pub open spec fn is_batch(units: Seq<Seq<u8>>) -> bool {
    forall|i: int| 0 <= i < units.len() ==> deframed(#[trigger] units[i]).is_some()
}

/// The type of a framed unit.
pub open spec fn unit_type(unit: Seq<u8>) -> NalType
    recommends
        deframed(unit).is_some(),
{
    deframed(unit).unwrap().0
}

/// The last unit of the given type in a batch, or `cached` if the batch
/// holds none: what the parameter cache keeps for that type.
pub open spec fn latest(units: Seq<Seq<u8>>, kind: NalType, cached: Option<Seq<u8>>) -> Option<
    Seq<u8>,
>
    decreases units.len(),
{
    if units.len() == 0 {
        cached
    } else if unit_type(units.last()) == kind {
        Some(units.last())
    } else {
        latest(units.drop_last(), kind, cached)
    }
}

/// The given units, one after the other.
pub open spec fn joined(units: Seq<Seq<u8>>) -> Seq<u8>
    decreases units.len(),
{
    if units.len() == 0 {
        Seq::empty()
    } else {
        joined(units.drop_last()) + units.last()
    }
}

/// Whether a batch holds a keyframe.
pub open spec fn has_keyframe(units: Seq<Seq<u8>>) -> bool {
    exists|i: int| 0 <= i < units.len() && unit_type(#[trigger] units[i]) == NalType::IDR
}

/// The decode buffer once a batch has been taken in. A batch with a
/// keyframe starts the buffer anew from the cached parameter sets, if both
/// are there; then every unit of the batch follows in arrival order.
pub open spec fn decode_buffer(
    buffer: Seq<u8>,
    sps: Option<Seq<u8>>,
    pps: Option<Seq<u8>>,
    units: Seq<Seq<u8>>,
) -> Seq<u8> {
    if has_keyframe(units) && sps.is_some() && pps.is_some() {
        sps.unwrap() + pps.unwrap() + joined(units)
    } else {
        buffer + joined(units)
    }
}

/// The bytes that an optional unit holds.
pub open spec fn cached_view(unit: Option<Vec<u8>>) -> Option<Seq<u8>> {
    match unit {
        Some(bytes) => Some(bytes@),
        None => None,
    }
}

/// What `accept_picture` answers for an outcome of the decoder.
pub open spec fn picture_answer(outcome: Result<Option<(usize, usize, Vec<u8>)>, String>) -> Result<
    (usize, usize),
    Error,
> {
    match outcome {
        Ok(Some((width, height, rgb))) => if is_picture(width, height, rgb@) {
            Ok((width, height))
        } else {
            Err(Error::Decoding)
        },
        Ok(None) => Err(Error::Decoding),
        Err(message) => Err(Error::OpenH264 { message }),
    }
}

/// Frames of a remote peer: the decode pipeline. It keeps the parameter
/// sets seen so far, gathers the units of a batch in the decode buffer and
/// runs the decoder once per batch.
pub struct PeerVideoHandler {
    h264_decoder: openh264::decoder::Decoder,
    sps: Option<Vec<u8>>,
    pps: Option<Vec<u8>>,
    frame_buffer: Vec<u8>,
    width: usize,
    height: usize,
    rgb_buffer: Vec<u8>,
    attempted: Ghost<Seq<u8>>,
}

impl PeerVideoHandler {
    /// The bytes that the decoder was given at the last decode attempt;
    /// empty before the first.
    pub closed spec fn last_attempt(&self) -> Seq<u8> {
        self.attempted@
    }

    /// The cached sequence parameter set.
    pub closed spec fn sps_view(&self) -> Option<Seq<u8>> {
        cached_view(self.sps)
    }

    /// The cached picture parameter set.
    pub closed spec fn pps_view(&self) -> Option<Seq<u8>> {
        cached_view(self.pps)
    }

    /// The bytes gathered for the next decode attempt.
    pub closed spec fn buffer_view(&self) -> Seq<u8> {
        self.frame_buffer@
    }

    /// A pipeline with a fresh decoder, an empty parameter cache and empty
    /// buffers. Fails with `OpenH264` if the decoder cannot be made.
    pub fn new() -> (handler: Result<Self, Error>)
        ensures
            match handler {
                Ok(made) => {
                    &&& made.sps_view().is_none()
                    &&& made.pps_view().is_none()
                    &&& made.buffer_view() == Seq::<u8>::empty()
                    &&& made.last_attempt() == Seq::<u8>::empty()
                    &&& made.frame() == Seq::<u8>::empty()
                    &&& made.frame_size() == (0usize, 0usize)
                },
                Err(error) => error is OpenH264,
            },
    {
        match new_decoder() {
            Ok(h264_decoder) => Ok(
                PeerVideoHandler {
                    h264_decoder,
                    sps: None,
                    pps: None,
                    frame_buffer: Vec::new(),
                    width: 0,
                    height: 0,
                    rgb_buffer: Vec::new(),
                    attempted: Ghost(Seq::empty()),
                },
            ),
            Err(message) => Err(Error::OpenH264 { message }),
        }
    }

    /// The cached sequence parameter set, start code included.
    pub fn sps(&self) -> (unit: &Option<Vec<u8>>)
        ensures
            cached_view(*unit) == self.sps_view(),
    {
        &self.sps
    }

    /// The cached picture parameter set, start code included.
    pub fn pps(&self) -> (unit: &Option<Vec<u8>>)
        ensures
            cached_view(*unit) == self.pps_view(),
    {
        &self.pps
    }

    /// The bytes gathered for the next decode attempt.
    pub fn frame_buffer(&self) -> (bytes: &[u8])
        ensures
            bytes@ == self.buffer_view(),
    {
        self.frame_buffer.as_slice()
    }

    /// Resets the decode buffer to the cached parameter sets; does nothing
    /// while either is missing.
    fn init_frame_buffer(&mut self)
        ensures
            final(self).sps_view() == old(self).sps_view(),
            final(self).pps_view() == old(self).pps_view(),
            final(self).frame() == old(self).frame(),
            final(self).frame_size() == old(self).frame_size(),
            final(self).last_attempt() == old(self).last_attempt(),
            final(self).buffer_view() == if old(self).sps_view().is_some() && old(
                self,
            ).pps_view().is_some() {
                old(self).sps_view().unwrap() + old(self).pps_view().unwrap()
            } else {
                old(self).buffer_view()
            },
    {
        match (&self.sps, &self.pps) {
            (Some(sps), Some(pps)) => {
                self.frame_buffer.clear();
                self.frame_buffer.extend_from_slice(sps.as_slice());
                self.frame_buffer.extend_from_slice(pps.as_slice());
            },
            _ => {},
        }
    }

    /// Takes a batch of framed units into the parameter cache and the decode
    /// buffer, without decoding.
    ///
    /// A batch in which some unit has no start code or no header byte is
    /// refused with `MalformedNalUnit` and changes nothing. Otherwise the
    /// cache keeps the last SPS and the last PPS of the batch, and the buffer
    /// becomes `decode_buffer` of the cache so updated.
    pub fn assemble(&mut self, units: &Vec<Vec<u8>>) -> (taken: Result<(), Error>)
        ensures
            final(self).frame() == old(self).frame(),
            final(self).frame_size() == old(self).frame_size(),
            final(self).last_attempt() == old(self).last_attempt(),
            is_batch(unit_views(units@)) ==> {
                &&& taken is Ok
                &&& final(self).sps_view() == latest(
                    unit_views(units@),
                    NalType::SPS,
                    old(self).sps_view(),
                )
                &&& final(self).pps_view() == latest(
                    unit_views(units@),
                    NalType::PPS,
                    old(self).pps_view(),
                )
                &&& final(self).buffer_view() == decode_buffer(
                    old(self).buffer_view(),
                    final(self).sps_view(),
                    final(self).pps_view(),
                    unit_views(units@),
                )
            },
            !is_batch(unit_views(units@)) ==> {
                &&& taken == Err::<(), Error>(Error::MalformedNalUnit)
                &&& final(self).sps_view() == old(self).sps_view()
                &&& final(self).pps_view() == old(self).pps_view()
                &&& final(self).buffer_view() == old(self).buffer_view()
            },
    {
        let ghost batch = unit_views(units@);
        let count: usize = units.len();

        let mut checked: usize = 0;
        while checked < count
            invariant
                count == units@.len(),
                batch == unit_views(units@),
                checked <= count,
                forall|i: int| 0 <= i < checked ==> deframed(#[trigger] batch[i]).is_some(),
            decreases count - checked,
        {
            match get_prefix_code(units[checked].as_slice()) {
                Ok(_) => {},
                Err(error) => {
                    assert(deframed(batch[checked as int]).is_none());
                    return Err(error);
                },
            }
            checked = checked + 1;
        }
        assert(is_batch(batch));

        let mut contains_idr = false;
        let mut index: usize = 0;
        assert(batch.take(0) =~= Seq::<Seq<u8>>::empty());
        while index < count
            invariant
                count == units@.len(),
                batch == unit_views(units@),
                is_batch(batch),
                index <= count,
                self.sps_view() == latest(batch.take(index as int), NalType::SPS, old(self).sps_view()),
                self.pps_view() == latest(batch.take(index as int), NalType::PPS, old(self).pps_view()),
                contains_idr == has_keyframe(batch.take(index as int)),
                self.buffer_view() == old(self).buffer_view(),
                self.frame() == old(self).frame(),
                self.frame_size() == old(self).frame_size(),
                self.last_attempt() == old(self).last_attempt(),
            decreases count - index,
        {
            let ghost before = batch.take(index as int);
            let ghost after = batch.take(index + 1);
            assert(after.last() == batch[index as int]);
            assert(after.drop_last() =~= before);
            let nal_type = match get_prefix_code(units[index].as_slice()) {
                Ok(found) => found,
                Err(_) => NalType::Unknown,
            };
            assert(nal_type == unit_type(batch[index as int]));
            match nal_type {
                NalType::SPS => {
                    self.sps = Some(units[index].clone());
                },
                NalType::PPS => {
                    self.pps = Some(units[index].clone());
                },
                NalType::IDR => {
                    contains_idr = true;
                },
                _ => {},
            }
            assert(has_keyframe(after) == (has_keyframe(before) || nal_type == NalType::IDR)) by {
                if has_keyframe(before) {
                    let i = choose|i: int|
                        0 <= i < before.len() && unit_type(#[trigger] before[i]) == NalType::IDR;
                    assert(after[i] == before[i]);
                }
                if nal_type == NalType::IDR {
                    assert(unit_type(after[index as int]) == NalType::IDR);
                }
                if has_keyframe(after) {
                    let i = choose|i: int|
                        0 <= i < after.len() && unit_type(#[trigger] after[i]) == NalType::IDR;
                    if i < index {
                        assert(before[i] == after[i]);
                    }
                }
            }
            index = index + 1;
        }
        assert(batch.take(count as int) =~= batch);

        if contains_idr {
            self.init_frame_buffer();
        }
        let mut appended: usize = 0;
        let ghost base = self.buffer_view();
        while appended < count
            invariant
                count == units@.len(),
                batch == unit_views(units@),
                appended <= count,
                self.buffer_view() == base + joined(batch.take(appended as int)),
                self.sps_view() == latest(batch, NalType::SPS, old(self).sps_view()),
                self.pps_view() == latest(batch, NalType::PPS, old(self).pps_view()),
                self.frame() == old(self).frame(),
                self.frame_size() == old(self).frame_size(),
                self.last_attempt() == old(self).last_attempt(),
            decreases count - appended,
        {
            let ghost after = batch.take(appended + 1);
            assert(after.last() == batch[appended as int]);
            assert(after.drop_last() =~= batch.take(appended as int));
            self.frame_buffer.extend_from_slice(units[appended].as_slice());
            assert(self.buffer_view() =~= base + joined(after));
            appended = appended + 1;
        }
        assert(batch.take(count as int) =~= batch);
        assert(self.buffer_view() =~= decode_buffer(
            old(self).buffer_view(),
            self.sps_view(),
            self.pps_view(),
            batch,
        ));
        Ok(())
    }

    /// Takes what the decoder answered. A picture whose pixel buffer has the
    /// size that its dimensions call for becomes the current frame; anything
    /// else leaves the current frame in place and is an error: `OpenH264`
    /// with the codec's text where the decoder failed, `Decoding` where it
    /// gave no picture or one of the wrong size.
    pub fn accept_picture(&mut self, outcome: Result<Option<(usize, usize, Vec<u8>)>, String>) -> (size:
        Result<(usize, usize), Error>)
        ensures
            size == picture_answer(outcome),
            size matches Ok((width, height)) ==> final(self).frame() == outcome.unwrap().unwrap().2@
                && final(self).frame_size() == (width, height),
            size is Err ==> final(self).frame() == old(self).frame() && final(self).frame_size() == old(
                self,
            ).frame_size(),
            final(self).sps_view() == old(self).sps_view(),
            final(self).pps_view() == old(self).pps_view(),
            final(self).buffer_view() == old(self).buffer_view(),
            final(self).last_attempt() == old(self).last_attempt(),
    {
        match outcome {
            Ok(Some((width, height, rgb))) => {
                if holds_picture(width, height, rgb.len()) {
                    self.width = width;
                    self.height = height;
                    self.rgb_buffer = rgb;
                    Ok((width, height))
                } else {
                    Err(Error::Decoding)
                }
            },
            Ok(None) => Err(Error::Decoding),
            Err(message) => Err(Error::OpenH264 { message }),
        }
    }

    /// Takes in a batch of framed units and runs the decoder once on the
    /// decode buffer that `assemble` builds from it. The buffer is emptied
    /// after the attempt, whatever its outcome; `last_attempt` keeps what the
    /// decoder was given.
    ///
    /// A malformed batch is refused with `MalformedNalUnit` before anything
    /// changes. Otherwise the parameter cache is updated, and the answer is
    /// what `accept_picture` makes of the decoder's outcome: the size of the
    /// new frame, or `OpenH264` or `Decoding` with the last frame kept.
    pub fn ingest(&mut self, units: &Vec<Vec<u8>>) -> (size: Result<(usize, usize), Error>)
        ensures
            size matches Ok((width, height)) ==> is_picture(width, height, final(self).frame())
                && final(self).frame_size() == (width, height),
            size is Err ==> final(self).frame() == old(self).frame() && final(self).frame_size() == old(
                self,
            ).frame_size(),
            is_batch(unit_views(units@)) ==> {
                &&& final(self).sps_view() == latest(
                    unit_views(units@),
                    NalType::SPS,
                    old(self).sps_view(),
                )
                &&& final(self).pps_view() == latest(
                    unit_views(units@),
                    NalType::PPS,
                    old(self).pps_view(),
                )
                &&& final(self).buffer_view() == Seq::<u8>::empty()
                &&& final(self).last_attempt() == decode_buffer(
                    old(self).buffer_view(),
                    final(self).sps_view(),
                    final(self).pps_view(),
                    unit_views(units@),
                )
                &&& size matches Err(error) ==> error is OpenH264 || error is Decoding
            },
            !is_batch(unit_views(units@)) ==> {
                &&& size == Err::<(usize, usize), Error>(Error::MalformedNalUnit)
                &&& final(self).sps_view() == old(self).sps_view()
                &&& final(self).pps_view() == old(self).pps_view()
                &&& final(self).buffer_view() == old(self).buffer_view()
                &&& final(self).last_attempt() == old(self).last_attempt()
            },
    {
        match self.assemble(units) {
            Ok(()) => {},
            Err(error) => {
                return Err(error);
            },
        }
        self.attempted = Ghost(self.frame_buffer@);
        let outcome = decode_rgb(&mut self.h264_decoder, self.frame_buffer.as_slice());
        self.frame_buffer.clear();
        self.accept_picture(outcome)
    }
}

impl VideoHandler for PeerVideoHandler {
    closed spec fn frame(&self) -> Seq<u8> {
        self.rgb_buffer@
    }

    /// Width and height of the frame decoded last; `(0, 0)` before the
    /// first.
    closed spec fn frame_size(&self) -> (usize, usize) {
        (self.width, self.height)
    }

    /// The stream is split into its NAL units, which are taken in as one
    /// batch. A malformed batch is refused with `MalformedNalUnit` and
    /// changes nothing. Otherwise the parameter cache keeps the last SPS
    /// and PPS of the batch, the decoder is given `decode_buffer` of the
    /// cache so updated, and the buffer is empty afterwards; what the
    /// decoder makes of the bytes decides between the size of a new frame,
    /// `OpenH264` and `Decoding`.
    open spec fn answers(
        &self,
        stream: Seq<u8>,
        size: Result<(usize, usize), Error>,
        after: Self,
    ) -> bool {
        &&& size matches Ok((width, height)) ==> after.frame_size() == (width, height)
            && is_picture(width, height, after.frame())
        &&& size is Err ==> after.frame_size() == self.frame_size() && after.frame()
            == self.frame()
        &&& is_batch(annex_b_units(stream)) ==> {
            &&& after.sps_view() == latest(annex_b_units(stream), NalType::SPS, self.sps_view())
            &&& after.pps_view() == latest(annex_b_units(stream), NalType::PPS, self.pps_view())
            &&& after.buffer_view() == Seq::<u8>::empty()
            &&& after.last_attempt() == decode_buffer(
                self.buffer_view(),
                after.sps_view(),
                after.pps_view(),
                annex_b_units(stream),
            )
            &&& size matches Err(error) ==> error is OpenH264 || error is Decoding
        }
        &&& !is_batch(annex_b_units(stream)) ==> {
            &&& size == Err::<(usize, usize), Error>(Error::MalformedNalUnit)
            &&& after.sps_view() == self.sps_view()
            &&& after.pps_view() == self.pps_view()
            &&& after.buffer_view() == self.buffer_view()
            &&& after.last_attempt() == self.last_attempt()
        }
    }

    /// Splits an Annex-B byte stream into its NAL units and takes them in as
    /// one batch: see `ingest`.
    fn receive_stream(&mut self, stream: &Vec<u8>) -> (size: Result<(usize, usize), Error>)
        ensures
            size matches Ok((width, height)) ==> final(self).frame_size() == (width, height),
            size is Err ==> final(self).frame_size() == old(self).frame_size(),
            is_batch(annex_b_units(stream@)) ==> {
                &&& final(self).sps_view() == latest(
                    annex_b_units(stream@),
                    NalType::SPS,
                    old(self).sps_view(),
                )
                &&& final(self).pps_view() == latest(
                    annex_b_units(stream@),
                    NalType::PPS,
                    old(self).pps_view(),
                )
                &&& final(self).buffer_view() == Seq::<u8>::empty()
                &&& final(self).last_attempt() == decode_buffer(
                    old(self).buffer_view(),
                    final(self).sps_view(),
                    final(self).pps_view(),
                    annex_b_units(stream@),
                )
                &&& size matches Err(error) ==> error is OpenH264 || error is Decoding
            },
            !is_batch(annex_b_units(stream@)) ==> {
                &&& size == Err::<(usize, usize), Error>(Error::MalformedNalUnit)
                &&& final(self).sps_view() == old(self).sps_view()
                &&& final(self).pps_view() == old(self).pps_view()
                &&& final(self).buffer_view() == old(self).buffer_view()
                &&& final(self).last_attempt() == old(self).last_attempt()
            },
    {
        let units = nal_units(stream.as_slice());
        self.ingest(&units)
    }

    fn rgb_buffer(&self) -> (pixels: &[u8]) {
        self.rgb_buffer.as_slice()
    }
}

} // verus!
