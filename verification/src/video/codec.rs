//! The boundary to the OpenH264 bindings. Everything in this file is taken on
//! trust: Verus reads the contracts and not the bodies.

use openh264::formats::YUVSource;
use vstd::prelude::*;

use crate::video::encoding::{has_short_start_code, unit_views};

verus! {

/// The H.264 decoder of the OpenH264 bindings. Its state is not modelled.
#[verifier::external_type_specification]
#[verifier::external_body]
pub struct ExDecoder(openh264::decoder::Decoder);

/// The H.264 encoder of the OpenH264 bindings. Its state is not modelled.
#[verifier::external_type_specification]
#[verifier::external_body]
pub struct ExEncoder(openh264::encoder::Encoder);

/// The NAL units that `openh264::nal_units` splits an Annex-B byte stream
/// into, in stream order.
pub uninterp spec fn annex_b_units(stream: Seq<u8>) -> Seq<Seq<u8>>;

/// Calls `openh264::nal_units` and copies each unit it yields.
///
/// Trusted: the units are those that the splitter yields for these bytes,
/// and, as its documentation says, every unit begins at a `00 00 01` mark.
#[verifier::external_body]
pub(crate) fn nal_units(stream: &[u8]) -> (units: Vec<Vec<u8>>)
    ensures
        unit_views(units@) == annex_b_units(stream@),
        forall|i: int| 0 <= i < units@.len() ==> has_short_start_code(#[trigger] units@[i]@),
{
    openh264::nal_units(stream).map(|unit| unit.to_vec()).collect()
}

/// Calls `openh264::decoder::Decoder::new`, turning a failure into the text
/// of the codec's error. Nothing is claimed of the outcome.
#[verifier::external_body]
pub(crate) fn new_decoder() -> (decoder: Result<openh264::decoder::Decoder, String>) {
    match openh264::decoder::Decoder::new() {
        Ok(decoder) => Ok(decoder),
        Err(error) => Err(error.to_string()),
    }
}

/// Calls `Decoder::decode` once on the given bytes. Where a picture comes
/// back, hands out its `dimensions()` and its pixels as written by
/// `write_rgb8` into a buffer of `rgb8_len()` bytes; a failure becomes the
/// text of the codec's error.
///
/// Nothing is claimed of the outcome: it depends on what the decoder has
/// seen before. The caller checks the size of what it gets.
#[verifier::external_body]
pub(crate) fn decode_rgb(decoder: &mut openh264::decoder::Decoder, packet: &[u8]) -> (picture:
    Result<Option<(usize, usize, Vec<u8>)>, String>) {
    match decoder.decode(packet) {
        Ok(Some(yuv)) => {
            let (width, height) = yuv.dimensions();
            let mut rgb = vec![0u8; yuv.rgb8_len()];
            yuv.write_rgb8(&mut rgb);
            Ok(Some((width, height, rgb)))
        },
        Ok(None) => Ok(None),
        Err(error) => Err(error.to_string()),
    }
}

/// Calls `openh264::encoder::Encoder::new`, turning a failure into the text
/// of the codec's error. Nothing is claimed of the outcome.
#[verifier::external_body]
pub(crate) fn new_encoder() -> (encoder: Result<openh264::encoder::Encoder, String>) {
    match openh264::encoder::Encoder::new() {
        Ok(encoder) => Ok(encoder),
        Err(error) => Err(error.to_string()),
    }
}

/// Calls `Encoder::force_intra_frame`: the next frame encoded is a keyframe.
/// The encoder's state is not modelled, so nothing is stated.
#[verifier::external_body]
pub(crate) fn force_intra_frame(encoder: &mut openh264::encoder::Encoder) {
    encoder.force_intra_frame();
}

/// Converts an RGB frame to the encoder's planar format with
/// `YUVBuffer::from_rgb8_source` and calls `Encoder::encode` on it, handing
/// out the bitstream as `to_vec` gives it; a failure becomes the text of the
/// codec's error.
///
/// `RgbSliceU8::new` and `YUVBuffer::new` panic on odd dimensions and on a
/// slice whose length is not `width * height * 3`: the precondition leaves
/// those out. Nothing is claimed of the outcome: it depends on the frames
/// that the encoder has seen before.
#[verifier::external_body]
pub(crate) fn encode_rgb(
    encoder: &mut openh264::encoder::Encoder,
    rgb: &[u8],
    width: usize,
    height: usize,
) -> (bitstream: Result<Vec<u8>, String>)
    requires
        width % 2 == 0,
        height % 2 == 0,
        rgb@.len() == width * height * 3,
{
    let source = openh264::formats::RgbSliceU8::new(rgb, (width, height));
    let yuv = openh264::formats::YUVBuffer::from_rgb8_source(source);
    match encoder.encode(&yuv) {
        Ok(bits) => Ok(bits.to_vec()),
        Err(error) => Err(error.to_string()),
    }
}

} // verus!
