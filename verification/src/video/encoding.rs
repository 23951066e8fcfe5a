//! NAL framing: turning received payloads into Annex-B NAL units and back.
//!
//! A payload begins with a NAL header byte whose low five bits give its type.
//! A single unit is passed on behind a start code, an aggregation packet
//! (STAP-A) is taken apart into its entries, and a fragmentation unit (FU-A)
//! is collected in an accumulator until the fragment that carries the end
//! marker arrives.

use vstd::prelude::*;
use vstd::slice::*;
use vstd::std_specs::convert::FromSpecImpl;

use crate::video::error::Error;

verus! {

/// The kinds of NAL unit that the framer tells apart.
#[allow(non_camel_case_types)]
#[derive(Clone, Copy, Debug, PartialEq, Eq, Structural)]
pub enum NalType {
    NonIDR,
    IDR,
    SPS,
    PPS,
    STAP_A,
    FU_A,
    Unknown,
}

/// The NAL type that a five-bit type code stands for.
pub open spec fn nal_type_of_code(code: u8) -> NalType {
    if code == 1 {
        NalType::NonIDR
    } else if code == 5 {
        NalType::IDR
    } else if code == 7 {
        NalType::SPS
    } else if code == 8 {
        NalType::PPS
    } else if code == 24 {
        NalType::STAP_A
    } else if code == 28 {
        NalType::FU_A
    } else {
        NalType::Unknown
    }
}

/// The NAL type announced by a header byte: the type of its low five bits.
pub open spec fn header_type(header: u8) -> NalType {
    nal_type_of_code(header & 0x1F)
}

impl NalType {
    /// The type code of this kind; `Unknown` is written as 255.
    pub open spec fn code_spec(self) -> u8 {
        match self {
            NalType::NonIDR => 1,
            NalType::IDR => 5,
            NalType::SPS => 7,
            NalType::PPS => 8,
            NalType::STAP_A => 24,
            NalType::FU_A => 28,
            NalType::Unknown => 255,
        }
    }

    /// The type code of this kind; `Unknown` is written as 255.
    pub fn code(self) -> (code: u8)
        ensures
            code == self.code_spec(),
            self != NalType::Unknown ==> nal_type_of_code(code) == self,
    {
        match self {
            NalType::NonIDR => 1,
            NalType::IDR => 5,
            NalType::SPS => 7,
            NalType::PPS => 8,
            NalType::STAP_A => 24,
            NalType::FU_A => 28,
            NalType::Unknown => 255,
        }
    }
}

impl From<u8> for NalType {
    fn from(value: u8) -> (nal_type: Self) {
        match value {
            1 => NalType::NonIDR,
            5 => NalType::IDR,
            7 => NalType::SPS,
            8 => NalType::PPS,
            24 => NalType::STAP_A,
            28 => NalType::FU_A,
            _ => NalType::Unknown,
        }
    }
}

impl FromSpecImpl<u8> for NalType {
    open spec fn obeys_from_spec() -> bool {
        true
    }

    open spec fn from_spec(value: u8) -> Self {
        nal_type_of_code(value)
    }
}

/// The four-byte Annex-B start code.
pub const NAL_PREFIX_CODE: [u8; 4] = [0, 0, 0, 1];

/// The four-byte Annex-B start code, as a sequence.
pub open spec fn start_code() -> Seq<u8> {
    seq![0u8, 0u8, 0u8, 1u8]
}

/// A NAL unit behind the four-byte start code.
pub open spec fn with_start_code(unit: Seq<u8>) -> Seq<u8> {
    start_code() + unit
}

/// The byte sequences that a list of units holds.
pub open spec fn unit_views(units: Seq<Vec<u8>>) -> Seq<Seq<u8>> {
    Seq::new(units.len(), |i: int| units[i]@)
}

/// What a call of the framer handed out, as byte sequences.
pub open spec fn emitted(units: Option<Vec<Vec<u8>>>) -> Option<Seq<Seq<u8>>> {
    match units {
        Some(list) => Some(unit_views(list@)),
        None => None,
    }
}

/// The length that the two bytes at `offset` announce, big-endian.
pub open spec fn entry_size(payload: Seq<u8>, offset: int) -> int {
    payload[offset] as int * 256 + payload[offset + 1] as int
}

/// The units of an aggregation packet from `offset` on. Each entry is a
/// two-byte big-endian length followed by that many bytes. The walk ends at
/// the first entry whose length is zero or runs past the end of the payload,
/// and what follows such an entry is dropped.
pub open spec fn stap_a_units(payload: Seq<u8>, offset: int) -> Seq<Seq<u8>>
    decreases payload.len() - offset,
{
    if offset < 0 || offset + 2 > payload.len() {
        Seq::empty()
    } else {
        let size = entry_size(payload, offset);
        let begin = offset + 2;
        if size == 0 || begin + size > payload.len() {
            Seq::empty()
        } else {
            seq![with_start_code(payload.subrange(begin, begin + size))] + stap_a_units(
                payload,
                begin + size,
            )
        }
    }
}

/// Where the walk over an aggregation packet from `offset` on ends: behind
/// the last entry that is handed out. What lies behind that place is
/// dropped.
pub open spec fn stap_a_end(payload: Seq<u8>, offset: int) -> int
    decreases payload.len() - offset,
{
    if offset < 0 || offset + 2 > payload.len() {
        offset
    } else {
        let size = entry_size(payload, offset);
        let begin = offset + 2;
        if size == 0 || begin + size > payload.len() {
            offset
        } else {
            stap_a_end(payload, begin + size)
        }
    }
}

/// Whether a fragmentation header marks the first fragment of a unit.
pub open spec fn fu_a_is_start(fu_header: u8) -> bool {
    fu_header & 0x80 != 0
}

/// Whether a fragmentation header marks the last fragment of a unit.
pub open spec fn fu_a_is_end(fu_header: u8) -> bool {
    fu_header & 0x40 != 0
}

/// The header of the unit that a fragment belongs to: the high three bits of
/// the outer header and the type in the low five bits of the fragmentation
/// header.
pub open spec fn fu_a_header(nal_header: u8, fu_header: u8) -> u8 {
    (nal_header & 0xE0) | (fu_header & 0x1F)
}

/// The bytes of a fragment behind its two header bytes.
pub open spec fn fu_a_body(payload: Seq<u8>) -> Seq<u8> {
    payload.subrange(2, payload.len() as int)
}

/// The unit under reconstruction once a fragment of at least two bytes has
/// been taken in: a start fragment begins anew with the rebuilt header, any
/// other continues what was there.
pub open spec fn fu_a_assembled(payload: Seq<u8>, accumulator: Seq<u8>) -> Seq<u8> {
    if fu_a_is_start(payload[1]) {
        seq![fu_a_header(payload[0], payload[1])] + fu_a_body(payload)
    } else {
        accumulator + fu_a_body(payload)
    }
}

/// What a fragment hands out: the finished unit if it carries the end marker.
pub open spec fn fu_a_output(payload: Seq<u8>, accumulator: Seq<u8>) -> Option<Seq<Seq<u8>>> {
    if payload.len() >= 2 && fu_a_is_end(payload[1]) {
        Some(seq![with_start_code(fu_a_assembled(payload, accumulator))])
    } else {
        None
    }
}

/// The accumulator after a fragment: empty once a unit has been handed out,
/// unchanged for a fragment too short to hold its two header bytes.
pub open spec fn fu_a_accumulator(payload: Seq<u8>, accumulator: Seq<u8>) -> Seq<u8> {
    if payload.len() < 2 {
        accumulator
    } else if fu_a_is_end(payload[1]) {
        Seq::empty()
    } else {
        fu_a_assembled(payload, accumulator)
    }
}

/// What the framer hands out for a payload, given the accumulator before it.
pub open spec fn reframe_output(payload: Seq<u8>, accumulator: Seq<u8>) -> Option<Seq<Seq<u8>>> {
    if payload.len() == 0 {
        None
    } else if header_type(payload[0]) == NalType::STAP_A {
        Some(stap_a_units(payload, 1))
    } else if header_type(payload[0]) == NalType::FU_A {
        fu_a_output(payload, accumulator)
    } else {
        Some(seq![with_start_code(payload)])
    }
}

/// The accumulator after a payload: only fragments touch it.
pub open spec fn reframe_accumulator(payload: Seq<u8>, accumulator: Seq<u8>) -> Seq<u8> {
    if payload.len() > 0 && header_type(payload[0]) == NalType::FU_A {
        fu_a_accumulator(payload, accumulator)
    } else {
        accumulator
    }
}

/// Reframes one received payload into Annex-B NAL units.
///
/// Returns `None` for an empty payload and for a fragment that does not
/// complete a unit; otherwise the units that the payload yields, each behind
/// the four-byte start code. `nal_buffer` is the fragmentation accumulator.
pub fn convert_payload_to_nal_units(payload: &[u8], nal_buffer: &mut Vec<u8>) -> (units: Option<
    Vec<Vec<u8>>,
>)
    ensures
        emitted(units) == reframe_output(payload@, old(nal_buffer)@),
        final(nal_buffer)@ == reframe_accumulator(payload@, old(nal_buffer)@),
        payload@.len() > 0 && header_type(payload@[0]) != NalType::STAP_A && header_type(
            payload@[0],
        ) != NalType::FU_A ==> emitted(units) == Some(seq![with_start_code(payload@)]),
{
    if payload.len() == 0 {
        return None;
    }
    let nal_header: u8 = payload[0];
    let nal_type = NalType::from(nal_header & 0x1F);

    match nal_type {
        NalType::STAP_A => convert_stap_a_to_nal_units(payload),
        NalType::FU_A => convert_fu_a_to_nal_units(payload, nal_buffer),
        _ => {
            let mut units: Vec<Vec<u8>> = Vec::new();
            units.push(add_prefix_to_nal_unit(payload));
            assert(unit_views(units@) =~= seq![with_start_code(payload@)]);
            Some(units)
        },
    }
}

/// Puts the four-byte start code in front of a NAL unit.
pub fn add_prefix_to_nal_unit(slice: &[u8]) -> (nal_unit: Vec<u8>)
    ensures
        nal_unit@ == with_start_code(slice@),
{
    let mut nal_unit: Vec<u8> = Vec::new();
    nal_unit.push(0);
    nal_unit.push(0);
    nal_unit.push(0);
    nal_unit.push(1);
    assert(nal_unit@ =~= start_code());
    nal_unit.extend_from_slice(slice);
    nal_unit
}

/// Takes an aggregation packet apart into its units.
///
/// The first byte is the packet's own header and is skipped. An entry whose
/// length is zero or runs past the payload ends the walk: the units before it
/// are returned and the rest is dropped without an error.
pub fn convert_stap_a_to_nal_units(payload: &[u8]) -> (units: Option<Vec<Vec<u8>>>)
    ensures
        emitted(units) == Some(stap_a_units(payload@, 1)),
{
    let mut nal_units: Vec<Vec<u8>> = Vec::new();
    let length: usize = payload.len();
    if length < 3 {
        assert(unit_views(nal_units@) =~= stap_a_units(payload@, 1));
        return Some(nal_units);
    }
    let mut offset: usize = 1;
    assert(unit_views(nal_units@) + stap_a_units(payload@, 1) =~= stap_a_units(payload@, 1));
    while length - offset >= 2
        invariant
            length == payload@.len(),
            1 <= offset <= length,
            stap_a_units(payload@, 1) == unit_views(nal_units@) + stap_a_units(
                payload@,
                offset as int,
            ),
        ensures
            stap_a_units(payload@, 1) == unit_views(nal_units@),
        decreases length - offset,
    {
        let size: usize = (payload[offset] as usize) * 256 + (payload[offset + 1] as usize);
        let begin: usize = offset + 2;
        if size == 0 || size > length - begin {
            assert(stap_a_units(payload@, offset as int) =~= Seq::empty());
            break ;
        }
        let ghost before = unit_views(nal_units@);
        let entry = slice_subrange(payload, begin, begin + size);
        let nal_unit = add_prefix_to_nal_unit(entry);
        nal_units.push(nal_unit);
        assert(unit_views(nal_units@) =~= before + seq![
            with_start_code(payload@.subrange(begin as int, begin + size)),
        ]);
        offset = begin + size;
    }
    Some(nal_units)
}

/// Counts the bytes at the end of an aggregation packet that
/// `convert_stap_a_to_nal_units` drops without an error: zero for a packet
/// that is made of whole entries, and for a payload too short to hold one.
pub fn stap_a_dropped_bytes(payload: &[u8]) -> (dropped: usize)
    ensures
        payload@.len() >= 1 ==> dropped == payload@.len() - stap_a_end(payload@, 1),
        payload@.len() == 0 ==> dropped == 0,
{
    let length: usize = payload.len();
    if length == 0 {
        return 0;
    }
    let mut offset: usize = 1;
    while length - offset >= 2
        invariant
            length == payload@.len(),
            1 <= offset <= length,
            stap_a_end(payload@, 1) == stap_a_end(payload@, offset as int),
        ensures
            length == payload@.len(),
            1 <= offset <= length,
            stap_a_end(payload@, 1) == offset,
        decreases length - offset,
    {
        let size: usize = (payload[offset] as usize) * 256 + (payload[offset + 1] as usize);
        let begin: usize = offset + 2;
        if size == 0 || size > length - begin {
            break ;
        }
        offset = begin + size;
    }
    length - offset
}

/// Takes in one fragment of a fragmented unit.
///
/// A fragment with the start marker resets the accumulator to the rebuilt
/// header; every fragment appends its body. The fragment with the end marker
/// hands the unit out behind a start code and leaves the accumulator empty.
/// A payload shorter than the two header bytes changes nothing.
pub fn convert_fu_a_to_nal_units(payload: &[u8], nal_buffer: &mut Vec<u8>) -> (units: Option<
    Vec<Vec<u8>>,
>)
    ensures
        emitted(units) == fu_a_output(payload@, old(nal_buffer)@),
        final(nal_buffer)@ == fu_a_accumulator(payload@, old(nal_buffer)@),
{
    if payload.len() < 2 {
        return None;
    }
    let nal_header: u8 = payload[0];
    let fu_header: u8 = payload[1];

    let start = fu_header & 0x80 != 0;
    if start {
        let reconstructed_nal_header: u8 = (nal_header & 0xE0) | (fu_header & 0x1F);
        nal_buffer.clear();
        nal_buffer.push(reconstructed_nal_header);
    }
    nal_buffer.extend_from_slice(slice_subrange(payload, 2, payload.len()));
    assert(nal_buffer@ =~= fu_a_assembled(payload@, old(nal_buffer)@));

    let end = fu_header & 0x40 != 0;
    if end {
        let mut units: Vec<Vec<u8>> = Vec::new();
        units.push(add_prefix_to_nal_unit(nal_buffer.as_slice()));
        nal_buffer.clear();
        assert(unit_views(units@) =~= seq![
            with_start_code(fu_a_assembled(payload@, old(nal_buffer)@)),
        ]);
        Some(units)
    } else {
        None
    }
}

/// Whether the bytes begin with the three-byte start code `00 00 01`.
pub open spec fn has_short_start_code(nal_unit: Seq<u8>) -> bool {
    nal_unit.len() >= 3 && nal_unit[0] == 0 && nal_unit[1] == 0 && nal_unit[2] == 1
}

/// Whether the bytes begin with the four-byte start code `00 00 00 01`.
pub open spec fn has_long_start_code(nal_unit: Seq<u8>) -> bool {
    nal_unit.len() >= 4 && nal_unit[0] == 0 && nal_unit[1] == 0 && nal_unit[2] == 0 && nal_unit[3]
        == 1
}

/// The length of the start code that the bytes begin with, or 0 if they
/// begin with none.
pub open spec fn start_code_len(nal_unit: Seq<u8>) -> int {
    if has_short_start_code(nal_unit) {
        3
    } else if has_long_start_code(nal_unit) {
        4
    } else {
        0
    }
}

/// A framed unit taken apart: its type and the unit without the start code.
/// `None` where the bytes begin with no start code, or where no header byte
/// follows it.
pub open spec fn deframed(nal_unit: Seq<u8>) -> Option<(NalType, Seq<u8>)> {
    let skip = start_code_len(nal_unit);
    if skip == 0 || nal_unit.len() <= skip {
        None
    } else {
        Some((header_type(nal_unit[skip]), nal_unit.subrange(skip, nal_unit.len() as int)))
    }
}

/// Splits a framed NAL unit into its type and the unit without its start
/// code. Both the three-byte and the four-byte start code are recognized.
/// Anything else fails with `MalformedNalUnit`, and so does a start code
/// that no header byte follows.
pub fn split_prefix_code(nal_unit: &[u8]) -> (split: Result<(NalType, &[u8]), Error>)
    ensures
        match split {
            Ok((nal_type, unit)) => deframed(nal_unit@) == Some((nal_type, unit@)),
            Err(error) => error == Error::MalformedNalUnit && deframed(nal_unit@).is_none(),
        },
{
    let length: usize = nal_unit.len();
    if length > 3 && nal_unit[0] == 0 && nal_unit[1] == 0 && nal_unit[2] == 1 {
        let unit = slice_subrange(nal_unit, 3, length);
        Ok((NalType::from(nal_unit[3] & 0x1F), unit))
    } else if length > 4 && nal_unit[0] == 0 && nal_unit[1] == 0 && nal_unit[2] == 0 && nal_unit[3]
        == 1 {
        let unit = slice_subrange(nal_unit, 4, length);
        Ok((NalType::from(nal_unit[4] & 0x1F), unit))
    } else {
        Err(Error::MalformedNalUnit)
    }
}

/// The type of a framed NAL unit, or `MalformedNalUnit` where
/// `split_prefix_code` fails.
pub fn get_prefix_code(nal_unit: &[u8]) -> (nal_type: Result<NalType, Error>)
    ensures
        match nal_type {
            Ok(found) => deframed(nal_unit@).is_some() && deframed(nal_unit@).unwrap().0 == found,
            Err(error) => error == Error::MalformedNalUnit && deframed(nal_unit@).is_none(),
        },
{
    match split_prefix_code(nal_unit) {
        Ok((found, _)) => Ok(found),
        Err(error) => Err(error),
    }
}

} // verus!
