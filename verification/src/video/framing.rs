//! What holds of the framer: aggregation packets give their units back in
//! order, a run of fragments gives one unit, and taking the start code off
//! undoes putting it on.

use vstd::prelude::*;

use crate::video::encoding::{
    deframed, entry_size, fu_a_assembled, fu_a_body, fu_a_header, fu_a_is_end, fu_a_is_start,
    has_long_start_code, header_type, reframe_accumulator, reframe_output, stap_a_units,
    with_start_code, NalType,
};
use crate::video::handler::is_batch;

verus! {

/// A unit that fits an entry of an aggregation packet: not empty, and short
/// enough for a two-byte length.
pub open spec fn fits_entry(unit: Seq<u8>) -> bool {
    0 < unit.len() <= 65535
}

/// One entry of an aggregation packet: the length of the unit in two bytes,
/// big-endian, then the unit.
pub open spec fn stap_a_entry(unit: Seq<u8>) -> Seq<u8> {
    seq![(unit.len() / 256) as u8, (unit.len() % 256) as u8] + unit
}

/// The entries of the given units, one after the other.
pub open spec fn stap_a_entries(units: Seq<Seq<u8>>) -> Seq<u8>
    decreases units.len(),
{
    if units.len() == 0 {
        Seq::empty()
    } else {
        stap_a_entry(units[0]) + stap_a_entries(units.drop_first())
    }
}

/// Each of the given units behind the four-byte start code.
pub open spec fn framed(units: Seq<Seq<u8>>) -> Seq<Seq<u8>> {
    Seq::new(units.len(), |i: int| with_start_code(units[i]))
}

/// Bytes at which the walk over an aggregation packet ends: too few for a
/// length, or a length that is zero or larger than what follows it.
pub open spec fn ends_walk(tail: Seq<u8>) -> bool {
    tail.len() < 2 || entry_size(tail, 0) == 0 || entry_size(tail, 0) > tail.len() - 2
}

proof fn lemma_walk_entries(before: Seq<u8>, units: Seq<Seq<u8>>, tail: Seq<u8>)
    requires
        forall|i: int| 0 <= i < units.len() ==> fits_entry(#[trigger] units[i]),
        ends_walk(tail),
    ensures
        stap_a_units(before + stap_a_entries(units) + tail, before.len() as int) == framed(units),
    decreases units.len(),
{
    let payload = before + stap_a_entries(units) + tail;
    let offset = before.len() as int;
    if units.len() == 0 {
        assert(stap_a_entries(units) =~= Seq::<u8>::empty());
        assert(payload =~= before + tail);
        if tail.len() >= 2 {
            assert(payload[offset] == tail[0]);
            assert(payload[offset + 1] == tail[1]);
            assert(entry_size(payload, offset) == entry_size(tail, 0));
        }
        assert(stap_a_units(payload, offset) =~= framed(units));
    } else {
        let unit = units[0];
        let rest = units.drop_first();
        let size = unit.len() as int;
        assert(fits_entry(unit));
        let high = (size / 256) as u8;
        let low = (size % 256) as u8;
        assert(high as int * 256 + low as int == size);
        assert(stap_a_entries(units) == stap_a_entry(unit) + stap_a_entries(rest));
        assert(payload[offset] == high);
        assert(payload[offset + 1] == low);
        assert(entry_size(payload, offset) == size);
        let begin = offset + 2;
        assert(payload.subrange(begin, begin + size) =~= unit);
        let consumed = before + stap_a_entry(unit);
        assert(payload =~= consumed + stap_a_entries(rest) + tail);
        assert(consumed.len() == begin + size);
        assert forall|i: int| 0 <= i < rest.len() implies fits_entry(#[trigger] rest[i]) by {
            assert(rest[i] == units[i + 1]);
        }
        lemma_walk_entries(consumed, rest, tail);
        assert(stap_a_units(payload, begin + size) == framed(rest));
        assert(stap_a_units(payload, offset) == seq![with_start_code(unit)] + framed(rest));
        assert(seq![with_start_code(unit)] + framed(rest) =~= framed(units)) by {
            assert forall|i: int| 0 <= i < units.len() implies (seq![with_start_code(unit)]
                + framed(rest))[i] == framed(units)[i] by {
                if i > 0 {
                    assert(rest[i - 1] == units[i]);
                }
            }
        }
    }
}

/// An aggregation packet built from units that each fit an entry is taken
/// apart into exactly those units, in their order, each behind a start code.
/// Bytes after the last entry at which the walk ends (a length cut short, a
/// zero length, or a length that runs past the end of the packet) are
/// dropped: the units before them are still handed out.
pub proof fn lemma_stap_a_units_in_order(
    header: u8,
    units: Seq<Seq<u8>>,
    tail: Seq<u8>,
    accumulator: Seq<u8>,
)
    requires
        header_type(header) == NalType::STAP_A,
        forall|i: int| 0 <= i < units.len() ==> fits_entry(#[trigger] units[i]),
        ends_walk(tail),
    ensures
        reframe_output(seq![header] + stap_a_entries(units) + tail, accumulator) == Some(
            framed(units),
        ),
        reframe_accumulator(seq![header] + stap_a_entries(units) + tail, accumulator)
            == accumulator,
{
    let payload = seq![header] + stap_a_entries(units) + tail;
    assert(payload[0] == header);
    lemma_walk_entries(seq![header], units, tail);
}

/// The accumulator after a run of payloads, taken in order.
pub open spec fn accumulator_after(payloads: Seq<Seq<u8>>, accumulator: Seq<u8>) -> Seq<u8>
    decreases payloads.len(),
{
    if payloads.len() == 0 {
        accumulator
    } else {
        reframe_accumulator(
            payloads.last(),
            accumulator_after(payloads.drop_last(), accumulator),
        )
    }
}

/// The bodies of the given fragments, one after the other.
pub open spec fn fragment_bodies(fragments: Seq<Seq<u8>>) -> Seq<u8>
    decreases fragments.len(),
{
    if fragments.len() == 0 {
        Seq::empty()
    } else {
        fragment_bodies(fragments.drop_last()) + fu_a_body(fragments.last())
    }
}

/// A run of fragments that carries one unit: each is a fragmentation unit
/// with both header bytes, the first and only the first has the start
/// marker, the last and only the last has the end marker.
pub open spec fn is_fragment_run(fragments: Seq<Seq<u8>>) -> bool {
    &&& fragments.len() >= 1
    &&& forall|i: int|
        0 <= i < fragments.len() ==> {
            &&& (#[trigger] fragments[i]).len() >= 2
            &&& header_type(fragments[i][0]) == NalType::FU_A
            &&& (fu_a_is_start(fragments[i][1]) <==> i == 0)
            &&& (fu_a_is_end(fragments[i][1]) <==> i == fragments.len() - 1)
        }
}

proof fn lemma_run_accumulates(fragments: Seq<Seq<u8>>, accumulator: Seq<u8>, taken: int)
    requires
        is_fragment_run(fragments),
        1 <= taken < fragments.len(),
    ensures
        accumulator_after(fragments.take(taken), accumulator) == seq![
            fu_a_header(fragments[0][0], fragments[0][1]),
        ] + fragment_bodies(fragments.take(taken)),
    decreases taken,
{
    let prefix = fragments.take(taken);
    let fragment = fragments[taken - 1];
    assert(prefix.last() == fragment);
    assert(prefix.drop_last() =~= fragments.take(taken - 1));
    if taken == 1 {
        assert(fragments.take(0) =~= Seq::<Seq<u8>>::empty());
        assert(accumulator_after(fragments.take(0), accumulator) == accumulator);
        assert(fragment_bodies(fragments.take(0)) =~= Seq::<u8>::empty());
        assert(fragment_bodies(prefix) =~= fu_a_body(fragment));
    } else {
        lemma_run_accumulates(fragments, accumulator, taken - 1);
        assert(fu_a_assembled(fragment, accumulator_after(fragments.take(taken - 1), accumulator))
            =~= seq![fu_a_header(fragments[0][0], fragments[0][1])] + fragment_bodies(prefix));
    }
}

/// A unit sent as a run of fragments comes out once, with the last fragment:
/// every earlier fragment gives nothing, and the last gives one unit behind a
/// start code, made of the rebuilt header byte and the bodies of all
/// fragments in order. The accumulator is empty afterwards, whatever it held
/// before the run.
pub proof fn lemma_fragments_give_one_unit(fragments: Seq<Seq<u8>>, accumulator: Seq<u8>)
    requires
        is_fragment_run(fragments),
    ensures
        forall|i: int|
            0 <= i < fragments.len() - 1 ==> reframe_output(
                #[trigger] fragments[i],
                accumulator_after(fragments.take(i), accumulator),
            ).is_none(),
        reframe_output(
            fragments.last(),
            accumulator_after(fragments.drop_last(), accumulator),
        ) == Some(
            seq![
                with_start_code(
                    seq![fu_a_header(fragments[0][0], fragments[0][1])] + fragment_bodies(
                        fragments,
                    ),
                ),
            ],
        ),
        accumulator_after(fragments, accumulator) == Seq::<u8>::empty(),
{
    let last = fragments.last();
    let before = accumulator_after(fragments.drop_last(), accumulator);
    let header = fu_a_header(fragments[0][0], fragments[0][1]);
    assert(last == fragments[fragments.len() - 1]);
    if fragments.len() == 1 {
        assert(fragments.drop_last() =~= Seq::<Seq<u8>>::empty());
        assert(fragment_bodies(fragments.drop_last()) =~= Seq::<u8>::empty());
        assert(fu_a_assembled(last, before) =~= seq![header] + fragment_bodies(fragments));
    } else {
        assert(fragments.drop_last() =~= fragments.take(fragments.len() - 1));
        lemma_run_accumulates(fragments, accumulator, fragments.len() - 1);
        assert(fu_a_assembled(last, before) =~= seq![header] + fragment_bodies(fragments));
    }
}

/// Taking the start code off a framed unit gives back the unit and the type
/// that its header byte announces.
pub proof fn lemma_deframe_inverts_framing(unit: Seq<u8>)
    requires
        unit.len() > 0,
    ensures
        deframed(with_start_code(unit)) == Some((header_type(unit[0]), unit)),
{
    let framed_unit = with_start_code(unit);
    assert(framed_unit[0] == 0 && framed_unit[1] == 0 && framed_unit[2] == 0 && framed_unit[3]
        == 1);
    assert(framed_unit[4] == unit[0]);
    assert(framed_unit.subrange(4, framed_unit.len() as int) =~= unit);
}

/// A payload that is neither an aggregation packet nor a fragment is handed
/// out as one unit, and deframing that unit gives back the payload and its
/// type.
pub proof fn lemma_deframe_inverts_reframe(payload: Seq<u8>, accumulator: Seq<u8>)
    requires
        payload.len() > 0,
        header_type(payload[0]) != NalType::STAP_A,
        header_type(payload[0]) != NalType::FU_A,
    ensures
        reframe_output(payload, accumulator) == Some(seq![with_start_code(payload)]),
        reframe_accumulator(payload, accumulator) == accumulator,
        deframed(with_start_code(payload)) == Some((header_type(payload[0]), payload)),
{
    lemma_deframe_inverts_framing(payload);
}

proof fn lemma_entries_begin_with_start_code(payload: Seq<u8>, offset: int)
    ensures
        forall|i: int|
            0 <= i < stap_a_units(payload, offset).len() ==> has_long_start_code(
                #[trigger] stap_a_units(payload, offset)[i],
            ),
    decreases payload.len() - offset,
{
    if offset < 0 || offset + 2 > payload.len() {
    } else {
        let size = entry_size(payload, offset);
        let begin = offset + 2;
        if size == 0 || begin + size > payload.len() {
        } else {
            lemma_entries_begin_with_start_code(payload, begin + size);
            let rest = stap_a_units(payload, begin + size);
            let all = stap_a_units(payload, offset);
            assert forall|i: int| 0 <= i < all.len() implies has_long_start_code(
                #[trigger] all[i],
            ) by {
                if i > 0 {
                    assert(all[i] == rest[i - 1]);
                }
            }
        }
    }
}

/// Every unit that the framer hands out begins with the four-byte start
/// code, whatever the payload and the accumulator hold.
pub proof fn lemma_emitted_units_begin_with_start_code(payload: Seq<u8>, accumulator: Seq<u8>)
    ensures
        reframe_output(payload, accumulator) matches Some(units) ==> forall|i: int|
            0 <= i < units.len() ==> has_long_start_code(#[trigger] units[i]),
{
    if payload.len() > 0 && header_type(payload[0]) == NalType::STAP_A {
        lemma_entries_begin_with_start_code(payload, 1);
    }
}

proof fn lemma_entries_are_framed(payload: Seq<u8>, offset: int)
    ensures
        is_batch(stap_a_units(payload, offset)),
    decreases payload.len() - offset,
{
    if offset < 0 || offset + 2 > payload.len() {
    } else {
        let size = entry_size(payload, offset);
        let begin = offset + 2;
        if size == 0 || begin + size > payload.len() {
        } else {
            let unit = payload.subrange(begin, begin + size);
            lemma_deframe_inverts_framing(unit);
            lemma_entries_are_framed(payload, begin + size);
            let rest = stap_a_units(payload, begin + size);
            let all = stap_a_units(payload, offset);
            assert forall|i: int| 0 <= i < all.len() implies deframed(#[trigger] all[i]).is_some() by {
                if i > 0 {
                    assert(all[i] == rest[i - 1]);
                }
            }
        }
    }
}

/// What the framer hands out can go straight into the decode pipeline:
/// every unit begins with a start code that a header byte follows. The one
/// exception is left out: a last fragment that completes a unit without a
/// single byte, which can only happen when no first fragment came before.
pub proof fn lemma_emitted_units_are_framed(payload: Seq<u8>, accumulator: Seq<u8>)
    requires
        payload.len() >= 2 && header_type(payload[0]) == NalType::FU_A ==> fu_a_assembled(
            payload,
            accumulator,
        ).len() > 0,
    ensures
        reframe_output(payload, accumulator) matches Some(units) ==> is_batch(units),
{
    if payload.len() == 0 {
    } else if header_type(payload[0]) == NalType::STAP_A {
        lemma_entries_are_framed(payload, 1);
    } else if header_type(payload[0]) == NalType::FU_A {
        if payload.len() >= 2 {
            lemma_deframe_inverts_framing(fu_a_assembled(payload, accumulator));
        }
    } else {
        lemma_deframe_inverts_framing(payload);
    }
}

} // verus!
