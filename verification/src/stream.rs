//! Stream-level laws of the parser: what feeding whole byte sequences does.
//!
//! [`run`] and [`outputs`] lift the single-byte transition of
//! [`ParserView`] to byte sequences; the proof functions here state the
//! frame-level guarantees of the protocol.

use vstd::prelude::*;

use crate::parser::ParserView;
use crate::parser::State;
use crate::protocol::checksum_complement;
use crate::protocol::decode_payload;
use crate::protocol::lemma_sum_bytes_push;
use crate::protocol::sum_bytes;
use crate::protocol::MAX_PAYLOAD_LEN;
use crate::protocol::SYNC;
use crate::records::PacketType;

verus! {

broadcast use vstd::seq_lib::group_seq_lib_default;

/// The parser state after feeding `bytes`, one at a time, from state `v`.
pub open spec fn run(v: ParserView, bytes: Seq<u8>) -> ParserView
    decreases bytes.len(),
{
    if bytes.len() == 0 {
        v
    } else {
        run(v.step(bytes.first()), bytes.drop_first())
    }
}

/// What each fed byte of `bytes` yields, in order, starting from state `v`.
pub open spec fn outputs(v: ParserView, bytes: Seq<u8>) -> Seq<Option<Seq<PacketType>>>
    decreases bytes.len(),
{
    if bytes.len() == 0 {
        Seq::empty()
    } else {
        seq![v.output(bytes.first())] + outputs(v.step(bytes.first()), bytes.drop_first())
    }
}

/// A correctly framed payload on the wire: the two sync bytes, the length
/// byte, the payload, and the one's-complement checksum of the payload.
pub open spec fn frame_bytes(payload: Seq<u8>) -> Seq<u8> {
    seq![SYNC, SYNC, payload.len() as u8] + payload + seq![
        checksum_complement(sum_bytes(payload)),
    ]
}

/// Every fed byte yields one output.
pub proof fn lemma_outputs_len(v: ParserView, bytes: Seq<u8>)
    ensures
        outputs(v, bytes).len() == bytes.len(),
    decreases bytes.len(),
{
    if bytes.len() > 0 {
        lemma_outputs_len(v.step(bytes.first()), bytes.drop_first());
    }
}

/// Well-formedness is preserved over any fed byte sequence.
pub proof fn lemma_run_wf(v: ParserView, bytes: Seq<u8>)
    requires
        v.wf(),
    ensures
        run(v, bytes).wf(),
    decreases bytes.len(),
{
    if bytes.len() > 0 {
        crate::parser::lemma_step_preserves_wf(v, bytes.first());
        lemma_run_wf(v.step(bytes.first()), bytes.drop_first());
    }
}

/// Feeding a concatenation is feeding the parts in turn.
pub proof fn lemma_run_add(v: ParserView, a: Seq<u8>, b: Seq<u8>)
    ensures
        run(v, a + b) == run(run(v, a), b),
    decreases a.len(),
{
    if a.len() == 0 {
        assert(a + b =~= b);
    } else {
        assert((a + b).first() == a.first());
        assert((a + b).drop_first() =~= a.drop_first() + b);
        lemma_run_add(v.step(a.first()), a.drop_first(), b);
    }
}

/// The outputs of a concatenation are the outputs of the parts in turn.
pub proof fn lemma_outputs_add(v: ParserView, a: Seq<u8>, b: Seq<u8>)
    ensures
        outputs(v, a + b) == outputs(v, a) + outputs(run(v, a), b),
    decreases a.len(),
{
    if a.len() == 0 {
        assert(a + b =~= b);
        assert(outputs(v, a + b) =~= outputs(v, a) + outputs(run(v, a), b));
    } else {
        assert((a + b).first() == a.first());
        assert((a + b).drop_first() =~= a.drop_first() + b);
        lemma_outputs_add(v.step(a.first()), a.drop_first(), b);
        assert(outputs(v, a + b) =~= outputs(v, a) + outputs(run(v, a), b));
    }
}

/// No fed byte of the run yielded records.
pub open spec fn all_none(outs: Seq<Option<Seq<PacketType>>>) -> bool {
    forall|i: int| 0 <= i < outs.len() ==> outs[i] is None
}

/// The parser state while a frame's payload is coming in: the first `k`
/// payload bytes are accumulated and summed, the rest are still owed.
spec fn accumulating(payload: Seq<u8>, k: int) -> ParserView {
    ParserView {
        state: State::ValidPacket,
        plength: (payload.len() - k) as u8,
        payload: payload.take(k),
        checksum: sum_bytes(payload.take(k)),
    }
}

/// From any state still hunting for sync, the two sync bytes and a valid
/// length byte open a frame, yielding nothing.
proof fn lemma_sync_header(v: ParserView, len_byte: u8)
    requires
        v.wf(),
        !(v.state is ValidPacket),
        len_byte < SYNC,
    ensures
        run(v, seq![SYNC, SYNC, len_byte]) == (ParserView {
            state: State::ValidPacket,
            plength: len_byte,
            payload: Seq::empty(),
            checksum: 0,
        }),
        outputs(v, seq![SYNC, SYNC, len_byte]).len() == 3,
        all_none(outputs(v, seq![SYNC, SYNC, len_byte])),
{
    reveal_with_fuel(run, 5);
    reveal_with_fuel(outputs, 5);
    let s = seq![SYNC, SYNC, len_byte];
    assert(s.first() == SYNC);
    assert(s.drop_first() =~= seq![SYNC, len_byte]);
    assert(s.drop_first().drop_first() =~= seq![len_byte]);
    assert(seq![len_byte].drop_first() =~= Seq::<u8>::empty());
    let v1 = v.step(SYNC);
    let v2 = v1.step(SYNC);
    let v3 = v2.step(len_byte);
    assert(v.payload =~= Seq::<u8>::empty());
    assert(v2.state is SecondSync);
    assert(v3 =~= (ParserView {
        state: State::ValidPacket,
        plength: len_byte,
        payload: Seq::empty(),
        checksum: 0,
    }));
    assert(run(v, s) == v3);
    lemma_outputs_len(v, s);
    assert(seq![SYNC, len_byte].first() == SYNC);
    assert(seq![len_byte].first() == len_byte);
    assert(outputs(v, s) =~= seq![v.output(SYNC), v1.output(SYNC), v2.output(len_byte)]);
    assert(all_none(outputs(v, s)));
}

/// Feeding the declared number of payload bytes accumulates them all, in
/// order, yielding nothing along the way.
proof fn lemma_accumulate(payload: Seq<u8>, k: int)
    requires
        0 <= k <= payload.len(),
        payload.len() <= MAX_PAYLOAD_LEN,
    ensures
        run(accumulating(payload, k), payload.skip(k)) == accumulating(
            payload,
            payload.len() as int,
        ),
        all_none(outputs(accumulating(payload, k), payload.skip(k))),
    decreases payload.len() - k,
{
    let v = accumulating(payload, k);
    let rest = payload.skip(k);
    if k == payload.len() {
        assert(rest =~= Seq::<u8>::empty());
    } else {
        let data = payload[k];
        assert(rest.first() == data);
        assert(rest.drop_first() =~= payload.skip(k + 1));
        assert(v.plength != 0);
        lemma_sum_bytes_push(payload.take(k), data);
        assert(payload.take(k).push(data) =~= payload.take(k + 1));
        assert(v.step(data) =~= accumulating(payload, k + 1));
        lemma_accumulate(payload, k + 1);
        assert(run(v, rest) == accumulating(payload, payload.len() as int));
        lemma_outputs_len(v.step(data), rest.drop_first());
        assert forall|i: int| 0 <= i < outputs(v, rest).len() implies outputs(v, rest)[i]
            is None by {
            if i > 0 {
                assert(outputs(v, rest)[i] == outputs(v.step(data), payload.skip(k + 1))[i - 1]);
            }
        }
    }
}

/// Feeding a frame up to but not including its checksum byte leaves the
/// parser holding exactly the frame's payload, yielding nothing.
proof fn lemma_feed_frame_body(v: ParserView, payload: Seq<u8>)
    requires
        v.wf(),
        !(v.state is ValidPacket),
        payload.len() <= MAX_PAYLOAD_LEN,
    ensures
        run(v, seq![SYNC, SYNC, payload.len() as u8] + payload) == accumulating(
            payload,
            payload.len() as int,
        ),
        outputs(v, seq![SYNC, SYNC, payload.len() as u8] + payload).len() == payload.len() + 3,
        all_none(outputs(v, seq![SYNC, SYNC, payload.len() as u8] + payload)),
{
    let header = seq![SYNC, SYNC, payload.len() as u8];
    let len_byte = payload.len() as u8;
    lemma_sync_header(v, len_byte);
    lemma_run_add(v, header, payload);
    lemma_outputs_add(v, header, payload);
    let start = run(v, header);
    assert(start =~= accumulating(payload, 0));
    assert(payload.skip(0) =~= payload);
    lemma_accumulate(payload, 0);
    lemma_outputs_len(start, payload);
    assert forall|i: int| 0 <= i < outputs(v, header + payload).len() implies outputs(
        v,
        header + payload,
    )[i] is None by {
        if i < 3 {
            assert(outputs(v, header + payload)[i] == outputs(v, header)[i]);
        } else {
            assert(outputs(v, header + payload)[i] == outputs(start, payload)[i - 3]);
        }
    }
}

/// Law: a correctly framed payload, fed from any state that is not mid
/// payload, yields nothing until its last byte, yields the full decode of
/// the payload on that byte, and leaves the parser as freshly constructed.
pub proof fn lemma_frame_roundtrip(v: ParserView, payload: Seq<u8>)
    requires
        v.wf(),
        !(v.state is ValidPacket),
        payload.len() <= MAX_PAYLOAD_LEN,
    ensures
        run(v, frame_bytes(payload)) == ParserView::init(),
        outputs(v, frame_bytes(payload)).len() == payload.len() + 4,
        forall|i: int| 0 <= i < payload.len() + 3 ==> outputs(v, frame_bytes(payload))[i] is None,
        outputs(v, frame_bytes(payload))[payload.len() as int + 3] == Some(decode_payload(payload)),
{
    reveal_with_fuel(run, 3);
    reveal_with_fuel(outputs, 3);
    let body = seq![SYNC, SYNC, payload.len() as u8] + payload;
    let ck = checksum_complement(sum_bytes(payload));
    let tail = seq![ck];
    assert(frame_bytes(payload) =~= body + tail);
    lemma_feed_frame_body(v, payload);
    let full = accumulating(payload, payload.len() as int);
    assert(payload.take(payload.len() as int) =~= payload);
    lemma_run_add(v, body, tail);
    lemma_outputs_add(v, body, tail);
    assert(tail.first() == ck);
    assert(tail.drop_first() =~= Seq::<u8>::empty());
    assert(full.output(ck) == Some(decode_payload(payload)));
    assert(full.step(ck) == ParserView::init());
    assert(outputs(full, tail) =~= seq![Some(decode_payload(payload))]);
    assert(run(v, frame_bytes(payload)) == ParserView::init());
    assert forall|i: int| 0 <= i < payload.len() + 3 implies outputs(v, frame_bytes(payload))[i]
        is None by {
        assert(outputs(v, frame_bytes(payload))[i] == outputs(v, body)[i]);
    }
    assert(outputs(v, frame_bytes(payload))[payload.len() as int + 3] == outputs(full, tail)[0]);
}

/// Law: a frame whose checksum byte arrives with any single bit flipped
/// yields no records on any of its bytes, and still leaves the parser as
/// freshly constructed.
pub proof fn lemma_checksum_flip(v: ParserView, payload: Seq<u8>, bit: u8)
    requires
        v.wf(),
        !(v.state is ValidPacket),
        payload.len() <= MAX_PAYLOAD_LEN,
        bit < 8,
    ensures
        ({
            let corrupted = seq![SYNC, SYNC, payload.len() as u8] + payload + seq![
                checksum_complement(sum_bytes(payload)) ^ (1u8 << bit),
            ];
            &&& run(v, corrupted) == ParserView::init()
            &&& outputs(v, corrupted).len() == payload.len() + 4
            &&& all_none(outputs(v, corrupted))
        }),
{
    reveal_with_fuel(run, 3);
    reveal_with_fuel(outputs, 3);
    let body = seq![SYNC, SYNC, payload.len() as u8] + payload;
    let good = checksum_complement(sum_bytes(payload));
    let flipped = good ^ (1u8 << bit);
    let tail = seq![flipped];
    let corrupted = body + tail;
    assert((seq![SYNC, SYNC, payload.len() as u8] + payload + seq![
        checksum_complement(sum_bytes(payload)) ^ (1u8 << bit),
    ]) =~= corrupted);
    assert(flipped != good) by (bit_vector)
        requires
            flipped == good ^ (1u8 << bit),
            bit < 8,
    ;
    lemma_feed_frame_body(v, payload);
    let full = accumulating(payload, payload.len() as int);
    assert(payload.take(payload.len() as int) =~= payload);
    lemma_run_add(v, body, tail);
    lemma_outputs_add(v, body, tail);
    assert(tail.first() == flipped);
    assert(tail.drop_first() =~= Seq::<u8>::empty());
    assert(full.output(flipped) is None);
    assert(full.step(flipped) == ParserView::init());
    lemma_outputs_len(full, tail);
    assert forall|i: int| 0 <= i < outputs(v, corrupted).len() implies outputs(v, corrupted)[i]
        is None by {
        if i < payload.len() + 3 {
            assert(outputs(v, corrupted)[i] == outputs(v, body)[i]);
        } else {
            assert(outputs(v, corrupted)[i] == outputs(full, tail)[i - (payload.len() + 3)]);
        }
    }
}

/// Law: noise bytes that leave the parser still hunting for sync never
/// affect the frame that follows: it yields byte for byte what it would
/// yield fed to a freshly constructed parser, and afterwards the parser is
/// freshly constructed again.
///
/// Noise that opens a frame of its own — two sync bytes and a valid length
/// byte it never completes — does steal the following bytes, which is why
/// the conclusion asks the noise to leave payload accumulation.
pub proof fn lemma_resync(noise: Seq<u8>, payload: Seq<u8>)
    requires
        !(run(ParserView::init(), noise).state is ValidPacket),
        payload.len() <= MAX_PAYLOAD_LEN,
    ensures
        outputs(run(ParserView::init(), noise), frame_bytes(payload)) == outputs(
            ParserView::init(),
            frame_bytes(payload),
        ),
        run(ParserView::init(), noise + frame_bytes(payload)) == ParserView::init(),
{
    let fresh = ParserView::init();
    let frame = frame_bytes(payload);
    assert(fresh.wf());
    lemma_run_wf(fresh, noise);
    let v = run(fresh, noise);
    lemma_frame_roundtrip(v, payload);
    lemma_frame_roundtrip(fresh, payload);
    assert forall|i: int| 0 <= i < outputs(v, frame).len() implies outputs(v, frame)[i] == outputs(
        fresh,
        frame,
    )[i] by {
        if i < payload.len() + 3 {
            assert(outputs(v, frame)[i] is None);
            assert(outputs(fresh, frame)[i] is None);
        } else {
            assert(i == payload.len() + 3);
        }
    }
    assert(outputs(v, frame) =~= outputs(fresh, frame));
    lemma_run_add(fresh, noise, frame);
}

/// Law: every terminal outcome of a frame — success, checksum failure, or a
/// length-violation rejection — moves the parser to exactly the state of a
/// freshly constructed one, so everything it does afterwards is what a
/// fresh parser would do.
pub proof fn lemma_terminal_reset(v: ParserView, data: u8)
    requires
        v.wf(),
        (v.state is ValidPacket && v.plength == 0) || (v.state is SecondSync && data > SYNC),
    ensures
        v.step(data) == ParserView::init(),
{
    if v.state is SecondSync {
        assert(v.payload =~= Seq::<u8>::empty());
        assert(v.step(data) =~= ParserView::init());
    }
}

} // verus!
