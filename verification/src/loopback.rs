//! A packet that is sent and comes back.

use vstd::prelude::*;
use vstd::arithmetic::div_mod::{lemma_fundamental_div_mod, lemma_mod_bound};
use crate::bus::{ReplyView, StepView};
use crate::operation::{run, takes, trace, Operation};
use crate::receive::{spec_packet_bytes, spec_packet_destination, ReceiveState};
use crate::receive_runs::{assembled, lemma_receive_completes};
use crate::registers::INTERRUPT_RX_ERROR;
use crate::transmit::{destination_word, TransmitState};
use crate::words::{lemma_word_count, padded_word};

verus! {

/// The words that the sending of a packet writes to the data port, in order.
pub open spec fn sent_words(t: TransmitState) -> Seq<Seq<u8>> {
    Seq::new(t.words(), |k: int| padded_word(t.data, t.width.spec_byte_count() as nat, k as nat))
}

/// The replies of a device that gives back the packet of `t`: the words that
/// `t` wrote, its length in the length register and what `t` wrote to the
/// destination register in the destination register, with an interrupt status
/// read as `status` at the end.
pub open spec fn echo_replies(t: TransmitState, occupancy: u32, length: u32, status: u32) -> Seq<
    ReplyView,
> {
    ReceiveState::drain_replies(
        occupancy,
        length,
        destination_word(t.destination),
        sent_words(t),
    ) + seq![ReplyView::Value(status)]
}

/// The low four bits of a destination come back as they were written.
pub proof fn lemma_destination_returns(destination: u8)
    ensures
        spec_packet_destination(destination_word(destination)) == destination & 0x0f,
{
    assert((((destination & 0x0f) as u32) & 0xff) as u8 == destination & 0x0f) by (bit_vector);
}

/// The words that are sent, put one after the other, begin with the packet.
proof fn lemma_sent_words_hold_packet(t: TransmitState, buffer: Seq<u8>)
    requires
        t.words() * t.width.spec_byte_count() <= buffer.len(),
    ensures
        assembled(buffer, t.width.spec_byte_count() as nat, sent_words(t), t.words()).take(
            t.data.len() as int,
        ) == t.data,
{
    let width = t.width.spec_byte_count() as nat;
    let w = width as int;
    let count = t.words();
    let whole = assembled(buffer, width, sent_words(t), count);
    lemma_word_count(t.data.len(), width);
    assert forall|i: int| 0 <= i < t.data.len() implies whole[i] == t.data[i] by {
        lemma_fundamental_div_mod(i, w);
        lemma_mod_bound(i, w);
        let k = i / w;
        assert(0 <= k) by (nonlinear_arith)
            requires
                i >= 0,
                w > 0,
                k == i / w,
        ;
        assert(k < count) by (nonlinear_arith)
            requires
                i == w * k + i % w,
                0 <= i % w < w,
                i < count * w,
        ;
        assert(k * w == w * k) by (nonlinear_arith);
        assert(sent_words(t)[k][i % w] == t.data[k * w + i % w]);
    }
    assert(whole.take(t.data.len() as int) =~= t.data);
}

/// Where a device gives back what was sent to it, the reading returns the
/// packet: the buffer begins with the bytes that were sent, and the result is
/// their number and the low four bits of the destination.
///
/// This holds for the widths that the bus can move, for a packet whose length
/// the length register can hold, and for a buffer that has room for all the
/// words of the packet.
pub proof fn lemma_loopback(
    t: TransmitState,
    r: ReceiveState,
    occupancy: u32,
    length: u32,
    status: u32,
)
    requires
        r.wf(),
        r.stage is Occupancy,
        r.width == t.width,
        t.width.spec_transferable(),
        occupancy != 0,
        spec_packet_bytes(length) == t.data.len(),
        t.words() * t.width.spec_byte_count() <= r.buffer.len(),
        status & INTERRUPT_RX_ERROR == 0,
    ensures
        forall|k: int|
            0 <= k < t.words() ==> t.submission()[3 + k] == t.push(k as nat) && (#[trigger] t.push(
                k as nat,
            ))->Push_word == sent_words(t)[k],
        takes(r, echo_replies(t, occupancy, length, status)),
        run(r, echo_replies(t, occupancy, length, status)).next() == StepView::<(usize, u8)>::Done(
            Ok((t.data.len() as usize, t.destination & 0x0f)),
        ),
        run(r, echo_replies(t, occupancy, length, status)).buffer.take(t.data.len() as int)
            == t.data,
{
    let width = t.width.spec_byte_count() as nat;
    lemma_word_count(t.data.len(), width);
    assert(r.granted(length) == t.data.len());
    lemma_receive_completes(
        r,
        occupancy,
        length,
        destination_word(t.destination),
        sent_words(t),
        status,
    );
    lemma_destination_returns(t.destination);
    lemma_sent_words_hold_packet(t, r.buffer);
    let replies = echo_replies(t, occupancy, length, status);
    assert(trace(r, replies).last() == run(r, replies.take(replies.len() as int)).next());
    assert(replies.take(replies.len() as int) =~= replies);
}

} // verus!
