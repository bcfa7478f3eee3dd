//! Whole runs of the reading of a packet: what is read from the device, in
//! which order, what reaches the buffer, and how the reading ends.

use vstd::prelude::*;
use crate::bus::{acknowledged, issued, AccessView, ReplyView, StepView};
use crate::command::reset_sequence;
use crate::error::Error;
use crate::operation::{
    lemma_run_append, lemma_run_next, lemma_trace_append, run, takes, trace, Operation,
};
use crate::receive::{
    lemma_receive_error_mask, spec_packet_destination, spec_receive_error, ReceiveStage,
    ReceiveState,
};
use crate::registers::{
    INTERRUPT_RX_COMPLETE, INTERRUPT_RX_ERROR, REG_INTERRUPT_STATUS, REG_RX_DESTINATION,
    REG_RX_LENGTH, REG_RX_OCCUPANCY,
};
use crate::words::stored_word;

verus! {

impl ReceiveState {
    /// The accesses that take a packet from the device, in order: the
    /// occupancy is read, the receive interrupts are cleared, the length and
    /// the destination are read, then the words that hold the bytes handed
    /// out, and last the interrupt status.
    pub open spec fn drain(self, length: u32) -> Seq<AccessView> {
        seq![
            AccessView::Load { offset: REG_RX_OCCUPANCY },
            AccessView::Store {
                offset: REG_INTERRUPT_STATUS,
                value: INTERRUPT_RX_ERROR | INTERRUPT_RX_COMPLETE,
            },
            AccessView::Load { offset: REG_RX_LENGTH },
            AccessView::Load { offset: REG_RX_DESTINATION },
        ] + Seq::new(self.words(self.granted(length)), |k: int| self.pull()) + seq![
            AccessView::Load { offset: REG_INTERRUPT_STATUS },
        ]
    }

    /// The replies of a device that holds a packet: its occupancy, length
    /// and destination registers read as given, the clearing of interrupts is
    /// carried out, and the data port yields `words` one by one.
    pub open spec fn drain_replies(
        occupancy: u32,
        length: u32,
        destination: u32,
        words: Seq<Seq<u8>>,
    ) -> Seq<ReplyView> {
        seq![
            ReplyView::Value(occupancy),
            ReplyView::Stored,
            ReplyView::Value(length),
            ReplyView::Value(destination),
        ] + Seq::new(words.len(), |k: int| ReplyView::Word(words[k]))
    }

    /// The stage of the operation after the first `count` replies of a
    /// device that holds a packet.
    spec fn drain_stage(self, length: u32, destination: u32, count: nat) -> ReceiveStage {
        if count == 0 {
            ReceiveStage::Occupancy
        } else if count == 1 {
            ReceiveStage::Clear
        } else if count == 2 {
            ReceiveStage::Length
        } else if count == 3 {
            ReceiveStage::Destination { bytes: self.granted(length) }
        } else if count - 4 < self.words(self.granted(length)) {
            ReceiveStage::Pull {
                word: (count - 4) as usize,
                bytes: self.granted(length),
                destination: spec_packet_destination(destination),
            }
        } else {
            ReceiveStage::Status {
                bytes: self.granted(length),
                destination: spec_packet_destination(destination),
            }
        }
    }

    /// The buffer after the first `count` replies of a device that holds a
    /// packet.
    spec fn drain_buffer(self, words: Seq<Seq<u8>>, count: nat) -> Seq<u8> {
        if self.width.spec_transferable() && count > 4 {
            assembled(self.buffer, self.width.spec_byte_count() as nat, words, (count - 4) as nat)
        } else {
            self.buffer
        }
    }
}

/// `buffer` after the first `count` of `words`, each of `width` bytes, have
/// taken the place of its first bytes, one after the other.
pub open spec fn assembled(
    buffer: Seq<u8>,
    width: nat,
    words: Seq<Seq<u8>>,
    count: nat,
) -> Seq<u8> {
    Seq::new(
        buffer.len(),
        |i: int|
            if i < count * width {
                words[i / (width as int)][i % (width as int)]
            } else {
                buffer[i]
            },
    )
}

/// An occupancy of zero ends the operation with `Empty` after one access, the
/// read of the occupancy: no other register is touched, and the buffer stays
/// as it was.
pub proof fn lemma_empty_precedence(s: ReceiveState)
    requires
        s.stage is Occupancy,
    ensures
        takes(s, seq![ReplyView::Value(0)]),
        trace(s, seq![ReplyView::Value(0)]) == seq![
            StepView::<(usize, u8)>::Issue(AccessView::Load { offset: REG_RX_OCCUPANCY }),
            StepView::<(usize, u8)>::Done(Err(Error::Empty)),
        ],
        run(s, seq![ReplyView::Value(0)]).buffer == s.buffer,
{
    let replies = seq![ReplyView::Value(0)];
    assert(run(s, replies.take(0)) == s);
    lemma_run_next(s, replies, 0);
    assert(run(s, replies.take(1)).stage == ReceiveStage::Finished { result: Err(Error::Empty) });
    assert(replies.take(1) =~= replies);
    assert(trace(s, replies) =~= seq![
        StepView::<(usize, u8)>::Issue(AccessView::Load { offset: REG_RX_OCCUPANCY }),
        StepView::<(usize, u8)>::Done(Err(Error::Empty)),
    ]);
}

/// Storing one more word extends what was assembled by that word.
proof fn lemma_assembled_next(buffer: Seq<u8>, width: nat, words: Seq<Seq<u8>>, count: nat)
    requires
        width > 0,
        count < words.len(),
        words[count as int].len() == width,
        count * width + width <= buffer.len(),
    ensures
        stored_word(assembled(buffer, width, words, count), width, count, words[count as int])
            == assembled(buffer, width, words, count + 1),
{
    let before = assembled(buffer, width, words, count);
    let after = stored_word(before, width, count, words[count as int]);
    let w = width as int;
    assert((count + 1) * width == count * width + width) by (nonlinear_arith);
    assert forall|i: int| 0 <= i < buffer.len() implies after[i] == assembled(
        buffer,
        width,
        words,
        count + 1,
    )[i] by {
        if count * width <= i < count * width + width {
            vstd::arithmetic::div_mod::lemma_fundamental_div_mod_converse(
                i,
                w,
                count as int,
                i - count * width,
            );
        }
    }
    assert(after =~= assembled(buffer, width, words, count + 1));
}

proof fn lemma_drain_progress(
    s: ReceiveState,
    occupancy: u32,
    length: u32,
    destination: u32,
    words: Seq<Seq<u8>>,
    count: nat,
)
    requires
        s.wf(),
        s.stage is Occupancy,
        occupancy != 0,
        words.len() == s.words(s.granted(length)),
        s.width.spec_transferable() ==> words.len() * s.width.spec_byte_count() <= s.buffer.len()
            && forall|k: int|
            0 <= k < words.len() ==> (#[trigger] words[k]).len() == s.width.spec_byte_count(),
        count <= words.len() + 4,
    ensures
        run(
            s,
            ReceiveState::drain_replies(occupancy, length, destination, words).take(count as int),
        ) == (ReceiveState {
            stage: s.drain_stage(length, destination, count),
            buffer: s.drain_buffer(words, count),
            ..s
        }),
        count < words.len() + 4 ==> run(
            s,
            ReceiveState::drain_replies(occupancy, length, destination, words).take(count as int),
        ).accepts(ReceiveState::drain_replies(occupancy, length, destination, words)[count as int]),
    decreases count,
{
    let replies = ReceiveState::drain_replies(occupancy, length, destination, words);
    let width = s.width.spec_byte_count() as nat;
    if count > 0 {
        lemma_drain_progress(s, occupancy, length, destination, words, (count - 1) as nat);
        lemma_run_next(s, replies, count - 1);
        if count > 4 && s.width.spec_transferable() {
            lemma_assembled_next(s.buffer, width, words, (count - 5) as nat);
            assert((count - 5) * width + width <= words.len() * width) by (nonlinear_arith)
                requires
                    count - 5 < words.len(),
            ;
        }
        assert(run(s, replies.take(count as int)).buffer =~= s.drain_buffer(words, count));
    }
    if 4 <= count < words.len() + 4 && s.width.spec_transferable() {
        assert((count - 4) * width + width <= words.len() * width) by (nonlinear_arith)
            requires
                count - 4 < words.len(),
        ;
    }
}

/// A device that holds a packet and carries out every access gives it up to
/// the accesses of `drain`, in that order and each once. The words that the
/// data port yields take the first bytes of the buffer, one after the other,
/// where the bus can move words of this width; the rest of the buffer stays
/// as it was. The operation then knows how many bytes it hands out and the
/// destination of the packet, and waits for the interrupt status.
pub proof fn lemma_receive_drains(
    s: ReceiveState,
    occupancy: u32,
    length: u32,
    destination: u32,
    words: Seq<Seq<u8>>,
)
    requires
        s.wf(),
        s.stage is Occupancy,
        occupancy != 0,
        words.len() == s.words(s.granted(length)),
        s.width.spec_transferable() ==> words.len() * s.width.spec_byte_count() <= s.buffer.len()
            && forall|k: int|
            0 <= k < words.len() ==> (#[trigger] words[k]).len() == s.width.spec_byte_count(),
    ensures
        takes(s, ReceiveState::drain_replies(occupancy, length, destination, words)),
        trace(s, ReceiveState::drain_replies(occupancy, length, destination, words)) == issued::<
            (usize, u8),
        >(s.drain(length)),
        run(s, ReceiveState::drain_replies(occupancy, length, destination, words))
            == (ReceiveState {
            stage: ReceiveStage::Status {
                bytes: s.granted(length),
                destination: spec_packet_destination(destination),
            },
            buffer: if s.width.spec_transferable() {
                assembled(s.buffer, s.width.spec_byte_count() as nat, words, words.len())
            } else {
                s.buffer
            },
            ..s
        }),
{
    let replies = ReceiveState::drain_replies(occupancy, length, destination, words);
    let expected = issued::<(usize, u8)>(s.drain(length));
    assert forall|i: int| 0 <= i <= replies.len() implies #[trigger] run(s, replies.take(i)).next()
        == expected[i] by {
        lemma_drain_progress(s, occupancy, length, destination, words, i as nat);
    }
    assert(trace(s, replies) =~= expected);
    assert forall|i: int| 0 <= i < replies.len() implies (#[trigger] run(
        s,
        replies.take(i),
    )).accepts(replies[i]) by {
        lemma_drain_progress(s, occupancy, length, destination, words, i as nat);
    }
    lemma_drain_progress(s, occupancy, length, destination, words, replies.len());
    assert(replies.take(replies.len() as int) =~= replies);
    if s.width.spec_transferable() && words.len() == 0 {
        lemma_assembled_zero(s.buffer, s.width.spec_byte_count() as nat, words);
    }
}

proof fn lemma_assembled_zero(buffer: Seq<u8>, width: nat, words: Seq<Seq<u8>>)
    ensures
        assembled(buffer, width, words, 0) == buffer,
{
    assert(0 * width == 0) by (nonlinear_arith);
    assert(assembled(buffer, width, words, 0) =~= buffer);
}

/// How the reading ends once the words are read and the interrupt status is
/// read as `status`.
///
/// A status with a receive error has the operation make the writes of a reset
/// and then end with that error: `OverRun` where the over-read interrupt is
/// set, else `UnderRun`. Any other status ends the operation with the number
/// of bytes handed out and the destination of the packet. Neither changes the
/// buffer.
pub proof fn lemma_receive_outcome(s: ReceiveState, status: u32)
    requires
        s.stage is Status,
    ensures
        status & INTERRUPT_RX_ERROR != 0 ==> spec_receive_error(status) is Some && takes(
            s,
            seq![ReplyView::Value(status)] + acknowledged(5),
        ) && trace(s, seq![ReplyView::Value(status)] + acknowledged(5)) == seq![
            StepView::<(usize, u8)>::Issue(AccessView::Load { offset: REG_INTERRUPT_STATUS }),
        ] + issued::<(usize, u8)>(reset_sequence()) + seq![
            StepView::Done(Err(spec_receive_error(status)->Some_0)),
        ] && run(s, seq![ReplyView::Value(status)] + acknowledged(5)).buffer == s.buffer,
        status & INTERRUPT_RX_ERROR == 0 ==> takes(s, seq![ReplyView::Value(status)]) && trace(
            s,
            seq![ReplyView::Value(status)],
        ) == seq![
            StepView::<(usize, u8)>::Issue(AccessView::Load { offset: REG_INTERRUPT_STATUS }),
            StepView::<(usize, u8)>::Done(
                Ok((s.stage->Status_bytes, s.stage->Status_destination)),
            ),
        ] && run(s, seq![ReplyView::Value(status)]).buffer == s.buffer,
{
    lemma_receive_error_mask(status);
    assert(run(s, Seq::<ReplyView>::empty()) == s);
    if status & INTERRUPT_RX_ERROR != 0 {
        let error = spec_receive_error(status)->Some_0;
        let replies = seq![ReplyView::Value(status)] + acknowledged(5);
        let expected = seq![
            StepView::<(usize, u8)>::Issue(AccessView::Load { offset: REG_INTERRUPT_STATUS }),
        ] + issued::<(usize, u8)>(reset_sequence()) + seq![StepView::Done(Err(error))];
        assert(replies.take(0) =~= Seq::<ReplyView>::empty());
        lemma_run_next(s, replies, 0);
        assert(run(s, replies.take(1)).stage == ReceiveStage::Recover { store: 0, error });
        lemma_run_next(s, replies, 1);
        assert(run(s, replies.take(2)).stage == ReceiveStage::Recover { store: 1, error });
        lemma_run_next(s, replies, 2);
        assert(run(s, replies.take(3)).stage == ReceiveStage::Recover { store: 2, error });
        lemma_run_next(s, replies, 3);
        assert(run(s, replies.take(4)).stage == ReceiveStage::Recover { store: 3, error });
        lemma_run_next(s, replies, 4);
        assert(run(s, replies.take(5)).stage == ReceiveStage::Recover { store: 4, error });
        lemma_run_next(s, replies, 5);
        assert(run(s, replies.take(6)).stage == ReceiveStage::Finished { result: Err(error) });
        assert(run(s, replies.take(6)).buffer == s.buffer);
        assert(replies.take(6) =~= replies);
        assert(trace(s, replies) =~= expected);
    } else {
        let replies = seq![ReplyView::Value(status)];
        assert(replies.take(0) =~= Seq::<ReplyView>::empty());
        lemma_run_next(s, replies, 0);
        assert(replies.take(1) =~= replies);
        assert(trace(s, replies) =~= seq![
            StepView::<(usize, u8)>::Issue(AccessView::Load { offset: REG_INTERRUPT_STATUS }),
            StepView::<(usize, u8)>::Done(
                Ok((s.stage->Status_bytes, s.stage->Status_destination)),
            ),
        ]);
    }
}

/// The reading of a packet from its first access to its last, where the
/// device holds a packet, carries out every access and reports no failure of
/// the receiver: the accesses of `drain` are made, and the result is the
/// number of bytes handed out and the destination of the packet. The words
/// that were read begin the buffer, where the bus can move words of this
/// width.
pub proof fn lemma_receive_completes(
    s: ReceiveState,
    occupancy: u32,
    length: u32,
    destination: u32,
    words: Seq<Seq<u8>>,
    status: u32,
)
    requires
        s.wf(),
        s.stage is Occupancy,
        occupancy != 0,
        words.len() == s.words(s.granted(length)),
        s.width.spec_transferable() ==> words.len() * s.width.spec_byte_count() <= s.buffer.len()
            && forall|k: int|
            0 <= k < words.len() ==> (#[trigger] words[k]).len() == s.width.spec_byte_count(),
        status & INTERRUPT_RX_ERROR == 0,
    ensures
        takes(
            s,
            ReceiveState::drain_replies(occupancy, length, destination, words) + seq![
                ReplyView::Value(status),
            ],
        ),
        trace(
            s,
            ReceiveState::drain_replies(occupancy, length, destination, words) + seq![
                ReplyView::Value(status),
            ],
        ) == issued::<(usize, u8)>(s.drain(length)) + seq![
            StepView::Done(Ok((s.granted(length), spec_packet_destination(destination)))),
        ],
        run(
            s,
            ReceiveState::drain_replies(occupancy, length, destination, words) + seq![
                ReplyView::Value(status),
            ],
        ).buffer == if s.width.spec_transferable() {
            assembled(s.buffer, s.width.spec_byte_count() as nat, words, words.len())
        } else {
            s.buffer
        },
{
    let drained = ReceiveState::drain_replies(occupancy, length, destination, words);
    let last = seq![ReplyView::Value(status)];
    lemma_receive_drains(s, occupancy, length, destination, words);
    lemma_receive_outcome(run(s, drained), status);
    lemma_trace_append(s, drained, last);
    lemma_run_append(s, drained, last);
    assert(trace(s, drained + last) =~= issued::<(usize, u8)>(s.drain(length)) + seq![
        StepView::Done(Ok((s.granted(length), spec_packet_destination(destination)))),
    ]);
}

/// The reading of a packet from its first access to its last, where the
/// device holds a packet and carries out every access, but reports a failure
/// of the receiver: the accesses of `drain` are made, then the writes of a
/// reset, and the result is the failure.
pub proof fn lemma_receive_fails(
    s: ReceiveState,
    occupancy: u32,
    length: u32,
    destination: u32,
    words: Seq<Seq<u8>>,
    status: u32,
)
    requires
        s.wf(),
        s.stage is Occupancy,
        occupancy != 0,
        words.len() == s.words(s.granted(length)),
        s.width.spec_transferable() ==> words.len() * s.width.spec_byte_count() <= s.buffer.len()
            && forall|k: int|
            0 <= k < words.len() ==> (#[trigger] words[k]).len() == s.width.spec_byte_count(),
        status & INTERRUPT_RX_ERROR != 0,
    ensures
        spec_receive_error(status) is Some,
        takes(
            s,
            ReceiveState::drain_replies(occupancy, length, destination, words) + (seq![
                ReplyView::Value(status),
            ] + acknowledged(5)),
        ),
        trace(
            s,
            ReceiveState::drain_replies(occupancy, length, destination, words) + (seq![
                ReplyView::Value(status),
            ] + acknowledged(5)),
        ) == issued::<(usize, u8)>(s.drain(length)) + issued::<(usize, u8)>(reset_sequence())
            + seq![StepView::Done(Err(spec_receive_error(status)->Some_0))],
{
    let drained = ReceiveState::drain_replies(occupancy, length, destination, words);
    let last = seq![ReplyView::Value(status)] + acknowledged(5);
    lemma_receive_drains(s, occupancy, length, destination, words);
    lemma_receive_outcome(run(s, drained), status);
    lemma_trace_append(s, drained, last);
    assert(trace(s, drained + last) =~= issued::<(usize, u8)>(s.drain(length)) + issued::<
        (usize, u8),
    >(reset_sequence()) + seq![StepView::Done(Err(spec_receive_error(status)->Some_0))]);
}

} // verus!
