//! Whole runs of the sending of a packet: what is written to the device, in
//! which order, and how the sending ends.

use vstd::prelude::*;
use crate::bus::{acknowledged, issued, read_as, AccessView, ReplyView, StepView};
use crate::command::reset_sequence;
use crate::error::Error;
use crate::operation::{
    lemma_run_append, lemma_run_next, lemma_trace_append, run, takes, trace, Operation,
};
use crate::registers::{
    INTERRUPT_TX_COMPLETE, INTERRUPT_TX_ERROR, REG_INTERRUPT_STATUS, REG_TX_DESTINATION,
    REG_TX_LENGTH, REG_TX_VACANCY,
};
use crate::transmit::{
    destination_word, lemma_transmit_error_mask, length_word, spec_transmit_error, TransmitStage,
    TransmitState,
};

verus! {

impl TransmitState {
    /// The accesses that hand a packet to the device, in order: the transmit
    /// interrupts are cleared, the vacancy is read, the destination is
    /// written, then the words of the packet, and last its length in bytes.
    pub open spec fn submission(self) -> Seq<AccessView> {
        seq![
            AccessView::Store {
                offset: REG_INTERRUPT_STATUS,
                value: INTERRUPT_TX_ERROR | INTERRUPT_TX_COMPLETE,
            },
            AccessView::Load { offset: REG_TX_VACANCY },
            AccessView::Store {
                offset: REG_TX_DESTINATION,
                value: destination_word(self.destination),
            },
        ] + Seq::new(self.words(), |k: int| self.push(k as nat)) + seq![
            AccessView::Store { offset: REG_TX_LENGTH, value: length_word(self.data.len()) },
        ]
    }

    /// The replies of a device that takes the packet: every write is carried
    /// out, and the vacancy is read as `vacancy`.
    pub open spec fn submission_replies(self, vacancy: u32) -> Seq<ReplyView> {
        seq![ReplyView::Stored, ReplyView::Value(vacancy), ReplyView::Stored] + acknowledged(
            self.words() + 1,
        )
    }

    /// The stage of the operation after the first `count` replies of a
    /// device that takes the packet.
    spec fn submission_stage(self, count: nat) -> TransmitStage {
        if count == 0 {
            TransmitStage::Clear
        } else if count == 1 {
            TransmitStage::Vacancy
        } else if count == 2 {
            TransmitStage::Destination
        } else if count < 3 + self.words() {
            TransmitStage::Push { word: (count - 3) as usize }
        } else if count == 3 + self.words() {
            TransmitStage::Length
        } else {
            TransmitStage::Poll
        }
    }
}

/// A vacancy below the number of words of the packet ends the operation with
/// `Full` after two accesses, the clearing of the transmit interrupts and the
/// read of the vacancy: nothing is written to the data port or to the length
/// register.
pub proof fn lemma_full_precedence(s: TransmitState, vacancy: u32)
    requires
        s.stage is Clear,
        vacancy < s.words(),
    ensures
        takes(s, seq![ReplyView::Stored, ReplyView::Value(vacancy)]),
        trace(s, seq![ReplyView::Stored, ReplyView::Value(vacancy)]) == seq![
            StepView::<usize>::Issue(
                AccessView::Store {
                    offset: REG_INTERRUPT_STATUS,
                    value: INTERRUPT_TX_ERROR | INTERRUPT_TX_COMPLETE,
                },
            ),
            StepView::<usize>::Issue(AccessView::Load { offset: REG_TX_VACANCY }),
            StepView::<usize>::Done(Err(Error::Full)),
        ],
{
    let replies = seq![ReplyView::Stored, ReplyView::Value(vacancy)];
    assert(run(s, replies.take(0)) == s);
    lemma_run_next(s, replies, 0);
    assert(run(s, replies.take(1)).stage == TransmitStage::Vacancy);
    lemma_run_next(s, replies, 1);
    assert(run(s, replies.take(2)).stage == TransmitStage::Finished { result: Err(Error::Full) });
    assert(trace(s, replies) =~= seq![
        StepView::<usize>::Issue(
            AccessView::Store {
                offset: REG_INTERRUPT_STATUS,
                value: INTERRUPT_TX_ERROR | INTERRUPT_TX_COMPLETE,
            },
        ),
        StepView::<usize>::Issue(AccessView::Load { offset: REG_TX_VACANCY }),
        StepView::<usize>::Done(Err(Error::Full)),
    ]);
}

proof fn lemma_submission_progress(s: TransmitState, vacancy: u32, count: nat)
    requires
        s.wf(),
        s.stage is Clear,
        vacancy >= s.words(),
        s.words() > 0 ==> s.width.spec_transferable(),
        count <= s.words() + 4,
    ensures
        run(s, s.submission_replies(vacancy).take(count as int)) == (TransmitState {
            stage: s.submission_stage(count),
            ..s
        }),
        count < s.words() + 4 ==> run(s, s.submission_replies(vacancy).take(count as int)).accepts(
            s.submission_replies(vacancy)[count as int],
        ),
    decreases count,
{
    let replies = s.submission_replies(vacancy);
    if count > 0 {
        lemma_submission_progress(s, vacancy, (count - 1) as nat);
        lemma_run_next(s, replies, count - 1);
    }
}

/// The length register is written once, last of all, and is given the byte
/// count of the packet, whatever was added to fill the last word. This holds
/// for a packet whose byte count fits the 32 bits of the register; of a longer
/// one the register is given the low 32 bits of the count.
pub proof fn lemma_length_is_byte_count(s: TransmitState)
    ensures
        s.submission().last() == (AccessView::Store {
            offset: REG_TX_LENGTH,
            value: length_word(s.data.len()),
        }),
        s.data.len() <= u32::MAX ==> length_word(s.data.len()) == s.data.len(),
        forall|i: int|
            0 <= i < s.submission().len() - 1 ==> !(#[trigger] s.submission()[i]
                matches AccessView::Store { offset, .. } && offset == REG_TX_LENGTH),
{
}

/// The destination register is written once, before any word of the packet,
/// and is given the low four bits of the destination.
pub proof fn lemma_destination_is_masked(s: TransmitState)
    ensures
        s.submission()[2] == (AccessView::Store {
            offset: REG_TX_DESTINATION,
            value: (s.destination & 0x0f) as u32,
        }),
        forall|i: int|
            0 <= i < s.submission().len() && i != 2 ==> !(#[trigger] s.submission()[i]
                matches AccessView::Store { offset, .. } && offset == REG_TX_DESTINATION),
{
}

/// A device that has room for the packet and carries out every write is
/// handed the packet by the accesses of `submission`, in that order and each
/// once; after them the operation reads the interrupt status.
pub proof fn lemma_transmit_submits(s: TransmitState, vacancy: u32)
    requires
        s.wf(),
        s.stage is Clear,
        vacancy >= s.words(),
        s.words() > 0 ==> s.width.spec_transferable(),
    ensures
        takes(s, s.submission_replies(vacancy)),
        trace(s, s.submission_replies(vacancy)) == issued::<usize>(s.submission()) + seq![
            StepView::Issue(AccessView::Load { offset: REG_INTERRUPT_STATUS }),
        ],
        run(s, s.submission_replies(vacancy)) == (TransmitState {
            stage: TransmitStage::Poll,
            ..s
        }),
{
    let replies = s.submission_replies(vacancy);
    let expected = issued::<usize>(s.submission()) + seq![
        StepView::Issue(AccessView::Load { offset: REG_INTERRUPT_STATUS }),
    ];
    assert forall|i: int| 0 <= i <= replies.len() implies #[trigger] run(s, replies.take(i)).next()
        == expected[i] by {
        lemma_submission_progress(s, vacancy, i as nat);
    }
    assert(trace(s, replies) =~= expected);
    assert forall|i: int| 0 <= i < replies.len() implies (#[trigger] run(
        s,
        replies.take(i),
    )).accepts(replies[i]) by {
        lemma_submission_progress(s, vacancy, i as nat);
    }
    lemma_submission_progress(s, vacancy, replies.len());
    assert(replies.take(replies.len() as int) =~= replies);
}

/// Whether an interrupt status shows neither a failure of the transmitter
/// nor the end of the sending.
pub open spec fn pending(status: u32) -> bool {
    status & INTERRUPT_TX_ERROR == 0 && status & INTERRUPT_TX_COMPLETE == 0
}

/// `count` reads of the interrupt status, as steps.
pub open spec fn polls(count: nat) -> Seq<StepView<usize>> {
    Seq::new(count, |i: int| StepView::Issue(AccessView::Load { offset: REG_INTERRUPT_STATUS }))
}

/// While the interrupt status shows neither a failure nor the end of the
/// sending, the operation reads it again and again and stays as it is.
pub proof fn lemma_transmit_waits(s: TransmitState, waits: Seq<u32>)
    requires
        s.stage is Poll,
        forall|i: int| 0 <= i < waits.len() ==> pending(#[trigger] waits[i]),
    ensures
        takes(s, read_as(waits)),
        run(s, read_as(waits)) == s,
        trace(s, read_as(waits)) == polls(waits.len() + 1),
{
    let replies = read_as(waits);
    assert forall|i: int| 0 <= i <= replies.len() implies #[trigger] run(s, replies.take(i))
        == s by {
        lemma_transmit_rests(s, waits, i as nat);
    }
    assert(replies.take(replies.len() as int) =~= replies);
    assert(trace(s, replies) =~= polls(waits.len() + 1));
}

proof fn lemma_transmit_rests(s: TransmitState, waits: Seq<u32>, count: nat)
    requires
        s.stage is Poll,
        forall|i: int| 0 <= i < waits.len() ==> pending(#[trigger] waits[i]),
        count <= waits.len(),
    ensures
        run(s, read_as(waits).take(count as int)) == s,
    decreases count,
{
    if count > 0 {
        lemma_transmit_rests(s, waits, (count - 1) as nat);
        lemma_run_next(s, read_as(waits), count - 1);
        lemma_transmit_error_mask(waits[count - 1]);
        assert(pending(waits[count - 1]));
    }
}

/// How the sending ends once the packet is handed over and the interrupt
/// status is read as `status`.
///
/// A status with a transmit error has the operation make the writes of a
/// reset and then end with that error: `OverRun` where the overrun interrupt
/// is set, else `LengthMismatch`. A status without one that shows the
/// transmission complete ends the operation with the byte count of the packet.
/// Any other status leaves the operation as it was: it reads the status again.
pub proof fn lemma_transmit_outcome(s: TransmitState, status: u32)
    requires
        s.stage is Poll,
    ensures
        status & INTERRUPT_TX_ERROR != 0 ==> spec_transmit_error(status) is Some && takes(
            s,
            seq![ReplyView::Value(status)] + acknowledged(5),
        ) && trace(s, seq![ReplyView::Value(status)] + acknowledged(5)) == seq![
            StepView::<usize>::Issue(AccessView::Load { offset: REG_INTERRUPT_STATUS }),
        ] + issued::<usize>(reset_sequence()) + seq![
            StepView::Done(Err(spec_transmit_error(status)->Some_0)),
        ],
        status & INTERRUPT_TX_ERROR == 0 && status & INTERRUPT_TX_COMPLETE != 0 ==> takes(
            s,
            seq![ReplyView::Value(status)],
        ) && trace(s, seq![ReplyView::Value(status)]) == seq![
            StepView::<usize>::Issue(AccessView::Load { offset: REG_INTERRUPT_STATUS }),
            StepView::<usize>::Done(Ok(s.data.len() as usize)),
        ],
        status & INTERRUPT_TX_ERROR == 0 && status & INTERRUPT_TX_COMPLETE == 0 ==> s.supply(
            ReplyView::Value(status),
        ) == s,
{
    lemma_transmit_error_mask(status);
    assert(run(s, Seq::<ReplyView>::empty()) == s);
    if status & INTERRUPT_TX_ERROR != 0 {
        let error = spec_transmit_error(status)->Some_0;
        let replies = seq![ReplyView::Value(status)] + acknowledged(5);
        let expected = seq![
            StepView::<usize>::Issue(AccessView::Load { offset: REG_INTERRUPT_STATUS }),
        ] + issued::<usize>(reset_sequence()) + seq![StepView::Done(Err(error))];
        assert(replies.take(0) =~= Seq::<ReplyView>::empty());
        lemma_run_next(s, replies, 0);
        assert(run(s, replies.take(1)).stage == TransmitStage::Recover { store: 0, error });
        lemma_run_next(s, replies, 1);
        assert(run(s, replies.take(2)).stage == TransmitStage::Recover { store: 1, error });
        lemma_run_next(s, replies, 2);
        assert(run(s, replies.take(3)).stage == TransmitStage::Recover { store: 2, error });
        lemma_run_next(s, replies, 3);
        assert(run(s, replies.take(4)).stage == TransmitStage::Recover { store: 3, error });
        lemma_run_next(s, replies, 4);
        assert(run(s, replies.take(5)).stage == TransmitStage::Recover { store: 4, error });
        lemma_run_next(s, replies, 5);
        assert(run(s, replies.take(6)).stage == TransmitStage::Finished { result: Err(error) });
        assert(trace(s, replies) =~= expected);
    } else if status & INTERRUPT_TX_COMPLETE != 0 {
        let replies = seq![ReplyView::Value(status)];
        assert(replies.take(0) =~= Seq::<ReplyView>::empty());
        lemma_run_next(s, replies, 0);
        assert(trace(s, replies) =~= seq![
            StepView::<usize>::Issue(AccessView::Load { offset: REG_INTERRUPT_STATUS }),
            StepView::<usize>::Done(Ok(s.data.len() as usize)),
        ]);
    } else {
        assert(s.supply(ReplyView::Value(status)) == s);
    }
}

/// The sending of a packet from its first access to its last, where the
/// device has room for the packet, carries out every access and ends the
/// sending without a failure: the packet is handed over, the interrupt status
/// is read until it shows the end of the sending, and the result is the byte
/// count of the packet.
pub proof fn lemma_transmit_completes(s: TransmitState, vacancy: u32, waits: Seq<u32>, status: u32)
    requires
        s.wf(),
        s.stage is Clear,
        vacancy >= s.words(),
        s.words() > 0 ==> s.width.spec_transferable(),
        forall|i: int| 0 <= i < waits.len() ==> pending(#[trigger] waits[i]),
        status & INTERRUPT_TX_ERROR == 0,
        status & INTERRUPT_TX_COMPLETE != 0,
    ensures
        takes(s, s.submission_replies(vacancy) + read_as(waits) + seq![ReplyView::Value(status)]),
        trace(s, s.submission_replies(vacancy) + read_as(waits) + seq![ReplyView::Value(status)])
            == issued::<usize>(s.submission()) + polls(waits.len() + 1) + seq![
            StepView::Done(Ok(s.data.len() as usize)),
        ],
{
    let handed = s.submission_replies(vacancy);
    let last = seq![ReplyView::Value(status)];
    let polling = TransmitState { stage: TransmitStage::Poll, ..s };
    lemma_transmit_submits(s, vacancy);
    lemma_transmit_waits(polling, waits);
    lemma_transmit_outcome(polling, status);
    lemma_trace_append(s, handed, read_as(waits));
    lemma_run_append(s, handed, read_as(waits));
    lemma_trace_append(s, handed + read_as(waits), last);
    assert(trace(s, handed + read_as(waits) + last) =~= issued::<usize>(s.submission()) + polls(
        waits.len() + 1,
    ) + seq![StepView::Done(Ok(s.data.len() as usize))]);
}

/// The sending of a packet from its first access to its last, where the
/// device has room for the packet and carries out every access, but the
/// sending fails: the packet is handed over, the interrupt status is read
/// until it shows the failure, the writes of a reset are made, and the result
/// is the failure.
pub proof fn lemma_transmit_fails(s: TransmitState, vacancy: u32, waits: Seq<u32>, status: u32)
    requires
        s.wf(),
        s.stage is Clear,
        vacancy >= s.words(),
        s.words() > 0 ==> s.width.spec_transferable(),
        forall|i: int| 0 <= i < waits.len() ==> pending(#[trigger] waits[i]),
        status & INTERRUPT_TX_ERROR != 0,
    ensures
        spec_transmit_error(status) is Some,
        takes(
            s,
            s.submission_replies(vacancy) + read_as(waits) + (seq![ReplyView::Value(status)]
                + acknowledged(5)),
        ),
        trace(
            s,
            s.submission_replies(vacancy) + read_as(waits) + (seq![ReplyView::Value(status)]
                + acknowledged(5)),
        ) == issued::<usize>(s.submission()) + polls(waits.len() + 1) + issued::<usize>(
            reset_sequence(),
        ) + seq![StepView::Done(Err(spec_transmit_error(status)->Some_0))],
{
    let handed = s.submission_replies(vacancy);
    let last = seq![ReplyView::Value(status)] + acknowledged(5);
    let polling = TransmitState { stage: TransmitStage::Poll, ..s };
    lemma_transmit_submits(s, vacancy);
    lemma_transmit_waits(polling, waits);
    lemma_transmit_outcome(polling, status);
    lemma_trace_append(s, handed, read_as(waits));
    lemma_run_append(s, handed, read_as(waits));
    lemma_trace_append(s, handed + read_as(waits), last);
    assert(trace(s, handed + read_as(waits) + last) =~= issued::<usize>(s.submission()) + polls(
        waits.len() + 1,
    ) + issued::<usize>(reset_sequence()) + seq![
        StepView::Done(Err(spec_transmit_error(status)->Some_0)),
    ]);
}

} // verus!
