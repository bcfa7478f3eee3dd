//! The sending of one packet.

use vstd::prelude::*;
use crate::bus::{Access, AccessView, Region, Reply, ReplyView, Step, StepView};
use crate::command::{reset_access, reset_sequence, RESET_STORES};
use crate::error::Error;
use crate::operation::Operation;
use crate::registers::{
    FULL_REG_WRITE, INTERRUPT_TX_COMPLETE, INTERRUPT_TX_ERROR, INTERRUPT_TX_LENGTH_MISMATCH,
    INTERRUPT_TX_OVER_RUN, REG_INTERRUPT_STATUS, REG_TX_DATA, REG_TX_DESTINATION, REG_TX_LENGTH,
    REG_TX_VACANCY, TX_DESTINATION_MASK,
};
use crate::width::StreamFifoValue;
use crate::words::{count_words, padded_word, take_word, word_count};

verus! {

/// The failure that an interrupt status reports of the transmitter, if it
/// reports one. An overrun comes before a length mismatch.
pub open spec fn spec_transmit_error(status: u32) -> Option<Error> {
    if status & INTERRUPT_TX_OVER_RUN != 0 {
        Some(Error::OverRun)
    } else if status & INTERRUPT_TX_LENGTH_MISMATCH != 0 {
        Some(Error::LengthMismatch)
    } else {
        None
    }
}

/// A status reports a failure of the transmitter exactly when one of the
/// transmit error interrupts is set in it.
pub proof fn lemma_transmit_error_mask(status: u32)
    ensures
        spec_transmit_error(status) is Some <==> status & INTERRUPT_TX_ERROR != 0,
{
    assert((status & INTERRUPT_TX_OVER_RUN != 0 || status & INTERRUPT_TX_LENGTH_MISMATCH != 0)
        <==> status & INTERRUPT_TX_ERROR != 0) by (bit_vector);
}

/// An overrun is reported as `OverRun`, whatever else the status shows; a
/// length mismatch without an overrun is reported as `LengthMismatch`.
pub proof fn lemma_transmit_error_cases(status: u32)
    ensures
        status & INTERRUPT_TX_OVER_RUN == INTERRUPT_TX_OVER_RUN ==> spec_transmit_error(status)
            == Some(Error::OverRun),
        status & INTERRUPT_TX_ERROR == INTERRUPT_TX_LENGTH_MISMATCH ==> spec_transmit_error(status)
            == Some(Error::LengthMismatch),
{
    assert(status & INTERRUPT_TX_OVER_RUN == INTERRUPT_TX_OVER_RUN ==> status
        & INTERRUPT_TX_OVER_RUN != 0) by (bit_vector);
    assert(status & INTERRUPT_TX_ERROR == INTERRUPT_TX_LENGTH_MISMATCH ==> status
        & INTERRUPT_TX_OVER_RUN == 0 && status & INTERRUPT_TX_LENGTH_MISMATCH != 0)
        by (bit_vector);
}

/// Returns the failure that an interrupt status reports of the transmitter,
/// if it reports one.
#[verifier::when_used_as_spec(spec_transmit_error)]
pub fn transmit_error(status: u32) -> (error: Option<Error>)
    ensures
        error == spec_transmit_error(status),
{
    proof {
        lemma_transmit_error_mask(status);
        assert(status & INTERRUPT_TX_OVER_RUN == INTERRUPT_TX_OVER_RUN <==> status
            & INTERRUPT_TX_OVER_RUN != 0) by (bit_vector);
    }
    if status & INTERRUPT_TX_ERROR != 0 {
        if (status & INTERRUPT_TX_OVER_RUN) == INTERRUPT_TX_OVER_RUN {
            Some(Error::OverRun)
        } else {
            Some(Error::LengthMismatch)
        }
    } else {
        None
    }
}

/// What the transmit length register is given for a packet of `len` bytes:
/// the low 32 bits of the byte count.
pub open spec fn length_word(len: nat) -> u32 {
    (len % 0x1_0000_0000) as u32
}

/// What the transmit destination register is given: the low four bits of the
/// destination.
pub open spec fn destination_word(destination: u8) -> u32 {
    (destination & TX_DESTINATION_MASK) as u32
}

/// How far the sending of a packet has come. Each stage but the last waits
/// for one access.
#[derive(Clone, Copy, Debug, PartialEq, Eq)]
pub enum TransmitStage {
    /// The transmit interrupts are cleared
    Clear,
    /// The vacancy is read
    Vacancy,
    /// The destination is written
    Destination,
    /// The word with this index is written to the data port
    Push { word: usize },
    /// The length is written, which sends the packet
    Length,
    /// The interrupt status is read, to see how the sending ended
    Poll,
    /// After a failure of the transmitter, the write of a reset with this
    /// index is made
    Recover { store: usize, error: Error },
    /// The operation is over
    Finished { result: Result<usize, Error> },
}

/// What the sending of a packet is, as a value: the device it goes to, the
/// packet, and how far it has come.
pub struct TransmitState {
    /// The width of the FIFO words
    pub width: StreamFifoValue,
    /// Whether the device has a data region
    pub axi: bool,
    /// The bytes of the packet
    pub data: Seq<u8>,
    /// The destination that the caller gave
    pub destination: u8,
    pub stage: TransmitStage,
}

impl TransmitState {
    /// The sending of `data` to `destination`, before its first access.
    pub open spec fn start(
        width: StreamFifoValue,
        axi: bool,
        data: Seq<u8>,
        destination: u8,
    ) -> TransmitState {
        TransmitState { width, axi, data, destination, stage: TransmitStage::Clear }
    }

    /// The number of FIFO words that the packet takes.
    pub open spec fn words(self) -> nat {
        word_count(self.data.len(), self.width.spec_byte_count() as nat)
    }

    /// The write of the word with the given index to the data port: in the
    /// data region where there is one, else to the transmit data register.
    pub open spec fn push(self, index: nat) -> AccessView {
        AccessView::Push {
            region: if self.axi {
                Region::Data
            } else {
                Region::Control
            },
            offset: if self.axi {
                FULL_REG_WRITE
            } else {
                REG_TX_DATA
            },
            word: padded_word(self.data, self.width.spec_byte_count() as nat, index),
        }
    }

    /// The stage that follows when `reply` answers the access that is due.
    ///
    /// A failed access ends the operation with the failure. Too small a
    /// vacancy ends it with `Full`, before anything is written to the FIFO.
    /// The words are written in order, then the length. The status is read
    /// until it shows a failure of the transmitter or the end of the sending:
    /// the failure is answered by a reset and then returned.
    pub open spec fn following(self, reply: ReplyView) -> TransmitStage {
        match (self.stage, reply) {
            (TransmitStage::Finished { result }, _) => TransmitStage::Finished { result },
            (_, ReplyView::Failed(kind)) => TransmitStage::Finished {
                result: Err(Error::Io(kind)),
            },
            (TransmitStage::Clear, ReplyView::Stored) => TransmitStage::Vacancy,
            (TransmitStage::Vacancy, ReplyView::Value(vacancy)) => if vacancy < self.words() {
                TransmitStage::Finished { result: Err(Error::Full) }
            } else {
                TransmitStage::Destination
            },
            (TransmitStage::Destination, ReplyView::Stored) => if self.words() > 0 {
                TransmitStage::Push { word: 0 }
            } else {
                TransmitStage::Length
            },
            (TransmitStage::Push { word }, ReplyView::Stored) => if word + 1 < self.words() {
                TransmitStage::Push { word: (word + 1) as usize }
            } else {
                TransmitStage::Length
            },
            (TransmitStage::Length, ReplyView::Stored) => TransmitStage::Poll,
            (TransmitStage::Poll, ReplyView::Value(status)) => match spec_transmit_error(status) {
                Some(error) => TransmitStage::Recover { store: 0, error },
                None => if status & INTERRUPT_TX_COMPLETE != 0 {
                    TransmitStage::Finished { result: Ok(self.data.len() as usize) }
                } else {
                    TransmitStage::Poll
                },
            },
            (TransmitStage::Recover { store, error }, ReplyView::Stored) => if store + 1
                < RESET_STORES {
                TransmitStage::Recover { store: (store + 1) as usize, error }
            } else {
                TransmitStage::Finished { result: Err(error) }
            },
            (stage, _) => stage,
        }
    }
}

impl Operation for TransmitState {
    type Output = usize;

    /// A device without a data region has words of 32 bits; a word that is
    /// due lies in the packet and has a width that the bus can move; a write
    /// of a reset that is due belongs to the reset.
    open spec fn wf(self) -> bool {
        &&& self.data.len() <= usize::MAX
        &&& !self.axi ==> self.width == StreamFifoValue::U32
        &&& self.stage matches TransmitStage::Push { word } ==> word < self.words()
            && self.width.spec_transferable()
        &&& self.stage matches TransmitStage::Recover { store, .. } ==> store < RESET_STORES
    }

    /// Where the operation stands: the access that is due, or its result.
    open spec fn next(self) -> StepView<usize> {
        match self.stage {
            TransmitStage::Clear => StepView::Issue(
                AccessView::Store {
                    offset: REG_INTERRUPT_STATUS,
                    value: INTERRUPT_TX_ERROR | INTERRUPT_TX_COMPLETE,
                },
            ),
            TransmitStage::Vacancy => StepView::Issue(AccessView::Load { offset: REG_TX_VACANCY }),
            TransmitStage::Destination => StepView::Issue(
                AccessView::Store {
                    offset: REG_TX_DESTINATION,
                    value: destination_word(self.destination),
                },
            ),
            TransmitStage::Push { word } => StepView::Issue(self.push(word as nat)),
            TransmitStage::Length => StepView::Issue(
                AccessView::Store { offset: REG_TX_LENGTH, value: length_word(self.data.len()) },
            ),
            TransmitStage::Poll => StepView::Issue(
                AccessView::Load { offset: REG_INTERRUPT_STATUS },
            ),
            TransmitStage::Recover { store, .. } => StepView::Issue(reset_sequence()[store as int]),
            TransmitStage::Finished { result } => StepView::Done(result),
        }
    }

    /// Whether `reply` can answer the access that is due. A reply to a write
    /// answers a write and a register value answers a read. Once the
    /// destination is written, a packet that is not empty can go on only if
    /// the bus can move its words.
    open spec fn accepts(self, reply: ReplyView) -> bool {
        match self.stage {
            TransmitStage::Clear | TransmitStage::Push { .. } | TransmitStage::Length
            | TransmitStage::Recover { .. } => reply.answers_write(),
            TransmitStage::Destination => reply.answers_write() && (reply is Stored && self.words()
                > 0 ==> self.width.spec_transferable()),
            TransmitStage::Vacancy | TransmitStage::Poll => reply.answers_load(),
            TransmitStage::Finished { .. } => false,
        }
    }

    /// The operation after `reply` has answered the access that was due.
    open spec fn supply(self, reply: ReplyView) -> TransmitState {
        TransmitState { stage: self.following(reply), ..self }
    }

    proof fn lemma_stays_well_formed(self, reply: ReplyView) {
    }

    proof fn lemma_finished_is_final(self, reply: ReplyView) {
    }

    proof fn lemma_stops_on_failure(self, kind: std::io::ErrorKind) {
    }
}

/// The sending of one packet, as it runs.
#[derive(Debug)]
pub struct Transmit {
    width: StreamFifoValue,
    axi: bool,
    data: Vec<u8>,
    destination: u8,
    stage: TransmitStage,
}

impl View for Transmit {
    type V = TransmitState;

    closed spec fn view(&self) -> TransmitState {
        TransmitState {
            width: self.width,
            axi: self.axi,
            data: self.data@,
            destination: self.destination,
            stage: self.stage,
        }
    }
}

impl Transmit {
    #[verifier::type_invariant]
    spec fn inv(&self) -> bool {
        self@.wf()
    }

    /// The sending of `data` to `destination` through a device with words of
    /// `width`, before its first access.
    pub(crate) fn new(
        width: StreamFifoValue,
        axi: bool,
        data: Vec<u8>,
        destination: u8,
    ) -> (transmit: Transmit)
        requires
            !axi ==> width == StreamFifoValue::U32,
        ensures
            transmit@ == TransmitState::start(width, axi, data@, destination),
            transmit@.wf(),
    {
        let len: usize = data.len();
        assert(data@.len() == len);
        Transmit { width, axi, data, destination, stage: TransmitStage::Clear }
    }

    /// Where the operation stands: the access to make now, or how it ended.
    pub fn next(&self) -> (step: Step<usize>)
        ensures
            step@ == self@.next(),
    {
        proof {
            use_type_invariant(self);
        }
        match self.stage {
            TransmitStage::Clear => Step::Issue(
                Access::Store {
                    offset: REG_INTERRUPT_STATUS,
                    value: INTERRUPT_TX_ERROR | INTERRUPT_TX_COMPLETE,
                },
            ),
            TransmitStage::Vacancy => Step::Issue(Access::Load { offset: REG_TX_VACANCY }),
            TransmitStage::Destination => Step::Issue(
                Access::Store {
                    offset: REG_TX_DESTINATION,
                    value: (self.destination & TX_DESTINATION_MASK) as u32,
                },
            ),
            TransmitStage::Push { word } => {
                let bytes = take_word(self.data.as_slice(), self.width.byte_count(), word);
                if self.axi {
                    Step::Issue(
                        Access::Push { region: Region::Data, offset: FULL_REG_WRITE, word: bytes },
                    )
                } else {
                    Step::Issue(
                        Access::Push { region: Region::Control, offset: REG_TX_DATA, word: bytes },
                    )
                }
            },
            TransmitStage::Length => {
                let len: u64 = self.data.len() as u64;
                Step::Issue(
                    Access::Store { offset: REG_TX_LENGTH, value: (len % 0x1_0000_0000) as u32 },
                )
            },
            TransmitStage::Poll => Step::Issue(Access::Load { offset: REG_INTERRUPT_STATUS }),
            TransmitStage::Recover { store, .. } => Step::Issue(reset_access(store)),
            TransmitStage::Finished { result } => Step::Done(result),
        }
    }

    /// Whether `reply` can answer the access that is due.
    pub fn accepts(&self, reply: &Reply) -> (b: bool)
        ensures
            b == self@.accepts(reply@),
    {
        let write = match reply {
            Reply::Stored | Reply::Failed(_) => true,
            _ => false,
        };
        let load = match reply {
            Reply::Value(_) | Reply::Failed(_) => true,
            _ => false,
        };
        match self.stage {
            TransmitStage::Clear | TransmitStage::Push { .. } | TransmitStage::Length
            | TransmitStage::Recover { .. } => write,
            TransmitStage::Destination => {
                let stored = match reply {
                    Reply::Stored => true,
                    _ => false,
                };
                let words = count_words(self.data.len(), self.width.byte_count());
                write && (!stored || words == 0 || self.width.transferable())
            },
            TransmitStage::Vacancy | TransmitStage::Poll => load,
            TransmitStage::Finished { .. } => false,
        }
    }

    /// Takes the reply to the access that was due.
    pub fn supply(&mut self, reply: Reply)
        requires
            old(self)@.accepts(reply@),
        ensures
            final(self)@ == old(self)@.supply(reply@),
    {
        proof {
            use_type_invariant(&*self);
        }
        let words = count_words(self.data.len(), self.width.byte_count());
        let stage = match reply {
            Reply::Failed(kind) => TransmitStage::Finished { result: Err(Error::Io(kind)) },
            Reply::Value(value) => match self.stage {
                TransmitStage::Vacancy => if (value as usize) < words {
                    TransmitStage::Finished { result: Err(Error::Full) }
                } else {
                    TransmitStage::Destination
                },
                TransmitStage::Poll => match transmit_error(value) {
                    Some(error) => TransmitStage::Recover { store: 0, error },
                    None => if value & INTERRUPT_TX_COMPLETE != 0 {
                        TransmitStage::Finished { result: Ok(self.data.len()) }
                    } else {
                        TransmitStage::Poll
                    },
                },
                stage => stage,
            },
            _ => match self.stage {
                TransmitStage::Clear => TransmitStage::Vacancy,
                TransmitStage::Destination => if words > 0 {
                    TransmitStage::Push { word: 0 }
                } else {
                    TransmitStage::Length
                },
                TransmitStage::Push { word } => if word + 1 < words {
                    TransmitStage::Push { word: word + 1 }
                } else {
                    TransmitStage::Length
                },
                TransmitStage::Length => TransmitStage::Poll,
                TransmitStage::Recover { store, error } => if store + 1 < RESET_STORES {
                    TransmitStage::Recover { store: store + 1, error }
                } else {
                    TransmitStage::Finished { result: Err(error) }
                },
                stage => stage,
            },
        };
        self.stage = stage;
    }
}

/// Every write to the data port carries one whole word of the width of the
/// FIFO. With a data region it goes to the write offset in that region;
/// without one it goes to the transmit data register and has 32 bits.
pub proof fn lemma_push_is_one_word(s: TransmitState, index: nat)
    requires
        s.wf(),
    ensures
        s.push(index) is Push,
        s.push(index)->Push_word.len() == s.width.spec_byte_count(),
        s.axi ==> s.push(index)->Push_region == Region::Data && s.push(index)->Push_offset
            == FULL_REG_WRITE,
        !s.axi ==> s.push(index)->Push_region == Region::Control && s.push(index)->Push_offset
            == REG_TX_DATA && s.push(index)->Push_word.len() == 4,
{
}

} // verus!
