//! The reading of one packet.

use vstd::prelude::*;
use crate::bus::{Access, AccessView, Region, Reply, ReplyView, Step, StepView};
use crate::command::{reset_access, reset_sequence, RESET_STORES};
use crate::error::Error;
use crate::operation::Operation;
use crate::registers::{
    FULL_REG_READ, INTERRUPT_RX_COMPLETE, INTERRUPT_RX_ERROR, INTERRUPT_RX_OVER_READ,
    INTERRUPT_RX_UNDER_READ, INTERRUPT_RX_UNDER_RUN, REG_INTERRUPT_STATUS, REG_RX_DATA,
    REG_RX_DESTINATION, REG_RX_LENGTH, REG_RX_OCCUPANCY, RX_LENGTH_MASK,
};
use crate::width::StreamFifoValue;
use crate::words::{count_words, store_word, stored_word, word_count};

verus! {

/// The failure that an interrupt status reports of the receiver, if it
/// reports one. An over-read comes before an under-read and an underrun.
pub open spec fn spec_receive_error(status: u32) -> Option<Error> {
    if status & INTERRUPT_RX_OVER_READ != 0 {
        Some(Error::OverRun)
    } else if status & INTERRUPT_RX_UNDER_READ != 0 || status & INTERRUPT_RX_UNDER_RUN != 0 {
        Some(Error::UnderRun)
    } else {
        None
    }
}

/// A status reports a failure of the receiver exactly when one of the
/// receive error interrupts is set in it.
pub proof fn lemma_receive_error_mask(status: u32)
    ensures
        spec_receive_error(status) is Some <==> status & INTERRUPT_RX_ERROR != 0,
{
    assert((status & INTERRUPT_RX_OVER_READ != 0 || status & INTERRUPT_RX_UNDER_READ != 0 || status
        & INTERRUPT_RX_UNDER_RUN != 0) <==> status & INTERRUPT_RX_ERROR != 0) by (bit_vector);
}

/// An over-read is reported as `OverRun`, whatever else the status shows; an
/// under-read or an underrun without an over-read is reported as `UnderRun`.
pub proof fn lemma_receive_error_cases(status: u32)
    ensures
        status & INTERRUPT_RX_OVER_READ == INTERRUPT_RX_OVER_READ ==> spec_receive_error(status)
            == Some(Error::OverRun),
        status & INTERRUPT_RX_OVER_READ == 0 && (status & INTERRUPT_RX_UNDER_READ
            == INTERRUPT_RX_UNDER_READ || status & INTERRUPT_RX_UNDER_RUN
            == INTERRUPT_RX_UNDER_RUN) ==> spec_receive_error(status) == Some(Error::UnderRun),
{
    assert(status & INTERRUPT_RX_OVER_READ == INTERRUPT_RX_OVER_READ ==> status
        & INTERRUPT_RX_OVER_READ != 0) by (bit_vector);
    assert(status & INTERRUPT_RX_UNDER_READ == INTERRUPT_RX_UNDER_READ ==> status
        & INTERRUPT_RX_UNDER_READ != 0) by (bit_vector);
    assert(status & INTERRUPT_RX_UNDER_RUN == INTERRUPT_RX_UNDER_RUN ==> status
        & INTERRUPT_RX_UNDER_RUN != 0) by (bit_vector);
}

/// Returns the failure that an interrupt status reports of the receiver, if
/// it reports one.
#[verifier::when_used_as_spec(spec_receive_error)]
pub fn receive_error(status: u32) -> (error: Option<Error>)
    ensures
        error == spec_receive_error(status),
{
    proof {
        lemma_receive_error_mask(status);
        assert(status & INTERRUPT_RX_OVER_READ == INTERRUPT_RX_OVER_READ <==> status
            & INTERRUPT_RX_OVER_READ != 0) by (bit_vector);
    }
    if (status & INTERRUPT_RX_ERROR) != 0 {
        if (status & INTERRUPT_RX_OVER_READ) == INTERRUPT_RX_OVER_READ {
            Some(Error::OverRun)
        } else {
            Some(Error::UnderRun)
        }
    } else {
        None
    }
}

/// The number of bytes that the receive length register reports: its low 22
/// bits.
pub open spec fn spec_packet_bytes(length: u32) -> usize {
    (length & RX_LENGTH_MASK) as usize
}

/// Returns the number of bytes that the receive length register reports.
#[verifier::when_used_as_spec(spec_packet_bytes)]
pub fn packet_bytes(length: u32) -> (bytes: usize)
    ensures
        bytes == spec_packet_bytes(length),
        bytes <= 0x003f_ffff,
{
    assert(length & RX_LENGTH_MASK <= 0x003f_ffff) by (bit_vector);
    (length & RX_LENGTH_MASK) as usize
}

/// The destination that the receive destination register reports: its low
/// eight bits.
pub open spec fn spec_packet_destination(value: u32) -> u8 {
    (value & 0xff) as u8
}

/// Returns the destination that the receive destination register reports.
#[verifier::when_used_as_spec(spec_packet_destination)]
pub fn packet_destination(value: u32) -> (destination: u8)
    ensures
        destination == spec_packet_destination(value),
{
    assert(value & 0xff <= 0xff) by (bit_vector);
    (value & 0xff) as u8
}

/// How far the reading of a packet has come. Each stage but the last waits
/// for one access.
#[derive(Clone, Copy, Debug, PartialEq, Eq)]
pub enum ReceiveStage {
    /// The occupancy is read
    Occupancy,
    /// The receive interrupts are cleared
    Clear,
    /// The length of the packet is read
    Length,
    /// The destination of the packet is read; `bytes` of the packet will be
    /// handed out
    Destination { bytes: usize },
    /// The word with this index is read from the data port
    Pull { word: usize, bytes: usize, destination: u8 },
    /// The interrupt status is read, to see whether the reading went well
    Status { bytes: usize, destination: u8 },
    /// After a failure of the receiver, the write of a reset with this index
    /// is made
    Recover { store: usize, error: Error },
    /// The operation is over
    Finished { result: Result<(usize, u8), Error> },
}

/// What the reading of a packet is, as a value: the device it comes from,
/// the buffer that takes it, and how far it has come.
pub struct ReceiveState {
    /// The width of the FIFO words
    pub width: StreamFifoValue,
    /// Whether the device has a data region
    pub axi: bool,
    /// The bytes of the buffer
    pub buffer: Seq<u8>,
    pub stage: ReceiveStage,
}

impl ReceiveState {
    /// The reading of a packet into `buffer`, before its first access.
    pub open spec fn start(width: StreamFifoValue, axi: bool, buffer: Seq<u8>) -> ReceiveState {
        ReceiveState { width, axi, buffer, stage: ReceiveStage::Occupancy }
    }

    /// The number of FIFO words that hold `bytes` bytes.
    pub open spec fn words(self, bytes: usize) -> nat {
        word_count(bytes as nat, self.width.spec_byte_count() as nat)
    }

    /// The read of one word from the data port: in the data region where
    /// there is one, else from the receive data register.
    pub open spec fn pull(self) -> AccessView {
        AccessView::Pull {
            region: if self.axi {
                Region::Data
            } else {
                Region::Control
            },
            offset: if self.axi {
                FULL_REG_READ
            } else {
                REG_RX_DATA
            },
            len: self.width.spec_byte_count(),
        }
    }

    /// The number of bytes that are handed out of a packet whose length
    /// register reads `length`: all of the packet, or as much as the buffer
    /// holds.
    pub open spec fn granted(self, length: u32) -> usize {
        if self.buffer.len() <= spec_packet_bytes(length) {
            self.buffer.len() as usize
        } else {
            spec_packet_bytes(length)
        }
    }

    /// The stage that follows when `reply` answers the access that is due.
    ///
    /// A failed access ends the operation with the failure. An occupancy of
    /// zero ends it with `Empty`, before any other register is touched. As
    /// many bytes are handed out as the packet has and the buffer holds, and
    /// the words that hold them are read in order. The status is read last:
    /// a failure of the receiver is answered by a reset and then returned.
    pub open spec fn following(self, reply: ReplyView) -> ReceiveStage {
        match (self.stage, reply) {
            (ReceiveStage::Finished { result }, _) => ReceiveStage::Finished { result },
            (_, ReplyView::Failed(kind)) => ReceiveStage::Finished { result: Err(Error::Io(kind)) },
            (ReceiveStage::Occupancy, ReplyView::Value(occupancy)) => if occupancy == 0 {
                ReceiveStage::Finished { result: Err(Error::Empty) }
            } else {
                ReceiveStage::Clear
            },
            (ReceiveStage::Clear, ReplyView::Stored) => ReceiveStage::Length,
            (ReceiveStage::Length, ReplyView::Value(length)) => ReceiveStage::Destination {
                bytes: self.granted(length),
            },
            (ReceiveStage::Destination { bytes }, ReplyView::Value(value)) => if self.words(bytes)
                > 0 {
                ReceiveStage::Pull { word: 0, bytes, destination: spec_packet_destination(value) }
            } else {
                ReceiveStage::Status { bytes, destination: spec_packet_destination(value) }
            },
            (ReceiveStage::Pull { word, bytes, destination }, ReplyView::Word(_)) => if word + 1
                < self.words(bytes) {
                ReceiveStage::Pull { word: (word + 1) as usize, bytes, destination }
            } else {
                ReceiveStage::Status { bytes, destination }
            },
            (ReceiveStage::Status { bytes, destination }, ReplyView::Value(status)) => {
                match spec_receive_error(status) {
                    Some(error) => ReceiveStage::Recover { store: 0, error },
                    None => ReceiveStage::Finished { result: Ok((bytes, destination)) },
                }
            },
            (ReceiveStage::Recover { store, error }, ReplyView::Stored) => if store + 1
                < RESET_STORES {
                ReceiveStage::Recover { store: (store + 1) as usize, error }
            } else {
                ReceiveStage::Finished { result: Err(error) }
            },
            (stage, _) => stage,
        }
    }

    /// The buffer after `reply` has answered the access that was due: a word
    /// that was read takes its place in the buffer, where the bus can move
    /// words of this width; nothing else changes the buffer.
    pub open spec fn filled(self, reply: ReplyView) -> Seq<u8> {
        match (self.stage, reply) {
            (ReceiveStage::Pull { word, .. }, ReplyView::Word(found)) => {
                if self.width.spec_transferable() {
                    stored_word(
                        self.buffer,
                        self.width.spec_byte_count() as nat,
                        word as nat,
                        found,
                    )
                } else {
                    self.buffer
                }
            },
            _ => self.buffer,
        }
    }
}

impl Operation for ReceiveState {
    type Output = (usize, u8);

    /// A device without a data region has words of 32 bits; no more bytes
    /// are handed out than the buffer holds; a word that is due lies in
    /// them; a write of a reset that is due belongs to the reset.
    open spec fn wf(self) -> bool {
        &&& self.buffer.len() <= usize::MAX
        &&& !self.axi ==> self.width == StreamFifoValue::U32
        &&& self.stage matches ReceiveStage::Destination { bytes } ==> bytes <= self.buffer.len()
        &&& self.stage matches ReceiveStage::Pull { word, bytes, .. } ==> bytes <= self.buffer.len()
            && word < self.words(bytes)
        &&& self.stage matches ReceiveStage::Recover { store, .. } ==> store < RESET_STORES
    }

    /// Where the operation stands: the access that is due, or its result.
    open spec fn next(self) -> StepView<(usize, u8)> {
        match self.stage {
            ReceiveStage::Occupancy => StepView::Issue(
                AccessView::Load { offset: REG_RX_OCCUPANCY },
            ),
            ReceiveStage::Clear => StepView::Issue(
                AccessView::Store {
                    offset: REG_INTERRUPT_STATUS,
                    value: INTERRUPT_RX_ERROR | INTERRUPT_RX_COMPLETE,
                },
            ),
            ReceiveStage::Length => StepView::Issue(AccessView::Load { offset: REG_RX_LENGTH }),
            ReceiveStage::Destination { .. } => StepView::Issue(
                AccessView::Load { offset: REG_RX_DESTINATION },
            ),
            ReceiveStage::Pull { .. } => StepView::Issue(self.pull()),
            ReceiveStage::Status { .. } => StepView::Issue(
                AccessView::Load { offset: REG_INTERRUPT_STATUS },
            ),
            ReceiveStage::Recover { store, .. } => StepView::Issue(reset_sequence()[store as int]),
            ReceiveStage::Finished { result } => StepView::Done(result),
        }
    }

    /// Whether `reply` can answer the access that is due. A register value
    /// answers a read, a reply to a write answers a write, and a word answers
    /// the read of a word. Where the bus can move words of this width, the
    /// word has that width and its place lies in the buffer.
    open spec fn accepts(self, reply: ReplyView) -> bool {
        match self.stage {
            ReceiveStage::Occupancy | ReceiveStage::Length | ReceiveStage::Destination { .. }
            | ReceiveStage::Status { .. } => reply.answers_load(),
            ReceiveStage::Clear | ReceiveStage::Recover { .. } => reply.answers_write(),
            ReceiveStage::Pull { word, .. } => match reply {
                ReplyView::Word(found) => self.width.spec_transferable() ==> found.len()
                    == self.width.spec_byte_count() && word * self.width.spec_byte_count()
                    + self.width.spec_byte_count() <= self.buffer.len(),
                ReplyView::Failed(_) => true,
                _ => false,
            },
            ReceiveStage::Finished { .. } => false,
        }
    }

    /// The operation after `reply` has answered the access that was due.
    open spec fn supply(self, reply: ReplyView) -> ReceiveState {
        ReceiveState { stage: self.following(reply), buffer: self.filled(reply), ..self }
    }

    proof fn lemma_stays_well_formed(self, reply: ReplyView) {
    }

    proof fn lemma_finished_is_final(self, reply: ReplyView) {
    }

    proof fn lemma_stops_on_failure(self, kind: std::io::ErrorKind) {
    }
}

/// The reading of one packet, as it runs.
#[derive(Debug)]
pub struct Receive {
    width: StreamFifoValue,
    axi: bool,
    data: Vec<u8>,
    stage: ReceiveStage,
}

impl View for Receive {
    type V = ReceiveState;

    closed spec fn view(&self) -> ReceiveState {
        ReceiveState { width: self.width, axi: self.axi, buffer: self.data@, stage: self.stage }
    }
}

impl Receive {
    #[verifier::type_invariant]
    spec fn inv(&self) -> bool {
        self@.wf()
    }

    /// The reading of a packet into `data` through a device with words of
    /// `width`, before its first access.
    pub(crate) fn new(width: StreamFifoValue, axi: bool, data: Vec<u8>) -> (receive: Receive)
        requires
            !axi ==> width == StreamFifoValue::U32,
        ensures
            receive@ == ReceiveState::start(width, axi, data@),
            receive@.wf(),
    {
        let len: usize = data.len();
        assert(data@.len() == len);
        Receive { width, axi, data, stage: ReceiveStage::Occupancy }
    }

    /// The buffer as it is now.
    pub fn data(&self) -> (data: &[u8])
        ensures
            data@ == self@.buffer,
    {
        self.data.as_slice()
    }

    /// Ends the operation and gives the buffer back.
    pub fn into_data(self) -> (data: Vec<u8>)
        ensures
            data@ == self@.buffer,
    {
        self.data
    }

    /// Where the operation stands: the access to make now, or how it ended.
    pub fn next(&self) -> (step: Step<(usize, u8)>)
        ensures
            step@ == self@.next(),
    {
        proof {
            use_type_invariant(self);
        }
        match self.stage {
            ReceiveStage::Occupancy => Step::Issue(Access::Load { offset: REG_RX_OCCUPANCY }),
            ReceiveStage::Clear => Step::Issue(
                Access::Store {
                    offset: REG_INTERRUPT_STATUS,
                    value: INTERRUPT_RX_ERROR | INTERRUPT_RX_COMPLETE,
                },
            ),
            ReceiveStage::Length => Step::Issue(Access::Load { offset: REG_RX_LENGTH }),
            ReceiveStage::Destination { .. } => Step::Issue(
                Access::Load { offset: REG_RX_DESTINATION },
            ),
            ReceiveStage::Pull { .. } => if self.axi {
                Step::Issue(
                    Access::Pull {
                        region: Region::Data,
                        offset: FULL_REG_READ,
                        len: self.width.byte_count(),
                    },
                )
            } else {
                Step::Issue(
                    Access::Pull {
                        region: Region::Control,
                        offset: REG_RX_DATA,
                        len: self.width.byte_count(),
                    },
                )
            },
            ReceiveStage::Status { .. } => Step::Issue(
                Access::Load { offset: REG_INTERRUPT_STATUS },
            ),
            ReceiveStage::Recover { store, .. } => Step::Issue(reset_access(store)),
            ReceiveStage::Finished { result } => Step::Done(result),
        }
    }

    /// Whether `reply` can answer the access that is due.
    pub fn accepts(&self, reply: &Reply) -> (b: bool)
        ensures
            b == self@.accepts(reply@),
    {
        proof {
            use_type_invariant(self);
        }
        match self.stage {
            ReceiveStage::Occupancy | ReceiveStage::Length | ReceiveStage::Destination { .. }
            | ReceiveStage::Status { .. } => match reply {
                Reply::Value(_) | Reply::Failed(_) => true,
                _ => false,
            },
            ReceiveStage::Clear | ReceiveStage::Recover { .. } => match reply {
                Reply::Stored | Reply::Failed(_) => true,
                _ => false,
            },
            ReceiveStage::Pull { word, bytes, .. } => match reply {
                Reply::Word(found) => {
                    let width: usize = self.width.byte_count();
                    proof {
                        crate::words::lemma_word_starts_inside(
                            bytes as nat,
                            width as nat,
                            word as nat,
                        );
                    }
                    !self.width.transferable() || (found.len() == width && width
                        <= self.data.len() - word * width)
                },
                Reply::Failed(_) => true,
                _ => false,
            },
            ReceiveStage::Finished { .. } => false,
        }
    }

    /// Takes the reply to the access that was due.
    pub fn supply(&mut self, reply: Reply)
        requires
            old(self)@.accepts(reply@),
        ensures
            final(self)@ == old(self)@.supply(reply@),
    {
        proof {
            use_type_invariant(&*self);
        }
        let width: usize = self.width.byte_count();
        match reply {
            Reply::Failed(kind) => {
                self.stage = ReceiveStage::Finished { result: Err(Error::Io(kind)) };
            },
            Reply::Value(value) => {
                let stage = match self.stage {
                    ReceiveStage::Occupancy => if value == 0 {
                        ReceiveStage::Finished { result: Err(Error::Empty) }
                    } else {
                        ReceiveStage::Clear
                    },
                    ReceiveStage::Length => {
                        let packet: usize = packet_bytes(value);
                        let room: usize = self.data.len();
                        ReceiveStage::Destination {
                            bytes: if room <= packet {
                                room
                            } else {
                                packet
                            },
                        }
                    },
                    ReceiveStage::Destination { bytes } => {
                        let destination: u8 = packet_destination(value);
                        if count_words(bytes, width) > 0 {
                            ReceiveStage::Pull { word: 0, bytes, destination }
                        } else {
                            ReceiveStage::Status { bytes, destination }
                        }
                    },
                    ReceiveStage::Status { bytes, destination } => match receive_error(value) {
                        Some(error) => ReceiveStage::Recover { store: 0, error },
                        None => ReceiveStage::Finished { result: Ok((bytes, destination)) },
                    },
                    stage => stage,
                };
                self.stage = stage;
            },
            Reply::Word(found) => {
                match self.stage {
                    ReceiveStage::Pull { word, bytes, destination } => {
                        if self.width.transferable() {
                            store_word(&mut self.data, width, word, found.as_slice());
                        }
                        if word + 1 < count_words(bytes, width) {
                            self.stage = ReceiveStage::Pull { word: word + 1, bytes, destination };
                        } else {
                            self.stage = ReceiveStage::Status { bytes, destination };
                        }
                    },
                    _ => {},
                }
            },
            Reply::Stored => {
                let stage = match self.stage {
                    ReceiveStage::Clear => ReceiveStage::Length,
                    ReceiveStage::Recover { store, error } => if store + 1 < RESET_STORES {
                        ReceiveStage::Recover { store: store + 1, error }
                    } else {
                        ReceiveStage::Finished { result: Err(error) }
                    },
                    stage => stage,
                };
                self.stage = stage;
            },
        }
    }
}

/// Every read of the data port asks for one whole word of the width of the
/// FIFO. With a data region it goes to the read offset in that region;
/// without one it goes to the receive data register and has 32 bits.
pub proof fn lemma_pull_is_one_word(s: ReceiveState)
    requires
        s.wf(),
    ensures
        s.pull() is Pull,
        s.pull()->Pull_len == s.width.spec_byte_count(),
        s.axi ==> s.pull()->Pull_region == Region::Data && s.pull()->Pull_offset == FULL_REG_READ,
        !s.axi ==> s.pull()->Pull_region == Region::Control && s.pull()->Pull_offset == REG_RX_DATA
            && s.pull()->Pull_len == 4,
{
}

} // verus!
