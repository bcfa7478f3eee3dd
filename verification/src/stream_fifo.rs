//! The handle of one FIFO device.

use vstd::prelude::*;
use vstd::slice::slice_to_vec;
use crate::command::{clear_sequence, reset_sequence, Command, CommandState};
use crate::error::Error;
use crate::operation::Operation;
use crate::receive::{Receive, ReceiveState};
use crate::registers::{
    INTERRUPT_ALL, INTERRUPT_RX_COMPLETE, INTERRUPT_RX_ERROR, INTERRUPT_TX_COMPLETE,
    INTERRUPT_TX_ERROR,
};
use crate::transmit::{Transmit, TransmitState};
use crate::width::StreamFifoValue;

verus! {

/// The bytes of `value` with the least significant one first.
pub open spec fn little_endian(value: u32) -> Seq<u8> {
    seq![
        (value & 0xff) as u8,
        ((value >> 8) & 0xff) as u8,
        ((value >> 16) & 0xff) as u8,
        ((value >> 24) & 0xff) as u8,
    ]
}

/// The bytes of `value` with the most significant one first.
pub open spec fn big_endian(value: u32) -> Seq<u8> {
    little_endian(value).reverse()
}

/// Whether `bytes` can be how `words` lie in memory: four bytes for each
/// word, in one of the two byte orders.
pub open spec fn lies_in_memory_as(words: Seq<u32>, bytes: Seq<u8>) -> bool {
    &&& bytes.len() == 4 * words.len()
    &&& forall|i: int|
        0 <= i < words.len() ==> {
            let word = #[trigger] bytes.subrange(4 * i, 4 * i + 4);
            word == little_endian(words[i]) || word == big_endian(words[i])
        }
}

/// `u32::to_ne_bytes`: the four bytes of `value` in the order in which they
/// lie in the memory of this machine, which is one of the two byte orders.
#[verifier::external_body]
fn native_bytes(value: u32) -> (bytes: [u8; 4])
    ensures
        bytes@ == little_endian(value) || bytes@ == big_endian(value),
{
    value.to_ne_bytes()
}

/// Represents an AXI Stream FIFO device: the width of its words and whether
/// it has a data region beside its control region.
#[derive(Clone, Copy, Debug, PartialEq, Eq)]
pub struct StreamFifo {
    data_width: StreamFifoValue,
    axi: bool,
}

impl StreamFifo {
    #[verifier::type_invariant]
    spec fn inv(&self) -> bool {
        !self.axi ==> self.data_width == StreamFifoValue::U32
    }

    /// The width of the FIFO words.
    pub closed spec fn spec_data_width(&self) -> StreamFifoValue {
        self.data_width
    }

    /// Whether the device has a data region.
    pub closed spec fn spec_has_data_region(&self) -> bool {
        self.axi
    }

    /// Creates a new `StreamFifo` instance for a device with `maps` memory
    /// regions.
    ///
    /// With two regions or more the second one is the data region and the
    /// words have the width that is given. With one region the data goes
    /// through the control region, in words of 32 bits. Without a region
    /// there is no device to drive.
    pub fn try_from(maps: usize, data_width: StreamFifoValue) -> (r: Result<StreamFifo, Error>)
        ensures
            maps == 0 ==> r == Err::<StreamFifo, Error>(Error::NoMemoryMap),
            maps == 1 ==> r is Ok && !r->Ok_0.spec_has_data_region() && r->Ok_0.spec_data_width()
                == StreamFifoValue::U32,
            maps >= 2 ==> r is Ok && r->Ok_0.spec_has_data_region() && r->Ok_0.spec_data_width()
                == data_width,
    {
        if maps >= 2 {
            Ok(StreamFifo { data_width, axi: true })
        } else if maps == 1 {
            Ok(StreamFifo { data_width: StreamFifoValue::U32, axi: false })
        } else {
            Err(Error::NoMemoryMap)
        }
    }

    /// Returns the data width of the FIFO.
    #[verifier::when_used_as_spec(spec_data_width)]
    pub fn data_width(&self) -> (width: StreamFifoValue)
        ensures
            width == self.spec_data_width(),
            !self.spec_has_data_region() ==> width == StreamFifoValue::U32,
    {
        proof {
            use_type_invariant(self);
        }
        self.data_width
    }

    /// Returns whether the device has a data region.
    #[verifier::when_used_as_spec(spec_has_data_region)]
    pub fn has_data_region(&self) -> (axi: bool)
        ensures
            axi == self.spec_has_data_region(),
    {
        self.axi
    }

    /// Resets the AXI Stream FIFO.
    pub fn reset(&self) -> (command: Command)
        ensures
            command@ == CommandState::start(reset_sequence()),
    {
        Command::reset()
    }

    /// Clears all interrupts for the AXI Stream FIFO.
    pub fn interrupts_clear(&self) -> (command: Command)
        ensures
            command@ == CommandState::start(clear_sequence(INTERRUPT_ALL)),
    {
        Command::clear(INTERRUPT_ALL)
    }

    /// Clears all RX interrupts for the AXI Stream FIFO.
    pub fn interrupts_clear_rx(&self) -> (command: Command)
        ensures
            command@ == CommandState::start(
                clear_sequence(INTERRUPT_RX_ERROR | INTERRUPT_RX_COMPLETE),
            ),
    {
        Command::clear(INTERRUPT_RX_ERROR | INTERRUPT_RX_COMPLETE)
    }

    /// Clears all TX interrupts for the AXI Stream FIFO.
    pub fn interrupts_clear_tx(&self) -> (command: Command)
        ensures
            command@ == CommandState::start(
                clear_sequence(INTERRUPT_TX_ERROR | INTERRUPT_TX_COMPLETE),
            ),
    {
        Command::clear(INTERRUPT_TX_ERROR | INTERRUPT_TX_COMPLETE)
    }

    /// Reads bytes from the AXI Stream FIFO into `data`.
    pub fn read_bytes(&self, data: Vec<u8>) -> (receive: Receive)
        ensures
            receive@ == ReceiveState::start(
                self.spec_data_width(),
                self.spec_has_data_region(),
                data@,
            ),
            receive@.wf(),
    {
        proof {
            use_type_invariant(self);
        }
        Receive::new(self.data_width, self.axi, data)
    }

    /// Writes bytes to the AXI Stream FIFO.
    pub fn write_bytes(&self, data: &[u8], destination: u8) -> (transmit: Transmit)
        ensures
            transmit@ == TransmitState::start(
                self.spec_data_width(),
                self.spec_has_data_region(),
                data@,
                destination,
            ),
            transmit@.wf(),
    {
        proof {
            use_type_invariant(self);
        }
        Transmit::new(self.data_width, self.axi, slice_to_vec(data), destination)
    }

    /// Writes data to the AXI Stream FIFO: the words of `data` as they lie
    /// in memory.
    pub fn write(&self, data: &[u32], destination: u8) -> (transmit: Transmit)
        ensures
            lies_in_memory_as(data@, transmit@.data),
            transmit@ == TransmitState::start(
                self.spec_data_width(),
                self.spec_has_data_region(),
                transmit@.data,
                destination,
            ),
            transmit@.wf(),
    {
        let mut bytes: Vec<u8> = Vec::new();
        let mut n: usize = 0;
        while n < data.len()
            invariant
                n <= data@.len(),
                lies_in_memory_as(data@.take(n as int), bytes@),
            decreases data@.len() - n,
        {
            let word: [u8; 4] = native_bytes(data[n]);
            let ghost before = bytes@;
            bytes.push(word[0]);
            bytes.push(word[1]);
            bytes.push(word[2]);
            bytes.push(word[3]);
            proof {
                let words = data@.take(n + 1);
                assert(bytes@ =~= before + word@);
                assert forall|i: int| 0 <= i < words.len() implies {
                    let part = #[trigger] bytes@.subrange(4 * i, 4 * i + 4);
                    part == little_endian(words[i]) || part == big_endian(words[i])
                } by {
                    if i < n {
                        assert(bytes@.subrange(4 * i, 4 * i + 4) =~= before.subrange(
                            4 * i,
                            4 * i + 4,
                        ));
                        assert(data@.take(n as int)[i] == words[i]);
                    } else {
                        assert(bytes@.subrange(4 * i, 4 * i + 4) =~= word@);
                    }
                }
            }
            n = n + 1;
        }
        assert(data@.take(n as int) =~= data@);
        self.write_bytes(bytes.as_slice(), destination)
    }
}

} // verus!
