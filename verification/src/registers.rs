//! The register map of the peripheral and the bits of its interrupt registers.

use vstd::prelude::*;

verus! {

/// AXI Stream FIFO reset word
pub const RESET_MAGIC: u32 = 0x000000A5;

// AXI-lite registers
/// Interrupt status, write one to clear
pub const REG_INTERRUPT_STATUS: usize = 0x00;

/// Interrupt enable mask
pub const REG_INTERRUPT_ENABLE: usize = 0x04;

/// Transmitter reset
pub const REG_TX_RESET: usize = 0x08;

/// Transmitter vacancy, number of free locations
pub const REG_TX_VACANCY: usize = 0x0c;

/// Data register, where the FIFO is written
pub const REG_TX_DATA: usize = 0x10;

/// Transmit length register, number of bytes in the packet to send
pub const REG_TX_LENGTH: usize = 0x14;

/// Receiver reset
pub const REG_RX_RESET: usize = 0x18;

/// Receiver occupancy, number of location used for data storage
pub const REG_RX_OCCUPANCY: usize = 0x1c;

/// Data register, where the FIFO is read
pub const REG_RX_DATA: usize = 0x20;

/// Receive length register, number of bytes in the next "packet"
pub const REG_RX_LENGTH: usize = 0x24;

/// Reset of the whole stream
pub const REG_AXI4_STREAM_RESET: usize = 0x28;

/// Destination of the next packet to send
pub const REG_TX_DESTINATION: usize = 0x2c;

/// Destination of the packet being received
pub const REG_RX_DESTINATION: usize = 0x30;

// AXI4 registers
/// Where the FIFO is written in the data region
pub const FULL_REG_WRITE: usize = 0x00000000;

/// Where the FIFO is read in the data region
pub const FULL_REG_READ: usize = 0x00001000;

// Interrupts
/// Receive under-read interrupt
pub const INTERRUPT_RX_UNDER_READ: u32 = 0x80000000;

/// Receive over-read interrupt
pub const INTERRUPT_RX_OVER_READ: u32 = 0x40000000;

/// Receive under run (empty) interrupt
pub const INTERRUPT_RX_UNDER_RUN: u32 = 0x20000000;

/// Transmit overrun interrupt
pub const INTERRUPT_TX_OVER_RUN: u32 = 0x10000000;

/// Transmit complete interrupt
pub const INTERRUPT_TX_COMPLETE: u32 = 0x08000000;

/// Receive complete interrupt
pub const INTERRUPT_RX_COMPLETE: u32 = 0x04000000;

/// Transmit length mismatch interrupt
pub const INTERRUPT_TX_LENGTH_MISMATCH: u32 = 0x02000000;

/// Transmit reset complete interrupt
pub const INTERRUPT_TX_RESET_COMPLETE: u32 = 0x01000000;

/// Receive reset complete interrupt
pub const INTERRUPT_RX_RESET_COMPLETE: u32 = 0x00800000;

/// Tx FIFO Programmable Full interrupt
pub const INTERRUPT_TX_PROGRAMMABLE_FULL: u32 = 0x00400000;

/// Tx FIFO Programmable Empty interrupt
pub const INTERRUPT_TX_PROGRAMMABLE_EMPTY: u32 = 0x00200000;

/// Rx FIFO Programmable Full interrupt
pub const INTERRUPT_RX_PROGRAMMABLE_FULL: u32 = 0x00100000;

/// Rx FIFO Programmable Empty interrupt
pub const INTERRUPT_RX_PROGRAMMABLE_EMPTY: u32 = 0x00080000;

/// All interrupts
pub const INTERRUPT_ALL: u32 = INTERRUPT_RX_PROGRAMMABLE_EMPTY
    | INTERRUPT_RX_PROGRAMMABLE_FULL
    | INTERRUPT_TX_PROGRAMMABLE_EMPTY
    | INTERRUPT_TX_PROGRAMMABLE_FULL
    | INTERRUPT_RX_RESET_COMPLETE
    | INTERRUPT_TX_RESET_COMPLETE
    | INTERRUPT_TX_LENGTH_MISMATCH
    | INTERRUPT_RX_COMPLETE
    | INTERRUPT_TX_COMPLETE
    | INTERRUPT_TX_OVER_RUN
    | INTERRUPT_RX_UNDER_RUN
    | INTERRUPT_RX_OVER_READ
    | INTERRUPT_RX_UNDER_READ;

/// Receive Error status interrupts
pub const INTERRUPT_RX_ERROR: u32 = INTERRUPT_RX_UNDER_RUN | INTERRUPT_RX_OVER_READ
    | INTERRUPT_RX_UNDER_READ;

/// Transmit Error status interrupts
pub const INTERRUPT_TX_ERROR: u32 = INTERRUPT_TX_OVER_RUN | INTERRUPT_TX_LENGTH_MISMATCH;

/// The interrupts that a reset leaves enabled
pub const INTERRUPT_ENABLED: u32 = INTERRUPT_TX_COMPLETE | INTERRUPT_RX_COMPLETE
    | INTERRUPT_RX_UNDER_READ | INTERRUPT_RX_OVER_READ | INTERRUPT_RX_UNDER_RUN
    | INTERRUPT_TX_OVER_RUN | INTERRUPT_TX_LENGTH_MISMATCH;

/// The bits of the receive length register that hold the length
pub const RX_LENGTH_MASK: u32 = 0x003fffff;

/// The bits of the transmit destination register that hold the destination
pub const TX_DESTINATION_MASK: u8 = 0x0f;

/// The values of the masks that are made of several interrupts.
pub proof fn lemma_mask_values()
    ensures
        INTERRUPT_ALL == 0xfff80000u32,
        INTERRUPT_RX_ERROR == 0xe0000000u32,
        INTERRUPT_TX_ERROR == 0x12000000u32,
        INTERRUPT_ENABLED == 0xfe000000u32,
        INTERRUPT_RX_ERROR | INTERRUPT_RX_COMPLETE == 0xe4000000u32,
        INTERRUPT_TX_ERROR | INTERRUPT_TX_COMPLETE == 0x1a000000u32,
{
    assert(INTERRUPT_ALL == 0xfff80000u32) by (bit_vector);
    assert(INTERRUPT_RX_ERROR == 0xe0000000u32) by (bit_vector);
    assert(INTERRUPT_TX_ERROR == 0x12000000u32) by (bit_vector);
    assert(INTERRUPT_ENABLED == 0xfe000000u32) by (bit_vector);
    assert(INTERRUPT_RX_ERROR | INTERRUPT_RX_COMPLETE == 0xe4000000u32) by (bit_vector);
    assert(INTERRUPT_TX_ERROR | INTERRUPT_TX_COMPLETE == 0x1a000000u32) by (bit_vector);
}

} // verus!
