//! Driver core for the memory-mapped AXI4-Stream FIFO of Xilinx/AMD FPGA SoCs.
//!
//! The peripheral has a control region of 32-bit registers and, on most
//! devices, a data region whose data port takes whole FIFO words of 32 to 512
//! bits. This crate holds the register map, the word widths and the protocol
//! of every operation on the peripheral: reset, clearing of interrupts,
//! sending a packet and reading one.
//!
//! The crate never touches the bus itself. A [`StreamFifo`] describes a
//! device, and each of its methods starts an operation: a small machine that
//! names the bus access that is due (`next`) and goes on when it is told what
//! the access gave (`supply`), until it is over and gives its result. Whoever
//! reaches the device makes the accesses, each as one transaction of the stated
//! width, and may wait between them as long as it likes:
//!
//! 1. ask the operation for its `next` step;
//! 2. if the step is an access, make it, test with `accepts` that the reply
//!    fits, hand it over with `supply`, and go back to 1;
//! 3. else the step holds the result.
//!
//! What each operation does is stated twice. The functions `next`, `accepts`
//! and `supply` of its state say what it does at every single step; the
//! modules `command`, `transmit_runs`, `receive_runs` and `loopback` prove
//! what that amounts to over a whole run: which accesses reach the device, in
//! which order, and what the result is.

pub mod bus;
pub mod command;
pub mod error;
pub mod loopback;
pub mod operation;
pub mod receive;
pub mod receive_runs;
pub mod registers;
pub mod stream_fifo;
pub mod transmit;
pub mod transmit_runs;
pub mod width;
pub mod words;

pub use crate::error::Error;
pub use crate::stream_fifo::StreamFifo;
pub use crate::width::StreamFifoValue;
