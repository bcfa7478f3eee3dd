//! What passes between the driver and whoever reaches the device: the bus
//! accesses that an operation asks for, and what each of them gave.

use vstd::prelude::*;
use crate::error::Error;

verus! {

/// One of the two memory regions of the peripheral.
#[derive(Clone, Copy, Debug, PartialEq, Eq, Structural)]
pub enum Region {
    /// The AXI-lite region: control and status registers, 32 bits each
    Control,
    /// The AXI4 region, whose data port takes whole FIFO words
    Data,
}

/// One access to the device. Each stands for exactly one bus transaction.
#[derive(Debug, PartialEq, Eq)]
pub enum Access {
    /// Read a 32-bit register of the control region
    Load { offset: usize },
    /// Write a 32-bit register of the control region
    Store { offset: usize, value: u32 },
    /// Read one FIFO word of `len` bytes from a data port, in one
    /// transaction of that width
    Pull { region: Region, offset: usize, len: usize },
    /// Write one FIFO word to a data port, in one transaction as wide as the
    /// word. The bytes are in the order in which they lie in memory.
    Push { region: Region, offset: usize, word: Vec<u8> },
}

/// An access, with the bytes of a word as a sequence.
pub enum AccessView {
    Load { offset: usize },
    Store { offset: usize, value: u32 },
    Pull { region: Region, offset: usize, len: usize },
    Push { region: Region, offset: usize, word: Seq<u8> },
}

impl View for Access {
    type V = AccessView;

    open spec fn view(&self) -> AccessView {
        match *self {
            Access::Load { offset } => AccessView::Load { offset },
            Access::Store { offset, value } => AccessView::Store { offset, value },
            Access::Pull { region, offset, len } => AccessView::Pull { region, offset, len },
            Access::Push { region, offset, word } => AccessView::Push {
                region,
                offset,
                word: word@,
            },
        }
    }
}

/// What an access gave.
#[derive(Debug, PartialEq, Eq)]
pub enum Reply {
    /// A `Store` or a `Push` was carried out
    Stored,
    /// The register that a `Load` read
    Value(u32),
    /// The bytes that a `Pull` read, in the order in which they lie in memory
    Word(Vec<u8>),
    /// The access failed
    Failed(std::io::ErrorKind),
}

/// A reply, with the bytes of a word as a sequence.
pub enum ReplyView {
    Stored,
    Value(u32),
    Word(Seq<u8>),
    Failed(std::io::ErrorKind),
}

impl View for Reply {
    type V = ReplyView;

    open spec fn view(&self) -> ReplyView {
        match *self {
            Reply::Stored => ReplyView::Stored,
            Reply::Value(v) => ReplyView::Value(v),
            Reply::Word(w) => ReplyView::Word(w@),
            Reply::Failed(kind) => ReplyView::Failed(kind),
        }
    }
}

/// Where an operation stands: it waits for an access to be made, or it is
/// over.
#[derive(Debug, PartialEq, Eq)]
pub enum Step<T> {
    /// Make this access and hand its reply to the operation
    Issue(Access),
    /// The operation is over, with this result
    Done(Result<T, Error>),
}

/// A step, with the bytes of a word as a sequence.
pub enum StepView<T> {
    Issue(AccessView),
    Done(Result<T, Error>),
}

impl<T> View for Step<T> {
    type V = StepView<T>;

    open spec fn view(&self) -> StepView<T> {
        match *self {
            Step::Issue(access) => StepView::Issue(access@),
            Step::Done(result) => StepView::Done(result),
        }
    }
}

impl ReplyView {
    /// Whether this is a reply to a `Store` or a `Push`.
    pub open spec fn answers_write(self) -> bool {
        self is Stored || self is Failed
    }

    /// Whether this is a reply to a `Load`.
    pub open spec fn answers_load(self) -> bool {
        self is Value || self is Failed
    }

    /// Whether this is a reply to a `Pull`.
    pub open spec fn answers_pull(self) -> bool {
        self is Word || self is Failed
    }
}

/// `count` replies to writes that were carried out.
pub open spec fn acknowledged(count: nat) -> Seq<ReplyView> {
    Seq::new(count, |i: int| ReplyView::Stored)
}

/// The replies to reads of a register that give `values` one after the
/// other.
pub open spec fn read_as(values: Seq<u32>) -> Seq<ReplyView> {
    Seq::new(values.len(), |i: int| ReplyView::Value(values[i]))
}

/// The steps that ask for `accesses`, one after the other.
pub open spec fn issued<T>(accesses: Seq<AccessView>) -> Seq<StepView<T>> {
    Seq::new(accesses.len(), |i: int| StepView::Issue(accesses[i]))
}

} // verus!
