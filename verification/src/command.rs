//! Operations that are a fixed run of register writes: the reset of the
//! peripheral and the clearing of interrupts.

use vstd::prelude::*;
use crate::bus::{
    acknowledged, issued, Access, AccessView, Reply, ReplyView, Step, StepView,
};
use crate::error::Error;
use crate::operation::{lemma_run_next, run, takes, trace, Operation};
use crate::registers::{
    INTERRUPT_ALL, INTERRUPT_ENABLED, REG_AXI4_STREAM_RESET, REG_INTERRUPT_ENABLE,
    REG_INTERRUPT_STATUS, REG_RX_RESET, REG_TX_RESET, RESET_MAGIC,
};

verus! {

/// The number of register writes that make a reset.
pub const RESET_STORES: usize = 5;

/// The register writes that make a reset, in the order in which the
/// peripheral needs them: the whole stream, the transmitter and the receiver
/// are reset, the interrupts of the driver are enabled, and every pending
/// interrupt is cleared.
pub open spec fn reset_sequence() -> Seq<AccessView> {
    seq![
        AccessView::Store { offset: REG_AXI4_STREAM_RESET, value: RESET_MAGIC },
        AccessView::Store { offset: REG_TX_RESET, value: RESET_MAGIC },
        AccessView::Store { offset: REG_RX_RESET, value: RESET_MAGIC },
        AccessView::Store { offset: REG_INTERRUPT_ENABLE, value: INTERRUPT_ENABLED },
        AccessView::Store { offset: REG_INTERRUPT_STATUS, value: INTERRUPT_ALL },
    ]
}

/// The register write that clears the interrupts of `mask`.
pub open spec fn clear_sequence(mask: u32) -> Seq<AccessView> {
    seq![AccessView::Store { offset: REG_INTERRUPT_STATUS, value: mask }]
}

/// The `index`-th register write of a reset.
pub fn reset_access(index: usize) -> (access: Access)
    requires
        index < RESET_STORES,
    ensures
        access@ == reset_sequence()[index as int],
{
    if index == 0 {
        Access::Store { offset: REG_AXI4_STREAM_RESET, value: RESET_MAGIC }
    } else if index == 1 {
        Access::Store { offset: REG_TX_RESET, value: RESET_MAGIC }
    } else if index == 2 {
        Access::Store { offset: REG_RX_RESET, value: RESET_MAGIC }
    } else if index == 3 {
        Access::Store { offset: REG_INTERRUPT_ENABLE, value: INTERRUPT_ENABLED }
    } else {
        Access::Store { offset: REG_INTERRUPT_STATUS, value: INTERRUPT_ALL }
    }
}

/// What a command is, as a value: the writes that it makes, how many of them
/// were carried out, and the failure that stopped it, if one did.
pub struct CommandState {
    pub script: Seq<AccessView>,
    pub position: nat,
    pub fault: Option<std::io::ErrorKind>,
}

impl CommandState {
    /// A command that has made none of the writes of `script` yet.
    pub open spec fn start(script: Seq<AccessView>) -> CommandState {
        CommandState { script, position: 0, fault: None }
    }
}

impl Operation for CommandState {
    type Output = ();

    /// No more writes were carried out than the script holds.
    open spec fn wf(self) -> bool {
        self.position <= self.script.len()
    }

    /// Where the command stands: after a failure it is over with that
    /// failure, after the last write it is over with success, and before
    /// that its next write is due.
    open spec fn next(self) -> StepView<()> {
        match self.fault {
            Some(kind) => StepView::Done(Err(Error::Io(kind))),
            None => if self.position < self.script.len() {
                StepView::Issue(self.script[self.position as int])
            } else {
                StepView::Done(Ok(()))
            },
        }
    }

    /// Whether `reply` can answer the access that is due.
    open spec fn accepts(self, reply: ReplyView) -> bool {
        self.next() is Issue && reply.answers_write()
    }

    /// The command after `reply` has answered the access that was due.
    open spec fn supply(self, reply: ReplyView) -> CommandState {
        if self.next() is Done {
            self
        } else {
            match reply {
                ReplyView::Failed(kind) => CommandState { fault: Some(kind), ..self },
                _ => CommandState { position: self.position + 1, ..self },
            }
        }
    }

    proof fn lemma_stays_well_formed(self, reply: ReplyView) {
    }

    proof fn lemma_finished_is_final(self, reply: ReplyView) {
    }

    proof fn lemma_stops_on_failure(self, kind: std::io::ErrorKind) {
    }
}

/// One of the two kinds of command.
#[derive(Clone, Copy, Debug, PartialEq, Eq)]
enum Script {
    Reset,
    Clear { mask: u32 },
}

impl Script {
    spec fn accesses(self) -> Seq<AccessView> {
        match self {
            Script::Reset => reset_sequence(),
            Script::Clear { mask } => clear_sequence(mask),
        }
    }
}

/// A reset of the peripheral or a clearing of interrupts, as it runs.
#[derive(Debug)]
pub struct Command {
    script: Script,
    position: usize,
    fault: Option<std::io::ErrorKind>,
}

impl View for Command {
    type V = CommandState;

    closed spec fn view(&self) -> CommandState {
        CommandState {
            script: self.script.accesses(),
            position: self.position as nat,
            fault: self.fault,
        }
    }
}

impl Command {
    #[verifier::type_invariant]
    spec fn inv(&self) -> bool {
        self@.wf()
    }

    /// The command that resets the peripheral.
    pub(crate) fn reset() -> (command: Command)
        ensures
            command@ == CommandState::start(reset_sequence()),
    {
        Command { script: Script::Reset, position: 0, fault: None }
    }

    /// The command that clears the interrupts of `mask`.
    pub(crate) fn clear(mask: u32) -> (command: Command)
        ensures
            command@ == CommandState::start(clear_sequence(mask)),
    {
        Command { script: Script::Clear { mask }, position: 0, fault: None }
    }

    /// Where the command stands: the access to make now, or how it ended.
    pub fn next(&self) -> (step: Step<()>)
        ensures
            step@ == self@.next(),
    {
        proof {
            use_type_invariant(self);
        }
        match self.fault {
            Some(kind) => Step::Done(Err(Error::Io(kind))),
            None => match self.script {
                Script::Reset => if self.position < RESET_STORES {
                    Step::Issue(reset_access(self.position))
                } else {
                    Step::Done(Ok(()))
                },
                Script::Clear { mask } => if self.position == 0 {
                    Step::Issue(Access::Store { offset: REG_INTERRUPT_STATUS, value: mask })
                } else {
                    Step::Done(Ok(()))
                },
            },
        }
    }

    /// Whether `reply` can answer the access that is due.
    pub fn accepts(&self, reply: &Reply) -> (b: bool)
        ensures
            b == self@.accepts(reply@),
    {
        proof {
            use_type_invariant(self);
        }
        let due = match self.script {
            Script::Reset => self.position < RESET_STORES,
            Script::Clear { .. } => self.position == 0,
        };
        let open = match self.fault {
            Some(_) => false,
            None => due,
        };
        open && match reply {
            Reply::Stored => true,
            Reply::Failed(_) => true,
            _ => false,
        }
    }

    /// Takes the reply to the access that was due.
    pub fn supply(&mut self, reply: Reply)
        requires
            old(self)@.accepts(reply@),
        ensures
            final(self)@ == old(self)@.supply(reply@),
    {
        proof {
            use_type_invariant(&*self);
        }
        match reply {
            Reply::Failed(kind) => {
                self.fault = Some(kind);
            },
            _ => {
                self.position = self.position + 1;
            },
        }
    }
}

/// While every write is carried out, a command makes the writes of its script
/// in order, each once, and then ends with success.
pub proof fn lemma_command_runs_script(script: Seq<AccessView>)
    ensures
        takes(CommandState::start(script), acknowledged(script.len())),
        trace(CommandState::start(script), acknowledged(script.len())) == issued::<()>(script)
            + seq![StepView::Done(Ok(()))],
{
    let s = CommandState::start(script);
    let replies = acknowledged(script.len());
    assert forall|i: int| 0 <= i <= script.len() implies #[trigger] run(s, replies.take(i))
        == (CommandState { position: i as nat, ..s }) by {
        lemma_command_progress(script, i as nat);
    }
    assert(trace(s, replies) =~= issued::<()>(script) + seq![StepView::Done(Ok(()))]);
}

proof fn lemma_command_progress(script: Seq<AccessView>, count: nat)
    requires
        count <= script.len(),
    ensures
        run(CommandState::start(script), acknowledged(script.len()).take(count as int))
            == (CommandState { position: count, ..CommandState::start(script) }),
    decreases count,
{
    let s = CommandState::start(script);
    let replies = acknowledged(script.len());
    if count > 0 {
        lemma_command_progress(script, (count - 1) as nat);
        lemma_run_next(s, replies, count - 1);
    }
}

/// A reset whose writes are all carried out writes the reset word to the
/// stream reset, the transmitter reset and the receiver reset, then the mask
/// of enabled interrupts, then clears every interrupt, and ends with success.
pub proof fn lemma_reset_shape()
    ensures
        takes(CommandState::start(reset_sequence()), acknowledged(5)),
        trace(CommandState::start(reset_sequence()), acknowledged(5)) == seq![
            StepView::<()>::Issue(AccessView::Store { offset: 0x28, value: 0xa5 }),
            StepView::<()>::Issue(AccessView::Store { offset: 0x08, value: 0xa5 }),
            StepView::<()>::Issue(AccessView::Store { offset: 0x18, value: 0xa5 }),
            StepView::<()>::Issue(AccessView::Store { offset: 0x04, value: 0xfe00_0000 }),
            StepView::<()>::Issue(AccessView::Store { offset: 0x00, value: 0xfff8_0000 }),
            StepView::<()>::Done(Ok(())),
        ],
{
    lemma_command_runs_script(reset_sequence());
    crate::registers::lemma_mask_values();
    assert(issued::<()>(reset_sequence()) + seq![StepView::Done(Ok(()))] =~= seq![
        StepView::<()>::Issue(AccessView::Store { offset: 0x28, value: 0xa5 }),
        StepView::<()>::Issue(AccessView::Store { offset: 0x08, value: 0xa5 }),
        StepView::<()>::Issue(AccessView::Store { offset: 0x18, value: 0xa5 }),
        StepView::<()>::Issue(AccessView::Store { offset: 0x04, value: 0xfe00_0000 }),
        StepView::<()>::Issue(AccessView::Store { offset: 0x00, value: 0xfff8_0000 }),
        StepView::<()>::Done(Ok(())),
    ]);
}

} // verus!
