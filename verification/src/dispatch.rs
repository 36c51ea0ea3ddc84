//! The message dispatcher: a pure decision from command id to handler
//! outcome. Unknown command ids set a sticky termination signal; the read
//! loop is expected to stop as soon as it sees `Stop`.

use vstd::prelude::*;

use crate::frame::P2PMessage;
use crate::header::is_known_command;
use crate::header::spec_known_command;

verus! {

/// What the driving loop does after one frame has been dispatched.
#[derive(Debug, Clone, Copy, PartialEq, Eq, Structural)]
pub enum DispatchOutcome {
    Continue,
    Stop,
}

/// The dispatcher's state: the sticky termination signal.
#[derive(Debug, Clone, Copy, PartialEq, Eq, Structural)]
pub struct Dispatcher {
    pub end_flag: bool,
}

impl Dispatcher {
    /// A dispatcher that has seen nothing wrong yet.
    pub fn new() -> (d: Dispatcher)
        ensures
            !d.end_flag,
    {
        Dispatcher { end_flag: false }
    }

    /// Routes one frame by its command id. A command id outside the known
    /// set sets the termination signal, and the signal never clears; the
    /// returned outcome is `Stop` exactly when the signal is set.
    pub fn process_message(&mut self, msg: &P2PMessage) -> (o: DispatchOutcome)
        ensures
            final(self).end_flag == (old(self).end_flag || !spec_known_command(
                msg.header.command,
            )),
            o == (if final(self).end_flag {
                DispatchOutcome::Stop
            } else {
                DispatchOutcome::Continue
            }),
    {
        if !is_known_command(msg.header.command) {
            self.end_flag = true;
        }
        if self.end_flag {
            DispatchOutcome::Stop
        } else {
            DispatchOutcome::Continue
        }
    }

    /// Whether the loop may read another frame.
    pub fn should_continue(&self) -> (r: bool)
        ensures
            r == !self.end_flag,
    {
        !self.end_flag
    }
}

} // verus!
