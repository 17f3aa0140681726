//! The sender: a state machine that says which step comes next.
//!
//! The machine does no input or output itself. It names a step, its driver
//! performs the step and reports the outcome, and the machine names the next
//! step. The encoded message is made once, when the sender is made, and is
//! never changed afterwards.

use vstd::prelude::*;
use crate::address::{check_address, valid_address};
use crate::error::SendError;
use crate::payload::{make_args, selected_payload, Config};
use crate::wire::{encode_message, message_bytes};

verus! {

/// What the driver is to do next.
#[derive(Clone, Copy, Debug, PartialEq, Eq, Structural)]
pub enum Step {
    /// Acquire a UDP socket on the loopback interface, on a port that the
    /// system picks.
    Bind,
    /// Send the buffer to the destination port on the loopback interface.
    Send,
    /// Pause for this many milliseconds.
    Sleep(u128),
    /// End the run: it has succeeded.
    Finish,
    /// End the run: it has failed, for this reason.
    Abort(SendError),
}

/// The exit code that a step ends the process with: 0 after a run that has
/// finished, 1 after one that was given up, none while there is more to do.
pub open spec fn step_exit_code(step: Step) -> Option<i32> {
    match step {
        Step::Finish => Some(0i32),
        Step::Abort(_) => Some(1i32),
        _ => None,
    }
}

impl Step {
    /// The exit code that this step ends the process with, if it ends it.
    pub fn exit_code(&self) -> (code: Option<i32>)
        ensures
            code == step_exit_code(*self),
    {
        match self {
            Step::Finish => Some(0),
            Step::Abort(_) => Some(1),
            _ => None,
        }
    }
}

/// What came of the step that the driver performed.
#[derive(Clone, Copy, Debug, PartialEq, Eq, Structural)]
pub enum Outcome {
    /// The socket is there.
    Bound,
    /// No socket could be acquired.
    BindFailed,
    /// The message was handed to the network.
    Sent,
    /// The message could not be sent.
    SendFailed,
    /// The pause is over.
    Slept,
}

/// Where a run stands.
#[derive(Clone, Copy, Debug, PartialEq, Eq, Structural)]
pub enum Phase {
    /// No socket yet.
    Unbound,
    /// About to send, after `sent` attempts.
    Sending { sent: u128 },
    /// About to pause, after `sent` attempts.
    Pausing { sent: u128 },
    /// All attempts were made.
    Finished,
    /// No socket could be acquired.
    Failed,
}

/// A sender as a mathematical value.
pub struct SenderState {
    /// The encoded message.
    pub buffer: Seq<u8>,
    /// The destination port.
    pub port: u16,
    /// How many times the message is sent.
    pub count: u128,
    /// The pause between two sends, in milliseconds.
    pub delay: u128,
    /// Where the run stands.
    pub phase: Phase,
}

/// The state of a sender that has done nothing yet.
pub open spec fn initial_state(buffer: Seq<u8>, port: u16, count: u128, delay: u128) -> SenderState {
    SenderState { buffer, port, count, delay, phase: Phase::Unbound }
}

/// A state that a run can be in: the number of attempts made stays below the
/// number asked for while there is more to do, and a pause follows an
/// attempt.
pub open spec fn well_formed(s: SenderState) -> bool {
    match s.phase {
        Phase::Sending { sent } => sent < s.count,
        Phase::Pausing { sent } => 0 < sent < s.count,
        _ => true,
    }
}

/// The step that a state asks for.
pub open spec fn pending_step(s: SenderState) -> Step {
    match s.phase {
        Phase::Unbound => Step::Bind,
        Phase::Sending { .. } => Step::Send,
        Phase::Pausing { .. } => Step::Sleep(s.delay),
        Phase::Finished => Step::Finish,
        Phase::Failed => Step::Abort(SendError::Bind),
    }
}

/// Whether an outcome is one that a step can have.
pub open spec fn answers(step: Step, outcome: Outcome) -> bool {
    match step {
        Step::Bind => outcome == Outcome::Bound || outcome == Outcome::BindFailed,
        Step::Send => outcome == Outcome::Sent || outcome == Outcome::SendFailed,
        Step::Sleep(_) => outcome == Outcome::Slept,
        Step::Finish => false,
        Step::Abort(_) => false,
    }
}

/// The phase after an attempt to send, made after `sent` earlier ones:
/// whether it succeeded makes no difference.
pub open spec fn phase_after_send(count: u128, sent: u128) -> Phase {
    if sent + 1 < count {
        Phase::Pausing { sent: (sent + 1) as u128 }
    } else {
        Phase::Finished
    }
}

/// The state after an outcome. An outcome that does not answer the pending
/// step changes nothing.
pub open spec fn next_state(s: SenderState, outcome: Outcome) -> SenderState {
    let phase = match (s.phase, outcome) {
        (Phase::Unbound, Outcome::Bound) => if s.count == 0 {
            Phase::Finished
        } else {
            Phase::Sending { sent: 0 }
        },
        (Phase::Unbound, Outcome::BindFailed) => Phase::Failed,
        (Phase::Sending { sent }, Outcome::Sent) => phase_after_send(s.count, sent),
        (Phase::Sending { sent }, Outcome::SendFailed) => phase_after_send(s.count, sent),
        (Phase::Pausing { sent }, Outcome::Slept) => Phase::Sending { sent },
        _ => s.phase,
    };
    SenderState { phase, ..s }
}

/// A sender: the encoded message, where it goes, how often, and where the
/// run stands.
pub struct Sender {
    buffer: Vec<u8>,
    port: u16,
    count: u128,
    delay: u128,
    phase: Phase,
}

impl View for Sender {
    type V = SenderState;

    closed spec fn view(&self) -> SenderState {
        SenderState {
            buffer: self.buffer@,
            port: self.port,
            count: self.count,
            delay: self.delay,
            phase: self.phase,
        }
    }
}

impl Sender {
    #[verifier::type_invariant]
    spec fn inv(self) -> bool {
        well_formed(self@)
    }

    /// A sender for an encoded message, with nothing done yet.
    pub fn ready(buffer: Vec<u8>, port: u16, count: u128, delay: u128) -> (s: Sender)
        ensures
            s@ == initial_state(buffer@, port, count, delay),
    {
        Sender { buffer, port, count, delay, phase: Phase::Unbound }
    }

    /// Makes the sender for a configuration: checks the address, picks the
    /// payload and encodes the message, in this order and before any step is
    /// asked for.
    ///
    /// There is a sender exactly when the address is well-formed. Without
    /// one no step is ever asked for, so no socket is made.
    pub fn new(config: &Config) -> (r: Result<Sender, SendError>)
        ensures
            r is Ok <==> valid_address(config.address@),
            r matches Ok(s) ==> s@ == initial_state(
                message_bytes(config.address@, selected_payload(config)),
                config.port,
                config.count,
                config.delay,
            ),
            r matches Err(e) ==> e == SendError::InvalidAddress,
    {
        match check_address(config.address.as_str()) {
            Err(e) => Err(e),
            Ok(_) => {
                let args = make_args(config);
                match encode_message(config.address.as_str(), &args[0]) {
                    Err(e) => Err(e),
                    Ok(buffer) => Ok(Sender::ready(buffer, config.port, config.count, config.delay)),
                }
            },
        }
    }

    /// The step that the sender asks for. Every sender is in a state that a
    /// run can be in.
    pub fn pending(&self) -> (step: Step)
        ensures
            step == pending_step(self@),
            well_formed(self@),
    {
        proof {
            use_type_invariant(self);
        }
        match self.phase {
            Phase::Unbound => Step::Bind,
            Phase::Sending { .. } => Step::Send,
            Phase::Pausing { .. } => Step::Sleep(self.delay),
            Phase::Finished => Step::Finish,
            Phase::Failed => Step::Abort(SendError::Bind),
        }
    }

    /// Takes in the outcome of the pending step and gives the next step.
    pub fn advance(&mut self, outcome: Outcome) -> (step: Step)
        ensures
            final(self)@ == next_state(old(self)@, outcome),
            step == pending_step(final(self)@),
    {
        proof {
            use_type_invariant(&*self);
        }
        let phase = match (self.phase, outcome) {
            (Phase::Unbound, Outcome::Bound) => if self.count == 0 {
                Phase::Finished
            } else {
                Phase::Sending { sent: 0 }
            },
            (Phase::Unbound, Outcome::BindFailed) => Phase::Failed,
            (Phase::Sending { sent }, Outcome::Sent) | (Phase::Sending { sent }, Outcome::SendFailed) => {
                if sent + 1 < self.count {
                    Phase::Pausing { sent: sent + 1 }
                } else {
                    Phase::Finished
                }
            },
            (Phase::Pausing { sent }, Outcome::Slept) => Phase::Sending { sent },
            (phase, _) => phase,
        };
        self.phase = phase;
        self.pending()
    }

    /// The encoded message: the bytes of every send.
    pub fn buffer(&self) -> (bytes: &Vec<u8>)
        ensures
            bytes@ == self@.buffer,
    {
        &self.buffer
    }

    /// The destination port.
    pub fn port(&self) -> (port: u16)
        ensures
            port == self@.port,
    {
        self.port
    }

    /// How many times the message is sent.
    pub fn count(&self) -> (count: u128)
        ensures
            count == self@.count,
    {
        self.count
    }

    /// The pause between two sends, in milliseconds.
    pub fn delay(&self) -> (delay: u128)
        ensures
            delay == self@.delay,
    {
        self.delay
    }

    /// Where the run stands.
    pub fn phase(&self) -> (phase: Phase)
        ensures
            phase == self@.phase,
    {
        self.phase
    }
}

} // verus!
