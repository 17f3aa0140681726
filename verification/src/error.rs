//! The failures that end a run before or while it sets up its transport.

use vstd::prelude::*;
use rosc::OscError;

verus! {

/// The error type of the `rosc` crate, carried through unopened.
#[verifier::external_type_specification]
#[verifier::external_body]
pub struct ExOscError(OscError);

/// Why a run was given up. Every one of them is fatal.
#[derive(Clone, Copy, Debug, PartialEq, Eq, Structural)]
pub enum SendError {
    /// The destination address is not a well-formed OSC address.
    InvalidAddress,
    /// The encoder refused the message.
    Encoding,
    /// No local socket could be acquired.
    Bind,
}

impl SendError {
    /// The exit code of a process that gives up for this reason: always 1.
    pub fn exit_code(&self) -> (code: i32)
        ensures
            code == 1,
    {
        1
    }
}

} // verus!
