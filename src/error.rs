use vstd::prelude::*;

verus! {

/// What can go wrong inside one session/search cycle.
#[derive(Debug, Clone, Copy, PartialEq, Eq, Structural)]
pub enum MinerError {
    /// The pool closed the connection before a job arrived.
    ConnectionClosed,
    /// A pool message was not valid JSON or lacked a required field.
    Protocol,
    /// A hex field of a header, coinbase or merkle branch did not decode.
    Decode,
    /// The compact target's exponent cannot be placed in 32 bytes.
    InvalidTarget,
}

} // verus!
