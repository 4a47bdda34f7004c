//! The ways in which a protocol step can fail.

use vstd::prelude::*;

verus! {

/// Why a step was refused. A failed run cannot be resumed.
#[derive(Clone, Copy, Debug, PartialEq, Eq, Structural)]
pub enum Error {
    /// The inputs are malformed: lengths that do not agree, a party index
    /// out of range or given twice, fewer signers than the threshold asks for.
    InvalidParameters,
    /// A decommitment does not open the commitment it came with.
    InvalidCommitment,
    /// A secret share, or a local signature, does not lie on the committed
    /// polynomial.
    InvalidSS,
    /// A signature does not verify.
    InvalidSig,
    /// The round was asked to proceed before all its messages had arrived.
    NotEnoughMessages,
    /// Bytes that should encode a scalar or a group element do not.
    InternalCurve,
}

/// Why a state machine refused a step: a round failed on its input, or the
/// machine was driven out of order.
#[derive(Clone, Copy, Debug, PartialEq, Eq, Structural)]
pub enum MachineError<E> {
    /// A round failed; the machine is gone.
    ProceedRound(E),
    /// The machine refused the call and stays as it was.
    Driver(Error),
}

} // verus!
