use vstd::prelude::*;

verus! {

/// Every way an operation of the pool can fail. Each failure is terminal:
/// the operation aborts and none of its changes are kept.
#[derive(Debug, Clone, Copy, PartialEq, Eq, Structural)]
pub enum MixerError {
    /// The instruction payload is malformed or its tag is unknown.
    InvalidInstruction,
    /// The withdrawal names a root that is not in the root history.
    UnknownRoot,
    /// A marker for this nullifier hash already exists.
    NullifierUsed,
    /// The verifier rejected the proof, or the proof's public inputs do not
    /// match the withdrawal they accompany.
    VerificationFailed,
    /// A required signer did not sign.
    Unauthorized,
    /// An account does not sit at the address derived for it.
    InvalidArgument,
    /// The state storage is shorter than the fixed layout.
    StorageTooSmall,
}

impl MixerError {
    /// The number that identifies this error to the host.
    pub open spec fn spec_code(self) -> u32 {
        match self {
            MixerError::InvalidInstruction => 0,
            MixerError::UnknownRoot => 1,
            MixerError::NullifierUsed => 2,
            MixerError::VerificationFailed => 3,
            MixerError::Unauthorized => 4,
            MixerError::InvalidArgument => 5,
            MixerError::StorageTooSmall => 6,
        }
    }

    pub fn code(&self) -> (r: u32)
        ensures
            r == self.spec_code(),
    {
        match self {
            MixerError::InvalidInstruction => 0,
            MixerError::UnknownRoot => 1,
            MixerError::NullifierUsed => 2,
            MixerError::VerificationFailed => 3,
            MixerError::Unauthorized => 4,
            MixerError::InvalidArgument => 5,
            MixerError::StorageTooSmall => 6,
        }
    }

    /// True for the errors that are specific to this program; the others have
    /// a standard counterpart on the host.
    pub fn is_custom(&self) -> (r: bool)
        ensures
            r == (self.spec_code() < 4),
    {
        match self {
            MixerError::InvalidInstruction => true,
            MixerError::UnknownRoot => true,
            MixerError::NullifierUsed => true,
            MixerError::VerificationFailed => true,
            _ => false,
        }
    }
}

} // verus!
