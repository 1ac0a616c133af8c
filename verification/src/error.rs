use vstd::prelude::*;

verus! {

/// Errors that the contract's entry points return.
///
/// Each variant has a fixed numeric code (see [`Error::code`]) that clients
/// of the deployed contract observe.
#[derive(Clone, Copy, Debug, PartialEq, Eq, Structural)]
pub enum Error {
    AlreadyInitialized,
    GroupNotFound,
    GroupFull,
    AlreadyMember,
    NotMember,
    AlreadyContributed,
    RoundNotReady,
    GroupInactive,
    InvalidParams,
}

/// The numeric code of each error variant.
pub open spec fn error_code(e: Error) -> u32 {
    match e {
        Error::AlreadyInitialized => 1,
        Error::GroupNotFound => 2,
        Error::GroupFull => 3,
        Error::AlreadyMember => 4,
        Error::NotMember => 5,
        Error::AlreadyContributed => 6,
        Error::RoundNotReady => 7,
        Error::GroupInactive => 8,
        Error::InvalidParams => 9,
    }
}

impl Error {
    /// The contract error code of this variant (1 to 9, in declaration order).
    pub fn code(self) -> (r: u32)
        ensures
            r == error_code(self),
    {
        match self {
            Error::AlreadyInitialized => 1,
            Error::GroupNotFound => 2,
            Error::GroupFull => 3,
            Error::AlreadyMember => 4,
            Error::NotMember => 5,
            Error::AlreadyContributed => 6,
            Error::RoundNotReady => 7,
            Error::GroupInactive => 8,
            Error::InvalidParams => 9,
        }
    }
}

} // verus!
