//! Why an operation was refused.

use vstd::prelude::*;

verus! {

/// The reason an operation was aborted. An aborted operation leaves no trace.
#[derive(Clone, Copy, Debug, PartialEq, Eq, Structural)]
pub enum Error {
    /// `initialize` was called on an instance that is already configured.
    AlreadyInitialized,
    /// A per-unit price was zero or negative.
    InvalidPrice,
    /// The paying or delivering account does not cover the amount to be moved.
    InsufficientBalance,
    /// The listing exists but is paused.
    NotListed,
    /// No listing is stored under the identifier.
    NotFound,
    /// The instance has not been configured yet.
    NotInitialized,
    /// A quantity was zero or negative.
    InvalidQuantity,
    /// The required identity did not authorize exactly this call. This is raised at the
    /// trust boundary and is not one of the marketplace's own numbered errors.
    Unauthorized,
}

/// The class an [`Error`] belongs to.
#[derive(Clone, Copy, Debug, PartialEq, Eq, Structural)]
pub enum ErrorKind {
    Initialization,
    Validation,
    NotFound,
    State,
    Funds,
    Authorization,
}

impl Error {
    /// The number under which the marketplace reports this error, if it is one of its own.
    pub open spec fn spec_code(self) -> Option<u32> {
        match self {
            Error::AlreadyInitialized => Some(1u32),
            Error::InvalidPrice => Some(2u32),
            Error::InsufficientBalance => Some(3u32),
            Error::NotListed => Some(4u32),
            Error::NotFound => Some(5u32),
            Error::NotInitialized => Some(6u32),
            Error::InvalidQuantity => Some(7u32),
            Error::Unauthorized => None,
        }
    }

    /// The class of this error.
    pub open spec fn spec_kind(self) -> ErrorKind {
        match self {
            Error::AlreadyInitialized | Error::NotInitialized => ErrorKind::Initialization,
            Error::InvalidPrice | Error::InvalidQuantity => ErrorKind::Validation,
            Error::NotFound => ErrorKind::NotFound,
            Error::NotListed => ErrorKind::State,
            Error::InsufficientBalance => ErrorKind::Funds,
            Error::Unauthorized => ErrorKind::Authorization,
        }
    }

    /// The number under which the marketplace reports this error; `None` for a refusal
    /// that comes from the authorization boundary.
    pub fn code(&self) -> (code: Option<u32>)
        ensures
            code == self.spec_code(),
    {
        match self {
            Error::AlreadyInitialized => Some(1),
            Error::InvalidPrice => Some(2),
            Error::InsufficientBalance => Some(3),
            Error::NotListed => Some(4),
            Error::NotFound => Some(5),
            Error::NotInitialized => Some(6),
            Error::InvalidQuantity => Some(7),
            Error::Unauthorized => None,
        }
    }

    /// The class of this error.
    pub fn kind(&self) -> (kind: ErrorKind)
        ensures
            kind == self.spec_kind(),
    {
        match self {
            Error::AlreadyInitialized => ErrorKind::Initialization,
            Error::NotInitialized => ErrorKind::Initialization,
            Error::InvalidPrice => ErrorKind::Validation,
            Error::InvalidQuantity => ErrorKind::Validation,
            Error::NotFound => ErrorKind::NotFound,
            Error::NotListed => ErrorKind::State,
            Error::InsufficientBalance => ErrorKind::Funds,
            Error::Unauthorized => ErrorKind::Authorization,
        }
    }
}

} // verus!
