//! Error kinds returned by the data objects and the permission evaluator.

use vstd::prelude::*;

verus! {

/// An error returned to the immediate caller of a data-object operation.
///
/// Rejected mutations leave the object unchanged; merging remote operations
/// never reports an error.
#[derive(Clone, Copy, PartialEq, Eq, Structural, Debug, Hash)]
pub enum Error {
    /// The requester is not allowed to perform the requested operation.
    AccessDenied,
    /// A lookup into a valid history or snapshot found nothing at the
    /// requested index or for the requested identity.
    NoSuchEntry,
    /// The requested permission-set variant does not apply to this object's
    /// visibility kind.
    NoSuchData,
    /// An ownership lookup was required but the owner history is empty.
    InvalidOwners,
    /// A structural mismatch, such as applying a public-permissions operation
    /// to a private object.
    InvalidOperation,
    /// The concurrency guard found a declared expected index that does not
    /// match the current length of the referenced history.
    InvalidExpectedIndex,
}

impl Error {
    /// The name of this error kind, as its debug rendering prints it.
    pub fn debug_name(&self) -> (r: &'static str)
        ensures
            r@ == self.spec_debug_name(),
    {
        match self {
            Error::AccessDenied => "AccessDenied",
            Error::NoSuchEntry => "NoSuchEntry",
            Error::NoSuchData => "NoSuchData",
            Error::InvalidOwners => "InvalidOwners",
            Error::InvalidOperation => "InvalidOperation",
            Error::InvalidExpectedIndex => "InvalidExpectedIndex",
        }
    }

    /// The characters of this error kind's name.
    pub open spec fn spec_debug_name(self) -> Seq<char> {
        match self {
            Error::AccessDenied => "AccessDenied"@,
            Error::NoSuchEntry => "NoSuchEntry"@,
            Error::NoSuchData => "NoSuchData"@,
            Error::InvalidOwners => "InvalidOwners"@,
            Error::InvalidOperation => "InvalidOperation"@,
            Error::InvalidExpectedIndex => "InvalidExpectedIndex"@,
        }
    }
}

/// An error reported for a failed command, labelled by the concern it arose
/// in.
#[derive(Clone, Copy, PartialEq, Eq, Structural, Debug, Hash)]
pub enum CmdError {
    /// An authorisation command failed.
    Auth(Error),
    /// A data command failed.
    Data(Error),
    /// A transfer command failed.
    Transfer(TransferError),
}

/// An error reported for a failed transfer command.
#[derive(Clone, Copy, PartialEq, Eq, Structural, Debug, Hash)]
pub enum TransferError {
    /// The error of a transfer-validation command.
    TransferValidation(Error),
    /// The error of a transfer-registration command.
    TransferRegistration(Error),
}

/// The reason a query response could not be converted into the plain value it
/// was expected to carry.
#[derive(Clone, Copy, PartialEq, Eq, Structural, Debug)]
pub enum TryFromError {
    /// The response was of a different variant than expected.
    WrongType,
    /// The response carried an error instead of a value.
    Response(Error),
}

} // verus!
