//! Query responses for the sequence data type: the values a node hands back
//! to the messaging layer for each read it serves, with the debug rendering
//! that names the variant and the outcome.

use vstd::prelude::*;

use crate::errors::{Error, TryFromError};
use crate::permissions::{SequencePermissions, UserPermissions};
use crate::sequence::Data;
use crate::shared::{Entries, Entry, Owner};

verus! {

/// The response to a query on a sequence object, carrying the result the
/// query produced.
pub enum QueryResponse {
    /// The whole object.
    GetSequence(Result<Data, Error>),
    /// The current ownership snapshot.
    GetSequenceOwner(Result<Owner, Error>),
    /// The entries of a requested range.
    GetSequenceRange(Result<Entries, Error>),
    /// The most recent entry, with its index.
    GetSequenceLastEntry(Result<(u64, Entry), Error>),
    /// The permission snapshot at a requested index.
    GetSequencePermissions(Result<SequencePermissions, Error>),
    /// One user's effective grant set at a snapshot.
    GetSequenceUserPermissions(Result<UserPermissions, Error>),
}

/// Relies on `String::push_str`: appends the slice's characters to the
/// string.
#[verifier::external_body]
fn push_str(s: &mut String, t: &str)
    ensures
        final(s)@ == old(s)@ + t@,
{
    s.push_str(t);
}

/// The characters naming a query's outcome: the error kind's name, or
/// success.
pub open spec fn spec_outcome<T>(r: Result<T, Error>) -> Seq<char> {
    match r {
        Ok(_) => "Success"@,
        Err(e) => e.spec_debug_name(),
    }
}

/// Names a query's outcome.
fn outcome_str<T>(r: &Result<T, Error>) -> (s: &'static str)
    ensures
        s@ == spec_outcome(*r),
{
    match r {
        Ok(_) => "Success",
        Err(e) => e.debug_name(),
    }
}

impl QueryResponse {
    /// The characters of this response's debug rendering: the variant's
    /// name and the outcome it carries.
    pub open spec fn spec_debug_string(self) -> Seq<char> {
        "QueryResponse::"@ + self.spec_variant_name() + "("@ + self.spec_outcome_name() + ")"@
    }

    /// The characters naming this response's variant.
    pub open spec fn spec_variant_name(self) -> Seq<char> {
        match self {
            QueryResponse::GetSequence(_) => "GetSequence"@,
            QueryResponse::GetSequenceOwner(_) => "GetSequenceOwner"@,
            QueryResponse::GetSequenceRange(_) => "GetSequenceRange"@,
            QueryResponse::GetSequenceLastEntry(_) => "GetSequenceLastEntry"@,
            QueryResponse::GetSequencePermissions(_) => "GetSequencePermissions"@,
            QueryResponse::GetSequenceUserPermissions(_) => "GetSequenceUserPermissions"@,
        }
    }

    /// The characters naming this response's outcome.
    pub open spec fn spec_outcome_name(self) -> Seq<char> {
        match self {
            QueryResponse::GetSequence(r) => spec_outcome(r),
            QueryResponse::GetSequenceOwner(r) => spec_outcome(r),
            QueryResponse::GetSequenceRange(r) => spec_outcome(r),
            QueryResponse::GetSequenceLastEntry(r) => spec_outcome(r),
            QueryResponse::GetSequencePermissions(r) => spec_outcome(r),
            QueryResponse::GetSequenceUserPermissions(r) => spec_outcome(r),
        }
    }

    /// Renders the response for debugging: the variant's name, and the
    /// error kind it carries or success.
    pub fn debug_string(&self) -> (s: String)
        ensures
            s@ == self.spec_debug_string(),
    {
        let name: &'static str = match self {
            QueryResponse::GetSequence(_) => "GetSequence",
            QueryResponse::GetSequenceOwner(_) => "GetSequenceOwner",
            QueryResponse::GetSequenceRange(_) => "GetSequenceRange",
            QueryResponse::GetSequenceLastEntry(_) => "GetSequenceLastEntry",
            QueryResponse::GetSequencePermissions(_) => "GetSequencePermissions",
            QueryResponse::GetSequenceUserPermissions(_) => "GetSequenceUserPermissions",
        };
        let outcome: &'static str = match self {
            QueryResponse::GetSequence(r) => outcome_str(r),
            QueryResponse::GetSequenceOwner(r) => outcome_str(r),
            QueryResponse::GetSequenceRange(r) => outcome_str(r),
            QueryResponse::GetSequenceLastEntry(r) => outcome_str(r),
            QueryResponse::GetSequencePermissions(r) => outcome_str(r),
            QueryResponse::GetSequenceUserPermissions(r) => outcome_str(r),
        };
        let mut s = String::new();
        push_str(&mut s, "QueryResponse::");
        push_str(&mut s, name);
        push_str(&mut s, "(");
        push_str(&mut s, outcome);
        push_str(&mut s, ")");
        proof {
            assert(s@ =~= self.spec_debug_string());
        }
        s
    }

    /// The object a `GetSequence` response carries; any other variant is the
    /// wrong type, and a carried error comes back as such.
    pub fn try_into_sequence(self) -> (r: Result<Data, TryFromError>)
        ensures
            match self {
                QueryResponse::GetSequence(res) => match res {
                    Ok(d) => r == Result::<Data, TryFromError>::Ok(d),
                    Err(e) => r == Result::<Data, TryFromError>::Err(TryFromError::Response(e)),
                },
                _ => r == Result::<Data, TryFromError>::Err(TryFromError::WrongType),
            },
    {
        match self {
            QueryResponse::GetSequence(Ok(d)) => Ok(d),
            QueryResponse::GetSequence(Err(e)) => Err(TryFromError::Response(e)),
            _ => Err(TryFromError::WrongType),
        }
    }

    /// The ownership snapshot a `GetSequenceOwner` response carries.
    pub fn try_into_owner(self) -> (r: Result<Owner, TryFromError>)
        ensures
            match self {
                QueryResponse::GetSequenceOwner(res) => match res {
                    Ok(o) => r == Result::<Owner, TryFromError>::Ok(o),
                    Err(e) => r == Result::<Owner, TryFromError>::Err(TryFromError::Response(e)),
                },
                _ => r == Result::<Owner, TryFromError>::Err(TryFromError::WrongType),
            },
    {
        match self {
            QueryResponse::GetSequenceOwner(Ok(o)) => Ok(o),
            QueryResponse::GetSequenceOwner(Err(e)) => Err(TryFromError::Response(e)),
            _ => Err(TryFromError::WrongType),
        }
    }

    /// The entries a `GetSequenceRange` response carries.
    pub fn try_into_entries(self) -> (r: Result<Entries, TryFromError>)
        ensures
            match self {
                QueryResponse::GetSequenceRange(res) => match res {
                    Ok(es) => r == Result::<Entries, TryFromError>::Ok(es),
                    Err(e) => r == Result::<Entries, TryFromError>::Err(TryFromError::Response(e)),
                },
                _ => r == Result::<Entries, TryFromError>::Err(TryFromError::WrongType),
            },
    {
        match self {
            QueryResponse::GetSequenceRange(Ok(es)) => Ok(es),
            QueryResponse::GetSequenceRange(Err(e)) => Err(TryFromError::Response(e)),
            _ => Err(TryFromError::WrongType),
        }
    }

    /// The indexed entry a `GetSequenceLastEntry` response carries.
    pub fn try_into_last_entry(self) -> (r: Result<(u64, Entry), TryFromError>)
        ensures
            match self {
                QueryResponse::GetSequenceLastEntry(res) => match res {
                    Ok(p) => r == Result::<(u64, Entry), TryFromError>::Ok(p),
                    Err(e) => r == Result::<(u64, Entry), TryFromError>::Err(
                        TryFromError::Response(e),
                    ),
                },
                _ => r == Result::<(u64, Entry), TryFromError>::Err(TryFromError::WrongType),
            },
    {
        match self {
            QueryResponse::GetSequenceLastEntry(Ok(p)) => Ok(p),
            QueryResponse::GetSequenceLastEntry(Err(e)) => Err(TryFromError::Response(e)),
            _ => Err(TryFromError::WrongType),
        }
    }

    /// The permission snapshot a `GetSequencePermissions` response carries.
    pub fn try_into_permissions(self) -> (r: Result<SequencePermissions, TryFromError>)
        ensures
            match self {
                QueryResponse::GetSequencePermissions(res) => match res {
                    Ok(p) => r == Result::<SequencePermissions, TryFromError>::Ok(p),
                    Err(e) => r == Result::<SequencePermissions, TryFromError>::Err(
                        TryFromError::Response(e),
                    ),
                },
                _ => r == Result::<SequencePermissions, TryFromError>::Err(
                    TryFromError::WrongType,
                ),
            },
    {
        match self {
            QueryResponse::GetSequencePermissions(Ok(p)) => Ok(p),
            QueryResponse::GetSequencePermissions(Err(e)) => Err(TryFromError::Response(e)),
            _ => Err(TryFromError::WrongType),
        }
    }

    /// The grant set a `GetSequenceUserPermissions` response carries.
    pub fn try_into_user_permissions(self) -> (r: Result<UserPermissions, TryFromError>)
        ensures
            match self {
                QueryResponse::GetSequenceUserPermissions(res) => match res {
                    Ok(p) => r == Result::<UserPermissions, TryFromError>::Ok(p),
                    Err(e) => r == Result::<UserPermissions, TryFromError>::Err(
                        TryFromError::Response(e),
                    ),
                },
                _ => r == Result::<UserPermissions, TryFromError>::Err(TryFromError::WrongType),
            },
    {
        match self {
            QueryResponse::GetSequenceUserPermissions(Ok(p)) => Ok(p),
            QueryResponse::GetSequenceUserPermissions(Err(e)) => Err(TryFromError::Response(e)),
            _ => Err(TryFromError::WrongType),
        }
    }
}

} // verus!
