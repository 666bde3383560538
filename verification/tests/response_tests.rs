//! The debug rendering of query responses, and the conversions back to the
//! plain values they carry.

use safe_nd::{Error, Owner, PublicKey, QueryResponse, TryFromError};

#[test]
fn debug_format() {
    let errored_response = QueryResponse::GetSequence(Err(Error::AccessDenied));
    assert_eq!(
        errored_response.debug_string(),
        "QueryResponse::GetSequence(AccessDenied)"
    );
}

#[test]
fn debug_format_success() {
    let owner_response = QueryResponse::GetSequenceRange(Ok(vec![b"value0".to_vec()]));
    assert_eq!(
        owner_response.debug_string(),
        "QueryResponse::GetSequenceRange(Success)"
    );
    let missing = QueryResponse::GetSequenceUserPermissions(Err(Error::NoSuchEntry));
    assert_eq!(
        missing.debug_string(),
        "QueryResponse::GetSequenceUserPermissions(NoSuchEntry)"
    );
    let wrong_shape = QueryResponse::GetSequencePermissions(Err(Error::NoSuchData));
    assert_eq!(
        wrong_shape.debug_string(),
        "QueryResponse::GetSequencePermissions(NoSuchData)"
    );
}

#[test]
fn try_from() {
    let e = Error::AccessDenied;
    let entries = vec![vec![1u8, 3, 1, 4]];
    assert_eq!(
        QueryResponse::GetSequenceRange(Ok(entries.clone())).try_into_entries(),
        Ok(entries)
    );
    assert_eq!(
        QueryResponse::GetSequenceRange(Err(e)).try_into_entries(),
        Err(TryFromError::Response(e))
    );
    assert_eq!(
        QueryResponse::GetSequenceOwner(Err(e)).try_into_entries(),
        Err(TryFromError::WrongType)
    );

    let owner = Owner {
        public_key: PublicKey::new(1, 2, 3, 4),
        expected_data_index: 0,
        expected_permissions_index: 0,
    };
    assert_eq!(
        QueryResponse::GetSequenceOwner(Ok(owner)).try_into_owner(),
        Ok(owner)
    );
    assert_eq!(
        QueryResponse::GetSequence(Err(e)).try_into_owner(),
        Err(TryFromError::WrongType)
    );
}
