//! Scenario tests for the replication and authorization rules: convergence
//! under reordered delivery, idempotent merges, the concurrency guard, the
//! owner bypass, the wildcard fallback, and each error kind.

use safe_nd::{
    CmdType, Data, Error, Index, Owner, PrivatePermissionSet, PrivatePermissions, PrivateUserMap,
    PublicKey, PublicPermissionSet, PublicPermissions, PublicUserMap, QueryType, Request,
    RequestMap, SequenceCmd, SequenceQuery, User, XorName,
};

fn key_from_bytes(b: &[u8]) -> PublicKey {
    let mut w = [0u64; 4];
    for (i, slot) in w.iter_mut().enumerate() {
        for j in 0..8 {
            *slot = (*slot << 8) | b[i * 8 + j] as u64;
        }
    }
    PublicKey::new(w[0], w[1], w[2], w[3])
}

fn gen_public_key() -> PublicKey {
    let pk = threshold_crypto::SecretKey::random().public_key();
    key_from_bytes(&pk.to_bytes())
}

fn append_cmd() -> Request {
    Request::Cmd(CmdType::Sequence(SequenceCmd::Append))
}

fn read_query() -> Request {
    Request::Query(QueryType::Sequence(SequenceQuery::ReadData))
}

/// Two replicas each append locally and then exchange their operations in
/// opposite orders; both end with the same entries in the same places.
#[test]
fn convergence_across_actors() {
    let actor1 = PublicKey::new(1, 0, 0, 0);
    let actor2 = PublicKey::new(2, 0, 0, 0);
    let name = XorName([7; 32]);
    let mut replica1 = Data::new_pub(actor1, name, 9);
    let mut replica2 = Data::new_pub(actor2, name, 9);

    let op_a = replica1.append(b"a".to_vec());
    let op_b = replica1.append(b"b".to_vec());
    let op_c = replica2.append(b"c".to_vec());

    // Cross-deliver in different orders.
    replica1.apply_crdt_op(op_c.crdt_op.clone());
    replica2.apply_crdt_op(op_b.crdt_op.clone());
    replica2.apply_crdt_op(op_a.crdt_op.clone());

    assert_eq!(replica1.entries_index(), 3);
    assert_eq!(replica2.entries_index(), 3);
    for i in 0..3 {
        assert_eq!(
            replica1.get(Index::FromStart(i)),
            replica2.get(Index::FromStart(i))
        );
    }
    // Concurrent appends at one position are ordered by actor identity.
    assert_eq!(replica1.get(Index::FromStart(0)), Some(&b"a".to_vec()));
    assert_eq!(replica1.get(Index::FromStart(1)), Some(&b"c".to_vec()));
    assert_eq!(replica1.get(Index::FromStart(2)), Some(&b"b".to_vec()));
}

/// Re-delivering an operation changes nothing.
#[test]
fn merge_is_idempotent() {
    let actor = gen_public_key();
    let name = XorName([3; 32]);
    let mut replica1 = Data::new_pub(actor, name, 1);
    let mut replica2 = Data::new_pub(actor, name, 1);

    let op = replica1.append(b"value0".to_vec());
    replica2.apply_crdt_op(op.crdt_op.clone());
    replica2.apply_crdt_op(op.crdt_op.clone());
    replica2.apply_crdt_op(op.crdt_op);

    assert_eq!(replica2.entries_index(), 1);
    assert_eq!(replica2.get(Index::FromStart(0)), Some(&b"value0".to_vec()));
}

/// The concurrency guard on a private object: owner appends with matching
/// expectations pass, a permission append against a stale owner version is
/// rejected and leaves every history untouched.
#[test]
fn stale_permission_append_is_rejected() {
    let mut data = Data::new_private(gen_public_key(), XorName([9; 32]), 5);
    let owner1 = gen_public_key();
    let owner2 = gen_public_key();

    data.append_owner(
        Owner {
            public_key: owner1,
            expected_data_index: 0,
            expected_permissions_index: 0,
        },
        0,
    )
    .unwrap();
    assert_eq!(data.owners_index(), 1);

    data.append_owner(
        Owner {
            public_key: owner2,
            expected_data_index: 0,
            expected_permissions_index: 1,
        },
        1,
    )
    .unwrap();
    assert_eq!(data.owners_index(), 2);

    // Authored against one owner snapshot, but two exist by now: stale.
    let res = data.append_private_permissions(
        PrivatePermissions {
            permissions: PrivateUserMap::new(),
            expected_data_index: 0,
            expected_owners_index: 1,
        },
        0,
    );
    assert_eq!(res.err(), Some(Error::InvalidExpectedIndex));
    assert_eq!(data.permissions_index(), 0);
    assert_eq!(data.owners_index(), 2);
    assert_eq!(data.entries_index(), 0);
}

/// The current owner is permitted even when the latest permission snapshot
/// denies it explicitly.
#[test]
fn owner_bypasses_denial() {
    let owner = gen_public_key();
    let mut data = Data::new_private(gen_public_key(), XorName([4; 32]), 2);
    data.append_owner(
        Owner {
            public_key: owner,
            expected_data_index: 0,
            expected_permissions_index: 0,
        },
        0,
    )
    .unwrap();

    let mut set = RequestMap::new();
    let _ = set.insert(append_cmd(), false);
    let _ = set.insert(read_query(), false);
    let mut users = PrivateUserMap::new();
    let _ = users.insert(owner, PrivatePermissionSet::new(set));
    data.append_private_permissions(
        PrivatePermissions {
            permissions: users,
            expected_data_index: 0,
            expected_owners_index: 1,
        },
        0,
    )
    .unwrap();

    assert!(data.is_permitted(append_cmd(), owner));
    assert!(data.is_permitted(read_query(), owner));
    assert!(data.check_permission(append_cmd(), owner).is_ok());
}

/// On a public object a concrete identity's explicit denial overrides the
/// wildcard's allowance; an identity with no entry of its own falls back to
/// it.
#[test]
fn concrete_entry_overrides_wildcard() {
    let denied = gen_public_key();
    let stranger = gen_public_key();
    let mut data = Data::new_pub(gen_public_key(), XorName([5; 32]), 2);

    let mut anyone = RequestMap::new();
    let _ = anyone.insert(append_cmd(), true);
    let mut denial = RequestMap::new();
    let _ = denial.insert(append_cmd(), false);

    let mut users = PublicUserMap::new();
    let _ = users.insert(User::Anyone, PublicPermissionSet::new(anyone.clone()));
    let _ = users.insert(User::Specific(denied), PublicPermissionSet::new(denial));
    data.append_pub_permissions(
        PublicPermissions {
            permissions: users,
            expected_data_index: 0,
            expected_owners_index: 0,
        },
        0,
    )
    .unwrap();

    assert!(!data.is_permitted(append_cmd(), denied));
    assert!(data.is_permitted(append_cmd(), stranger));

    // Without the concrete entry the same identity falls back to `Anyone`.
    let mut users = PublicUserMap::new();
    let _ = users.insert(User::Anyone, PublicPermissionSet::new(anyone));
    data.append_pub_permissions(
        PublicPermissions {
            permissions: users,
            expected_data_index: 0,
            expected_owners_index: 0,
        },
        1,
    )
    .unwrap();
    assert!(data.is_permitted(append_cmd(), denied));
}

/// Each error kind arises exactly where the rules say.
#[test]
fn error_kinds() {
    let requester = gen_public_key();
    let mut private = Data::new_private(gen_public_key(), XorName([6; 32]), 3);

    // Empty owner history.
    assert_eq!(
        private.check_is_last_owner(requester),
        Err(Error::InvalidOwners)
    );
    // Denied: private object without snapshots.
    assert_eq!(
        private.check_permission(read_query(), requester),
        Err(Error::AccessDenied)
    );
    // Structural mismatches.
    assert_eq!(
        private.set_pub_permissions(PublicUserMap::new()).err(),
        Some(Error::InvalidOperation)
    );
    let mut public = Data::new_pub(gen_public_key(), XorName([6; 32]), 3);
    let op = private
        .set_private_permissions(PrivateUserMap::new())
        .unwrap();
    assert_eq!(
        public.apply_crdt_private_perms_op(op.crdt_op),
        Err(Error::InvalidOperation)
    );
    // Out of range.
    assert_eq!(
        public.pub_permissions(Index::FromStart(0)),
        Err(Error::NoSuchEntry)
    );
    assert_eq!(public.shell(Index::FromStart(1)).err(), Some(Error::NoSuchEntry));
}

/// A shell keeps the address, the owners and the permission prefix, and
/// clears the entries.
#[test]
fn shell_truncates_permissions() {
    let mut data = Data::new_pub(gen_public_key(), XorName([8; 32]), 11);
    let owner = gen_public_key();
    data.append_owner(
        Owner {
            public_key: owner,
            expected_data_index: 0,
            expected_permissions_index: 0,
        },
        0,
    )
    .unwrap();
    data.append(b"entry".to_vec());
    let first = PublicPermissions {
        permissions: PublicUserMap::new(),
        expected_data_index: 1,
        expected_owners_index: 1,
    };
    data.append_pub_permissions(first.clone(), 0).unwrap();
    let mut users = PublicUserMap::new();
    let _ = users.insert(User::Anyone, PublicPermissionSet::new(RequestMap::new()));
    data.append_pub_permissions(
        PublicPermissions {
            permissions: users,
            expected_data_index: 1,
            expected_owners_index: 1,
        },
        1,
    )
    .unwrap();

    let shell = data.shell(Index::FromStart(1)).unwrap();
    assert_eq!(shell.entries_index(), 0);
    assert_eq!(shell.owners_index(), 1);
    assert_eq!(shell.permissions_index(), 1);
    assert_eq!(shell.address(), data.address());
    assert_eq!(
        shell.pub_permissions(Index::FromStart(0)),
        Ok(&first)
    );

    // The full shell keeps both snapshots.
    let full = data.shell(Index::FromEnd(0)).unwrap();
    assert_eq!(full.permissions_index(), 2);
}

/// Binding a key again replaces its answer and returns the old one; other
/// keys keep theirs.
#[test]
fn rebinding_a_request_replaces_its_answer() {
    let mut set = RequestMap::new();
    assert!(set.is_empty());
    assert_eq!(set.insert(append_cmd(), true), None);
    assert_eq!(set.insert(read_query(), false), None);
    assert_eq!(set.insert(append_cmd(), false), Some(true));
    assert_eq!(set.get(&append_cmd()), Some(false));
    assert_eq!(set.get(&read_query()), Some(false));
    assert_eq!(set.len(), 2);
    assert_eq!(*set.entry_at(0), (append_cmd(), false));
    assert_eq!(*set.entry_at(1), (read_query(), false));

    let grants = PrivatePermissionSet::new(set);
    assert!(!grants.clone().is_permitted(&append_cmd()));

    let mut users = PrivateUserMap::new();
    let key = gen_public_key();
    let empty_grants = PrivatePermissionSet::new(RequestMap::new());
    assert!(users.insert(key, empty_grants.clone()).is_none());
    assert_eq!(users.insert(key, grants), Some(empty_grants));
}

/// End-relative indices: as a position, `FromEnd(0)` is the most recent
/// element; as a range bound it reaches through the end.
#[test]
fn end_relative_indices() {
    let mut data = Data::new_pub(gen_public_key(), XorName([2; 32]), 1);
    data.append(b"first".to_vec());
    data.append(b"second".to_vec());
    data.append(b"third".to_vec());

    assert_eq!(data.get(Index::FromEnd(0)), Some(&b"third".to_vec()));
    assert_eq!(data.get(Index::FromEnd(1)), Some(&b"second".to_vec()));
    assert_eq!(data.get(Index::FromEnd(2)), Some(&b"first".to_vec()));
    assert_eq!(data.get(Index::FromStart(3)), None);
    assert_eq!(data.get(Index::FromEnd(3)), None);

    let all = data.in_range(Index::FromStart(0), Index::FromEnd(0)).unwrap();
    assert_eq!(all.len(), 3);
    assert_eq!(all[0], b"first".to_vec());
    assert_eq!(all[2], b"third".to_vec());

    let middle = data
        .in_range(Index::FromStart(1), Index::FromEnd(1))
        .unwrap();
    assert_eq!(middle, vec![b"second".to_vec()]);

    assert!(data.in_range(Index::FromStart(0), Index::FromEnd(4)).is_none());
}
