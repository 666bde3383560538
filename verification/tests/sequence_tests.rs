//! The replicated sequence object: creation, appends, permission and owner
//! history merges across replicas.

use safe_nd::{
    CmdType, HardErasureCmd, ModifyableSequencePermissions, PrivatePermissionSet,
    PrivateUserMap, PublicKey, PublicPermissionSet, PublicUserMap, QueryType, Request, RequestMap,
    Sequence, SequenceAddress, SequenceCmd, SequenceIndex, SequenceKind, SequenceQuery,
    SequenceUser, SequenceUserPermissions, SequenceWrite, XorName,
};

fn key_from_bytes(b: &[u8]) -> PublicKey {
    let mut w = [0u64; 4];
    for (i, slot) in w.iter_mut().enumerate() {
        for j in 0..8 {
            *slot = (*slot << 8) | b[i * 8 + j] as u64;
        }
    }
    PublicKey::new(w[0], w[1], w[2], w[3])
}

fn gen_public_key() -> PublicKey {
    let pk = threshold_crypto::SecretKey::random().public_key();
    key_from_bytes(&pk.to_bytes())
}

fn random_name() -> XorName {
    XorName(rand::random())
}

/// The per-request grants a public sequence user holds, from the append and
/// manage-permissions answers.
fn pub_user_perms(append: bool, manage_permissions: bool) -> PublicPermissionSet {
    let mut set = RequestMap::new();
    let _ = set.insert(Request::Cmd(CmdType::Sequence(SequenceCmd::Append)), append);
    for cmd in modify_sequence_permission_requests() {
        let _ = set.insert(cmd, manage_permissions);
    }
    PublicPermissionSet::new(set)
}

/// The per-request grants a private sequence user holds, from the read,
/// append and manage-permissions answers.
fn priv_user_perms(read: bool, append: bool, manage_permissions: bool) -> PrivatePermissionSet {
    let mut set = RequestMap::new();
    for query in read_sequence_requests() {
        let _ = set.insert(query, read);
    }
    let _ = set.insert(Request::Cmd(CmdType::Sequence(SequenceCmd::Append)), append);
    for cmd in modify_sequence_permission_requests() {
        let _ = set.insert(cmd, manage_permissions);
    }
    PrivatePermissionSet::new(set)
}

fn read_sequence_requests() -> Vec<Request> {
    vec![
        Request::Query(QueryType::Sequence(SequenceQuery::ReadData)),
        Request::Query(QueryType::Sequence(SequenceQuery::ReadOwners)),
        Request::Query(QueryType::Sequence(SequenceQuery::ReadPermissions)),
    ]
}

fn modify_sequence_permission_requests() -> Vec<Request> {
    vec![
        Request::Cmd(CmdType::Sequence(SequenceCmd::ModifyPermissions(
            ModifyableSequencePermissions::ReadData,
        ))),
        Request::Cmd(CmdType::Sequence(SequenceCmd::ModifyPermissions(
            ModifyableSequencePermissions::ReadOwners,
        ))),
        Request::Cmd(CmdType::Sequence(SequenceCmd::ModifyPermissions(
            ModifyableSequencePermissions::ReadPermissions,
        ))),
        Request::Cmd(CmdType::Sequence(SequenceCmd::ModifyPermissions(
            ModifyableSequencePermissions::Write(SequenceWrite::Append),
        ))),
        Request::Cmd(CmdType::Sequence(SequenceCmd::ModifyPermissions(
            ModifyableSequencePermissions::Write(SequenceWrite::ModifyPermissions),
        ))),
        Request::Cmd(CmdType::Sequence(SequenceCmd::ModifyPermissions(
            ModifyableSequencePermissions::Write(SequenceWrite::HardErasure(
                HardErasureCmd::HardDelete,
            )),
        ))),
        Request::Cmd(CmdType::Sequence(SequenceCmd::ModifyPermissions(
            ModifyableSequencePermissions::Write(SequenceWrite::HardErasure(
                HardErasureCmd::HardUpdate,
            )),
        ))),
    ]
}

#[test]
fn sequence_create_public() {
    let actor = gen_public_key();
    let sequence_name = random_name();
    let sequence_tag = 43_000;
    let sequence = Sequence::new_pub(actor, sequence_name, sequence_tag);
    assert_eq!(sequence.kind(), SequenceKind::Public);
    assert_eq!(*sequence.name(), sequence_name);
    assert_eq!(sequence.tag(), sequence_tag);
    assert!(sequence.is_pub());
    assert!(!sequence.is_private());

    let sequence_address =
        SequenceAddress::from_kind(SequenceKind::Public, sequence_name, sequence_tag);
    assert_eq!(*sequence.address(), sequence_address);
}

#[test]
fn sequence_create_private() {
    let actor = gen_public_key();
    let sequence_name = random_name();
    let sequence_tag = 43_000;
    let sequence = Sequence::new_private(actor, sequence_name, sequence_tag);
    assert_eq!(sequence.kind(), SequenceKind::Private);
    assert_eq!(*sequence.name(), sequence_name);
    assert_eq!(sequence.tag(), sequence_tag);
    assert!(!sequence.is_pub());
    assert!(sequence.is_private());

    let sequence_address =
        SequenceAddress::from_kind(SequenceKind::Private, sequence_name, sequence_tag);
    assert_eq!(*sequence.address(), sequence_address);
}

#[test]
fn sequence_append_entry_and_apply() {
    let actor = gen_public_key();
    let sequence_name = random_name();
    let sequence_tag = 43_000;
    let mut replica1 = Sequence::new_pub(actor, sequence_name, sequence_tag);
    let mut replica2 = Sequence::new_pub(actor, sequence_name, sequence_tag);

    let entry1 = b"value0".to_vec();
    let entry2 = b"value1".to_vec();

    let op1 = replica1.append(entry1.clone());
    let op2 = replica1.append(entry2.clone());

    // we apply the operations in different order, to verify that doesn't affect the result
    replica2.apply_crdt_op(op2.crdt_op);
    replica2.apply_crdt_op(op1.crdt_op);

    assert_eq!(replica1.entries_index(), 2);
    assert_eq!(replica2.entries_index(), 2);

    let index_0 = SequenceIndex::FromStart(0);
    let first_entry = replica1.get(index_0);
    assert_eq!(first_entry, Some(&entry1));
    assert_eq!(first_entry, replica2.get(index_0));

    let index_1 = SequenceIndex::FromStart(1);
    let second_entry = replica1.get(index_1);
    assert_eq!(second_entry, Some(&entry2));
    assert_eq!(second_entry, replica2.get(index_1));

    let last_entry = replica1.last_entry();
    assert_eq!(last_entry, Some(&entry2));
    assert_eq!(last_entry, replica2.last_entry());
}

#[test]
fn sequence_public_append_perms_and_apply() {
    let actor = gen_public_key();
    let sequence_name = random_name();
    let sequence_tag = 43_000;
    let mut replica1 = Sequence::new_pub(actor, sequence_name, sequence_tag);
    let mut replica2 = Sequence::new_pub(actor, sequence_name, sequence_tag);

    let mut perms1 = PublicUserMap::new();
    let user_perms1 = pub_user_perms(true, false);
    let _ = perms1.insert(SequenceUser::Anyone, user_perms1.clone());

    let mut perms2 = PublicUserMap::new();
    let user_perms2 = pub_user_perms(false, true);
    let _ = perms2.insert(SequenceUser::Specific(actor), user_perms2.clone());

    let op1 = replica1.set_pub_permissions(perms1.clone()).unwrap();
    let op2 = replica1.set_pub_permissions(perms2.clone()).unwrap();

    // we apply the operations in different order, to verify that doesn't affect the result
    replica2.apply_crdt_pub_perms_op(op2.crdt_op).unwrap();
    replica2.apply_crdt_pub_perms_op(op1.crdt_op).unwrap();

    assert_eq!(replica1.permissions_index(), 2);
    assert_eq!(replica2.permissions_index(), 2);

    let index_0 = SequenceIndex::FromStart(0);
    let first_entry = replica1.pub_permissions(index_0).unwrap();
    assert_eq!(first_entry.permissions, perms1);
    assert_eq!(first_entry.expected_data_index, 0);
    assert_eq!(first_entry.expected_owners_index, 0);
    assert_eq!(first_entry, replica2.pub_permissions(index_0).unwrap());
    assert_eq!(
        SequenceUserPermissions::Public(user_perms1),
        replica1
            .user_permissions(SequenceUser::Anyone, index_0)
            .unwrap()
    );

    let index_1 = SequenceIndex::FromStart(1);
    let second_entry = replica1.pub_permissions(index_1).unwrap();
    assert_eq!(second_entry.permissions, perms2);
    assert_eq!(second_entry.expected_data_index, 0);
    assert_eq!(second_entry.expected_owners_index, 0);
    assert_eq!(second_entry, replica2.pub_permissions(index_1).unwrap());
    assert_eq!(
        SequenceUserPermissions::Public(user_perms2),
        replica1
            .user_permissions(SequenceUser::Specific(actor), index_1)
            .unwrap()
    );
}

#[test]
fn sequence_private_append_perms_and_apply() {
    let actor1 = gen_public_key();
    let actor2 = gen_public_key();
    let sequence_name = random_name();
    let sequence_tag = 43_000;
    let mut replica1 = Sequence::new_private(actor1, sequence_name, sequence_tag);
    let mut replica2 = Sequence::new_private(actor2, sequence_name, sequence_tag);

    let mut perms1 = PrivateUserMap::new();
    let user_perms1 = priv_user_perms(true, false, true);
    let _ = perms1.insert(actor1, user_perms1.clone());

    let mut perms2 = PrivateUserMap::new();
    let user_perms2 = priv_user_perms(false, true, false);
    let _ = perms2.insert(actor2, user_perms2.clone());

    let op1 = replica1.set_private_permissions(perms1.clone()).unwrap();
    let op2 = replica1.set_private_permissions(perms2.clone()).unwrap();

    // we apply the operations in different order, to verify that doesn't affect the result
    replica2.apply_crdt_private_perms_op(op2.crdt_op).unwrap();
    replica2.apply_crdt_private_perms_op(op1.crdt_op).unwrap();

    assert_eq!(replica1.permissions_index(), 2);
    assert_eq!(replica2.permissions_index(), 2);

    let index_0 = SequenceIndex::FromStart(0);
    let first_entry = replica1.private_permissions(index_0).unwrap();
    assert_eq!(first_entry.permissions, perms1);
    assert_eq!(first_entry.expected_data_index, 0);
    assert_eq!(first_entry.expected_owners_index, 0);
    assert_eq!(first_entry, replica2.private_permissions(index_0).unwrap());
    assert_eq!(
        SequenceUserPermissions::Priv(user_perms1),
        replica1
            .user_permissions(SequenceUser::Specific(actor1), index_0)
            .unwrap()
    );

    let index_1 = SequenceIndex::FromStart(1);
    let second_entry = replica1.private_permissions(index_1).unwrap();
    assert_eq!(second_entry.permissions, perms2);
    assert_eq!(second_entry.expected_data_index, 0);
    assert_eq!(second_entry.expected_owners_index, 0);
    assert_eq!(second_entry, replica2.private_permissions(index_1).unwrap());
    assert_eq!(
        SequenceUserPermissions::Priv(user_perms2),
        replica1
            .user_permissions(SequenceUser::Specific(actor2), index_1)
            .unwrap()
    );
}

#[test]
fn sequence_append_owner_and_apply() {
    let actor = gen_public_key();
    let sequence_name = random_name();
    let sequence_tag = 43_000;
    let mut replica1 = Sequence::new_pub(actor, sequence_name, sequence_tag);
    let mut replica2 = Sequence::new_pub(actor, sequence_name, sequence_tag);

    let owner1 = gen_public_key();
    let owner2 = gen_public_key();
    let op1 = replica1.set_owner(owner1);
    let op2 = replica1.set_owner(owner2);

    // we apply the operations in different order, to verify that doesn't affect the result
    replica2.apply_crdt_owner_op(op2.crdt_op);
    replica2.apply_crdt_owner_op(op1.crdt_op);

    assert_eq!(replica1.owners_index(), 2);
    assert_eq!(replica2.owners_index(), 2);

    let index_0 = SequenceIndex::FromStart(0);
    let first_entry = *replica1.owner(index_0).unwrap();
    assert_eq!(first_entry.public_key, owner1);
    assert_eq!(first_entry.expected_data_index, 0);
    assert_eq!(first_entry.expected_permissions_index, 0);
    assert_eq!(first_entry, *replica2.owner(index_0).unwrap());

    let index_1 = SequenceIndex::FromStart(1);
    let second_entry = *replica1.owner(index_1).unwrap();
    assert_eq!(second_entry.public_key, owner2);
    assert_eq!(second_entry.expected_data_index, 0);
    assert_eq!(second_entry.expected_permissions_index, 0);
    assert_eq!(second_entry, *replica2.owner(index_1).unwrap());

    replica1.check_is_last_owner(owner2).unwrap();
    replica2.check_is_last_owner(owner2).unwrap();
}
