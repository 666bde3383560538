//! Concurrency-guarded snapshot appends, shells, permission retrieval and
//! the permission evaluator, for sequence- and map-kind requests.

use safe_nd::{
    CmdType, Data, Error, HardErasureCmd, Index, MapCmd, MapQuery, MapWrite,
    ModifyableMapPermissions, ModifyableSequencePermissions, Owner, PrivatePermissionSet,
    PrivatePermissions, PrivateUserMap, PublicKey, PublicPermissionSet, PublicPermissions,
    PublicUserMap, QueryType, Request, RequestMap, SequenceCmd, SequenceQuery, SequenceWrite,
    User, XorName,
};

fn key_from_bytes(b: &[u8]) -> PublicKey {
    let mut w = [0u64; 4];
    for (i, slot) in w.iter_mut().enumerate() {
        for j in 0..8 {
            *slot = (*slot << 8) | b[i * 8 + j] as u64;
        }
    }
    PublicKey::new(w[0], w[1], w[2], w[3])
}

fn gen_public_key() -> PublicKey {
    let pk = threshold_crypto::SecretKey::random().public_key();
    key_from_bytes(&pk.to_bytes())
}

// ------------------------------------------------------------------------
// -----------------------------------  Sequence  --------------------------
// ------------------------------------------------------------------------

#[test]
fn set_sequence_permissions() {
    let mut data = Data::new_private(gen_public_key(), XorName([1; 32]), 10000);

    // Set the first permissions with correct expected indices - should pass.
    let res = data.append_private_permissions(
        PrivatePermissions {
            permissions: PrivateUserMap::new(),
            expected_data_index: 0,
            expected_owners_index: 0,
        },
        0,
    );

    match res {
        Ok(_) => (),
        Err(x) => panic!("Unexpected error: {:?}", x),
    }

    // Verify that the permissions are part of the history.
    assert_eq!(
        data.private_permission_history_range(Index::FromStart(0), Index::FromEnd(0))
            .unwrap()
            .len(),
        1
    );

    // Set permissions with incorrect expected indices - should fail.
    let res = data.append_private_permissions(
        PrivatePermissions {
            permissions: PrivateUserMap::new(),
            expected_data_index: 64,
            expected_owners_index: 0,
        },
        1,
    );

    match res {
        Err(_) => (),
        Ok(_) => panic!("Unexpected Ok result"),
    }

    // Verify that the history of permissions remains unchanged.
    assert_eq!(
        data.private_permission_history_range(Index::FromStart(0), Index::FromEnd(0))
            .unwrap()
            .len(),
        1
    );
}

#[test]
fn set_sequence_owners() {
    let owner_pk = gen_public_key();

    let mut data = Data::new_private(gen_public_key(), XorName([1; 32]), 10000);

    // Set the first owner with correct expected indices - should pass.
    let res = data.append_owner(
        Owner {
            public_key: owner_pk,
            expected_data_index: 0,
            expected_permissions_index: 0,
        },
        0,
    );

    match res {
        Ok(_) => (),
        Err(x) => panic!("Unexpected error: {:?}", x),
    }

    // Verify that the owner is part of the history.
    assert_eq!(
        data.owner_history_range(Index::FromStart(0), Index::FromEnd(0))
            .unwrap()
            .len(),
        1
    );

    // Set owner with incorrect expected indices - should fail.
    let res = data.append_owner(
        Owner {
            public_key: owner_pk,
            expected_data_index: 64,
            expected_permissions_index: 0,
        },
        1,
    );

    match res {
        Err(_) => (),
        Ok(_) => panic!("Unexpected Ok result"),
    }

    // Verify that the history of owners remains unchanged.
    assert_eq!(
        data.owner_history_range(Index::FromStart(0), Index::FromEnd(0))
            .unwrap()
            .len(),
        1
    );
}

#[test]
fn gets_sequence_shell() {
    let owner_pk = gen_public_key();
    let owner_pk1 = gen_public_key();

    let mut data = Data::new_private(gen_public_key(), XorName([1; 32]), 10000);

    let _ = data.append_owner(
        Owner {
            public_key: owner_pk,
            expected_data_index: 0,
            expected_permissions_index: 0,
        },
        0,
    );

    let _ = data.append_owner(
        Owner {
            public_key: owner_pk1,
            expected_data_index: 0,
            expected_permissions_index: 0,
        },
        1,
    );

    assert_eq!(
        data.owners_index(),
        data.shell(Index::FromStart(0)).unwrap().owners_index()
    );
}

#[test]
fn can_retrieve_sequence_permissions() {
    let public_key = gen_public_key();
    let invalid_public_key = gen_public_key();

    let mut pub_permissions = PublicPermissions {
        permissions: PublicUserMap::new(),
        expected_data_index: 0,
        expected_owners_index: 0,
    };
    let _ = pub_permissions.permissions.insert(
        User::Specific(public_key),
        PublicPermissionSet::new(RequestMap::new()),
    );

    let mut private_permissions = PrivatePermissions {
        permissions: PrivateUserMap::new(),
        expected_data_index: 0,
        expected_owners_index: 0,
    };
    let _ = private_permissions
        .permissions
        .insert(public_key, PrivatePermissionSet::new(RequestMap::new()));

    // public
    let mut data = Data::new_pub(gen_public_key(), XorName(rand::random()), 20);
    data.append_pub_permissions(pub_permissions.clone(), 0).unwrap();

    let index_0 = Index::FromStart(0);
    assert_eq!(data.pub_permissions(index_0), Ok(&pub_permissions));
    assert_eq!(data.private_permissions(index_0), Err(Error::NoSuchData));

    assert_eq!(
        data.pub_user_permissions(User::Specific(public_key), index_0),
        Ok(PublicPermissionSet::new(RequestMap::new()))
    );
    assert_eq!(
        data.private_user_permissions(public_key, index_0),
        Err(Error::NoSuchData)
    );
    assert_eq!(
        data.pub_user_permissions(User::Specific(invalid_public_key), index_0),
        Err(Error::NoSuchEntry)
    );

    // private
    let mut data = Data::new_private(gen_public_key(), XorName(rand::random()), 20);
    data.append_private_permissions(private_permissions.clone(), 0)
        .unwrap();

    assert_eq!(
        data.private_permissions(index_0),
        Ok(&private_permissions)
    );
    assert_eq!(data.pub_permissions(index_0), Err(Error::NoSuchData));

    assert_eq!(
        data.private_user_permissions(public_key, index_0),
        Ok(PrivatePermissionSet::new(RequestMap::new()))
    );
    assert_eq!(
        data.pub_user_permissions(User::Specific(public_key), index_0),
        Err(Error::NoSuchData)
    );
    assert_eq!(
        data.private_user_permissions(invalid_public_key, index_0),
        Err(Error::NoSuchEntry)
    );
}

#[test]
fn validates_public_sequence_permissions() {
    let public_key_0 = gen_public_key();
    let public_key_1 = gen_public_key();
    let public_key_2 = gen_public_key();
    let mut sequence = Data::new_pub(gen_public_key(), XorName([1; 32]), 100);

    // no owner
    assert_eq!(sequence.is_permitted(get_append_cmd(), public_key_0), false);
    // data is public - read always allowed
    assert_sequence_read_permitted(&sequence, public_key_0, true);

    // no permissions
    sequence
        .append_owner(
            Owner {
                public_key: public_key_0,
                expected_data_index: 0,
                expected_permissions_index: 0,
            },
            0,
        )
        .unwrap();

    assert_eq!(sequence.is_permitted(get_append_cmd(), public_key_0), true);
    assert_eq!(sequence.is_permitted(get_append_cmd(), public_key_1), false);
    // data is public - read always allowed
    assert_sequence_read_permitted(&sequence, public_key_0, true);
    assert_sequence_read_permitted(&sequence, public_key_1, true);

    // with permissions
    let mut permissions = PublicPermissions {
        permissions: PublicUserMap::new(),
        expected_data_index: 0,
        expected_owners_index: 1,
    };
    let mut set = RequestMap::new();
    let _ = set.insert(get_append_cmd(), true);
    let _ = permissions
        .permissions
        .insert(User::Anyone, PublicPermissionSet::new(set));
    let mut set = RequestMap::new();
    for cmd in get_full_modify_sequence_permissions() {
        let _ = set.insert(cmd, true);
    }
    let _ = permissions
        .permissions
        .insert(User::Specific(public_key_1), PublicPermissionSet::new(set));
    sequence.append_pub_permissions(permissions, 0).unwrap();

    // existing key fallback
    assert_eq!(sequence.is_permitted(get_append_cmd(), public_key_1), true);
    // existing key override
    assert_modify_sequence_permissions_permitted(&sequence, public_key_1, true);
    // non-existing keys are handled by `Anyone`
    assert_eq!(sequence.is_permitted(get_append_cmd(), public_key_2), true);
    assert_modify_sequence_permissions_permitted(&sequence, public_key_2, false);
    // data is public - read always allowed
    assert_sequence_read_permitted(&sequence, public_key_0, true);
    assert_sequence_read_permitted(&sequence, public_key_1, true);
    assert_sequence_read_permitted(&sequence, public_key_2, true);
}

#[test]
fn validates_private_sequence_permissions() {
    let public_key_0 = gen_public_key();
    let public_key_1 = gen_public_key();
    let public_key_2 = gen_public_key();
    let mut sequence = Data::new_private(gen_public_key(), XorName([1; 32]), 100);

    // no owner
    assert_sequence_read_permitted(&sequence, public_key_0, false);

    // no permissions
    sequence
        .append_owner(
            Owner {
                public_key: public_key_0,
                expected_data_index: 0,
                expected_permissions_index: 0,
            },
            0,
        )
        .unwrap();

    assert_sequence_read_permitted(&sequence, public_key_0, true);
    assert_sequence_read_permitted(&sequence, public_key_1, false);

    // with permissions
    let mut permissions = PrivatePermissions {
        permissions: PrivateUserMap::new(),
        expected_data_index: 0,
        expected_owners_index: 1,
    };
    let mut set = RequestMap::new();
    let _ = set.insert(get_append_cmd(), true);
    for query in get_full_sequence_read_permissions() {
        let _ = set.insert(query, true);
    }
    for cmd in get_full_modify_sequence_permissions() {
        let _ = set.insert(cmd, false);
    }
    let _ = permissions
        .permissions
        .insert(public_key_1, PrivatePermissionSet::new(set));
    sequence.append_private_permissions(permissions, 0).unwrap();

    // existing key
    assert_sequence_read_permitted(&sequence, public_key_1, true);
    assert_eq!(sequence.is_permitted(get_append_cmd(), public_key_1), true);
    assert_modify_sequence_permissions_permitted(&sequence, public_key_1, false);

    // non-existing key
    assert_sequence_read_permitted(&sequence, public_key_2, false);
    assert_eq!(sequence.is_permitted(get_append_cmd(), public_key_2), false);
    assert_modify_sequence_permissions_permitted(&sequence, public_key_2, false);
}

fn get_append_cmd() -> Request {
    Request::Cmd(CmdType::Sequence(SequenceCmd::Append))
}

fn get_sequence_read_query(query: SequenceQuery) -> Request {
    Request::Query(QueryType::Sequence(query))
}

fn get_full_sequence_read_permissions() -> Vec<Request> {
    vec![
        Request::Query(QueryType::Sequence(SequenceQuery::ReadData)),
        Request::Query(QueryType::Sequence(SequenceQuery::ReadOwners)),
        Request::Query(QueryType::Sequence(SequenceQuery::ReadPermissions)),
    ]
}

fn get_modify_sequence_permissions(permission: ModifyableSequencePermissions) -> Request {
    Request::Cmd(CmdType::Sequence(SequenceCmd::ModifyPermissions(permission)))
}

fn get_full_modify_sequence_permissions() -> Vec<Request> {
    vec![
        get_modify_sequence_permissions(ModifyableSequencePermissions::ReadData),
        get_modify_sequence_permissions(ModifyableSequencePermissions::ReadOwners),
        get_modify_sequence_permissions(ModifyableSequencePermissions::ReadPermissions),
        get_modify_sequence_permissions(ModifyableSequencePermissions::Write(
            SequenceWrite::Append,
        )),
        get_modify_sequence_permissions(ModifyableSequencePermissions::Write(
            SequenceWrite::ModifyPermissions,
        )),
        get_modify_sequence_permissions(ModifyableSequencePermissions::Write(
            SequenceWrite::HardErasure(HardErasureCmd::HardDelete),
        )),
        get_modify_sequence_permissions(ModifyableSequencePermissions::Write(
            SequenceWrite::HardErasure(HardErasureCmd::HardUpdate),
        )),
    ]
}

fn assert_sequence_read_permitted(data: &Data, public_key: PublicKey, permitted: bool) {
    assert_eq!(
        data.is_permitted(get_sequence_read_query(SequenceQuery::ReadData), public_key),
        permitted
    );
    assert_eq!(
        data.is_permitted(
            get_sequence_read_query(SequenceQuery::ReadOwners),
            public_key
        ),
        permitted
    );
    assert_eq!(
        data.is_permitted(
            get_sequence_read_query(SequenceQuery::ReadPermissions),
            public_key
        ),
        permitted
    );
}

fn assert_modify_sequence_permissions_permitted(
    data: &Data,
    public_key: PublicKey,
    permitted: bool,
) {
    for cmd in get_full_modify_sequence_permissions() {
        assert_eq!(data.is_permitted(cmd, public_key), permitted);
    }
}

// ------------------------------------------------------------------------
// -----------------------------------  MAP  -------------------------------
// ------------------------------------------------------------------------

#[test]
fn set_map_permissions() {
    let mut data = Data::new_private(gen_public_key(), XorName([1; 32]), 10000);

    // Set the first permission set with correct expected indices - should pass.
    let res = data.append_private_permissions(
        PrivatePermissions {
            permissions: PrivateUserMap::new(),
            expected_data_index: 0,
            expected_owners_index: 0,
        },
        0,
    );

    match res {
        Ok(_) => (),
        Err(x) => panic!("Unexpected error: {:?}", x),
    }

    // Verify that the permissions are part of the history.
    assert_eq!(
        data.private_permission_history_range(Index::FromStart(0), Index::FromEnd(0))
            .unwrap()
            .len(),
        1
    );

    // Set permissions with incorrect expected indices - should fail.
    let res = data.append_private_permissions(
        PrivatePermissions {
            permissions: PrivateUserMap::new(),
            expected_data_index: 64,
            expected_owners_index: 0,
        },
        1,
    );

    match res {
        Err(_) => (),
        Ok(_) => panic!("Unexpected Ok result"),
    }

    // Verify that the history of permissions remains unchanged.
    assert_eq!(
        data.private_permission_history_range(Index::FromStart(0), Index::FromEnd(0))
            .unwrap()
            .len(),
        1
    );
}

#[test]
fn set_map_owner() {
    let owner_pk = gen_public_key();

    let mut data = Data::new_private(gen_public_key(), XorName([1; 32]), 10000);

    // Set the first owner with correct expected indices - should pass.
    let res = data.append_owner(
        Owner {
            public_key: owner_pk,
            expected_data_index: 0,
            expected_permissions_index: 0,
        },
        0,
    );

    match res {
        Ok(_) => (),
        Err(x) => panic!("Unexpected error: {:?}", x),
    }

    // Verify that the owner is part of history.
    assert_eq!(
        data.owner_history_range(Index::FromStart(0), Index::FromEnd(0))
            .unwrap()
            .len(),
        1
    );

    // Set new owner with incorrect expected indices - should fail.
    let res = data.append_owner(
        Owner {
            public_key: owner_pk,
            expected_data_index: 64,
            expected_permissions_index: 0,
        },
        1,
    );

    match res {
        Err(_) => (),
        Ok(_) => panic!("Unexpected Ok result"),
    }

    // Verify that the history of owners remains unchanged.
    assert_eq!(
        data.owner_history_range(Index::FromStart(0), Index::FromEnd(0))
            .unwrap()
            .len(),
        1
    );
}

#[test]
fn gets_map_shell() {
    let owner_pk = gen_public_key();
    let owner_pk1 = gen_public_key();

    let mut data = Data::new_private(gen_public_key(), XorName([1; 32]), 10000);

    let _ = data.append_owner(
        Owner {
            public_key: owner_pk,
            expected_data_index: 0,
            expected_permissions_index: 0,
        },
        0,
    );

    let _ = data.append_owner(
        Owner {
            public_key: owner_pk1,
            expected_data_index: 0,
            expected_permissions_index: 0,
        },
        1,
    );

    assert_eq!(
        data.owners_index(),
        data.shell(Index::FromStart(0)).unwrap().owners_index()
    );
}

#[test]
fn can_retrieve_map_permissions() {
    let public_key = gen_public_key();
    let invalid_public_key = gen_public_key();

    let mut pub_permissions = PublicPermissions {
        permissions: PublicUserMap::new(),
        expected_data_index: 0,
        expected_owners_index: 0,
    };
    let _ = pub_permissions.permissions.insert(
        User::Specific(public_key),
        PublicPermissionSet::new(RequestMap::new()),
    );

    let mut private_permissions = PrivatePermissions {
        permissions: PrivateUserMap::new(),
        expected_data_index: 0,
        expected_owners_index: 0,
    };
    let _ = private_permissions
        .permissions
        .insert(public_key, PrivatePermissionSet::new(RequestMap::new()));

    // public
    let mut data = Data::new_pub(gen_public_key(), XorName(rand::random()), 20);
    data.append_pub_permissions(pub_permissions.clone(), 0).unwrap();

    let index_0 = Index::FromStart(0);
    assert_eq!(data.pub_permissions(index_0), Ok(&pub_permissions));
    assert_eq!(data.private_permissions(index_0), Err(Error::NoSuchData));

    assert_eq!(
        data.pub_user_permissions(User::Specific(public_key), index_0),
        Ok(PublicPermissionSet::new(RequestMap::new()))
    );
    assert_eq!(
        data.private_user_permissions(public_key, index_0),
        Err(Error::NoSuchData)
    );
    assert_eq!(
        data.pub_user_permissions(User::Specific(invalid_public_key), index_0),
        Err(Error::NoSuchEntry)
    );

    // private
    let mut data = Data::new_private(gen_public_key(), XorName(rand::random()), 20);
    data.append_private_permissions(private_permissions.clone(), 0)
        .unwrap();

    assert_eq!(
        data.private_permissions(index_0),
        Ok(&private_permissions)
    );
    assert_eq!(data.pub_permissions(index_0), Err(Error::NoSuchData));

    assert_eq!(
        data.private_user_permissions(public_key, index_0),
        Ok(PrivatePermissionSet::new(RequestMap::new()))
    );
    assert_eq!(
        data.pub_user_permissions(User::Specific(public_key), index_0),
        Err(Error::NoSuchData)
    );
    assert_eq!(
        data.private_user_permissions(invalid_public_key, index_0),
        Err(Error::NoSuchEntry)
    );
}

#[test]
fn validates_public_map_permissions() {
    let public_key_0 = gen_public_key();
    let public_key_1 = gen_public_key();
    let public_key_2 = gen_public_key();
    let mut map = Data::new_pub(gen_public_key(), XorName([1; 32]), 100);

    // no owner
    assert_eq!(map.is_permitted(get_insert_cmd(), public_key_0), false);
    // data is public - read always allowed
    assert_map_read_permitted(&map, public_key_0, true);

    // no permissions
    map.append_owner(
        Owner {
            public_key: public_key_0,
            expected_data_index: 0,
            expected_permissions_index: 0,
        },
        0,
    )
    .unwrap();

    assert_eq!(map.is_permitted(get_insert_cmd(), public_key_0), true);
    assert_eq!(map.is_permitted(get_insert_cmd(), public_key_1), false);
    // data is public - read always allowed
    assert_map_read_permitted(&map, public_key_0, true);
    assert_map_read_permitted(&map, public_key_1, true);

    // with permissions
    let mut permissions = PublicPermissions {
        permissions: PublicUserMap::new(),
        expected_data_index: 0,
        expected_owners_index: 1,
    };
    let mut set = RequestMap::new();
    let _ = set.insert(get_insert_cmd(), true);
    let _ = permissions
        .permissions
        .insert(User::Anyone, PublicPermissionSet::new(set));
    let mut set = RequestMap::new();
    for cmd in get_full_modify_map_permissions() {
        let _ = set.insert(cmd, true);
    }
    let _ = permissions
        .permissions
        .insert(User::Specific(public_key_1), PublicPermissionSet::new(set));
    map.append_pub_permissions(permissions, 0).unwrap();

    // existing key fallback
    assert_eq!(map.is_permitted(get_insert_cmd(), public_key_1), true);
    // existing key override
    assert_modify_map_permissions_permitted(&map, public_key_1, true);
    // non-existing keys are handled by `Anyone`
    assert_eq!(map.is_permitted(get_insert_cmd(), public_key_2), true);
    assert_modify_map_permissions_permitted(&map, public_key_2, false);
    // data is public - read always allowed
    assert_map_read_permitted(&map, public_key_0, true);
    assert_map_read_permitted(&map, public_key_1, true);
    assert_map_read_permitted(&map, public_key_2, true);
}

#[test]
fn validates_private_map_permissions() {
    let public_key_0 = gen_public_key();
    let public_key_1 = gen_public_key();
    let public_key_2 = gen_public_key();
    let mut map = Data::new_private(gen_public_key(), XorName([1; 32]), 100);

    // no owner
    assert_map_read_permitted(&map, public_key_0, false);

    // no permissions
    map.append_owner(
        Owner {
            public_key: public_key_0,
            expected_data_index: 0,
            expected_permissions_index: 0,
        },
        0,
    )
    .unwrap();

    assert_map_read_permitted(&map, public_key_0, true);
    assert_map_read_permitted(&map, public_key_1, false);

    // with permissions
    let mut permissions = PrivatePermissions {
        permissions: PrivateUserMap::new(),
        expected_data_index: 0,
        expected_owners_index: 1,
    };
    let mut set = RequestMap::new();
    let _ = set.insert(get_insert_cmd(), true);
    for query in get_full_map_read_permissions() {
        let _ = set.insert(query, true);
    }
    for cmd in get_full_modify_map_permissions() {
        let _ = set.insert(cmd, false);
    }
    let _ = permissions
        .permissions
        .insert(public_key_1, PrivatePermissionSet::new(set));
    map.append_private_permissions(permissions, 0).unwrap();

    // existing key
    assert_map_read_permitted(&map, public_key_1, true);
    assert_eq!(map.is_permitted(get_insert_cmd(), public_key_1), true);
    assert_modify_map_permissions_permitted(&map, public_key_1, false);

    // non-existing key
    assert_map_read_permitted(&map, public_key_2, false);
    assert_eq!(map.is_permitted(get_insert_cmd(), public_key_2), false);
    assert_modify_map_permissions_permitted(&map, public_key_2, false);
}

fn get_insert_cmd() -> Request {
    Request::Cmd(CmdType::MapCmd(MapCmd::Insert))
}

fn get_map_read_query(query: MapQuery) -> Request {
    Request::Query(QueryType::MapQuery(query))
}

fn get_full_map_read_permissions() -> Vec<Request> {
    vec![
        Request::Query(QueryType::MapQuery(MapQuery::ReadData)),
        Request::Query(QueryType::MapQuery(MapQuery::ReadOwners)),
        Request::Query(QueryType::MapQuery(MapQuery::ReadPermissions)),
    ]
}

fn get_modify_map_permissions(permission: ModifyableMapPermissions) -> Request {
    Request::Cmd(CmdType::MapCmd(MapCmd::ModifyPermissions(permission)))
}

fn get_full_modify_map_permissions() -> Vec<Request> {
    vec![
        get_modify_map_permissions(ModifyableMapPermissions::ReadData),
        get_modify_map_permissions(ModifyableMapPermissions::ReadOwners),
        get_modify_map_permissions(ModifyableMapPermissions::ReadPermissions),
        get_modify_map_permissions(ModifyableMapPermissions::Write(MapWrite::Insert)),
        get_modify_map_permissions(ModifyableMapPermissions::Write(MapWrite::Update)),
        get_modify_map_permissions(ModifyableMapPermissions::Write(MapWrite::Delete)),
        get_modify_map_permissions(ModifyableMapPermissions::Write(MapWrite::ModifyPermissions)),
        get_modify_map_permissions(ModifyableMapPermissions::Write(MapWrite::HardErasure(
            HardErasureCmd::HardDelete,
        ))),
        get_modify_map_permissions(ModifyableMapPermissions::Write(MapWrite::HardErasure(
            HardErasureCmd::HardUpdate,
        ))),
    ]
}

fn assert_map_read_permitted(data: &Data, public_key: PublicKey, permitted: bool) {
    assert_eq!(
        data.is_permitted(get_map_read_query(MapQuery::ReadData), public_key),
        permitted
    );
    assert_eq!(
        data.is_permitted(get_map_read_query(MapQuery::ReadOwners), public_key),
        permitted
    );
    assert_eq!(
        data.is_permitted(get_map_read_query(MapQuery::ReadPermissions), public_key),
        permitted
    );
}

fn assert_modify_map_permissions_permitted(data: &Data, public_key: PublicKey, permitted: bool) {
    for cmd in get_full_modify_map_permissions() {
        assert_eq!(data.is_permitted(cmd, public_key), permitted);
    }
}
