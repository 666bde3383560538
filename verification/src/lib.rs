//! Replicated, versioned data objects for a distributed storage node.
//!
//! A data object keeps three independently versioned, append-only histories
//! (entries, permission snapshots, owner snapshots). Each history is a small
//! convergent replicated data type: appends are tagged with the authoring
//! actor and a per-actor counter, and histories merge deterministically no
//! matter in which order operations arrive. On top of this the crate provides
//! the permission evaluation rules that decide whether a requester may perform
//! an operation, and the optimistic-concurrency guard that rejects stale
//! permission or ownership changes.

mod assoc;
mod errors;
mod history;
mod permissions;
mod request;
mod response;
mod sequence;
mod shared;

pub use assoc::{assoc_get, unique_keys};
pub use errors::{CmdError, Error, TransferError, TryFromError};
pub use history::{
    has_id, insert_sorted, key_lt, lemma_histories_converge, lemma_merge_commutes,
    lemma_merge_idempotent, lemma_merged_contents, lemma_mirrored_merge, merged, op_mirrors,
    positions_bounded, same_id, sorted, unique_ids, History, Op,
};
pub use permissions::{
    lemma_fallback_precedence, Permissions, PrivatePermissionSet, PrivatePermissions,
    PrivateUserMap, PublicPermissionSet, PublicPermissions, PublicUserMap, RequestMap,
    SequencePermissions, UserPermissions,
};
pub use request::{
    AuthorisationKind, CmdType, DataAuthKind, HardErasureCmd, MapCmd, MapQuery, MapWrite,
    MiscAuthKind, ModifyableMapPermissions, ModifyableSequencePermissions, MoneyAuthKind,
    QueryType, Request, SequenceCmd, SequenceQuery, SequenceWrite,
};
pub use response::QueryResponse;
pub use sequence::{
    lemma_owner_bypass, lemma_public_read, lemma_replicas_converge, mirrors_priv_op,
    mirrors_pub_op, Data, PrivSeqData, PubSeqData, SequenceCrdt, WriteOp,
};
pub use shared::{Address, Entries, Entry, Index, Kind, Owner, PublicKey, User, XorName};

// The sequence data type under the names its network-facing callers use.
pub use permissions::UserPermissions as SequenceUserPermissions;
pub use sequence::Data as Sequence;
pub use shared::Address as SequenceAddress;
pub use shared::Index as SequenceIndex;
pub use shared::Kind as SequenceKind;
pub use shared::User as SequenceUser;
