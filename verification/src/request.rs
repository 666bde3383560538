//! The closed taxonomy of operations a requester may be authorized to
//! perform, and the authorisation vocabulary built on it.
//!
//! A request is either a command (mutates state) or a query (read-only), each
//! further tagged by the object kind it concerns — sequence or map — and by
//! the capability it exercises. The permission evaluator consumes these as
//! opaque tokens; the shape of the taxonomy is fixed for protocol
//! compatibility.

use vstd::prelude::*;

verus! {

/// A command or query on a data object.
#[derive(Clone, Copy, PartialEq, Eq, Structural, Debug, Hash)]
pub enum Request {
    /// A command on a data type: unless rejected, it mutates state.
    Cmd(CmdType),
    /// A query on a data type: it never mutates state.
    Query(QueryType),
}

impl Request {
    /// Whether this is a read-category operation. Reads are what public
    /// objects always allow, to anyone.
    pub open spec fn is_read(self) -> bool {
        self is Query
    }
}

/// The commands, by the object kind they concern.
#[derive(Clone, Copy, PartialEq, Eq, Structural, Debug, Hash)]
pub enum CmdType {
    /// A command on a map object.
    MapCmd(MapCmd),
    /// A command on a sequence object.
    Sequence(SequenceCmd),
}

/// The commands on a sequence object.
#[derive(Clone, Copy, PartialEq, Eq, Structural, Debug, Hash)]
pub enum SequenceCmd {
    /// Appending new values.
    Append,
    /// Hard-deleting or hard-updating existing values.
    HardErasure(HardErasureCmd),
    /// Modifying one specific permission category for other users.
    ModifyPermissions(ModifyableSequencePermissions),
}

/// The commands on a map object.
#[derive(Clone, Copy, PartialEq, Eq, Structural, Debug, Hash)]
pub enum MapCmd {
    /// Inserting new values.
    Insert,
    /// Soft-updating existing values.
    Update,
    /// Soft-deleting existing values.
    Delete,
    /// Hard-deleting or hard-updating existing values.
    HardErasure(HardErasureCmd),
    /// Modifying one specific permission category for other users.
    ModifyPermissions(ModifyableMapPermissions),
}

/// The map permission categories that can themselves be granted or revoked.
#[derive(Clone, Copy, PartialEq, Eq, Structural, Debug, Hash)]
pub enum ModifyableMapPermissions {
    /// Reading the map data.
    ReadData,
    /// Reading the map owners.
    ReadOwners,
    /// Reading the map permissions.
    ReadPermissions,
    /// Writing to the map.
    Write(MapWrite),
}

/// The map write capabilities.
#[derive(Clone, Copy, PartialEq, Eq, Structural, Debug, Hash)]
pub enum MapWrite {
    /// Inserting new values.
    Insert,
    /// Soft-updating existing values.
    Update,
    /// Soft-deleting existing values.
    Delete,
    /// Hard-deleting or hard-updating existing values.
    HardErasure(HardErasureCmd),
    /// Modifying permissions for other users.
    ModifyPermissions,
}

/// The sequence permission categories that can themselves be granted or
/// revoked.
#[derive(Clone, Copy, PartialEq, Eq, Structural, Debug, Hash)]
pub enum ModifyableSequencePermissions {
    /// Reading the sequence data.
    ReadData,
    /// Reading the sequence owners.
    ReadOwners,
    /// Reading the sequence permissions.
    ReadPermissions,
    /// Writing to the sequence.
    Write(SequenceWrite),
}

/// The sequence write capabilities.
#[derive(Clone, Copy, PartialEq, Eq, Structural, Debug, Hash)]
pub enum SequenceWrite {
    /// Appending new values.
    Append,
    /// Hard-deleting or hard-updating existing values.
    HardErasure(HardErasureCmd),
    /// Modifying permissions for other users.
    ModifyPermissions,
}

/// Hard erasure of existing entries: a capability gated separately from
/// ordinary appends and updates.
#[derive(Clone, Copy, PartialEq, Eq, Structural, Debug, Hash)]
pub enum HardErasureCmd {
    /// Hard-updating existing values.
    HardUpdate,
    /// Hard-deleting existing values.
    HardDelete,
}

/// The queries, by the object kind they concern.
#[derive(Clone, Copy, PartialEq, Eq, Structural, Debug, Hash)]
pub enum QueryType {
    /// A query on a map object.
    MapQuery(MapQuery),
    /// A query on a sequence object.
    Sequence(SequenceQuery),
}

/// The queries on a map object.
#[derive(Clone, Copy, PartialEq, Eq, Structural, Debug, Hash)]
pub enum MapQuery {
    /// Reading the map data.
    ReadData,
    /// Reading the map owners.
    ReadOwners,
    /// Reading the map permissions.
    ReadPermissions,
}

/// The queries on a sequence object.
#[derive(Clone, Copy, PartialEq, Eq, Structural, Debug, Hash)]
pub enum SequenceQuery {
    /// Reading the sequence data.
    ReadData,
    /// Reading the sequence owners.
    ReadOwners,
    /// Reading the sequence permissions.
    ReadPermissions,
}

/// The kind of authorisation a request needs from the surrounding node.
#[derive(Clone, Copy, PartialEq, Eq, Structural, Debug)]
pub enum AuthorisationKind {
    /// Authorisation for data requests.
    Data(DataAuthKind),
    /// Authorisation for money requests.
    Money(MoneyAuthKind),
    /// Miscellaneous authorisation kinds.
    Misc(MiscAuthKind),
    /// No authorisation required.
    NotRequired,
}

/// Authorisation for data requests.
#[derive(Clone, Copy, PartialEq, Eq, Structural, Debug)]
pub enum DataAuthKind {
    /// Reading public data.
    PublicRead,
    /// Reading private data.
    PrivateRead,
    /// Writing data or metadata.
    Write,
}

/// Authorisation for money requests.
#[derive(Clone, Copy, PartialEq, Eq, Structural, Debug)]
pub enum MoneyAuthKind {
    /// Reading a key's balance.
    ReadBalance,
    /// Reading a key's transfer history.
    ReadHistory,
    /// Transferring money from a key.
    Transfer,
}

/// Miscellaneous authorisation kinds.
#[derive(Clone, Copy, PartialEq, Eq, Structural, Debug)]
pub enum MiscAuthKind {
    /// Managing app keys.
    ManageAppKeys,
    /// Mutating state and transferring money from a key.
    WriteAndTransfer,
}

} // verus!
