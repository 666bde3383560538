//! The composite replicated data object: three independently versioned
//! append-only histories — data entries, permission snapshots and ownership
//! snapshots — bound under one address and visibility kind, with the
//! permission evaluator and the optimistic-concurrency guard on locally
//! authored snapshot appends.

use vstd::prelude::*;

use crate::assoc::assoc_get;
use crate::errors::Error;
use crate::history::{insert_sorted, key_lt, merged, positions_bounded, same_id, History, Op};
use crate::permissions::{
    Permissions, PrivatePermissionSet, PrivatePermissions, PrivateUserMap, PublicPermissionSet,
    PublicPermissions, PublicUserMap, UserPermissions,
};
use crate::request::Request;
use crate::shared::{
    absolute_index, position_index, spec_absolute_index, spec_position_index, Address, Entries,
    Entry, Index, Kind, Owner, PublicKey, User, XorName,
};

verus! {

/// A locally produced write, ready for transmission to other replicas: the
/// object's address for routing, and the operation to merge there.
pub struct WriteOp<T> {
    /// The address of the object the operation belongs to.
    pub address: Address,
    /// The operation to merge into the matching history.
    pub crdt_op: Op<T>,
}

/// Copies a byte entry.
fn clone_entry(v: &Entry) -> (r: Entry)
    ensures
        r@ == v@,
{
    let n = v.len();
    let mut r: Entry = Vec::new();
    let mut i: usize = 0;
    while i < n
        invariant
            n == v@.len(),
            i <= n,
            r@ == v@.subrange(0, i as int),
        decreases n - i,
    {
        r.push(v[i]);
        proof {
            assert(r@ =~= v@.subrange(0, i + 1));
        }
        i = i + 1;
    }
    proof {
        assert(r@ =~= v@);
    }
    r
}

/// The three histories of one data object, replicated for one local actor:
/// entries, permission snapshots of the shape `P`, and ownership snapshots.
#[derive(Clone)]
pub struct SequenceCrdt<P> {
    /// The object's immutable address.
    pub address: Address,
    /// The append-only history of data entries.
    pub data: History<Entry>,
    /// The append-only history of permission snapshots.
    pub permissions: History<P>,
    /// The append-only history of ownership snapshots.
    pub owners: History<Owner>,
}

impl<P> SequenceCrdt<P> {
    /// Well-formedness: all three histories are well-formed.
    pub open spec fn wf(self) -> bool {
        &&& self.data.wf()
        &&& self.permissions.wf()
        &&& self.owners.wf()
    }

    /// Creates the empty object bound to `address`, authored by `actor`.
    pub fn new(actor: PublicKey, address: Address) -> (r: SequenceCrdt<P>)
        ensures
            r.wf(),
            r.address == address,
            r.data@ == Seq::<Op<Entry>>::empty(),
            r.permissions@ == Seq::<Op<P>>::empty(),
            r.owners@ == Seq::<Op<Owner>>::empty(),
            r.data.spec_actor() == actor,
            r.permissions.spec_actor() == actor,
            r.owners.spec_actor() == actor,
            r.data.spec_next_counter() == 0,
            r.permissions.spec_next_counter() == 0,
            r.owners.spec_next_counter() == 0,
            r.data.can_author() && r.permissions.can_author() && r.owners.can_author(),
    {
        SequenceCrdt {
            address,
            data: History::new(actor),
            permissions: History::new(actor),
            owners: History::new(actor),
        }
    }

    /// Returns the address.
    pub fn address(&self) -> (r: &Address)
        ensures
            *r == self.address,
    {
        &self.address
    }

    /// The current data-history length, the version the next entry append
    /// would observe.
    pub fn entries_index(&self) -> (r: u64)
        ensures
            r == self.data@.len(),
    {
        self.data.len() as u64
    }

    /// The current permission-history length.
    pub fn permissions_index(&self) -> (r: u64)
        ensures
            r == self.permissions@.len(),
    {
        self.permissions.len() as u64
    }

    /// The current owner-history length.
    pub fn owners_index(&self) -> (r: u64)
        ensures
            r == self.owners@.len(),
    {
        self.owners.len() as u64
    }

    /// Appends a data entry authored locally, returning the operation to
    /// broadcast: its metadata matches the entry now in the history, and it
    /// carries a copy of the bytes.
    pub fn append(&mut self, entry: Entry) -> (op: Op<Entry>)
        requires
            old(self).wf(),
            old(self).data.can_author(),
        ensures
            final(self).wf(),
            final(self).data@ == insert_sorted(old(self).data@, old(self).data.authored(entry)),
            final(self).data@ == merged(old(self).data@, old(self).data.authored(entry)),
            final(self).data@.len() == old(self).data@.len() + 1,
            op.actor == old(self).data.spec_actor(),
            op.counter == old(self).data.spec_next_counter(),
            op.position == old(self).data@.len(),
            op.value@ == entry@,
            final(self).permissions == old(self).permissions,
            final(self).owners == old(self).owners,
            final(self).address == old(self).address,
            final(self).data.spec_actor() == old(self).data.spec_actor(),
            final(self).data.spec_next_counter() == old(self).data.spec_next_counter() + 1,
            positions_bounded(old(self).data@) ==> final(self).data@ == old(self).data@.push(
                old(self).data.authored(entry),
            ) && positions_bounded(final(self).data@),
    {
        let payload = clone_entry(&entry);
        let op = Op {
            actor: *self.data.actor(),
            counter: self.data.next_counter(),
            position: self.data.len() as u64,
            value: payload,
        };
        self.data.append(entry);
        op
    }

    /// Merges a remote data operation. Total: duplicates are absorbed.
    pub fn apply_crdt_op(&mut self, op: Op<Entry>)
        requires
            old(self).wf(),
        ensures
            final(self).wf(),
            final(self).data@ == merged(old(self).data@, op),
            final(self).permissions == old(self).permissions,
            final(self).owners == old(self).owners,
            final(self).address == old(self).address,
            final(self).data.spec_actor() == old(self).data.spec_actor(),
            final(self).data.spec_next_counter() == if op.actor == old(self).data.spec_actor()
                && op.counter >= old(self).data.spec_next_counter() {
                if op.counter == u64::MAX {
                    u64::MAX
                } else {
                    (op.counter + 1) as u64
                }
            } else {
                old(self).data.spec_next_counter()
            },
            positions_bounded(old(self).data@) && op.position <= old(self).data@.len()
                ==> positions_bounded(final(self).data@),
    {
        self.data.apply(op);
    }

    /// Appends a permission snapshot authored locally. The caller builds the
    /// operation to broadcast; see [`History::authored`] for its shape.
    pub fn append_permissions(&mut self, permissions: P)
        requires
            old(self).wf(),
            old(self).permissions.can_author(),
        ensures
            final(self).wf(),
            final(self).permissions@ == insert_sorted(
                old(self).permissions@,
                old(self).permissions.authored(permissions),
            ),
            final(self).permissions@ == merged(
                old(self).permissions@,
                old(self).permissions.authored(permissions),
            ),
            final(self).permissions@.len() == old(self).permissions@.len() + 1,
            final(self).data == old(self).data,
            final(self).owners == old(self).owners,
            final(self).address == old(self).address,
            final(self).permissions.spec_actor() == old(self).permissions.spec_actor(),
            final(self).permissions.spec_next_counter() == old(
                self,
            ).permissions.spec_next_counter() + 1,
            positions_bounded(old(self).permissions@) ==> final(self).permissions@ == old(
                self,
            ).permissions@.push(old(self).permissions.authored(permissions)) && positions_bounded(
                final(self).permissions@,
            ),
    {
        self.permissions.append(permissions);
    }

    /// Merges a remote permission operation. Total: duplicates are absorbed.
    pub fn apply_crdt_perms_op(&mut self, op: Op<P>)
        requires
            old(self).wf(),
        ensures
            final(self).wf(),
            final(self).permissions@ == merged(old(self).permissions@, op),
            final(self).data == old(self).data,
            final(self).owners == old(self).owners,
            final(self).address == old(self).address,
            final(self).permissions.spec_actor() == old(self).permissions.spec_actor(),
            final(self).permissions.spec_next_counter() == if op.actor == old(
                self,
            ).permissions.spec_actor() && op.counter >= old(self).permissions.spec_next_counter() {
                if op.counter == u64::MAX {
                    u64::MAX
                } else {
                    (op.counter + 1) as u64
                }
            } else {
                old(self).permissions.spec_next_counter()
            },
            positions_bounded(old(self).permissions@) && op.position <= old(self).permissions@.len()
                ==> positions_bounded(final(self).permissions@),
    {
        self.permissions.apply(op);
    }

    /// Appends an ownership snapshot authored locally, returning the
    /// operation to broadcast.
    pub fn append_owner(&mut self, owner: Owner) -> (op: Op<Owner>)
        requires
            old(self).wf(),
            old(self).owners.can_author(),
        ensures
            final(self).wf(),
            op == old(self).owners.authored(owner),
            final(self).owners@ == insert_sorted(old(self).owners@, op),
            final(self).owners@ == merged(old(self).owners@, op),
            final(self).owners@.len() == old(self).owners@.len() + 1,
            final(self).data == old(self).data,
            final(self).permissions == old(self).permissions,
            final(self).address == old(self).address,
            final(self).owners.spec_actor() == old(self).owners.spec_actor(),
            final(self).owners.spec_next_counter() == old(self).owners.spec_next_counter() + 1,
            positions_bounded(old(self).owners@) ==> final(self).owners@ == old(
                self,
            ).owners@.push(op) && positions_bounded(final(self).owners@),
    {
        let op = Op {
            actor: *self.owners.actor(),
            counter: self.owners.next_counter(),
            position: self.owners.len() as u64,
            value: owner,
        };
        self.owners.append(owner);
        op
    }

    /// Merges a remote ownership operation. Total: duplicates are absorbed.
    pub fn apply_crdt_owner_op(&mut self, op: Op<Owner>)
        requires
            old(self).wf(),
        ensures
            final(self).wf(),
            final(self).owners@ == merged(old(self).owners@, op),
            final(self).data == old(self).data,
            final(self).permissions == old(self).permissions,
            final(self).address == old(self).address,
            final(self).owners.spec_actor() == old(self).owners.spec_actor(),
            final(self).owners.spec_next_counter() == if op.actor == old(self).owners.spec_actor()
                && op.counter >= old(self).owners.spec_next_counter() {
                if op.counter == u64::MAX {
                    u64::MAX
                } else {
                    (op.counter + 1) as u64
                }
            } else {
                old(self).owners.spec_next_counter()
            },
            positions_bounded(old(self).owners@) && op.position <= old(self).owners@.len()
                ==> positions_bounded(final(self).owners@),
    {
        self.owners.apply(op);
    }

    /// The entry at `index`, if one stands there; `FromEnd(0)` is the most
    /// recent entry.
    pub fn get(&self, index: Index) -> (r: Option<&Entry>)
        ensures
            match r {
                Some(e) => {
                    &&& spec_position_index(index, self.data@.len()) matches Some(i)
                    &&& *e == self.data@[spec_position_index(index, self.data@.len()).unwrap()].value
                },
                None => spec_position_index(index, self.data@.len()) is None,
            },
    {
        match position_index(index, self.data.len()) {
            Some(i) => Some(&self.data.op_at(i).value),
            None => None,
        }
    }

    /// The most recent entry, if any.
    pub fn last_entry(&self) -> (r: Option<&Entry>)
        ensures
            match r {
                Some(e) => self.data@.len() > 0 && *e == self.data@.last().value,
                None => self.data@.len() == 0,
            },
    {
        let n = self.data.len();
        if n == 0 {
            None
        } else {
            Some(&self.data.op_at(n - 1).value)
        }
    }

    /// The permission snapshot at `index`, if one stands there; `FromEnd(0)`
    /// is the most recent snapshot.
    pub fn permissions(&self, index: Index) -> (r: Option<&P>)
        ensures
            match r {
                Some(p) => {
                    &&& spec_position_index(index, self.permissions@.len()) matches Some(i)
                    &&& *p == self.permissions@[spec_position_index(
                        index,
                        self.permissions@.len(),
                    ).unwrap()].value
                },
                None => spec_position_index(index, self.permissions@.len()) is None,
            },
    {
        match position_index(index, self.permissions.len()) {
            Some(i) => Some(&self.permissions.op_at(i).value),
            None => None,
        }
    }

    /// The ownership snapshot at `index`, if one stands there; `FromEnd(0)`
    /// is the most recent snapshot.
    pub fn owner(&self, index: Index) -> (r: Option<&Owner>)
        ensures
            match r {
                Some(o) => {
                    &&& spec_position_index(index, self.owners@.len()) matches Some(i)
                    &&& *o == self.owners@[spec_position_index(
                        index,
                        self.owners@.len(),
                    ).unwrap()].value
                },
                None => spec_position_index(index, self.owners@.len()) is None,
            },
    {
        match position_index(index, self.owners.len()) {
            Some(i) => Some(&self.owners.op_at(i).value),
            None => None,
        }
    }

    /// Whether the owner history is non-empty and its most recent snapshot
    /// names `requester`.
    pub open spec fn spec_is_last_owner(self, requester: PublicKey) -> bool {
        self.owners@.len() > 0 && self.owners@.last().value.public_key == requester
    }

    /// Checks that `requester` is the current owner: the error tells an
    /// empty owner history apart from a different owner.
    pub fn check_is_last_owner(&self, requester: PublicKey) -> (r: Result<(), Error>)
        ensures
            r is Ok <==> self.spec_is_last_owner(requester),
            self.owners@.len() == 0 ==> r == Result::<(), Error>::Err(Error::InvalidOwners),
            self.owners@.len() > 0 && self.owners@.last().value.public_key != requester ==> r
                == Result::<(), Error>::Err(Error::AccessDenied),
    {
        let n = self.owners.len();
        if n == 0 {
            Err(Error::InvalidOwners)
        } else if self.owners.op_at(n - 1).value.public_key == requester {
            Ok(())
        } else {
            Err(Error::AccessDenied)
        }
    }
}

impl<P> SequenceCrdt<P> {
    /// The entries between `start` (inclusive) and `end` (exclusive),
    /// copied out; empty when the bounds cross, `None` when either lies
    /// outside the data history.
    pub fn in_range(&self, start: Index, end: Index) -> (r: Option<Entries>)
        ensures
            match r {
                Some(es) => {
                    &&& spec_absolute_index(start, self.data@.len()) matches Some(s)
                    &&& spec_absolute_index(end, self.data@.len()) matches Some(e)
                    &&& {
                        let s = spec_absolute_index(start, self.data@.len()).unwrap();
                        let e = spec_absolute_index(end, self.data@.len()).unwrap();
                        &&& es@.len() == if s <= e {
                            e - s
                        } else {
                            0
                        }
                        &&& forall|k: int|
                            0 <= k < es@.len() ==> (#[trigger] es@[k])@ == self.data@[s + k].value@
                    }
                },
                None => spec_absolute_index(start, self.data@.len()) is None
                    || spec_absolute_index(end, self.data@.len()) is None,
            },
    {
        let n = self.data.len();
        let s = match absolute_index(start, n) {
            Some(s) => s,
            None => {
                return None;
            },
        };
        let e = match absolute_index(end, n) {
            Some(e) => e,
            None => {
                return None;
            },
        };
        let mut es: Entries = Vec::new();
        let mut i: usize = s;
        while i < e
            invariant
                s <= i,
                e <= n,
                n == self.data@.len(),
                i <= if s <= e {
                    e as int
                } else {
                    s as int
                },
                es@.len() == i - s,
                forall|k: int| 0 <= k < es@.len() ==> (#[trigger] es@[k])@ == self.data@[s + k].value@,
            decreases e - i,
        {
            es.push(clone_entry(&self.data.op_at(i).value));
            i = i + 1;
        }
        Some(es)
    }

    /// The ownership snapshots between `start` (inclusive) and `end`
    /// (exclusive); empty when the bounds cross, `None` when either lies
    /// outside the owner history.
    pub fn owner_history_range(&self, start: Index, end: Index) -> (r: Option<Vec<Owner>>)
        ensures
            match r {
                Some(os) => {
                    &&& spec_absolute_index(start, self.owners@.len()) matches Some(s)
                    &&& spec_absolute_index(end, self.owners@.len()) matches Some(e)
                    &&& {
                        let s = spec_absolute_index(start, self.owners@.len()).unwrap();
                        let e = spec_absolute_index(end, self.owners@.len()).unwrap();
                        &&& os@.len() == if s <= e {
                            e - s
                        } else {
                            0
                        }
                        &&& forall|k: int|
                            0 <= k < os@.len() ==> #[trigger] os@[k] == self.owners@[s + k].value
                    }
                },
                None => spec_absolute_index(start, self.owners@.len()) is None
                    || spec_absolute_index(end, self.owners@.len()) is None,
            },
    {
        let n = self.owners.len();
        let s = match absolute_index(start, n) {
            Some(s) => s,
            None => {
                return None;
            },
        };
        let e = match absolute_index(end, n) {
            Some(e) => e,
            None => {
                return None;
            },
        };
        let mut os: Vec<Owner> = Vec::new();
        let mut i: usize = s;
        while i < e
            invariant
                s <= i,
                e <= n,
                n == self.owners@.len(),
                i <= if s <= e {
                    e as int
                } else {
                    s as int
                },
                os@.len() == i - s,
                forall|k: int| 0 <= k < os@.len() ==> #[trigger] os@[k] == self.owners@[s + k].value,
            decreases e - i,
        {
            os.push(self.owners.op_at(i).value);
            i = i + 1;
        }
        Some(os)
    }
}

/// A public data object's histories, with public-shape permission snapshots.
pub type PubSeqData = SequenceCrdt<PublicPermissions>;

/// A private data object's histories, with private-shape permission
/// snapshots.
pub type PrivSeqData = SequenceCrdt<PrivatePermissions>;

/// A replicated data object of either visibility kind: the composite of its
/// entry, permission and owner histories under one address.
#[derive(Clone)]
pub enum Data {
    /// A public object: readable by anyone.
    Public(PubSeqData),
    /// A private object: readable only per explicit grant.
    Private(PrivSeqData),
}

impl Data {
    /// The inner histories of a public object.
    pub open spec fn pub_inner(self) -> PubSeqData
        recommends
            self is Public,
    {
        self->Public_0
    }

    /// The inner histories of a private object.
    pub open spec fn priv_inner(self) -> PrivSeqData
        recommends
            self is Private,
    {
        self->Private_0
    }

    /// The object's address.
    pub open spec fn spec_address(self) -> Address {
        match self {
            Data::Public(d) => d.address,
            Data::Private(d) => d.address,
        }
    }

    /// The entry history, with its local actor and counter.
    pub open spec fn data_hist(self) -> History<Entry> {
        match self {
            Data::Public(d) => d.data,
            Data::Private(d) => d.data,
        }
    }

    /// The owner history, with its local actor and counter.
    pub open spec fn owners_hist(self) -> History<Owner> {
        match self {
            Data::Public(d) => d.owners,
            Data::Private(d) => d.owners,
        }
    }

    /// The log of merged entry operations.
    pub open spec fn data_log(self) -> Seq<Op<Entry>> {
        self.data_hist()@
    }

    /// The log of merged ownership operations.
    pub open spec fn owners_log(self) -> Seq<Op<Owner>> {
        self.owners_hist()@
    }

    /// The length of the permission history, whichever shape it has.
    pub open spec fn perms_len(self) -> nat {
        match self {
            Data::Public(d) => d.permissions@.len(),
            Data::Private(d) => d.permissions@.len(),
        }
    }

    /// The actor tagging local appends to the permission history, whichever
    /// shape it has.
    pub open spec fn perms_actor(self) -> PublicKey {
        match self {
            Data::Public(d) => d.permissions.spec_actor(),
            Data::Private(d) => d.permissions.spec_actor(),
        }
    }

    /// The counter the next local permission append will carry, whichever
    /// shape the history has.
    pub open spec fn perms_next_counter(self) -> u64 {
        match self {
            Data::Public(d) => d.permissions.spec_next_counter(),
            Data::Private(d) => d.permissions.spec_next_counter(),
        }
    }

    /// Well-formedness: the histories are well-formed and the address's
    /// visibility kind matches the variant.
    pub open spec fn wf(self) -> bool {
        match self {
            Data::Public(d) => d.wf() && d.address is Public,
            Data::Private(d) => d.wf() && d.address is Private,
        }
    }

    /// Whether the local actor still has a fresh counter for one more entry
    /// append: a machine limit, not a rule of the data model.
    pub open spec fn can_author_data(self) -> bool {
        self.data_hist().can_author()
    }

    /// As [`Data::can_author_data`], for the permission history.
    pub open spec fn can_author_permissions(self) -> bool {
        self.perms_next_counter() < u64::MAX
    }

    /// As [`Data::can_author_data`], for the owner history.
    pub open spec fn can_author_owners(self) -> bool {
        self.owners_hist().can_author()
    }

    /// The most recent ownership snapshot.
    pub open spec fn last_owner(self) -> Owner
        recommends
            self.owners_log().len() > 0,
    {
        self.owners_log().last().value
    }

    /// Whether the owner history is non-empty and its most recent snapshot
    /// names `requester`: such a requester bypasses permission checks
    /// entirely.
    pub open spec fn spec_is_last_owner(self, requester: PublicKey) -> bool {
        self.owners_log().len() > 0 && self.last_owner().public_key == requester
    }

    /// The decision of the permission evaluator for `requester` performing
    /// `request` against the most recent snapshots: owner bypass first; on
    /// public objects reads are always allowed; otherwise the latest
    /// permission snapshot decides, and with none present the request is
    /// denied.
    pub open spec fn spec_is_permitted(self, request: Request, requester: PublicKey) -> bool {
        if self.spec_is_last_owner(requester) {
            true
        } else {
            match self {
                Data::Public(d) => {
                    if request.is_read() {
                        true
                    } else if d.permissions@.len() == 0 {
                        false
                    } else {
                        d.permissions@.last().value.allows(requester, request)
                    }
                },
                Data::Private(d) => {
                    if d.permissions@.len() == 0 {
                        false
                    } else {
                        d.permissions@.last().value.allows(requester, request)
                    }
                },
            }
        }
    }

    /// Constructs a new, empty public object bound to `name` and `tag`,
    /// authored by `actor`.
    pub fn new_pub(actor: PublicKey, name: XorName, tag: u64) -> (r: Data)
        ensures
            r.wf(),
            r is Public,
            r.spec_address() == (Address::Public { name, tag }),
            r.data_log().len() == 0,
            r.owners_log().len() == 0,
            r.perms_len() == 0,
            r.data_hist().spec_actor() == actor,
            r.owners_hist().spec_actor() == actor,
            r.perms_actor() == actor,
            r.data_hist().spec_next_counter() == 0,
            r.owners_hist().spec_next_counter() == 0,
            r.perms_next_counter() == 0,
            r.can_author_data() && r.can_author_permissions() && r.can_author_owners(),
    {
        Data::Public(SequenceCrdt::new(actor, Address::Public { name, tag }))
    }

    /// Constructs a new, empty private object bound to `name` and `tag`,
    /// authored by `actor`.
    pub fn new_private(actor: PublicKey, name: XorName, tag: u64) -> (r: Data)
        ensures
            r.wf(),
            r is Private,
            r.spec_address() == (Address::Private { name, tag }),
            r.data_log().len() == 0,
            r.owners_log().len() == 0,
            r.perms_len() == 0,
            r.data_hist().spec_actor() == actor,
            r.owners_hist().spec_actor() == actor,
            r.perms_actor() == actor,
            r.data_hist().spec_next_counter() == 0,
            r.owners_hist().spec_next_counter() == 0,
            r.perms_next_counter() == 0,
            r.can_author_data() && r.can_author_permissions() && r.can_author_owners(),
    {
        Data::Private(SequenceCrdt::new(actor, Address::Private { name, tag }))
    }

    /// Returns the address.
    pub fn address(&self) -> (r: &Address)
        ensures
            *r == self.spec_address(),
    {
        match self {
            Data::Public(d) => d.address(),
            Data::Private(d) => d.address(),
        }
    }

    /// Returns the visibility kind.
    pub fn kind(&self) -> (r: Kind)
        ensures
            r == self.spec_address().kind(),
    {
        self.address().exec_kind()
    }

    /// Returns the name.
    pub fn name(&self) -> (r: &XorName)
        ensures
            *r == self.spec_address().spec_name(),
    {
        self.address().name()
    }

    /// Returns the tag.
    pub fn tag(&self) -> (r: u64)
        ensures
            r == self.spec_address().spec_tag(),
    {
        self.address().tag()
    }

    /// Whether the object is public.
    pub fn is_pub(&self) -> (r: bool)
        ensures
            r == (self is Public),
    {
        match self {
            Data::Public(_) => true,
            Data::Private(_) => false,
        }
    }

    /// Whether the object is private.
    pub fn is_private(&self) -> (r: bool)
        ensures
            r == (self is Private),
    {
        match self {
            Data::Public(_) => false,
            Data::Private(_) => true,
        }
    }

    /// The current data-history length.
    pub fn entries_index(&self) -> (r: u64)
        ensures
            r == self.data_log().len(),
    {
        match self {
            Data::Public(d) => d.entries_index(),
            Data::Private(d) => d.entries_index(),
        }
    }

    /// The current permission-history length.
    pub fn permissions_index(&self) -> (r: u64)
        ensures
            r == self.perms_len(),
    {
        match self {
            Data::Public(d) => d.permissions_index(),
            Data::Private(d) => d.permissions_index(),
        }
    }

    /// The current owner-history length.
    pub fn owners_index(&self) -> (r: u64)
        ensures
            r == self.owners_log().len(),
    {
        match self {
            Data::Public(d) => d.owners_index(),
            Data::Private(d) => d.owners_index(),
        }
    }

    /// The entry at `index`, if one stands there; `FromEnd(0)` is the most
    /// recent entry. An index outside the history yields `None`, never a
    /// crash.
    pub fn get(&self, index: Index) -> (r: Option<&Entry>)
        ensures
            match r {
                Some(e) => {
                    &&& spec_position_index(index, self.data_log().len()) matches Some(i)
                    &&& *e == self.data_log()[spec_position_index(
                        index,
                        self.data_log().len(),
                    ).unwrap()].value
                },
                None => spec_position_index(index, self.data_log().len()) is None,
            },
    {
        match self {
            Data::Public(d) => d.get(index),
            Data::Private(d) => d.get(index),
        }
    }

    /// The most recent entry, if any.
    pub fn last_entry(&self) -> (r: Option<&Entry>)
        ensures
            match r {
                Some(e) => self.data_log().len() > 0 && *e == self.data_log().last().value,
                None => self.data_log().len() == 0,
            },
    {
        match self {
            Data::Public(d) => d.last_entry(),
            Data::Private(d) => d.last_entry(),
        }
    }

    /// The ownership snapshot at `index`, if one stands there; `FromEnd(0)`
    /// is the most recent snapshot.
    pub fn owner(&self, owners_index: Index) -> (r: Option<&Owner>)
        ensures
            match r {
                Some(o) => {
                    &&& spec_position_index(owners_index, self.owners_log().len()) matches Some(i)
                    &&& *o == self.owners_log()[spec_position_index(
                        owners_index,
                        self.owners_log().len(),
                    ).unwrap()].value
                },
                None => spec_position_index(owners_index, self.owners_log().len()) is None,
            },
    {
        match self {
            Data::Public(d) => d.owner(owners_index),
            Data::Private(d) => d.owner(owners_index),
        }
    }

    /// Checks that `requester` is the current owner.
    pub fn check_is_last_owner(&self, requester: PublicKey) -> (r: Result<(), Error>)
        ensures
            r is Ok <==> self.spec_is_last_owner(requester),
            self.owners_log().len() == 0 ==> r == Result::<(), Error>::Err(Error::InvalidOwners),
            self.owners_log().len() > 0 && self.last_owner().public_key != requester ==> r
                == Result::<(), Error>::Err(Error::AccessDenied),
    {
        match self {
            Data::Public(d) => d.check_is_last_owner(requester),
            Data::Private(d) => d.check_is_last_owner(requester),
        }
    }

    /// Appends a new entry and returns the operation to broadcast.
    pub fn append(&mut self, entry: Entry) -> (r: WriteOp<Entry>)
        requires
            old(self).wf(),
            old(self).can_author_data(),
        ensures
            final(self).wf(),
            (*final(self)) is Public <==> (*old(self)) is Public,
            final(self).spec_address() == old(self).spec_address(),
            final(self).data_log().len() == old(self).data_log().len() + 1,
            final(self).owners_log() == old(self).owners_log(),
            final(self).perms_len() == old(self).perms_len(),
            r.address == old(self).spec_address(),
            r.crdt_op.position == old(self).data_log().len(),
            r.crdt_op.value@ == entry@,
            final(self).data_log() == merged(old(self).data_log(), old(self).authored_entry(entry)),
            r.crdt_op.actor == old(self).authored_entry(entry).actor,
            r.crdt_op.counter == old(self).authored_entry(entry).counter,
            final(self).owners_hist() == old(self).owners_hist(),
            (*old(self)) is Public ==> final(self).pub_inner().permissions == old(
                self,
            ).pub_inner().permissions,
            (*old(self)) is Private ==> final(self).priv_inner().permissions == old(
                self,
            ).priv_inner().permissions,
            final(self).data_hist().spec_actor() == old(self).data_hist().spec_actor(),
            final(self).data_hist().spec_next_counter() == old(
                self,
            ).data_hist().spec_next_counter() + 1,
            positions_bounded(old(self).data_log()) ==> final(self).data_log() == old(
                self,
            ).data_log().push(old(self).authored_entry(entry)) && positions_bounded(
                final(self).data_log(),
            ),
    {
        let address = *self.address();
        let crdt_op = match self {
            Data::Public(d) => d.append(entry),
            Data::Private(d) => d.append(entry),
        };
        WriteOp { address, crdt_op }
    }

    /// The entry operation this object would author next for `entry`.
    pub open spec fn authored_entry(self, entry: Entry) -> Op<Entry> {
        match self {
            Data::Public(d) => d.data.authored(entry),
            Data::Private(d) => d.data.authored(entry),
        }
    }

    /// Merges a remote entry operation. Total: duplicates are absorbed and
    /// no error is ever surfaced.
    pub fn apply_crdt_op(&mut self, op: Op<Entry>)
        requires
            old(self).wf(),
        ensures
            final(self).wf(),
            (*final(self)) is Public <==> (*old(self)) is Public,
            final(self).spec_address() == old(self).spec_address(),
            final(self).data_log() == merged(old(self).data_log(), op),
            final(self).owners_hist() == old(self).owners_hist(),
            (*old(self)) is Public ==> final(self).pub_inner().permissions == old(
                self,
            ).pub_inner().permissions,
            (*old(self)) is Private ==> final(self).priv_inner().permissions == old(
                self,
            ).priv_inner().permissions,
            final(self).data_hist().spec_actor() == old(self).data_hist().spec_actor(),
            final(self).data_hist().spec_next_counter() == if op.actor == old(
                self,
            ).data_hist().spec_actor() && op.counter >= old(self).data_hist().spec_next_counter() {
                if op.counter == u64::MAX {
                    u64::MAX
                } else {
                    (op.counter + 1) as u64
                }
            } else {
                old(self).data_hist().spec_next_counter()
            },
            positions_bounded(old(self).data_log()) && op.position <= old(self).data_log().len()
                ==> positions_bounded(final(self).data_log()),
    {
        match self {
            Data::Public(d) => d.apply_crdt_op(op),
            Data::Private(d) => d.apply_crdt_op(op),
        }
    }

    /// Adds a new owner entry: the snapshot records the entry and permission
    /// versions the change was authored against, and the operation to
    /// broadcast is returned.
    pub fn set_owner(&mut self, owner: PublicKey) -> (r: WriteOp<Owner>)
        requires
            old(self).wf(),
            old(self).can_author_owners(),
        ensures
            final(self).wf(),
            (*final(self)) is Public <==> (*old(self)) is Public,
            final(self).spec_address() == old(self).spec_address(),
            final(self).owners_log().len() == old(self).owners_log().len() + 1,
            final(self).data_log() == old(self).data_log(),
            final(self).perms_len() == old(self).perms_len(),
            r.address == old(self).spec_address(),
            r.crdt_op.value == (Owner {
                public_key: owner,
                expected_data_index: old(self).data_log().len() as u64,
                expected_permissions_index: old(self).perms_len() as u64,
            }),
            final(self).owners_log() == merged(old(self).owners_log(), r.crdt_op),
            final(self).data_hist() == old(self).data_hist(),
            (*old(self)) is Public ==> final(self).pub_inner().permissions == old(
                self,
            ).pub_inner().permissions,
            (*old(self)) is Private ==> final(self).priv_inner().permissions == old(
                self,
            ).priv_inner().permissions,
            final(self).owners_hist().spec_actor() == old(self).owners_hist().spec_actor(),
            final(self).owners_hist().spec_next_counter() == old(
                self,
            ).owners_hist().spec_next_counter() + 1,
            positions_bounded(old(self).owners_log()) ==> final(self).owners_log() == old(
                self,
            ).owners_log().push(r.crdt_op) && positions_bounded(final(self).owners_log()),
    {
        let address = *self.address();
        let crdt_op = match self {
            Data::Public(d) => {
                let snapshot = Owner {
                    public_key: owner,
                    expected_data_index: d.entries_index(),
                    expected_permissions_index: d.permissions_index(),
                };
                d.append_owner(snapshot)
            },
            Data::Private(d) => {
                let snapshot = Owner {
                    public_key: owner,
                    expected_data_index: d.entries_index(),
                    expected_permissions_index: d.permissions_index(),
                };
                d.append_owner(snapshot)
            },
        };
        WriteOp { address, crdt_op }
    }

    /// Merges a remote ownership operation. Total: duplicates are absorbed
    /// and no error is ever surfaced.
    pub fn apply_crdt_owner_op(&mut self, op: Op<Owner>)
        requires
            old(self).wf(),
        ensures
            final(self).wf(),
            (*final(self)) is Public <==> (*old(self)) is Public,
            final(self).spec_address() == old(self).spec_address(),
            final(self).owners_log() == merged(old(self).owners_log(), op),
            final(self).data_hist() == old(self).data_hist(),
            (*old(self)) is Public ==> final(self).pub_inner().permissions == old(
                self,
            ).pub_inner().permissions,
            (*old(self)) is Private ==> final(self).priv_inner().permissions == old(
                self,
            ).priv_inner().permissions,
            final(self).owners_hist().spec_actor() == old(self).owners_hist().spec_actor(),
            final(self).owners_hist().spec_next_counter() == if op.actor == old(
                self,
            ).owners_hist().spec_actor() && op.counter >= old(
                self,
            ).owners_hist().spec_next_counter() {
                if op.counter == u64::MAX {
                    u64::MAX
                } else {
                    (op.counter + 1) as u64
                }
            } else {
                old(self).owners_hist().spec_next_counter()
            },
            positions_bounded(old(self).owners_log()) && op.position <= old(
                self,
            ).owners_log().len() ==> positions_bounded(final(self).owners_log()),
    {
        match self {
            Data::Public(d) => d.apply_crdt_owner_op(op),
            Data::Private(d) => d.apply_crdt_owner_op(op),
        }
    }

    /// The public permission snapshot this object would author over the
    /// given grants: it records the entry and owner versions current now.
    pub open spec fn pub_snapshot_with(self, permissions: PublicUserMap) -> PublicPermissions {
        PublicPermissions {
            permissions,
            expected_data_index: self.data_log().len() as u64,
            expected_owners_index: self.owners_log().len() as u64,
        }
    }

    /// The private permission snapshot this object would author over the
    /// given grants.
    pub open spec fn priv_snapshot_with(self, permissions: PrivateUserMap) -> PrivatePermissions {
        PrivatePermissions {
            permissions,
            expected_data_index: self.data_log().len() as u64,
            expected_owners_index: self.owners_log().len() as u64,
        }
    }

    /// Adds a new permissions entry for a public object: the snapshot is
    /// built against the current entry and owner versions and appended
    /// without a concurrency check. On a private object nothing changes.
    pub fn set_pub_permissions(&mut self, permissions: PublicUserMap) -> (r: Result<
        WriteOp<PublicPermissions>,
        Error,
    >)
        requires
            old(self).wf(),
            old(self).can_author_permissions(),
        ensures
            final(self).wf(),
            (*final(self)) is Public <==> (*old(self)) is Public,
            final(self).spec_address() == old(self).spec_address(),
            match r {
                Ok(w) => {
                    &&& (*old(self)) is Public
                    &&& final(self).pub_inner().permissions@ == insert_sorted(
                        old(self).pub_inner().permissions@,
                        old(self).pub_inner().permissions.authored(
                            old(self).pub_snapshot_with(permissions),
                        ),
                    )
                    &&& final(self).perms_len() == old(self).perms_len() + 1
                    &&& final(self).data_log() == old(self).data_log()
                    &&& final(self).owners_log() == old(self).owners_log()
                    &&& w.address == old(self).spec_address()
                    &&& w.crdt_op.actor == old(self).perms_actor()
                    &&& w.crdt_op.counter == old(self).perms_next_counter()
                    &&& w.crdt_op.position == old(self).perms_len()
                    &&& w.crdt_op.value.permissions.model() == permissions.model()
                    &&& w.crdt_op.value.expected_data_index == old(self).data_log().len()
                    &&& w.crdt_op.value.expected_owners_index == old(self).owners_log().len()
                    &&& final(self).data_hist() == old(self).data_hist()
                    &&& final(self).owners_hist() == old(self).owners_hist()
                    &&& final(self).perms_actor() == old(self).perms_actor()
                    &&& final(self).perms_next_counter() == old(self).perms_next_counter() + 1
                    &&& (positions_bounded(old(self).pub_inner().permissions@) ==> final(self).pub_inner().permissions@ == old(self).pub_inner().permissions@.push(
                        old(self).pub_inner().permissions.authored(
                            old(self).pub_snapshot_with(permissions),
                        ),
                    ) && positions_bounded(final(self).pub_inner().permissions@))
                },
                Err(e) => {
                    &&& e == Error::InvalidOperation
                    &&& (*old(self)) is Private
                    &&& *final(self) == *old(self)
                },
            },
    {
        let address = *self.address();
        match self {
            Data::Public(d) => {
                let snapshot = PublicPermissions {
                    permissions,
                    expected_data_index: d.entries_index(),
                    expected_owners_index: d.owners_index(),
                };
                let broadcast = snapshot.clone();
                let crdt_op = Op {
                    actor: *d.permissions.actor(),
                    counter: d.permissions.next_counter(),
                    position: d.permissions.len() as u64,
                    value: broadcast,
                };
                d.append_permissions(snapshot);
                Ok(WriteOp { address, crdt_op })
            },
            Data::Private(_) => Err(Error::InvalidOperation),
        }
    }

    /// Adds a new permissions entry for a private object: the snapshot is
    /// built against the current entry and owner versions and appended
    /// without a concurrency check. On a public object nothing changes.
    pub fn set_private_permissions(&mut self, permissions: PrivateUserMap) -> (r: Result<
        WriteOp<PrivatePermissions>,
        Error,
    >)
        requires
            old(self).wf(),
            old(self).can_author_permissions(),
        ensures
            final(self).wf(),
            (*final(self)) is Public <==> (*old(self)) is Public,
            final(self).spec_address() == old(self).spec_address(),
            match r {
                Ok(w) => {
                    &&& (*old(self)) is Private
                    &&& final(self).priv_inner().permissions@ == insert_sorted(
                        old(self).priv_inner().permissions@,
                        old(self).priv_inner().permissions.authored(
                            old(self).priv_snapshot_with(permissions),
                        ),
                    )
                    &&& final(self).perms_len() == old(self).perms_len() + 1
                    &&& final(self).data_log() == old(self).data_log()
                    &&& final(self).owners_log() == old(self).owners_log()
                    &&& w.address == old(self).spec_address()
                    &&& w.crdt_op.actor == old(self).perms_actor()
                    &&& w.crdt_op.counter == old(self).perms_next_counter()
                    &&& w.crdt_op.position == old(self).perms_len()
                    &&& w.crdt_op.value.permissions.model() == permissions.model()
                    &&& w.crdt_op.value.expected_data_index == old(self).data_log().len()
                    &&& w.crdt_op.value.expected_owners_index == old(self).owners_log().len()
                    &&& final(self).data_hist() == old(self).data_hist()
                    &&& final(self).owners_hist() == old(self).owners_hist()
                    &&& final(self).perms_actor() == old(self).perms_actor()
                    &&& final(self).perms_next_counter() == old(self).perms_next_counter() + 1
                    &&& (positions_bounded(old(self).priv_inner().permissions@) ==> final(self).priv_inner().permissions@ == old(self).priv_inner().permissions@.push(
                        old(self).priv_inner().permissions.authored(
                            old(self).priv_snapshot_with(permissions),
                        ),
                    ) && positions_bounded(final(self).priv_inner().permissions@))
                },
                Err(e) => {
                    &&& e == Error::InvalidOperation
                    &&& (*old(self)) is Public
                    &&& *final(self) == *old(self)
                },
            },
    {
        let address = *self.address();
        match self {
            Data::Private(d) => {
                let snapshot = PrivatePermissions {
                    permissions,
                    expected_data_index: d.entries_index(),
                    expected_owners_index: d.owners_index(),
                };
                let broadcast = snapshot.clone();
                let crdt_op = Op {
                    actor: *d.permissions.actor(),
                    counter: d.permissions.next_counter(),
                    position: d.permissions.len() as u64,
                    value: broadcast,
                };
                d.append_permissions(snapshot);
                Ok(WriteOp { address, crdt_op })
            },
            Data::Public(_) => Err(Error::InvalidOperation),
        }
    }

    /// Merges a remote public-permissions operation; applying one to a
    /// private object is a structural mismatch and changes nothing.
    pub fn apply_crdt_pub_perms_op(&mut self, op: Op<PublicPermissions>) -> (r: Result<(), Error>)
        requires
            old(self).wf(),
        ensures
            final(self).wf(),
            (*final(self)) is Public <==> (*old(self)) is Public,
            final(self).spec_address() == old(self).spec_address(),
            match r {
                Ok(()) => {
                    &&& (*old(self)) is Public
                    &&& final(self).pub_inner().permissions@ == merged(
                        old(self).pub_inner().permissions@,
                        op,
                    )
                    &&& final(self).data_hist() == old(self).data_hist()
                    &&& final(self).owners_hist() == old(self).owners_hist()
                    &&& final(self).perms_actor() == old(self).perms_actor()
                    &&& final(self).perms_next_counter() == if op.actor == old(
                        self,
                    ).perms_actor() && op.counter >= old(self).perms_next_counter() {
                        if op.counter == u64::MAX {
                            u64::MAX
                        } else {
                            (op.counter + 1) as u64
                        }
                    } else {
                        old(self).perms_next_counter()
                    }
                    &&& (positions_bounded(old(self).pub_inner().permissions@) && op.position
                        <= old(self).pub_inner().permissions@.len() ==> positions_bounded(
                        final(self).pub_inner().permissions@,
                    ))
                },
                Err(e) => {
                    &&& e == Error::InvalidOperation
                    &&& (*old(self)) is Private
                    &&& *final(self) == *old(self)
                },
            },
    {
        match self {
            Data::Public(d) => {
                d.apply_crdt_perms_op(op);
                Ok(())
            },
            Data::Private(_) => Err(Error::InvalidOperation),
        }
    }

    /// Merges a remote private-permissions operation; applying one to a
    /// public object is a structural mismatch and changes nothing.
    pub fn apply_crdt_private_perms_op(&mut self, op: Op<PrivatePermissions>) -> (r: Result<
        (),
        Error,
    >)
        requires
            old(self).wf(),
        ensures
            final(self).wf(),
            (*final(self)) is Public <==> (*old(self)) is Public,
            final(self).spec_address() == old(self).spec_address(),
            match r {
                Ok(()) => {
                    &&& (*old(self)) is Private
                    &&& final(self).priv_inner().permissions@ == merged(
                        old(self).priv_inner().permissions@,
                        op,
                    )
                    &&& final(self).data_hist() == old(self).data_hist()
                    &&& final(self).owners_hist() == old(self).owners_hist()
                    &&& final(self).perms_actor() == old(self).perms_actor()
                    &&& final(self).perms_next_counter() == if op.actor == old(
                        self,
                    ).perms_actor() && op.counter >= old(self).perms_next_counter() {
                        if op.counter == u64::MAX {
                            u64::MAX
                        } else {
                            (op.counter + 1) as u64
                        }
                    } else {
                        old(self).perms_next_counter()
                    }
                    &&& (positions_bounded(old(self).priv_inner().permissions@) && op.position
                        <= old(self).priv_inner().permissions@.len() ==> positions_bounded(
                        final(self).priv_inner().permissions@,
                    ))
                },
                Err(e) => {
                    &&& e == Error::InvalidOperation
                    &&& (*old(self)) is Public
                    &&& *final(self) == *old(self)
                },
            },
    {
        match self {
            Data::Private(d) => {
                d.apply_crdt_perms_op(op);
                Ok(())
            },
            Data::Public(_) => Err(Error::InvalidOperation),
        }
    }

    /// Whether a permission snapshot's declared expectations match the
    /// current versions: what the concurrency guard checks before a local
    /// permission append.
    pub open spec fn perms_guard_ok(
        self,
        expected_data_index: u64,
        expected_owners_index: u64,
        expected_index: u64,
    ) -> bool {
        &&& expected_data_index == self.data_log().len()
        &&& expected_owners_index == self.owners_log().len()
        &&& expected_index == self.perms_len()
    }

    /// Whether an ownership snapshot's declared expectations match the
    /// current versions: what the concurrency guard checks before a local
    /// owner append.
    pub open spec fn owner_guard_ok(self, owner: Owner, expected_index: u64) -> bool {
        &&& owner.expected_data_index == self.data_log().len()
        &&& expected_index == self.owners_log().len()
    }

    /// Concurrency-guarded append of a caller-built public permission
    /// snapshot: the snapshot's expected indices and the caller's expected
    /// permission index must all equal the current history lengths, or the
    /// append is rejected and the object is left unchanged.
    pub fn append_pub_permissions(
        &mut self,
        permissions: PublicPermissions,
        expected_index: u64,
    ) -> (r: Result<WriteOp<PublicPermissions>, Error>)
        requires
            old(self).wf(),
            old(self).can_author_permissions(),
        ensures
            final(self).wf(),
            (*final(self)) is Public <==> (*old(self)) is Public,
            final(self).spec_address() == old(self).spec_address(),
            match r {
                Ok(w) => {
                    &&& (*old(self)) is Public
                    &&& old(self).perms_guard_ok(
                        permissions.expected_data_index,
                        permissions.expected_owners_index,
                        expected_index,
                    )
                    &&& final(self).pub_inner().permissions@ == insert_sorted(
                        old(self).pub_inner().permissions@,
                        old(self).pub_inner().permissions.authored(permissions),
                    )
                    &&& final(self).perms_len() == old(self).perms_len() + 1
                    &&& final(self).data_log() == old(self).data_log()
                    &&& final(self).owners_log() == old(self).owners_log()
                    &&& w.address == old(self).spec_address()
                    &&& w.crdt_op.actor == old(self).perms_actor()
                    &&& w.crdt_op.counter == old(self).perms_next_counter()
                    &&& w.crdt_op.position == old(self).perms_len()
                    &&& w.crdt_op.value.permissions.model() == permissions.permissions.model()
                    &&& w.crdt_op.value.expected_data_index == permissions.expected_data_index
                    &&& w.crdt_op.value.expected_owners_index == permissions.expected_owners_index
                    &&& final(self).data_hist() == old(self).data_hist()
                    &&& final(self).owners_hist() == old(self).owners_hist()
                    &&& final(self).perms_actor() == old(self).perms_actor()
                    &&& final(self).perms_next_counter() == old(self).perms_next_counter() + 1
                    &&& (positions_bounded(old(self).pub_inner().permissions@) ==> final(self).pub_inner().permissions@ == old(self).pub_inner().permissions@.push(
                        old(self).pub_inner().permissions.authored(permissions),
                    ) && positions_bounded(final(self).pub_inner().permissions@))
                },
                Err(e) => {
                    &&& *final(self) == *old(self)
                    &&& (e == Error::InvalidOperation && (*old(self)) is Private) || (e
                        == Error::InvalidExpectedIndex && (*old(self)) is Public && !old(
                        self,
                    ).perms_guard_ok(
                        permissions.expected_data_index,
                        permissions.expected_owners_index,
                        expected_index,
                    ))
                },
            },
    {
        let address = *self.address();
        match self {
            Data::Public(d) => {
                if permissions.expected_data_index == d.entries_index()
                    && permissions.expected_owners_index == d.owners_index() && expected_index
                    == d.permissions_index() {
                    let broadcast = permissions.clone();
                    let crdt_op = Op {
                        actor: *d.permissions.actor(),
                        counter: d.permissions.next_counter(),
                        position: d.permissions.len() as u64,
                        value: broadcast,
                    };
                    d.append_permissions(permissions);
                    Ok(WriteOp { address, crdt_op })
                } else {
                    Err(Error::InvalidExpectedIndex)
                }
            },
            Data::Private(_) => Err(Error::InvalidOperation),
        }
    }

    /// Concurrency-guarded append of a caller-built private permission
    /// snapshot; see [`Data::append_pub_permissions`].
    pub fn append_private_permissions(
        &mut self,
        permissions: PrivatePermissions,
        expected_index: u64,
    ) -> (r: Result<WriteOp<PrivatePermissions>, Error>)
        requires
            old(self).wf(),
            old(self).can_author_permissions(),
        ensures
            final(self).wf(),
            (*final(self)) is Public <==> (*old(self)) is Public,
            final(self).spec_address() == old(self).spec_address(),
            match r {
                Ok(w) => {
                    &&& (*old(self)) is Private
                    &&& old(self).perms_guard_ok(
                        permissions.expected_data_index,
                        permissions.expected_owners_index,
                        expected_index,
                    )
                    &&& final(self).priv_inner().permissions@ == insert_sorted(
                        old(self).priv_inner().permissions@,
                        old(self).priv_inner().permissions.authored(permissions),
                    )
                    &&& final(self).perms_len() == old(self).perms_len() + 1
                    &&& final(self).data_log() == old(self).data_log()
                    &&& final(self).owners_log() == old(self).owners_log()
                    &&& w.address == old(self).spec_address()
                    &&& w.crdt_op.actor == old(self).perms_actor()
                    &&& w.crdt_op.counter == old(self).perms_next_counter()
                    &&& w.crdt_op.position == old(self).perms_len()
                    &&& w.crdt_op.value.permissions.model() == permissions.permissions.model()
                    &&& w.crdt_op.value.expected_data_index == permissions.expected_data_index
                    &&& w.crdt_op.value.expected_owners_index == permissions.expected_owners_index
                    &&& final(self).data_hist() == old(self).data_hist()
                    &&& final(self).owners_hist() == old(self).owners_hist()
                    &&& final(self).perms_actor() == old(self).perms_actor()
                    &&& final(self).perms_next_counter() == old(self).perms_next_counter() + 1
                    &&& (positions_bounded(old(self).priv_inner().permissions@) ==> final(self).priv_inner().permissions@ == old(self).priv_inner().permissions@.push(
                        old(self).priv_inner().permissions.authored(permissions),
                    ) && positions_bounded(final(self).priv_inner().permissions@))
                },
                Err(e) => {
                    &&& *final(self) == *old(self)
                    &&& (e == Error::InvalidOperation && (*old(self)) is Public) || (e
                        == Error::InvalidExpectedIndex && (*old(self)) is Private && !old(
                        self,
                    ).perms_guard_ok(
                        permissions.expected_data_index,
                        permissions.expected_owners_index,
                        expected_index,
                    ))
                },
            },
    {
        let address = *self.address();
        match self {
            Data::Private(d) => {
                if permissions.expected_data_index == d.entries_index()
                    && permissions.expected_owners_index == d.owners_index() && expected_index
                    == d.permissions_index() {
                    let broadcast = permissions.clone();
                    let crdt_op = Op {
                        actor: *d.permissions.actor(),
                        counter: d.permissions.next_counter(),
                        position: d.permissions.len() as u64,
                        value: broadcast,
                    };
                    d.append_permissions(permissions);
                    Ok(WriteOp { address, crdt_op })
                } else {
                    Err(Error::InvalidExpectedIndex)
                }
            },
            Data::Public(_) => Err(Error::InvalidOperation),
        }
    }

    /// Concurrency-guarded append of a caller-built ownership snapshot: the
    /// snapshot's expected data index and the caller's expected owner index
    /// must equal the current history lengths, or the append is rejected
    /// and the object is left unchanged.
    ///
    /// The snapshot's expected permission index is deliberately not
    /// validated: it is recorded for audit, and a new owner may be
    /// installed whatever the permission history did since the change was
    /// authored. Only permission appends guard against a moved owner
    /// history, not the other way round.
    pub fn append_owner(&mut self, owner: Owner, expected_index: u64) -> (r: Result<
        WriteOp<Owner>,
        Error,
    >)
        requires
            old(self).wf(),
            old(self).can_author_owners(),
        ensures
            final(self).wf(),
            (*final(self)) is Public <==> (*old(self)) is Public,
            final(self).spec_address() == old(self).spec_address(),
            match r {
                Ok(w) => {
                    &&& old(self).owner_guard_ok(owner, expected_index)
                    &&& w.crdt_op == old(self).owners_hist().authored(owner)
                    &&& w.address == old(self).spec_address()
                    &&& final(self).owners_log() == insert_sorted(
                        old(self).owners_log(),
                        w.crdt_op,
                    )
                    &&& final(self).owners_log().len() == old(self).owners_log().len() + 1
                    &&& final(self).data_hist() == old(self).data_hist()
                    &&& ((*old(self)) is Public ==> final(self).pub_inner().permissions == old(
                        self,
                    ).pub_inner().permissions)
                    &&& ((*old(self)) is Private ==> final(self).priv_inner().permissions == old(
                        self,
                    ).priv_inner().permissions)
                    &&& final(self).owners_hist().spec_actor() == old(
                        self,
                    ).owners_hist().spec_actor()
                    &&& final(self).owners_hist().spec_next_counter() == old(
                        self,
                    ).owners_hist().spec_next_counter() + 1
                    &&& (positions_bounded(old(self).owners_log()) ==> final(self).owners_log()
                        == old(self).owners_log().push(w.crdt_op) && positions_bounded(
                        final(self).owners_log(),
                    ))
                },
                Err(e) => {
                    &&& e == Error::InvalidExpectedIndex
                    &&& !old(self).owner_guard_ok(owner, expected_index)
                    &&& *final(self) == *old(self)
                },
            },
    {
        let address = *self.address();
        match self {
            Data::Public(d) => {
                if owner.expected_data_index == d.entries_index() && expected_index
                    == d.owners_index() {
                    let crdt_op = d.append_owner(owner);
                    Ok(WriteOp { address, crdt_op })
                } else {
                    Err(Error::InvalidExpectedIndex)
                }
            },
            Data::Private(d) => {
                if owner.expected_data_index == d.entries_index() && expected_index
                    == d.owners_index() {
                    let crdt_op = d.append_owner(owner);
                    Ok(WriteOp { address, crdt_op })
                } else {
                    Err(Error::InvalidExpectedIndex)
                }
            },
        }
    }
}

impl Data {
    /// The public permission snapshot at `index`. Fails with a no-such-data
    /// condition on a private object, whose snapshots have the other shape,
    /// and with a no-such-entry condition outside the history.
    pub fn pub_permissions(&self, index: Index) -> (r: Result<&PublicPermissions, Error>)
        ensures
            match r {
                Ok(p) => {
                    &&& (*self) is Public
                    &&& spec_position_index(index, self.perms_len()) matches Some(i)
                    &&& *p == self.pub_inner().permissions@[spec_position_index(
                        index,
                        self.perms_len(),
                    ).unwrap()].value
                },
                Err(e) => (e == Error::NoSuchData && (*self) is Private) || (e
                    == Error::NoSuchEntry && (*self) is Public && spec_position_index(
                    index,
                    self.perms_len(),
                ) is None),
            },
    {
        match self {
            Data::Public(d) => match d.permissions(index) {
                Some(p) => Ok(p),
                None => Err(Error::NoSuchEntry),
            },
            Data::Private(_) => Err(Error::NoSuchData),
        }
    }

    /// The private permission snapshot at `index`; the mirror of
    /// [`Data::pub_permissions`].
    pub fn private_permissions(&self, index: Index) -> (r: Result<&PrivatePermissions, Error>)
        ensures
            match r {
                Ok(p) => {
                    &&& (*self) is Private
                    &&& spec_position_index(index, self.perms_len()) matches Some(i)
                    &&& *p == self.priv_inner().permissions@[spec_position_index(
                        index,
                        self.perms_len(),
                    ).unwrap()].value
                },
                Err(e) => (e == Error::NoSuchData && (*self) is Public) || (e
                    == Error::NoSuchEntry && (*self) is Private && spec_position_index(
                    index,
                    self.perms_len(),
                ) is None),
            },
    {
        match self {
            Data::Private(d) => match d.permissions(index) {
                Some(p) => Ok(p),
                None => Err(Error::NoSuchEntry),
            },
            Data::Public(_) => Err(Error::NoSuchData),
        }
    }

    /// Whether the snapshot at `index` lists an effective grant set for
    /// `user`: on a private object only a concrete identity can be listed.
    pub open spec fn spec_user_perms_found(self, user: User, index: Index) -> bool {
        match spec_position_index(index, self.perms_len()) {
            Some(i) => match self {
                Data::Public(d) => assoc_get(
                    d.permissions@[i].value.permissions@,
                    user,
                ) is Some,
                Data::Private(d) => match user {
                    User::Specific(pk) => assoc_get(
                        d.permissions@[i].value.permissions@,
                        pk,
                    ) is Some,
                    User::Anyone => false,
                },
            },
            None => false,
        }
    }

    /// One user's effective grant set at the snapshot at `index`. A missing
    /// snapshot and an unlisted user both fail with a no-such-entry
    /// condition — being unlisted is not the same as being denied.
    pub fn user_permissions(&self, user: User, index: Index) -> (r: Result<UserPermissions, Error>)
        ensures
            r is Ok <==> self.spec_user_perms_found(user, index),
            match r {
                Ok(up) => match up {
                    UserPermissions::Public(s) => (*self) is Public && s@ == assoc_get(
                        self.pub_inner().permissions@[spec_position_index(
                            index,
                            self.perms_len(),
                        ).unwrap()].value.permissions@,
                        user,
                    ).unwrap()@,
                    UserPermissions::Priv(s) => (*self) is Private && s@ == assoc_get(
                        self.priv_inner().permissions@[spec_position_index(
                            index,
                            self.perms_len(),
                        ).unwrap()].value.permissions@,
                        user->Specific_0,
                    ).unwrap()@,
                },
                Err(e) => e == Error::NoSuchEntry,
            },
    {
        match self {
            Data::Public(d) => match d.permissions(index) {
                Some(p) => match p.permissions.get(&user) {
                    Some(set) => Ok(UserPermissions::Public(set.clone())),
                    None => Err(Error::NoSuchEntry),
                },
                None => Err(Error::NoSuchEntry),
            },
            Data::Private(d) => match d.permissions(index) {
                Some(p) => match user {
                    User::Specific(pk) => match p.permissions.get(&pk) {
                        Some(set) => Ok(UserPermissions::Priv(set.clone())),
                        None => Err(Error::NoSuchEntry),
                    },
                    User::Anyone => Err(Error::NoSuchEntry),
                },
                None => Err(Error::NoSuchEntry),
            },
        }
    }

    /// One user's grant set at a public snapshot. Fails with a no-such-data
    /// condition on a private object, and with a no-such-entry condition for
    /// a missing snapshot or an unlisted user.
    pub fn pub_user_permissions(&self, user: User, index: Index) -> (r: Result<
        PublicPermissionSet,
        Error,
    >)
        ensures
            match r {
                Ok(s) => {
                    &&& (*self) is Public
                    &&& self.spec_user_perms_found(user, index)
                    &&& s@ == assoc_get(
                        self.pub_inner().permissions@[spec_position_index(
                            index,
                            self.perms_len(),
                        ).unwrap()].value.permissions@,
                        user,
                    ).unwrap()@
                },
                Err(e) => (e == Error::NoSuchData && (*self) is Private) || (e
                    == Error::NoSuchEntry && (*self) is Public && !self.spec_user_perms_found(
                    user,
                    index,
                )),
            },
    {
        match self {
            Data::Public(d) => match d.permissions(index) {
                Some(p) => match p.permissions.get(&user) {
                    Some(set) => Ok(set.clone()),
                    None => Err(Error::NoSuchEntry),
                },
                None => Err(Error::NoSuchEntry),
            },
            Data::Private(_) => Err(Error::NoSuchData),
        }
    }

    /// One identity's grant set at a private snapshot; the mirror of
    /// [`Data::pub_user_permissions`].
    pub fn private_user_permissions(&self, user: PublicKey, index: Index) -> (r: Result<
        PrivatePermissionSet,
        Error,
    >)
        ensures
            match r {
                Ok(s) => {
                    &&& (*self) is Private
                    &&& self.spec_user_perms_found(User::Specific(user), index)
                    &&& s@ == assoc_get(
                        self.priv_inner().permissions@[spec_position_index(
                            index,
                            self.perms_len(),
                        ).unwrap()].value.permissions@,
                        user,
                    ).unwrap()@
                },
                Err(e) => (e == Error::NoSuchData && (*self) is Public) || (e
                    == Error::NoSuchEntry && (*self) is Private && !self.spec_user_perms_found(
                    User::Specific(user),
                    index,
                )),
            },
    {
        match self {
            Data::Private(d) => match d.permissions(index) {
                Some(p) => match p.permissions.get(&user) {
                    Some(set) => Ok(set.clone()),
                    None => Err(Error::NoSuchEntry),
                },
                None => Err(Error::NoSuchEntry),
            },
            Data::Public(_) => Err(Error::NoSuchData),
        }
    }

    /// Whether `requester` may perform `request`, judged against the most
    /// recent permission and owner snapshots.
    pub fn is_permitted(&self, request: Request, requester: PublicKey) -> (r: bool)
        ensures
            r == self.spec_is_permitted(request, requester),
    {
        let owner_ok = match self.check_is_last_owner(requester) {
            Ok(()) => true,
            Err(_) => false,
        };
        if owner_ok {
            return true;
        }
        match self {
            Data::Public(d) => {
                match request {
                    Request::Query(_) => true,
                    _ => {
                        let n = d.permissions.len();
                        if n == 0 {
                            false
                        } else {
                            d.permissions.op_at(n - 1).value.is_permitted(&requester, &request)
                        }
                    },
                }
            },
            Data::Private(d) => {
                let n = d.permissions.len();
                if n == 0 {
                    false
                } else {
                    d.permissions.op_at(n - 1).value.is_permitted(&requester, &request)
                }
            },
        }
    }

    /// Checks permissions for the given `request` by the provided
    /// `requester`: the owner bypasses the snapshots, public reads are
    /// always allowed, and everything else is judged against the most
    /// recent permission snapshot.
    pub fn check_permission(&self, request: Request, requester: PublicKey) -> (r: Result<
        (),
        Error,
    >)
        ensures
            r is Ok <==> self.spec_is_permitted(request, requester),
            r is Err ==> r == Result::<(), Error>::Err(Error::AccessDenied),
    {
        if self.is_permitted(request, requester) {
            Ok(())
        } else {
            Err(Error::AccessDenied)
        }
    }
}

/// Whether `a` is a faithful copy of the public-permission operation `b`:
/// the same causal tag and position, carrying a snapshot with the same
/// grants.
pub open spec fn mirrors_pub_op(a: Op<PublicPermissions>, b: Op<PublicPermissions>) -> bool {
    &&& a.actor == b.actor
    &&& a.counter == b.counter
    &&& a.position == b.position
    &&& a.value.same_grants(b.value)
}

/// Whether `a` is a faithful copy of the private-permission operation `b`.
pub open spec fn mirrors_priv_op(a: Op<PrivatePermissions>, b: Op<PrivatePermissions>) -> bool {
    &&& a.actor == b.actor
    &&& a.counter == b.counter
    &&& a.position == b.position
    &&& a.value.same_grants(b.value)
}

/// Copies the first `upto` operations of a public-permission log.
fn clone_pub_perm_ops(src: &Vec<Op<PublicPermissions>>, upto: usize) -> (r: Vec<
    Op<PublicPermissions>,
>)
    requires
        upto <= src@.len(),
    ensures
        r@.len() == upto,
        forall|i: int| 0 <= i < upto ==> mirrors_pub_op(#[trigger] r@[i], src@[i]),
{
    let mut r: Vec<Op<PublicPermissions>> = Vec::new();
    let mut i: usize = 0;
    while i < upto
        invariant
            upto <= src@.len(),
            i <= upto,
            r@.len() == i,
            forall|k: int| 0 <= k < i ==> mirrors_pub_op(#[trigger] r@[k], src@[k]),
        decreases upto - i,
    {
        let o = &src[i];
        r.push(Op { actor: o.actor, counter: o.counter, position: o.position, value: o.value.clone() });
        i = i + 1;
    }
    r
}

/// Copies the first `upto` operations of a private-permission log.
fn clone_priv_perm_ops(src: &Vec<Op<PrivatePermissions>>, upto: usize) -> (r: Vec<
    Op<PrivatePermissions>,
>)
    requires
        upto <= src@.len(),
    ensures
        r@.len() == upto,
        forall|i: int| 0 <= i < upto ==> mirrors_priv_op(#[trigger] r@[i], src@[i]),
{
    let mut r: Vec<Op<PrivatePermissions>> = Vec::new();
    let mut i: usize = 0;
    while i < upto
        invariant
            upto <= src@.len(),
            i <= upto,
            r@.len() == i,
            forall|k: int| 0 <= k < i ==> mirrors_priv_op(#[trigger] r@[k], src@[k]),
        decreases upto - i,
    {
        let o = &src[i];
        r.push(Op { actor: o.actor, counter: o.counter, position: o.position, value: o.value.clone() });
        i = i + 1;
    }
    r
}

/// Copies an ownership-operation log exactly.
fn copy_owner_ops(src: &Vec<Op<Owner>>) -> (r: Vec<Op<Owner>>)
    ensures
        r@ == src@,
{
    let n = src.len();
    let mut r: Vec<Op<Owner>> = Vec::new();
    let mut i: usize = 0;
    while i < n
        invariant
            n == src@.len(),
            i <= n,
            r@ == src@.subrange(0, i as int),
        decreases n - i,
    {
        r.push(src[i]);
        proof {
            assert(r@ =~= src@.subrange(0, i + 1));
        }
        i = i + 1;
    }
    proof {
        assert(r@ =~= src@);
    }
    r
}

impl Data {
    /// The entries between `start` (inclusive) and `end` (exclusive),
    /// copied out; empty when the bounds cross, `None` when either lies
    /// outside the data history.
    pub fn in_range(&self, start: Index, end: Index) -> (r: Option<Entries>)
        ensures
            match r {
                Some(es) => {
                    &&& spec_absolute_index(start, self.data_log().len()) matches Some(s)
                    &&& spec_absolute_index(end, self.data_log().len()) matches Some(e)
                    &&& {
                        let s = spec_absolute_index(start, self.data_log().len()).unwrap();
                        let e = spec_absolute_index(end, self.data_log().len()).unwrap();
                        &&& es@.len() == if s <= e {
                            e - s
                        } else {
                            0
                        }
                        &&& forall|k: int|
                            0 <= k < es@.len() ==> (#[trigger] es@[k])@ == self.data_log()[s
                                + k].value@
                    }
                },
                None => spec_absolute_index(start, self.data_log().len()) is None
                    || spec_absolute_index(end, self.data_log().len()) is None,
            },
    {
        match self {
            Data::Public(d) => d.in_range(start, end),
            Data::Private(d) => d.in_range(start, end),
        }
    }

    /// The ownership snapshots between `start` (inclusive) and `end`
    /// (exclusive); `None` when either bound lies outside the owner
    /// history.
    pub fn owner_history_range(&self, start: Index, end: Index) -> (r: Option<Vec<Owner>>)
        ensures
            match r {
                Some(os) => {
                    &&& spec_absolute_index(start, self.owners_log().len()) matches Some(s)
                    &&& spec_absolute_index(end, self.owners_log().len()) matches Some(e)
                    &&& {
                        let s = spec_absolute_index(start, self.owners_log().len()).unwrap();
                        let e = spec_absolute_index(end, self.owners_log().len()).unwrap();
                        &&& os@.len() == if s <= e {
                            e - s
                        } else {
                            0
                        }
                        &&& forall|k: int|
                            0 <= k < os@.len() ==> #[trigger] os@[k] == self.owners_log()[s
                                + k].value
                    }
                },
                None => spec_absolute_index(start, self.owners_log().len()) is None
                    || spec_absolute_index(end, self.owners_log().len()) is None,
            },
    {
        match self {
            Data::Public(d) => d.owner_history_range(start, end),
            Data::Private(d) => d.owner_history_range(start, end),
        }
    }

    /// The public permission snapshots between `start` (inclusive) and
    /// `end` (exclusive), copied out. Fails with a no-such-data condition
    /// on a private object and a no-such-entry condition for bounds outside
    /// the history.
    pub fn pub_permission_history_range(&self, start: Index, end: Index) -> (r: Result<
        Vec<PublicPermissions>,
        Error,
    >)
        ensures
            match r {
                Ok(ps) => {
                    &&& (*self) is Public
                    &&& spec_absolute_index(start, self.perms_len()) matches Some(s)
                    &&& spec_absolute_index(end, self.perms_len()) matches Some(e)
                    &&& {
                        let s = spec_absolute_index(start, self.perms_len()).unwrap();
                        let e = spec_absolute_index(end, self.perms_len()).unwrap();
                        &&& ps@.len() == if s <= e {
                            e - s
                        } else {
                            0
                        }
                        &&& forall|k: int|
                            0 <= k < ps@.len() ==> (#[trigger] ps@[k]).same_grants(
                                self.pub_inner().permissions@[s + k].value,
                            )
                    }
                },
                Err(e) => (e == Error::NoSuchData && (*self) is Private) || (e
                    == Error::NoSuchEntry && (*self) is Public && (spec_absolute_index(
                    start,
                    self.perms_len(),
                ) is None || spec_absolute_index(end, self.perms_len()) is None)),
            },
    {
        match self {
            Data::Public(d) => {
                let n = d.permissions.len();
                let s = match absolute_index(start, n) {
                    Some(s) => s,
                    None => {
                        return Err(Error::NoSuchEntry);
                    },
                };
                let e = match absolute_index(end, n) {
                    Some(e) => e,
                    None => {
                        return Err(Error::NoSuchEntry);
                    },
                };
                let mut ps: Vec<PublicPermissions> = Vec::new();
                let mut i: usize = s;
                while i < e
                    invariant
                        s <= i,
                        e <= n,
                        n == d.permissions@.len(),
                        i <= if s <= e {
                            e as int
                        } else {
                            s as int
                        },
                        ps@.len() == i - s,
                        forall|k: int|
                            0 <= k < ps@.len() ==> (#[trigger] ps@[k]).same_grants(
                                d.permissions@[s + k].value,
                            ),
                    decreases e - i,
                {
                    ps.push(d.permissions.op_at(i).value.clone());
                    i = i + 1;
                }
                Ok(ps)
            },
            Data::Private(_) => Err(Error::NoSuchData),
        }
    }

    /// The private permission snapshots between `start` (inclusive) and
    /// `end` (exclusive); the mirror of
    /// [`Data::pub_permission_history_range`].
    pub fn private_permission_history_range(&self, start: Index, end: Index) -> (r: Result<
        Vec<PrivatePermissions>,
        Error,
    >)
        ensures
            match r {
                Ok(ps) => {
                    &&& (*self) is Private
                    &&& spec_absolute_index(start, self.perms_len()) matches Some(s)
                    &&& spec_absolute_index(end, self.perms_len()) matches Some(e)
                    &&& {
                        let s = spec_absolute_index(start, self.perms_len()).unwrap();
                        let e = spec_absolute_index(end, self.perms_len()).unwrap();
                        &&& ps@.len() == if s <= e {
                            e - s
                        } else {
                            0
                        }
                        &&& forall|k: int|
                            0 <= k < ps@.len() ==> (#[trigger] ps@[k]).same_grants(
                                self.priv_inner().permissions@[s + k].value,
                            )
                    }
                },
                Err(e) => (e == Error::NoSuchData && (*self) is Public) || (e
                    == Error::NoSuchEntry && (*self) is Private && (spec_absolute_index(
                    start,
                    self.perms_len(),
                ) is None || spec_absolute_index(end, self.perms_len()) is None)),
            },
    {
        match self {
            Data::Private(d) => {
                let n = d.permissions.len();
                let s = match absolute_index(start, n) {
                    Some(s) => s,
                    None => {
                        return Err(Error::NoSuchEntry);
                    },
                };
                let e = match absolute_index(end, n) {
                    Some(e) => e,
                    None => {
                        return Err(Error::NoSuchEntry);
                    },
                };
                let mut ps: Vec<PrivatePermissions> = Vec::new();
                let mut i: usize = s;
                while i < e
                    invariant
                        s <= i,
                        e <= n,
                        n == d.permissions@.len(),
                        i <= if s <= e {
                            e as int
                        } else {
                            s as int
                        },
                        ps@.len() == i - s,
                        forall|k: int|
                            0 <= k < ps@.len() ==> (#[trigger] ps@[k]).same_grants(
                                d.permissions@[s + k].value,
                            ),
                    decreases e - i,
                {
                    ps.push(d.permissions.op_at(i).value.clone());
                    i = i + 1;
                }
                Ok(ps)
            },
            Data::Public(_) => Err(Error::NoSuchData),
        }
    }

    /// A lightweight metadata snapshot: a copy of the object with the
    /// entries cleared and the permission history truncated at the given
    /// index, keeping the owner history and the derived current indices.
    /// Fails with a no-such-entry condition for an index outside the
    /// permission history.
    pub fn shell(&self, permissions_index: Index) -> (r: Result<Data, Error>)
        requires
            self.wf(),
        ensures
            match r {
                Ok(sh) => {
                    &&& spec_absolute_index(permissions_index, self.perms_len()) matches Some(cut)
                    &&& sh.wf()
                    &&& (sh is Public <==> (*self) is Public)
                    &&& sh.spec_address() == self.spec_address()
                    &&& sh.data_log().len() == 0
                    &&& sh.owners_log() == self.owners_log()
                    &&& sh.perms_len() == spec_absolute_index(
                        permissions_index,
                        self.perms_len(),
                    ).unwrap()
                    &&& ((*self) is Public ==> forall|i: int|
                        0 <= i < sh.perms_len() ==> mirrors_pub_op(
                            #[trigger] sh.pub_inner().permissions@[i],
                            self.pub_inner().permissions@[i],
                        ))
                    &&& ((*self) is Private ==> forall|i: int|
                        0 <= i < sh.perms_len() ==> mirrors_priv_op(
                            #[trigger] sh.priv_inner().permissions@[i],
                            self.priv_inner().permissions@[i],
                        ))
                },
                Err(e) => {
                    &&& e == Error::NoSuchEntry
                    &&& spec_absolute_index(permissions_index, self.perms_len()) is None
                },
            },
    {
        match self {
            Data::Public(d) => {
                let cut = match absolute_index(permissions_index, d.permissions.len()) {
                    Some(c) => c,
                    None => {
                        return Err(Error::NoSuchEntry);
                    },
                };
                let perm_ops = clone_pub_perm_ops(&d.permissions.ops, cut);
                let sh = SequenceCrdt::<PublicPermissions> {
                    address: d.address,
                    data: History {
                        actor: *d.data.actor(),
                        next_counter: d.data.next_counter(),
                        ops: Vec::new(),
                    },
                    permissions: History {
                        actor: *d.permissions.actor(),
                        next_counter: d.permissions.next_counter(),
                        ops: perm_ops,
                    },
                    owners: History {
                        actor: *d.owners.actor(),
                        next_counter: d.owners.next_counter(),
                        ops: copy_owner_ops(&d.owners.ops),
                    },
                };
                proof {
                    lemma_mirrored_prefix_wf_pub(sh.permissions, d.permissions, cut as int);
                }
                Ok(Data::Public(sh))
            },
            Data::Private(d) => {
                let cut = match absolute_index(permissions_index, d.permissions.len()) {
                    Some(c) => c,
                    None => {
                        return Err(Error::NoSuchEntry);
                    },
                };
                let perm_ops = clone_priv_perm_ops(&d.permissions.ops, cut);
                let sh = SequenceCrdt::<PrivatePermissions> {
                    address: d.address,
                    data: History {
                        actor: *d.data.actor(),
                        next_counter: d.data.next_counter(),
                        ops: Vec::new(),
                    },
                    permissions: History {
                        actor: *d.permissions.actor(),
                        next_counter: d.permissions.next_counter(),
                        ops: perm_ops,
                    },
                    owners: History {
                        actor: *d.owners.actor(),
                        next_counter: d.owners.next_counter(),
                        ops: copy_owner_ops(&d.owners.ops),
                    },
                };
                proof {
                    lemma_mirrored_prefix_wf_priv(sh.permissions, d.permissions, cut as int);
                }
                Ok(Data::Private(sh))
            },
        }
    }
}

/// A history whose log faithfully copies a prefix of a well-formed log, tag
/// for tag, under the same actor and counter, is itself well-formed.
proof fn lemma_mirrored_prefix_wf_pub(
    copy: History<PublicPermissions>,
    src: History<PublicPermissions>,
    cut: int,
)
    requires
        src.wf(),
        0 <= cut <= src@.len(),
        copy@.len() == cut,
        forall|i: int| 0 <= i < cut ==> mirrors_pub_op(#[trigger] copy@[i], src@[i]),
        copy.spec_actor() == src.spec_actor(),
        copy.spec_next_counter() == src.spec_next_counter(),
    ensures
        copy.wf(),
{
    assert forall|i: int, j: int| 0 <= i < j < copy@.len() implies #[trigger] key_lt(
        copy@[i],
        copy@[j],
    ) by {
        assert(mirrors_pub_op(copy@[i], src@[i]));
        assert(mirrors_pub_op(copy@[j], src@[j]));
        assert(key_lt(src@[i], src@[j]));
    }
    assert forall|i: int, j: int| 0 <= i < j < copy@.len() implies !same_id(
        #[trigger] copy@[i],
        #[trigger] copy@[j],
    ) by {
        assert(mirrors_pub_op(copy@[i], src@[i]));
        assert(mirrors_pub_op(copy@[j], src@[j]));
        assert(!same_id(src@[i], src@[j]));
    }
    assert forall|i: int|
        0 <= i < copy@.len() && (#[trigger] copy@[i]).actor == copy.spec_actor() implies copy@[i].counter
        < copy.spec_next_counter() || copy@[i].counter == u64::MAX by {
        assert(mirrors_pub_op(copy@[i], src@[i]));
        assert(src@[i].actor == src.spec_actor());
    }
}

/// As [`lemma_mirrored_prefix_wf_pub`], for private-permission logs.
proof fn lemma_mirrored_prefix_wf_priv(
    copy: History<PrivatePermissions>,
    src: History<PrivatePermissions>,
    cut: int,
)
    requires
        src.wf(),
        0 <= cut <= src@.len(),
        copy@.len() == cut,
        forall|i: int| 0 <= i < cut ==> mirrors_priv_op(#[trigger] copy@[i], src@[i]),
        copy.spec_actor() == src.spec_actor(),
        copy.spec_next_counter() == src.spec_next_counter(),
    ensures
        copy.wf(),
{
    assert forall|i: int, j: int| 0 <= i < j < copy@.len() implies #[trigger] key_lt(
        copy@[i],
        copy@[j],
    ) by {
        assert(mirrors_priv_op(copy@[i], src@[i]));
        assert(mirrors_priv_op(copy@[j], src@[j]));
        assert(key_lt(src@[i], src@[j]));
    }
    assert forall|i: int, j: int| 0 <= i < j < copy@.len() implies !same_id(
        #[trigger] copy@[i],
        #[trigger] copy@[j],
    ) by {
        assert(mirrors_priv_op(copy@[i], src@[i]));
        assert(mirrors_priv_op(copy@[j], src@[j]));
        assert(!same_id(src@[i], src@[j]));
    }
    assert forall|i: int|
        0 <= i < copy@.len() && (#[trigger] copy@[i]).actor == copy.spec_actor() implies copy@[i].counter
        < copy.spec_next_counter() || copy@[i].counter == u64::MAX by {
        assert(mirrors_priv_op(copy@[i], src@[i]));
        assert(src@[i].actor == src.spec_actor());
    }
}

/// Convergence at the object level: two well-formed replicas that have
/// merged the same sets of entry and ownership operations — in whatever
/// order they arrived — hold identical entry and owner histories, with
/// identical contents and lengths. The same holds of the permission
/// histories by [`crate::history::lemma_histories_converge`], which this
/// rests on.
pub proof fn lemma_replicas_converge(a: Data, b: Data)
    requires
        a.wf(),
        b.wf(),
        forall|x: Op<Entry>| a.data_log().contains(x) <==> b.data_log().contains(x),
        forall|x: Op<Owner>| a.owners_log().contains(x) <==> b.owners_log().contains(x),
    ensures
        a.data_log() == b.data_log(),
        a.owners_log() == b.owners_log(),
{
    crate::history::lemma_histories_converge(a.data_log(), b.data_log());
    crate::history::lemma_histories_converge(a.owners_log(), b.owners_log());
}

/// Owner bypass: whatever the permission snapshots deny, the current owner
/// is always permitted.
pub proof fn lemma_owner_bypass(d: Data, request: Request, owner: PublicKey)
    requires
        d.spec_is_last_owner(owner),
    ensures
        d.spec_is_permitted(request, owner),
{
}

/// Public-read invariant: on a public object every read-category operation
/// is permitted, for any identity, with or without permission and owner
/// snapshots.
pub proof fn lemma_public_read(d: Data, request: Request, requester: PublicKey)
    requires
        d is Public,
        request.is_read(),
    ensures
        d.spec_is_permitted(request, requester),
{
}

} // verus!




