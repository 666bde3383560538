//! Plain data shared by the histories and the permission model: identities,
//! addresses, indices into histories, and ownership snapshots.

use vstd::prelude::*;

verus! {

/// A network identity: the public signing key of an actor, reduced to the
/// 256 bits the data layer reads. Key management itself (signing, key
/// generation) is an external collaborator's concern; this layer only ever
/// compares identities and orders them to break merge ties.
#[derive(Clone, Copy, PartialEq, Eq, Structural, Debug, Hash)]
pub struct PublicKey {
    /// Most significant 64 bits of the key material.
    pub w0: u64,
    /// Second 64-bit word of the key material.
    pub w1: u64,
    /// Third 64-bit word of the key material.
    pub w2: u64,
    /// Least significant 64 bits of the key material.
    pub w3: u64,
}

impl PublicKey {
    /// Builds an identity from its four 64-bit words, most significant first.
    pub fn new(w0: u64, w1: u64, w2: u64, w3: u64) -> (r: PublicKey)
        ensures
            r == (PublicKey { w0, w1, w2, w3 }),
    {
        PublicKey { w0, w1, w2, w3 }
    }

    /// Whether `self` sorts strictly before `other`, comparing the four
    /// words lexicographically, most significant first. This is the
    /// deterministic tie-break order used when concurrent operations land at
    /// the same logical position.
    pub open spec fn spec_lt(self, other: PublicKey) -> bool {
        if self.w0 != other.w0 {
            self.w0 < other.w0
        } else if self.w1 != other.w1 {
            self.w1 < other.w1
        } else if self.w2 != other.w2 {
            self.w2 < other.w2
        } else {
            self.w3 < other.w3
        }
    }

    /// Compares two identities in the deterministic tie-break order.
    pub fn lt(&self, other: &PublicKey) -> (r: bool)
        ensures
            r == self.spec_lt(*other),
    {
        if self.w0 != other.w0 {
            self.w0 < other.w0
        } else if self.w1 != other.w1 {
            self.w1 < other.w1
        } else if self.w2 != other.w2 {
            self.w2 < other.w2
        } else {
            self.w3 < other.w3
        }
    }
}

/// A 256-bit name identifying a data object on the network.
#[derive(Clone, Copy, PartialEq, Eq, Debug, Hash)]
pub struct XorName(pub [u8; 32]);

/// The visibility kind of a data object: public objects are readable by
/// anyone, private objects only per explicit grant.
#[derive(Clone, Copy, PartialEq, Eq, Structural, Debug, Hash)]
pub enum Kind {
    /// Readable by anyone.
    Public,
    /// Readable only per explicit grant.
    Private,
}

impl Kind {
    /// Whether this is the public kind.
    pub fn is_pub(self) -> (r: bool)
        ensures
            r == (self == Kind::Public),
    {
        match self {
            Kind::Public => true,
            Kind::Private => false,
        }
    }

    /// Whether this is the private kind.
    pub fn is_private(self) -> (r: bool)
        ensures
            r == (self == Kind::Private),
    {
        match self {
            Kind::Public => false,
            Kind::Private => true,
        }
    }
}

/// The immutable address of a data object: its visibility kind, 256-bit name
/// and type tag.
#[derive(Clone, Copy, PartialEq, Eq, Debug, Hash)]
pub enum Address {
    /// The address of a public object.
    Public {
        /// The object's 256-bit name.
        name: XorName,
        /// The object's type tag.
        tag: u64,
    },
    /// The address of a private object.
    Private {
        /// The object's 256-bit name.
        name: XorName,
        /// The object's type tag.
        tag: u64,
    },
}

impl Address {
    /// Builds the address of the given kind.
    pub fn from_kind(kind: Kind, name: XorName, tag: u64) -> (r: Address)
        ensures
            r.kind() == kind,
            r.spec_name() == name,
            r.spec_tag() == tag,
    {
        match kind {
            Kind::Public => Address::Public { name, tag },
            Kind::Private => Address::Private { name, tag },
        }
    }

    /// The visibility kind this address carries.
    pub open spec fn kind(self) -> Kind {
        match self {
            Address::Public { .. } => Kind::Public,
            Address::Private { .. } => Kind::Private,
        }
    }

    /// The name this address carries.
    pub open spec fn spec_name(self) -> XorName {
        match self {
            Address::Public { name, .. } => name,
            Address::Private { name, .. } => name,
        }
    }

    /// The tag this address carries.
    pub open spec fn spec_tag(self) -> u64 {
        match self {
            Address::Public { tag, .. } => tag,
            Address::Private { tag, .. } => tag,
        }
    }

    /// Returns the visibility kind.
    pub fn exec_kind(&self) -> (r: Kind)
        ensures
            r == self.kind(),
    {
        match self {
            Address::Public { .. } => Kind::Public,
            Address::Private { .. } => Kind::Private,
        }
    }

    /// Returns the name.
    pub fn name(&self) -> (r: &XorName)
        ensures
            *r == self.spec_name(),
    {
        match self {
            Address::Public { name, .. } => name,
            Address::Private { name, .. } => name,
        }
    }

    /// Returns the tag.
    pub fn tag(&self) -> (r: u64)
        ensures
            r == self.spec_tag(),
    {
        match self {
            Address::Public { tag, .. } => *tag,
            Address::Private { tag, .. } => *tag,
        }
    }
}

/// An index into one of an object's histories, counted from the start or
/// back from the end. As the position of one element, `FromEnd(0)` denotes
/// the most recent element and `FromEnd(k)` the one `k` places before it; as
/// a range bound or truncation point, `FromEnd(0)` reaches through the most
/// recent element.
#[derive(Clone, Copy, PartialEq, Eq, Structural, Debug, Hash)]
pub enum Index {
    /// An absolute offset from the start of the history.
    FromStart(u64),
    /// An offset counted back from the end of the history.
    FromEnd(u64),
}

/// The element position that `index` denotes in a history of `len`
/// elements — `FromEnd(0)` is the most recent element — or `None` if no
/// element stands there.
pub open spec fn spec_position_index(index: Index, len: nat) -> Option<int> {
    match index {
        Index::FromStart(i) => if i < len {
            Some(i as int)
        } else {
            None
        },
        Index::FromEnd(i) => if i < len {
            Some(len - 1 - i)
        } else {
            None
        },
    }
}

/// Resolves `index` to the position of one element of a history of `len`
/// elements.
pub fn position_index(index: Index, len: usize) -> (r: Option<usize>)
    ensures
        match r {
            Some(i) => spec_position_index(index, len as nat) == Some(i as int),
            None => spec_position_index(index, len as nat) is None,
        },
{
    match index {
        Index::FromStart(i) => {
            if i < len as u64 {
                Some(i as usize)
            } else {
                None
            }
        },
        Index::FromEnd(i) => {
            if i < len as u64 {
                Some(len - 1 - i as usize)
            } else {
                None
            }
        },
    }
}

/// The cut point that `index` denotes in a history of `len` elements — a
/// range bound or truncation point, where `FromEnd(0)` reaches through the
/// most recent element — or `None` if it lies outside the history.
pub open spec fn spec_absolute_index(index: Index, len: nat) -> Option<int> {
    match index {
        Index::FromStart(i) => if i <= len {
            Some(i as int)
        } else {
            None
        },
        Index::FromEnd(i) => if i <= len {
            Some(len - i)
        } else {
            None
        },
    }
}

/// Resolves `index` to a cut point of a history of `len` elements.
pub fn absolute_index(index: Index, len: usize) -> (r: Option<usize>)
    ensures
        match r {
            Some(i) => spec_absolute_index(index, len as nat) == Some(i as int),
            None => spec_absolute_index(index, len as nat) is None,
        },
{
    match index {
        Index::FromStart(i) => {
            if i <= len as u64 {
                Some(i as usize)
            } else {
                None
            }
        },
        Index::FromEnd(i) => {
            if i <= len as u64 {
                Some(len - i as usize)
            } else {
                None
            }
        },
    }
}

/// An entry of the data history: an opaque byte payload, immutable once
/// appended.
pub type Entry = Vec<u8>;

/// A list of data entries.
pub type Entries = Vec<Entry>;

/// The key of a permission grant on a public object: a concrete identity, or
/// the wildcard matching every identity not explicitly listed.
#[derive(Clone, Copy, PartialEq, Eq, Structural, Debug, Hash)]
pub enum User {
    /// The fallback key matching any identity not explicitly listed.
    Anyone,
    /// A concrete identity.
    Specific(PublicKey),
}

/// An ownership snapshot: who may bypass permission checks entirely, together
/// with the history lengths its author observed when the change was authored.
/// The expected indices serve the optimistic-concurrency guard on local
/// appends and are kept for audit; remote merges do not re-validate them.
#[derive(Clone, Copy, PartialEq, Eq, Structural, Debug, Hash)]
pub struct Owner {
    /// The owning identity.
    pub public_key: PublicKey,
    /// The data-history length the author observed.
    pub expected_data_index: u64,
    /// The permission-history length the author observed.
    pub expected_permissions_index: u64,
}

} // verus!
