//! The permission data model: per-request grant sets, the per-user maps that
//! permission snapshots carry, and the evaluation rules for public and
//! private objects.
//!
//! A private snapshot maps concrete identities to per-request booleans;
//! anything unlisted is denied. A public snapshot maps identities or the
//! `Anyone` wildcard to per-request booleans that may also be unset; reads
//! are always allowed, an identity's own entry is authoritative when it
//! answers, and only an unset answer falls through to `Anyone` — never the
//! reverse.

use vstd::prelude::*;

use crate::assoc::{
    assoc_get, lemma_assoc_first, lemma_assoc_none, lemma_assoc_push, lemma_assoc_update,
    unique_keys,
};
use crate::request::Request;
use crate::shared::{PublicKey, User};

verus! {

/// A mapping from requests to allow/deny answers, as one permission grant
/// carries it. Keys are never bound twice.
#[derive(Debug)]
pub struct RequestMap {
    pairs: Vec<(Request, bool)>,
}

impl View for RequestMap {
    type V = Seq<(Request, bool)>;

    closed spec fn view(&self) -> Seq<(Request, bool)> {
        self.pairs@
    }
}

impl RequestMap {
    /// Well-formedness: no request is bound twice.
    pub open spec fn wf(self) -> bool {
        unique_keys(self@)
    }

    /// Creates an empty mapping.
    pub fn new() -> (m: RequestMap)
        ensures
            m.wf(),
            m@ == Seq::<(Request, bool)>::empty(),
    {
        RequestMap { pairs: Vec::new() }
    }

    /// Binds `key` to `value`, replacing and returning any earlier binding.
    pub fn insert(&mut self, key: Request, value: bool) -> (prev: Option<bool>)
        requires
            old(self).wf(),
        ensures
            final(self).wf(),
            assoc_get(final(self)@, key) == Some(value),
            forall|k: Request| k != key ==> assoc_get(final(self)@, k) == assoc_get(old(self)@, k),
            prev == assoc_get(old(self)@, key),
    {
        let n = self.pairs.len();
        let mut i: usize = 0;
        while i < n
            invariant
                self@ == old(self)@,
                old(self).wf(),
                n == self@.len(),
                i <= n,
                forall|j: int| 0 <= j < i ==> (#[trigger] self@[j]).0 != key,
            decreases n - i,
        {
            if self.pairs[i].0 == key {
                proof {
                    lemma_assoc_first(self@, key, i as int);
                    lemma_assoc_update(self@, i as int, (key, value));
                }
                let prev = self.pairs[i].1;
                let ghost before = self@;
                self.pairs.remove(i);
                self.pairs.insert(i, (key, value));
                proof {
                    assert(self@ =~= before.update(i as int, (key, value)));
                }
                return Some(prev);
            }
            i = i + 1;
        }
        proof {
            lemma_assoc_none(self@, key);
            lemma_assoc_push(self@, (key, value));
        }
        self.pairs.push((key, value));
        None
    }

    /// The number of bindings.
    pub fn len(&self) -> (n: usize)
        ensures
            n == self@.len(),
    {
        self.pairs.len()
    }

    /// Whether no binding is held.
    pub fn is_empty(&self) -> (r: bool)
        ensures
            r == (self@.len() == 0),
    {
        self.pairs.is_empty()
    }

    /// The binding at position `i`, in insertion order.
    pub fn entry_at(&self, i: usize) -> (p: &(Request, bool))
        requires
            i < self@.len(),
        ensures
            *p == self@[i as int],
    {
        &self.pairs[i]
    }

    /// Looks up the answer bound to `key`.
    pub fn get(&self, key: &Request) -> (r: Option<bool>)
        ensures
            r == assoc_get(self@, *key),
    {
        let n = self.pairs.len();
        let mut i: usize = 0;
        while i < n
            invariant
                n == self@.len(),
                i <= n,
                forall|j: int| 0 <= j < i ==> (#[trigger] self@[j]).0 != *key,
            decreases n - i,
        {
            if self.pairs[i].0 == *key {
                proof {
                    lemma_assoc_first(self@, *key, i as int);
                }
                return Some(self.pairs[i].1);
            }
            i = i + 1;
        }
        proof {
            lemma_assoc_none(self@, *key);
        }
        None
    }
}

impl Clone for RequestMap {
    /// A clone binds exactly the same answers.
    fn clone(&self) -> (r: Self)
        ensures
            r@ == self@,
    {
        let n = self.pairs.len();
        let mut pairs: Vec<(Request, bool)> = Vec::new();
        let mut i: usize = 0;
        while i < n
            invariant
                n == self@.len(),
                i <= n,
                pairs@ == self@.subrange(0, i as int),
            decreases n - i,
        {
            pairs.push((self.pairs[i].0, self.pairs[i].1));
            proof {
                assert(pairs@ =~= self@.subrange(0, i + 1));
            }
            i = i + 1;
        }
        proof {
            assert(pairs@ =~= self@);
        }
        RequestMap { pairs }
    }
}

impl PartialEq for RequestMap {
    /// Two mappings are equal when they list the same bindings in the same
    /// order.
    fn eq(&self, other: &Self) -> (r: bool)
        ensures
            r == (self@ == other@),
    {
        let n = self.pairs.len();
        if n != other.pairs.len() {
            proof {
                assert(self@ != other@);
            }
            return false;
        }
        let mut i: usize = 0;
        while i < n
            invariant
                n == self@.len() && n == other@.len(),
                i <= n,
                forall|j: int| 0 <= j < i ==> self@[j] == other@[j],
            decreases n - i,
        {
            if self.pairs[i].0 != other.pairs[i].0 || self.pairs[i].1 != other.pairs[i].1 {
                proof {
                    assert(self@[i as int] != other@[i as int]);
                }
                return false;
            }
            i = i + 1;
        }
        proof {
            assert(self@ =~= other@);
        }
        true
    }
}

impl vstd::std_specs::cmp::PartialEqSpecImpl for RequestMap {
    open spec fn obeys_eq_spec() -> bool {
        true
    }

    open spec fn eq_spec(&self, other: &Self) -> bool {
        self@ == other@
    }
}

/// The per-request answers granted to one concrete identity on a private
/// object: a plain allow/deny per listed request, with everything unlisted
/// denied.
#[derive(Debug)]
pub struct PrivatePermissionSet {
    permissions: RequestMap,
}

impl View for PrivatePermissionSet {
    type V = Seq<(Request, bool)>;

    closed spec fn view(&self) -> Seq<(Request, bool)> {
        self.permissions@
    }
}

impl PrivatePermissionSet {
    /// Well-formedness: no request is bound twice.
    pub open spec fn wf(self) -> bool {
        unique_keys(self@)
    }

    /// Creates a grant set holding the given answers.
    pub fn new(permissions: RequestMap) -> (r: PrivatePermissionSet)
        ensures
            r@ == permissions@,
    {
        PrivatePermissionSet { permissions }
    }

    /// Replaces the answers wholesale.
    pub fn set_permissions(&mut self, permissions: RequestMap)
        ensures
            final(self)@ == permissions@,
    {
        self.permissions = permissions;
    }

    /// The decision this grant set gives for `request`: allowed exactly when
    /// the request is listed and answered with `true`.
    pub open spec fn spec_is_permitted(self, request: Request) -> bool {
        assoc_get(self@, request) == Some(true)
    }

    /// Whether `request` is permitted by this grant set.
    pub fn is_permitted(self, request: &Request) -> (r: bool)
        ensures
            r == self.spec_is_permitted(*request),
    {
        match self.permissions.get(request) {
            Some(true) => true,
            _ => false,
        }
    }
}

impl Clone for PrivatePermissionSet {
    /// A clone gives the same answers.
    fn clone(&self) -> (r: Self)
        ensures
            r@ == self@,
    {
        PrivatePermissionSet { permissions: self.permissions.clone() }
    }
}

impl PartialEq for PrivatePermissionSet {
    /// Grant sets are equal when they list the same bindings in the same
    /// order.
    fn eq(&self, other: &Self) -> (r: bool)
        ensures
            r == (self@ == other@),
    {
        self.permissions == other.permissions
    }
}

impl vstd::std_specs::cmp::PartialEqSpecImpl for PrivatePermissionSet {
    open spec fn obeys_eq_spec() -> bool {
        true
    }

    open spec fn eq_spec(&self, other: &Self) -> bool {
        self@ == other@
    }
}

/// The per-request answers granted to one identity, or to `Anyone`, on a
/// public object. Reads are always allowed; for anything else a listed
/// answer is authoritative and an unlisted request is unset, to be resolved
/// against the `Anyone` entry.
#[derive(Debug)]
pub struct PublicPermissionSet {
    permissions: RequestMap,
}

impl View for PublicPermissionSet {
    type V = Seq<(Request, bool)>;

    closed spec fn view(&self) -> Seq<(Request, bool)> {
        self.permissions@
    }
}

impl PublicPermissionSet {
    /// Well-formedness: no request is bound twice.
    pub open spec fn wf(self) -> bool {
        unique_keys(self@)
    }

    /// Creates a grant set holding the given answers.
    pub fn new(permissions: RequestMap) -> (r: PublicPermissionSet)
        ensures
            r@ == permissions@,
    {
        PublicPermissionSet { permissions }
    }

    /// Replaces the answers wholesale.
    pub fn set_permissions(&mut self, permissions: RequestMap)
        ensures
            final(self)@ == permissions@,
    {
        self.permissions = permissions;
    }

    /// The decision this grant set gives for `request`: reads on public data
    /// are always allowed; otherwise the listed answer, or unset.
    pub open spec fn spec_is_permitted(self, request: Request) -> Option<bool> {
        if request.is_read() {
            Some(true)
        } else {
            assoc_get(self@, request)
        }
    }

    /// The answer this grant set gives for `request`: `Some(true)` allowed,
    /// `Some(false)` denied, `None` unset, so that the `Anyone` entry
    /// applies.
    pub fn is_permitted(self, request: &Request) -> (r: Option<bool>)
        ensures
            r == self.spec_is_permitted(*request),
    {
        match request {
            Request::Query(_) => Some(true),
            _ => self.permissions.get(request),
        }
    }
}

impl Clone for PublicPermissionSet {
    /// A clone gives the same answers.
    fn clone(&self) -> (r: Self)
        ensures
            r@ == self@,
    {
        PublicPermissionSet { permissions: self.permissions.clone() }
    }
}

impl PartialEq for PublicPermissionSet {
    /// Grant sets are equal when they list the same bindings in the same
    /// order.
    fn eq(&self, other: &Self) -> (r: bool)
        ensures
            r == (self@ == other@),
    {
        self.permissions == other.permissions
    }
}

impl vstd::std_specs::cmp::PartialEqSpecImpl for PublicPermissionSet {
    open spec fn obeys_eq_spec() -> bool {
        true
    }

    open spec fn eq_spec(&self, other: &Self) -> bool {
        self@ == other@
    }
}

/// A mapping from concrete identities to their private grant sets, as a
/// private permission snapshot carries it.
#[derive(Debug)]
pub struct PrivateUserMap {
    pairs: Vec<(PublicKey, PrivatePermissionSet)>,
}

impl View for PrivateUserMap {
    type V = Seq<(PublicKey, PrivatePermissionSet)>;

    closed spec fn view(&self) -> Seq<(PublicKey, PrivatePermissionSet)> {
        self.pairs@
    }
}

impl PrivateUserMap {
    /// Well-formedness: no identity is bound twice.
    pub open spec fn wf(self) -> bool {
        unique_keys(self@)
    }

    /// The mapping reduced to plain values: each identity with the bindings
    /// of its grant set.
    pub open spec fn model(self) -> Seq<(PublicKey, Seq<(Request, bool)>)> {
        self@.map(|i: int, p: (PublicKey, PrivatePermissionSet)| (p.0, p.1@))
    }

    /// Creates an empty mapping.
    pub fn new() -> (m: PrivateUserMap)
        ensures
            m.wf(),
            m@ == Seq::<(PublicKey, PrivatePermissionSet)>::empty(),
    {
        PrivateUserMap { pairs: Vec::new() }
    }

    /// Binds `key` to `value`, replacing and returning any earlier binding.
    pub fn insert(&mut self, key: PublicKey, value: PrivatePermissionSet) -> (prev: Option<
        PrivatePermissionSet,
    >)
        requires
            old(self).wf(),
        ensures
            final(self).wf(),
            assoc_get(final(self)@, key) == Some(value),
            forall|k: PublicKey|
                k != key ==> assoc_get(final(self)@, k) == assoc_get(old(self)@, k),
            prev == assoc_get(old(self)@, key),
    {
        let n = self.pairs.len();
        let mut i: usize = 0;
        while i < n
            invariant
                self@ == old(self)@,
                old(self).wf(),
                n == self@.len(),
                i <= n,
                forall|j: int| 0 <= j < i ==> (#[trigger] self@[j]).0 != key,
            decreases n - i,
        {
            if self.pairs[i].0 == key {
                proof {
                    lemma_assoc_first(self@, key, i as int);
                    lemma_assoc_update(self@, i as int, (key, value));
                }
                let ghost before = self@;
                let prev = self.pairs.remove(i);
                self.pairs.insert(i, (key, value));
                proof {
                    assert(self@ =~= before.update(i as int, (key, value)));
                }
                return Some(prev.1);
            }
            i = i + 1;
        }
        proof {
            lemma_assoc_none(self@, key);
            lemma_assoc_push(self@, (key, value));
        }
        self.pairs.push((key, value));
        None
    }

    /// The number of bindings.
    pub fn len(&self) -> (n: usize)
        ensures
            n == self@.len(),
    {
        self.pairs.len()
    }

    /// Whether no binding is held.
    pub fn is_empty(&self) -> (r: bool)
        ensures
            r == (self@.len() == 0),
    {
        self.pairs.is_empty()
    }

    /// The binding at position `i`, in insertion order.
    pub fn entry_at(&self, i: usize) -> (p: &(PublicKey, PrivatePermissionSet))
        requires
            i < self@.len(),
        ensures
            *p == self@[i as int],
    {
        &self.pairs[i]
    }

    /// Looks up the grant set bound to `key`.
    pub fn get(&self, key: &PublicKey) -> (r: Option<&PrivatePermissionSet>)
        ensures
            match r {
                Some(v) => assoc_get(self@, *key) == Some(*v),
                None => assoc_get(self@, *key) is None,
            },
    {
        let n = self.pairs.len();
        let mut i: usize = 0;
        while i < n
            invariant
                n == self@.len(),
                i <= n,
                forall|j: int| 0 <= j < i ==> (#[trigger] self@[j]).0 != *key,
            decreases n - i,
        {
            if self.pairs[i].0 == *key {
                proof {
                    lemma_assoc_first(self@, *key, i as int);
                }
                return Some(&self.pairs[i].1);
            }
            i = i + 1;
        }
        proof {
            lemma_assoc_none(self@, *key);
        }
        None
    }
}

impl Clone for PrivateUserMap {
    /// A clone binds the same identities, each to a grant set with the same
    /// answers.
    fn clone(&self) -> (r: Self)
        ensures
            r@.len() == self@.len(),
            forall|i: int|
                0 <= i < self@.len() ==> (#[trigger] r@[i]).0 == self@[i].0 && r@[i].1@
                    == self@[i].1@,
            r.model() == self.model(),
            self.wf() ==> r.wf(),
    {
        let n = self.pairs.len();
        let mut pairs: Vec<(PublicKey, PrivatePermissionSet)> = Vec::new();
        let mut i: usize = 0;
        while i < n
            invariant
                n == self@.len(),
                i <= n,
                pairs@.len() == i,
                forall|j: int|
                    0 <= j < i ==> (#[trigger] pairs@[j]).0 == self@[j].0 && pairs@[j].1@
                        == self@[j].1@,
            decreases n - i,
        {
            pairs.push((self.pairs[i].0, self.pairs[i].1.clone()));
            i = i + 1;
        }
        let r = PrivateUserMap { pairs };
        proof {
            assert(r.model() =~= self.model());
            if self.wf() {
                assert forall|a: int, b: int| 0 <= a < b < r@.len() implies (#[trigger] r@[a]).0 != (
                #[trigger] r@[b]).0 by {
                    assert(r@[a].0 == self@[a].0 && r@[b].0 == self@[b].0);
                }
            }
        }
        r
    }
}

impl PartialEq for PrivateUserMap {
    /// Two mappings are equal when they bind the same identities, in the
    /// same order, to grant sets with the same answers.
    fn eq(&self, other: &Self) -> (r: bool)
        ensures
            r == (self.model() == other.model()),
    {
        let n = self.pairs.len();
        if n != other.pairs.len() {
            proof {
                assert(self.model().len() != other.model().len());
            }
            return false;
        }
        let mut i: usize = 0;
        while i < n
            invariant
                n == self@.len() && n == other@.len(),
                i <= n,
                forall|j: int|
                    0 <= j < i ==> (#[trigger] self@[j]).0 == other@[j].0 && self@[j].1@
                        == other@[j].1@,
            decreases n - i,
        {
            if self.pairs[i].0 != other.pairs[i].0 || !(self.pairs[i].1 == other.pairs[i].1) {
                proof {
                    assert(self.model()[i as int] != other.model()[i as int]);
                }
                return false;
            }
            i = i + 1;
        }
        proof {
            assert(self.model() =~= other.model());
        }
        true
    }
}

impl vstd::std_specs::cmp::PartialEqSpecImpl for PrivateUserMap {
    open spec fn obeys_eq_spec() -> bool {
        true
    }

    open spec fn eq_spec(&self, other: &Self) -> bool {
        self.model() == other.model()
    }
}

/// A mapping from identities — concrete or the `Anyone` wildcard — to their
/// public grant sets, as a public permission snapshot carries it.
#[derive(Debug)]
pub struct PublicUserMap {
    pairs: Vec<(User, PublicPermissionSet)>,
}

impl View for PublicUserMap {
    type V = Seq<(User, PublicPermissionSet)>;

    closed spec fn view(&self) -> Seq<(User, PublicPermissionSet)> {
        self.pairs@
    }
}

impl PublicUserMap {
    /// Well-formedness: no user is bound twice.
    pub open spec fn wf(self) -> bool {
        unique_keys(self@)
    }

    /// The mapping reduced to plain values: each user with the bindings of
    /// its grant set.
    pub open spec fn model(self) -> Seq<(User, Seq<(Request, bool)>)> {
        self@.map(|i: int, p: (User, PublicPermissionSet)| (p.0, p.1@))
    }

    /// Creates an empty mapping.
    pub fn new() -> (m: PublicUserMap)
        ensures
            m.wf(),
            m@ == Seq::<(User, PublicPermissionSet)>::empty(),
    {
        PublicUserMap { pairs: Vec::new() }
    }

    /// Binds `key` to `value`, replacing and returning any earlier binding.
    pub fn insert(&mut self, key: User, value: PublicPermissionSet) -> (prev: Option<
        PublicPermissionSet,
    >)
        requires
            old(self).wf(),
        ensures
            final(self).wf(),
            assoc_get(final(self)@, key) == Some(value),
            forall|k: User| k != key ==> assoc_get(final(self)@, k) == assoc_get(old(self)@, k),
            prev == assoc_get(old(self)@, key),
    {
        let n = self.pairs.len();
        let mut i: usize = 0;
        while i < n
            invariant
                self@ == old(self)@,
                old(self).wf(),
                n == self@.len(),
                i <= n,
                forall|j: int| 0 <= j < i ==> (#[trigger] self@[j]).0 != key,
            decreases n - i,
        {
            if self.pairs[i].0 == key {
                proof {
                    lemma_assoc_first(self@, key, i as int);
                    lemma_assoc_update(self@, i as int, (key, value));
                }
                let ghost before = self@;
                let prev = self.pairs.remove(i);
                self.pairs.insert(i, (key, value));
                proof {
                    assert(self@ =~= before.update(i as int, (key, value)));
                }
                return Some(prev.1);
            }
            i = i + 1;
        }
        proof {
            lemma_assoc_none(self@, key);
            lemma_assoc_push(self@, (key, value));
        }
        self.pairs.push((key, value));
        None
    }

    /// The number of bindings.
    pub fn len(&self) -> (n: usize)
        ensures
            n == self@.len(),
    {
        self.pairs.len()
    }

    /// Whether no binding is held.
    pub fn is_empty(&self) -> (r: bool)
        ensures
            r == (self@.len() == 0),
    {
        self.pairs.is_empty()
    }

    /// The binding at position `i`, in insertion order.
    pub fn entry_at(&self, i: usize) -> (p: &(User, PublicPermissionSet))
        requires
            i < self@.len(),
        ensures
            *p == self@[i as int],
    {
        &self.pairs[i]
    }

    /// Looks up the grant set bound to `key`.
    pub fn get(&self, key: &User) -> (r: Option<&PublicPermissionSet>)
        ensures
            match r {
                Some(v) => assoc_get(self@, *key) == Some(*v),
                None => assoc_get(self@, *key) is None,
            },
    {
        let n = self.pairs.len();
        let mut i: usize = 0;
        while i < n
            invariant
                n == self@.len(),
                i <= n,
                forall|j: int| 0 <= j < i ==> (#[trigger] self@[j]).0 != *key,
            decreases n - i,
        {
            if self.pairs[i].0 == *key {
                proof {
                    lemma_assoc_first(self@, *key, i as int);
                }
                return Some(&self.pairs[i].1);
            }
            i = i + 1;
        }
        proof {
            lemma_assoc_none(self@, *key);
        }
        None
    }
}

impl Clone for PublicUserMap {
    /// A clone binds the same users, each to a grant set with the same
    /// answers.
    fn clone(&self) -> (r: Self)
        ensures
            r@.len() == self@.len(),
            forall|i: int|
                0 <= i < self@.len() ==> (#[trigger] r@[i]).0 == self@[i].0 && r@[i].1@
                    == self@[i].1@,
            r.model() == self.model(),
            self.wf() ==> r.wf(),
    {
        let n = self.pairs.len();
        let mut pairs: Vec<(User, PublicPermissionSet)> = Vec::new();
        let mut i: usize = 0;
        while i < n
            invariant
                n == self@.len(),
                i <= n,
                pairs@.len() == i,
                forall|j: int|
                    0 <= j < i ==> (#[trigger] pairs@[j]).0 == self@[j].0 && pairs@[j].1@
                        == self@[j].1@,
            decreases n - i,
        {
            pairs.push((self.pairs[i].0, self.pairs[i].1.clone()));
            i = i + 1;
        }
        let r = PublicUserMap { pairs };
        proof {
            assert(r.model() =~= self.model());
            if self.wf() {
                assert forall|a: int, b: int| 0 <= a < b < r@.len() implies (#[trigger] r@[a]).0 != (
                #[trigger] r@[b]).0 by {
                    assert(r@[a].0 == self@[a].0 && r@[b].0 == self@[b].0);
                }
            }
        }
        r
    }
}

impl PartialEq for PublicUserMap {
    /// Two mappings are equal when they bind the same users, in the same
    /// order, to grant sets with the same answers.
    fn eq(&self, other: &Self) -> (r: bool)
        ensures
            r == (self.model() == other.model()),
    {
        let n = self.pairs.len();
        if n != other.pairs.len() {
            proof {
                assert(self.model().len() != other.model().len());
            }
            return false;
        }
        let mut i: usize = 0;
        while i < n
            invariant
                n == self@.len() && n == other@.len(),
                i <= n,
                forall|j: int|
                    0 <= j < i ==> (#[trigger] self@[j]).0 == other@[j].0 && self@[j].1@
                        == other@[j].1@,
            decreases n - i,
        {
            if self.pairs[i].0 != other.pairs[i].0 || !(self.pairs[i].1 == other.pairs[i].1) {
                proof {
                    assert(self.model()[i as int] != other.model()[i as int]);
                }
                return false;
            }
            i = i + 1;
        }
        proof {
            assert(self.model() =~= other.model());
        }
        true
    }
}

impl vstd::std_specs::cmp::PartialEqSpecImpl for PublicUserMap {
    open spec fn obeys_eq_spec() -> bool {
        true
    }

    open spec fn eq_spec(&self, other: &Self) -> bool {
        self.model() == other.model()
    }
}

/// What every permission snapshot answers: whether a requester may perform a
/// request, and which history lengths its author observed.
pub trait Permissions: Sized {
    /// The decision this snapshot gives for `user` performing `request`.
    spec fn allows(&self, user: PublicKey, request: Request) -> bool;

    /// The data-history length the snapshot's author observed.
    spec fn spec_expected_data_index(&self) -> u64;

    /// The owner-history length the snapshot's author observed.
    spec fn spec_expected_owners_index(&self) -> u64;

    /// Whether `user` may perform `request` under this snapshot.
    fn is_permitted(&self, user: &PublicKey, request: &Request) -> (r: bool)
        ensures
            r == self.allows(*user, *request),
    ;

    /// Returns the data-history length the author observed.
    fn expected_data_index(&self) -> (r: u64)
        ensures
            r == self.spec_expected_data_index(),
    ;

    /// Returns the owner-history length the author observed.
    fn expected_owners_index(&self) -> (r: u64)
        ensures
            r == self.spec_expected_owners_index(),
    ;
}

/// A permission snapshot of a private object: concrete identities only, with
/// everything unlisted denied.
#[derive(Debug)]
pub struct PrivatePermissions {
    /// The per-identity grant sets.
    pub permissions: PrivateUserMap,
    /// The data-history length the author observed when this change was
    /// authored.
    pub expected_data_index: u64,
    /// The owner-history length the author observed when this change was
    /// authored.
    pub expected_owners_index: u64,
}

impl PrivatePermissions {
    /// Well-formedness: the identity map binds no identity twice.
    pub open spec fn wf(self) -> bool {
        self.permissions.wf()
    }

    /// The grant set this snapshot holds for `user`, if listed.
    pub open spec fn spec_user_permissions(self, user: PublicKey) -> Option<PrivatePermissionSet> {
        assoc_get(self.permissions@, user)
    }

    /// Whether `other` holds the same grants and expected indices: what a
    /// faithful copy of this snapshot preserves.
    pub open spec fn same_grants(self, other: PrivatePermissions) -> bool {
        &&& self.permissions.model() == other.permissions.model()
        &&& self.expected_data_index == other.expected_data_index
        &&& self.expected_owners_index == other.expected_owners_index
    }

    /// Returns the per-identity grant sets.
    pub fn permissions(&self) -> (r: &PrivateUserMap)
        ensures
            *r == self.permissions,
    {
        &self.permissions
    }
}

impl Permissions for PrivatePermissions {
    /// Private rule: the requester's own entry decides; an unlisted identity
    /// or an unlisted request is denied.
    open spec fn allows(&self, user: PublicKey, request: Request) -> bool {
        match assoc_get(self.permissions@, user) {
            Some(set) => set.spec_is_permitted(request),
            None => false,
        }
    }

    open spec fn spec_expected_data_index(&self) -> u64 {
        self.expected_data_index
    }

    open spec fn spec_expected_owners_index(&self) -> u64 {
        self.expected_owners_index
    }

    fn is_permitted(&self, user: &PublicKey, request: &Request) -> (r: bool) {
        match self.permissions.get(user) {
            Some(set) => set.clone().is_permitted(request),
            None => false,
        }
    }

    fn expected_data_index(&self) -> (r: u64) {
        self.expected_data_index
    }

    fn expected_owners_index(&self) -> (r: u64) {
        self.expected_owners_index
    }
}

impl Clone for PrivatePermissions {
    /// A clone answers every lookup as the original does.
    fn clone(&self) -> (r: Self)
        ensures
            r.permissions.model() == self.permissions.model(),
            r.expected_data_index == self.expected_data_index,
            r.expected_owners_index == self.expected_owners_index,
            self.wf() ==> r.wf(),
    {
        PrivatePermissions {
            permissions: self.permissions.clone(),
            expected_data_index: self.expected_data_index,
            expected_owners_index: self.expected_owners_index,
        }
    }
}

impl PartialEq for PrivatePermissions {
    /// Snapshots are equal when their maps bind the same answers and they
    /// record the same expected indices.
    fn eq(&self, other: &Self) -> (r: bool)
        ensures
            r == (self.permissions.model() == other.permissions.model()
                && self.expected_data_index == other.expected_data_index
                && self.expected_owners_index == other.expected_owners_index),
    {
        self.permissions == other.permissions && self.expected_data_index
            == other.expected_data_index && self.expected_owners_index
            == other.expected_owners_index
    }
}

impl vstd::std_specs::cmp::PartialEqSpecImpl for PrivatePermissions {
    open spec fn obeys_eq_spec() -> bool {
        true
    }

    open spec fn eq_spec(&self, other: &Self) -> bool {
        self.permissions.model() == other.permissions.model() && self.expected_data_index
            == other.expected_data_index && self.expected_owners_index
            == other.expected_owners_index
    }
}

/// A permission snapshot of a public object: concrete identities and the
/// `Anyone` wildcard, with reads always allowed and a concrete entry
/// overriding the wildcard — never the reverse.
#[derive(Debug)]
pub struct PublicPermissions {
    /// The per-user grant sets.
    pub permissions: PublicUserMap,
    /// The data-history length the author observed when this change was
    /// authored.
    pub expected_data_index: u64,
    /// The owner-history length the author observed when this change was
    /// authored.
    pub expected_owners_index: u64,
}

impl PublicPermissions {
    /// Well-formedness: the user map binds no user twice.
    pub open spec fn wf(self) -> bool {
        self.permissions.wf()
    }

    /// The grant set this snapshot holds for `user`, if listed.
    pub open spec fn spec_user_permissions(self, user: User) -> Option<PublicPermissionSet> {
        assoc_get(self.permissions@, user)
    }

    /// The answer `user`'s own entry gives for `request`: `None` when the
    /// user is unlisted or its entry leaves the request unset.
    pub open spec fn spec_is_permitted_(self, user: User, request: Request) -> Option<bool> {
        match assoc_get(self.permissions@, user) {
            Some(set) => set.spec_is_permitted(request),
            None => None,
        }
    }

    /// The answer `user`'s own entry gives for `request`.
    fn is_permitted_(&self, user: &User, request: &Request) -> (r: Option<bool>)
        ensures
            r == self.spec_is_permitted_(*user, *request),
    {
        match self.permissions.get(user) {
            Some(set) => set.clone().is_permitted(request),
            None => None,
        }
    }

    /// Whether `other` holds the same grants and expected indices: what a
    /// faithful copy of this snapshot preserves.
    pub open spec fn same_grants(self, other: PublicPermissions) -> bool {
        &&& self.permissions.model() == other.permissions.model()
        &&& self.expected_data_index == other.expected_data_index
        &&& self.expected_owners_index == other.expected_owners_index
    }

    /// Returns the per-user grant sets.
    pub fn permissions(&self) -> (r: &PublicUserMap)
        ensures
            *r == self.permissions,
    {
        &self.permissions
    }
}

impl Permissions for PublicPermissions {
    /// Public rule: the requester's concrete entry is authoritative when it
    /// answers; only an unset answer falls through to `Anyone`, and an
    /// answer unset there too is denied.
    open spec fn allows(&self, user: PublicKey, request: Request) -> bool {
        match self.spec_is_permitted_(User::Specific(user), request) {
            Some(b) => b,
            None => self.spec_is_permitted_(User::Anyone, request) == Some(true),
        }
    }

    open spec fn spec_expected_data_index(&self) -> u64 {
        self.expected_data_index
    }

    open spec fn spec_expected_owners_index(&self) -> u64 {
        self.expected_owners_index
    }

    fn is_permitted(&self, user: &PublicKey, request: &Request) -> (r: bool) {
        match self.is_permitted_(&User::Specific(*user), request) {
            Some(true) => true,
            Some(false) => false,
            None => match self.is_permitted_(&User::Anyone, request) {
                Some(true) => true,
                _ => false,
            },
        }
    }

    fn expected_data_index(&self) -> (r: u64) {
        self.expected_data_index
    }

    fn expected_owners_index(&self) -> (r: u64) {
        self.expected_owners_index
    }
}

impl Clone for PublicPermissions {
    /// A clone answers every lookup as the original does.
    fn clone(&self) -> (r: Self)
        ensures
            r.permissions.model() == self.permissions.model(),
            r.expected_data_index == self.expected_data_index,
            r.expected_owners_index == self.expected_owners_index,
            self.wf() ==> r.wf(),
    {
        PublicPermissions {
            permissions: self.permissions.clone(),
            expected_data_index: self.expected_data_index,
            expected_owners_index: self.expected_owners_index,
        }
    }
}

impl PartialEq for PublicPermissions {
    /// Snapshots are equal when their maps bind the same answers and they
    /// record the same expected indices.
    fn eq(&self, other: &Self) -> (r: bool)
        ensures
            r == (self.permissions.model() == other.permissions.model()
                && self.expected_data_index == other.expected_data_index
                && self.expected_owners_index == other.expected_owners_index),
    {
        self.permissions == other.permissions && self.expected_data_index
            == other.expected_data_index && self.expected_owners_index
            == other.expected_owners_index
    }
}

impl vstd::std_specs::cmp::PartialEqSpecImpl for PublicPermissions {
    open spec fn obeys_eq_spec() -> bool {
        true
    }

    open spec fn eq_spec(&self, other: &Self) -> bool {
        self.permissions.model() == other.permissions.model() && self.expected_data_index
            == other.expected_data_index && self.expected_owners_index
            == other.expected_owners_index
    }
}

/// A permission snapshot of either visibility shape, as a query response
/// carries it.
#[derive(Debug)]
pub enum SequencePermissions {
    /// A snapshot of a public object.
    Public(PublicPermissions),
    /// A snapshot of a private object.
    Private(PrivatePermissions),
}

impl PartialEq for SequencePermissions {
    /// Snapshots are equal when they have the same visibility shape, the
    /// same grants and the same expected indices.
    fn eq(&self, other: &Self) -> (r: bool)
        ensures
            r == match (self, other) {
                (SequencePermissions::Public(a), SequencePermissions::Public(b)) => a.same_grants(
                    *b,
                ),
                (SequencePermissions::Private(a), SequencePermissions::Private(b)) => a.same_grants(
                    *b,
                ),
                _ => false,
            },
    {
        match (self, other) {
            (SequencePermissions::Public(a), SequencePermissions::Public(b)) => a == b,
            (SequencePermissions::Private(a), SequencePermissions::Private(b)) => a == b,
            _ => false,
        }
    }
}

impl vstd::std_specs::cmp::PartialEqSpecImpl for SequencePermissions {
    open spec fn obeys_eq_spec() -> bool {
        true
    }

    open spec fn eq_spec(&self, other: &Self) -> bool {
        match (self, other) {
            (SequencePermissions::Public(a), SequencePermissions::Public(b)) => a.same_grants(*b),
            (SequencePermissions::Private(a), SequencePermissions::Private(b)) => a.same_grants(
                *b,
            ),
            _ => false,
        }
    }
}

/// One user's effective grant set at a snapshot, in whichever shape the
/// object's visibility uses.
#[derive(Debug)]
pub enum UserPermissions {
    /// A grant set from a public snapshot.
    Public(PublicPermissionSet),
    /// A grant set from a private snapshot.
    Priv(PrivatePermissionSet),
}

impl PartialEq for UserPermissions {
    /// Effective grant sets are equal when they come from the same
    /// visibility shape and hold the same answers.
    fn eq(&self, other: &Self) -> (r: bool)
        ensures
            r == match (self, other) {
                (UserPermissions::Public(a), UserPermissions::Public(b)) => a@ == b@,
                (UserPermissions::Priv(a), UserPermissions::Priv(b)) => a@ == b@,
                _ => false,
            },
    {
        match (self, other) {
            (UserPermissions::Public(a), UserPermissions::Public(b)) => a == b,
            (UserPermissions::Priv(a), UserPermissions::Priv(b)) => a == b,
            _ => false,
        }
    }
}

impl vstd::std_specs::cmp::PartialEqSpecImpl for UserPermissions {
    open spec fn obeys_eq_spec() -> bool {
        true
    }

    open spec fn eq_spec(&self, other: &Self) -> bool {
        match (self, other) {
            (UserPermissions::Public(a), UserPermissions::Public(b)) => a@ == b@,
            (UserPermissions::Priv(a), UserPermissions::Priv(b)) => a@ == b@,
            _ => false,
        }
    }
}

/// Fallback precedence on public objects: with `Anyone` allowing an
/// operation, a concrete identity's explicit denial still denies it, and
/// only an identity with no answer of its own falls back to the wildcard's
/// allowance.
pub proof fn lemma_fallback_precedence(p: PublicPermissions, key: PublicKey, request: Request)
    requires
        p.spec_is_permitted_(User::Anyone, request) == Some(true),
    ensures
        p.spec_is_permitted_(User::Specific(key), request) == Some(false) ==> !p.allows(
            key,
            request,
        ),
        p.spec_is_permitted_(User::Specific(key), request) is None ==> p.allows(key, request),
{
}

} // verus!
