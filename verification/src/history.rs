//! The replicated append-only history: an ordered log of causally tagged
//! operations, convergent under merge.
//!
//! Every append is recorded as an [`Op`]: the entry value tagged with the
//! authoring actor, that actor's own operation counter, and the logical
//! position the author observed. A history holds its operations sorted by a
//! deterministic total order on `(position, actor, counter)`, and merging a
//! remote operation inserts it at its sorted place, once: re-delivery of an
//! already known `(actor, counter)` pair is a no-op. Because the order is a
//! function of the operations alone, replicas that have seen the same set of
//! operations hold identical logs, whatever the delivery order was — proved
//! below in [`lemma_histories_converge`], [`lemma_merge_commutes`] and
//! [`lemma_merge_idempotent`].

use vstd::prelude::*;

use crate::shared::PublicKey;

verus! {

/// One append's transmissible record: the unit of change exchanged between
/// replicas.
#[derive(Clone, Copy, PartialEq, Eq, Structural, Debug, Hash)]
pub struct Op<T> {
    /// The identity that authored this operation.
    pub actor: PublicKey,
    /// The author's own operation counter for this history; together with
    /// `actor` it identifies the operation, so it is merged exactly once.
    pub counter: u64,
    /// The logical position the author observed: the length of its local
    /// history when the operation was authored.
    pub position: u64,
    /// The appended value.
    pub value: T,
}

/// Whether two operations carry the same identity: the same author and the
/// same per-author counter.
pub open spec fn same_id<T>(a: Op<T>, b: Op<T>) -> bool {
    a.actor == b.actor && a.counter == b.counter
}

/// The deterministic total order in which every replica holds its
/// operations: by logical position first, ties between concurrent authors
/// broken by actor identity, and an author's own operations at one position
/// by counter.
pub open spec fn key_lt<T>(a: Op<T>, b: Op<T>) -> bool {
    ||| a.position < b.position
    ||| (a.position == b.position && a.actor.spec_lt(b.actor))
    ||| (a.position == b.position && a.actor == b.actor && a.counter < b.counter)
}

/// Whether two operations have the same sort key. Operations with distinct
/// identities always have distinct keys, since the key includes the identity.
pub open spec fn key_eq<T>(a: Op<T>, b: Op<T>) -> bool {
    a.position == b.position && a.actor == b.actor && a.counter == b.counter
}

/// Whether a log is sorted strictly by [`key_lt`].
pub open spec fn sorted<T>(s: Seq<Op<T>>) -> bool {
    forall|i: int, j: int| 0 <= i < j < s.len() ==> #[trigger] key_lt(s[i], s[j])
}

/// Whether the log holds an operation with the given identity.
pub open spec fn has_id<T>(s: Seq<Op<T>>, actor: PublicKey, counter: u64) -> bool {
    exists|i: int| 0 <= i < s.len() && (#[trigger] s[i]).actor == actor && s[i].counter == counter
}

/// Whether no two operations of the log share an identity.
pub open spec fn unique_ids<T>(s: Seq<Op<T>>) -> bool {
    forall|i: int, j: int| 0 <= i < j < s.len() ==> !same_id(#[trigger] s[i], #[trigger] s[j])
}

/// Whether every recorded position lies below the log's length. This holds
/// of any log grown by local appends and by merges of causally ready
/// operations (ones whose position does not outrun the log), and it is what
/// makes a local append land at the very end.
pub open spec fn positions_bounded<T>(s: Seq<Op<T>>) -> bool {
    forall|i: int| 0 <= i < s.len() ==> (#[trigger] s[i]).position < s.len()
}

/// Whether `a` and `b` are the same operation up to `eqv` on their carried
/// values: the same identity and the same position. Broadcast operations
/// mirror the locally recorded ones in this sense, with `eqv` relating a
/// payload to its faithful copy.
pub open spec fn op_mirrors<T>(a: Op<T>, b: Op<T>, eqv: spec_fn(T, T) -> bool) -> bool {
    &&& a.actor == b.actor
    &&& a.counter == b.counter
    &&& a.position == b.position
    &&& eqv(a.value, b.value)
}

/// The log with `op` inserted at its sorted place.
pub open spec fn insert_sorted<T>(s: Seq<Op<T>>, op: Op<T>) -> Seq<Op<T>>
    decreases s.len(),
{
    if s.len() == 0 {
        seq![op]
    } else if key_lt(op, s[0]) {
        seq![op] + s
    } else {
        seq![s[0]] + insert_sorted(s.drop_first(), op)
    }
}

/// The log after merging `op`: unchanged if an operation with the same
/// identity is already present, otherwise `op` stands at its sorted place.
pub open spec fn merged<T>(s: Seq<Op<T>>, op: Op<T>) -> Seq<Op<T>> {
    if has_id(s, op.actor, op.counter) {
        s
    } else {
        insert_sorted(s, op)
    }
}

/// The sort order is total: any two operations are ordered one way or the
/// other, unless they share position, actor and counter.
proof fn lemma_key_connected<T>(a: Op<T>, b: Op<T>)
    ensures
        key_lt(a, b) || key_lt(b, a) || key_eq(a, b),
        !(key_lt(a, b) && key_lt(b, a)),
{
}

/// The sort order is transitive.
proof fn lemma_key_trans<T>(a: Op<T>, b: Op<T>, c: Op<T>)
    requires
        key_lt(a, b),
        key_lt(b, c),
    ensures
        key_lt(a, c),
{
}

/// What [`insert_sorted`] does to a sorted log with a fresh identity: the
/// result is sorted, one longer, holds exactly the old operations and `op`,
/// and its identities are the old ones plus `op`'s.
proof fn lemma_insert_sorted<T>(s: Seq<Op<T>>, op: Op<T>)
    requires
        sorted(s),
        !has_id(s, op.actor, op.counter),
    ensures
        sorted(insert_sorted(s, op)),
        insert_sorted(s, op).len() == s.len() + 1,
        insert_sorted(s, op).contains(op),
        forall|x: Op<T>| s.contains(x) ==> insert_sorted(s, op).contains(x),
        forall|x: Op<T>| #[trigger]
            insert_sorted(s, op).contains(x) ==> s.contains(x) || x == op,
        has_id(insert_sorted(s, op), op.actor, op.counter),
        forall|a: PublicKey, c: u64| has_id(s, a, c) ==> has_id(insert_sorted(s, op), a, c),
        forall|a: PublicKey, c: u64| #[trigger]
            has_id(insert_sorted(s, op), a, c) ==> has_id(s, a, c) || (a == op.actor && c
                == op.counter),
        unique_ids(s) ==> unique_ids(insert_sorted(s, op)),
    decreases s.len(),
{
    let r = insert_sorted(s, op);
    if s.len() == 0 {
        assert(r == seq![op]);
        assert(r[0] == op);
        assert(r.contains(op));
        assert forall|x: Op<T>| #[trigger] r.contains(x) implies s.contains(x) || x == op by {
            let i = choose|i: int| 0 <= i < r.len() && r[i] == x;
            assert(i == 0);
        }
        assert forall|a: PublicKey, c: u64| #[trigger]
            has_id(r, a, c) implies has_id(s, a, c) || (a == op.actor && c == op.counter) by {
            let i = choose|i: int|
                0 <= i < r.len() && (#[trigger] r[i]).actor == a && r[i].counter == c;
            assert(i == 0);
        }
    } else if key_lt(op, s[0]) {
        assert(r == seq![op] + s);
        assert forall|i: int, j: int| 0 <= i < j < r.len() implies #[trigger] key_lt(
            r[i],
            r[j],
        ) by {
            if i == 0 {
                if j > 1 {
                    assert(key_lt(s[0], s[j - 1]));
                    lemma_key_trans(op, s[0], s[j - 1]);
                }
            } else {
                assert(r[i] == s[i - 1] && r[j] == s[j - 1]);
            }
        }
        assert(r[0] == op);
        assert(r.contains(op));
        assert forall|x: Op<T>| s.contains(x) implies r.contains(x) by {
            let i = choose|i: int| 0 <= i < s.len() && s[i] == x;
            assert(r[i + 1] == x);
        }
        assert forall|x: Op<T>| #[trigger] r.contains(x) implies s.contains(x) || x == op by {
            let i = choose|i: int| 0 <= i < r.len() && r[i] == x;
            if i > 0 {
                assert(s[i - 1] == x);
            }
        }
        assert(r[0].actor == op.actor && r[0].counter == op.counter);
        assert(has_id(r, op.actor, op.counter));
        assert forall|a: PublicKey, c: u64| has_id(s, a, c) implies has_id(r, a, c) by {
            let i = choose|i: int|
                0 <= i < s.len() && (#[trigger] s[i]).actor == a && s[i].counter == c;
            assert(r[i + 1].actor == a && r[i + 1].counter == c);
        }
        assert forall|a: PublicKey, c: u64| #[trigger]
            has_id(r, a, c) implies has_id(s, a, c) || (a == op.actor && c == op.counter) by {
            let i = choose|i: int|
                0 <= i < r.len() && (#[trigger] r[i]).actor == a && r[i].counter == c;
            if i > 0 {
                assert(s[i - 1].actor == a && s[i - 1].counter == c);
            }
        }
        if unique_ids(s) {
            assert forall|i: int, j: int| 0 <= i < j < r.len() implies !same_id(
                #[trigger] r[i],
                #[trigger] r[j],
            ) by {
                if i == 0 {
                    assert(r[j] == s[j - 1]);
                    if same_id(r[0], r[j]) {
                        assert(s[j - 1].actor == op.actor && s[j - 1].counter == op.counter);
                        assert(has_id(s, op.actor, op.counter));
                    }
                } else {
                    assert(r[i] == s[i - 1] && r[j] == s[j - 1]);
                }
            }
        }
    } else {
        let t = s.drop_first();
        assert forall|i: int, j: int| 0 <= i < j < t.len() implies #[trigger] key_lt(
            t[i],
            t[j],
        ) by {
            assert(t[i] == s[i + 1] && t[j] == s[j + 1]);
        }
        assert forall|i: int|
            0 <= i < t.len() implies !((#[trigger] t[i]).actor == op.actor && t[i].counter
            == op.counter) by {
            if t[i].actor == op.actor && t[i].counter == op.counter {
                assert(s[i + 1].actor == op.actor && s[i + 1].counter == op.counter);
                assert(has_id(s, op.actor, op.counter));
            }
        }
        assert(!has_id(t, op.actor, op.counter));
        lemma_insert_sorted(t, op);
        let rt = insert_sorted(t, op);
        assert(r == seq![s[0]] + rt);
        // The head sorts below the inserted operation and below every tail
        // element.
        if s[0].actor == op.actor && s[0].counter == op.counter {
            assert(has_id(s, op.actor, op.counter));
        }
        lemma_key_connected(s[0], op);
        assert(key_lt(s[0], op));
        assert forall|k: int| 0 <= k < rt.len() implies key_lt(s[0], #[trigger] rt[k]) by {
            assert(rt.contains(rt[k]));
            if rt[k] == op {
            } else {
                assert(t.contains(rt[k]));
                let m = choose|m: int| 0 <= m < t.len() && t[m] == rt[k];
                assert(s[m + 1] == rt[k]);
                assert(key_lt(s[0], s[m + 1]));
            }
        }
        assert forall|i: int, j: int| 0 <= i < j < r.len() implies #[trigger] key_lt(
            r[i],
            r[j],
        ) by {
            if i == 0 {
                assert(r[j] == rt[j - 1]);
            } else {
                assert(r[i] == rt[i - 1] && r[j] == rt[j - 1]);
            }
        }
        assert(rt.contains(op));
        let m0 = choose|m: int| 0 <= m < rt.len() && rt[m] == op;
        assert(r[m0 + 1] == op);
        assert(r.contains(op));
        assert(r[m0 + 1].actor == op.actor && r[m0 + 1].counter == op.counter);
        assert(has_id(r, op.actor, op.counter));
        assert forall|x: Op<T>| s.contains(x) implies r.contains(x) by {
            let i = choose|i: int| 0 <= i < s.len() && s[i] == x;
            if i == 0 {
                assert(r[0] == x);
            } else {
                assert(t[i - 1] == x);
                assert(t.contains(x));
                assert(rt.contains(x));
                let m = choose|m: int| 0 <= m < rt.len() && rt[m] == x;
                assert(r[m + 1] == x);
            }
        }
        assert forall|x: Op<T>| #[trigger] r.contains(x) implies s.contains(x) || x == op by {
            let i = choose|i: int| 0 <= i < r.len() && r[i] == x;
            if i == 0 {
                assert(s[0] == x);
                assert(s.contains(x));
            } else {
                assert(rt[i - 1] == x);
                assert(rt.contains(x));
                if t.contains(x) {
                    let m = choose|m: int| 0 <= m < t.len() && t[m] == x;
                    assert(s[m + 1] == x);
                    assert(s.contains(x));
                }
            }
        }
        assert forall|a: PublicKey, c: u64| has_id(s, a, c) implies has_id(r, a, c) by {
            let i = choose|i: int|
                0 <= i < s.len() && (#[trigger] s[i]).actor == a && s[i].counter == c;
            if i == 0 {
                assert(r[0].actor == a && r[0].counter == c);
            } else {
                assert(t[i - 1].actor == a && t[i - 1].counter == c);
                assert(has_id(t, a, c));
                assert(has_id(rt, a, c));
                let m = choose|m: int|
                    0 <= m < rt.len() && (#[trigger] rt[m]).actor == a && rt[m].counter == c;
                assert(r[m + 1].actor == a && r[m + 1].counter == c);
            }
        }
        assert forall|a: PublicKey, c: u64| #[trigger]
            has_id(r, a, c) implies has_id(s, a, c) || (a == op.actor && c == op.counter) by {
            let i = choose|i: int|
                0 <= i < r.len() && (#[trigger] r[i]).actor == a && r[i].counter == c;
            if i == 0 {
                assert(s[0].actor == a && s[0].counter == c);
                assert(has_id(s, a, c));
            } else {
                assert(rt[i - 1].actor == a && rt[i - 1].counter == c);
                assert(has_id(rt, a, c));
                if has_id(t, a, c) {
                    let m = choose|m: int|
                        0 <= m < t.len() && (#[trigger] t[m]).actor == a && t[m].counter == c;
                    assert(s[m + 1].actor == a && s[m + 1].counter == c);
                    assert(has_id(s, a, c));
                }
            }
        }
        if unique_ids(s) {
            assert forall|i: int, j: int| 0 <= i < j < t.len() implies !same_id(
                #[trigger] t[i],
                #[trigger] t[j],
            ) by {
                assert(t[i] == s[i + 1] && t[j] == s[j + 1]);
            }
            assert(unique_ids(t));
            assert forall|i: int, j: int| 0 <= i < j < r.len() implies !same_id(
                #[trigger] r[i],
                #[trigger] r[j],
            ) by {
                if i == 0 {
                    assert(r[j] == rt[j - 1]);
                    if same_id(r[0], r[j]) {
                        assert(has_id(rt, s[0].actor, s[0].counter));
                        if has_id(t, s[0].actor, s[0].counter) {
                            let m = choose|m: int|
                                0 <= m < t.len() && (#[trigger] t[m]).actor == s[0].actor
                                    && t[m].counter == s[0].counter;
                            assert(same_id(s[0], s[m + 1]));
                        }
                    }
                } else {
                    assert(r[i] == rt[i - 1] && r[j] == rt[j - 1]);
                }
            }
        }
    }
}

/// Convergence: two sorted logs that hold the same operations are the same
/// log. Replicas that have merged the same set of operations, in whatever
/// order, therefore hold identical histories, with identical contents and
/// lengths.
pub proof fn lemma_histories_converge<T>(a: Seq<Op<T>>, b: Seq<Op<T>>)
    requires
        sorted(a),
        sorted(b),
        forall|x: Op<T>| a.contains(x) <==> b.contains(x),
    ensures
        a == b,
    decreases a.len(),
{
    if a.len() == 0 {
        if b.len() > 0 {
            assert(b.contains(b[0]));
            assert(a.contains(b[0]));
            assert(false);
        }
        assert(a =~= b);
    } else {
        assert(a.contains(a[0]));
        assert(b.contains(a[0]));
        assert(b.len() > 0);
        assert(b.contains(b[0]));
        assert(a.contains(b[0]));
        let j = choose|j: int| 0 <= j < b.len() && b[j] == a[0];
        let i = choose|i: int| 0 <= i < a.len() && a[i] == b[0];
        if i > 0 && j > 0 {
            assert(key_lt(a[0], a[i]));
            assert(key_lt(b[0], b[j]));
            lemma_key_connected(a[0], b[0]);
            assert(false);
        }
        assert(a[0] == b[0]);
        let ta = a.drop_first();
        let tb = b.drop_first();
        assert forall|p: int, q: int| 0 <= p < q < ta.len() implies #[trigger] key_lt(
            ta[p],
            ta[q],
        ) by {
            assert(ta[p] == a[p + 1] && ta[q] == a[q + 1]);
        }
        assert forall|p: int, q: int| 0 <= p < q < tb.len() implies #[trigger] key_lt(
            tb[p],
            tb[q],
        ) by {
            assert(tb[p] == b[p + 1] && tb[q] == b[q + 1]);
        }
        // The head repeats in neither tail: the order below it is strict.
        assert forall|x: Op<T>| ta.contains(x) <==> tb.contains(x) by {
            if ta.contains(x) {
                let p = choose|p: int| 0 <= p < ta.len() && ta[p] == x;
                assert(a[p + 1] == x);
                assert(key_lt(a[0], a[p + 1]));
                assert(a.contains(x));
                assert(b.contains(x));
                let q = choose|q: int| 0 <= q < b.len() && b[q] == x;
                if q == 0 {
                    lemma_key_connected(a[0], x);
                    assert(false);
                }
                assert(tb[q - 1] == x);
                assert(tb.contains(x));
            }
            if tb.contains(x) {
                let p = choose|p: int| 0 <= p < tb.len() && tb[p] == x;
                assert(b[p + 1] == x);
                assert(key_lt(b[0], b[p + 1]));
                assert(b.contains(x));
                assert(a.contains(x));
                let q = choose|q: int| 0 <= q < a.len() && a[q] == x;
                if q == 0 {
                    lemma_key_connected(b[0], x);
                    assert(false);
                }
                assert(ta[q - 1] == x);
                assert(ta.contains(x));
            }
        }
        lemma_histories_converge(ta, tb);
        assert(a.len() == b.len());
        assert forall|k: int| 0 <= k < a.len() implies a[k] == b[k] by {
            if k > 0 {
                assert(ta[k - 1] == a[k]);
                assert(tb[k - 1] == b[k]);
            }
        }
        assert(a =~= b);
    }
}

/// What one merge does to a log's contents: the result is sorted and free of
/// duplicate identities; a fresh operation enters, one place longer, with
/// everything else kept; a known identity changes nothing.
pub proof fn lemma_merged_contents<T>(s: Seq<Op<T>>, op: Op<T>)
    requires
        sorted(s),
        unique_ids(s),
    ensures
        sorted(merged(s, op)),
        unique_ids(merged(s, op)),
        has_id(s, op.actor, op.counter) ==> merged(s, op) == s,
        !has_id(s, op.actor, op.counter) ==> {
            &&& merged(s, op).len() == s.len() + 1
            &&& merged(s, op).contains(op)
            &&& forall|x: Op<T>| #[trigger]
                merged(s, op).contains(x) <==> s.contains(x) || x == op
        },
{
    if !has_id(s, op.actor, op.counter) {
        lemma_insert_sorted(s, op);
    }
}

/// Merging the same operation twice leaves the same log as merging it once.
pub proof fn lemma_merge_idempotent<T>(s: Seq<Op<T>>, op: Op<T>)
    requires
        sorted(s),
    ensures
        merged(merged(s, op), op) == merged(s, op),
{
    if !has_id(s, op.actor, op.counter) {
        lemma_insert_sorted(s, op);
    }
}

/// Merging two operations yields the same log in either order, as long as the
/// two do not claim one identity for different contents — which operations
/// authored by the rules of this history never do.
pub proof fn lemma_merge_commutes<T>(s: Seq<Op<T>>, op1: Op<T>, op2: Op<T>)
    requires
        sorted(s),
        same_id(op1, op2) ==> op1 == op2,
    ensures
        merged(merged(s, op1), op2) == merged(merged(s, op2), op1),
{
    let fresh1 = !has_id(s, op1.actor, op1.counter);
    let fresh2 = !has_id(s, op2.actor, op2.counter);
    if fresh1 {
        lemma_insert_sorted(s, op1);
    }
    if fresh2 {
        lemma_insert_sorted(s, op2);
    }
    if op1 == op2 {
        lemma_merge_idempotent(s, op1);
    } else if fresh1 && fresh2 {
        // Distinct identities: both end up inserted, and sorted logs with the
        // same contents are equal.
        assert(!same_id(op1, op2));
        let l1 = insert_sorted(s, op1);
        let r1 = insert_sorted(s, op2);
        assert(merged(s, op1) == l1);
        assert(merged(s, op2) == r1);
        assert forall|a: PublicKey, c: u64|
            !has_id(s, a, c) && !(a == op1.actor && c == op1.counter) implies !has_id(
            l1,
            a,
            c,
        ) by {}
        assert(!has_id(l1, op2.actor, op2.counter));
        assert(!has_id(r1, op1.actor, op1.counter));
        lemma_insert_sorted(l1, op2);
        lemma_insert_sorted(r1, op1);
        let l2 = insert_sorted(l1, op2);
        let r2 = insert_sorted(r1, op1);
        assert forall|x: Op<T>| l2.contains(x) <==> r2.contains(x) by {
            if l2.contains(x) {
                assert(l1.contains(x) || x == op2);
                assert(s.contains(x) || x == op1 || x == op2);
                if s.contains(x) {
                    assert(r1.contains(x));
                    assert(r2.contains(x));
                } else if x == op1 {
                    assert(r2.contains(op1));
                } else {
                    assert(r1.contains(op2));
                    assert(r2.contains(x));
                }
            }
            if r2.contains(x) {
                assert(r1.contains(x) || x == op1);
                assert(s.contains(x) || x == op2 || x == op1);
                if s.contains(x) {
                    assert(l1.contains(x));
                    assert(l2.contains(x));
                } else if x == op2 {
                    assert(l2.contains(op2));
                } else {
                    assert(l1.contains(op1));
                    assert(l2.contains(x));
                }
            }
        }
        lemma_histories_converge(l2, r2);
    } else if fresh1 {
        // op2 was already present, and remains so after inserting op1.
        assert(merged(s, op2) == s);
        assert(has_id(insert_sorted(s, op1), op2.actor, op2.counter));
    } else if fresh2 {
        assert(merged(s, op1) == s);
        assert(has_id(insert_sorted(s, op2), op1.actor, op1.counter));
    }
}

/// Mirrored logs take a mirrored insertion at the same place.
proof fn lemma_insert_mirrored<T>(
    xa: Seq<Op<T>>,
    xb: Seq<Op<T>>,
    a: Op<T>,
    b: Op<T>,
    eqv: spec_fn(T, T) -> bool,
)
    requires
        xa.len() == xb.len(),
        forall|i: int| 0 <= i < xa.len() ==> op_mirrors(#[trigger] xa[i], xb[i], eqv),
        op_mirrors(a, b, eqv),
    ensures
        insert_sorted(xa, a).len() == insert_sorted(xb, b).len(),
        forall|i: int|
            0 <= i < insert_sorted(xa, a).len() ==> op_mirrors(
                #[trigger] insert_sorted(xa, a)[i],
                insert_sorted(xb, b)[i],
                eqv,
            ),
    decreases xa.len(),
{
    let ra = insert_sorted(xa, a);
    let rb = insert_sorted(xb, b);
    if xa.len() == 0 {
        assert(ra[0] == a && rb[0] == b);
    } else {
        assert(op_mirrors(xa[0], xb[0], eqv));
        // The sort key reads only the identity and the position, which the
        // mirrors share.
        assert(key_lt(a, xa[0]) <==> key_lt(b, xb[0]));
        if key_lt(a, xa[0]) {
            assert forall|i: int| 0 <= i < ra.len() implies op_mirrors(
                #[trigger] ra[i],
                rb[i],
                eqv,
            ) by {
                if i == 0 {
                    assert(ra[0] == a && rb[0] == b);
                } else {
                    assert(ra[i] == xa[i - 1] && rb[i] == xb[i - 1]);
                }
            }
        } else {
            let ta = xa.drop_first();
            let tb = xb.drop_first();
            assert forall|i: int| 0 <= i < ta.len() implies op_mirrors(
                #[trigger] ta[i],
                tb[i],
                eqv,
            ) by {
                assert(ta[i] == xa[i + 1] && tb[i] == xb[i + 1]);
            }
            lemma_insert_mirrored(ta, tb, a, b, eqv);
            assert(ra == seq![xa[0]] + insert_sorted(ta, a));
            assert(rb == seq![xb[0]] + insert_sorted(tb, b));
            assert forall|i: int| 0 <= i < ra.len() implies op_mirrors(
                #[trigger] ra[i],
                rb[i],
                eqv,
            ) by {
                if i == 0 {
                    assert(ra[0] == xa[0] && rb[0] == xb[0]);
                } else {
                    assert(ra[i] == insert_sorted(ta, a)[i - 1]);
                    assert(rb[i] == insert_sorted(tb, b)[i - 1]);
                }
            }
        }
    }
}

/// Mirrored logs stay mirrored under mirrored merges: replicas that merge
/// the same operations up to faithful payload copies hold, operation for
/// operation, the same identities at the same places, with values related
/// by `eqv`. This carries convergence over to histories whose broadcast
/// operations carry copies of the recorded payloads.
pub proof fn lemma_mirrored_merge<T>(
    xa: Seq<Op<T>>,
    xb: Seq<Op<T>>,
    a: Op<T>,
    b: Op<T>,
    eqv: spec_fn(T, T) -> bool,
)
    requires
        xa.len() == xb.len(),
        forall|i: int| 0 <= i < xa.len() ==> op_mirrors(#[trigger] xa[i], xb[i], eqv),
        op_mirrors(a, b, eqv),
    ensures
        merged(xa, a).len() == merged(xb, b).len(),
        forall|i: int|
            0 <= i < merged(xa, a).len() ==> op_mirrors(
                #[trigger] merged(xa, a)[i],
                merged(xb, b)[i],
                eqv,
            ),
{
    // The two logs hold the same identities, so they agree on whether the
    // merge is a duplicate.
    assert(has_id(xa, a.actor, a.counter) <==> has_id(xb, b.actor, b.counter)) by {
        if has_id(xa, a.actor, a.counter) {
            let i = choose|i: int|
                0 <= i < xa.len() && (#[trigger] xa[i]).actor == a.actor && xa[i].counter
                    == a.counter;
            assert(op_mirrors(xa[i], xb[i], eqv));
            assert(xb[i].actor == b.actor && xb[i].counter == b.counter);
        }
        if has_id(xb, b.actor, b.counter) {
            let i = choose|i: int|
                0 <= i < xb.len() && (#[trigger] xb[i]).actor == b.actor && xb[i].counter
                    == b.counter;
            assert(op_mirrors(xa[i], xb[i], eqv));
            assert(xa[i].actor == a.actor && xa[i].counter == a.counter);
        }
    }
    if !has_id(xa, a.actor, a.counter) {
        lemma_insert_mirrored(xa, xb, a, b, eqv);
    }
}

/// An operation authored at the end of a bounded log lands at the end.
proof fn lemma_append_at_end<T>(s: Seq<Op<T>>, op: Op<T>)
    requires
        sorted(s),
        positions_bounded(s),
        op.position == s.len(),
    ensures
        insert_sorted(s, op) == s.push(op),
        positions_bounded(s.push(op)),
{
    assert forall|k: int| 0 <= k < s.len() implies !key_lt(op, #[trigger] s[k]) by {
        assert(s[k].position < s.len());
    }
    lemma_insert_sorted_at(s, op, s.len() as int);
    assert(s.insert(s.len() as int, op) =~= s.push(op));
    assert forall|i: int|
        0 <= i < s.push(op).len() implies (#[trigger] s.push(op)[i]).position < s.push(
        op,
    ).len() by {
        if i < s.len() {
            assert(s.push(op)[i] == s[i]);
        } else {
            assert(s.push(op)[i] == op);
        }
    }
}

/// Where [`insert_sorted`] puts the new operation: at the first index whose
/// element sorts above it.
proof fn lemma_insert_sorted_at<T>(s: Seq<Op<T>>, op: Op<T>, j: int)
    requires
        sorted(s),
        0 <= j <= s.len(),
        forall|k: int| 0 <= k < j ==> !key_lt(op, #[trigger] s[k]),
        j < s.len() ==> key_lt(op, s[j]),
    ensures
        insert_sorted(s, op) == s.insert(j, op),
    decreases s.len(),
{
    if s.len() == 0 {
        assert(insert_sorted(s, op) =~= s.insert(0, op));
    } else if key_lt(op, s[0]) {
        assert(j == 0);
        assert(insert_sorted(s, op) =~= s.insert(0, op));
    } else {
        assert(j >= 1);
        let t = s.drop_first();
        assert forall|p: int, q: int| 0 <= p < q < t.len() implies #[trigger] key_lt(
            t[p],
            t[q],
        ) by {
            assert(t[p] == s[p + 1] && t[q] == s[q + 1]);
        }
        assert forall|k: int| 0 <= k < j - 1 implies !key_lt(op, #[trigger] t[k]) by {
            assert(t[k] == s[k + 1]);
        }
        if j - 1 < t.len() {
            assert(t[j - 1] == s[j]);
        }
        lemma_insert_sorted_at(t, op, j - 1);
        assert(insert_sorted(s, op) == seq![s[0]] + t.insert(j - 1, op));
        assert(seq![s[0]] + t.insert(j - 1, op) =~= s.insert(j, op));
    }
}

/// A replicated append-only history: the log of merged operations, together
/// with the local actor's identity and that actor's next operation counter.
///
/// Mutate a history only through [`History::append`] and [`History::apply`]:
/// they keep [`History::wf`], which every contract here assumes.
#[derive(Clone)]
pub struct History<T> {
    /// The identity that tags this replica's own appends.
    pub actor: PublicKey,
    /// The counter the local actor's next append will carry.
    pub next_counter: u64,
    /// The merged operations, sorted by [`key_lt`].
    pub ops: Vec<Op<T>>,
}

impl<T> View for History<T> {
    type V = Seq<Op<T>>;

    open spec fn view(&self) -> Seq<Op<T>> {
        self.ops@
    }
}

impl<T> History<T> {
    /// The identity that tags this replica's own appends.
    pub open spec fn spec_actor(self) -> PublicKey {
        self.actor
    }

    /// The counter the local actor's next append will carry.
    pub open spec fn spec_next_counter(self) -> u64 {
        self.next_counter
    }

    /// Well-formedness: the log is sorted by the merge order, no identity
    /// appears twice, and the local actor's recorded operations all lie below
    /// its next counter — except for the one counter value that can never be
    /// authored locally, which a remote echo may carry.
    pub open spec fn wf(self) -> bool {
        &&& sorted(self@)
        &&& unique_ids(self@)
        &&& forall|i: int|
            0 <= i < self@.len() && (#[trigger] self@[i]).actor == self.actor ==> self@[i].counter
                < self.next_counter || self@[i].counter == u64::MAX
    }

    /// Whether the local actor still has a fresh counter for one more append:
    /// a machine limit, not a rule of the data model.
    pub open spec fn can_author(self) -> bool {
        self.next_counter < u64::MAX
    }

    /// The operation this history would author next for `value`.
    pub open spec fn authored(self, value: T) -> Op<T> {
        Op { actor: self.actor, counter: self.next_counter, position: self@.len() as u64, value }
    }

    /// Creates an empty history owned by `actor`.
    pub fn new(actor: PublicKey) -> (h: History<T>)
        ensures
            h.wf(),
            h@ == Seq::<Op<T>>::empty(),
            h.spec_actor() == actor,
            h.spec_next_counter() == 0,
            h.can_author(),
    {
        History { actor, next_counter: 0, ops: Vec::new() }
    }

    /// The number of merged operations.
    pub fn len(&self) -> (n: usize)
        ensures
            n == self@.len(),
    {
        self.ops.len()
    }

    /// The operation at absolute position `i` of the log.
    pub fn op_at(&self, i: usize) -> (op: &Op<T>)
        requires
            i < self@.len(),
        ensures
            *op == self@[i as int],
    {
        &self.ops[i]
    }

    /// Returns the local actor's identity.
    pub fn actor(&self) -> (r: &PublicKey)
        ensures
            *r == self.spec_actor(),
    {
        &self.actor
    }

    /// Returns the counter the next local append will carry.
    pub fn next_counter(&self) -> (r: u64)
        ensures
            r == self.spec_next_counter(),
    {
        self.next_counter
    }

    /// Whether the log holds an operation with the given identity.
    fn contains_id(&self, actor: &PublicKey, counter: u64) -> (r: bool)
        ensures
            r == has_id(self@, *actor, counter),
    {
        let n = self.ops.len();
        let mut i: usize = 0;
        while i < n
            invariant
                n == self@.len(),
                i <= n,
                forall|k: int|
                    0 <= k < i ==> !((#[trigger] self@[k]).actor == *actor && self@[k].counter
                        == counter),
            decreases n - i,
        {
            if self.ops[i].actor == *actor && self.ops[i].counter == counter {
                return true;
            }
            i = i + 1;
        }
        false
    }

    /// The index at which `op` belongs: the first whose element sorts above
    /// it.
    fn insert_index(&self, op: &Op<T>) -> (j: usize)
        ensures
            j <= self@.len(),
            forall|k: int| 0 <= k < j ==> !key_lt(*op, #[trigger] self@[k]),
            j < self@.len() ==> key_lt(*op, self@[j as int]),
    {
        let n = self.ops.len();
        let mut j: usize = 0;
        while j < n
            invariant
                n == self@.len(),
                j <= n,
                forall|k: int| 0 <= k < j ==> !key_lt(*op, #[trigger] self@[k]),
            decreases n - j,
        {
            if op_lt(op, &self.ops[j]) {
                return j;
            }
            j = j + 1;
        }
        j
    }

    /// Merges one operation: a no-op if its identity is already present,
    /// otherwise it enters the log at its sorted place. Total and
    /// error-free, as remote merges must be.
    pub fn apply(&mut self, op: Op<T>)
        requires
            old(self).wf(),
        ensures
            final(self).wf(),
            final(self)@ == merged(old(self)@, op),
            final(self).spec_actor() == old(self).spec_actor(),
            final(self).spec_next_counter() == if op.actor == old(self).spec_actor() && op.counter
                >= old(self).spec_next_counter() {
                if op.counter == u64::MAX {
                    u64::MAX
                } else {
                    (op.counter + 1) as u64
                }
            } else {
                old(self).spec_next_counter()
            },
            positions_bounded(old(self)@) && op.position <= old(self)@.len() ==> positions_bounded(
                final(self)@,
            ),
    {
        if op.actor == self.actor && op.counter >= self.next_counter {
            // Keep the local counter ahead of every own operation ever seen,
            // so a later local append cannot reuse an identity.
            self.next_counter = if op.counter == u64::MAX {
                u64::MAX
            } else {
                op.counter + 1
            };
        }
        if !self.contains_id(&op.actor, op.counter) {
            let j = self.insert_index(&op);
            proof {
                lemma_insert_sorted_at(self@, op, j as int);
                lemma_insert_sorted(self@, op);
                let s = self@;
                let r = insert_sorted(s, op);
                if positions_bounded(s) && op.position <= s.len() {
                    assert forall|i: int| 0 <= i < r.len() implies (#[trigger] r[i]).position
                        < r.len() by {
                        assert(r.contains(r[i]));
                        if r[i] == op {
                        } else {
                            assert(s.contains(r[i]));
                            let m = choose|m: int| 0 <= m < s.len() && s[m] == r[i];
                            assert(s[m].position < s.len());
                        }
                    }
                }
            }
            self.ops.insert(j, op);
        }
    }

    /// Appends a value authored by the local actor: the operation
    /// [`History::authored`] describes enters the log, always as a fresh
    /// operation, and the actor's counter moves on.
    pub fn append(&mut self, value: T)
        requires
            old(self).wf(),
            old(self).can_author(),
        ensures
            final(self).wf(),
            final(self)@ == merged(old(self)@, old(self).authored(value)),
            final(self)@ == insert_sorted(old(self)@, old(self).authored(value)),
            final(self)@.len() == old(self)@.len() + 1,
            final(self).spec_actor() == old(self).spec_actor(),
            final(self).spec_next_counter() == old(self).spec_next_counter() + 1,
            positions_bounded(old(self)@) ==> final(self)@ == old(self)@.push(
                old(self).authored(value),
            ) && positions_bounded(final(self)@),
    {
        let ghost prev = *self;
        let op = Op {
            actor: self.actor,
            counter: self.next_counter,
            position: self.ops.len() as u64,
            value,
        };
        assert(op == prev.authored(value));
        assert(!has_id(self@, op.actor, op.counter));
        let j = self.insert_index(&op);
        proof {
            lemma_insert_sorted_at(self@, op, j as int);
            lemma_insert_sorted(self@, op);
            if positions_bounded(self@) {
                lemma_append_at_end(self@, op);
            }
        }
        self.next_counter = self.next_counter + 1;
        self.ops.insert(j, op);
    }
}

/// Compares two operations in the deterministic merge order.
fn op_lt<T>(a: &Op<T>, b: &Op<T>) -> (r: bool)
    ensures
        r == key_lt(*a, *b),
{
    if a.position < b.position {
        true
    } else if b.position < a.position {
        false
    } else if a.actor.lt(&b.actor) {
        true
    } else if b.actor.lt(&a.actor) {
        false
    } else {
        a.counter < b.counter
    }
}

} // verus!
