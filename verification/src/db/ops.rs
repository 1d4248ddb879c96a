//! The mathematical model of the storage trio, and the primitive write
//! operations that a transaction applies to it atomically.

use vstd::prelude::*;

verus! {

/// The abstract state of the three namespaces: each is a finite map from
/// byte keys to byte values. `meta` holds encoded metadata records; `ttl`
/// maps a composite `big_endian(expiry) ++ key` to the bare key.
#[verifier::ext_equal]
pub struct DbView {
    pub data: Map<Seq<u8>, Seq<u8>>,
    pub meta: Map<Seq<u8>, Seq<u8>>,
    pub ttl: Map<Seq<u8>, Seq<u8>>,
}

impl DbView {
    /// The maps of a real database are finite.
    pub open spec fn finite(self) -> bool {
        self.data.dom().finite() && self.meta.dom().finite() && self.ttl.dom().finite()
    }
}

/// One primitive write against one of the three namespaces.
#[derive(Debug, Clone, PartialEq, Eq)]
pub enum TreeOp {
    DataPut(Vec<u8>, Vec<u8>),
    DataDel(Vec<u8>),
    MetaPut(Vec<u8>, Vec<u8>),
    MetaDel(Vec<u8>),
    TtlPut(Vec<u8>, Vec<u8>),
    TtlDel(Vec<u8>),
}

/// The effect of one primitive write on the abstract state. Deleting an
/// absent key leaves the namespace as it was.
pub open spec fn spec_apply_op(v: DbView, op: TreeOp) -> DbView {
    match op {
        TreeOp::DataPut(k, val) => DbView { data: v.data.insert(k@, val@), ..v },
        TreeOp::DataDel(k) => DbView { data: v.data.remove(k@), ..v },
        TreeOp::MetaPut(k, val) => DbView { meta: v.meta.insert(k@, val@), ..v },
        TreeOp::MetaDel(k) => DbView { meta: v.meta.remove(k@), ..v },
        TreeOp::TtlPut(k, val) => DbView { ttl: v.ttl.insert(k@, val@), ..v },
        TreeOp::TtlDel(k) => DbView { ttl: v.ttl.remove(k@), ..v },
    }
}

/// The effect of a sequence of primitive writes, applied in order.
pub open spec fn spec_apply_ops(v: DbView, ops: Seq<TreeOp>) -> DbView
    decreases ops.len(),
{
    if ops.len() == 0 {
        v
    } else {
        spec_apply_ops(spec_apply_op(v, ops[0]), ops.skip(1))
    }
}

/// Appending one write applies it after the rest.
pub proof fn lemma_apply_ops_push(v: DbView, ops: Seq<TreeOp>, op: TreeOp)
    ensures
        spec_apply_ops(v, ops.push(op)) == spec_apply_op(spec_apply_ops(v, ops), op),
    decreases ops.len(),
{
    if ops.len() == 0 {
        assert(ops.push(op)[0] == op);
        assert(ops.push(op).skip(1) =~= Seq::<TreeOp>::empty());
        assert(spec_apply_ops(spec_apply_op(v, op), Seq::<TreeOp>::empty()) == spec_apply_op(
            v,
            op,
        ));
        assert(spec_apply_ops(v, ops) == v);
    } else {
        assert(ops.push(op)[0] == ops[0]);
        assert(ops.push(op).skip(1) =~= ops.skip(1).push(op));
        lemma_apply_ops_push(spec_apply_op(v, ops[0]), ops.skip(1), op);
    }
}

/// Unfolds the application of one write.
pub proof fn lemma_apply_one(v: DbView, a: TreeOp)
    ensures
        spec_apply_ops(v, seq![a]) == spec_apply_op(v, a),
{
    assert(seq![a].skip(1) =~= Seq::<TreeOp>::empty());
    assert(spec_apply_ops(spec_apply_op(v, a), Seq::<TreeOp>::empty()) == spec_apply_op(v, a));
}

/// Unfolds the application of two writes.
pub proof fn lemma_apply_two(v: DbView, a: TreeOp, b: TreeOp)
    ensures
        spec_apply_ops(v, seq![a, b]) == spec_apply_op(spec_apply_op(v, a), b),
{
    assert(seq![a, b].skip(1) =~= seq![b]);
    lemma_apply_one(spec_apply_op(v, a), b);
}

/// Unfolds the application of three writes.
pub proof fn lemma_apply_three(v: DbView, a: TreeOp, b: TreeOp, c: TreeOp)
    ensures
        spec_apply_ops(v, seq![a, b, c]) == spec_apply_op(
            spec_apply_op(spec_apply_op(v, a), b),
            c,
        ),
{
    assert(seq![a, b, c].skip(1) =~= seq![b, c]);
    lemma_apply_two(spec_apply_op(v, a), b, c);
}

/// Unfolds the application of four writes.
pub proof fn lemma_apply_four(v: DbView, a: TreeOp, b: TreeOp, c: TreeOp, d: TreeOp)
    ensures
        spec_apply_ops(v, seq![a, b, c, d]) == spec_apply_op(
            spec_apply_op(spec_apply_op(spec_apply_op(v, a), b), c),
            d,
        ),
{
    assert(seq![a, b, c, d].skip(1) =~= seq![b, c, d]);
    lemma_apply_three(spec_apply_op(v, a), b, c, d);
}

/// Applying writes keeps the state finite.
pub proof fn lemma_apply_ops_finite(v: DbView, ops: Seq<TreeOp>)
    requires
        v.finite(),
    ensures
        spec_apply_ops(v, ops).finite(),
    decreases ops.len(),
{
    if ops.len() > 0 {
        lemma_apply_ops_finite(spec_apply_op(v, ops[0]), ops.skip(1));
    }
}

} // verus!
