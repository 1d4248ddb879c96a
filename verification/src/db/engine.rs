//! The trusted boundary to the `sled` embedded engine.
//!
//! Everything the verified code knows of a `sled::Tree` is said here, over
//! the uninterpreted contents map `tree_entries`. Each wrapper names the
//! engine function it relies on; the rest of the library is proved against
//! these contracts.

use sled::transaction::Transactional;
use vstd::prelude::*;

use crate::bytes::lex_lt;
use crate::db::errors::TransientError;
use crate::db::ops::{spec_apply_ops, DbView, TreeOp};

verus! {

#[verifier::external_type_specification]
#[verifier::external_body]
pub struct ExSledDb(sled::Db);

#[verifier::external_type_specification]
#[verifier::external_body]
pub struct ExSledTree(sled::Tree);

#[verifier::external_type_specification]
#[verifier::external_body]
pub struct ExTransactionalTree(sled::transaction::TransactionalTree);

#[verifier::external_type_specification]
#[verifier::external_body]
pub struct ExUnabortableTransactionError(sled::transaction::UnabortableTransactionError);

/// What a tree holds: a map from byte keys to byte values.
pub uninterp spec fn tree_entries(t: sled::Tree) -> Map<Seq<u8>, Seq<u8>>;

/// The combined abstract state of the three trees of a database.
pub open spec fn trio_view(data: sled::Tree, meta: sled::Tree, ttl: sled::Tree) -> DbView {
    DbView { data: tree_entries(data), meta: tree_entries(meta), ttl: tree_entries(ttl) }
}

/// Relies on `sled::Config::open`: opens or creates the database rooted at
/// `path`, with the given cache capacity in bytes.
#[verifier::external_body]
pub(crate) fn open_db(path: &str, cache_bytes: u64) -> (r: Result<sled::Db, TransientError>)
    ensures
        r matches Err(e) ==> e matches TransientError::SledError { .. },
{
    sled::Config::new().path(path).cache_capacity(cache_bytes).open().map_err(
        |e| TransientError::SledError { error: e.to_string() },
    )
}

/// Relies on `sled::Db::open_tree`: the named tree, which holds finitely
/// many entries.
#[verifier::external_body]
pub(crate) fn open_tree(db: &sled::Db, name: &str) -> (r: Result<sled::Tree, TransientError>)
    ensures
        r matches Ok(t) ==> tree_entries(t).dom().finite(),
        r matches Err(e) ==> e matches TransientError::SledError { .. },
{
    db.open_tree(name).map_err(|e| TransientError::SledError { error: e.to_string() })
}

/// Relies on `sled::Tree::clone`: another handle to the same tree, with
/// equal contents at the moment of cloning. The contents map models a
/// handle's value, so a clone is sound only as a read-only snapshot that
/// does not outlive the exclusive borrow it was taken under; the
/// transaction guard uses it exactly so.
#[verifier::external_body]
pub(crate) fn tree_clone(t: &sled::Tree) -> (r: sled::Tree)
    ensures
        tree_entries(r) == tree_entries(*t),
{
    t.clone()
}

/// Relies on `sled::Tree::get`: the value stored under `k`, if any.
#[verifier::external_body]
pub(crate) fn tree_get(t: &sled::Tree, k: &[u8]) -> (r: Result<Option<Vec<u8>>, TransientError>)
    ensures
        r matches Ok(Some(v)) ==> tree_entries(*t).contains_pair(k@, v@),
        r matches Ok(None) ==> !tree_entries(*t).dom().contains(k@),
        r matches Err(e) ==> e matches TransientError::SledError { .. },
{
    match t.get(k) {
        Ok(Some(v)) => Ok(Some(v.to_vec())),
        Ok(None) => Ok(None),
        Err(e) => Err(TransientError::SledError { error: e.to_string() }),
    }
}

/// Relies on `sled::Tree::len`: how many entries the tree holds. sled
/// counts by scanning and has no error channel here, so a storage fault
/// mid-scan could miscount; the count is exact under a healthy engine.
#[verifier::external_body]
pub(crate) fn tree_len(t: &sled::Tree) -> (r: usize)
    requires
        tree_entries(*t).dom().finite(),
    ensures
        r == tree_entries(*t).dom().len(),
{
    t.len()
}

/// Relies on `sled::Tree::flush`: synchronizes the tree to disk; the
/// contents are untouched (the parameter is shared).
#[verifier::external_body]
pub(crate) fn tree_flush(t: &sled::Tree) -> (r: Result<(), TransientError>)
    ensures
        r matches Err(e) ==> e matches TransientError::SledError { .. },
{
    match t.flush() {
        Ok(_) => Ok(()),
        Err(e) => Err(TransientError::SledError { error: e.to_string() }),
    }
}

/// Relies on `sled::Tree::iter`: every entry of the tree, in ascending
/// lexicographic key order.
#[verifier::external_body]
pub(crate) fn tree_iter_vec(t: &sled::Tree) -> (r: Result<
    Vec<(Vec<u8>, Vec<u8>)>,
    TransientError,
>)
    ensures
        r matches Ok(v) ==> {
            &&& forall|i: int|
                0 <= i < v@.len() ==> tree_entries(*t).contains_pair(v@[i].0@, v@[i].1@)
            &&& forall|k: Seq<u8>|
                tree_entries(*t).dom().contains(k) ==> exists|i: int|
                    0 <= i < v@.len() && v@[i].0@ == k
            &&& forall|i: int, j: int| 0 <= i < j < v@.len() ==> lex_lt(v@[i].0@, v@[j].0@)
        },
        r matches Err(e) ==> e matches TransientError::SledError { .. },
{
    t.iter().map(
        |item| match item {
            Ok((k, v)) => Ok((k.to_vec(), v.to_vec())),
            Err(e) => Err(TransientError::SledError { error: e.to_string() }),
        },
    ).collect()
}

/// Relies on `sled::Tree::compare_and_swap`: replaces the value under `k`
/// with `new_val` exactly when the present value equals `expected`.
#[verifier::external_body]
pub(crate) fn tree_cas(t: &mut sled::Tree, k: &[u8], expected: &Vec<u8>, new_val: Vec<u8>) -> (r:
    Result<bool, TransientError>)
    ensures
        r matches Ok(true) ==> tree_entries(*old(t)).contains_pair(k@, expected@) && tree_entries(
            *final(t),
        ) == tree_entries(*old(t)).insert(k@, new_val@),
        r matches Ok(false) ==> tree_entries(*final(t)) == tree_entries(*old(t)) && tree_entries(
            *old(t),
        ).get(k@) != Some(expected@),
        r is Err ==> tree_entries(*final(t)) == tree_entries(*old(t)),
        r matches Err(e) ==> e matches TransientError::SledError { .. },
{
    match t.compare_and_swap(k, Some(expected.as_slice()), Some(new_val)) {
        Ok(Ok(())) => Ok(true),
        Ok(Err(_)) => Ok(false),
        Err(e) => Err(TransientError::SledError { error: e.to_string() }),
    }
}

/// Relies on `sled::transaction::TransactionalTree::insert`.
#[verifier::external_body]
fn tt_insert(t: &sled::transaction::TransactionalTree, k: &Vec<u8>, v: &Vec<u8>) -> Result<
    (),
    sled::transaction::UnabortableTransactionError,
> {
    match t.insert(k.as_slice(), v.as_slice()) {
        Ok(_) => Ok(()),
        Err(e) => Err(e),
    }
}

/// Relies on `sled::transaction::TransactionalTree::remove`.
#[verifier::external_body]
fn tt_remove(t: &sled::transaction::TransactionalTree, k: &Vec<u8>) -> Result<
    (),
    sled::transaction::UnabortableTransactionError,
> {
    match t.remove(k.as_slice()) {
        Ok(_) => Ok(()),
        Err(e) => Err(e),
    }
}

/// The body of the transaction closure: performs each primitive write on
/// the transactional handle of its namespace, in order.
fn apply_ops_in_tx(
    d: &sled::transaction::TransactionalTree,
    m: &sled::transaction::TransactionalTree,
    t: &sled::transaction::TransactionalTree,
    ops: &Vec<TreeOp>,
) -> Result<(), sled::transaction::UnabortableTransactionError> {
    let mut i: usize = 0;
    while i < ops.len()
        invariant
            0 <= i <= ops@.len(),
        decreases ops@.len() - i,
    {
        let res = match &ops[i] {
            TreeOp::DataPut(k, v) => tt_insert(d, k, v),
            TreeOp::DataDel(k) => tt_remove(d, k),
            TreeOp::MetaPut(k, v) => tt_insert(m, k, v),
            TreeOp::MetaDel(k) => tt_remove(m, k),
            TreeOp::TtlPut(k, v) => tt_insert(t, k, v),
            TreeOp::TtlDel(k) => tt_remove(t, k),
        };
        match res {
            Ok(_) => (),
            Err(e) => {
                return Err(e);
            },
        }
        i += 1;
    }
    Ok(())
}

/// Relies on `sled::Transactional::transaction` over the three trees: the
/// closure body above is run against transactional handles, and its writes
/// are committed atomically at a single serialization point, or rolled
/// back entirely. On success, the contents of the trees are exactly the
/// old contents with the writes applied in order; on failure, nothing has
/// changed.
#[verifier::external_body]
pub(crate) fn run_transaction(
    data: &mut sled::Tree,
    meta: &mut sled::Tree,
    ttl: &mut sled::Tree,
    ops: &Vec<TreeOp>,
) -> (r: Result<(), TransientError>)
    ensures
        r is Ok ==> trio_view(*final(data), *final(meta), *final(ttl)) == spec_apply_ops(
            trio_view(*old(data), *old(meta), *old(ttl)),
            ops@,
        ),
        r is Err ==> trio_view(*final(data), *final(meta), *final(ttl)) == trio_view(
            *old(data),
            *old(meta),
            *old(ttl),
        ),
        r matches Err(e) ==> e == TransientError::SledTransactionError,
{
    let res: Result<(), sled::transaction::TransactionError<()>> = (&*data, &*meta, &*ttl)
        .transaction(|tx| {
            let (d, m, t) = tx;
            apply_ops_in_tx(d, m, t, ops).map_err(|e| e.into())
        });
    res.map_err(|_| TransientError::SledTransactionError)
}

} // verus!
