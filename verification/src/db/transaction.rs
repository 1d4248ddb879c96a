//! The closure-scoped transaction guard: a composite of engine operations
//! over the three namespaces that commits atomically or not at all.
//!
//! The guard stages its writes as primitive operations and reads through
//! the staged overlay, so a transaction sees its own earlier writes. Only
//! a successful closure commits: the staged writes are then applied in one
//! engine transaction, and the deferred metric deltas are added to the
//! store's tallies. A failed closure commits nothing.

use vstd::prelude::*;

use crate::clock::now_seconds;
use crate::db::engine::{run_transaction, tree_clone, tree_entries, tree_get, trio_view};
use crate::db::errors::TransientError;
use crate::db::ops::{
    lemma_apply_ops_push, spec_apply_op, spec_apply_ops, DbView, TreeOp,
};
use crate::db::{
    spec_composite, spec_increment, spec_meta_of, spec_new_meta, spec_old_ttl, spec_remove,
    spec_set, spec_ttl_abs, ttl_composite, DB,
};
use crate::metadata::{spec_meta_decode, Metadata};
use crate::metrics::Metrics;
use vstd::string::StringSliceAdditionalSpecFns;
use vstd::utf8::{decode_utf8, valid_utf8};

verus! {

broadcast use crate::bytes::lemma_u64_be_len;

/// `a + 1` on a signed tally, capped at the extremes.
pub open spec fn spec_i64_inc(a: i64) -> i64 {
    if a == i64::MAX {
        a
    } else {
        (a + 1) as i64
    }
}

/// `a - 1` on a signed tally, capped at the extremes.
pub open spec fn spec_i64_dec(a: i64) -> i64 {
    if a == i64::MIN {
        a
    } else {
        (a - 1) as i64
    }
}

/// The magnitude of a signed tally.
pub open spec fn spec_i64_mag(a: i64) -> u64 {
    if a >= 0 {
        a as u64
    } else {
        (-(a as int)) as u64
    }
}

fn i64_inc(a: i64) -> (r: i64)
    ensures
        r == spec_i64_inc(a),
{
    if a == i64::MAX {
        a
    } else {
        a + 1
    }
}

fn i64_dec(a: i64) -> (r: i64)
    ensures
        r == spec_i64_dec(a),
{
    if a == i64::MIN {
        a
    } else {
        a - 1
    }
}

fn i64_mag(a: i64) -> (r: u64)
    ensures
        r == spec_i64_mag(a),
{
    if a >= 0 {
        a as u64
    } else if a == i64::MIN {
        0x8000000000000000u64
    } else {
        (-a) as u64
    }
}

/// The metric deltas a transaction accumulates while it runs. They are
/// applied to the store's tallies only when the transaction commits, so a
/// retried or aborted closure never counts.
#[derive(Debug, Clone, Copy, PartialEq, Eq)]
pub struct GuardMetricChanged {
    pub keys_total_changed: i64,
    pub ttl_keys_total_changed: i64,
    pub set_operation_total: u64,
    pub rm_operation_total: u64,
    pub inc_freq_operation_total: u64,
    pub get_operation_total: u64,
}

/// The tallies after a committed transaction's deltas are applied: the
/// key gauges move by the signed key deltas, and each operation counter
/// grows by its count.
pub open spec fn spec_apply_guard_metrics(m: Metrics, g: GuardMetricChanged) -> Metrics {
    let kd = g.keys_total_changed;
    let td = g.ttl_keys_total_changed;
    Metrics {
        keys_data: if kd > 0 {
            crate::metrics::sat_add(m.keys_data, spec_i64_mag(kd))
        } else {
            crate::metrics::sat_sub(m.keys_data, spec_i64_mag(kd))
        },
        keys_meta: if kd > 0 {
            crate::metrics::sat_add(m.keys_meta, spec_i64_mag(kd))
        } else {
            crate::metrics::sat_sub(m.keys_meta, spec_i64_mag(kd))
        },
        keys_ttl: if td > 0 {
            crate::metrics::sat_add(m.keys_ttl, spec_i64_mag(td))
        } else {
            crate::metrics::sat_sub(m.keys_ttl, spec_i64_mag(td))
        },
        ops_set: crate::metrics::sat_add(m.ops_set, g.set_operation_total),
        ops_rm: crate::metrics::sat_add(m.ops_rm, g.rm_operation_total),
        ops_increment_frequency: crate::metrics::sat_add(
            m.ops_increment_frequency,
            g.inc_freq_operation_total,
        ),
        ops_get: crate::metrics::sat_add(m.ops_get, g.get_operation_total),
        ..m
    }
}

/// The delta bundle of a transaction that has done nothing yet.
pub open spec fn spec_zero_deltas() -> GuardMetricChanged {
    GuardMetricChanged {
        keys_total_changed: 0,
        ttl_keys_total_changed: 0,
        set_operation_total: 0,
        rm_operation_total: 0,
        inc_freq_operation_total: 0,
        get_operation_total: 0,
    }
}

/// The deltas after one staged set: one key more, one set counted, and
/// the TTL delta adjusted for a dropped prior expiry and a gained new
/// one.
pub open spec fn spec_guard_set_deltas(
    g: GuardMetricChanged,
    had_old: bool,
    has_new: bool,
) -> GuardMetricChanged {
    let t0 = if had_old {
        spec_i64_dec(g.ttl_keys_total_changed)
    } else {
        g.ttl_keys_total_changed
    };
    GuardMetricChanged {
        keys_total_changed: spec_i64_inc(g.keys_total_changed),
        ttl_keys_total_changed: if has_new {
            spec_i64_inc(t0)
        } else {
            t0
        },
        set_operation_total: crate::metrics::sat_add(g.set_operation_total, 1),
        ..g
    }
}

/// The deltas after one staged remove: one key fewer, one removal
/// counted, and one TTL entry fewer when the record carried an expiry.
pub open spec fn spec_guard_remove_deltas(g: GuardMetricChanged, had_ttl: bool) -> GuardMetricChanged {
    GuardMetricChanged {
        keys_total_changed: spec_i64_dec(g.keys_total_changed),
        ttl_keys_total_changed: if had_ttl {
            spec_i64_dec(g.ttl_keys_total_changed)
        } else {
            g.ttl_keys_total_changed
        },
        rm_operation_total: crate::metrics::sat_add(g.rm_operation_total, 1),
        ..g
    }
}

impl GuardMetricChanged {
    /// No deltas yet.
    pub fn new() -> (r: GuardMetricChanged)
        ensures
            r == spec_zero_deltas(),
    {
        GuardMetricChanged {
            keys_total_changed: 0,
            ttl_keys_total_changed: 0,
            set_operation_total: 0,
            rm_operation_total: 0,
            inc_freq_operation_total: 0,
            get_operation_total: 0,
        }
    }

    /// Applies the accumulated deltas to the tallies.
    pub fn inc_all_metrics(&self, m: &mut Metrics)
        ensures
            *final(m) == spec_apply_guard_metrics(*old(m), *self),
    {
        let kd = i64_mag(self.keys_total_changed);
        if self.keys_total_changed > 0 {
            m.inc_amount_keys_total(crate::metrics::TreeKind::Data, kd);
            m.inc_amount_keys_total(crate::metrics::TreeKind::Meta, kd);
        } else {
            m.dec_amount_keys_total(crate::metrics::TreeKind::Data, kd);
            m.dec_amount_keys_total(crate::metrics::TreeKind::Meta, kd);
        }
        let td = i64_mag(self.ttl_keys_total_changed);
        if self.ttl_keys_total_changed > 0 {
            m.inc_amount_keys_total(crate::metrics::TreeKind::Ttl, td);
        } else {
            m.dec_amount_keys_total(crate::metrics::TreeKind::Ttl, td);
        }
        m.increment_amount_operations(crate::metrics::OpKind::SetOp, self.set_operation_total);
        m.increment_amount_operations(crate::metrics::OpKind::Rm, self.rm_operation_total);
        m.increment_amount_operations(
            crate::metrics::OpKind::IncrementFrequency,
            self.inc_freq_operation_total,
        );
        m.increment_amount_operations(crate::metrics::OpKind::Get, self.get_operation_total);
    }
}

/// Which namespace a staged write or read addresses.
#[derive(Debug, Clone, Copy, PartialEq, Eq)]
enum Ns {
    Data,
    Meta,
    Ttl,
}

/// The map of the chosen namespace.
spec fn spec_ns_map(v: DbView, ns: Ns) -> Map<Seq<u8>, Seq<u8>> {
    match ns {
        Ns::Data => v.data,
        Ns::Meta => v.meta,
        Ns::Ttl => v.ttl,
    }
}

/// Whether a staged write addresses this namespace and key.
spec fn spec_op_touches(op: TreeOp, ns: Ns, k: Seq<u8>) -> bool {
    match op {
        TreeOp::DataPut(k2, _) => ns is Data && k2@ == k,
        TreeOp::DataDel(k2) => ns is Data && k2@ == k,
        TreeOp::MetaPut(k2, _) => ns is Meta && k2@ == k,
        TreeOp::MetaDel(k2) => ns is Meta && k2@ == k,
        TreeOp::TtlPut(k2, _) => ns is Ttl && k2@ == k,
        TreeOp::TtlDel(k2) => ns is Ttl && k2@ == k,
    }
}

/// Reads a key through the staged writes alone. `Some(Some(v))`: a staged
/// insert decides the value; `Some(None)`: a staged delete decides
/// absence; `None`: no staged write addresses the key, so the base
/// decides.
fn overlay_get(tx_ops: &Vec<TreeOp>, ns: Ns, key: &[u8]) -> (r: Option<Option<Vec<u8>>>)
    ensures
        r matches Some(Some(v)) ==> forall|b: DbView|
            spec_ns_map(#[trigger] spec_apply_ops(b, tx_ops@), ns).get(key@) == Some(v@),
        r matches Some(None) ==> forall|b: DbView|
            spec_ns_map(#[trigger] spec_apply_ops(b, tx_ops@), ns).get(key@) == None::<Seq<u8>>,
        r is None ==> forall|b: DbView|
            spec_ns_map(#[trigger] spec_apply_ops(b, tx_ops@), ns).get(key@) == spec_ns_map(
                b,
                ns,
            ).get(key@),
{
    let mut i: usize = tx_ops.len();
    proof {
        assert(tx_ops@.take(i as int) =~= tx_ops@);
    }
    while i > 0
        invariant
            0 <= i <= tx_ops@.len(),
            forall|b: DbView|
                spec_ns_map(#[trigger] spec_apply_ops(b, tx_ops@), ns).get(key@) == spec_ns_map(
                    spec_apply_ops(b, tx_ops@.take(i as int)),
                    ns,
                ).get(key@),
        decreases i,
    {
        i = i - 1;
        let op = &tx_ops[i];
        let touches = match (op, ns) {
            (TreeOp::DataPut(k2, _), Ns::Data) => crate::bytes::bytes_eq(k2.as_slice(), key),
            (TreeOp::DataDel(k2), Ns::Data) => crate::bytes::bytes_eq(k2.as_slice(), key),
            (TreeOp::MetaPut(k2, _), Ns::Meta) => crate::bytes::bytes_eq(k2.as_slice(), key),
            (TreeOp::MetaDel(k2), Ns::Meta) => crate::bytes::bytes_eq(k2.as_slice(), key),
            (TreeOp::TtlPut(k2, _), Ns::Ttl) => crate::bytes::bytes_eq(k2.as_slice(), key),
            (TreeOp::TtlDel(k2), Ns::Ttl) => crate::bytes::bytes_eq(k2.as_slice(), key),
            _ => false,
        };
        proof {
            assert(touches == spec_op_touches(tx_ops@[i as int], ns, key@));
        }
        if touches {
            match op {
                TreeOp::DataPut(_, v) => {
                    proof {
                        assert forall|b: DbView|
                            spec_ns_map(#[trigger] spec_apply_ops(b, tx_ops@), ns).get(key@)
                                == Some(v@) by {
                            assert(tx_ops@.take(i + 1) =~= tx_ops@.take(i as int).push(
                                tx_ops@[i as int],
                            ));
                            lemma_apply_ops_push(b, tx_ops@.take(i as int), tx_ops@[i as int]);
                        }
                    }
                    return Some(Some(vstd::slice::slice_to_vec(v.as_slice())));
                },
                TreeOp::MetaPut(_, v) => {
                    proof {
                        assert forall|b: DbView|
                            spec_ns_map(#[trigger] spec_apply_ops(b, tx_ops@), ns).get(key@)
                                == Some(v@) by {
                            assert(tx_ops@.take(i + 1) =~= tx_ops@.take(i as int).push(
                                tx_ops@[i as int],
                            ));
                            lemma_apply_ops_push(b, tx_ops@.take(i as int), tx_ops@[i as int]);
                        }
                    }
                    return Some(Some(vstd::slice::slice_to_vec(v.as_slice())));
                },
                TreeOp::TtlPut(_, v) => {
                    proof {
                        assert forall|b: DbView|
                            spec_ns_map(#[trigger] spec_apply_ops(b, tx_ops@), ns).get(key@)
                                == Some(v@) by {
                            assert(tx_ops@.take(i + 1) =~= tx_ops@.take(i as int).push(
                                tx_ops@[i as int],
                            ));
                            lemma_apply_ops_push(b, tx_ops@.take(i as int), tx_ops@[i as int]);
                        }
                    }
                    return Some(Some(vstd::slice::slice_to_vec(v.as_slice())));
                },
                _ => {
                    proof {
                        assert forall|b: DbView|
                            spec_ns_map(#[trigger] spec_apply_ops(b, tx_ops@), ns).get(key@)
                                == None::<Seq<u8>> by {
                            assert(tx_ops@.take(i + 1) =~= tx_ops@.take(i as int).push(
                                tx_ops@[i as int],
                            ));
                            lemma_apply_ops_push(b, tx_ops@.take(i as int), tx_ops@[i as int]);
                        }
                    }
                    return Some(None);
                },
            }
        }
        proof {
            assert forall|b: DbView|
                spec_ns_map(#[trigger] spec_apply_ops(b, tx_ops@), ns).get(key@) == spec_ns_map(
                    spec_apply_ops(b, tx_ops@.take(i as int)),
                    ns,
                ).get(key@) by {
                assert(tx_ops@.take(i + 1) =~= tx_ops@.take(i as int).push(tx_ops@[i as int]));
                lemma_apply_ops_push(b, tx_ops@.take(i as int), tx_ops@[i as int]);
            }
        }
    }
    proof {
        assert forall|b: DbView|
            spec_ns_map(#[trigger] spec_apply_ops(b, tx_ops@), ns).get(key@) == spec_ns_map(
                b,
                ns,
            ).get(key@) by {
            assert(tx_ops@.take(0) =~= Seq::<TreeOp>::empty());
            assert(spec_apply_ops(b, tx_ops@.take(0)) == b);
        }
    }
    None
}

/// The guard handed to a transaction closure. It reads through its own
/// staged writes over a snapshot of the three namespaces, and carries the
/// deferred metric deltas.
pub struct TransactionalGuard {
    data_tree: sled::Tree,
    meta_tree: sled::Tree,
    ttl_tree: sled::Tree,
    tx_ops: Vec<TreeOp>,
    now: u64,
    changed_metric: GuardMetricChanged,
    base: Ghost<DbView>,
}

impl View for TransactionalGuard {
    type V = DbView;

    /// What the transaction would leave behind if committed now: the base
    /// state with the staged writes applied.
    closed spec fn view(&self) -> DbView {
        spec_apply_ops(self.base@, self.tx_ops@)
    }
}

impl TransactionalGuard {
    /// The state the transaction started from.
    pub closed spec fn base_view(&self) -> DbView {
        self.base@
    }

    /// The staged writes, in order.
    pub closed spec fn ops_seq(&self) -> Seq<TreeOp> {
        self.tx_ops@
    }

    /// The Unix second the transaction was opened at; relative expiries
    /// count from here.
    pub closed spec fn now_spec(&self) -> u64 {
        self.now
    }

    /// The deferred metric deltas.
    pub closed spec fn metric_spec(&self) -> GuardMetricChanged {
        self.changed_metric
    }

    /// The snapshot handles agree with the recorded base state.
    pub closed spec fn wf(&self) -> bool {
        trio_view(self.data_tree, self.meta_tree, self.ttl_tree) == self.base@
    }

    /// Stages a set of `val` under `key` with an optional relative expiry
    /// in milliseconds. Earlier writes of this transaction are visible to
    /// it.
    pub fn set(&mut self, key: &str, val: &str, ttl_ms: Option<u64>) -> (r: Result<
        (),
        TransientError,
    >)
        requires
            old(self).wf(),
        ensures
            final(self).wf(),
            final(self).base_view() == old(self).base_view(),
            final(self).now_spec() == old(self).now_spec(),
            r is Ok ==> final(self)@ == spec_set(
                old(self)@,
                key.spec_bytes(),
                val.spec_bytes(),
                spec_ttl_abs(ttl_ms, old(self).now_spec()),
                old(self).now_spec(),
            ),
            r is Ok ==> final(self).metric_spec() == spec_guard_set_deltas(
                old(self).metric_spec(),
                spec_old_ttl(old(self)@, key.spec_bytes()) is Some,
                ttl_ms is Some,
            ),
            r is Err ==> *final(self) == *old(self),
            old(self)@.meta.dom().contains(key.spec_bytes()) && spec_meta_decode(
                old(self)@.meta[key.spec_bytes()],
            ) is None ==> r is Err,
            r matches Err(e) ==> e == TransientError::ParsingFromByteError || e
                == TransientError::SledTransactionError || e matches TransientError::SledError {
                ..
            },
            (r matches Err(e) && e == TransientError::ParsingFromByteError) ==> old(
                self,
            )@.meta.dom().contains(key.spec_bytes()) && spec_meta_decode(
                old(self)@.meta[key.spec_bytes()],
            ) is None,
    {
        let ghost v0 = self@;
        let kb = key.as_bytes();
        let ttl_abs: Option<u64> = match ttl_ms {
            Some(ms) => Some(self.now.saturating_add(ms / 1000)),
            None => None,
        };
        let old_meta = match self.read_meta(kb) {
            Ok(o) => o,
            Err(e) => {
                return Err(e);
            },
        };
        let (new_meta, old_ttl) = match old_meta {
            Some(b) => match Metadata::from_u8(b.as_slice()) {
                Ok(m) => (Metadata { freq: m.freq, created_at: m.created_at, ttl: ttl_abs }, m.ttl),
                Err(e) => {
                    return Err(e);
                },
            },
            None => (Metadata { freq: 0, created_at: self.now, ttl: ttl_abs }, None),
        };
        proof {
            assert(new_meta == spec_new_meta(v0, key.spec_bytes(), ttl_abs, self.now));
            assert(old_ttl == spec_old_ttl(v0, key.spec_bytes()));
        }
        let enc = match new_meta.to_u8() {
            Ok(v) => v,
            Err(_) => {
                return Err(TransientError::SledTransactionError);
            },
        };
        if let Some(t0) = old_ttl {
            self.push_op(TreeOp::TtlDel(ttl_composite(t0, kb)));
        }
        self.push_op(TreeOp::MetaPut(vstd::slice::slice_to_vec(kb), enc));
        self.push_op(TreeOp::DataPut(vstd::slice::slice_to_vec(kb), vstd::slice::slice_to_vec(
            val.as_bytes(),
        )));
        if let Some(t) = ttl_abs {
            self.push_op(TreeOp::TtlPut(ttl_composite(t, kb), vstd::slice::slice_to_vec(kb)));
        }
        proof {
            assert(self@ == spec_set(
                v0,
                key.spec_bytes(),
                val.spec_bytes(),
                ttl_abs,
                self.now,
            ));
        }
        if old_ttl.is_some() {
            self.changed_metric.ttl_keys_total_changed = i64_dec(
                self.changed_metric.ttl_keys_total_changed,
            );
        }
        if ttl_abs.is_some() {
            self.changed_metric.ttl_keys_total_changed = i64_inc(
                self.changed_metric.ttl_keys_total_changed,
            );
        }
        self.changed_metric.keys_total_changed = i64_inc(self.changed_metric.keys_total_changed);
        self.changed_metric.set_operation_total = self.changed_metric
            .set_operation_total
            .saturating_add(1);
        Ok(())
    }

    /// Retrieves the value under a key as this transaction sees it.
    pub fn get(&mut self, key: &str) -> (r: Result<Option<String>, TransientError>)
        requires
            old(self).wf(),
        ensures
            final(self).wf(),
            final(self)@ == old(self)@,
            final(self).base_view() == old(self).base_view(),
            final(self).now_spec() == old(self).now_spec(),
            final(self).metric_spec() == (GuardMetricChanged {
                get_operation_total: crate::metrics::sat_add(
                    old(self).metric_spec().get_operation_total,
                    1,
                ),
                ..old(self).metric_spec()
            }),
            r matches Ok(Some(s)) ==> old(self)@.data.dom().contains(key.spec_bytes())
                && valid_utf8(old(self)@.data[key.spec_bytes()]) && s@ == decode_utf8(
                old(self)@.data[key.spec_bytes()],
            ),
            r matches Ok(None) ==> !old(self)@.data.dom().contains(key.spec_bytes()),
            (r matches Err(e) && e == TransientError::ParsingToUTF8Error) ==> old(
                self,
            )@.data.dom().contains(key.spec_bytes()) && !valid_utf8(
                old(self)@.data[key.spec_bytes()],
            ),
            r matches Err(e) ==> e == TransientError::ParsingToUTF8Error || e matches
                TransientError::SledError { .. },
    {
        let kb = key.as_bytes();
        let staged = overlay_get(&self.tx_ops, Ns::Data, kb);
        let bytes_opt = match staged {
            Some(o) => o,
            None => {
                match tree_get(&self.data_tree, kb) {
                    Ok(o) => o,
                    Err(e) => {
                        self.changed_metric.get_operation_total = self.changed_metric
                            .get_operation_total
                            .saturating_add(1);
                        return Err(e);
                    },
                }
            },
        };
        self.changed_metric.get_operation_total = self.changed_metric
            .get_operation_total
            .saturating_add(1);
        match bytes_opt {
            Some(v) => match crate::strconv::vec_to_utf8(v) {
                Some(s) => Ok(Some(s)),
                None => Err(TransientError::ParsingToUTF8Error),
            },
            None => Ok(None),
        }
    }

    /// Stages the removal of a key, its record and its expiry entry.
    pub fn remove(&mut self, key: &str) -> (r: Result<(), TransientError>)
        requires
            old(self).wf(),
        ensures
            final(self).wf(),
            final(self).base_view() == old(self).base_view(),
            final(self).now_spec() == old(self).now_spec(),
            r is Ok ==> final(self)@ == spec_remove(old(self)@, key.spec_bytes()),
            r is Ok ==> final(self).metric_spec() == spec_guard_remove_deltas(
                old(self).metric_spec(),
                spec_old_ttl(old(self)@, key.spec_bytes()) is Some,
            ),
            r is Err ==> *final(self) == *old(self),
            !old(self)@.meta.dom().contains(key.spec_bytes()) ==> (r matches Err(e) && (e
                == TransientError::MetadataNotFound || e matches TransientError::SledError {
                ..
            })),
            (r matches Err(e) && e == TransientError::MetadataNotFound) ==> !old(
                self,
            )@.meta.dom().contains(key.spec_bytes()),
            r matches Err(e) ==> e == TransientError::MetadataNotFound || e
                == TransientError::SledTransactionError || e matches TransientError::SledError {
                ..
            },
            (r matches Err(e) && e == TransientError::SledTransactionError) ==> old(
                self,
            )@.meta.dom().contains(key.spec_bytes()) && spec_meta_decode(
                old(self)@.meta[key.spec_bytes()],
            ) is None,
    {
        let ghost v0 = self@;
        let kb = key.as_bytes();
        let old_meta = match self.read_meta(kb) {
            Ok(Some(b)) => b,
            Ok(None) => {
                return Err(TransientError::MetadataNotFound);
            },
            Err(e) => {
                return Err(e);
            },
        };
        let m = match Metadata::from_u8(old_meta.as_slice()) {
            Ok(m) => m,
            Err(_) => {
                return Err(TransientError::SledTransactionError);
            },
        };
        self.push_op(TreeOp::DataDel(vstd::slice::slice_to_vec(kb)));
        self.push_op(TreeOp::MetaDel(vstd::slice::slice_to_vec(kb)));
        if let Some(t0) = m.ttl {
            self.push_op(TreeOp::TtlDel(ttl_composite(t0, kb)));
        }
        proof {
            assert(m.ttl == spec_old_ttl(v0, key.spec_bytes()));
            assert(self@ == spec_remove(v0, key.spec_bytes()));
        }
        self.changed_metric.keys_total_changed = i64_dec(self.changed_metric.keys_total_changed);
        if m.ttl.is_some() {
            self.changed_metric.ttl_keys_total_changed = i64_dec(
                self.changed_metric.ttl_keys_total_changed,
            );
        }
        self.changed_metric.rm_operation_total = self.changed_metric
            .rm_operation_total
            .saturating_add(1);
        Ok(())
    }

    /// Stages a frequency increment: inside a transaction this is a plain
    /// read-modify-write, since the commit is already serializable.
    pub fn increment_frequency(&mut self, key: &str) -> (r: Result<(), TransientError>)
        requires
            old(self).wf(),
        ensures
            final(self).wf(),
            final(self).base_view() == old(self).base_view(),
            final(self).now_spec() == old(self).now_spec(),
            r is Ok ==> old(self)@.meta.dom().contains(key.spec_bytes()) && final(self)@
                == spec_increment(old(self)@, key.spec_bytes()),
            r is Ok ==> final(self).metric_spec() == (GuardMetricChanged {
                inc_freq_operation_total: crate::metrics::sat_add(
                    old(self).metric_spec().inc_freq_operation_total,
                    1,
                ),
                ..old(self).metric_spec()
            }),
            r is Err ==> *final(self) == *old(self),
            !old(self)@.meta.dom().contains(key.spec_bytes()) ==> (r matches Err(e) && (e
                == TransientError::IncretmentError || e matches TransientError::SledError {
                ..
            })),
            (r matches Err(e) && e == TransientError::IncretmentError) ==> !old(
                self,
            )@.meta.dom().contains(key.spec_bytes()) || (spec_meta_of(
                old(self)@,
                key.spec_bytes(),
            ) matches Some(m) && m.freq == u64::MAX),
            (r matches Err(e) && e == TransientError::ParsingFromByteError) ==> old(
                self,
            )@.meta.dom().contains(key.spec_bytes()) && spec_meta_decode(
                old(self)@.meta[key.spec_bytes()],
            ) is None,
            r matches Err(e) ==> e == TransientError::IncretmentError || e
                == TransientError::ParsingFromByteError || e matches TransientError::SledError {
                ..
            },
    {
        let ghost v0 = self@;
        let kb = key.as_bytes();
        let old_meta = match self.read_meta(kb) {
            Ok(Some(b)) => b,
            Ok(None) => {
                return Err(TransientError::IncretmentError);
            },
            Err(e) => {
                return Err(e);
            },
        };
        let m = match Metadata::from_u8(old_meta.as_slice()) {
            Ok(m) => m,
            Err(e) => {
                return Err(e);
            },
        };
        if m.freq == u64::MAX {
            return Err(TransientError::IncretmentError);
        }
        let bumped = m.freq_incretement();
        let enc = match bumped.to_u8() {
            Ok(v) => v,
            Err(_) => {
                return Err(TransientError::IncretmentError);
            },
        };
        self.push_op(TreeOp::MetaPut(vstd::slice::slice_to_vec(kb), enc));
        proof {
            assert(spec_meta_of(v0, key.spec_bytes()) == Some(m));
            assert(self@ == spec_increment(v0, key.spec_bytes()));
        }
        self.changed_metric.inc_freq_operation_total = self.changed_metric
            .inc_freq_operation_total
            .saturating_add(1);
        Ok(())
    }

    /// Retrieves and decodes the metadata record as this transaction sees
    /// it.
    pub fn get_metadata(&mut self, key: &str) -> (r: Result<Option<Metadata>, TransientError>)
        requires
            old(self).wf(),
        ensures
            final(self).wf(),
            final(self)@ == old(self)@,
            final(self).base_view() == old(self).base_view(),
            final(self).now_spec() == old(self).now_spec(),
            *final(self) == *old(self),
            r matches Ok(Some(m)) ==> spec_meta_of(old(self)@, key.spec_bytes()) == Some(m),
            r matches Ok(None) ==> !old(self)@.meta.dom().contains(key.spec_bytes()),
            (r matches Err(e) && e == TransientError::ParsingFromByteError) ==> old(
                self,
            )@.meta.dom().contains(key.spec_bytes()) && spec_meta_decode(
                old(self)@.meta[key.spec_bytes()],
            ) is None,
            r matches Err(e) ==> e == TransientError::ParsingFromByteError || e matches
                TransientError::SledError { .. },
    {
        let kb = key.as_bytes();
        let b = match self.read_meta(kb) {
            Ok(Some(b)) => b,
            Ok(None) => {
                return Ok(None);
            },
            Err(e) => {
                return Err(e);
            },
        };
        match Metadata::from_u8(b.as_slice()) {
            Ok(m) => Ok(Some(m)),
            Err(e) => Err(e),
        }
    }

    /// Reads the metadata bytes of a key through the overlay.
    fn read_meta(&self, key: &[u8]) -> (r: Result<Option<Vec<u8>>, TransientError>)
        requires
            self.wf(),
        ensures
            r matches Ok(Some(v)) ==> self@.meta.dom().contains(key@) && v@ == self@.meta[key@],
            r matches Ok(None) ==> !self@.meta.dom().contains(key@),
            r matches Err(e) ==> e matches TransientError::SledError { .. },
    {
        match overlay_get(&self.tx_ops, Ns::Meta, key) {
            Some(o) => Ok(o),
            None => tree_get(&self.meta_tree, key),
        }
    }

    /// Appends one staged write.
    fn push_op(&mut self, op: TreeOp)
        ensures
            final(self).tx_ops@ == old(self).tx_ops@.push(op),
            final(self)@ == spec_apply_op(old(self)@, op),
            final(self).base_view() == old(self).base_view(),
            final(self).now_spec() == old(self).now_spec(),
            final(self).wf() == old(self).wf(),
            final(self).changed_metric == old(self).changed_metric,
            final(self).data_tree == old(self).data_tree,
            final(self).meta_tree == old(self).meta_tree,
            final(self).ttl_tree == old(self).ttl_tree,
    {
        proof {
            lemma_apply_ops_push(self.base@, self.tx_ops@, op);
        }
        self.tx_ops.push(op);
    }
}

impl DB {
    /// Runs `f` against a transaction guard. A closure that returns its
    /// guard commits: every staged write becomes visible atomically, and
    /// the deferred metric deltas are applied. A closure that fails
    /// commits nothing: the store is exactly as it was.
    pub fn transaction<F: FnOnce(TransactionalGuard) -> Result<
        TransactionalGuard,
        TransientError,
    >>(&mut self, f: F) -> (r: Result<(), TransientError>)
        requires
            forall|g: TransactionalGuard|
                g.wf() && g.base_view() == old(self)@ && g.ops_seq() =~= Seq::<TreeOp>::empty()
                    ==> call_requires(f, (g,)),
        ensures
            r is Err ==> final(self)@ == old(self)@,
            r matches Err(e) ==> e == TransientError::SledTransactionError,
            r is Err ==> final(self).metrics_view() == old(self).metrics_view(),
            r is Ok ==> exists|g0: TransactionalGuard, g1: TransactionalGuard|
                {
                    &&& g0.wf()
                    &&& g0.base_view() == old(self)@
                    &&& g0@ == old(self)@
                    &&& g0.ops_seq() =~= Seq::<TreeOp>::empty()
                    &&& g0.metric_spec() == spec_zero_deltas()
                    &&& #[trigger] call_ensures(f, (g0,), Ok(g1))
                    &&& final(self)@ == spec_apply_ops(old(self)@, g1.ops_seq())
                    &&& (g1.wf() && g1.base_view() == old(self)@ ==> final(self)@ == g1@)
                    &&& final(self).metrics_view() == spec_apply_guard_metrics(
                        old(self).metrics_view(),
                        g1.metric_spec(),
                    )
                },
    {
        let guard = TransactionalGuard {
            data_tree: tree_clone(&self.data_tree),
            meta_tree: tree_clone(&self.meta_tree),
            ttl_tree: tree_clone(&self.ttl_tree),
            tx_ops: Vec::new(),
            now: now_seconds(),
            changed_metric: GuardMetricChanged::new(),
            base: Ghost(self@),
        };
        let ghost g0 = guard;
        proof {
            assert(guard.wf());
            assert(guard@ == self@);
        }
        match f(guard) {
            Ok(g1) => {
                match run_transaction(
                    &mut self.data_tree,
                    &mut self.meta_tree,
                    &mut self.ttl_tree,
                    &g1.tx_ops,
                ) {
                    Ok(_) => (),
                    Err(e) => {
                        return Err(e);
                    },
                }
                g1.changed_metric.inc_all_metrics(&mut self.metrics);
                Ok(())
            },
            Err(_) => Err(TransientError::SledTransactionError),
        }
    }
}

} // verus!
