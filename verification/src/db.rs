//! The storage engine core: three linked namespaces over the embedded
//! ordered KV engine, single-key operations with cross-namespace
//! invariants, the expiration sweep, and the transaction guard.

pub mod backup;
pub mod engine;
pub mod errors;
pub mod ops;
pub mod restore;
pub mod transaction;

use vstd::prelude::*;

use crate::bytes::{push_bytes, spec_u64_from_be, spec_u64_to_be, u64_from_be_bytes, u64_to_be_bytes};
use crate::clock::now_seconds;
use crate::db::engine::{
    open_db, open_tree, run_transaction, tree_cas, tree_entries, tree_flush, tree_get, tree_len,
    trio_view,
};
use crate::db::errors::TransientError;
use crate::db::ops::{lemma_apply_four, lemma_apply_three, lemma_apply_two, spec_apply_ops, DbView, TreeOp};
use crate::metadata::{spec_meta_decode, spec_meta_encode, Metadata};
use crate::metrics::{sat_add, sat_sub, Metrics, OpKind, TreeKind};
use vstd::string::StringSliceAdditionalSpecFns;
use vstd::utf8::{decode_utf8, encode_utf8, valid_utf8};

verus! {

broadcast use crate::bytes::lemma_u64_be_len;

/// The database: the three namespaces (`data`, `meta`, `ttl_index`) of one
/// underlying engine instance, and the running tallies.
pub struct DB {
    data_tree: sled::Tree,
    meta_tree: sled::Tree,
    ttl_tree: sled::Tree,
    metrics: Metrics,
}

impl View for DB {
    type V = DbView;

    /// The abstract state: the contents of the three namespaces.
    closed spec fn view(&self) -> DbView {
        trio_view(self.data_tree, self.meta_tree, self.ttl_tree)
    }
}

/// The composite key under which an entry expiring at second `t` is
/// indexed: the big-endian expiry followed by the key itself.
pub open spec fn spec_composite(t: u64, k: Seq<u8>) -> Seq<u8> {
    spec_u64_to_be(t) + k
}

/// Builds the composite TTL-index key for expiry `t` and key `k`.
pub fn ttl_composite(t: u64, k: &[u8]) -> (r: Vec<u8>)
    ensures
        r@ == spec_composite(t, k@),
{
    let mut r = u64_to_be_bytes(t);
    push_bytes(&mut r, k);
    r
}

/// The record stored under `k`, decoded, if `k` is present and decodes.
pub open spec fn spec_meta_of(v: DbView, k: Seq<u8>) -> Option<Metadata> {
    if v.meta.dom().contains(k) {
        spec_meta_decode(v.meta[k])
    } else {
        None
    }
}

/// The expiry of the record stored under `k`, if any.
pub open spec fn spec_old_ttl(v: DbView, k: Seq<u8>) -> Option<u64> {
    match spec_meta_of(v, k) {
        Some(m) => m.ttl,
        None => None,
    }
}

/// The absolute expiry second of a relative duration in milliseconds:
/// `now` plus the whole seconds of the duration, saturating. Durations
/// under a second therefore expire within the current second.
pub open spec fn spec_ttl_abs(ttl_ms: Option<u64>, now: u64) -> Option<u64> {
    match ttl_ms {
        Some(ms) => Some(sat_add(now, ms / 1000)),
        None => None,
    }
}

/// The record that a set writes under `k`: a fresh record for a new key;
/// for an existing, decodable record the frequency and creation time are
/// preserved and only the expiry is replaced.
pub open spec fn spec_new_meta(v: DbView, k: Seq<u8>, ttl_abs: Option<u64>, now: u64) -> Metadata {
    match spec_meta_of(v, k) {
        Some(m) => Metadata { freq: m.freq, created_at: m.created_at, ttl: ttl_abs },
        None => Metadata { freq: 0, created_at: now, ttl: ttl_abs },
    }
}

/// The abstract effect of a successful `set`: the value is stored, the
/// metadata record is written, the composite of a prior expiry leaves the
/// TTL index and the composite of the new expiry enters it.
pub open spec fn spec_set(
    v: DbView,
    k: Seq<u8>,
    val: Seq<u8>,
    ttl_abs: Option<u64>,
    now: u64,
) -> DbView {
    let ttl1 = match spec_old_ttl(v, k) {
        Some(t0) => v.ttl.remove(spec_composite(t0, k)),
        None => v.ttl,
    };
    let ttl2 = match ttl_abs {
        Some(t) => ttl1.insert(spec_composite(t, k), k),
        None => ttl1,
    };
    DbView {
        data: v.data.insert(k, val),
        meta: v.meta.insert(k, spec_meta_encode(spec_new_meta(v, k, ttl_abs, now))),
        ttl: ttl2,
    }
}

/// The abstract effect of a successful `increment_frequency`: the record
/// under `k` is re-encoded with its counter one higher.
pub open spec fn spec_increment(v: DbView, k: Seq<u8>) -> DbView {
    match spec_meta_of(v, k) {
        Some(m) => DbView {
            meta: v.meta.insert(
                k,
                spec_meta_encode(Metadata { freq: (m.freq + 1) as u64, ..m }),
            ),
            ..v
        },
        None => v,
    }
}

/// The tallies after a successful set: one more `set`, one more key in
/// `data` and `meta`, and the TTL gauge adjusted for a dropped prior
/// expiry and a gained new one.
pub open spec fn spec_set_metrics(m: Metrics, had_old: bool, has_new: bool) -> Metrics {
    Metrics {
        ops_set: sat_add(m.ops_set, 1),
        keys_data: sat_add(m.keys_data, 1),
        keys_meta: sat_add(m.keys_meta, 1),
        keys_ttl: {
            let a = if had_old {
                sat_sub(m.keys_ttl, 1)
            } else {
                m.keys_ttl
            };
            if has_new {
                sat_add(a, 1)
            } else {
                a
            }
        },
        ..m
    }
}

/// The tallies after a successful remove.
pub open spec fn spec_remove_metrics(m: Metrics, had_ttl: bool) -> Metrics {
    Metrics {
        ops_rm: sat_add(m.ops_rm, 1),
        keys_data: sat_sub(m.keys_data, 1),
        keys_meta: sat_sub(m.keys_meta, 1),
        keys_ttl: if had_ttl {
            sat_sub(m.keys_ttl, 1)
        } else {
            m.keys_ttl
        },
        ..m
    }
}

/// The abstract effect of a successful `remove`: the key leaves `data`
/// and `meta`, and its composite, if it had an expiry, leaves the index.
pub open spec fn spec_remove(v: DbView, k: Seq<u8>) -> DbView {
    DbView {
        data: v.data.remove(k),
        meta: v.meta.remove(k),
        ttl: match spec_old_ttl(v, k) {
            Some(t0) => v.ttl.remove(spec_composite(t0, k)),
            None => v.ttl,
        },
    }
}

/// The cross-namespace invariant of the storage trio: a key is in `data`
/// exactly when it is in `meta`; every stored record decodes; a record
/// with an expiry has exactly its composite in the TTL index; and every
/// index entry points back at a live record carrying its timestamp.
pub open spec fn spec_inv(v: DbView) -> bool {
    &&& v.finite()
    &&& v.data.dom() == v.meta.dom()
    &&& forall|k: Seq<u8>|
        #[trigger] v.meta.dom().contains(k) ==> spec_meta_decode(v.meta[k]) is Some
    &&& forall|k: Seq<u8>|
        #[trigger] v.meta.dom().contains(k) ==> (spec_old_ttl(v, k) matches Some(t)
            ==> v.ttl.contains_pair(spec_composite(t, k), k))
    &&& forall|c: Seq<u8>|
        #[trigger] v.ttl.dom().contains(c) ==> c.len() >= 8 && v.ttl[c] == c.skip(8)
            && v.meta.dom().contains(c.skip(8)) && spec_old_ttl(v, c.skip(8)) == Some(
            spec_u64_from_be(c.take(8)),
        )
}

/// The two parts of a composite key stand at their fixed offsets.
pub proof fn lemma_composite_parts(t: u64, k: Seq<u8>)
    ensures
        spec_composite(t, k).len() == 8 + k.len(),
        spec_composite(t, k).take(8) == spec_u64_to_be(t),
        spec_composite(t, k).skip(8) == k,
{
    assert(spec_composite(t, k).take(8) =~= spec_u64_to_be(t));
    assert(spec_composite(t, k).skip(8) =~= k);
}

/// A composite key determines its timestamp and its key.
pub proof fn lemma_composite_injective(t1: u64, k1: Seq<u8>, t2: u64, k2: Seq<u8>)
    requires
        spec_composite(t1, k1) == spec_composite(t2, k2),
    ensures
        t1 == t2,
        k1 == k2,
{
    lemma_composite_parts(t1, k1);
    lemma_composite_parts(t2, k2);
    crate::bytes::lemma_u64_be_injective(t1, t2);
}

/// A byte string of at least eight bytes is the composite of the value
/// of its first eight bytes and the rest.
pub proof fn lemma_composite_of(c: Seq<u8>)
    requires
        c.len() >= 8,
    ensures
        c == spec_composite(spec_u64_from_be(c.take(8)), c.skip(8)),
{
    crate::bytes::lemma_be_inverse(c.take(8));
    assert(spec_composite(spec_u64_from_be(c.take(8)), c.skip(8)) =~= c);
}

/// What any run of the expiration sweep leaves behind, finished or not:
/// nothing was added anywhere, every removal was owed (only keys named
/// by a due index entry, and only due index entries, can be gone), and
/// entries the sweep owes no removal survive unchanged.
pub open spec fn spec_reap_partial(v0: DbView, v1: DbView, now: u64) -> bool {
    &&& forall|k: Seq<u8>|
        #[trigger] v1.data.dom().contains(k) ==> v0.data.contains_pair(k, v1.data[k])
    &&& forall|k: Seq<u8>|
        #[trigger] v1.meta.dom().contains(k) ==> v0.meta.contains_pair(k, v1.meta[k])
    &&& forall|c: Seq<u8>|
        #[trigger] v1.ttl.dom().contains(c) ==> v0.ttl.contains_pair(c, v1.ttl[c])
    &&& forall|k: Seq<u8>|
        #[trigger] v0.data.dom().contains(k) && !spec_due_key(v0, now, k)
            ==> v1.data.contains_pair(k, v0.data[k])
    &&& forall|k: Seq<u8>|
        #[trigger] v0.meta.dom().contains(k) && !spec_due_key(v0, now, k)
            ==> v1.meta.contains_pair(k, v0.meta[k])
    &&& forall|c: Seq<u8>|
        #[trigger] v0.ttl.dom().contains(c) && spec_u64_from_be(c.take(8)) > now
            ==> v1.ttl.contains_pair(c, v0.ttl[c])
}

/// What one successful expiration sweep at second `now` leaves behind:
/// every index entry whose time has come is gone, together with the key
/// it names, and beyond those owed removals nothing moved.
pub open spec fn spec_reap_post(v0: DbView, v1: DbView, now: u64) -> bool {
    &&& forall|c: Seq<u8>|
        #[trigger] v0.ttl.dom().contains(c) ==> c.len() >= 8
    &&& forall|c: Seq<u8>|
        #[trigger] v0.ttl.dom().contains(c) && spec_u64_from_be(c.take(8)) <= now
            ==> !v1.ttl.dom().contains(c) && !v1.data.dom().contains(v0.ttl[c])
            && !v1.meta.dom().contains(v0.ttl[c])
    &&& spec_reap_partial(v0, v1, now)
}

/// Whether some due index entry names `k` at second `now`.
pub open spec fn spec_due_key(v: DbView, now: u64, k: Seq<u8>) -> bool {
    exists|c: Seq<u8>|
        #[trigger] v.ttl.dom().contains(c) && spec_u64_from_be(c.take(8)) <= now && v.ttl[c] == k
}

/// A successful sweep preserves the cross-namespace invariant. (The
/// sweep's own contract gives finiteness; under the invariant each key
/// has exactly one index entry, so a removal never strands another.)
#[verifier::rlimit(100)]
pub proof fn lemma_reap_preserves_inv(v0: DbView, v1: DbView, now: u64)
    requires
        spec_inv(v0),
        spec_reap_post(v0, v1, now),
        v1.finite(),
    ensures
        spec_inv(v1),
{
    assert forall|k: Seq<u8>| #[trigger] v0.meta.dom().contains(k) && spec_due_key(
        v0,
        now,
        k,
    ) implies !v1.data.dom().contains(k) && !v1.meta.dom().contains(k) by {
        let c = choose|c: Seq<u8>|
            #[trigger] v0.ttl.dom().contains(c) && spec_u64_from_be(c.take(8)) <= now && v0.ttl[c]
                == k;
    }
    assert(v1.data.dom() =~= v1.meta.dom()) by {
        assert forall|k: Seq<u8>| #[trigger] v1.data.dom().contains(k) implies
            v1.meta.dom().contains(k) by {
            assert(v0.data.contains_pair(k, v1.data[k]));
            if spec_due_key(v0, now, k) {
                assert(!v1.data.dom().contains(k));
            }
        }
        assert forall|k: Seq<u8>| #[trigger] v1.meta.dom().contains(k) implies
            v1.data.dom().contains(k) by {
            assert(v0.meta.contains_pair(k, v1.meta[k]));
            if spec_due_key(v0, now, k) {
                assert(!v1.meta.dom().contains(k));
            }
        }
    }
    assert forall|k2: Seq<u8>| #[trigger] v1.meta.dom().contains(k2) implies spec_meta_decode(
        v1.meta[k2],
    ) is Some by {
        assert(v0.meta.contains_pair(k2, v1.meta[k2]));
    }
    assert forall|k2: Seq<u8>| #[trigger] v1.meta.dom().contains(k2) implies (spec_old_ttl(
        v1,
        k2,
    ) matches Some(t2) ==> v1.ttl.contains_pair(spec_composite(t2, k2), k2)) by {
        assert(v0.meta.contains_pair(k2, v1.meta[k2]));
        if spec_old_ttl(v1, k2) is Some {
            let t2 = spec_old_ttl(v1, k2)->0;
            let c2 = spec_composite(t2, k2);
            assert(spec_old_ttl(v0, k2) == Some(t2));
            assert(v0.ttl.contains_pair(c2, k2));
            lemma_composite_parts(t2, k2);
            crate::bytes::lemma_u64_be_roundtrip(t2);
            if t2 <= now {
                // then the key was due and its record would be gone
                assert(spec_due_key(v0, now, k2));
                assert(!v1.meta.dom().contains(k2));
            }
            assert(t2 > now);
            assert(v1.ttl.contains_pair(c2, v0.ttl[c2]));
        }
    }
    assert forall|c: Seq<u8>| #[trigger] v1.ttl.dom().contains(c) implies c.len() >= 8
        && v1.ttl[c] == c.skip(8) && v1.meta.dom().contains(c.skip(8)) && spec_old_ttl(
        v1,
        c.skip(8),
    ) == Some(spec_u64_from_be(c.take(8))) by {
        assert(v0.ttl.contains_pair(c, v1.ttl[c]));
        let k2 = c.skip(8);
        let tc = spec_u64_from_be(c.take(8));
        assert(v0.ttl[c] == k2 && v0.meta.dom().contains(k2));
        assert(spec_old_ttl(v0, k2) == Some(tc));
        if tc <= now {
            assert(!v1.ttl.dom().contains(c));
        }
        assert(tc > now);
        if spec_due_key(v0, now, k2) {
            // a second, due index entry for the same key would carry the
            // same timestamp, which has not passed
            let c9 = choose|c9: Seq<u8>|
                #[trigger] v0.ttl.dom().contains(c9) && spec_u64_from_be(c9.take(8)) <= now
                    && v0.ttl[c9] == k2;
            assert(spec_old_ttl(v0, c9.skip(8)) == Some(spec_u64_from_be(c9.take(8))));
        }
        assert(v1.meta.contains_pair(k2, v0.meta[k2]));
        assert(spec_old_ttl(v1, k2) == spec_old_ttl(v0, k2));
    }
}

/// Once a sweep at second `now` succeeds on a store satisfying the
/// cross-namespace invariant, every key whose expiry had passed is gone
/// from `data` and `meta`, and its composite from the index.
pub proof fn lemma_expired_keys_reaped(v0: DbView, v1: DbView, now: u64)
    requires
        spec_inv(v0),
        spec_reap_post(v0, v1, now),
    ensures
        forall|k: Seq<u8>, t: u64|
            v0.meta.dom().contains(k) && #[trigger] spec_old_ttl(v0, k) == Some(t) && t <= now
                ==> !v1.data.dom().contains(k) && !v1.meta.dom().contains(k)
                && !v1.ttl.dom().contains(#[trigger] spec_composite(t, k)),
{
    assert forall|k: Seq<u8>, t: u64|
        v0.meta.dom().contains(k) && #[trigger] spec_old_ttl(v0, k) == Some(t) && t
            <= now implies !v1.data.dom().contains(k) && !v1.meta.dom().contains(k)
        && !v1.ttl.dom().contains(#[trigger] spec_composite(t, k)) by {
        let c = spec_composite(t, k);
        assert(v0.ttl.contains_pair(c, k));
        assert(c.take(8) =~= crate::bytes::spec_u64_to_be(t));
        crate::bytes::lemma_u64_be_roundtrip(t);
        assert(spec_u64_from_be(c.take(8)) == t);
    }
}

/// After any successful set of `val` under `k`, the stored value is
/// exactly `val`, and the stored record's expiry is the absolute second
/// computed from the duration and `now` (or none, when none was given).
pub proof fn lemma_set_then_get(
    v: DbView,
    k: Seq<u8>,
    val: Seq<u8>,
    ttl_ms: Option<u64>,
    now: u64,
)
    ensures
        spec_set(v, k, val, spec_ttl_abs(ttl_ms, now), now).data.dom().contains(k),
        spec_set(v, k, val, spec_ttl_abs(ttl_ms, now), now).data[k] == val,
        spec_meta_of(spec_set(v, k, val, spec_ttl_abs(ttl_ms, now), now), k) matches Some(m)
            && m.ttl == spec_ttl_abs(ttl_ms, now),
{
    crate::metadata::lemma_meta_roundtrip(spec_new_meta(v, k, spec_ttl_abs(ttl_ms, now), now));
}

/// After any successful remove of `k`, neither the value nor the record
/// is present.
pub proof fn lemma_remove_then_get(v: DbView, k: Seq<u8>)
    ensures
        !spec_remove(v, k).data.dom().contains(k),
        !spec_remove(v, k).meta.dom().contains(k),
        spec_meta_of(spec_remove(v, k), k) is None,
{
}

/// Setting a key again preserves its creation time and its frequency
/// counter: only an explicit remove resets them.
pub proof fn lemma_set_preserves_created_at(
    v: DbView,
    k: Seq<u8>,
    val1: Seq<u8>,
    val2: Seq<u8>,
    t1: Option<u64>,
    t2: Option<u64>,
    now1: u64,
    now2: u64,
)
    ensures
        ({
            let v1 = spec_set(v, k, val1, t1, now1);
            let v2 = spec_set(v1, k, val2, t2, now2);
            &&& spec_meta_of(v1, k) matches Some(m1) && (spec_meta_of(v2, k) matches Some(m2)
                && m2.created_at == m1.created_at && m2.freq == m1.freq)
        }),
{
    crate::metadata::lemma_meta_roundtrip(spec_new_meta(v, k, t1, now1));
    let v1 = spec_set(v, k, val1, t1, now1);
    crate::metadata::lemma_meta_roundtrip(spec_new_meta(v1, k, t2, now2));
}

/// Raising the frequency counter touches nothing but the counter: the
/// value, the creation time and the expiry stay.
pub proof fn lemma_increment_preserves_record(v: DbView, k: Seq<u8>)
    requires
        spec_meta_of(v, k) is Some,
        spec_meta_of(v, k)->0.freq < u64::MAX,
    ensures
        spec_increment(v, k).data == v.data,
        spec_meta_of(spec_increment(v, k), k) matches Some(m2) && m2.freq == spec_meta_of(
            v,
            k,
        )->0.freq + 1 && m2.created_at == spec_meta_of(v, k)->0.created_at && m2.ttl
            == spec_meta_of(v, k)->0.ttl,
{
    let m = spec_meta_of(v, k)->0;
    crate::metadata::lemma_meta_roundtrip(Metadata { freq: (m.freq + 1) as u64, ..m });
}

/// A store that holds nothing satisfies the cross-namespace invariant;
/// with the preservation lemmas below, any store grown from nothing by
/// the engine's operations satisfies it.
pub proof fn lemma_inv_empty()
    ensures
        spec_inv(
            DbView {
                data: Map::<Seq<u8>, Seq<u8>>::empty(),
                meta: Map::<Seq<u8>, Seq<u8>>::empty(),
                ttl: Map::<Seq<u8>, Seq<u8>>::empty(),
            },
        ),
{
}

/// A successful set preserves the cross-namespace invariant.
#[verifier::rlimit(100)]
pub proof fn lemma_set_preserves_inv(
    v: DbView,
    k: Seq<u8>,
    val: Seq<u8>,
    ttl_abs: Option<u64>,
    now: u64,
)
    requires
        spec_inv(v),
    ensures
        spec_inv(spec_set(v, k, val, ttl_abs, now)),
{
    let v1 = spec_set(v, k, val, ttl_abs, now);
    let new_m = spec_new_meta(v, k, ttl_abs, now);
    crate::metadata::lemma_meta_roundtrip(new_m);
    assert(v1.data.dom() =~= v1.meta.dom());
    assert forall|k2: Seq<u8>| #[trigger] v1.meta.dom().contains(k2) implies spec_meta_decode(
        v1.meta[k2],
    ) is Some by {
        if k2 != k {
            assert(v.meta.dom().contains(k2));
        }
    }
    assert forall|k2: Seq<u8>| #[trigger] v1.meta.dom().contains(k2) implies (spec_old_ttl(
        v1,
        k2,
    ) matches Some(t2) ==> v1.ttl.contains_pair(spec_composite(t2, k2), k2)) by {
        if spec_old_ttl(v1, k2) is Some {
            let t2 = spec_old_ttl(v1, k2)->0;
            let c2 = spec_composite(t2, k2);
            if k2 == k {
                assert(ttl_abs == Some(t2));
                assert(v1.ttl.contains_pair(c2, k2));
            } else {
                assert(v.meta.dom().contains(k2));
                assert(spec_old_ttl(v, k2) == spec_old_ttl(v1, k2));
                assert(v.ttl.contains_pair(c2, k2));
                match spec_old_ttl(v, k) {
                    Some(t0) => {
                        if c2 == spec_composite(t0, k) {
                            lemma_composite_injective(t2, k2, t0, k);
                        }
                    },
                    None => {},
                }
                match ttl_abs {
                    Some(t) => {
                        if c2 == spec_composite(t, k) {
                            lemma_composite_injective(t2, k2, t, k);
                        }
                    },
                    None => {},
                }
                assert(v1.ttl.contains_pair(c2, k2));
            }
        }
    }
    assert forall|c: Seq<u8>| #[trigger] v1.ttl.dom().contains(c) implies c.len() >= 8
        && v1.ttl[c] == c.skip(8) && v1.meta.dom().contains(c.skip(8)) && spec_old_ttl(
        v1,
        c.skip(8),
    ) == Some(spec_u64_from_be(c.take(8))) by {
        let inserted = ttl_abs matches Some(t) && c == spec_composite(t, k);
        if inserted {
            let t = ttl_abs->0;
            lemma_composite_parts(t, k);
            crate::bytes::lemma_u64_be_roundtrip(t);
            assert(v1.ttl[c] == k);
            assert(spec_old_ttl(v1, k) == ttl_abs);
        } else {
            assert(v.ttl.dom().contains(c));
            let k2 = c.skip(8);
            assert(v.ttl[c] == k2 && v.meta.dom().contains(k2));
            assert(spec_old_ttl(v, k2) == Some(spec_u64_from_be(c.take(8))));
            if k2 == k {
                // the index entry of the set key would be its old
                // composite, which the set removed
                let t0 = spec_old_ttl(v, k)->0;
                assert(spec_u64_from_be(c.take(8)) == t0);
                lemma_composite_of(c);
                assert(c == spec_composite(t0, k));
                assert(!v1.ttl.dom().contains(c));
            }
            assert(k2 != k);
            assert(spec_old_ttl(v1, k2) == spec_old_ttl(v, k2));
            assert(v1.ttl[c] == v.ttl[c]);
        }
    }
    assert(v1.finite());
}

/// A successful remove preserves the cross-namespace invariant.
#[verifier::rlimit(100)]
pub proof fn lemma_remove_preserves_inv(v: DbView, k: Seq<u8>)
    requires
        spec_inv(v),
    ensures
        spec_inv(spec_remove(v, k)),
{
    let v1 = spec_remove(v, k);
    assert(v1.data.dom() =~= v1.meta.dom());
    assert forall|k2: Seq<u8>| #[trigger] v1.meta.dom().contains(k2) implies spec_meta_decode(
        v1.meta[k2],
    ) is Some by {
        assert(v.meta.dom().contains(k2));
    }
    assert forall|k2: Seq<u8>| #[trigger] v1.meta.dom().contains(k2) implies (spec_old_ttl(
        v1,
        k2,
    ) matches Some(t2) ==> v1.ttl.contains_pair(spec_composite(t2, k2), k2)) by {
        if spec_old_ttl(v1, k2) is Some {
            let t2 = spec_old_ttl(v1, k2)->0;
            let c2 = spec_composite(t2, k2);
            assert(k2 != k);
            assert(spec_old_ttl(v, k2) == spec_old_ttl(v1, k2));
            assert(v.ttl.contains_pair(c2, k2));
            match spec_old_ttl(v, k) {
                Some(t0) => {
                    if c2 == spec_composite(t0, k) {
                        lemma_composite_injective(t2, k2, t0, k);
                    }
                },
                None => {},
            }
            assert(v1.ttl.contains_pair(c2, k2));
        }
    }
    assert forall|c: Seq<u8>| #[trigger] v1.ttl.dom().contains(c) implies c.len() >= 8
        && v1.ttl[c] == c.skip(8) && v1.meta.dom().contains(c.skip(8)) && spec_old_ttl(
        v1,
        c.skip(8),
    ) == Some(spec_u64_from_be(c.take(8))) by {
        assert(v.ttl.dom().contains(c));
        let k2 = c.skip(8);
        assert(v.ttl[c] == k2 && v.meta.dom().contains(k2));
        assert(spec_old_ttl(v, k2) == Some(spec_u64_from_be(c.take(8))));
        if k2 == k {
            // the removed key's index entry left with it
            let t0 = spec_old_ttl(v, k)->0;
            assert(spec_u64_from_be(c.take(8)) == t0);
            lemma_composite_of(c);
            assert(c == spec_composite(t0, k));
            assert(!v1.ttl.dom().contains(c));
        }
        assert(k2 != k);
        assert(spec_old_ttl(v1, k2) == spec_old_ttl(v, k2));
        assert(v1.ttl[c] == v.ttl[c]);
    }
    assert(v1.finite());
}

/// A successful frequency increment preserves the cross-namespace
/// invariant: it touches nothing but the counter inside one record.
#[verifier::rlimit(100)]
pub proof fn lemma_increment_preserves_inv(v: DbView, k: Seq<u8>)
    requires
        spec_inv(v),
    ensures
        spec_inv(spec_increment(v, k)),
{
    let v1 = spec_increment(v, k);
    if spec_meta_of(v, k) is Some {
        let m = spec_meta_of(v, k)->0;
        let m2 = Metadata { freq: (m.freq + 1) as u64, ..m };
        crate::metadata::lemma_meta_roundtrip(m2);
        assert(v1.data.dom() =~= v1.meta.dom());
        assert forall|k2: Seq<u8>| #[trigger] v1.meta.dom().contains(k2) implies spec_meta_decode(
            v1.meta[k2],
        ) is Some by {
            if k2 != k {
                assert(v.meta.dom().contains(k2));
            }
        }
        assert forall|k2: Seq<u8>| #[trigger] v1.meta.dom().contains(k2) implies (spec_old_ttl(
            v1,
            k2,
        ) matches Some(t2) ==> v1.ttl.contains_pair(spec_composite(t2, k2), k2)) by {
            if spec_old_ttl(v1, k2) is Some {
                let t2 = spec_old_ttl(v1, k2)->0;
                if k2 == k {
                    assert(spec_old_ttl(v, k) == Some(t2));
                } else {
                    assert(spec_old_ttl(v, k2) == spec_old_ttl(v1, k2));
                }
                assert(v.ttl.contains_pair(spec_composite(t2, k2), k2));
            }
        }
        assert forall|c: Seq<u8>| #[trigger] v1.ttl.dom().contains(c) implies c.len() >= 8
            && v1.ttl[c] == c.skip(8) && v1.meta.dom().contains(c.skip(8)) && spec_old_ttl(
            v1,
            c.skip(8),
        ) == Some(spec_u64_from_be(c.take(8))) by {
            let k2 = c.skip(8);
            assert(v.ttl.dom().contains(c));
            if k2 == k {
                assert(spec_old_ttl(v1, k) == m2.ttl);
                assert(m2.ttl == m.ttl);
            } else {
                assert(spec_old_ttl(v1, k2) == spec_old_ttl(v, k2));
            }
        }
        assert(v1.finite());
    }
}

impl DB {
    /// The namespaces hold finitely many entries.
    pub open spec fn wf(&self) -> bool {
        self@.finite()
    }

    /// The running tallies.
    pub closed spec fn metrics_view(&self) -> Metrics {
        self.metrics
    }

    /// Reads the current tallies.
    pub fn metrics(&self) -> (r: &Metrics)
        ensures
            *r == self.metrics_view(),
    {
        &self.metrics
    }

    /// Publishes a sampled on-disk footprint, in bytes; the size sampler
    /// that measures the data directory calls this.
    pub fn record_disk_size(&mut self, bytes: u64)
        ensures
            final(self)@ == old(self)@,
            final(self).metrics_view() == (Metrics {
                disk_size_bytes: bytes,
                ..old(self).metrics_view()
            }),
    {
        self.metrics.set_disk_size(bytes);
    }

    /// Opens (or creates) a database at `path`: the engine instance itself
    /// and its three named trees. The background expiration sweep and size
    /// sampler are driven from outside through `reap_expired`.
    pub fn new(path: &str) -> (r: Result<DB, TransientError>)
        ensures
            r matches Ok(db) ==> db.wf() && db.metrics_view() == Metrics::spec_new(),
            r matches Err(e) ==> e matches TransientError::SledError { .. },
    {
        let db = match open_db(path, 512 * 1024 * 1024) {
            Ok(d) => d,
            Err(e) => {
                return Err(e);
            },
        };
        let data_tree = match open_tree(&db, "data_tree") {
            Ok(t) => t,
            Err(e) => {
                return Err(e);
            },
        };
        let meta_tree = match open_tree(&db, "freq_tree") {
            Ok(t) => t,
            Err(e) => {
                return Err(e);
            },
        };
        let ttl_tree = match open_tree(&db, "ttl_tree") {
            Ok(t) => t,
            Err(e) => {
                return Err(e);
            },
        };
        Ok(DB { data_tree, meta_tree, ttl_tree, metrics: Metrics::new() })
    }

    /// Retrieves the raw value stored under a raw key, counting one `get`.
    pub fn get_raw(&mut self, key: &[u8]) -> (r: Result<Option<Vec<u8>>, TransientError>)
        ensures
            final(self)@ == old(self)@,
            final(self).metrics_view() == old(self).metrics_view().spec_with_ops(
                OpKind::Get,
                sat_add(old(self).metrics_view().spec_ops(OpKind::Get), 1),
            ),
            r matches Ok(Some(v)) ==> old(self)@.data.dom().contains(key@) && v@ == old(
                self,
            )@.data[key@],
            r matches Ok(None) ==> !old(self)@.data.dom().contains(key@),
            r matches Err(e) ==> e matches TransientError::SledError { .. },
    {
        let res = tree_get(&self.data_tree, key);
        self.metrics.increment_operations(OpKind::Get);
        res
    }

    /// Flushes all three namespaces to disk, in order; the contents are
    /// untouched.
    pub fn flush(&self) -> (r: Result<(), TransientError>)
        ensures
            r matches Err(e) ==> e matches TransientError::SledError { .. },
    {
        match tree_flush(&self.data_tree) {
            Ok(_) => (),
            Err(e) => {
                return Err(e);
            },
        }
        match tree_flush(&self.meta_tree) {
            Ok(_) => (),
            Err(e) => {
                return Err(e);
            },
        }
        match tree_flush(&self.ttl_tree) {
            Ok(_) => (),
            Err(e) => {
                return Err(e);
            },
        }
        Ok(())
    }

    /// Stores `val` under `key` with an optional relative expiry in
    /// milliseconds, taking `now` as the current Unix second. A prior
    /// record keeps its frequency and creation time; its expiry is
    /// replaced. The three namespaces move together atomically.
    #[verifier::rlimit(50)]
    pub fn set_raw_at(&mut self, key: &[u8], val: &[u8], ttl_ms: Option<u64>, now: u64) -> (r:
        Result<(), TransientError>)
        ensures
            r is Ok ==> final(self)@ == spec_set(
                old(self)@,
                key@,
                val@,
                spec_ttl_abs(ttl_ms, now),
                now,
            ),
            r is Ok ==> final(self).metrics_view() == spec_set_metrics(
                old(self).metrics_view(),
                spec_old_ttl(old(self)@, key@) is Some,
                ttl_ms is Some,
            ),
            old(self).wf() ==> final(self).wf(),
            r is Err ==> final(self)@ == old(self)@ && final(self).metrics_view() == old(
                self,
            ).metrics_view(),
            old(self)@.meta.dom().contains(key@) && spec_meta_decode(old(self)@.meta[key@])
                is None ==> (r matches Err(e) && (e == TransientError::ParsingFromByteError || e
                matches TransientError::SledError { .. })),
            (r matches Err(e) && e == TransientError::ParsingFromByteError) ==> old(
                self,
            )@.meta.dom().contains(key@) && spec_meta_decode(old(self)@.meta[key@]) is None,
            r matches Err(e) ==> e == TransientError::ParsingFromByteError || e
                == TransientError::SledTransactionError || e matches TransientError::SledError {
                ..
            },
    {
        let ghost v0 = self@;
        let ttl_abs: Option<u64> = match ttl_ms {
            Some(ms) => Some(now.saturating_add(ms / 1000)),
            None => None,
        };
        let old_meta = match tree_get(&self.meta_tree, key) {
            Ok(o) => o,
            Err(e) => {
                return Err(e);
            },
        };
        let (new_meta, old_ttl) = match old_meta {
            Some(b) => match Metadata::from_u8(b.as_slice()) {
                Ok(m) => (Metadata { freq: m.freq, created_at: m.created_at, ttl: ttl_abs }, m.ttl),
                Err(e) => {
                    return Err(e);
                },
            },
            None => (Metadata { freq: 0, created_at: now, ttl: ttl_abs }, None),
        };
        proof {
            assert(new_meta == spec_new_meta(v0, key@, ttl_abs, now));
            assert(old_ttl == spec_old_ttl(v0, key@));
        }
        let enc = match new_meta.to_u8() {
            Ok(v) => v,
            Err(e) => {
                return Err(TransientError::SledTransactionError);
            },
        };
        let mut tx_ops: Vec<TreeOp> = Vec::new();
        if let Some(t0) = old_ttl {
            tx_ops.push(TreeOp::TtlDel(ttl_composite(t0, key)));
        }
        tx_ops.push(TreeOp::MetaPut(vstd::slice::slice_to_vec(key), enc));
        tx_ops.push(TreeOp::DataPut(vstd::slice::slice_to_vec(key), vstd::slice::slice_to_vec(val)));
        if let Some(t) = ttl_abs {
            tx_ops.push(TreeOp::TtlPut(ttl_composite(t, key), vstd::slice::slice_to_vec(key)));
        }
        proof {
            if old_ttl is Some && ttl_abs is Some {
                assert(tx_ops@ =~= seq![tx_ops@[0], tx_ops@[1], tx_ops@[2], tx_ops@[3]]);
                lemma_apply_four(v0, tx_ops@[0], tx_ops@[1], tx_ops@[2], tx_ops@[3]);
            } else if old_ttl is Some || ttl_abs is Some {
                assert(tx_ops@ =~= seq![tx_ops@[0], tx_ops@[1], tx_ops@[2]]);
                lemma_apply_three(v0, tx_ops@[0], tx_ops@[1], tx_ops@[2]);
            } else {
                assert(tx_ops@ =~= seq![tx_ops@[0], tx_ops@[1]]);
                lemma_apply_two(v0, tx_ops@[0], tx_ops@[1]);
            }
            assert(spec_apply_ops(v0, tx_ops@) == spec_set(v0, key@, val@, ttl_abs, now));
        }
        match run_transaction(&mut self.data_tree, &mut self.meta_tree, &mut self.ttl_tree, &tx_ops)
        {
            Ok(_) => (),
            Err(e) => {
                return Err(e);
            },
        }
        self.metrics.increment_operations(OpKind::SetOp);
        self.metrics.inc_keys_total(TreeKind::Data);
        self.metrics.inc_keys_total(TreeKind::Meta);
        if old_ttl.is_some() {
            self.metrics.dec_keys_total(TreeKind::Ttl);
        }
        if ttl_ms.is_some() {
            self.metrics.inc_keys_total(TreeKind::Ttl);
        }
        proof {
            if old(self).wf() {
                crate::db::ops::lemma_apply_ops_finite(v0, tx_ops@);
            }
        }
        Ok(())
    }

    /// Stores `val` under `key` with an optional relative expiry in
    /// milliseconds, read against the clock now.
    pub fn set_raw(&mut self, key: &[u8], val: &[u8], ttl_ms: Option<u64>) -> (r: Result<
        (),
        TransientError,
    >)
        ensures
            r is Ok ==> exists|now: u64|
                final(self)@ == spec_set(old(self)@, key@, val@, spec_ttl_abs(ttl_ms, now), now),
            r is Err ==> final(self)@ == old(self)@,
            old(self).wf() ==> final(self).wf(),
            r matches Err(e) ==> e == TransientError::ParsingFromByteError || e
                == TransientError::SledTransactionError || e matches TransientError::SledError {
                ..
            },
    {
        let now = now_seconds();
        self.set_raw_at(key, val, ttl_ms, now)
    }

    /// Removes `key`, its record and its expiry entry atomically; removing
    /// an absent key is refused.
    pub fn remove_raw(&mut self, key: &[u8]) -> (r: Result<(), TransientError>)
        ensures
            r is Ok ==> final(self)@ == spec_remove(old(self)@, key@),
            r is Ok ==> final(self).metrics_view() == spec_remove_metrics(
                old(self).metrics_view(),
                spec_old_ttl(old(self)@, key@) is Some,
            ),
            old(self).wf() ==> final(self).wf(),
            r is Err ==> final(self)@ == old(self)@ && final(self).metrics_view() == old(
                self,
            ).metrics_view(),
            r matches Err(e) && e == TransientError::ValueNotFound ==> !old(
                self,
            )@.meta.dom().contains(key@),
            !old(self)@.meta.dom().contains(key@) ==> r == Err::<(), TransientError>(
                TransientError::ValueNotFound,
            ) || (r matches Err(e) && e matches TransientError::SledError { .. }),
            old(self)@.meta.dom().contains(key@) && spec_meta_decode(old(self)@.meta[key@])
                is None ==> r is Err,
            r matches Err(e) ==> e == TransientError::ValueNotFound || e
                == TransientError::SledTransactionError || e matches TransientError::SledError {
                ..
            },
    {
        let ghost v0 = self@;
        let old_meta = match tree_get(&self.meta_tree, key) {
            Ok(Some(b)) => b,
            Ok(None) => {
                return Err(TransientError::ValueNotFound);
            },
            Err(e) => {
                return Err(e);
            },
        };
        let m = match Metadata::from_u8(old_meta.as_slice()) {
            Ok(m) => m,
            Err(_) => {
                return Err(TransientError::SledTransactionError);
            },
        };
        let mut tx_ops: Vec<TreeOp> = Vec::new();
        tx_ops.push(TreeOp::DataDel(vstd::slice::slice_to_vec(key)));
        tx_ops.push(TreeOp::MetaDel(vstd::slice::slice_to_vec(key)));
        if let Some(t0) = m.ttl {
            tx_ops.push(TreeOp::TtlDel(ttl_composite(t0, key)));
        }
        proof {
            assert(m.ttl == spec_old_ttl(v0, key@));
            match m.ttl {
                Some(t0) => {
                    lemma_apply_three(
                        v0,
                        tx_ops@[0],
                        tx_ops@[1],
                        tx_ops@[2],
                    );
                    assert(tx_ops@ =~= seq![tx_ops@[0], tx_ops@[1], tx_ops@[2]]);
                },
                None => {
                    lemma_apply_two(v0, tx_ops@[0], tx_ops@[1]);
                    assert(tx_ops@ =~= seq![tx_ops@[0], tx_ops@[1]]);
                },
            }
            assert(spec_apply_ops(v0, tx_ops@) == spec_remove(v0, key@));
        }
        match run_transaction(&mut self.data_tree, &mut self.meta_tree, &mut self.ttl_tree, &tx_ops)
        {
            Ok(_) => (),
            Err(e) => {
                return Err(e);
            },
        }
        self.metrics.increment_operations(OpKind::Rm);
        self.metrics.dec_keys_total(TreeKind::Data);
        self.metrics.dec_keys_total(TreeKind::Meta);
        if m.ttl.is_some() {
            self.metrics.dec_keys_total(TreeKind::Ttl);
        }
        proof {
            if old(self).wf() {
                crate::db::ops::lemma_apply_ops_finite(v0, tx_ops@);
            }
        }
        Ok(())
    }

    /// Raises the frequency counter of `key` by one, through the engine's
    /// compare-and-swap on the metadata namespace alone. An absent key is
    /// reported as `None`, not as an error.
    pub fn increment_frequency_raw(&mut self, key: &[u8]) -> (r: Result<
        Option<()>,
        TransientError,
    >)
        ensures
            r matches Ok(Some(_)) ==> old(self)@.meta.dom().contains(key@) && final(self)@
                == spec_increment(old(self)@, key@),
            old(self).wf() ==> final(self).wf(),
            r matches Ok(Some(_)) ==> final(self).metrics_view() == old(
                self,
            ).metrics_view().spec_with_ops(
                OpKind::IncrementFrequency,
                sat_add(old(self).metrics_view().spec_ops(OpKind::IncrementFrequency), 1),
            ),
            r matches Ok(None) ==> !old(self)@.meta.dom().contains(key@),
            !(r matches Ok(Some(_))) ==> final(self)@ == old(self)@ && final(self).metrics_view()
                == old(self).metrics_view(),
            old(self)@.meta.dom().contains(key@) && spec_meta_decode(old(self)@.meta[key@])
                is None ==> r is Err,
            (r matches Err(e) && e == TransientError::ParsingFromByteError) ==> old(
                self,
            )@.meta.dom().contains(key@) && spec_meta_decode(old(self)@.meta[key@]) is None,
            (r matches Err(e) && e == TransientError::IncretmentError) ==> (spec_meta_of(
                old(self)@,
                key@,
            ) matches Some(m) && m.freq == u64::MAX),
            r matches Err(e) ==> e == TransientError::ParsingFromByteError || e
                == TransientError::IncretmentError || e matches TransientError::SledError { .. },
    {
        let ghost v0 = self@;
        let old_bytes = match tree_get(&self.meta_tree, key) {
            Ok(Some(b)) => b,
            Ok(None) => {
                return Ok(None);
            },
            Err(e) => {
                return Err(e);
            },
        };
        let m = match Metadata::from_u8(old_bytes.as_slice()) {
            Ok(m) => m,
            Err(e) => {
                return Err(e);
            },
        };
        if m.freq == u64::MAX {
            return Err(TransientError::IncretmentError);
        }
        let bumped = m.freq_incretement();
        let enc = match bumped.to_u8() {
            Ok(v) => v,
            Err(_) => {
                return Err(TransientError::IncretmentError);
            },
        };
        match tree_cas(&mut self.meta_tree, key, &old_bytes, enc) {
            Ok(true) => (),
            Ok(false) => {
                proof {
                    assert(false);
                }
                return Err(TransientError::IncretmentError);
            },
            Err(e) => {
                return Err(e);
            },
        }
        self.metrics.increment_operations(OpKind::IncrementFrequency);
        proof {
            assert(spec_meta_of(v0, key@) == Some(m));
            assert(self@ == spec_increment(v0, key@));
            if old(self).wf() {
                assert(self@.meta.dom() =~= v0.meta.dom().insert(key@));
            }
        }
        Ok(Some(()))
    }

    /// Retrieves and decodes the metadata record of a raw key.
    pub fn get_metadata_raw(&mut self, key: &[u8]) -> (r: Result<Option<Metadata>, TransientError>)
        ensures
            final(self)@ == old(self)@,
            final(self).metrics_view() == old(self).metrics_view(),
            r matches Ok(Some(m)) ==> spec_meta_of(old(self)@, key@) == Some(m),
            r matches Ok(None) ==> !old(self)@.meta.dom().contains(key@),
            old(self)@.meta.dom().contains(key@) && spec_meta_decode(old(self)@.meta[key@])
                is None ==> r is Err,
            (r matches Err(e) && e == TransientError::ParsingFromByteError) ==> old(
                self,
            )@.meta.dom().contains(key@) && spec_meta_decode(old(self)@.meta[key@]) is None,
            r matches Err(e) ==> e == TransientError::ParsingFromByteError || e matches
                TransientError::SledError { .. },
    {
        let b = match tree_get(&self.meta_tree, key) {
            Ok(Some(b)) => b,
            Ok(None) => {
                return Ok(None);
            },
            Err(e) => {
                return Err(e);
            },
        };
        match Metadata::from_u8(b.as_slice()) {
            Ok(m) => Ok(Some(m)),
            Err(e) => Err(e),
        }
    }

    /// Stores a textual key-value pair with an optional relative expiry in
    /// milliseconds. An existing key keeps its frequency and creation time.
    pub fn set(&mut self, key: &str, val: &str, ttl_ms: Option<u64>) -> (r: Result<
        (),
        TransientError,
    >)
        ensures
            r is Ok ==> exists|now: u64|
                final(self)@ == spec_set(
                    old(self)@,
                    key.spec_bytes(),
                    val.spec_bytes(),
                    spec_ttl_abs(ttl_ms, now),
                    now,
                ),
            r is Err ==> final(self)@ == old(self)@,
            old(self).wf() ==> final(self).wf(),
            r matches Err(e) ==> e == TransientError::ParsingFromByteError || e
                == TransientError::SledTransactionError || e matches TransientError::SledError {
                ..
            },
    {
        self.set_raw(key.as_bytes(), val.as_bytes(), ttl_ms)
    }

    /// Retrieves the value of a textual key, decoding it as UTF-8.
    pub fn get(&mut self, key: &str) -> (r: Result<Option<String>, TransientError>)
        ensures
            final(self)@ == old(self)@,
            r matches Ok(Some(s)) ==> old(self)@.data.dom().contains(key.spec_bytes())
                && valid_utf8(old(self)@.data[key.spec_bytes()]) && s@ == decode_utf8(
                old(self)@.data[key.spec_bytes()],
            ),
            r matches Ok(None) ==> !old(self)@.data.dom().contains(key.spec_bytes()),
            old(self)@.data.dom().contains(key.spec_bytes()) && !valid_utf8(
                old(self)@.data[key.spec_bytes()],
            ) ==> r is Err,
            (r matches Err(e) && e == TransientError::ParsingToUTF8Error) ==> old(
                self,
            )@.data.dom().contains(key.spec_bytes()) && !valid_utf8(
                old(self)@.data[key.spec_bytes()],
            ),
            r matches Err(e) ==> e == TransientError::ParsingToUTF8Error || e matches
                TransientError::SledError { .. },
    {
        match self.get_raw(key.as_bytes()) {
            Ok(Some(v)) => match crate::strconv::vec_to_utf8(v) {
                Some(s) => Ok(Some(s)),
                None => Err(TransientError::ParsingToUTF8Error),
            },
            Ok(None) => Ok(None),
            Err(e) => Err(e),
        }
    }

    /// Removes a textual key, its record and its expiry entry atomically.
    pub fn remove(&mut self, key: &str) -> (r: Result<(), TransientError>)
        ensures
            r is Ok ==> final(self)@ == spec_remove(old(self)@, key.spec_bytes()),
            r is Err ==> final(self)@ == old(self)@,
            !old(self)@.meta.dom().contains(key.spec_bytes()) ==> (r matches Err(e) && (e
                == TransientError::ValueNotFound || e matches TransientError::SledError { .. })),
            (r matches Err(e) && e == TransientError::ValueNotFound) ==> !old(
                self,
            )@.meta.dom().contains(key.spec_bytes()),
            r matches Err(e) ==> e == TransientError::ValueNotFound || e
                == TransientError::SledTransactionError || e matches TransientError::SledError {
                ..
            },
    {
        self.remove_raw(key.as_bytes())
    }

    /// Raises the frequency counter of a textual key by one.
    pub fn increment_frequency(&mut self, key: &str) -> (r: Result<Option<()>, TransientError>)
        ensures
            r matches Ok(Some(_)) ==> old(self)@.meta.dom().contains(key.spec_bytes())
                && final(self)@ == spec_increment(old(self)@, key.spec_bytes()),
            r matches Ok(None) ==> !old(self)@.meta.dom().contains(key.spec_bytes()),
            !(r matches Ok(Some(_))) ==> final(self)@ == old(self)@,
    {
        self.increment_frequency_raw(key.as_bytes())
    }

    /// Retrieves and decodes the metadata record of a textual key.
    pub fn get_metadata(&mut self, key: &str) -> (r: Result<Option<Metadata>, TransientError>)
        ensures
            final(self)@ == old(self)@,
            r matches Ok(Some(m)) ==> spec_meta_of(old(self)@, key.spec_bytes()) == Some(m),
            r matches Ok(None) ==> !old(self)@.meta.dom().contains(key.spec_bytes()),
            (r matches Err(e) && e == TransientError::ParsingFromByteError) ==> old(
                self,
            )@.meta.dom().contains(key.spec_bytes()) && spec_meta_decode(
                old(self)@.meta[key.spec_bytes()],
            ) is None,
            r matches Err(e) ==> e == TransientError::ParsingFromByteError || e matches
                TransientError::SledError { .. },
    {
        self.get_metadata_raw(key.as_bytes())
    }

    /// Every entry of the store, in ascending key order: the key, its
    /// value (both as UTF-8 text) and its decoded metadata record.
    pub fn iter(&mut self) -> (r: Result<Vec<(String, String, Metadata)>, TransientError>)
        ensures
            final(self)@ == old(self)@,
            final(self).metrics_view() == old(self).metrics_view(),
            r matches Err(e) ==> e matches TransientError::SledError { .. } || e
                == TransientError::MetadataNotFound || e == TransientError::ParsingFromByteError
                || e == TransientError::ParsingToUTF8Error,
            r matches Ok(v) ==> {
                &&& forall|i: int|
                    0 <= i < v@.len() ==> old(self)@.data.contains_pair(
                        encode_utf8(v@[i].0@),
                        encode_utf8(v@[i].1@),
                    ) && spec_meta_of(old(self)@, encode_utf8(v@[i].0@)) == Some(v@[i].2)
                &&& forall|k: Seq<u8>|
                    old(self)@.data.dom().contains(k) ==> exists|i: int|
                        0 <= i < v@.len() && encode_utf8(v@[i].0@) == k
                &&& forall|i: int, j: int|
                    0 <= i < j < v@.len() ==> crate::bytes::lex_lt(
                        encode_utf8(v@[i].0@),
                        encode_utf8(v@[j].0@),
                    )
            },
    {
        let entries = match crate::db::engine::tree_iter_vec(&self.data_tree) {
            Ok(v) => v,
            Err(e) => {
                return Err(e);
            },
        };
        let mut out: Vec<(String, String, Metadata)> = Vec::new();
        let mut i: usize = 0;
        while i < entries.len()
            invariant
                0 <= i <= entries@.len(),
                out@.len() == i,
                forall|j: int|
                    0 <= j < entries@.len() ==> self@.data.contains_pair(
                        entries@[j].0@,
                        entries@[j].1@,
                    ),
                forall|j1: int, j2: int|
                    0 <= j1 < j2 < entries@.len() ==> crate::bytes::lex_lt(
                        entries@[j1].0@,
                        entries@[j2].0@,
                    ),
                forall|j: int|
                    0 <= j < i ==> encode_utf8(out@[j].0@) == entries@[j].0@ && encode_utf8(
                        out@[j].1@,
                    ) == entries@[j].1@ && spec_meta_of(self@, entries@[j].0@) == Some(out@[j].2),
            decreases entries@.len() - i,
        {
            let kb = vstd::slice::slice_to_vec(entries[i].0.as_slice());
            let vb = vstd::slice::slice_to_vec(entries[i].1.as_slice());
            let mb = match tree_get(&self.meta_tree, kb.as_slice()) {
                Ok(Some(b)) => b,
                Ok(None) => {
                    return Err(TransientError::MetadataNotFound);
                },
                Err(e) => {
                    return Err(e);
                },
            };
            let m = match Metadata::from_u8(mb.as_slice()) {
                Ok(m) => m,
                Err(e) => {
                    return Err(e);
                },
            };
            let ks = match crate::strconv::vec_to_utf8(kb) {
                Some(s) => s,
                None => {
                    return Err(TransientError::ParsingToUTF8Error);
                },
            };
            let vs = match crate::strconv::vec_to_utf8(vb) {
                Some(s) => s,
                None => {
                    return Err(TransientError::ParsingToUTF8Error);
                },
            };
            proof {
                vstd::utf8::decode_utf8_encode_utf8(entries@[i as int].0@);
                vstd::utf8::decode_utf8_encode_utf8(entries@[i as int].1@);
            }
            out.push((ks, vs, m));
            i += 1;
        }
        Ok(out)
    }

    /// One pass of the expiration sweep: walks a snapshot of the TTL
    /// index and, for every entry whose second has come, removes the
    /// key, its record and the entry itself, atomically per entry.
    /// Returns how many keys were removed. A reader between sweeps may
    /// still observe an expired key; this pass is what takes it away.
    #[verifier::rlimit(100)]
    pub fn reap_expired(&mut self, now: u64) -> (r: Result<u64, TransientError>)
        ensures
            old(self).wf() ==> final(self).wf(),
            r is Ok ==> spec_reap_post(old(self)@, final(self)@, now),
            spec_reap_partial(old(self)@, final(self)@, now),
            r matches Err(e) ==> e matches TransientError::SledError { .. } || e
                == TransientError::ParsingToU64ByteFailed || e
                == TransientError::SledTransactionError,
    {
        let ghost v0 = self@;
        let entries = match crate::db::engine::tree_iter_vec(&self.ttl_tree) {
            Ok(v) => v,
            Err(e) => {
                return Err(e);
            },
        };
        let mut reaped: u64 = 0;
        let mut i: usize = 0;
        while i < entries.len()
            invariant
                0 <= i <= entries@.len(),
                v0 == old(self)@,
                v0.finite() ==> self@.finite(),
                forall|j: int|
                    0 <= j < entries@.len() ==> v0.ttl.contains_pair(
                        (#[trigger] entries@[j]).0@,
                        entries@[j].1@,
                    ),
                forall|c: Seq<u8>|
                    #[trigger] v0.ttl.dom().contains(c) ==> exists|j: int|
                        0 <= j < entries@.len() && entries@[j].0@ == c,
                forall|k: Seq<u8>|
                    #[trigger] self@.data.dom().contains(k) ==> v0.data.contains_pair(
                        k,
                        self@.data[k],
                    ),
                forall|k: Seq<u8>|
                    #[trigger] self@.meta.dom().contains(k) ==> v0.meta.contains_pair(
                        k,
                        self@.meta[k],
                    ),
                forall|c: Seq<u8>|
                    #[trigger] self@.ttl.dom().contains(c) ==> v0.ttl.contains_pair(
                        c,
                        self@.ttl[c],
                    ),
                forall|j: int| 0 <= j < i ==> (#[trigger] entries@[j]).0@.len() >= 8,
                forall|j: int|
                    0 <= j < i && spec_u64_from_be((#[trigger] entries@[j]).0@.take(8)) <= now
                        ==> !self@.ttl.dom().contains(entries@[j].0@)
                        && !self@.data.dom().contains(entries@[j].1@)
                        && !self@.meta.dom().contains(entries@[j].1@),
                forall|k: Seq<u8>|
                    #[trigger] v0.data.dom().contains(k) && !spec_due_key(v0, now, k)
                        ==> self@.data.contains_pair(k, v0.data[k]),
                forall|k: Seq<u8>|
                    #[trigger] v0.meta.dom().contains(k) && !spec_due_key(v0, now, k)
                        ==> self@.meta.contains_pair(k, v0.meta[k]),
                forall|c: Seq<u8>|
                    #[trigger] v0.ttl.dom().contains(c) && spec_u64_from_be(c.take(8)) > now
                        ==> self@.ttl.contains_pair(c, v0.ttl[c]),
            decreases entries@.len() - i,
        {
            if entries[i].0.len() < 8 {
                return Err(TransientError::ParsingToU64ByteFailed);
            }
            let t = u64_from_be_bytes(entries[i].0.as_slice(), 0);
            proof {
                assert(entries@[i as int].0@.take(8) =~= entries@[i as int].0@.subrange(0, 8));
            }
            if now >= t {
                let ghost before = self@;
                let mut tx_ops: Vec<TreeOp> = Vec::new();
                tx_ops.push(
                    TreeOp::DataDel(vstd::slice::slice_to_vec(entries[i].1.as_slice())),
                );
                tx_ops.push(
                    TreeOp::MetaDel(vstd::slice::slice_to_vec(entries[i].1.as_slice())),
                );
                tx_ops.push(
                    TreeOp::TtlDel(vstd::slice::slice_to_vec(entries[i].0.as_slice())),
                );
                proof {
                    assert(tx_ops@ =~= seq![tx_ops@[0], tx_ops@[1], tx_ops@[2]]);
                    lemma_apply_three(before, tx_ops@[0], tx_ops@[1], tx_ops@[2]);
                }
                match run_transaction(
                    &mut self.data_tree,
                    &mut self.meta_tree,
                    &mut self.ttl_tree,
                    &tx_ops,
                ) {
                    Ok(_) => (),
                    Err(e) => {
                        return Err(e);
                    },
                }
                self.metrics.dec_keys_total(TreeKind::Data);
                self.metrics.dec_keys_total(TreeKind::Meta);
                self.metrics.dec_keys_total(TreeKind::Ttl);
                self.metrics.increment_ttl_expired_keys();
                reaped = reaped.saturating_add(1);
                proof {
                    if v0.finite() {
                        crate::db::ops::lemma_apply_ops_finite(before, tx_ops@);
                    }
                    assert(spec_due_key(v0, now, entries@[i as int].1@)) by {
                        assert(v0.ttl.dom().contains(entries@[i as int].0@)
                            && spec_u64_from_be(entries@[i as int].0@.take(8)) <= now
                            && v0.ttl[entries@[i as int].0@] == entries@[i as int].1@);
                    }
                }
            }
            i += 1;
        }
        proof {
            assert forall|c: Seq<u8>| #[trigger] v0.ttl.dom().contains(c) implies c.len()
                >= 8 by {
                let j = choose|j: int|
                    0 <= j < entries@.len() && (#[trigger] entries@[j]).0@ == c;
            }
            assert forall|c: Seq<u8>|
                #[trigger] v0.ttl.dom().contains(c) && spec_u64_from_be(c.take(8))
                    <= now implies !self@.ttl.dom().contains(c) && !self@.data.dom().contains(
                v0.ttl[c],
            ) && !self@.meta.dom().contains(v0.ttl[c]) by {
                let j = choose|j: int|
                    0 <= j < entries@.len() && (#[trigger] entries@[j]).0@ == c;
                assert(v0.ttl.contains_pair(entries@[j].0@, entries@[j].1@));
                assert(v0.ttl[c] == entries@[j].1@);
            }
        }
        Ok(reaped)
    }

    /// How many keys the store holds: the cardinality of `data`.
    pub fn get_db_size(&self) -> (r: usize)
        requires
            self.wf(),
        ensures
            r == self@.data.dom().len(),
    {
        tree_len(&self.data_tree)
    }
}

} // verus!
