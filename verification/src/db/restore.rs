//! Rebuilding a store from a backup archive, and writing one out.

use vstd::prelude::*;

use crate::db::backup::{
    decode_records, encode_record_into, err_text, lemma_encode_records_push, spec_decode_records,
    spec_encode_records, zip_entry_data, zip_pack, zip_unpack,
};
use crate::db::errors::TransientError;
use crate::db::ops::{DbView, TreeOp};
use crate::db::DB;
use crate::metadata::{spec_meta_encode, Metadata};
use crate::metrics::Metrics;

verus! {

broadcast use crate::bytes::lemma_u64_be_len;

/// The effect of restoring one record: the value and the re-encoded
/// metadata are written, and a carried expiry enters the TTL index.
pub open spec fn spec_restore_record(v: DbView, k: Seq<u8>, val: Seq<u8>, m: Metadata) -> DbView {
    DbView {
        data: v.data.insert(k, val),
        meta: v.meta.insert(k, spec_meta_encode(m)),
        ttl: match m.ttl {
            Some(t) => v.ttl.insert(crate::db::spec_composite(t, k), k),
            None => v.ttl,
        },
    }
}

/// The effect of restoring a sequence of records, in order.
pub open spec fn spec_restore(v: DbView, recs: Seq<(Seq<u8>, Seq<u8>, Metadata)>) -> DbView
    decreases recs.len(),
{
    if recs.len() == 0 {
        v
    } else {
        spec_restore(spec_restore_record(v, recs[0].0, recs[0].1, recs[0].2), recs.skip(1))
    }
}

/// Appending one record restores it after the rest.
#[verifier::rlimit(100)]
pub proof fn lemma_restore_push(
    v: DbView,
    recs: Seq<(Seq<u8>, Seq<u8>, Metadata)>,
    e: (Seq<u8>, Seq<u8>, Metadata),
)
    ensures
        spec_restore(v, recs.push(e)) == spec_restore_record(
            spec_restore(v, recs),
            e.0,
            e.1,
            e.2,
        ),
    decreases recs.len(),
{
    if recs.len() == 0 {
        assert(recs.push(e)[0] == e);
        assert(recs.push(e).skip(1) =~= Seq::<(Seq<u8>, Seq<u8>, Metadata)>::empty());
        assert(spec_restore(v, recs) == v);
        assert(spec_restore(spec_restore_record(v, e.0, e.1, e.2), Seq::<
            (Seq<u8>, Seq<u8>, Metadata),
        >::empty()) == spec_restore_record(v, e.0, e.1, e.2));
    } else {
        assert(recs.push(e)[0] == recs[0]);
        assert(recs.push(e).skip(1) =~= recs.skip(1).push(e));
        lemma_restore_push(spec_restore_record(v, recs[0].0, recs[0].1, recs[0].2), recs.skip(1), e);
    }
}

/// Restoring a stream of records with pairwise distinct keys writes each
/// key's value and re-encoded record, rebuilds each carried expiry's
/// index entry, and leaves all other keys alone.
proof fn lemma_restore_get(w: DbView, recs: Seq<(Seq<u8>, Seq<u8>, Metadata)>)
    requires
        forall|i: int, j: int|
            0 <= i < j < recs.len() ==> (#[trigger] recs[i]).0 != (#[trigger] recs[j]).0,
    ensures
        forall|i: int|
            0 <= i < recs.len() ==> spec_restore(w, recs).data.get((#[trigger] recs[i]).0)
                == Some(recs[i].1) && spec_restore(w, recs).meta.get(recs[i].0) == Some(
                spec_meta_encode(recs[i].2),
            ),
        forall|k: Seq<u8>|
            !(exists|i: int| 0 <= i < recs.len() && (#[trigger] recs[i]).0 == k) ==> spec_restore(
                w,
                recs,
            ).data.get(k) == w.data.get(k) && spec_restore(w, recs).meta.get(k) == w.meta.get(k),
        forall|i: int|
            0 <= i < recs.len() ==> ((#[trigger] recs[i]).2.ttl matches Some(t)
                ==> spec_restore(w, recs).ttl.contains_pair(
                    crate::db::spec_composite(t, recs[i].0),
                    recs[i].0,
                )),
        forall|c: Seq<u8>|
            #[trigger] spec_restore(w, recs).ttl.dom().contains(c) ==> w.ttl.dom().contains(c)
                || exists|i: int|
                0 <= i < recs.len() && ((#[trigger] recs[i]).2.ttl matches Some(t) && c
                    == crate::db::spec_composite(t, recs[i].0)),
    decreases recs.len(),
{
    if recs.len() > 0 {
        let recs0 = recs.drop_last();
        let e = recs.last();
        assert(recs =~= recs0.push(e));
        lemma_restore_push(w, recs0, e);
        lemma_restore_get(w, recs0);
        assert forall|i: int|
            0 <= i < recs.len() implies spec_restore(w, recs).data.get((#[trigger] recs[i]).0)
            == Some(recs[i].1) && spec_restore(w, recs).meta.get(recs[i].0) == Some(
            spec_meta_encode(recs[i].2),
        ) by {
            if i < recs.len() - 1 {
                assert(recs0[i] == recs[i]);
                assert(recs[i].0 != e.0);
                assert(!(exists|j: int|
                    0 <= j < recs0.len() && (#[trigger] recs0[j]).0 == e.0)) by {
                    if exists|j: int| 0 <= j < recs0.len() && (#[trigger] recs0[j]).0 == e.0 {
                        let j = choose|j: int|
                            0 <= j < recs0.len() && (#[trigger] recs0[j]).0 == e.0;
                        assert(recs[j].0 == recs[recs.len() - 1].0);
                    }
                }
            }
        }
        assert forall|k: Seq<u8>|
            !(exists|i: int| 0 <= i < recs.len() && (#[trigger] recs[i]).0 == k) implies
            spec_restore(w, recs).data.get(k) == w.data.get(k) && spec_restore(w, recs).meta.get(
            k,
        ) == w.meta.get(k) by {
            assert(!(exists|i: int| 0 <= i < recs0.len() && (#[trigger] recs0[i]).0 == k)) by {
                if exists|i: int| 0 <= i < recs0.len() && (#[trigger] recs0[i]).0 == k {
                    let i = choose|i: int| 0 <= i < recs0.len() && (#[trigger] recs0[i]).0 == k;
                    assert(recs[i].0 == k);
                }
            }
            assert(e.0 != k) by {
                assert(recs[recs.len() - 1] == e);
            }
        }
        assert forall|i: int|
            0 <= i < recs.len() implies ((#[trigger] recs[i]).2.ttl matches Some(t)
            ==> spec_restore(w, recs).ttl.contains_pair(
            crate::db::spec_composite(t, recs[i].0),
            recs[i].0,
        )) by {
            if recs[i].2.ttl is Some {
                let t = recs[i].2.ttl->0;
                if i < recs.len() - 1 {
                    assert(recs0[i] == recs[i]);
                    assert(spec_restore(w, recs0).ttl.contains_pair(
                        crate::db::spec_composite(t, recs[i].0),
                        recs[i].0,
                    ));
                    match e.2.ttl {
                        Some(te) => {
                            if crate::db::spec_composite(t, recs[i].0)
                                == crate::db::spec_composite(te, e.0) {
                                crate::db::lemma_composite_injective(t, recs[i].0, te, e.0);
                                assert(recs[i].0 == recs[recs.len() - 1].0);
                            }
                        },
                        None => {},
                    }
                } else {
                    assert(recs[i] == e);
                }
            }
        }
        assert forall|c: Seq<u8>|
            #[trigger] spec_restore(w, recs).ttl.dom().contains(c) implies w.ttl.dom().contains(
            c,
        ) || exists|i: int|
            0 <= i < recs.len() && ((#[trigger] recs[i]).2.ttl matches Some(t) && c
                == crate::db::spec_composite(t, recs[i].0)) by {
            let inserted = e.2.ttl matches Some(te) && c == crate::db::spec_composite(te, e.0);
            if inserted {
                assert(recs[recs.len() - 1] == e);
                assert(0 <= recs.len() - 1 < recs.len() && ((#[trigger] recs[recs.len()
                    - 1]).2.ttl matches Some(t) && c == crate::db::spec_composite(
                    t,
                    recs[recs.len() - 1].0,
                )));
            } else {
                assert(spec_restore(w, recs0).ttl.dom().contains(c));
                if !w.ttl.dom().contains(c) {
                    let i = choose|i: int|
                        0 <= i < recs0.len() && ((#[trigger] recs0[i]).2.ttl matches Some(t) && c
                            == crate::db::spec_composite(t, recs0[i].0));
                    assert(recs[i] == recs0[i]);
                    assert(0 <= i < recs.len() && ((#[trigger] recs[i]).2.ttl matches Some(t)
                        && c == crate::db::spec_composite(t, recs[i].0)));
                }
            }
        }
    }
}

/// Round trip: restoring the encoded record stream of a backup into an
/// empty store reproduces, key for key, the values and records of the
/// store that was backed up, and rebuilds exactly the TTL index the
/// records' expiries call for.
///
/// The hypotheses are what `backup_to_bytes` guarantees of its stream
/// (its records enumerate `data`, carry the stored record bytes, and are
/// sorted by key) together with a consistent source store: `data` and
/// `meta` share their keys and every stored record decodes.
pub proof fn lemma_backup_restore_roundtrip(
    v0: DbView,
    entries: Seq<(Seq<u8>, Seq<u8>, Seq<u8>)>,
    fresh: DbView,
)
    requires
        forall|i: int|
            0 <= i < entries.len() ==> v0.data.contains_pair(
                (#[trigger] entries[i]).0,
                entries[i].1,
            ) && v0.meta.contains_pair(entries[i].0, entries[i].2),
        forall|k: Seq<u8>|
            #[trigger] v0.data.dom().contains(k) ==> exists|i: int|
                0 <= i < entries.len() && (#[trigger] entries[i]).0 == k,
        forall|i: int, j: int|
            0 <= i < j < entries.len() ==> crate::bytes::lex_lt(
                (#[trigger] entries[i]).0,
                (#[trigger] entries[j]).0,
            ),
        v0.data.dom() == v0.meta.dom(),
        forall|k: Seq<u8>|
            #[trigger] v0.meta.dom().contains(k) ==> crate::metadata::spec_meta_decode(v0.meta[k])
                is Some,
        forall|i: int|
            0 <= i < entries.len() ==> (#[trigger] entries[i]).0.len() <= u64::MAX
                && entries[i].1.len() <= u64::MAX && entries[i].2.len() <= u64::MAX,
        fresh.data == Map::<Seq<u8>, Seq<u8>>::empty(),
        fresh.meta == Map::<Seq<u8>, Seq<u8>>::empty(),
        fresh.ttl == Map::<Seq<u8>, Seq<u8>>::empty(),
    ensures
        spec_decode_records(spec_encode_records(entries)) matches Some(recs) && spec_restore(
            fresh,
            recs,
        ).data == v0.data && spec_restore(fresh, recs).meta == v0.meta && (forall|
            k: Seq<u8>,
            t: u64,
        |
            spec_restore(fresh, recs).ttl.contains_pair(
                #[trigger] crate::db::spec_composite(t, k),
                k,
            ) <==> (v0.meta.dom().contains(k) && (crate::metadata::spec_meta_decode(v0.meta[k])
                matches Some(m) && m.ttl == Some(t)))) && (forall|c: Seq<u8>|
            #[trigger] spec_restore(fresh, recs).ttl.dom().contains(c) ==> exists|
                k: Seq<u8>,
                t: u64,
            |
                c == crate::db::spec_composite(t, k)),
{
    assert forall|i: int|
        0 <= i < entries.len() implies crate::metadata::spec_meta_decode(
        (#[trigger] entries[i]).2,
    ) is Some by {
        assert(v0.meta.contains_pair(entries[i].0, entries[i].2));
    }
    crate::db::backup::lemma_records_roundtrip(entries);
    let recs = entries.map_values(
        |e: (Seq<u8>, Seq<u8>, Seq<u8>)| (e.0, e.1, crate::metadata::spec_meta_decode(e.2)->0),
    );
    assert forall|i: int, j: int|
        0 <= i < j < recs.len() implies (#[trigger] recs[i]).0 != (#[trigger] recs[j]).0 by {
        crate::bytes::lemma_lex_lt_irrefl(entries[i].0);
    }
    lemma_restore_get(fresh, recs);
    let v1 = spec_restore(fresh, recs);
    assert forall|i: int|
        0 <= i < entries.len() implies #[trigger] spec_meta_encode(recs[i].2) == entries[i].2 by {
        crate::db::backup::lemma_meta_canonical(entries[i].2);
    }
    assert(v1.data =~= v0.data) by {
        assert forall|k: Seq<u8>| #[trigger] v1.data.dom().contains(k) || v0.data.dom().contains(
            k,
        ) implies v1.data.get(k) == v0.data.get(k) by {
            if v0.data.dom().contains(k) {
                let i = choose|i: int|
                    0 <= i < entries.len() && (#[trigger] entries[i]).0 == k;
                assert(recs[i] == (entries[i].0, entries[i].1, crate::metadata::spec_meta_decode(
                    entries[i].2,
                )->0));
                assert(recs[i].0 == k);
                assert(v1.data.get(k) == Some(recs[i].1));
                assert(v0.data.contains_pair(entries[i].0, entries[i].1));
            } else {
                assert(!(exists|i: int| 0 <= i < recs.len() && (#[trigger] recs[i]).0 == k)) by {
                    if exists|i: int| 0 <= i < recs.len() && (#[trigger] recs[i]).0 == k {
                        let i = choose|i: int|
                            0 <= i < recs.len() && (#[trigger] recs[i]).0 == k;
                        assert(recs[i] == (entries[i].0, entries[i].1,
                            crate::metadata::spec_meta_decode(entries[i].2)->0));
                        assert(v0.data.contains_pair(entries[i].0, entries[i].1));
                    }
                }
                assert(v1.data.get(k) == fresh.data.get(k));
            }
        }
    }
    assert(v1.meta =~= v0.meta) by {
        assert forall|k: Seq<u8>| #[trigger] v1.meta.dom().contains(k) || v0.meta.dom().contains(
            k,
        ) implies v1.meta.get(k) == v0.meta.get(k) by {
            if v0.meta.dom().contains(k) {
                assert(v0.data.dom().contains(k));
                let i = choose|i: int|
                    0 <= i < entries.len() && (#[trigger] entries[i]).0 == k;
                assert(recs[i] == (entries[i].0, entries[i].1, crate::metadata::spec_meta_decode(
                    entries[i].2,
                )->0));
                assert(recs[i].0 == k);
                assert(v1.meta.get(k) == Some(spec_meta_encode(recs[i].2)));
                assert(spec_meta_encode(recs[i].2) == entries[i].2);
                assert(v0.meta.contains_pair(entries[i].0, entries[i].2));
            } else {
                assert(!(exists|i: int| 0 <= i < recs.len() && (#[trigger] recs[i]).0 == k)) by {
                    if exists|i: int| 0 <= i < recs.len() && (#[trigger] recs[i]).0 == k {
                        let i = choose|i: int|
                            0 <= i < recs.len() && (#[trigger] recs[i]).0 == k;
                        assert(recs[i] == (entries[i].0, entries[i].1,
                            crate::metadata::spec_meta_decode(entries[i].2)->0));
                        assert(v0.meta.contains_pair(entries[i].0, entries[i].2));
                    }
                }
                assert(v1.meta.get(k) == fresh.meta.get(k));
            }
        }
    }
    assert forall|k: Seq<u8>, t: u64|
        v1.ttl.contains_pair(#[trigger] crate::db::spec_composite(t, k), k) implies (
    v0.meta.dom().contains(k) && (crate::metadata::spec_meta_decode(v0.meta[k]) matches Some(m)
        && m.ttl == Some(t))) by {
        let c = crate::db::spec_composite(t, k);
        assert(v1.ttl.dom().contains(c));
        let i = choose|i: int|
            0 <= i < recs.len() && ((#[trigger] recs[i]).2.ttl matches Some(t2) && c
                == crate::db::spec_composite(t2, recs[i].0));
        let t2 = recs[i].2.ttl->0;
        crate::db::lemma_composite_injective(t, k, t2, recs[i].0);
        assert(recs[i] == (entries[i].0, entries[i].1, crate::metadata::spec_meta_decode(
            entries[i].2,
        )->0));
        assert(v0.meta.contains_pair(entries[i].0, entries[i].2));
    }
    assert forall|k: Seq<u8>, t: u64|
        v0.meta.dom().contains(k) && (crate::metadata::spec_meta_decode(v0.meta[k]) matches Some(
            m,
        ) && m.ttl == Some(t)) implies v1.ttl.contains_pair(
        #[trigger] crate::db::spec_composite(t, k),
        k,
    ) by {
        assert(v0.data.dom().contains(k));
        let i = choose|i: int| 0 <= i < entries.len() && (#[trigger] entries[i]).0 == k;
        assert(recs[i] == (entries[i].0, entries[i].1, crate::metadata::spec_meta_decode(
            entries[i].2,
        )->0));
        assert(v0.meta.contains_pair(entries[i].0, entries[i].2));
        assert(recs[i].2.ttl == Some(t));
    }
    assert forall|c: Seq<u8>| #[trigger] v1.ttl.dom().contains(c) implies exists|
        k: Seq<u8>,
        t: u64,
    |
        c == crate::db::spec_composite(t, k) by {
        let i = choose|i: int|
            0 <= i < recs.len() && ((#[trigger] recs[i]).2.ttl matches Some(t2) && c
                == crate::db::spec_composite(t2, recs[i].0));
        let t2 = recs[i].2.ttl->0;
        assert(c == crate::db::spec_composite(t2, recs[i].0));
    }
}

impl DB {
    /// Builds a backup archive of the present contents: one record per
    /// key, in data iteration order, compressed into a single-entry
    /// archive. The archive's size is published as a gauge.
    #[verifier::rlimit(100)]
    pub fn backup_to_bytes(&mut self) -> (r: Result<Vec<u8>, TransientError>)
        ensures
            final(self)@ == old(self)@,
            r matches Ok(a) ==> final(self).metrics_view() == (Metrics {
                backup_size_bytes: a@.len() as u64,
                ..old(self).metrics_view()
            }),
            r is Err ==> final(self).metrics_view() == old(self).metrics_view(),
            r is Ok ==> forall|k: Seq<u8>|
                #[trigger] old(self)@.data.dom().contains(k) ==> old(
                    self,
                )@.meta.dom().contains(k),
            (r matches Err(e) && e == TransientError::MetadataNotFound) ==> exists|k: Seq<u8>|
                #[trigger] old(self)@.data.dom().contains(k) && !old(self)@.meta.dom().contains(
                    k,
                ),
            r matches Err(e) ==> e matches TransientError::SledError { .. } || e
                == TransientError::MetadataNotFound || e matches TransientError::ZipError { .. }
                || e matches TransientError::IOError { .. },
            r matches Ok(archive) ==> exists|entries: Seq<(Seq<u8>, Seq<u8>, Seq<u8>)>|
                {
                    &&& #[trigger] zip_entry_data(archive@) == Some(spec_encode_records(entries))
                    &&& forall|i: int|
                        0 <= i < entries.len() ==> old(self)@.data.contains_pair(
                            (#[trigger] entries[i]).0,
                            entries[i].1,
                        ) && old(self)@.meta.contains_pair(entries[i].0, entries[i].2)
                    &&& forall|k: Seq<u8>|
                        old(self)@.data.dom().contains(k) ==> exists|i: int|
                            0 <= i < entries.len() && (#[trigger] entries[i]).0 == k
                    &&& forall|i: int, j: int|
                        0 <= i < j < entries.len() ==> crate::bytes::lex_lt(
                            entries[i].0,
                            entries[j].0,
                        )
                    &&& forall|i: int|
                        0 <= i < entries.len() ==> (#[trigger] entries[i]).0.len() <= u64::MAX
                            && entries[i].1.len() <= u64::MAX && entries[i].2.len() <= u64::MAX
                },
    {
        match self.flush() {
            Ok(_) => (),
            Err(e) => {
                return Err(e);
            },
        }
        let pairs = match crate::db::engine::tree_iter_vec(&self.data_tree) {
            Ok(v) => v,
            Err(e) => {
                return Err(e);
            },
        };
        let mut stream: Vec<u8> = Vec::new();
        let ghost mut gentries: Seq<(Seq<u8>, Seq<u8>, Seq<u8>)> = Seq::empty();
        let mut i: usize = 0;
        proof {
            reveal_with_fuel(spec_encode_records, 1);
            assert(spec_encode_records(gentries) =~= Seq::<u8>::empty());
        }
        while i < pairs.len()
            invariant
                0 <= i <= pairs@.len(),
                self@ == old(self)@,
                self.metrics_view() == old(self).metrics_view(),
                gentries.len() == i,
                stream@ == spec_encode_records(gentries),
                forall|j: int|
                    0 <= j < pairs@.len() ==> self@.data.contains_pair(
                        pairs@[j].0@,
                        pairs@[j].1@,
                    ),
                forall|j1: int, j2: int|
                    0 <= j1 < j2 < pairs@.len() ==> crate::bytes::lex_lt(
                        pairs@[j1].0@,
                        pairs@[j2].0@,
                    ),
                forall|j: int|
                    0 <= j < i ==> (#[trigger] gentries[j]).0 == pairs@[j].0@ && gentries[j].1
                        == pairs@[j].1@ && self@.meta.contains_pair(gentries[j].0, gentries[j].2),
                forall|j: int|
                    0 <= j < i ==> (#[trigger] gentries[j]).0.len() <= u64::MAX
                        && gentries[j].1.len() <= u64::MAX && gentries[j].2.len() <= u64::MAX,
            decreases pairs@.len() - i,
        {
            let kb = pairs[i].0.as_slice();
            let vb = pairs[i].1.as_slice();
            let mb = match crate::db::engine::tree_get(&self.meta_tree, kb) {
                Ok(Some(b)) => b,
                Ok(None) => {
                    proof {
                        assert(old(self)@.data.dom().contains(pairs@[i as int].0@)
                            && !old(self)@.meta.dom().contains(pairs@[i as int].0@));
                    }
                    return Err(TransientError::MetadataNotFound);
                },
                Err(e) => {
                    return Err(e);
                },
            };
            encode_record_into(&mut stream, kb, vb, mb.as_slice());
            proof {
                lemma_encode_records_push(gentries, (kb@, vb@, mb@));
                gentries = gentries.push((kb@, vb@, mb@));
            }
            i += 1;
        }
        let archive = match zip_pack(&stream) {
            Ok(a) => a,
            Err(e) => {
                return Err(e);
            },
        };
        self.metrics.set_backup_size(archive.len() as u64);
        proof {
            let ge = gentries;
            assert forall|k: Seq<u8>| old(self)@.data.dom().contains(k) implies exists|j: int|
                0 <= j < ge.len() && (#[trigger] ge[j]).0 == k by {
                assert(self@.data.dom().contains(k));
                let j = choose|j: int| 0 <= j < pairs@.len() && pairs@[j].0@ == k;
                assert(ge[j].0 == k);
            }
            assert(zip_entry_data(archive@) == Some(spec_encode_records(ge)));
            assert forall|i: int|
                0 <= i < ge.len() implies old(self)@.data.contains_pair(
                (#[trigger] ge[i]).0,
                ge[i].1,
            ) && old(self)@.meta.contains_pair(ge[i].0, ge[i].2) by {
                assert(self@.data.contains_pair(pairs@[i].0@, pairs@[i].1@));
            }
            assert forall|i: int, j: int|
                0 <= i < j < ge.len() implies crate::bytes::lex_lt(
                (#[trigger] ge[i]).0,
                (#[trigger] ge[j]).0,
            ) by {
                assert(crate::bytes::lex_lt(pairs@[i].0@, pairs@[j].0@));
            }
            assert forall|k: Seq<u8>| #[trigger] old(self)@.data.dom().contains(k) implies old(
                self,
            )@.meta.dom().contains(k) by {
                assert(self@.data.dom().contains(k));
                let j = choose|j: int| 0 <= j < pairs@.len() && pairs@[j].0@ == k;
                assert(self@.meta.contains_pair(ge[j].0, ge[j].2));
            }
            assert(exists|entries: Seq<(Seq<u8>, Seq<u8>, Seq<u8>)>|
                {
                    &&& #[trigger] zip_entry_data(archive@) == Some(spec_encode_records(entries))
                    &&& forall|i: int|
                        0 <= i < entries.len() ==> old(self)@.data.contains_pair(
                            (#[trigger] entries[i]).0,
                            entries[i].1,
                        ) && old(self)@.meta.contains_pair(entries[i].0, entries[i].2)
                    &&& forall|k: Seq<u8>|
                        old(self)@.data.dom().contains(k) ==> exists|i: int|
                            0 <= i < entries.len() && (#[trigger] entries[i]).0 == k
                    &&& forall|i: int, j: int|
                        0 <= i < j < entries.len() ==> crate::bytes::lex_lt(
                            entries[i].0,
                            entries[j].0,
                        )
                    &&& forall|i: int|
                        0 <= i < entries.len() ==> (#[trigger] entries[i]).0.len() <= u64::MAX
                            && entries[i].1.len() <= u64::MAX && entries[i].2.len() <= u64::MAX
                }) by {
                assert(zip_entry_data(archive@) == Some(spec_encode_records(ge)));
            }
        }
        Ok(archive)
    }

    /// Replays a backup archive into this store: each record writes its
    /// key, value and re-encoded metadata, and a carried expiry enters
    /// the TTL index. The replay is per record, not one transaction.
    #[verifier::rlimit(100)]
    pub fn restore_archive(&mut self, archive: &[u8]) -> (r: Result<(), TransientError>)
        ensures
            r is Ok ==> (zip_entry_data(archive@) matches Some(stream) && (spec_decode_records(
                stream,
            ) matches Some(recs) && final(self)@ == spec_restore(old(self)@, recs))),
            zip_entry_data(archive@) is None ==> (r matches Err(e) && (e matches
                TransientError::ZipError { .. } || e matches TransientError::IOError { .. })),
            (r matches Err(e) && e == TransientError::ParsingFromByteError) ==> (zip_entry_data(
                archive@,
            ) matches Some(stream) && spec_decode_records(stream) is None),
            r matches Err(e) ==> e matches TransientError::ZipError { .. } || e matches
                TransientError::IOError { .. } || e == TransientError::ParsingFromByteError || e
                == TransientError::SledTransactionError,
            old(self).wf() ==> final(self).wf(),
            final(self).metrics_view() == old(self).metrics_view(),
    {
        let stream = match zip_unpack(archive) {
            Ok(v) => v,
            Err(e) => {
                return Err(e);
            },
        };
        let recs = match decode_records(stream.as_slice()) {
            Ok(v) => v,
            Err(e) => {
                return Err(e);
            },
        };
        let ghost v0 = self@;
        let ghost grecs = recs@.map_values(|t: (Vec<u8>, Vec<u8>, Metadata)| (t.0@, t.1@, t.2));
        let mut i: usize = 0;
        proof {
            assert(grecs.take(0) =~= Seq::<(Seq<u8>, Seq<u8>, Metadata)>::empty());
        }
        while i < recs.len()
            invariant
                0 <= i <= recs@.len(),
                v0 == old(self)@,
                zip_entry_data(archive@) is Some,
                grecs == recs@.map_values(|t: (Vec<u8>, Vec<u8>, Metadata)| (t.0@, t.1@, t.2)),
                self@ == spec_restore(v0, grecs.take(i as int)),
                v0.finite() ==> self@.finite(),
                self.metrics_view() == old(self).metrics_view(),
            decreases recs@.len() - i,
        {
            let k = &recs[i].0;
            let v = &recs[i].1;
            let md = recs[i].2;
            let enc = match md.to_u8() {
                Ok(b) => b,
                Err(e) => {
                    return Err(e);
                },
            };
            let mut tx_ops: Vec<TreeOp> = Vec::new();
            tx_ops.push(TreeOp::MetaPut(vstd::slice::slice_to_vec(k.as_slice()), enc));
            tx_ops.push(
                TreeOp::DataPut(
                    vstd::slice::slice_to_vec(k.as_slice()),
                    vstd::slice::slice_to_vec(v.as_slice()),
                ),
            );
            if let Some(t) = md.ttl {
                tx_ops.push(
                    TreeOp::TtlPut(
                        crate::db::ttl_composite(t, k.as_slice()),
                        vstd::slice::slice_to_vec(k.as_slice()),
                    ),
                );
            }
            let ghost before = self@;
            proof {
                if md.ttl is Some {
                    assert(tx_ops@ =~= seq![tx_ops@[0], tx_ops@[1], tx_ops@[2]]);
                    crate::db::ops::lemma_apply_three(before, tx_ops@[0], tx_ops@[1], tx_ops@[2]);
                } else {
                    assert(tx_ops@ =~= seq![tx_ops@[0], tx_ops@[1]]);
                    crate::db::ops::lemma_apply_two(before, tx_ops@[0], tx_ops@[1]);
                }
                assert(crate::db::ops::spec_apply_ops(before, tx_ops@) == spec_restore_record(
                    before,
                    grecs[i as int].0,
                    grecs[i as int].1,
                    grecs[i as int].2,
                ));
            }
            match crate::db::engine::run_transaction(
                &mut self.data_tree,
                &mut self.meta_tree,
                &mut self.ttl_tree,
                &tx_ops,
            ) {
                Ok(_) => (),
                Err(e) => {
                    return Err(e);
                },
            }
            proof {
                lemma_restore_push(v0, grecs.take(i as int), grecs[i as int]);
                assert(grecs.take(i + 1) =~= grecs.take(i as int).push(grecs[i as int]));
                if v0.finite() {
                    crate::db::ops::lemma_apply_ops_finite(before, tx_ops@);
                }
            }
            i += 1;
        }
        proof {
            assert(grecs.take(recs@.len() as int) =~= grecs);
        }
        Ok(())
    }

    /// Opens a fresh database at `db_path` and fills it from the backup
    /// archive's record stream.
    pub fn load_from(archive: &[u8], db_path: &str) -> (r: Result<DB, TransientError>)
        ensures
            r matches Ok(db) ==> db.wf() && (zip_entry_data(archive@) matches Some(stream) && (
            spec_decode_records(stream) matches Some(recs) && exists|v0: DbView|
                #[trigger] spec_restore(v0, recs) == db@)),
            zip_entry_data(archive@) is None ==> r is Err,
            r matches Err(e) ==> e matches TransientError::SledError { .. } || e matches
                TransientError::ZipError { .. } || e matches TransientError::IOError { .. } || e
                == TransientError::ParsingFromByteError || e
                == TransientError::SledTransactionError,
    {
        let mut db = match DB::new(db_path) {
            Ok(d) => d,
            Err(e) => {
                return Err(e);
            },
        };
        match db.restore_archive(archive) {
            Ok(_) => Ok(db),
            Err(e) => Err(e),
        }
    }
}


} // verus!
