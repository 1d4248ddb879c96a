//! The portable backup format: a compressed archive holding one entry,
//! `data.epoch`, whose body is a stream of length-prefixed records, one
//! per key, in data iteration order:
//!
//! `u64_be(len_k) ++ K ++ u64_be(len_v) ++ V ++ u64_be(len_m) ++ encoded_M`
//!
//! The record codec is verified to round-trip; the archive container is
//! the `zip` crate's work, named here by what its entry decompresses to.
//! The metadata bytes inside each record use this crate's fixed schema,
//! so archives are portable exactly among stores using this codec.

use std::io::{Read, Write};
use vstd::prelude::*;

use crate::bytes::{push_bytes, spec_u64_from_be, spec_u64_to_be, u64_from_be_bytes, u64_to_be_bytes};
use crate::db::errors::TransientError;
use crate::db::ops::{DbView, TreeOp};
use crate::db::DB;
use crate::metrics::Metrics;
use crate::metadata::{spec_meta_decode, spec_meta_encode, Metadata};
use vstd::string::StringExecFns;

verus! {

broadcast use crate::bytes::lemma_u64_be_len;

/// A length-prefixed field of the stream: eight big-endian bytes of the
/// length, then the bytes themselves.
pub open spec fn spec_field(x: Seq<u8>) -> Seq<u8> {
    spec_u64_to_be(x.len() as u64) + x
}

/// One record of the stream: the key, the value and the metadata bytes,
/// each length-prefixed.
pub open spec fn spec_encode_record(k: Seq<u8>, v: Seq<u8>, m: Seq<u8>) -> Seq<u8> {
    spec_field(k) + (spec_field(v) + spec_field(m))
}

/// The whole stream: the records in order.
#[verifier::opaque]
pub open spec fn spec_encode_records(entries: Seq<(Seq<u8>, Seq<u8>, Seq<u8>)>) -> Seq<u8>
    decreases entries.len(),
{
    if entries.len() == 0 {
        Seq::empty()
    } else {
        spec_encode_record(entries[0].0, entries[0].1, entries[0].2) + spec_encode_records(
            entries.skip(1),
        )
    }
}

/// What decoding a stream yields: the records, each with its metadata
/// decoded, or nothing if the stream is not a whole number of
/// well-formed records.
#[verifier::opaque]
pub open spec fn spec_decode_records(s: Seq<u8>) -> Option<Seq<(Seq<u8>, Seq<u8>, Metadata)>>
    decreases s.len(),
{
    if s.len() == 0 {
        Some(Seq::empty())
    } else if s.len() < 8 {
        None
    } else {
        let lk = spec_u64_from_be(s.subrange(0, 8));
        if 8 + lk + 8 > s.len() {
            None
        } else {
            let k = s.subrange(8, 8 + lk);
            let lv = spec_u64_from_be(s.subrange(8 + lk, 8 + lk + 8));
            if 16 + lk + lv + 8 > s.len() {
                None
            } else {
                let v = s.subrange(16 + lk, 16 + lk + lv);
                let lm = spec_u64_from_be(s.subrange(16 + lk + lv, 16 + lk + lv + 8));
                if 24 + lk + lv + lm > s.len() {
                    None
                } else {
                    let m = s.subrange(24 + lk + lv, 24 + lk + lv + lm);
                    match spec_meta_decode(m) {
                        None => None,
                        Some(md) => match spec_decode_records(
                            s.skip(24 + lk + lv + lm),
                        ) {
                            None => None,
                            Some(rest) => Some(seq![(k, v, md)] + rest),
                        },
                    }
                }
            }
        }
    }
}

/// Decoding a stream that begins with one well-formed record takes that
/// record off the front.
#[verifier::rlimit(100)]
proof fn lemma_decode_one(k: Seq<u8>, v: Seq<u8>, m: Seq<u8>, rest: Seq<u8>)
    requires
        spec_meta_decode(m) is Some,
        k.len() <= u64::MAX,
        v.len() <= u64::MAX,
        m.len() <= u64::MAX,
    ensures
        spec_decode_records(spec_encode_record(k, v, m) + rest) == (match spec_decode_records(
            rest,
        ) {
            None => None::<Seq<(Seq<u8>, Seq<u8>, Metadata)>>,
            Some(rs) => Some(seq![(k, v, spec_meta_decode(m)->0)] + rs),
        }),
{
    reveal_with_fuel(spec_decode_records, 2);
    let s = spec_encode_record(k, v, m) + rest;
    let lk = k.len() as int;
    let lv = v.len() as int;
    let lm = m.len() as int;
    lemma_record_parts(k, v, m, rest);
    crate::bytes::lemma_u64_be_roundtrip(k.len() as u64);
    crate::bytes::lemma_u64_be_roundtrip(v.len() as u64);
    crate::bytes::lemma_u64_be_roundtrip(m.len() as u64);
    assert(spec_u64_from_be(s.subrange(0, 8)) == k.len() as u64);
    assert(spec_u64_from_be(s.subrange(8 + lk, 8 + lk + 8)) == v.len() as u64);
    assert(spec_u64_from_be(s.subrange(16 + lk + lv, 16 + lk + lv + 8)) == m.len() as u64);
    assert(spec_meta_decode(s.subrange(24 + lk + lv, 24 + lk + lv + lm)) == spec_meta_decode(m));
}

/// A subrange of a suffix is a subrange of the whole.
proof fn lemma_skip_subrange(s: Seq<u8>, off: int, i: int, j: int)
    requires
        0 <= off <= s.len(),
        0 <= i <= j <= s.len() - off,
    ensures
        s.skip(off).subrange(i, j) == s.subrange(off + i, off + j),
{
    assert(s.skip(off).subrange(i, j) =~= s.subrange(off + i, off + j));
}

/// A skip of a suffix is a longer skip of the whole.
proof fn lemma_skip_skip(s: Seq<u8>, off: int, i: int)
    requires
        0 <= off <= s.len(),
        0 <= i <= s.len() - off,
    ensures
        s.skip(off).skip(i) == s.skip(off + i),
{
    assert(s.skip(off).skip(i) =~= s.skip(off + i));
}

/// The parts of one length-prefixed field at the head of a stream.
proof fn lemma_field_parts(x: Seq<u8>, rest: Seq<u8>)
    requires
        x.len() <= u64::MAX,
    ensures
        ({
            let s = spec_field(x) + rest;
            &&& s.len() == 8 + x.len() + rest.len()
            &&& s.subrange(0, 8) == spec_u64_to_be(x.len() as u64)
            &&& s.subrange(8, 8 + x.len() as int) == x
            &&& s.skip(8 + x.len() as int) == rest
        }),
{
    let s = spec_field(x) + rest;
    assert(s.subrange(0, 8) =~= spec_u64_to_be(x.len() as u64));
    assert(s.subrange(8, 8 + x.len() as int) =~= x);
    assert(s.skip(8 + x.len() as int) =~= rest);
}

/// The pieces of an encoded record followed by more bytes stand at their
/// fixed offsets.
proof fn lemma_record_parts(k: Seq<u8>, v: Seq<u8>, m: Seq<u8>, rest: Seq<u8>)
    requires
        k.len() <= u64::MAX,
        v.len() <= u64::MAX,
        m.len() <= u64::MAX,
    ensures
        ({
            let s = spec_encode_record(k, v, m) + rest;
            let lk = k.len() as int;
            let lv = v.len() as int;
            let lm = m.len() as int;
            &&& s.len() == 24 + lk + lv + lm + rest.len()
            &&& s.subrange(0, 8) == spec_u64_to_be(k.len() as u64)
            &&& s.subrange(8, 8 + lk) == k
            &&& s.subrange(8 + lk, 8 + lk + 8) == spec_u64_to_be(v.len() as u64)
            &&& s.subrange(16 + lk, 16 + lk + lv) == v
            &&& s.subrange(16 + lk + lv, 16 + lk + lv + 8) == spec_u64_to_be(m.len() as u64)
            &&& s.subrange(24 + lk + lv, 24 + lk + lv + lm) == m
            &&& s.skip(24 + lk + lv + lm) == rest
        }),
{
    let s = spec_encode_record(k, v, m) + rest;
    let lk = k.len() as int;
    let lv = v.len() as int;
    let lm = m.len() as int;
    let t1 = spec_field(v) + (spec_field(m) + rest);
    assert(s =~= spec_field(k) + t1);
    lemma_field_parts(k, t1);
    let t2 = spec_field(m) + rest;
    lemma_field_parts(v, t2);
    lemma_field_parts(m, rest);
    // the second field's parts, lifted to offsets in `s`
    lemma_skip_subrange(s, 8 + lk, 0, 8);
    lemma_skip_subrange(s, 8 + lk, 8, 8 + lv);
    lemma_skip_skip(s, 8 + lk, 8 + lv);
    // the third field's parts, lifted to offsets in `s`
    lemma_skip_subrange(s, 16 + lk + lv, 0, 8);
    lemma_skip_subrange(s, 16 + lk + lv, 8, 8 + lm);
    lemma_skip_skip(s, 16 + lk + lv, 8 + lm);
}

/// Decoding inverts encoding, record for record, provided each record's
/// metadata bytes are a well-formed encoding.
pub proof fn lemma_records_roundtrip(entries: Seq<(Seq<u8>, Seq<u8>, Seq<u8>)>)
    requires
        forall|i: int|
            0 <= i < entries.len() ==> spec_meta_decode(#[trigger] entries[i].2) is Some,
        forall|i: int|
            0 <= i < entries.len() ==> (#[trigger] entries[i].0).len() <= u64::MAX
                && entries[i].1.len() <= u64::MAX && entries[i].2.len() <= u64::MAX,
    ensures
        spec_decode_records(spec_encode_records(entries)) == Some(
            entries.map_values(
                |e: (Seq<u8>, Seq<u8>, Seq<u8>)|
                    (
                        e.0,
                        e.1,
                        spec_meta_decode(e.2)->0,
                    ),
            ),
        ),
    decreases entries.len(),
{
    reveal_with_fuel(spec_encode_records, 2);
    reveal_with_fuel(spec_decode_records, 2);
    let mapped = entries.map_values(
        |e: (Seq<u8>, Seq<u8>, Seq<u8>)| (e.0, e.1, spec_meta_decode(e.2)->0),
    );
    if entries.len() == 0 {
        assert(spec_encode_records(entries) =~= Seq::<u8>::empty());
        assert(mapped =~= Seq::<(Seq<u8>, Seq<u8>, Metadata)>::empty());
    } else {
        let k = entries[0].0;
        let v = entries[0].1;
        let m = entries[0].2;
        lemma_decode_one(k, v, m, spec_encode_records(entries.skip(1)));
        lemma_records_roundtrip(entries.skip(1));
        let mapped_rest = entries.skip(1).map_values(
            |e: (Seq<u8>, Seq<u8>, Seq<u8>)| (e.0, e.1, spec_meta_decode(e.2)->0),
        );
        assert(seq![(k, v, spec_meta_decode(m)->0)] + mapped_rest =~= mapped);
    }
}

/// Appending one record encodes it after the rest.
pub proof fn lemma_encode_records_push(
    entries: Seq<(Seq<u8>, Seq<u8>, Seq<u8>)>,
    e: (Seq<u8>, Seq<u8>, Seq<u8>),
)
    ensures
        spec_encode_records(entries.push(e)) == spec_encode_records(entries) + spec_encode_record(
            e.0,
            e.1,
            e.2,
        ),
    decreases entries.len(),
{
    reveal_with_fuel(spec_encode_records, 2);
    if entries.len() == 0 {
        assert(entries.push(e)[0] == e);
        assert(entries.push(e).skip(1) =~= Seq::<(Seq<u8>, Seq<u8>, Seq<u8>)>::empty());
        assert(spec_encode_records(entries.push(e).skip(1)) =~= Seq::<u8>::empty());
        assert(spec_encode_records(entries) =~= Seq::<u8>::empty());
        assert(spec_encode_records(entries.push(e)) =~= spec_encode_records(entries)
            + spec_encode_record(e.0, e.1, e.2));
    } else {
        assert(entries.push(e)[0] == entries[0]);
        assert(entries.push(e).skip(1) =~= entries.skip(1).push(e));
        lemma_encode_records_push(entries.skip(1), e);
        assert(spec_encode_records(entries.push(e)) =~= spec_encode_records(entries)
            + spec_encode_record(e.0, e.1, e.2));
    }
}

/// The uninterpreted contents of a backup archive: what the `data.epoch`
/// entry decompresses to, when the archive is well formed and holds one.
pub uninterp spec fn zip_entry_data(archive: Seq<u8>) -> Option<Seq<u8>>;

/// Relies on `zip::ZipWriter` over an in-memory buffer (`start_file`,
/// `write_all`, `finish`): the produced archive holds exactly one entry,
/// `data.epoch`, which decompresses back to `payload`.
#[verifier::external_body]
pub(crate) fn zip_pack(payload: &Vec<u8>) -> (r: Result<Vec<u8>, TransientError>)
    ensures
        r matches Ok(a) ==> zip_entry_data(a@) == Some(payload@),
        r matches Err(e) ==> e matches TransientError::ZipError { .. } || e matches
            TransientError::IOError { .. },
{
    let mut zipw = zip::ZipWriter::new(std::io::Cursor::new(Vec::new()));
    let options = zip::write::SimpleFileOptions::default().compression_method(
        zip::CompressionMethod::Bzip2,
    );
    zipw.start_file("data.epoch", options).map_err(
        |e| TransientError::ZipError { error: e.to_string() },
    )?;
    zipw.write_all(payload).map_err(|e| TransientError::IOError { error: e.to_string() })?;
    let cur = zipw.finish().map_err(|e| TransientError::ZipError { error: e.to_string() })?;
    Ok(cur.into_inner())
}

/// Relies on `zip::ZipArchive` over an in-memory buffer (`new`,
/// `by_name`, `read_to_end`): the decompressed bytes of the `data.epoch`
/// entry, which exist exactly when the archive is well formed and holds
/// one.
#[verifier::external_body]
pub(crate) fn zip_unpack(archive: &[u8]) -> (r: Result<Vec<u8>, TransientError>)
    ensures
        r is Ok <==> zip_entry_data(archive@) is Some,
        r matches Ok(v) ==> zip_entry_data(archive@) == Some(v@),
        r matches Err(e) ==> e matches TransientError::ZipError { .. } || e matches
            TransientError::IOError { .. },
{
    let mut za = zip::ZipArchive::new(std::io::Cursor::new(archive)).map_err(
        |e| TransientError::ZipError { error: e.to_string() },
    )?;
    let mut entry = za.by_name("data.epoch").map_err(
        |e| TransientError::ZipError { error: e.to_string() },
    )?;
    let mut out = Vec::new();
    entry.read_to_end(&mut out).map_err(|e| TransientError::IOError { error: e.to_string() })?;
    Ok(out)
}

/// Appends one length-prefixed record to the stream being built. The
/// field lengths of any real slice fit the eight-byte prefixes.
pub(crate) fn encode_record_into(out: &mut Vec<u8>, k: &[u8], v: &[u8], m: &[u8])
    ensures
        final(out)@ == old(out)@ + spec_encode_record(k@, v@, m@),
        k@.len() <= u64::MAX && v@.len() <= u64::MAX && m@.len() <= u64::MAX,
{
    let lk = u64_to_be_bytes(k.len() as u64);
    push_bytes(out, lk.as_slice());
    push_bytes(out, k);
    let lv = u64_to_be_bytes(v.len() as u64);
    push_bytes(out, lv.as_slice());
    push_bytes(out, v);
    let lm = u64_to_be_bytes(m.len() as u64);
    push_bytes(out, lm.as_slice());
    push_bytes(out, m);
    proof {
        assert(out@ =~= old(out)@ + spec_encode_record(k@, v@, m@));
    }
}

/// A well-formed metadata encoding re-encodes to itself: the codec is
/// canonical.
pub proof fn lemma_meta_canonical(s: Seq<u8>)
    requires
        spec_meta_decode(s) is Some,
    ensures
        spec_meta_encode(spec_meta_decode(s)->0) =~= s,
{
    let m = spec_meta_decode(s)->0;
    crate::bytes::lemma_u64_be_roundtrip(m.freq);
    crate::bytes::lemma_u64_be_roundtrip(m.created_at);
    crate::bytes::lemma_be_inverse(s.subrange(0, 8));
    crate::bytes::lemma_be_inverse(s.subrange(8, 16));
    if s.len() == 25 {
        crate::bytes::lemma_be_inverse(s.subrange(17, 25));
    }
}

/// One record at the head of a well-formed stream, by its measured
/// lengths.
proof fn lemma_decode_unfold(s: Seq<u8>, lk: u64, lv: u64, lm: u64, md: Metadata)
    requires
        s.len() >= 24 + lk + lv + lm,
        lk == spec_u64_from_be(s.subrange(0, 8)),
        lv == spec_u64_from_be(s.subrange(8 + lk as int, 8 + lk as int + 8)),
        lm == spec_u64_from_be(
            s.subrange(16 + lk as int + lv as int, 16 + lk as int + lv as int + 8),
        ),
        spec_meta_decode(
            s.subrange(
                24 + lk as int + lv as int,
                24 + lk as int + lv as int + lm as int,
            ),
        ) == Some(md),
    ensures
        spec_decode_records(s) == (match spec_decode_records(
            s.skip(24 + lk as int + lv as int + lm as int),
        ) {
            None => None::<Seq<(Seq<u8>, Seq<u8>, Metadata)>>,
            Some(rest) => Some(
                seq![
                    (
                        s.subrange(8, 8 + lk as int),
                        s.subrange(16 + lk as int, 16 + lk as int + lv as int),
                        md,
                    )
                ] + rest,
            ),
        }),
{
    reveal_with_fuel(spec_decode_records, 2);
}

/// A stream too short for the next length prefix or field decodes to
/// nothing.
proof fn lemma_decode_short(s: Seq<u8>, lk: u64, lv: u64, lm: u64)
    requires
        s.len() > 0,
        s.len() >= 8 ==> lk == spec_u64_from_be(s.subrange(0, 8)),
        s.len() >= 8 && 8 + lk + 8 <= s.len() ==> lv == spec_u64_from_be(
            s.subrange(8 + lk as int, 8 + lk as int + 8),
        ),
        s.len() >= 8 && 8 + lk + 8 <= s.len() && 16 + lk + lv + 8 <= s.len() ==> lm
            == spec_u64_from_be(
            s.subrange(16 + lk as int + lv as int, 16 + lk as int + lv as int + 8),
        ),
        s.len() < 8 || 8 + lk + 8 > s.len() || 16 + lk + lv + 8 > s.len() || 24 + lk + lv + lm
            > s.len(),
    ensures
        spec_decode_records(s) is None,
{
    reveal_with_fuel(spec_decode_records, 2);
}

/// A record whose metadata bytes do not decode spoils the stream.
proof fn lemma_decode_badmeta(s: Seq<u8>, lk: u64, lv: u64, lm: u64)
    requires
        s.len() >= 24 + lk + lv + lm,
        lk == spec_u64_from_be(s.subrange(0, 8)),
        lv == spec_u64_from_be(s.subrange(8 + lk as int, 8 + lk as int + 8)),
        lm == spec_u64_from_be(
            s.subrange(16 + lk as int + lv as int, 16 + lk as int + lv as int + 8),
        ),
        spec_meta_decode(
            s.subrange(
                24 + lk as int + lv as int,
                24 + lk as int + lv as int + lm as int,
            ),
        ) is None,
    ensures
        spec_decode_records(s) is None,
{
    reveal_with_fuel(spec_decode_records, 2);
}

/// Decodes the one record that starts at `pos`, returning it and the
/// position after it.
#[verifier::rlimit(100)]
fn decode_one(stream: &[u8], pos: usize) -> (r: Result<
    ((Vec<u8>, Vec<u8>, Metadata), usize),
    TransientError,
>)
    requires
        pos < stream@.len(),
    ensures
        r matches Ok((t, np)) ==> pos < np <= stream@.len() && spec_decode_records(
            stream@.skip(pos as int),
        ) == (match spec_decode_records(stream@.skip(np as int)) {
            None => None::<Seq<(Seq<u8>, Seq<u8>, Metadata)>>,
            Some(rest) => Some(seq![(t.0@, t.1@, t.2)] + rest),
        }),
        r is Err ==> spec_decode_records(stream@.skip(pos as int)) is None,
        r matches Err(e) ==> e == TransientError::ParsingFromByteError || e matches
            TransientError::IOError { .. },
{
    let ghost s1 = stream@.skip(pos as int);
    let remaining = stream.len() - pos;
    if remaining < 8 {
        proof {
            lemma_decode_short(s1, 0, 0, 0);
        }
        return Err(TransientError::IOError { error: err_text() });
    }
    let lk = crate::bytes::u64_from_be_bytes(stream, pos);
    proof {
        lemma_skip_subrange(stream@, pos as int, 0, 8);
    }
    if (((remaining - 8) as u64) < 8) || (lk > ((remaining - 16) as u64)) {
        proof {
            lemma_decode_short(s1, lk, 0, 0);
        }
        return Err(TransientError::IOError { error: err_text() });
    }
    let lk_us = lk as usize;
    let k = vstd::slice::slice_to_vec(
        vstd::slice::slice_subrange(stream, pos + 8, pos + 8 + lk_us),
    );
    let lv = crate::bytes::u64_from_be_bytes(stream, pos + 8 + lk_us);
    proof {
        lemma_skip_subrange(stream@, pos as int, 8, 8 + lk as int);
        lemma_skip_subrange(stream@, pos as int, 8 + lk as int, 8 + lk as int + 8);
    }
    if (((remaining - 16 - lk_us) as u64) < 8) || (lv > ((remaining - 24 - lk_us) as u64)) {
        proof {
            lemma_decode_short(s1, lk, lv, 0);
        }
        return Err(TransientError::IOError { error: err_text() });
    }
    let lv_us = lv as usize;
    let v = vstd::slice::slice_to_vec(
        vstd::slice::slice_subrange(stream, pos + 16 + lk_us, pos + 16 + lk_us + lv_us),
    );
    let lm = crate::bytes::u64_from_be_bytes(stream, pos + 16 + lk_us + lv_us);
    proof {
        lemma_skip_subrange(stream@, pos as int, 16 + lk as int, 16 + lk as int + lv as int);
        lemma_skip_subrange(
            stream@,
            pos as int,
            16 + lk as int + lv as int,
            16 + lk as int + lv as int + 8,
        );
    }
    if lm > ((remaining - 24 - lk_us - lv_us) as u64) {
        proof {
            lemma_decode_short(s1, lk, lv, lm);
        }
        return Err(TransientError::IOError { error: err_text() });
    }
    let lm_us = lm as usize;
    let mslice = vstd::slice::slice_subrange(
        stream,
        pos + 24 + lk_us + lv_us,
        pos + 24 + lk_us + lv_us + lm_us,
    );
    proof {
        lemma_skip_subrange(
            stream@,
            pos as int,
            24 + lk as int + lv as int,
            24 + lk as int + lv as int + lm as int,
        );
    }
    let md = match Metadata::from_u8(mslice) {
        Ok(md) => md,
        Err(e) => {
            proof {
                lemma_decode_badmeta(s1, lk, lv, lm);
            }
            return Err(e);
        },
    };
    let consumed = 24 + lk_us + lv_us + lm_us;
    proof {
        lemma_skip_skip(stream@, pos as int, consumed as int);
        lemma_decode_unfold(s1, lk, lv, lm, md);
        assert(k@ == s1.subrange(8, 8 + lk as int));
        assert(v@ == s1.subrange(16 + lk as int, 16 + lk as int + lv as int));
    }
    Ok(((k, v, md), pos + consumed))
}

/// Decodes a whole record stream, rejecting anything that is not a whole
/// number of well-formed records.
#[verifier::rlimit(100)]
pub fn decode_records(stream: &[u8]) -> (r: Result<
    Vec<(Vec<u8>, Vec<u8>, Metadata)>,
    TransientError,
>)
    ensures
        r is Ok <==> spec_decode_records(stream@) is Some,
        r matches Ok(v) ==> spec_decode_records(stream@) == Some(
            v@.map_values(|t: (Vec<u8>, Vec<u8>, Metadata)| (t.0@, t.1@, t.2)),
        ),
        r matches Err(e) ==> e == TransientError::ParsingFromByteError || e matches
            TransientError::IOError { .. },
{
    let mut out: Vec<(Vec<u8>, Vec<u8>, Metadata)> = Vec::new();
    let mut pos: usize = 0;
    proof {
        reveal_with_fuel(spec_decode_records, 1);
        assert(stream@.skip(0) =~= stream@);
        match spec_decode_records(stream@) {
            None => {},
            Some(rest) => {
                assert(out@.map_values(|t: (Vec<u8>, Vec<u8>, Metadata)| (t.0@, t.1@, t.2)) + rest
                    =~= rest);
            },
        }
    }
    while pos < stream.len()
        invariant
            0 <= pos <= stream@.len(),
            spec_decode_records(stream@) == (match spec_decode_records(stream@.skip(pos as int)) {
                None => None::<Seq<(Seq<u8>, Seq<u8>, Metadata)>>,
                Some(rest) => Some(
                    out@.map_values(|t: (Vec<u8>, Vec<u8>, Metadata)| (t.0@, t.1@, t.2)) + rest,
                ),
            }),
        decreases stream@.len() - pos,
    {
        let ghost out0 = out@;
        let (t, np) = match decode_one(stream, pos) {
            Ok(x) => x,
            Err(e) => {
                return Err(e);
            },
        };
        let ghost head = (t.0@, t.1@, t.2);
        out.push(t);
        proof {
            let f = |t: (Vec<u8>, Vec<u8>, Metadata)| (t.0@, t.1@, t.2);
            assert(out@.map_values(f) =~= out0.map_values(f).push(head));
            match spec_decode_records(stream@.skip(np as int)) {
                None => {},
                Some(rest) => {
                    assert(out0.map_values(f) + (seq![head] + rest) =~= out@.map_values(f) + rest);
                },
            }
        }
        pos = np;
    }
    proof {
        reveal_with_fuel(spec_decode_records, 1);
        assert(stream@.skip(pos as int) =~= Seq::<u8>::empty());
        assert(spec_decode_records(stream@.skip(pos as int)) == Some(
            Seq::<(Seq<u8>, Seq<u8>, Metadata)>::empty(),
        ));
        let f = |t: (Vec<u8>, Vec<u8>, Metadata)| (t.0@, t.1@, t.2);
        assert(out@.map_values(f) + Seq::<(Seq<u8>, Seq<u8>, Metadata)>::empty() =~= out@.map_values(
            f,
        ));
    }
    Ok(out)
}

/// The text of a truncated-archive report.
pub(crate) fn err_text() -> (r: String)
    ensures
        r@ == "unexpected end of archive"@,
{
    String::from_str("unexpected end of archive")
}

} // verus!
