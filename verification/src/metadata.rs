//! The per-key metadata record: an access-frequency counter, the creation
//! time, and an optional absolute expiry, together with its stable byte
//! encoding.
//!
//! The encoding is a fixed schema: eight big-endian bytes of `freq`, eight
//! big-endian bytes of `created_at`, a tag byte (`0` for no expiry, `1`
//! otherwise), then, when tagged, eight big-endian bytes of the expiry
//! second. It round-trips for every record and rejects every other input.

use vstd::prelude::*;

use crate::bytes::{spec_u64_from_be, spec_u64_to_be, u64_from_be_bytes, u64_to_be_bytes};
use crate::clock::now_seconds;
use crate::db::errors::TransientError;
use vstd::string::StringExecFns;

verus! {

broadcast use crate::bytes::lemma_u64_be_len;

/// The sidecar record kept beside every key.
#[derive(Debug, Clone, Copy, PartialEq, Eq)]
pub struct Metadata {
    /// How many times `increment_frequency` has been applied to the key.
    pub freq: u64,
    /// The Unix second at which the key was first inserted; a re-set of an
    /// existing key preserves it.
    pub created_at: u64,
    /// The Unix second at which the key expires, if an expiry is set; it is
    /// rewritten on every set.
    pub ttl: Option<u64>,
}

/// One field of the wire reply that describes a metadata record.
#[derive(Debug, Clone, PartialEq, Eq)]
pub enum RespValue {
    U64(u64),
    I32(i32),
    BulkString(Vec<u8>),
    Null,
}

/// The byte encoding of a record.
pub open spec fn spec_meta_encode(m: Metadata) -> Seq<u8> {
    spec_u64_to_be(m.freq) + spec_u64_to_be(m.created_at) + (match m.ttl {
        Option::None => seq![0u8],
        Option::Some(t) => seq![1u8] + spec_u64_to_be(t),
    })
}

/// The record a byte string encodes, if it encodes one.
pub open spec fn spec_meta_decode(s: Seq<u8>) -> Option<Metadata> {
    if s.len() == 17 && s[16] == 0 {
        Some(
            Metadata {
                freq: spec_u64_from_be(s.subrange(0, 8)),
                created_at: spec_u64_from_be(s.subrange(8, 16)),
                ttl: None,
            },
        )
    } else if s.len() == 25 && s[16] == 1 {
        Some(
            Metadata {
                freq: spec_u64_from_be(s.subrange(0, 8)),
                created_at: spec_u64_from_be(s.subrange(8, 16)),
                ttl: Some(spec_u64_from_be(s.subrange(17, 25))),
            },
        )
    } else {
        None
    }
}

/// Decoding inverts encoding: the codec loses nothing.
#[verifier::rlimit(50)]
pub proof fn lemma_meta_roundtrip(m: Metadata)
    ensures
        spec_meta_decode(spec_meta_encode(m)) == Some(m),
{
    let s = spec_meta_encode(m);
    crate::bytes::lemma_u64_be_roundtrip(m.freq);
    crate::bytes::lemma_u64_be_roundtrip(m.created_at);
    assert(s.subrange(0, 8) =~= spec_u64_to_be(m.freq));
    assert(s.subrange(8, 16) =~= spec_u64_to_be(m.created_at));
    match m.ttl {
        Option::None => {
            assert(s.len() == 17);
            assert(s[16] == 0);
        },
        Option::Some(t) => {
            crate::bytes::lemma_u64_be_roundtrip(t);
            assert(s.len() == 25);
            assert(s[16] == 1);
            assert(s.subrange(17, 25) =~= spec_u64_to_be(t));
        },
    }
}

impl Metadata {
    /// A fresh record: zero frequency, created now, with the given expiry.
    pub fn new(ttl: Option<u64>) -> (r: Metadata)
        ensures
            r.freq == 0,
            r.ttl == ttl,
    {
        let currtime = now_seconds();
        Metadata { freq: 0, created_at: currtime, ttl }
    }

    /// The record with its frequency counter one higher.
    pub fn freq_incretement(self) -> (r: Metadata)
        requires
            self.freq < u64::MAX,
        ensures
            r == (Metadata { freq: (self.freq + 1) as u64, ..self }),
    {
        Metadata { freq: self.freq + 1, ..self }
    }

    /// The record with its frequency counter one lower.
    pub fn freq_decretement(self) -> (r: Metadata)
        requires
            self.freq > 0,
        ensures
            r == (Metadata { freq: (self.freq - 1) as u64, ..self }),
    {
        Metadata { freq: self.freq - 1, ..self }
    }

    /// Serializes the record. Encoding never fails.
    pub fn to_u8(&self) -> (r: Result<Vec<u8>, TransientError>)
        ensures
            r is Ok,
            r matches Ok(v) ==> v@ == spec_meta_encode(*self),
    {
        let mut out = u64_to_be_bytes(self.freq);
        let created = u64_to_be_bytes(self.created_at);
        crate::bytes::push_bytes(&mut out, created.as_slice());
        match self.ttl {
            Option::None => {
                out.push(0);
            },
            Option::Some(t) => {
                out.push(1);
                let tb = u64_to_be_bytes(t);
                crate::bytes::push_bytes(&mut out, tb.as_slice());
            },
        }
        proof {
            assert(out@ =~= spec_meta_encode(*self));
        }
        Ok(out)
    }

    /// Deserializes a record, rejecting anything the codec did not produce.
    pub fn from_u8(slice: &[u8]) -> (r: Result<Metadata, TransientError>)
        ensures
            r is Ok <==> spec_meta_decode(slice@) is Some,
            r matches Ok(m) ==> spec_meta_decode(slice@) == Some(m),
            r matches Err(e) ==> e == TransientError::ParsingFromByteError,
    {
        if slice.len() == 17 && slice[16] == 0 {
            let freq = u64_from_be_bytes(slice, 0);
            let created_at = u64_from_be_bytes(slice, 8);
            Ok(Metadata { freq, created_at, ttl: None })
        } else if slice.len() == 25 && slice[16] == 1 {
            let freq = u64_from_be_bytes(slice, 0);
            let created_at = u64_from_be_bytes(slice, 8);
            let t = u64_from_be_bytes(slice, 17);
            Ok(Metadata { freq, created_at, ttl: Some(t) })
        } else {
            Err(TransientError::ParsingFromByteError)
        }
    }

    /// The three name/value fields of the wire reply for this record.
    pub fn to_response(&self) -> (r: Vec<(String, RespValue)>)
        ensures
            r@.len() == 3,
            r@[0].0@ == "frequency"@ && r@[0].1 == RespValue::U64(self.freq),
            r@[1].0@ == "created_at"@ && r@[1].1 == RespValue::U64(self.created_at),
            r@[2].0@ == "ttl"@ && r@[2].1 == (match self.ttl {
                Option::Some(t) => RespValue::U64(t),
                Option::None => RespValue::Null,
            }),
    {
        let mut r: Vec<(String, RespValue)> = Vec::new();
        r.push((String::from_str("frequency"), RespValue::U64(self.freq)));
        r.push((String::from_str("created_at"), RespValue::U64(self.created_at)));
        let tv = match self.ttl {
            Option::Some(t) => RespValue::U64(t),
            Option::None => RespValue::Null,
        };
        r.push((String::from_str("ttl"), tv));
        r
    }
}

} // verus!
