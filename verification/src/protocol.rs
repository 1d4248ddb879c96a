//! The framed, binary-safe wire protocol: arrays of bulk strings on the
//! request side. The parsers here work on a byte buffer and report how
//! much of it one frame consumed; running out of buffer mid-frame is the
//! wire-level end-of-input.

use vstd::prelude::*;

use crate::bytes::{spec_parse_u64, parse_u64_dec};
use crate::db::errors::TransientError;

verus! {

/// The largest element count and the largest declared bulk length a
/// client may send.
pub const CLIENT_COMMAND_SIZE: u64 = 4096;

/// The index of the first newline at or after `pos`, or the length if
/// there is none.
pub open spec fn spec_find_nl(s: Seq<u8>, pos: int) -> int
    decreases s.len() - pos when 0 <= pos <= s.len()
{
    if pos >= s.len() {
        s.len() as int
    } else if s[pos] == 10 {
        pos
    } else {
        spec_find_nl(s, pos + 1)
    }
}

/// Pins `spec_find_nl` once the scan is done.
proof fn lemma_find_nl(s: Seq<u8>, pos: int, j: int)
    requires
        0 <= pos <= j <= s.len(),
        forall|i: int| pos <= i < j ==> s[i] != 10,
        j == s.len() || s[j] == 10,
    ensures
        spec_find_nl(s, pos) == j,
    decreases j - pos,
{
    if pos < j {
        lemma_find_nl(s, pos + 1, j);
    }
}

/// What parsing an integer line at `pos` yields: the decimal value of the
/// digits up to a `\r\n`, and the position after it. `None` if the line
/// is incomplete, unterminated by `\r\n`, or not a decimal `u64`.
pub open spec fn spec_parse_integer(s: Seq<u8>, pos: int) -> Option<(u64, int)> {
    let j = spec_find_nl(s, pos);
    if j >= s.len() {
        None
    } else if j >= pos + 1 && s[j - 1] == 13 {
        match spec_parse_u64(s.subrange(pos, j - 1)) {
            Some(v) => Some((v, j + 1)),
            None => None,
        }
    } else {
        None
    }
}

/// What parsing a bulk string at `pos` yields: the declared bytes and the
/// position after the trailing `\r\n`. `None` on a missing `$`, a bad
/// length line, a length over the limit, an incomplete body, or a
/// missing terminator.
pub open spec fn spec_parse_bulk(s: Seq<u8>, pos: int) -> Option<(Seq<u8>, int)> {
    if !(0 <= pos < s.len() && s[pos] == 36) {
        None
    } else {
        match spec_parse_integer(s, pos + 1) {
            None => None,
            Some((l, p2)) => {
                if l > CLIENT_COMMAND_SIZE {
                    None
                } else if p2 + l + 2 > s.len() {
                    None
                } else if s[p2 + l] == 13 && s[p2 + l + 1] == 10 {
                    Some((s.subrange(p2, p2 + l), p2 + l + 2))
                } else {
                    None
                }
            },
        }
    }
}

/// Reads the decimal integer line that starts at `pos` and ends with
/// `\r\n`. An absent newline means the frame is still incomplete, which
/// at the wire level is the peer having gone away mid-frame.
pub fn parse_integer(buf: &[u8], pos: usize) -> (r: Result<(u64, usize), TransientError>)
    requires
        pos <= buf@.len(),
    ensures
        r is Ok <==> spec_parse_integer(buf@, pos as int) is Some,
        r matches Ok((v, np)) ==> spec_parse_integer(buf@, pos as int) == Some((v, np as int))
            && pos < np <= buf@.len(),
        r matches Err(e) && e == TransientError::ClientDisconnected <==> spec_find_nl(
            buf@,
            pos as int,
        ) >= buf@.len(),
        r matches Err(e) ==> e == TransientError::ClientDisconnected || e
            == TransientError::InvalidCommand,
    {
    let mut j: usize = pos;
    while j < buf.len() && buf[j] != 10
        invariant
            pos <= j <= buf@.len(),
            forall|i: int| pos <= i < j ==> buf@[i] != 10,
        decreases buf@.len() - j,
    {
        j += 1;
    }
    proof {
        lemma_find_nl(buf@, pos as int, j as int);
    }
    if j == buf.len() {
        return Err(TransientError::ClientDisconnected);
    }
    if j < pos + 1 || buf[j - 1] != 13 {
        return Err(TransientError::InvalidCommand);
    }
    let digits = vstd::slice::slice_subrange(buf, pos, j - 1);
    match parse_u64_dec(digits) {
        Some(v) => Ok((v, j + 1)),
        None => Err(TransientError::InvalidCommand),
    }
}

/// Reads the bulk string that starts at `pos`: a `$`, a decimal length
/// line, that many raw bytes, and a closing `\r\n`. Lengths over the
/// limit are refused.
pub fn parse_bulk_string(buf: &[u8], pos: usize) -> (r: Result<(Vec<u8>, usize), TransientError>)
    requires
        pos <= buf@.len(),
    ensures
        r is Ok <==> spec_parse_bulk(buf@, pos as int) is Some,
        r matches Ok((v, np)) ==> spec_parse_bulk(buf@, pos as int) == Some((v@, np as int))
            && pos < np <= buf@.len(),
        r matches Err(e) ==> e == TransientError::ClientDisconnected || e
            == TransientError::InvalidCommand || e == TransientError::AboveSizeLimit,
        (r matches Err(e) && e == TransientError::AboveSizeLimit) <==> (pos < buf@.len()
            && buf@[pos as int] == 36 && (match spec_parse_integer(buf@, pos as int + 1) {
            Some((l, _)) => l > CLIENT_COMMAND_SIZE,
            None => false,
        })),
        (r matches Err(e) && e == TransientError::ClientDisconnected) <==> (pos >= buf@.len() || (
        buf@[pos as int] == 36 && spec_find_nl(buf@, pos as int + 1) >= buf@.len()) || (
        buf@[pos as int] == 36 && (match spec_parse_integer(buf@, pos as int + 1) {
            Some((l, p2)) => l <= CLIENT_COMMAND_SIZE && p2 + l + 2 > buf@.len(),
            None => false,
        }))),
    {
    if pos >= buf.len() {
        return Err(TransientError::ClientDisconnected);
    }
    if buf[pos] != 36 {
        return Err(TransientError::InvalidCommand);
    }
    let (l, p2) = match parse_integer(buf, pos + 1) {
        Ok(x) => x,
        Err(e) => {
            return Err(e);
        },
    };
    if l > CLIENT_COMMAND_SIZE {
        return Err(TransientError::AboveSizeLimit);
    }
    let l_us = l as usize;
    if l_us > buf.len() - p2 || buf.len() - p2 - l_us < 2 {
        return Err(TransientError::ClientDisconnected);
    }
    if buf[p2 + l_us] != 13 || buf[p2 + l_us + 1] != 10 {
        return Err(TransientError::InvalidCommand);
    }
    let data = vstd::slice::slice_subrange(buf, p2, p2 + l_us);
    let out = vstd::slice::slice_to_vec(data);
    Ok((out, p2 + l_us + 2))
}

} // verus!
