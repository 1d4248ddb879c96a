//! The server front end: decoding one request frame from a byte buffer,
//! dispatching it to the engine, and rendering the reply frame. The
//! socket loop around these lives outside the library; it hands bytes in
//! and writes the returned replies out.

pub mod commands;
pub mod error;
pub mod utils;

use vstd::prelude::*;

use crate::bytes::{parse_u64_dec, spec_parse_u64, spec_u64_dec, push_bytes, u64_to_dec};
use crate::db::errors::{spec_error_message, TransientError};
use crate::db::{
    spec_increment, spec_meta_of, spec_remove, spec_set, spec_ttl_abs, DB,
};
use crate::metadata::Metadata;
use crate::protocol::{
    parse_bulk_string, parse_integer, spec_find_nl, spec_parse_bulk, spec_parse_integer,
    CLIENT_COMMAND_SIZE,
};
use crate::server::commands::{spec_command_name, spec_command_of, Command, ParsedResponse};
use crate::server::utils::check_argument;
use vstd::string::StringSliceAdditionalSpecFns;
use vstd::utf8::{encode_utf8, valid_utf8};

verus! {

/// The reply to a successful write: `+OK`.
pub open spec fn spec_ok_reply() -> Seq<u8> {
    "+OK\r\n".spec_bytes()
}

/// The reply to a ping: `+PONG`.
pub open spec fn spec_pong_reply() -> Seq<u8> {
    "+PONG\r\n".spec_bytes()
}

/// The null bulk string: the reply that denotes absence.
pub open spec fn spec_null_bulk() -> Seq<u8> {
    "$-1\r\n".spec_bytes()
}

/// A bulk-string reply: `$`, the decimal length, and the raw bytes.
pub open spec fn spec_bulk_reply(v: Seq<u8>) -> Seq<u8> {
    "$".spec_bytes() + spec_u64_dec(v.len() as u64) + "\r\n".spec_bytes() + v + "\r\n".spec_bytes()
}

/// An integer reply: `:` and the decimal value.
pub open spec fn spec_int_reply(n: u64) -> Seq<u8> {
    ":".spec_bytes() + spec_u64_dec(n) + "\r\n".spec_bytes()
}

/// An error reply: `-ERR ` and the error's text.
pub open spec fn spec_err_reply(msg: Seq<u8>) -> Seq<u8> {
    "-ERR ".spec_bytes() + msg + "\r\n".spec_bytes()
}

/// The six-element reply that describes a metadata record.
pub open spec fn spec_metadata_reply(m: Metadata) -> Seq<u8> {
    "*6\r\n$9\r\nfrequency\r\n:".spec_bytes() + spec_u64_dec(m.freq)
        + "\r\n$10\r\ncreated_at\r\n:".spec_bytes() + spec_u64_dec(m.created_at)
        + "\r\n$3\r\nttl\r\n".spec_bytes() + (match m.ttl {
        Some(t) => ":".spec_bytes() + spec_u64_dec(t) + "\r\n".spec_bytes(),
        None => "$-1\r\n".spec_bytes(),
    })
}

/// Renders `-ERR <message>`.
fn reply_err(e: &TransientError) -> (r: Vec<u8>)
    ensures
        r@ == spec_err_reply(spec_error_message(e)),
{
    let mut out: Vec<u8> = Vec::new();
    push_bytes(&mut out, "-ERR ".as_bytes());
    let msg = e.message_bytes();
    push_bytes(&mut out, msg.as_slice());
    push_bytes(&mut out, "\r\n".as_bytes());
    out
}

/// Renders a bulk-string reply.
fn reply_bulk(v: &[u8]) -> (r: Vec<u8>)
    ensures
        r@ == spec_bulk_reply(v@),
{
    let mut out: Vec<u8> = Vec::new();
    push_bytes(&mut out, "$".as_bytes());
    let len_dec = u64_to_dec(v.len() as u64);
    push_bytes(&mut out, len_dec.as_slice());
    push_bytes(&mut out, "\r\n".as_bytes());
    push_bytes(&mut out, v);
    push_bytes(&mut out, "\r\n".as_bytes());
    out
}

/// Renders an integer reply.
fn reply_int(n: u64) -> (r: Vec<u8>)
    ensures
        r@ == spec_int_reply(n),
{
    let mut out: Vec<u8> = Vec::new();
    push_bytes(&mut out, ":".as_bytes());
    let dec = u64_to_dec(n);
    push_bytes(&mut out, dec.as_slice());
    push_bytes(&mut out, "\r\n".as_bytes());
    out
}

/// Renders the metadata reply.
fn reply_metadata(m: &Metadata) -> (r: Vec<u8>)
    ensures
        r@ == spec_metadata_reply(*m),
{
    let mut out: Vec<u8> = Vec::new();
    push_bytes(&mut out, "*6\r\n$9\r\nfrequency\r\n:".as_bytes());
    let f = u64_to_dec(m.freq);
    push_bytes(&mut out, f.as_slice());
    push_bytes(&mut out, "\r\n$10\r\ncreated_at\r\n:".as_bytes());
    let c = u64_to_dec(m.created_at);
    push_bytes(&mut out, c.as_slice());
    push_bytes(&mut out, "\r\n$3\r\nttl\r\n".as_bytes());
    match m.ttl {
        Some(t) => {
            push_bytes(&mut out, ":".as_bytes());
            let td = u64_to_dec(t);
            push_bytes(&mut out, td.as_slice());
            push_bytes(&mut out, "\r\n".as_bytes());
        },
        None => {
            push_bytes(&mut out, "$-1\r\n".as_bytes());
        },
    }
    out
}

/// What parsing `n` consecutive bulk strings from `pos` yields: their
/// contents in order, and the position after the last.
pub open spec fn spec_parse_bulks(s: Seq<u8>, pos: int, n: u64) -> Option<(Seq<Seq<u8>>, int)>
    decreases n,
{
    if n == 0 {
        Some((Seq::empty(), pos))
    } else {
        match spec_parse_bulk(s, pos) {
            None => None,
            Some((b, np)) => match spec_parse_bulks(s, np, (n - 1) as u64) {
                None => None,
                Some((rest, e)) => Some((seq![b] + rest, e)),
            },
        }
    }
}

/// What parsing one request frame yields: a `*`, an element count within
/// the limit, and that many bulk strings.
pub open spec fn spec_parse_command(s: Seq<u8>) -> Option<(Seq<Seq<u8>>, int)> {
    if s.len() == 0 || s[0] != 42 {
        None
    } else {
        match spec_parse_integer(s, 1) {
            None => None,
            Some((n, p)) => {
                if n > CLIENT_COMMAND_SIZE || n == 0 {
                    None
                } else {
                    spec_parse_bulks(s, p, n)
                }
            },
        }
    }
}

/// Decodes one request frame from the front of `buf`: an array of bulk
/// strings, mapped to the command word, the key, the value, and the
/// expiry in milliseconds. Returns how many bytes the frame consumed.
/// A buffer that ends mid-frame reads as the peer having disconnected;
/// the caller may instead read more bytes and try again.
pub fn parse_command(buf: &[u8]) -> (r: Result<(ParsedResponse, usize), TransientError>)
    ensures
        r is Ok <==> (match spec_parse_command(buf@) {
            Some((parts, _)) => parts.len() != 4 || (valid_utf8(parts[3]) && spec_parse_u64(
                parts[3],
            ) is Some),
            None => false,
        }),
        r matches Ok((pr, np)) ==> (match spec_parse_command(buf@) {
            Some((parts, np2)) => {
                &&& np == np2
                &&& pr.command == spec_command_of(parts[0])
                &&& (pr.key is Some <==> parts.len() >= 2)
                &&& (pr.key matches Some(k) ==> k@ == parts[1])
                &&& (pr.value is Some <==> parts.len() >= 3)
                &&& (pr.value matches Some(v) ==> v@ == parts[2])
                &&& (parts.len() == 4 ==> pr.ttl == spec_parse_u64(parts[3]))
                &&& (parts.len() != 4 ==> pr.ttl is None)
                &&& pr.len == parts.len()
            },
            None => false,
        }),
        r matches Err(e) ==> e == TransientError::InvalidCommand || e
            == TransientError::ClientDisconnected || e == TransientError::AboveSizeLimit || e
            == TransientError::ParsingToUTF8Error,
        buf@.len() == 0 ==> (r matches Err(e) && e == TransientError::ClientDisconnected),
        buf@.len() > 0 && buf@[0] != 42 ==> (r matches Err(e) && e
            == TransientError::InvalidCommand),
        buf@.len() > 0 && buf@[0] == 42 && spec_find_nl(buf@, 1) >= buf@.len() ==> (r matches
            Err(e) && e == TransientError::ClientDisconnected),
        buf@.len() > 0 && buf@[0] == 42 && (match spec_parse_integer(buf@, 1) {
            Some((n, _)) => n > CLIENT_COMMAND_SIZE,
            None => false,
        }) ==> (r matches Err(e) && e == TransientError::AboveSizeLimit),
        buf@.len() > 0 && buf@[0] == 42 && (match spec_parse_integer(buf@, 1) {
            Some((n, _)) => n == 0,
            None => false,
        }) ==> (r matches Err(e) && e == TransientError::InvalidCommand),
        (match spec_parse_command(buf@) {
            Some((parts, _)) => parts.len() == 4 && !valid_utf8(parts[3]),
            None => false,
        }) ==> (r matches Err(e) && e == TransientError::ParsingToUTF8Error),
        (match spec_parse_command(buf@) {
            Some((parts, _)) => parts.len() == 4 && valid_utf8(parts[3]) && spec_parse_u64(
                parts[3],
            ) is None,
            None => false,
        }) ==> (r matches Err(e) && e == TransientError::InvalidCommand),
    {
    if buf.len() == 0 {
        return Err(TransientError::ClientDisconnected);
    }
    if buf[0] != 42 {
        return Err(TransientError::InvalidCommand);
    }
    let (n, p) = match parse_integer(buf, 1) {
        Ok(x) => x,
        Err(e) => {
            return Err(e);
        },
    };
    if n > CLIENT_COMMAND_SIZE {
        return Err(TransientError::AboveSizeLimit);
    }
    if n == 0 {
        return Err(TransientError::InvalidCommand);
    }
    let mut parts: Vec<Vec<u8>> = Vec::new();
    let mut pos: usize = p;
    let mut i: u64 = 0;
    while i < n
        invariant
            0 <= i <= n,
            pos <= buf@.len(),
            parts@.len() == i,
            buf@.len() > 0,
            buf@[0] == 42,
            spec_parse_integer(buf@, 1) == Some((n, p as int)),
            0 < n <= CLIENT_COMMAND_SIZE,
            spec_parse_bulks(buf@, p as int, n) == (match spec_parse_bulks(
                buf@,
                pos as int,
                (n - i) as u64,
            ) {
                None => None::<(Seq<Seq<u8>>, int)>,
                Some((rest, e)) => Some(
                    (parts@.map_values(|v: Vec<u8>| v@) + rest, e),
                ),
            }),
        decreases n - i,
    {
        let ghost pos0 = pos as int;
        let ghost parts0 = parts@;
        let (b, np) = match parse_bulk_string(buf, pos) {
            Ok(x) => x,
            Err(e) => {
                proof {
                    assert(spec_parse_bulks(buf@, pos as int, (n - i) as u64) is None);
                }
                return Err(e);
            },
        };
        proof {
            assert(spec_parse_bulk(buf@, pos0) == Some((b@, np as int)));
        }
        parts.push(b);
        pos = np;
        i = i + 1;
        proof {
            let pv0 = parts0.map_values(|v: Vec<u8>| v@);
            let pv1 = parts@.map_values(|v: Vec<u8>| v@);
            assert(pv1 =~= pv0.push(parts@.last()@));
            match spec_parse_bulks(buf@, pos as int, (n - i) as u64) {
                None => {},
                Some((rest, e)) => {
                    assert(pv0 + (seq![parts@.last()@] + rest) =~= pv1 + rest);
                },
            }
        }
    }
    proof {
        assert(parts@.map_values(|v: Vec<u8>| v@) + Seq::<Seq<u8>>::empty() =~= parts@.map_values(
            |v: Vec<u8>| v@,
        ));
    }
    let command = Command::from_bytes(parts[0].as_slice());
    let key = if parts.len() >= 2 {
        Some(vstd::slice::slice_to_vec(parts[1].as_slice()))
    } else {
        None
    };
    let value = if parts.len() >= 3 {
        Some(vstd::slice::slice_to_vec(parts[2].as_slice()))
    } else {
        None
    };
    let ttl = if parts.len() == 4 {
        let tb = vstd::slice::slice_to_vec(parts[3].as_slice());
        match crate::strconv::vec_to_utf8(tb) {
            None => {
                return Err(TransientError::ParsingToUTF8Error);
            },
            Some(_) => (),
        }
        match parse_u64_dec(parts[3].as_slice()) {
            Some(ms) => Some(ms),
            None => {
                return Err(TransientError::InvalidCommand);
            },
        }
    } else {
        None
    };
    let len: u32 = parts.len() as u32;
    Ok((ParsedResponse { command, key, value, ttl, len }, pos))
}

/// Whether a frame carries the wrong number of elements for its command:
/// a set takes three or four; the keyed reads and writes take two; the
/// bare commands take one. An unknown command has no arity.
pub open spec fn spec_arity_violation(pr: ParsedResponse) -> bool {
    match pr.command {
        Command::SetCmd => !(3 <= pr.len <= 4),
        Command::Get => pr.len > 2,
        Command::Rm => pr.len > 2,
        Command::IncrementFrequency => pr.len > 2,
        Command::GetMetadata => pr.len > 2,
        Command::Ping => pr.len > 1,
        Command::Size => pr.len > 1,
        Command::Flush => pr.len > 1,
        Command::Invalid => false,
    }
}

/// The least element count each command accepts; the frame's first
/// element, the command word, is counted too.
pub open spec fn spec_arity_min(c: Command) -> u32 {
    match c {
        Command::SetCmd => 3,
        Command::Get => 2,
        Command::Rm => 2,
        Command::IncrementFrequency => 2,
        Command::GetMetadata => 2,
        Command::Ping => 1,
        Command::Size => 1,
        Command::Flush => 1,
        Command::Invalid => 0,
    }
}

/// Dispatches one decoded frame to the engine and renders the reply.
///
/// An arity violation, and a frame whose command needs arguments it does
/// not carry, are reported as errors without touching the store; the
/// caller renders those. Everything else produces reply bytes: the
/// command's success reply, the absence reply, or `-ERR` with the
/// engine's message.
#[verifier::rlimit(100)]
pub fn execute_commands(parsed: ParsedResponse, store: &mut DB) -> (r: Result<
    Vec<u8>,
    TransientError,
>)
    requires
        old(store).wf(),
    ensures
        final(store).wf(),
        r is Err ==> final(store)@ == old(store)@,
        spec_arity_violation(parsed) ==> (r matches Err(e) && e matches
            TransientError::WrongNumberOfArguments { command: c, expected: ex, received: rc }
            && c@ == spec_command_name(parsed.command) && ex == spec_arity_min(parsed.command)
            && rc == parsed.len),
        parsed.command is SetCmd && !spec_arity_violation(parsed) ==> (match (
            parsed.key,
            parsed.value,
        ) {
            (Some(k), Some(v)) => r is Ok && (r matches Ok(out) ==> (out@ == spec_ok_reply()
                && exists|now: u64|
                final(store)@ == spec_set(
                    old(store)@,
                    k@,
                    v@,
                    spec_ttl_abs(parsed.ttl, now),
                    now,
                )) || (exists|e: TransientError|
                out@ == spec_err_reply(spec_error_message(&e))
                    && final(store)@ == old(store)@)),
            _ => r matches Err(e) && e == TransientError::InvalidCommand,
        }),
        parsed.command is Get && !spec_arity_violation(parsed) ==> final(store)@ == old(store)@
            && (match parsed.key {
            Some(k) => r is Ok && (r matches Ok(out) ==> (old(store)@.data.dom().contains(k@)
                && out@ == spec_bulk_reply(old(store)@.data[k@])) || (!old(
                store,
            )@.data.dom().contains(k@) && out@ == spec_null_bulk()) || (exists|e: TransientError|
                e matches TransientError::SledError { .. } && out@ == spec_err_reply(
                    spec_error_message(&e),
                ))),
            None => r matches Err(e) && e == TransientError::InvalidCommand,
        }),
        parsed.command is Rm && !spec_arity_violation(parsed) ==> (match parsed.key {
            Some(k) => r is Ok && (r matches Ok(out) ==> (out@ == spec_ok_reply() && old(
                store,
            )@.meta.dom().contains(k@) && final(store)@ == spec_remove(old(store)@, k@)) || (
            exists|e: TransientError|
                out@ == spec_err_reply(spec_error_message(&e))
                    && final(store)@ == old(store)@)),
            None => r matches Err(e) && e == TransientError::InvalidCommand,
        }),
        parsed.command is Rm && !spec_arity_violation(parsed) ==> (match parsed.key {
            Some(k) => !old(store)@.meta.dom().contains(k@) ==> (r matches Ok(out) ==> out@
                == spec_err_reply(spec_error_message(&TransientError::ValueNotFound)) || (exists|
                e: TransientError,
            |
                e matches TransientError::SledError { .. } && out@ == spec_err_reply(
                    spec_error_message(&e),
                ))),
            None => true,
        }),
        parsed.command is IncrementFrequency && !spec_arity_violation(parsed) ==> (match
            parsed.key {
            Some(k) => r is Ok && (r matches Ok(out) ==> (out@ == spec_ok_reply() && old(
                store,
            )@.meta.dom().contains(k@) && final(store)@ == spec_increment(old(store)@, k@)) || (
            out@ == spec_null_bulk() && !old(store)@.meta.dom().contains(k@)
                && final(store)@ == old(store)@) || (exists|e: TransientError|
                out@ == spec_err_reply(spec_error_message(&e))
                    && final(store)@ == old(store)@)),
            None => r matches Err(e) && e == TransientError::InvalidCommand,
        }),
        parsed.command is GetMetadata && !spec_arity_violation(parsed) ==> final(store)@ == old(
            store,
        )@ && (match parsed.key {
            Some(k) => r is Ok && (r matches Ok(out) ==> (exists|m: Metadata|
                spec_meta_of(old(store)@, k@) == Some(m) && out@ == spec_metadata_reply(m)) || (
            !old(store)@.meta.dom().contains(k@) && out@ == spec_null_bulk()) || (exists|
                e: TransientError,
            |
                out@ == spec_err_reply(spec_error_message(&e)))),
            None => r matches Err(e) && e == TransientError::InvalidCommand,
        }),
        parsed.command is Ping && !spec_arity_violation(parsed) ==> final(store)@ == old(store)@
            && (r matches Ok(out) && out@ == spec_pong_reply()),
        parsed.command is Size && !spec_arity_violation(parsed) ==> final(store)@ == old(store)@
            && (r matches Ok(out) && out@ == spec_int_reply(
            old(store)@.data.dom().len() as u64,
        )),
        parsed.command is Flush && !spec_arity_violation(parsed) ==> final(store)@ == old(store)@
            && r is Ok && (r matches Ok(out) ==> out@ == spec_ok_reply() || (exists|
            e: TransientError,
        |
            e matches TransientError::SledError { .. } && out@ == spec_err_reply(
                spec_error_message(&e),
            ))),
        parsed.command is Invalid ==> final(store)@ == old(store)@ && (r matches Ok(out) && out@
            == spec_err_reply(spec_error_message(&TransientError::InvalidCommand))),
    {
    let cmd = parsed.command;
    let key = parsed.key;
    let val = parsed.value;
    let ttl = parsed.ttl;
    match cmd {
        Command::SetCmd => {
            match check_argument(cmd.name(), 4, parsed.len, Some(3)) {
                Ok(_) => (),
                Err(e) => {
                    return Err(e);
                },
            }
            let k = match key {
                Some(k) => k,
                None => {
                    return Err(TransientError::InvalidCommand);
                },
            };
            let v = match val {
                Some(v) => v,
                None => {
                    return Err(TransientError::InvalidCommand);
                },
            };
            match store.set_raw(k.as_slice(), v.as_slice(), ttl) {
                Ok(_) => {
                    let mut out: Vec<u8> = Vec::new();
                    push_bytes(&mut out, "+OK\r\n".as_bytes());
                    Ok(out)
                },
                Err(e) => Ok(reply_err(&e)),
            }
        },
        Command::GetMetadata => {
            match check_argument(cmd.name(), 2, parsed.len, None) {
                Ok(_) => (),
                Err(e) => {
                    return Err(e);
                },
            }
            let k = match key {
                Some(k) => k,
                None => {
                    return Err(TransientError::InvalidCommand);
                },
            };
            match store.get_metadata_raw(k.as_slice()) {
                Ok(Some(m)) => Ok(reply_metadata(&m)),
                Ok(None) => {
                    let mut out: Vec<u8> = Vec::new();
                    push_bytes(&mut out, "$-1\r\n".as_bytes());
                    Ok(out)
                },
                Err(e) => Ok(reply_err(&e)),
            }
        },
        Command::Rm => {
            match check_argument(cmd.name(), 2, parsed.len, None) {
                Ok(_) => (),
                Err(e) => {
                    return Err(e);
                },
            }
            let k = match key {
                Some(k) => k,
                None => {
                    return Err(TransientError::InvalidCommand);
                },
            };
            match store.remove_raw(k.as_slice()) {
                Ok(_) => {
                    let mut out: Vec<u8> = Vec::new();
                    push_bytes(&mut out, "+OK\r\n".as_bytes());
                    Ok(out)
                },
                Err(e) => Ok(reply_err(&e)),
            }
        },
        Command::Flush => {
            match check_argument(cmd.name(), 1, parsed.len, None) {
                Ok(_) => (),
                Err(e) => {
                    return Err(e);
                },
            }
            match store.flush() {
                Ok(_) => {
                    let mut out: Vec<u8> = Vec::new();
                    push_bytes(&mut out, "+OK\r\n".as_bytes());
                    Ok(out)
                },
                Err(e) => Ok(reply_err(&e)),
            }
        },
        Command::Get => {
            match check_argument(cmd.name(), 2, parsed.len, None) {
                Ok(_) => (),
                Err(e) => {
                    return Err(e);
                },
            }
            let k = match key {
                Some(k) => k,
                None => {
                    return Err(TransientError::InvalidCommand);
                },
            };
            match store.get_raw(k.as_slice()) {
                Ok(Some(v)) => Ok(reply_bulk(v.as_slice())),
                Ok(None) => {
                    let mut out: Vec<u8> = Vec::new();
                    push_bytes(&mut out, "$-1\r\n".as_bytes());
                    Ok(out)
                },
                Err(e) => Ok(reply_err(&e)),
            }
        },
        Command::IncrementFrequency => {
            match check_argument(cmd.name(), 2, parsed.len, None) {
                Ok(_) => (),
                Err(e) => {
                    return Err(e);
                },
            }
            let k = match key {
                Some(k) => k,
                None => {
                    return Err(TransientError::InvalidCommand);
                },
            };
            match store.increment_frequency_raw(k.as_slice()) {
                Ok(Some(_)) => {
                    let mut out: Vec<u8> = Vec::new();
                    push_bytes(&mut out, "+OK\r\n".as_bytes());
                    Ok(out)
                },
                Ok(None) => {
                    let mut out: Vec<u8> = Vec::new();
                    push_bytes(&mut out, "$-1\r\n".as_bytes());
                    Ok(out)
                },
                Err(e) => Ok(reply_err(&e)),
            }
        },
        Command::Ping => {
            match check_argument(cmd.name(), 1, parsed.len, None) {
                Ok(_) => (),
                Err(e) => {
                    return Err(e);
                },
            }
            let mut out: Vec<u8> = Vec::new();
            push_bytes(&mut out, "+PONG\r\n".as_bytes());
            Ok(out)
        },
        Command::Size => {
            match check_argument(cmd.name(), 1, parsed.len, None) {
                Ok(_) => (),
                Err(e) => {
                    return Err(e);
                },
            }
            let size = store.get_db_size();
            Ok(reply_int(size as u64))
        },
        Command::Invalid => Ok(reply_err(&TransientError::InvalidCommand)),
    }
}

/// What the connection loop does with an error: answer and go on, close
/// the connection quietly, or give up on it.
pub enum ErrorAction {
    Reply(Vec<u8>),
    Close,
    Fatal,
}

/// The arity-violation reply: the command, the count needed and the
/// count received, in words.
pub open spec fn spec_arity_err_reply(cmd: Seq<char>, expected: u32, received: u32) -> Seq<u8> {
    "-ERR Wrong number of arguments for \"".spec_bytes() + encode_utf8(cmd)
        + "\" command; Needed at least ".spec_bytes() + spec_u64_dec(expected as u64)
        + " arguments, Received ".spec_bytes() + spec_u64_dec(received as u64)
        + " arguments\r\n".spec_bytes()
}

/// Decides the connection loop's reaction to a parse or dispatch error:
/// protocol faults are answered and the connection stays open, a
/// disconnection closes it quietly, and anything else is fatal to the
/// connection.
pub fn handle_connection_error(e: &TransientError) -> (r: ErrorAction)
    ensures
        e == TransientError::ClientDisconnected ==> r is Close,
        e == TransientError::InvalidCommand ==> (r matches ErrorAction::Reply(v) && v@
            == "-ERR Wrong command issued\r\n".spec_bytes()),
        e == TransientError::AboveSizeLimit ==> (r matches ErrorAction::Reply(v) && v@
            == "-ERR Size of command is above the limit\r\n".spec_bytes()),
        e matches TransientError::WrongNumberOfArguments { command, expected, received } ==> (r
            matches ErrorAction::Reply(v) && v@ == spec_arity_err_reply(
            command@,
            *expected,
            *received,
        )),
        !(e == TransientError::ClientDisconnected || e == TransientError::InvalidCommand || e
            == TransientError::AboveSizeLimit || e matches
            TransientError::WrongNumberOfArguments { .. }) ==> r is Fatal,
    {
    match e {
        TransientError::ClientDisconnected => ErrorAction::Close,
        TransientError::InvalidCommand => {
            let mut out: Vec<u8> = Vec::new();
            push_bytes(&mut out, "-ERR Wrong command issued\r\n".as_bytes());
            ErrorAction::Reply(out)
        },
        TransientError::AboveSizeLimit => {
            let mut out: Vec<u8> = Vec::new();
            push_bytes(&mut out, "-ERR Size of command is above the limit\r\n".as_bytes());
            ErrorAction::Reply(out)
        },
        TransientError::WrongNumberOfArguments { command, expected, received } => {
            let mut out: Vec<u8> = Vec::new();
            push_bytes(&mut out, "-ERR Wrong number of arguments for \"".as_bytes());
            push_bytes(&mut out, command.as_str().as_bytes());
            push_bytes(&mut out, "\" command; Needed at least ".as_bytes());
            let ex = u64_to_dec(*expected as u64);
            push_bytes(&mut out, ex.as_slice());
            push_bytes(&mut out, " arguments, Received ".as_bytes());
            let rc = u64_to_dec(*received as u64);
            push_bytes(&mut out, rc.as_slice());
            push_bytes(&mut out, " arguments\r\n".as_bytes());
            ErrorAction::Reply(out)
        },
        _ => ErrorAction::Fatal,
    }
}

} // verus!
