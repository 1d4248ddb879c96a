//! The decoded request frame and the command names the server knows.

use vstd::prelude::*;

use vstd::string::StringExecFns;
use vstd::string::StringSliceAdditionalSpecFns;

verus! {

/// A decoded request: the command word, up to two byte arguments, an
/// optional expiry in milliseconds, and how many elements the frame held.
#[derive(Debug, Clone, PartialEq, Eq)]
pub struct ParsedResponse {
    pub command: Command,
    pub key: Option<Vec<u8>>,
    pub value: Option<Vec<u8>>,
    pub ttl: Option<u64>,
    pub len: u32,
}

/// The commands of the wire protocol; anything else is `Invalid`.
#[derive(Debug, Clone, Copy, PartialEq, Eq)]
pub enum Command {
    SetCmd,
    Get,
    Rm,
    IncrementFrequency,
    GetMetadata,
    Ping,
    Size,
    Flush,
    Invalid,
}

/// ASCII upper-case letters folded to lower case; all else untouched.
pub open spec fn spec_to_lower(s: Seq<u8>) -> Seq<u8> {
    Seq::new(s.len(), |i: int| if 65 <= s[i] <= 90 { (s[i] + 32) as u8 } else { s[i] })
}

/// The command a first bulk string names, compared without regard to
/// ASCII case.
pub open spec fn spec_command_of(b: Seq<u8>) -> Command {
    let l = spec_to_lower(b);
    if l == "set".spec_bytes() {
        Command::SetCmd
    } else if l == "rm".spec_bytes() {
        Command::Rm
    } else if l == "get".spec_bytes() {
        Command::Get
    } else if l == "ping".spec_bytes() {
        Command::Ping
    } else if l == "size".spec_bytes() {
        Command::Size
    } else if l == "flush".spec_bytes() {
        Command::Flush
    } else if l == "get_metadata".spec_bytes() {
        Command::GetMetadata
    } else if l == "increment_frequency".spec_bytes() {
        Command::IncrementFrequency
    } else {
        Command::Invalid
    }
}

/// The lower-case wire name of a command.
pub open spec fn spec_command_name(c: Command) -> Seq<char> {
    match c {
        Command::SetCmd => "set"@,
        Command::Rm => "rm"@,
        Command::Get => "get"@,
        Command::Ping => "ping"@,
        Command::Size => "size"@,
        Command::Flush => "flush"@,
        Command::GetMetadata => "get_metadata"@,
        Command::IncrementFrequency => "increment_frequency"@,
        Command::Invalid => "Invalid"@,
    }
}

/// Folds a byte string to ASCII lower case.
pub fn to_lower_bytes(b: &[u8]) -> (r: Vec<u8>)
    ensures
        r@ == spec_to_lower(b@),
{
    let mut r: Vec<u8> = Vec::new();
    let mut i: usize = 0;
    while i < b.len()
        invariant
            0 <= i <= b@.len(),
            r@.len() == i,
            forall|j: int| 0 <= j < i ==> r@[j] == spec_to_lower(b@)[j],
        decreases b@.len() - i,
    {
        let c = b[i];
        if 65 <= c && c <= 90 {
            r.push(c + 32);
        } else {
            r.push(c);
        }
        i += 1;
    }
    proof {
        assert(r@ =~= spec_to_lower(b@));
    }
    r
}

impl Command {
    /// Recognizes the command a first bulk string names, without regard
    /// to ASCII case.
    pub fn from_bytes(value: &[u8]) -> (r: Command)
        ensures
            r == spec_command_of(value@),
    {
        let l = to_lower_bytes(value);
        let ls = l.as_slice();
        if crate::bytes::bytes_eq(ls, "set".as_bytes()) {
            Command::SetCmd
        } else if crate::bytes::bytes_eq(ls, "rm".as_bytes()) {
            Command::Rm
        } else if crate::bytes::bytes_eq(ls, "get".as_bytes()) {
            Command::Get
        } else if crate::bytes::bytes_eq(ls, "ping".as_bytes()) {
            Command::Ping
        } else if crate::bytes::bytes_eq(ls, "size".as_bytes()) {
            Command::Size
        } else if crate::bytes::bytes_eq(ls, "flush".as_bytes()) {
            Command::Flush
        } else if crate::bytes::bytes_eq(ls, "get_metadata".as_bytes()) {
            Command::GetMetadata
        } else if crate::bytes::bytes_eq(ls, "increment_frequency".as_bytes()) {
            Command::IncrementFrequency
        } else {
            Command::Invalid
        }
    }

    /// The command's wire name, as text.
    pub fn name(&self) -> (r: String)
        ensures
            r@ == spec_command_name(*self),
    {
        match self {
            Command::SetCmd => String::from_str("set"),
            Command::Rm => String::from_str("rm"),
            Command::Get => String::from_str("get"),
            Command::Ping => String::from_str("ping"),
            Command::Size => String::from_str("size"),
            Command::Flush => String::from_str("flush"),
            Command::GetMetadata => String::from_str("get_metadata"),
            Command::IncrementFrequency => String::from_str("increment_frequency"),
            Command::Invalid => String::from_str("Invalid"),
        }
    }
}

} // verus!
