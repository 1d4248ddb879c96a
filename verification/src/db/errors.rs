//! The closed set of failure kinds propagated through the engine, the
//! backup codec and the wire protocol.

use vstd::prelude::*;
use vstd::string::StringSliceAdditionalSpecFns;
use vstd::utf8::encode_utf8;

use crate::bytes::push_bytes;

verus! {

/// The primary error enum of the library. Engine failures carry the
/// underlying engine's message as plain text.
#[derive(Debug, Clone, PartialEq, Eq)]
pub enum TransientError {
    /// A frequency increment was attempted on a counter at its maximum.
    IncretmentError,
    /// Encoding a value to bytes failed.
    ParsingToByteError,
    /// A byte sequence was not valid UTF-8.
    ParsingToUTF8Error,
    /// The underlying storage engine failed.
    SledError { error: String },
    /// A multi-tree transaction aborted or failed to commit.
    SledTransactionError,
    /// A length prefix could not be read as eight big-endian bytes.
    ParsingToU64ByteFailed,
    /// A directory in the given path does not exist.
    FolderNotFound { path: String },
    /// The archive codec failed.
    ZipError { error: String },
    /// A file name was missing or unreadable.
    FileNameDoesntExist,
    /// A data entry had no metadata beside it.
    MetadataNotFound,
    /// The database directory itself could not be examined.
    DBMetadataNotFound,
    /// A lock guarding shared state was poisoned.
    PoisonedMutex,
    /// Decoding a metadata record from bytes failed.
    ParsingFromByteError,
    /// Operating-system input/output failed.
    IOError { error: String },
    /// A request frame was malformed or named an unknown command.
    InvalidCommand,
    /// A key to remove was not present.
    ValueNotFound,
    /// The peer closed the connection, or a frame ended early.
    ClientDisconnected,
    /// A frame declared more elements or longer strings than allowed.
    AboveSizeLimit,
    /// A command was issued with the wrong number of arguments.
    WrongNumberOfArguments { command: String, expected: u32, received: u32 },
    /// A reply began with an unexpected type byte.
    ProtocolError,
}

/// The bytes that `message_bytes` returns for each error: the diagnostic
/// text, with the carried engine, archive or OS message appended where
/// one exists.
pub open spec fn spec_error_message(e: &TransientError) -> Seq<u8> {
    match e {
        TransientError::IncretmentError => "Incretment has failed".spec_bytes(),
        TransientError::ParsingToByteError => "Parsing to byte failed".spec_bytes(),
        TransientError::ParsingToUTF8Error => "Parsing to utf8 failed".spec_bytes(),
        TransientError::SledError { error } => "Sled failed ".spec_bytes() + encode_utf8(error@),
        TransientError::SledTransactionError => "Sled Transaction failed".spec_bytes(),
        TransientError::ParsingToU64ByteFailed => {
            "Failed to parse a variable to a U64 byte [u8; 8]".spec_bytes()
        },
        TransientError::FolderNotFound { path } => {
            "Folder is not found at the path: ".spec_bytes() + encode_utf8(path@)
        },
        TransientError::ZipError { error } => {
            "Zip crate failed ".spec_bytes() + encode_utf8(error@)
        },
        TransientError::FileNameDoesntExist => "File name doesnt exist".spec_bytes(),
        TransientError::MetadataNotFound => "Metadata is not found".spec_bytes(),
        TransientError::DBMetadataNotFound => "DB metadata is not found".spec_bytes(),
        TransientError::PoisonedMutex => "Mutex is poisoned".spec_bytes(),
        TransientError::ParsingFromByteError => "Parsing from byte failed".spec_bytes(),
        TransientError::IOError { error } => "std IO failed ".spec_bytes() + encode_utf8(error@),
        TransientError::InvalidCommand => "Command is invalid".spec_bytes(),
        TransientError::ValueNotFound => "Value is not found".spec_bytes(),
        TransientError::ClientDisconnected => "Client has disconnected".spec_bytes(),
        TransientError::AboveSizeLimit => {
            "Message received was above the size limit".spec_bytes()
        },
        TransientError::WrongNumberOfArguments { .. } => {
            "Wrong number of arguments".spec_bytes()
        },
        TransientError::ProtocolError => {
            "Invalid RESP protocol format: unexpected or malformed data received".spec_bytes()
        },
    }
}

/// The bytes of a fixed diagnostic text.
fn text_bytes(s: &str) -> (r: Vec<u8>)
    ensures
        r@ == s.spec_bytes(),
{
    vstd::slice::slice_to_vec(s.as_bytes())
}

/// A fixed prefix followed by a carried message.
fn text_with(prefix: &str, carried: &String) -> (r: Vec<u8>)
    ensures
        r@ == prefix.spec_bytes() + encode_utf8(carried@),
{
    let mut out: Vec<u8> = Vec::new();
    push_bytes(&mut out, prefix.as_bytes());
    push_bytes(&mut out, carried.as_str().as_bytes());
    proof {
        assert(out@ =~= prefix.spec_bytes() + encode_utf8(carried@));
    }
    out
}

impl TransientError {
    /// The diagnostic text of this error, as bytes; an engine, archive or
    /// OS failure carries its own message after the fixed prefix.
    pub fn message_bytes(&self) -> (r: Vec<u8>)
        ensures
            r@ == spec_error_message(self),
    {
        match self {
            TransientError::IncretmentError => text_bytes("Incretment has failed"),
            TransientError::ParsingToByteError => text_bytes("Parsing to byte failed"),
            TransientError::ParsingToUTF8Error => text_bytes("Parsing to utf8 failed"),
            TransientError::SledError { error } => text_with("Sled failed ", error),
            TransientError::SledTransactionError => text_bytes("Sled Transaction failed"),
            TransientError::ParsingToU64ByteFailed => {
                text_bytes("Failed to parse a variable to a U64 byte [u8; 8]")
            },
            TransientError::FolderNotFound { path } => {
                text_with("Folder is not found at the path: ", path)
            },
            TransientError::ZipError { error } => text_with("Zip crate failed ", error),
            TransientError::FileNameDoesntExist => text_bytes("File name doesnt exist"),
            TransientError::MetadataNotFound => text_bytes("Metadata is not found"),
            TransientError::DBMetadataNotFound => text_bytes("DB metadata is not found"),
            TransientError::PoisonedMutex => text_bytes("Mutex is poisoned"),
            TransientError::ParsingFromByteError => text_bytes("Parsing from byte failed"),
            TransientError::IOError { error } => text_with("std IO failed ", error),
            TransientError::InvalidCommand => text_bytes("Command is invalid"),
            TransientError::ValueNotFound => text_bytes("Value is not found"),
            TransientError::ClientDisconnected => text_bytes("Client has disconnected"),
            TransientError::AboveSizeLimit => {
                text_bytes("Message received was above the size limit")
            },
            TransientError::WrongNumberOfArguments { .. } => {
                text_bytes("Wrong number of arguments")
            },
            TransientError::ProtocolError => {
                text_bytes("Invalid RESP protocol format: unexpected or malformed data received")
            },
        }
    }
}

} // verus!
