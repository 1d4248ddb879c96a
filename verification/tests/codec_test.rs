use epoch_db::bytes::{bytes_eq, parse_u64_dec, u64_from_be_bytes, u64_to_be_bytes, u64_to_dec};
use epoch_db::db::errors::TransientError;
use epoch_db::db::transaction::GuardMetricChanged;
use epoch_db::metadata::{Metadata, RespValue};
use epoch_db::metrics::{Metrics, OpKind, TreeKind};
use epoch_db::server::commands::Command;
use epoch_db::server::utils::check_argument;

#[test]
fn test_metadata_encoding_exact_bytes() {
    let m = Metadata {
        freq: 1,
        created_at: 2,
        ttl: Some(3),
    };
    let bytes = m.to_u8().unwrap();
    assert_eq!(
        bytes,
        vec![
            0, 0, 0, 0, 0, 0, 0, 1, // freq
            0, 0, 0, 0, 0, 0, 0, 2, // created_at
            1, // expiry tag
            0, 0, 0, 0, 0, 0, 0, 3, // expiry second
        ]
    );
    assert_eq!(Metadata::from_u8(&bytes).unwrap(), m);
}

#[test]
fn test_metadata_encoding_no_ttl() {
    let m = Metadata {
        freq: 0,
        created_at: 256,
        ttl: None,
    };
    let bytes = m.to_u8().unwrap();
    assert_eq!(bytes.len(), 17);
    assert_eq!(bytes[16], 0);
    assert_eq!(Metadata::from_u8(&bytes).unwrap(), m);
}

#[test]
fn test_metadata_decode_rejects_garbage() {
    assert_eq!(
        Metadata::from_u8(&[0u8; 16]),
        Err(TransientError::ParsingFromByteError)
    );
    assert_eq!(
        Metadata::from_u8(&[7u8; 25]),
        Err(TransientError::ParsingFromByteError)
    );
    assert_eq!(
        Metadata::from_u8(&[]),
        Err(TransientError::ParsingFromByteError)
    );
}

#[test]
fn test_freq_counters() {
    let m = Metadata {
        freq: 5,
        created_at: 9,
        ttl: None,
    };
    assert_eq!(m.freq_incretement().freq, 6);
    assert_eq!(m.freq_decretement().freq, 4);
}

#[test]
fn test_to_response_fields() {
    let m = Metadata {
        freq: 4,
        created_at: 7,
        ttl: Some(11),
    };
    let r = m.to_response();
    assert_eq!(r.len(), 3);
    assert_eq!(r[0].0, "frequency");
    assert_eq!(r[0].1, RespValue::U64(4));
    assert_eq!(r[1].0, "created_at");
    assert_eq!(r[1].1, RespValue::U64(7));
    assert_eq!(r[2].0, "ttl");
    assert_eq!(r[2].1, RespValue::U64(11));

    let none = Metadata {
        freq: 0,
        created_at: 0,
        ttl: None,
    };
    assert_eq!(none.to_response()[2].1, RespValue::Null);
}

#[test]
fn test_u64_big_endian_helpers() {
    let b = u64_to_be_bytes(0x0102030405060708);
    assert_eq!(b, vec![1, 2, 3, 4, 5, 6, 7, 8]);
    assert_eq!(u64_from_be_bytes(&b, 0), 0x0102030405060708);
}

#[test]
fn test_decimal_formatting() {
    assert_eq!(u64_to_dec(0), b"0");
    assert_eq!(u64_to_dec(1234), b"1234");
    assert_eq!(u64_to_dec(u64::MAX), b"18446744073709551615");
}

#[test]
fn test_decimal_parsing() {
    assert_eq!(parse_u64_dec(b"0"), Some(0));
    assert_eq!(parse_u64_dec(b"4096"), Some(4096));
    assert_eq!(parse_u64_dec(b"18446744073709551615"), Some(u64::MAX));
    assert_eq!(parse_u64_dec(b"18446744073709551616"), None);
    assert_eq!(parse_u64_dec(b""), None);
    assert_eq!(parse_u64_dec(b"12a"), None);
    assert_eq!(parse_u64_dec(b"-3"), None);
}

#[test]
fn test_bytes_eq() {
    assert!(bytes_eq(b"abc", b"abc"));
    assert!(!bytes_eq(b"abc", b"abd"));
    assert!(!bytes_eq(b"abc", b"ab"));
    assert!(bytes_eq(b"", b""));
}

#[test]
fn test_error_messages() {
    assert_eq!(
        TransientError::SledTransactionError.message_bytes(),
        b"Sled Transaction failed"
    );
    assert_eq!(
        TransientError::InvalidCommand.message_bytes(),
        b"Command is invalid"
    );
    assert_eq!(
        TransientError::ValueNotFound.message_bytes(),
        b"Value is not found"
    );
}

#[test]
fn test_error_messages_carry_engine_text() {
    assert_eq!(
        TransientError::SledError {
            error: "cask".to_string()
        }
        .message_bytes(),
        b"Sled failed cask"
    );
    assert_eq!(
        TransientError::IOError {
            error: "pipe".to_string()
        }
        .message_bytes(),
        b"std IO failed pipe"
    );
}

#[test]
fn test_command_from_bytes_ignores_case() {
    assert_eq!(Command::from_bytes(b"SET"), Command::SetCmd);
    assert_eq!(Command::from_bytes(b"set"), Command::SetCmd);
    assert_eq!(Command::from_bytes(b"GeT"), Command::Get);
    assert_eq!(Command::from_bytes(b"rm"), Command::Rm);
    assert_eq!(Command::from_bytes(b"PING"), Command::Ping);
    assert_eq!(Command::from_bytes(b"size"), Command::Size);
    assert_eq!(Command::from_bytes(b"FLUSH"), Command::Flush);
    assert_eq!(Command::from_bytes(b"GET_METADATA"), Command::GetMetadata);
    assert_eq!(
        Command::from_bytes(b"increment_frequency"),
        Command::IncrementFrequency
    );
    assert_eq!(Command::from_bytes(b"FOOBAR"), Command::Invalid);
    assert_eq!(Command::SetCmd.name(), "set");
}

#[test]
fn test_check_argument() {
    assert!(check_argument("get".to_string(), 2, 2, None).is_ok());
    assert!(check_argument("get".to_string(), 2, 1, None).is_ok());
    match check_argument("get".to_string(), 2, 3, None) {
        Err(TransientError::WrongNumberOfArguments {
            command,
            expected,
            received,
        }) => {
            assert_eq!(command, "get");
            assert_eq!(expected, 2);
            assert_eq!(received, 3);
        }
        _ => panic!("three arguments to a two-argument command are refused"),
    }
    assert!(check_argument("set".to_string(), 4, 3, Some(3)).is_ok());
    assert!(check_argument("set".to_string(), 4, 4, Some(3)).is_ok());
    assert!(check_argument("set".to_string(), 4, 2, Some(3)).is_err());
    assert!(check_argument("set".to_string(), 4, 5, Some(3)).is_err());
}

#[test]
fn test_metrics_tallies() {
    let mut m = Metrics::new();
    m.increment_operations(OpKind::Get);
    m.increment_operations(OpKind::Get);
    m.increment_operations(OpKind::SetOp);
    m.inc_keys_total(TreeKind::Data);
    m.dec_keys_total(TreeKind::Data);
    m.dec_keys_total(TreeKind::Data);
    m.set_disk_size(42);
    m.increment_ttl_expired_keys();
    assert_eq!(m.ops_get, 2);
    assert_eq!(m.ops_set, 1);
    assert_eq!(m.keys_data, 0, "the gauge is floored at zero");
    assert_eq!(m.disk_size_bytes, 42);
    assert_eq!(m.ttl_expired_keys, 1);
}

#[test]
fn test_guard_metric_deltas() {
    let mut g = GuardMetricChanged::new();
    g.keys_total_changed = 2;
    g.ttl_keys_total_changed = -1;
    g.set_operation_total = 3;
    g.get_operation_total = 1;

    let mut m = Metrics::new();
    m.inc_keys_total(TreeKind::Ttl);
    m.inc_keys_total(TreeKind::Ttl);
    g.inc_all_metrics(&mut m);

    assert_eq!(m.keys_data, 2);
    assert_eq!(m.keys_meta, 2);
    assert_eq!(m.keys_ttl, 1);
    assert_eq!(m.ops_set, 3);
    assert_eq!(m.ops_get, 1);
}
