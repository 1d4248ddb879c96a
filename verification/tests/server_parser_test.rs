use epoch_db::db::errors::TransientError;
use epoch_db::server::commands::{Command, ParsedResponse};
use epoch_db::server::parse_command;

fn parse_test_command(input: &[u8]) -> ParsedResponse {
    parse_command(input).unwrap().0
}

#[test]
fn test_parse_get_simple() {
    let input = b"*2\r\n$3\r\nGET\r\n$3\r\nkey\r\n";
    let r = parse_test_command(input);

    assert_eq!(
        r,
        ParsedResponse {
            command: Command::Get,
            key: Some(Vec::from(&b"key"[..])),
            value: None,
            ttl: None,
            len: 2
        }
    );
}

#[test]
fn test_parse_set_with_ttl() {
    let input = b"*4\r\n$3\r\nSET\r\n$3\r\nkey\r\n$5\r\nvalue\r\n$4\r\n1000\r\n";
    let r = parse_test_command(input);

    assert_eq!(
        r,
        ParsedResponse {
            command: Command::SetCmd,
            key: Some(Vec::from(&b"key"[..])),
            value: Some(b"value".to_vec()),
            // the expiry travels as decimal milliseconds
            ttl: Some(1000),
            len: 4
        }
    );
}

#[test]
fn test_parse_set_empty_value() {
    let input = b"*3\r\n$3\r\nSET\r\n$3\r\nkey\r\n$0\r\n\r\n";
    let r = parse_test_command(input);

    assert_eq!(
        r,
        ParsedResponse {
            command: Command::SetCmd,
            key: Some(b"key".to_vec()),
            value: Some(vec![]),
            ttl: None,
            len: 3
        }
    )
}

#[test]
fn test_parse_set_binary_value() {
    let input = b"*3\r\n$3\r\nSET\r\n$4\r\n\xDE\xAD\xBE\xEF\r\n$2\r\n\xCA\xFE\r\n";
    let r = parse_test_command(input);

    assert_eq!(
        r,
        ParsedResponse {
            command: Command::SetCmd,
            key: Some(vec![0xDE, 0xAD, 0xBE, 0xEF]),
            value: Some(vec![0xCA, 0xFE]),
            ttl: None,
            len: 3
        }
    )
}

#[test]
fn test_parse_remove_simple() {
    let input = b"*2\r\n$2\r\nRM\r\n$3\r\nkey\r\n";
    let r = parse_test_command(input);

    assert_eq!(
        r,
        ParsedResponse {
            command: Command::Rm,
            key: Some(b"key".to_vec()),
            value: None,
            ttl: None,
            len: 2
        }
    )
}

#[test]
fn test_parse_increment_frequency_simple() {
    let input = b"*2\r\n$19\r\nINCREMENT_FREQUENCY\r\n$8\r\ncounter1\r\n";
    let r = parse_test_command(input);

    assert_eq!(
        r,
        ParsedResponse {
            command: Command::IncrementFrequency,
            key: Some(b"counter1".to_vec()),
            value: None,
            ttl: None,
            len: 2
        }
    )
}

#[test]
fn test_parse_get_metadata_simple() {
    let input = b"*2\r\n$12\r\nGET_METADATA\r\n$3\r\nkey\r\n";
    let r = parse_test_command(input);

    assert_eq!(
        r,
        ParsedResponse {
            command: Command::GetMetadata,
            key: Some(b"key".to_vec()),
            value: None,
            ttl: None,
            len: 2
        }
    )
}

#[test]
fn test_parse_size() {
    let input = b"*1\r\n$4\r\nSIZE\r\n";
    let r = parse_test_command(input);

    assert_eq!(
        r,
        ParsedResponse {
            command: Command::Size,
            key: None,
            value: None,
            ttl: None,
            len: 1
        }
    )
}

#[test]
fn test_parse_ping() {
    let input = b"*1\r\n$4\r\nPING\r\n";
    let r = parse_test_command(input);

    assert_eq!(
        r,
        ParsedResponse {
            command: Command::Ping,
            key: None,
            value: None,
            ttl: None,
            len: 1
        }
    )
}

#[test]
fn test_parse_flush() {
    let input = b"*1\r\n$5\r\nFLUSH\r\n";
    let r = parse_test_command(input);

    assert_eq!(
        r,
        ParsedResponse {
            command: Command::Flush,
            key: None,
            value: None,
            ttl: None,
            len: 1
        }
    )
}

#[test]
fn test_parse_command_case_sensitivity() {
    let input = b"*2\r\n$3\r\nget\r\n$3\r\nkey\r\n";
    let r = parse_test_command(input);

    assert_eq!(
        r,
        ParsedResponse {
            command: Command::Get,
            key: Some(b"key".to_vec()),
            value: None,
            ttl: None,
            len: 2
        }
    )
}

#[test]
fn test_parse_error_element_size_above_size_limit() {
    let input = b"*10000\r\n$5\r\nFLUSH\r\n";
    let r = parse_command(input);

    match r {
        Ok(_) => panic!("Parser accepted input with 10000 elements, which is above size limit"),
        Err(e) => match e {
            TransientError::AboveSizeLimit => (),
            _ => panic!("unexpected error kind"),
        },
    }
}

#[test]
fn test_parse_error_bulk_string_size_above_size_limit() {
    let input = b"*2\r\n$3\r\nGET\r\n$10000000\r\nkey\r\n";
    let r = parse_command(input);

    match r {
        Ok(_) => panic!("Parser accepted input with 10000 elements, which is above size limit"),
        Err(e) => match e {
            TransientError::AboveSizeLimit => (),
            _ => panic!("unexpected error kind"),
        },
    }
}

#[test]
fn test_parse_incomplete_frame_reads_as_disconnect() {
    let input = b"*2\r\n$3\r\nGET\r\n$3\r\nke";
    assert_eq!(
        parse_command(input),
        Err(TransientError::ClientDisconnected)
    );
}

#[test]
fn test_parse_wrong_type_byte() {
    let input = b"+OK\r\n";
    assert_eq!(parse_command(input), Err(TransientError::InvalidCommand));
}

#[test]
fn test_parse_reports_consumed_bytes() {
    let input = b"*1\r\n$4\r\nPING\r\n*1\r\n$4\r\nPING\r\n";
    let (_, consumed) = parse_command(input).unwrap();
    assert_eq!(consumed, input.len() / 2);
}
