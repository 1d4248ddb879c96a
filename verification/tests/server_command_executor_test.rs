use epoch_db::db::errors::TransientError;
use epoch_db::server::{execute_commands, handle_connection_error, parse_command, ErrorAction};
use epoch_db::DB;
use tempfile::tempdir;

fn execute_test_command(input: &[u8], store: &mut DB) -> Vec<u8> {
    let (cmd, _) = parse_command(input).unwrap();
    execute_commands(cmd, store).unwrap()
}

fn execute_expect_err(input: &[u8], store: &mut DB) -> TransientError {
    let (cmd, _) = parse_command(input).unwrap();
    execute_commands(cmd, store).unwrap_err()
}

fn fresh_db(dir: &tempfile::TempDir) -> DB {
    DB::new(dir.path().to_str().unwrap()).unwrap()
}

#[test]
fn test_execute_get_metadata_no_ttl() {
    let input = b"*2\r\n$12\r\nGET_METADATA\r\n$3\r\nkey\r\n";

    let dir = tempdir().unwrap();
    let mut store = fresh_db(&dir);

    store.set_raw(b"key", b"val", None).unwrap();

    let r = execute_test_command(input, &mut store);

    assert_eq!(
        r,
        format!(
            "*6\r\n$9\r\nfrequency\r\n:0\r\n$10\r\ncreated_at\r\n:{}\r\n$3\r\nttl\r\n$-1\r\n",
            store.get_metadata("key").unwrap().unwrap().created_at
        )
        .as_bytes()
    );
}

#[test]
fn test_execute_get_metadata_simple() {
    let input = b"*2\r\n$12\r\nGET_METADATA\r\n$3\r\nkey\r\n";

    let dir = tempdir().unwrap();
    let mut store = fresh_db(&dir);

    store.set_raw(b"key", b"val", Some(60_000)).unwrap();

    let r = execute_test_command(input, &mut store);

    assert_eq!(
        r,
        format!(
            "*6\r\n$9\r\nfrequency\r\n:0\r\n$10\r\ncreated_at\r\n:{}\r\n$3\r\nttl\r\n:{}\r\n",
            store.get_metadata("key").unwrap().unwrap().created_at,
            store.get_metadata("key").unwrap().unwrap().ttl.unwrap()
        )
        .as_bytes()
    );
}

#[test]
fn test_execute_get_metadata_key_not_found() {
    let input = b"*2\r\n$12\r\nGET_METADATA\r\n$3\r\nkey\r\n";

    let dir = tempdir().unwrap();
    let mut store = fresh_db(&dir);

    let r = execute_test_command(input, &mut store);

    assert_eq!(r, b"$-1\r\n");
}

#[test]
fn test_execute_flush_simple() {
    let input = b"*1\r\n$5\r\nFLUSH\r\n";

    let dir = tempdir().unwrap();
    let mut store = fresh_db(&dir);

    let r = execute_test_command(input, &mut store);

    assert_eq!(r, b"+OK\r\n");
}

#[test]
fn test_execute_size_no_data() {
    let input = b"*1\r\n$4\r\nSIZE\r\n";

    let dir = tempdir().unwrap();
    let mut store = fresh_db(&dir);

    let r = execute_test_command(input, &mut store);

    assert_eq!(r, b":0\r\n");
}

#[test]
fn test_execute_size_simple() {
    let input = b"*1\r\n$4\r\nSIZE\r\n";

    let dir = tempdir().unwrap();
    let mut store = fresh_db(&dir);

    store.set_raw(b"a", b"1", None).unwrap();
    store.set_raw(b"b", b"2", None).unwrap();

    let r = execute_test_command(input, &mut store);

    assert_eq!(r, b":2\r\n");
}

#[test]
fn test_execute_increment_frequency_simple() {
    let input = b"*2\r\n$19\r\nINCREMENT_FREQUENCY\r\n$3\r\nkey\r\n";

    let dir = tempdir().unwrap();
    let mut store = fresh_db(&dir);

    store.set_raw(b"key", b"value", None).unwrap();

    let r = execute_test_command(input, &mut store);

    assert_eq!(r, b"+OK\r\n");
    assert_eq!(store.get_metadata_raw(b"key").unwrap().unwrap().freq, 1);
}

#[test]
fn test_execute_increment_frequency_key_not_found() {
    let input = b"*2\r\n$19\r\nINCREMENT_FREQUENCY\r\n$3\r\nkey\r\n";

    let dir = tempdir().unwrap();
    let mut store = fresh_db(&dir);

    let r = execute_test_command(input, &mut store);

    assert_eq!(r, b"$-1\r\n");
}

#[test]
fn test_execute_rm_simple() {
    let input = b"*2\r\n$2\r\nRM\r\n$3\r\nkey\r\n";

    let dir = tempdir().unwrap();
    let mut store = fresh_db(&dir);

    store.set_raw(b"key", b"value", None).unwrap();

    let r = execute_test_command(input, &mut store);

    assert_eq!(r, b"+OK\r\n");
}

#[test]
fn test_execute_rm_key_not_found() {
    let input = b"*2\r\n$2\r\nRM\r\n$3\r\nkey\r\n";

    let dir = tempdir().unwrap();
    let mut store = fresh_db(&dir);

    let r = execute_test_command(input, &mut store);

    // removing an absent key is refused as a missing value
    assert_eq!(r, b"-ERR Value is not found\r\n");
}

#[test]
fn test_execute_ping() {
    let input = b"*1\r\n$4\r\nPING\r\n";

    let dir = tempdir().unwrap();
    let mut store = fresh_db(&dir);

    let r = execute_test_command(input, &mut store);

    assert_eq!(r, b"+PONG\r\n");
}

#[test]
fn test_execute_get_key_not_found() {
    let input = b"*2\r\n$3\r\nGET\r\n$3\r\nkey\r\n";

    let dir = tempdir().unwrap();
    let mut store = fresh_db(&dir);

    let r = execute_test_command(input, &mut store);

    assert_eq!(r, b"$-1\r\n");
}

#[test]
fn test_execute_get_simple() {
    let input = b"*2\r\n$3\r\nGET\r\n$3\r\nkey\r\n";

    let dir = tempdir().unwrap();
    let mut store = fresh_db(&dir);

    store.set_raw(b"key", b"value", None).unwrap();

    let r = execute_test_command(input, &mut store);

    assert_eq!(r, b"$5\r\nvalue\r\n");
}

#[test]
fn test_execute_get_binary() {
    let input = b"*2\r\n$3\r\nGET\r\n$3\r\nbin\r\n";

    let dir = tempdir().unwrap();
    let mut store = fresh_db(&dir);

    store.set_raw(b"bin", b"\xDE\xAD\xBE\xEF", None).unwrap();

    let r = execute_test_command(input, &mut store);

    assert_eq!(r, b"$4\r\n\xDE\xAD\xBE\xEF\r\n");
}

#[test]
fn test_execute_set_simple() {
    let input = b"*3\r\n$3\r\nSET\r\n$3\r\nkey\r\n$5\r\nvalue\r\n";

    let dir = tempdir().unwrap();
    let mut store = fresh_db(&dir);

    let r = execute_test_command(input, &mut store);

    assert_eq!(store.get("key").unwrap().unwrap(), "value");
    assert_eq!(r, b"+OK\r\n");
}

#[test]
fn test_execute_set_ttl() {
    let input = b"*4\r\n$3\r\nSET\r\n$3\r\nkey\r\n$5\r\nvalue\r\n$1\r\n5\r\n";

    let dir = tempdir().unwrap();
    let mut store = fresh_db(&dir);

    let r = execute_test_command(input, &mut store);

    assert_eq!(store.get("key").unwrap().unwrap(), "value");
    assert_eq!(r, b"+OK\r\n");

    // once the wall clock passes the expiry, a sweep removes the key
    store.reap_expired(u64::MAX).unwrap();

    assert_eq!(store.get("key").unwrap(), None);
}

#[test]
fn test_execute_invalid_command() {
    let input = b"*2\r\n$6\r\nFOOBAR\r\n$3\r\nkey\r\n";

    let dir = tempdir().unwrap();
    let mut store = fresh_db(&dir);

    let r = execute_test_command(input, &mut store);

    assert_eq!(r, b"-ERR Command is invalid\r\n");
}

#[test]
fn test_execute_set_too_few_argument() {
    let input = b"*2\r\n$3\r\nSET\r\n$3\r\nkey\r\n";

    let dir = tempdir().unwrap();
    let mut store = fresh_db(&dir);

    let e = execute_expect_err(input, &mut store);
    match handle_connection_error(&e) {
        ErrorAction::Reply(r) => assert_eq!(
            r,
            &b"-ERR Wrong number of arguments for \"set\" command; Needed at least 3 arguments, Received 2 arguments\r\n"[..]
        ),
        _ => panic!("an arity violation is answered, not fatal"),
    }
}

#[test]
fn test_execute_set_too_many_argument() {
    let input = b"*5\r\n$3\r\nSET\r\n$1\r\na\r\n$1\r\nb\r\n$1\r\nc\r\n$1\r\nd\r\n";

    let dir = tempdir().unwrap();
    let mut store = fresh_db(&dir);

    let e = execute_expect_err(input, &mut store);
    match handle_connection_error(&e) {
        ErrorAction::Reply(r) => assert_eq!(
            r,
            &b"-ERR Wrong number of arguments for \"set\" command; Needed at least 3 arguments, Received 5 arguments\r\n"[..]
        ),
        _ => panic!("an arity violation is answered, not fatal"),
    }
}

#[test]
fn test_set_then_get_pipeline() {
    let dir = tempdir().unwrap();
    let mut store = fresh_db(&dir);

    let r = execute_test_command(b"*3\r\n$3\r\nSET\r\n$3\r\nkey\r\n$5\r\nvalue\r\n", &mut store);
    assert_eq!(r, b"+OK\r\n");
    let r = execute_test_command(b"*2\r\n$3\r\nGET\r\n$3\r\nkey\r\n", &mut store);
    assert_eq!(r, b"$5\r\nvalue\r\n");
}

#[test]
fn test_binary_safe_set_get_pipeline() {
    let dir = tempdir().unwrap();
    let mut store = fresh_db(&dir);

    let r = execute_test_command(
        b"*3\r\n$3\r\nSET\r\n$3\r\nbin\r\n$4\r\n\xDE\xAD\xBE\xEF\r\n",
        &mut store,
    );
    assert_eq!(r, b"+OK\r\n");
    let r = execute_test_command(b"*2\r\n$3\r\nGET\r\n$3\r\nbin\r\n", &mut store);
    assert_eq!(r, b"$4\r\n\xDE\xAD\xBE\xEF\r\n");
}

#[test]
fn test_connection_error_dispositions() {
    match handle_connection_error(&TransientError::ClientDisconnected) {
        ErrorAction::Close => (),
        _ => panic!("a disconnect closes the connection quietly"),
    }
    match handle_connection_error(&TransientError::InvalidCommand) {
        ErrorAction::Reply(r) => assert_eq!(r, b"-ERR Wrong command issued\r\n"),
        _ => panic!("a malformed frame is answered"),
    }
    match handle_connection_error(&TransientError::AboveSizeLimit) {
        ErrorAction::Reply(r) => assert_eq!(r, b"-ERR Size of command is above the limit\r\n"),
        _ => panic!("an oversized frame is answered"),
    }
    match handle_connection_error(&TransientError::SledTransactionError) {
        ErrorAction::Fatal => (),
        _ => panic!("an engine failure ends the connection"),
    }
}
