use epoch_db::db::errors::TransientError;
use epoch_db::DB;
use tempfile::tempdir;

/// Tests the "happy path" for a transaction.
/// It verifies that if the closure succeeds, all the changes within it
/// are correctly committed to the database.
#[test]
fn test_transaction_commit_on_success() {
    let temp_dir = tempdir().unwrap();
    let mut db = DB::new(temp_dir.path().to_str().unwrap()).unwrap();

    // Setup initial state
    db.set("user:alice", "active", None).unwrap();
    db.set("user:bob", "inactive", None).unwrap();

    // Run the transaction
    let result = db.transaction(|mut tx| {
        // Perform multiple operations
        tx.remove("user:alice")?;
        tx.set("user:bob", "active_transferred", None)?;
        Ok(tx)
    });

    // The transaction should succeed
    assert!(result.is_ok());

    // Verify the final state
    assert!(
        db.get("user:alice").unwrap().is_none(),
        "Alice should be removed."
    );
    assert_eq!(
        db.get("user:bob").unwrap().unwrap(),
        "active_transferred",
        "Bob should have the new value."
    );
}

/// Tests the "all-or-nothing" promise (Atomicity).
/// It verifies that if the closure returns an error, ALL changes made
/// inside it are completely rolled back, as if they never happened.
#[test]
fn test_transaction_rollback_on_failure() {
    let temp_dir = tempdir().unwrap();
    let mut db = DB::new(temp_dir.path().to_str().unwrap()).unwrap();

    // Setup initial state
    db.set("user:charlie", "initial_state", None).unwrap();

    // Run a transaction that will fail
    let result = db.transaction(|mut tx| {
        // Make a change
        tx.set("user:charlie", "new_state_that_should_be_rolled_back", None)?;

        // Force the transaction to fail
        Err(TransientError::SledTransactionError)
    });

    // The transaction itself should report the failure
    assert!(result.is_err());

    // CRITICAL: Verify that the database is still in its original state.
    // The change made inside the failed transaction should have been undone.
    assert_eq!(
        db.get("user:charlie").unwrap().unwrap(),
        "initial_state",
        "Charlie's data should be rolled back to its original state."
    );
}

/// An atomic transfer: read two balances, move an amount, commit, and
/// both new balances are visible together.
#[test]
fn test_atomic_transfer() {
    let temp_dir = tempdir().unwrap();
    let mut db = DB::new(temp_dir.path().to_str().unwrap()).unwrap();

    db.set("alice", "100", None).unwrap();
    db.set("bob", "50", None).unwrap();

    let result = db.transaction(|mut tx| {
        let a: u64 = tx.get("alice")?.unwrap().parse().unwrap();
        let b: u64 = tx.get("bob")?.unwrap().parse().unwrap();
        tx.set("alice", &(a - 20).to_string(), None)?;
        tx.set("bob", &(b + 20).to_string(), None)?;
        Ok(tx)
    });
    assert!(result.is_ok());

    assert_eq!(db.get("alice").unwrap().unwrap(), "80");
    assert_eq!(db.get("bob").unwrap().unwrap(), "70");

    // the same transfer, aborted after its writes, changes nothing
    let result = db.transaction(|mut tx| {
        tx.set("alice", "0", None)?;
        tx.set("bob", "0", None)?;
        Err(TransientError::SledTransactionError)
    });
    assert!(result.is_err());
    assert_eq!(db.get("alice").unwrap().unwrap(), "80");
    assert_eq!(db.get("bob").unwrap().unwrap(), "70");
}

/// A transaction reads its own staged writes.
#[test]
fn test_transaction_reads_own_writes() {
    let temp_dir = tempdir().unwrap();
    let mut db = DB::new(temp_dir.path().to_str().unwrap()).unwrap();

    let result = db.transaction(|mut tx| {
        tx.set("fresh", "value", None)?;
        assert_eq!(tx.get("fresh")?.unwrap(), "value");
        let meta = tx.get_metadata("fresh")?.unwrap();
        assert_eq!(meta.freq, 0);
        tx.increment_frequency("fresh")?;
        assert_eq!(tx.get_metadata("fresh")?.unwrap().freq, 1);
        tx.remove("fresh")?;
        assert!(tx.get("fresh")?.is_none());
        Ok(tx)
    });
    assert!(result.is_ok());
    assert!(db.get("fresh").unwrap().is_none());
}
