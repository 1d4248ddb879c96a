use epoch_db::DB;
use tempfile::tempdir;

#[test]
fn test_backup_get_key() {
    let temp_dir = tempdir().unwrap();

    let mut db = DB::new(temp_dir.path().to_str().unwrap()).unwrap();

    db.set("user:1", "Alice", None).unwrap();

    assert_eq!("Alice", db.get("user:1").unwrap().unwrap());

    let archive = db.backup_to_bytes().unwrap();

    drop(db);

    let restore_dir = tempdir().unwrap();

    let mut db = DB::load_from(archive.as_slice(), restore_dir.path().to_str().unwrap()).unwrap();

    assert_eq!("Alice", db.get("user:1").unwrap().unwrap());
}

#[test]
fn test_backup_get_metadata() {
    let temp_dir = tempdir().unwrap();

    let mut db = DB::new(temp_dir.path().to_str().unwrap()).unwrap();

    db.set("user:1", "Alice", None).unwrap();
    db.increment_frequency("user:1").unwrap();

    let meta = db.get_metadata("user:1").unwrap().unwrap();
    assert_eq!(meta.freq, 1);

    let archive = db.backup_to_bytes().unwrap();
    drop(db);

    let restore_dir = tempdir().unwrap();
    let mut db = DB::load_from(archive.as_slice(), restore_dir.path().to_str().unwrap()).unwrap();

    assert_eq!("Alice", db.get("user:1").unwrap().unwrap());
    let restored = db.get_metadata("user:1").unwrap().unwrap();
    assert_eq!(restored.freq, meta.freq);
    assert_eq!(restored.created_at, meta.created_at);
    assert_eq!(restored.ttl, meta.ttl);
}

#[test]
fn test_backup_ttl() {
    let temp_dir = tempdir().unwrap();

    let mut db = DB::new(temp_dir.path().to_str().unwrap()).unwrap();

    db.set("user:1", "Alice", Some(5000)).unwrap();

    assert_eq!("Alice", db.get("user:1").unwrap().unwrap());

    let archive = db.backup_to_bytes().unwrap();
    drop(db);

    let restore_dir = tempdir().unwrap();
    let mut db = DB::load_from(archive.as_slice(), restore_dir.path().to_str().unwrap()).unwrap();

    // the restored entry still carries its expiry: a sweep past it
    // removes the key
    db.reap_expired(u64::MAX).unwrap();
    assert_eq!(None, db.get("user:1").unwrap());
}

#[test]
fn test_backup_binary_roundtrip() {
    let temp_dir = tempdir().unwrap();
    let mut db = DB::new(temp_dir.path().to_str().unwrap()).unwrap();

    db.set_raw(b"bin", b"\xDE\xAD\xBE\xEF", None).unwrap();
    db.set_raw(b"empty", b"", None).unwrap();

    let archive = db.backup_to_bytes().unwrap();
    drop(db);

    let restore_dir = tempdir().unwrap();
    let mut db = DB::load_from(archive.as_slice(), restore_dir.path().to_str().unwrap()).unwrap();

    assert_eq!(
        db.get_raw(b"bin").unwrap().unwrap(),
        vec![0xDE, 0xAD, 0xBE, 0xEF]
    );
    assert_eq!(db.get_raw(b"empty").unwrap().unwrap(), Vec::<u8>::new());
    assert_eq!(db.get_db_size(), 2);
}

#[test]
fn test_load_from_rejects_garbage() {
    let restore_dir = tempdir().unwrap();
    let r = DB::load_from(b"not an archive", restore_dir.path().to_str().unwrap());
    assert!(r.is_err());
}
