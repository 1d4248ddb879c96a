use epoch_db::DB;
use tempfile::tempdir;

#[test]
fn test_set() {
    let temp_dir = tempdir().unwrap();

    let mut db = DB::new(temp_dir.path().to_str().unwrap()).unwrap();

    db.set("user:1", "Alice", None).unwrap();

    assert_eq!("Alice", db.get("user:1").unwrap().unwrap());
}

#[test]
fn test_iter() {
    let temp_dir = tempdir().unwrap();

    let mut db = DB::new(temp_dir.path().to_str().unwrap()).unwrap();

    db.set("user:1", "Alice", None).unwrap();
    db.set("user:2", "Tony", None).unwrap();
    db.set("user:3", "Tanned", None).unwrap();

    assert_eq!("Alice", db.get("user:1").unwrap().unwrap());
    assert_eq!("Tony", db.get("user:2").unwrap().unwrap());
    assert_eq!("Tanned", db.get("user:3").unwrap().unwrap());

    db.increment_frequency("user:2").unwrap();
    db.increment_frequency("user:3").unwrap();
    db.increment_frequency("user:3").unwrap();

    let entries = db.iter().unwrap();

    let (k1, v1, m1) = entries[0].clone();
    let (k2, v2, m2) = entries[1].clone();
    let (k3, v3, m3) = entries[2].clone();

    assert_eq!("user:1", k1);
    assert_eq!("user:2", k2);
    assert_eq!("user:3", k3);

    assert_eq!(v1, db.get("user:1").unwrap().unwrap());
    assert_eq!(v2, db.get("user:2").unwrap().unwrap());
    assert_eq!(v3, db.get("user:3").unwrap().unwrap());

    assert_eq!(m1, db.get_metadata("user:1").unwrap().unwrap());
    assert_eq!(m2, db.get_metadata("user:2").unwrap().unwrap());
    assert_eq!(m3, db.get_metadata("user:3").unwrap().unwrap());
}

#[test]
fn test_rm() {
    let temp_dir = tempdir().unwrap();

    let mut db = DB::new(temp_dir.path().to_str().unwrap()).unwrap();

    db.set("user:1", "Alice", None).unwrap();

    assert_eq!("Alice", db.get("user:1").unwrap().unwrap());

    db.remove("user:1").unwrap();

    let _ = db.get("user:1").unwrap().is_none();
}

#[test]
fn test_data_integrity_on_update() {
    let temp_dir = tempdir().unwrap();
    let mut db = DB::new(temp_dir.path().to_str().unwrap()).unwrap();

    let key = "user:integrity";

    db.set(key, "Version 1", None).unwrap();
    let initial_meta = db.get_metadata(key).unwrap().unwrap();
    assert_eq!(initial_meta.freq, 0);

    db.increment_frequency(key).unwrap();
    let incremented_meta = db.get_metadata(key).unwrap().unwrap();
    assert_eq!(incremented_meta.freq, 1);
    assert_eq!(
        initial_meta.created_at, incremented_meta.created_at,
        "created_at timestamp should not change on increment."
    );

    db.set(key, "Version 2", None).unwrap();

    let final_meta = db.get_metadata(key).unwrap().unwrap();
    let final_value = db.get(key).unwrap().unwrap();

    assert_eq!(final_value, "Version 2", "Value should be updated.");
    assert_eq!(
        final_meta.freq, 1,
        "Frequency should not be reset on a value update."
    );
    assert_eq!(
        final_meta.created_at, initial_meta.created_at,
        "created_at timestamp should not change on a value update."
    );
}

#[test]
fn test_remove_missing_key_is_refused() {
    let temp_dir = tempdir().unwrap();
    let mut db = DB::new(temp_dir.path().to_str().unwrap()).unwrap();

    let r = db.remove("absent");
    assert_eq!(
        r,
        Err(epoch_db::db::errors::TransientError::ValueNotFound)
    );
}

#[test]
fn test_increment_frequency_missing_key() {
    let temp_dir = tempdir().unwrap();
    let mut db = DB::new(temp_dir.path().to_str().unwrap()).unwrap();

    assert_eq!(db.increment_frequency("absent").unwrap(), None);
}

#[test]
fn test_reap_removes_expired_keys() {
    let temp_dir = tempdir().unwrap();
    let mut db = DB::new(temp_dir.path().to_str().unwrap()).unwrap();

    db.set("soon", "gone", Some(5000)).unwrap();
    db.set("keeper", "stays", None).unwrap();

    assert_eq!("gone", db.get("soon").unwrap().unwrap());

    // a sweep far in the future owes the expiring key a removal
    db.reap_expired(u64::MAX).unwrap();

    assert_eq!(None, db.get("soon").unwrap());
    assert_eq!(None, db.get_metadata("soon").unwrap());
    assert_eq!("stays", db.get("keeper").unwrap().unwrap());
}

#[test]
fn test_get_rejects_non_utf8_value_as_text() {
    let temp_dir = tempdir().unwrap();
    let mut db = DB::new(temp_dir.path().to_str().unwrap()).unwrap();

    db.set_raw(b"bin", b"\xFF\xFE", None).unwrap();
    assert_eq!(
        db.get("bin"),
        Err(epoch_db::db::errors::TransientError::ParsingToUTF8Error)
    );
}

#[test]
fn test_metadata_new_starts_at_zero() {
    let m = epoch_db::Metadata::new(Some(17));
    assert_eq!(m.freq, 0);
    assert_eq!(m.ttl, Some(17));
    let m = epoch_db::Metadata::new(None);
    assert_eq!(m.ttl, None);
}

#[test]
fn test_binary_values_raw() {
    let temp_dir = tempdir().unwrap();
    let mut db = DB::new(temp_dir.path().to_str().unwrap()).unwrap();

    db.set_raw(b"bin", b"\xDE\xAD\xBE\xEF", None).unwrap();
    assert_eq!(
        db.get_raw(b"bin").unwrap().unwrap(),
        vec![0xDE, 0xAD, 0xBE, 0xEF]
    );
    assert_eq!(db.get_db_size(), 1);
}
