use cnblog_sync::persist::{
    decode_store, encode_store, master_round_trip, store_from_bytes, store_to_bytes,
};
use cnblog_sync::store::Store;

fn sample_store() -> Store {
    let mut st = Store::new();
    st.new_post("cat1/note.md".to_string(), 7, 100);
    st.new_post("cat2/other.md".to_string(), 8, 250);
    st.new_post("old.md".to_string(), 9, 50);
    st.delete_post(9);
    st.new_category("cat1".to_string());
    st.new_category("cat2".to_string());
    st
}

#[test]
fn master_publish_round_trip() {
    // Decoding the published master body yields a store whose records
    // equal the published store's, tombstones and categories included.
    let st = sample_store();
    let body = encode_store(&st).unwrap();
    let back = decode_store(body.as_str()).unwrap();

    let live_a = st.existing_records();
    let live_b = back.existing_records();
    assert_eq!(live_a.len(), live_b.len());
    for (a, b) in live_a.iter().zip(live_b.iter()) {
        assert_eq!(a.blog_path, b.blog_path);
        assert_eq!(a.postid, b.postid);
        assert_eq!(a.timestamp, b.timestamp);
    }
    let tomb_a = st.tombstoned_records();
    let tomb_b = back.tombstoned_records();
    assert_eq!(tomb_a.len(), 1);
    assert_eq!(tomb_b.len(), 1);
    assert_eq!(tomb_b[0].postid, 9);
    assert_eq!(st.get_local_categories(), back.get_local_categories());

    let verified = master_round_trip(&st).unwrap();
    assert_eq!(verified.existing_records().len(), 2);
}

#[test]
fn empty_store_round_trips() {
    let st = Store::new();
    let body = encode_store(&st).unwrap();
    let back = decode_store(body.as_str()).unwrap();
    assert_eq!(back.existing_records().len(), 0);
    assert_eq!(back.get_local_categories().len(), 0);
}

#[test]
fn bytes_are_a_real_database_file() {
    // The serialized bytes must be an actual embedded database holding the
    // two tables, not some private encoding: read them back with the
    // database engine directly.
    let st = sample_store();
    let bytes = store_to_bytes(&st).unwrap();
    let mut conn = rusqlite::Connection::open_in_memory().unwrap();
    conn.deserialize_read_exact(rusqlite::MAIN_DB, bytes.as_slice(), bytes.len(), true)
        .unwrap();
    let n: i64 = conn
        .query_row("SELECT COUNT(*) FROM BlogsInfo WHERE deleted = 0", [], |r| r.get(0))
        .unwrap();
    assert_eq!(n, 2);
    let path: String = conn
        .query_row("SELECT blog_path FROM BlogsInfo WHERE postid = 7", [], |r| r.get(0))
        .unwrap();
    assert_eq!(path, "cat1/note.md");
    let cats: i64 = conn.query_row("SELECT COUNT(*) FROM Category", [], |r| r.get(0)).unwrap();
    assert_eq!(cats, 2);
}

#[test]
fn corrupt_rows_are_rejected() {
    // A database file whose rows break the uniqueness invariant decodes to
    // an error, not to a malformed store.
    let conn = rusqlite::Connection::open_in_memory().unwrap();
    conn.execute_batch(
        "CREATE TABLE BlogsInfo (
            id INTEGER PRIMARY KEY,
            blog_path NVARCHAR,
            postid INTEGER,
            timestamp INTEGER,
            deleted BOOLEAN NOT NULL CHECK (deleted IN (0, 1)));
        CREATE TABLE Category (
            id INTEGER PRIMARY KEY,
            category NVARCHAR);
        INSERT INTO BlogsInfo (blog_path, postid, timestamp, deleted)
            VALUES ('a.md', 1, 10, 0), ('a.md', 2, 20, 0);",
    )
    .unwrap();
    let data = conn.serialize(rusqlite::MAIN_DB).unwrap();
    let bytes: Vec<u8> = data.to_vec();
    assert!(matches!(
        store_from_bytes(&bytes),
        Err(cnblog_sync::StoreError::Corrupt)
    ));
}

#[test]
fn garbage_text_is_rejected() {
    assert!(matches!(
        decode_store("!!!not text"),
        Err(cnblog_sync::StoreError::Encoding)
    ));
    // Valid base64, but not a database file.
    let garbage = cnblog_sync::codec::encode(&b"just some bytes".to_vec());
    assert!(decode_store(garbage.as_str()).is_err());
}
