use shardkv::store::ShardedDatabase;
use shardkv::store::get_shard_index;

#[test]
fn test_insert_and_get() {
    let db = ShardedDatabase::new(4);
    db.insert("hello", b"world".to_vec());

    let value = db.get("hello");
    assert_eq!(value, Some(b"world".to_vec()));
}

#[test]
fn test_get_nonexistent_key_returns_none() {
    let db = ShardedDatabase::new(4);

    let value = db.get("nonexistent");
    assert_eq!(value, None);
}

#[test]
fn test_overwrite_key() {
    let db = ShardedDatabase::new(4);
    db.insert("key", b"value1".to_vec());
    db.insert("key", b"value2".to_vec());

    let value = db.get("key");
    assert_eq!(value, Some(b"value2".to_vec()));
}

#[test]
fn test_multiple_keys() {
    let db = ShardedDatabase::new(4);
    db.insert("key1", b"value1".to_vec());
    db.insert("key2", b"value2".to_vec());
    db.insert("key3", b"value3".to_vec());

    assert_eq!(db.get("key1"), Some(b"value1".to_vec()));
    assert_eq!(db.get("key2"), Some(b"value2".to_vec()));
    assert_eq!(db.get("key3"), Some(b"value3".to_vec()));
}

#[test]
fn test_clone_shares_data() {
    let db1 = ShardedDatabase::new(4);
    db1.insert("shared_key", b"shared_value".to_vec());

    let db2 = db1.clone();

    // Both should see the same data
    assert_eq!(db2.get("shared_key"), Some(b"shared_value".to_vec()));

    // Insert via clone should be visible in original
    db2.insert("new_key", b"new_value".to_vec());
    assert_eq!(db1.get("new_key"), Some(b"new_value".to_vec()));
}

#[test]
fn test_keys_distribute_across_shards() {
    // With multiple shards, different keys should hash to different shards
    // This is a probabilistic test - with enough keys, they should spread out
    let db = ShardedDatabase::new(4);

    // Insert many keys
    for i in 0..100 {
        let key = format!("key_{}", i);
        db.insert(&key, b"value".to_vec());
    }

    // Verify all keys are retrievable (sharding works correctly)
    for i in 0..100 {
        let key = format!("key_{}", i);
        assert!(db.get(&key).is_some(), "Key {} should exist", key);
    }
}

#[test]
fn concurrent_inserts_of_distinct_keys_all_succeed() {
    let rt = tokio::runtime::Builder::new_multi_thread()
        .worker_threads(4)
        .build()
        .unwrap();

    let db = ShardedDatabase::new(16);

    rt.block_on(async {
        let mut handles = Vec::new();
        for i in 0..10 {
            let db_clone = db.clone();
            handles.push(tokio::spawn(async move {
                let key = format!("key_{}", i);
                let value = format!("value_{}", i);
                db_clone.insert(&key, value.into_bytes());
            }));
        }
        for handle in handles {
            handle.await.unwrap();
        }
    });

    for i in 0..10 {
        let key = format!("key_{}", i);
        let expected = format!("value_{}", i);
        assert_eq!(db.get(&key), Some(expected.into_bytes()));
    }
}

#[test]
fn shard_index_is_deterministic() {
    let first = get_shard_index("some key", 16);
    let second = get_shard_index("some key", 16);
    assert_eq!(first, second);
    assert!(first < 16);

    let read_path = get_shard_index("another key", 5);
    let write_path = get_shard_index("another key", 5);
    assert_eq!(read_path, write_path);
    assert!(read_path < 5);
}

#[test]
fn store_scenario_with_four_shards() {
    let db = ShardedDatabase::new(4);
    db.insert("hello", b"world".to_vec());
    assert_eq!(db.get("hello"), Some(b"world".to_vec()));
    assert_eq!(db.get("missing"), None);
    db.insert("hello", b"mars".to_vec());
    assert_eq!(db.get("hello"), Some(b"mars".to_vec()));
}
