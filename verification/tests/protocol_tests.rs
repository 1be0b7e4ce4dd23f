use shardkv::protocol::Request;
use shardkv::protocol::Response;
use shardkv::protocol::apply_request;
use shardkv::protocol::dispatch;
use shardkv::store::KvMap;
use shardkv::store::ShardedDatabase;

#[test]
fn put_then_get_round_trip_on_one_shard_map() {
    let mut m = KvMap::new();
    let resp = apply_request(
        &mut m,
        Request::Put {
            key: String::from("hello"),
            value: b"world".to_vec(),
        },
    );
    assert!(matches!(resp, Response::Acked));

    let resp = apply_request(
        &mut m,
        Request::Get {
            key: String::from("hello"),
        },
    );
    match resp {
        Response::Bulk(v) => assert_eq!(v, b"world".to_vec()),
        _ => panic!("expected a bulk response"),
    }
}

#[test]
fn get_of_absent_key_is_null() {
    let mut m = KvMap::new();
    let resp = apply_request(
        &mut m,
        Request::Get {
            key: String::from("missing"),
        },
    );
    assert!(matches!(resp, Response::Null));
}

#[test]
fn dispatch_runs_requests_against_the_shared_store() {
    let db = ShardedDatabase::new(4);
    let resp = dispatch(
        &db,
        Request::Put {
            key: String::from("hello"),
            value: b"world".to_vec(),
        },
    );
    assert!(matches!(resp, Response::Acked));

    let resp = dispatch(
        &db,
        Request::Get {
            key: String::from("hello"),
        },
    );
    match resp {
        Response::Bulk(v) => assert_eq!(v, b"world".to_vec()),
        _ => panic!("expected a bulk response"),
    }

    let resp = dispatch(
        &db,
        Request::Get {
            key: String::from("missing"),
        },
    );
    assert!(matches!(resp, Response::Null));
}

#[test]
fn one_response_per_request_in_order() {
    let mut m = KvMap::new();
    let requests = vec![
        Request::Put {
            key: String::from("a"),
            value: b"1".to_vec(),
        },
        Request::Get {
            key: String::from("a"),
        },
        Request::Put {
            key: String::from("a"),
            value: b"2".to_vec(),
        },
        Request::Get {
            key: String::from("a"),
        },
    ];
    let mut responses = Vec::new();
    for req in requests {
        responses.push(apply_request(&mut m, req));
    }
    assert_eq!(responses.len(), 4);
    assert!(matches!(responses[0], Response::Acked));
    assert!(matches!(&responses[1], Response::Bulk(v) if v == &b"1".to_vec()));
    assert!(matches!(responses[2], Response::Acked));
    assert!(matches!(&responses[3], Response::Bulk(v) if v == &b"2".to_vec()));
}
