use redis_asio::stream::{parse_stream_entries, EntryId, StreamEntry};
use redis_asio::RedisValue;

#[test]
fn common_test_parse_stream_entry() {
    let entry1 = RedisValue::Array(vec![
        RedisValue::BulkString(b"1581870410019-0".to_vec()),
        RedisValue::Array(vec![
            RedisValue::BulkString(b"1key1".to_vec()),
            RedisValue::BulkString(b"1value1".to_vec()),
            RedisValue::BulkString(b"1key2".to_vec()),
            RedisValue::Int(2),
        ]),
    ]);

    let entry2 = RedisValue::Array(vec![
        RedisValue::BulkString(b"1581870414714-0".to_vec()),
        RedisValue::Array(vec![
            RedisValue::BulkString(b"2key1".to_vec()),
            RedisValue::BulkString(b"2value1".to_vec()),
            RedisValue::BulkString(b"2key2".to_vec()),
            RedisValue::BulkString(b"2value2".to_vec()),
            RedisValue::BulkString(b"2key3".to_vec()),
            RedisValue::BulkString(b"2value3".to_vec()),
        ]),
    ]);

    let entry3 = RedisValue::Array(vec![
        RedisValue::BulkString(b"1581855076637-0".to_vec()),
        RedisValue::Array(vec![
            RedisValue::BulkString(b"3key1".to_vec()),
            RedisValue::BulkString(b"3value1".to_vec()),
        ]),
    ]);

    let stream1 = RedisValue::Array(vec![
        RedisValue::BulkString(b"stream1".to_vec()),
        RedisValue::Array(vec![entry1, entry2]),
    ]);

    let stream2 = RedisValue::Array(vec![
        RedisValue::BulkString(b"stream2".to_vec()),
        RedisValue::Array(vec![entry3]),
    ]);

    let value = RedisValue::Array(vec![stream1, stream2]);

    let result = parse_stream_entries(value).unwrap();

    let entry1 = vec![
        ("1key1".to_string(), RedisValue::BulkString(b"1value1".to_vec())),
        ("1key2".to_string(), RedisValue::Int(2)),
    ];

    let entry2 = vec![
        ("2key1".to_string(), RedisValue::BulkString(b"2value1".to_vec())),
        ("2key2".to_string(), RedisValue::BulkString(b"2value2".to_vec())),
        ("2key3".to_string(), RedisValue::BulkString(b"2value3".to_vec())),
    ];

    let entry3 = vec![("3key1".to_string(), RedisValue::BulkString(b"3value1".to_vec()))];

    let origin = vec![
        StreamEntry::new("stream1".to_string(), EntryId::new(1581870410019, 0), entry1),
        StreamEntry::new("stream1".to_string(), EntryId::new(1581870414714, 0), entry2),
        StreamEntry::new("stream2".to_string(), EntryId::new(1581855076637, 0), entry3),
    ];

    assert_eq!(origin, result);
}

#[test]
fn test_invalid_entry_id() {
    let entry = RedisValue::Array(vec![
        // x insted of -
        RedisValue::BulkString(b"1581855076637x0".to_vec()),
        RedisValue::Array(vec![
            RedisValue::BulkString(b"key".to_vec()),
            RedisValue::Int(2),
        ]),
    ]);

    let stream = RedisValue::Array(vec![
        RedisValue::BulkString(b"stream".to_vec()),
        RedisValue::Array(vec![entry]),
    ]);

    let value = RedisValue::Array(vec![stream]);

    assert!(parse_stream_entries(value).is_err(), "Expect an parse error");
}

#[test]
fn test_invalid_key_value() {
    let entry = RedisValue::Array(vec![
        RedisValue::BulkString(b"1581855076637-0".to_vec()),
        RedisValue::Array(vec![
            // there is only key without value
            RedisValue::BulkString(b"key".to_vec()),
        ]),
    ]);

    let stream = RedisValue::Array(vec![
        RedisValue::BulkString(b"stream".to_vec()),
        RedisValue::Array(vec![entry]),
    ]);

    let value = RedisValue::Array(vec![stream]);

    assert!(parse_stream_entries(value).is_err(), "Expect an parse error");
}

#[test]
fn test_invalid_entry_structure() {
    let entry = RedisValue::Array(vec![
        // there is no keys and values
        RedisValue::BulkString(b"1581855076637-0".to_vec()),
    ]);

    let stream = RedisValue::Array(vec![
        RedisValue::BulkString(b"stream".to_vec()),
        RedisValue::Array(vec![entry]),
    ]);

    let value = RedisValue::Array(vec![stream]);

    assert!(parse_stream_entries(value).is_err(), "Expect an parse error");
}
