use bytes::BytesMut;
use redis_asio::stream::{
    ack_entry_command, ack_response_from_value, add_command, parse_range_entries,
    pending_list_command, range_cmd, read_explicit_cmd, resolve_touch_group, subscribe_cmd,
    touch_group_command, AckOptions, AckResponse, EntryId, PendingOptions, RangeOptions,
    RangeType, ReadExplicitOptions, RedisGroup, SendEntryOptions, SubscribeOptions,
    SubscriptionEngine, TouchGroupOptions,
};
use redis_asio::{
    command, encode_resp_value, from_redis_value, parse_resp_value, response_to_redis_value,
    RedisCodec, RedisErrorKind, RedisMap, RedisValue, RespInternalValue,
};

fn decode_one(bytes: &[u8]) -> RespInternalValue {
    let parsed = parse_resp_value(bytes).unwrap().unwrap();
    assert_eq!(parsed.value_src_len, bytes.len());
    parsed.value
}

#[test]
fn test_set_get_scenario() {
    let set_req = command("SET").arg("foo").arg(123);
    let set_bytes = encode_resp_value(set_req.into_resp_value());
    assert_eq!(set_bytes, b"*3\r\n$3\r\nSET\r\n$3\r\nfoo\r\n$3\r\n123\r\n".to_vec());

    let set_reply = decode_one(b"+OK\r\n");
    assert_eq!(set_reply.into_redis_value().unwrap(), RedisValue::Okay);

    let get_req = command("GET").arg("foo");
    let get_bytes = encode_resp_value(get_req.into_resp_value());
    assert_eq!(get_bytes, b"*2\r\n$3\r\nGET\r\n$3\r\nfoo\r\n".to_vec());

    let get_reply = decode_one(b"$3\r\n123\r\n").into_redis_value().unwrap();
    assert_eq!(123i64, from_redis_value::<i64>(&get_reply).unwrap());
}

#[test]
fn test_send_entry_scenario() {
    let options = SendEntryOptions::new("mystream".to_string());
    let req = add_command(
        options,
        vec![("type".to_string(), "Msg"), ("data".to_string(), "hi")],
    );
    let bytes = encode_resp_value(req.into_resp_value());
    assert_eq!(
        bytes,
        b"*7\r\n$4\r\nXADD\r\n$8\r\nmystream\r\n$1\r\n*\r\n$4\r\ntype\r\n$3\r\nMsg\r\n$4\r\ndata\r\n$2\r\nhi\r\n"
            .to_vec()
    );

    let reply = decode_one(b"$15\r\n1700000000000-0\r\n").into_redis_value().unwrap();
    let id = redis_asio::stream::entry_id_from_response(&reply).unwrap();
    assert_eq!(id, EntryId::new(1700000000000, 0));
}

#[test]
fn test_range_scenario() {
    let options = RangeOptions::new("mystream".to_string(), 2, RangeType::Any).unwrap();
    let req = range_cmd(options);
    let bytes = encode_resp_value(req.into_resp_value());
    assert_eq!(
        bytes,
        b"*6\r\n$6\r\nXRANGE\r\n$8\r\nmystream\r\n$1\r\n-\r\n$1\r\n+\r\n$5\r\nCOUNT\r\n$1\r\n2\r\n"
            .to_vec()
    );

    let reply = decode_one(
        b"*2\r\n*2\r\n$3\r\n1-0\r\n*2\r\n$1\r\na\r\n$1\r\nb\r\n*2\r\n$3\r\n2-0\r\n*2\r\n$1\r\nc\r\n$1\r\nd\r\n",
    )
    .into_redis_value()
    .unwrap();
    let entries = parse_range_entries(reply).unwrap();
    assert_eq!(entries.len(), 2);
    assert_eq!(entries[0].id, EntryId::new(1, 0));
    assert_eq!(
        entries[0].values,
        vec![("a".to_string(), RedisValue::BulkString(b"b".to_vec()))]
    );
    assert_eq!(entries[1].id, EntryId::new(2, 0));
    assert_eq!(
        entries[1].values,
        vec![("c".to_string(), RedisValue::BulkString(b"d".to_vec()))]
    );
}

#[test]
fn test_ack_scenario() {
    let options = AckOptions::new(
        "mystream".to_string(),
        "g".to_string(),
        EntryId::new(1, 0),
    );
    let req = ack_entry_command(options);
    let bytes = encode_resp_value(req.into_resp_value());
    assert_eq!(
        bytes,
        b"*4\r\n$4\r\nXACK\r\n$8\r\nmystream\r\n$1\r\ng\r\n$3\r\n1-0\r\n".to_vec()
    );

    let ok_reply = decode_one(b":1\r\n").into_redis_value().unwrap();
    assert_eq!(ack_response_from_value(&ok_reply).unwrap(), AckResponse::Okay);

    let missing_reply = decode_one(b":0\r\n").into_redis_value().unwrap();
    assert_eq!(ack_response_from_value(&missing_reply).unwrap(), AckResponse::NotExists);
}

#[test]
fn test_ack_non_integer_reply_is_parse_error() {
    let reply = decode_one(b"+OK\r\n").into_redis_value().unwrap();
    let err = ack_response_from_value(&reply).unwrap_err();
    assert_eq!(err.error, RedisErrorKind::ParseError);
}

#[test]
fn test_touch_group_scenario() {
    let options = TouchGroupOptions::new("mystream".to_string(), "g".to_string());
    let req = touch_group_command(options);
    let bytes = encode_resp_value(req.into_resp_value());
    assert_eq!(
        bytes,
        b"*6\r\n$6\r\nXGROUP\r\n$6\r\nCREATE\r\n$8\r\nmystream\r\n$1\r\ng\r\n$1\r\n$\r\n$8\r\nMKSTREAM\r\n"
            .to_vec()
    );

    // the server answers that the group exists already: downgraded to success
    let reply = decode_one(b"-BUSYGROUP Consumer Group name already exists\r\n");
    let result = reply.into_redis_value();
    assert!(result.is_err());
    assert!(resolve_touch_group(result).is_ok());

    // any other server error propagates unchanged
    let reply = decode_one(b"-NOGROUP no such group\r\n");
    let err = resolve_touch_group(reply.into_redis_value()).unwrap_err();
    assert_eq!(err.error, RedisErrorKind::ReceiveError);
    assert_eq!(err.description(), "NOGROUP no such group");

    // a plain success stays a success
    let reply = decode_one(b"+OK\r\n");
    assert!(resolve_touch_group(reply.into_redis_value()).is_ok());
}

#[test]
fn test_subscription_backpressure() {
    let group = RedisGroup::new("g".to_string(), "bob".to_string());
    let options = SubscribeOptions::with_group(vec!["mystream".to_string()], group);

    let expected_read = b"*9\r\n$10\r\nXREADGROUP\r\n$5\r\nGROUP\r\n$1\r\ng\r\n$3\r\nbob\r\n$5\r\nBLOCK\r\n$1\r\n0\r\n$7\r\nSTREAMS\r\n$8\r\nmystream\r\n$1\r\n>\r\n".to_vec();

    let (engine, primer) = SubscriptionEngine::start(options);
    let mut written: Vec<Vec<u8>> = Vec::new();
    written.push(encode_resp_value(primer.into_resp_value()));
    assert_eq!(written[0], expected_read);
    let mut consumed = 0usize;
    // one read outstanding after the primer
    assert!(written.len() - consumed <= 1);

    // the mock transport feeds two complete reply frames back-to-back
    let mut codec = RedisCodec {};
    let mut buf = BytesMut::new();
    let frame_bytes: &[u8] =
        b"*1\r\n*2\r\n$8\r\nmystream\r\n*1\r\n*2\r\n$3\r\n1-0\r\n*2\r\n$1\r\na\r\n$1\r\nb\r\n";
    codec.encode(decode_one(frame_bytes), &mut buf).unwrap();
    let frame_bytes2: &[u8] =
        b"*1\r\n*2\r\n$8\r\nmystream\r\n*1\r\n*2\r\n$3\r\n2-0\r\n*2\r\n$1\r\nc\r\n$1\r\nd\r\n";
    codec.encode(decode_one(frame_bytes2), &mut buf).unwrap();

    let mut batches = Vec::new();
    while let Some(frame) = codec.decode(&mut buf).unwrap() {
        consumed += 1;
        assert!(written.len() - consumed <= 1);
        let (rearm, batch) = engine.on_frame(frame).unwrap();
        written.push(encode_resp_value(rearm.into_resp_value()));
        // re-arm before yield: at most one read outstanding at any moment
        assert!(written.len() - consumed <= 1);
        batches.push(batch);
    }

    // exactly two additional re-arm commands were written, one per batch
    assert_eq!(written.len(), 3);
    assert_eq!(written[1], expected_read);
    assert_eq!(written[2], expected_read);

    // the two batches arrived in server-reply order
    assert_eq!(batches.len(), 2);
    assert_eq!(batches[0].len(), 1);
    assert_eq!(batches[0][0].stream, "mystream".to_string());
    assert_eq!(batches[0][0].id, EntryId::new(1, 0));
    assert_eq!(
        batches[0][0].values,
        vec![("a".to_string(), RedisValue::BulkString(b"b".to_vec()))]
    );
    assert_eq!(batches[1][0].id, EntryId::new(2, 0));
}

#[test]
fn test_round_trip_concrete() {
    // the canonical null bulk string round-trips
    let nil_bytes = encode_resp_value(RespInternalValue::Nil);
    assert_eq!(nil_bytes, b"$-1\r\n".to_vec());
    let parsed = parse_resp_value(&nil_bytes).unwrap().unwrap();
    assert_eq!(parsed.value, RespInternalValue::Nil);
    assert_eq!(parsed.value_src_len, nil_bytes.len());

    let value = RespInternalValue::Array(vec![
        RespInternalValue::Nil,
        RespInternalValue::Int(-42),
        RespInternalValue::BulkString(b"payload \xff\x00".to_vec()),
        RespInternalValue::Status("partly ok".to_string()),
        RespInternalValue::Error("oops".to_string()),
    ]);
    let encoded = encode_resp_value(value.clone());
    let parsed = parse_resp_value(&encoded).unwrap().unwrap();
    assert_eq!(parsed.value, value);
    assert_eq!(parsed.value_src_len, encoded.len());
}

#[test]
fn test_incremental_parsing_prefixes() {
    let value = RespInternalValue::Array(vec![
        RespInternalValue::Status("hi".to_string()),
        RespInternalValue::BulkString(b"abc".to_vec()),
        RespInternalValue::Int(7),
    ]);
    let encoded = encode_resp_value(value.clone());
    for cut in 0..encoded.len() {
        let prefix = &encoded[..cut];
        assert!(
            parse_resp_value(prefix).unwrap().is_none(),
            "a proper prefix must ask for more bytes"
        );
    }
    // and with trailing bytes the frame is returned, leaving the tail
    let mut with_tail = encoded.clone();
    with_tail.extend_from_slice(b"tail");
    let parsed = parse_resp_value(&with_tail).unwrap().unwrap();
    assert_eq!(parsed.value, value);
    assert_eq!(parsed.value_src_len, encoded.len());
}

#[test]
fn test_malformed_cr_without_lf() {
    assert!(parse_resp_value(b"+OK\r$").is_err());
    assert!(parse_resp_value(b":1\r1\r\n").is_err());
    assert!(parse_resp_value(b"$3\r\nabc\r$").is_err());
}

#[test]
fn test_unknown_discriminator_is_parse_error() {
    let err = parse_resp_value(b"!boom\r\n").unwrap_err();
    assert_eq!(err.error, RedisErrorKind::ParseError);
}

#[test]
fn test_integer_frame_signs_and_overflow() {
    let parsed = parse_resp_value(b":+42\r\n").unwrap().unwrap();
    assert_eq!(parsed.value, RespInternalValue::Int(42));
    assert!(parse_resp_value(b":9223372036854775808\r\n").is_err());
    assert_eq!(
        parse_resp_value(b":-9223372036854775808\r\n").unwrap().unwrap().value,
        RespInternalValue::Int(i64::MIN)
    );
}

#[test]
fn test_entry_id_round_trip_and_failures() {
    let id = EntryId::new(1581870410019, 7);
    assert_eq!(id.to_string(), "1581870410019-7".to_string());
    assert_eq!(EntryId::from_string("1581870410019-7".to_string()).unwrap(), id);

    let max = EntryId::new(u64::MAX, u64::MAX);
    assert_eq!(EntryId::from_string(max.to_string()).unwrap(), max);

    for bad in [
        "", "-", "1-", "-1", "1", "1-2-3", "1--2", "a-1", "1-b", "+1-2", "1-+2",
        "18446744073709551616-0",
    ] {
        assert!(
            EntryId::from_string(bad.to_string()).is_err(),
            "expected a parse failure"
        );
    }
}

#[test]
fn test_range_invariant() {
    let lo = EntryId::new(1, 0);
    let hi = EntryId::new(2, 0);
    assert!(RangeOptions::new("s".to_string(), 1, RangeType::Any).is_ok());
    assert!(RangeOptions::new("s".to_string(), 1, RangeType::GreaterThan(hi)).is_ok());
    assert!(RangeOptions::new("s".to_string(), 1, RangeType::LessThan(lo)).is_ok());
    assert!(RangeOptions::new("s".to_string(), 1, RangeType::GreaterLessThan(lo, hi)).is_ok());
    let err = RangeOptions::new("s".to_string(), 1, RangeType::GreaterLessThan(hi, lo))
        .unwrap_err();
    assert_eq!(err.error, RedisErrorKind::InvalidOptions);
    let err = RangeOptions::new("s".to_string(), 1, RangeType::GreaterLessThan(lo, lo))
        .unwrap_err();
    assert_eq!(err.error, RedisErrorKind::InvalidOptions);
}

#[test]
fn test_read_explicit_command_shape() {
    let mut options = ReadExplicitOptions::new("stream1".to_string(), EntryId::new(0, 0), 10);
    options.add_stream("stream2".to_string(), EntryId::new(1, 2));
    let bytes = encode_resp_value(read_explicit_cmd(options).into_resp_value());
    assert_eq!(
        bytes,
        b"*8\r\n$5\r\nXREAD\r\n$5\r\nCOUNT\r\n$2\r\n10\r\n$7\r\nSTREAMS\r\n$7\r\nstream1\r\n$7\r\nstream2\r\n$3\r\n0-0\r\n$3\r\n1-2\r\n"
            .to_vec()
    );
}

#[test]
fn test_subscribe_command_without_group() {
    let options = SubscribeOptions::new(vec!["s1".to_string(), "s2".to_string()]);
    let bytes = encode_resp_value(subscribe_cmd(options).into_resp_value());
    assert_eq!(
        bytes,
        b"*8\r\n$5\r\nXREAD\r\n$5\r\nBLOCK\r\n$1\r\n0\r\n$7\r\nSTREAMS\r\n$2\r\ns1\r\n$2\r\ns2\r\n$1\r\n$\r\n$1\r\n$\r\n"
            .to_vec()
    );
}

#[test]
fn test_pending_list_command_shape() {
    let options = PendingOptions::with_count(
        "s".to_string(),
        "g".to_string(),
        "c".to_string(),
        EntryId::new(0, 0),
        5,
    )
    .unwrap();
    let bytes = encode_resp_value(pending_list_command(options).into_resp_value());
    assert_eq!(
        bytes,
        b"*9\r\n$10\r\nXREADGROUP\r\n$5\r\nGROUP\r\n$1\r\ng\r\n$1\r\nc\r\n$5\r\nCOUNT\r\n$1\r\n5\r\n$7\r\nSTREAMS\r\n$1\r\ns\r\n$3\r\n0-0\r\n"
            .to_vec()
    );
}

#[test]
fn test_connection_closed_before_answer() {
    let err = response_to_redis_value(None).unwrap_err();
    assert_eq!(err.error, RedisErrorKind::ConnectionError);
}

#[test]
fn test_non_ascii_text_round_trip() {
    // the codec validates and decodes UTF-8 text; non-ASCII survives intact
    let value = decode_one("+h\u{e9}llo\r\n".as_bytes());
    assert_eq!(value, RespInternalValue::Status("h\u{e9}llo".to_string()));
    let reply = value.into_redis_value().unwrap();
    assert_eq!(reply, RedisValue::Status("h\u{e9}llo".to_string()));

    let bulk = RedisValue::BulkString("h\u{e9}llo".as_bytes().to_vec());
    assert_eq!("h\u{e9}llo".to_string(), from_redis_value::<String>(&bulk).unwrap());
    // a status frame holding invalid UTF-8 is a parse error
    assert!(parse_resp_value(b"+h\xff\r\n").is_err());
}

#[test]
fn test_integer_text_truncation() {
    // decimal text converts exactly as the wire integer does: the value
    // wrapped to the target width
    let max = RedisValue::BulkString(b"18446744073709551615".to_vec());
    assert_eq!(u64::MAX, from_redis_value::<u64>(&max).unwrap());
    let plus = RedisValue::BulkString(b"+5".to_vec());
    assert_eq!(5u32, from_redis_value::<u32>(&plus).unwrap());
    let neg = RedisValue::BulkString(b"-1".to_vec());
    assert_eq!(u32::MAX, from_redis_value::<u32>(&neg).unwrap());
    assert_eq!(
        from_redis_value::<u32>(&RedisValue::Int(-1)).unwrap(),
        from_redis_value::<u32>(&neg).unwrap()
    );
    assert_eq!(-1i64, from_redis_value::<i64>(&neg).unwrap());
    let wide = RedisValue::BulkString(b"4294967296".to_vec());
    assert_eq!(0u32, from_redis_value::<u32>(&wide).unwrap());
    assert_eq!(4294967296i64, from_redis_value::<i64>(&wide).unwrap());
    let three_hundred = RedisValue::BulkString(b"300".to_vec());
    assert_eq!(44u8, from_redis_value::<u8>(&three_hundred).unwrap());
    assert_eq!(44i8, from_redis_value::<i8>(&three_hundred).unwrap());
    assert_eq!(
        from_redis_value::<u8>(&RedisValue::Int(300)).unwrap(),
        from_redis_value::<u8>(&three_hundred).unwrap()
    );
    let minus_130 = RedisValue::BulkString(b"-130".to_vec());
    assert_eq!(126i8, from_redis_value::<i8>(&minus_130).unwrap());
    // malformed text is still refused
    assert!(from_redis_value::<u8>(&RedisValue::BulkString(b"12x".to_vec())).is_err());
    assert!(from_redis_value::<u8>(&RedisValue::BulkString(b"".to_vec())).is_err());
}

#[test]
fn test_duplicate_field_keys_are_rejected() {
    let entry = RedisValue::Array(vec![
        RedisValue::BulkString(b"1-0".to_vec()),
        RedisValue::Array(vec![
            RedisValue::BulkString(b"k".to_vec()),
            RedisValue::Int(1),
            RedisValue::BulkString(b"k".to_vec()),
            RedisValue::Int(2),
        ]),
    ]);
    let value = RedisValue::Array(vec![entry]);
    let err = parse_range_entries(value).unwrap_err();
    assert_eq!(err.error, RedisErrorKind::ParseError);
}

#[test]
fn test_pair_conversion() {
    let value = RedisValue::Array(vec![
        RedisValue::BulkString(b"answer".to_vec()),
        RedisValue::Int(42),
    ]);
    let pair: (String, i64) = from_redis_value(&value).unwrap();
    assert_eq!(pair, ("answer".to_string(), 42));

    let too_long = RedisValue::Array(vec![
        RedisValue::Int(1),
        RedisValue::Int(2),
        RedisValue::Int(3),
    ]);
    let err = from_redis_value::<(i64, i64)>(&too_long).unwrap_err();
    assert_eq!(err.error, RedisErrorKind::ParseError);

    let err = from_redis_value::<(i64, i64)>(&RedisValue::Nil).unwrap_err();
    assert_eq!(err.error, RedisErrorKind::IncorrectConversion);
}

#[test]
fn test_map_conversion() {
    let value = RedisValue::Array(vec![
        RedisValue::BulkString(b"one".to_vec()),
        RedisValue::Int(1),
        RedisValue::BulkString(b"two".to_vec()),
        RedisValue::Int(2),
    ]);
    let map: RedisMap<String, i64> = from_redis_value(&value).unwrap();
    assert_eq!(
        map.entries,
        vec![("one".to_string(), 1), ("two".to_string(), 2)]
    );

    // an odd-length run has a key without a value
    let odd = RedisValue::Array(vec![
        RedisValue::BulkString(b"one".to_vec()),
        RedisValue::Int(1),
        RedisValue::BulkString(b"dangling".to_vec()),
    ]);
    let err = from_redis_value::<RedisMap<String, i64>>(&odd).unwrap_err();
    assert_eq!(err.error, RedisErrorKind::IncorrectConversion);

    // a non-textual key fails with the key's own error kind
    let bad_key = RedisValue::Array(vec![RedisValue::Nil, RedisValue::Int(1)]);
    assert!(from_redis_value::<RedisMap<String, i64>>(&bad_key).is_err());
}
