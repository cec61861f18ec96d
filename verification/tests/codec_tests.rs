use bytes::BytesMut;
use redis_asio::codec::decode::{parse_array, parse_error, parse_int, parse_resp_value,
    parse_status, ParseResult};
use redis_asio::{encode_resp_value, RedisCodec, RespInternalValue};

#[test]
fn mod_test_encode() {
    let mut codec = RedisCodec {};
    let mut buf = BytesMut::new();
    codec.encode(RespInternalValue::Status("OK".to_string()), &mut buf).unwrap();
    assert_eq!("+OK\r\n".as_bytes(), buf.as_ref());
}

#[test]
fn mod_test_decode() {
    let mut codec = RedisCodec {};
    let mut buf = BytesMut::from("+OK\r\ntrash".as_bytes().to_vec());
    assert_eq!(
        RespInternalValue::Status("OK".to_string()),
        codec.decode(&mut buf).unwrap().unwrap()
    );
    assert_eq!("trash".as_bytes().to_vec(), buf.as_ref());

    let mut buf = BytesMut::from("+OK\r".as_bytes().to_vec());
    // receive an incomplete message
    assert!(codec.decode(&mut buf).unwrap().is_none());

    // receive an empty message
    let mut buf = BytesMut::from(Vec::new());
    assert!(codec.decode(&mut buf).unwrap().is_none());

    let mut buf = BytesMut::from("+OK\r$".as_bytes().to_vec());
    assert!(codec.decode(&mut buf).is_err());
}

#[test]
fn encode_test_encode() {
    assert_eq!("$-1\r\n".as_bytes().to_vec(), encode_resp_value(RespInternalValue::Nil));
    assert_eq!(
        "-Error message\r\n".as_bytes().to_vec(),
        encode_resp_value(RespInternalValue::Error("Error message".to_string()))
    );
    assert_eq!(
        ":1000\r\n".as_bytes().to_vec(),
        encode_resp_value(RespInternalValue::Int(1000))
    );
    assert_eq!(
        "$8\r\nfoo\r\nbar\r\n".as_bytes().to_vec(),
        encode_resp_value(RespInternalValue::BulkString("foo\r\nbar".as_bytes().to_vec()))
    );
    assert_eq!(
        "*2\r\n$3\r\nfoo\r\n$3\r\nbar\r\n".as_bytes().to_vec(),
        encode_resp_value(RespInternalValue::Array(vec![
            RespInternalValue::BulkString("foo".as_bytes().to_vec()),
            RespInternalValue::BulkString("bar".as_bytes().to_vec())
        ]))
    );
}

#[test]
fn codec_test_parse_status() {
    let data = Vec::from("Ok\r\n");
    let ParseResult { value, value_src_len } = parse_status(data.as_slice()).unwrap().unwrap();

    assert_eq!(RespInternalValue::Status(String::from("Ok")), value);
    assert_eq!(data.len(), value_src_len);

    assert!(parse_status(Vec::from("Ok\r").as_mut_slice()).unwrap().is_none(), "expected Ok(None)");
    assert!(parse_status(Vec::from("Ok\r$").as_mut_slice()).is_err(), "expected Err");
}

#[test]
fn codec_test_parse_error() {
    let data = Vec::from("Error\r\n");
    let ParseResult { value, value_src_len } = parse_error(data.as_slice()).unwrap().unwrap();

    assert_eq!(RespInternalValue::Error(String::from("Error")), value);
    assert_eq!(data.len(), value_src_len);

    assert!(
        parse_error(Vec::from("Error\r").as_mut_slice()).unwrap().is_none(),
        "expected Ok(None)"
    );
    assert!(parse_error(Vec::from("Error\r$").as_mut_slice()).is_err(), "expected Err");
}

#[test]
fn codec_test_parse_int() {
    let data = Vec::from("-12345\r\n");
    let ParseResult { value, value_src_len } = parse_int(data.as_slice()).unwrap().unwrap();

    assert_eq!(RespInternalValue::Int(-12345i64), value);
    assert_eq!(data.len(), value_src_len);

    assert!(
        parse_int(Vec::from("-12345\r").as_mut_slice()).unwrap().is_none(),
        "expected Ok(None)"
    );
    assert!(parse_int(Vec::from("-12345\r$").as_mut_slice()).is_err(), "expected Err");
    assert!(parse_int(Vec::from("-12X45\r\n").as_mut_slice()).is_err(), "expected Err");
}

#[test]
fn decode_test_parse_status() {
    let data = Vec::from("+Ok\r\n");
    let ParseResult { value, value_src_len } =
        parse_resp_value(data.as_slice()).unwrap().unwrap();

    assert_eq!(RespInternalValue::Status("Ok".to_string()), value);
    assert_eq!(data.len(), value_src_len);

    assert!(
        parse_resp_value(Vec::from("+Ok\r").as_mut_slice()).unwrap().is_none(),
        "expected Ok(None)"
    );
    assert!(parse_resp_value(Vec::from("+Ok\r$").as_mut_slice()).is_err(), "expected Err");
}

#[test]
fn decode_test_parse_error() {
    let data = Vec::from("-Error\r\n");
    let ParseResult { value, value_src_len } =
        parse_resp_value(data.as_slice()).unwrap().unwrap();

    assert_eq!(RespInternalValue::Error("Error".to_string()), value);
    assert_eq!(data.len(), value_src_len);

    assert!(
        parse_resp_value(Vec::from("-Error\r").as_mut_slice()).unwrap().is_none(),
        "expected Ok(None)"
    );
    assert!(parse_resp_value(Vec::from("-Error\r$").as_mut_slice()).is_err(), "expected Err");
}

#[test]
fn decode_test_parse_int() {
    let data = Vec::from(":-12345\r\n");
    let ParseResult { value, value_src_len } =
        parse_resp_value(data.as_slice()).unwrap().unwrap();

    assert_eq!(RespInternalValue::Int(-12345i64), value);
    assert_eq!(data.len(), value_src_len);

    assert!(
        parse_resp_value(Vec::from(":-12345\r").as_mut_slice()).unwrap().is_none(),
        "expected Ok(None)"
    );
    assert!(parse_resp_value(Vec::from(":-12345\r$").as_mut_slice()).is_err(), "expected Err");
    assert!(parse_resp_value(Vec::from(":-12X45\r\n").as_mut_slice()).is_err(), "expected Err");
}

#[test]
fn test_parse_bulkstring() {
    // $ - message type identifier
    // 8\r\n - the number of bytes composing the string (a prefixed length), terminated by CRLF.
    // foo\r\nbar - the actual string data.
    // \r\n - a final CRLF.
    let origin_msg = "foo\r\nbar".to_string();

    let mut raw_data = format!("${}\r\n{}\r\n", origin_msg.len(), origin_msg).into_bytes();
    let expected_value_len = raw_data.len();
    raw_data.append(&mut "trash".as_bytes().to_vec());

    let ParseResult { value, value_src_len } =
        parse_resp_value(raw_data.as_slice()).unwrap().unwrap();

    assert_eq!(RespInternalValue::BulkString(origin_msg.into_bytes()), value);
    assert_eq!(expected_value_len, value_src_len);

    // receive an incomplete message
    assert!(
        parse_resp_value(Vec::from("$7\r").as_mut_slice()).unwrap().is_none(),
        "expected Ok(None)"
    );
    // receive an incomplete message
    assert!(
        parse_resp_value(Vec::from("$7\r\n$").as_mut_slice()).unwrap().is_none(),
        "expected Ok(None)"
    );
    // receive incorrect message without CRLF:
    // 7\r\n - the number of bytes composing the string (a prefixed length), terminated by CRLF.
    // 1234567 - the actual string data, the len = 7.
    // %\n - incorrect CRLF characters (expected \r\n).
    assert!(parse_resp_value(Vec::from("$7\r\n1234567\r$").as_mut_slice()).is_err(), "expected Err");
}

#[test]
fn test_parse_bulkstring_nil() {
    // $ - message type identifier
    // -10\r\n - a negative length, terminated by CRLF: the null bulk string,
    // complete at its length line; any bytes after it belong to the next frame.
    let mut raw_data = Vec::from("$-10\r\n");
    let expected_value_len = raw_data.len();
    raw_data.append(&mut "trash".as_bytes().to_vec());

    let ParseResult { value, value_src_len } =
        parse_resp_value(raw_data.as_slice()).unwrap().unwrap();

    assert_eq!(RespInternalValue::Nil, value);
    assert_eq!(expected_value_len, value_src_len);

    // the canonical null bulk string
    let ParseResult { value, value_src_len } =
        parse_resp_value(Vec::from("$-1\r\n").as_slice()).unwrap().unwrap();
    assert_eq!(RespInternalValue::Nil, value);
    assert_eq!(5, value_src_len);

    // receive an incomplete message
    assert!(
        parse_resp_value(Vec::from("$-10\r").as_mut_slice()).unwrap().is_none(),
        "expected Ok(None)"
    );
    // a trailing byte after the length line belongs to the next frame
    let ParseResult { value, value_src_len } =
        parse_resp_value(Vec::from("$-10\r\n$").as_slice()).unwrap().unwrap();
    assert_eq!(RespInternalValue::Nil, value);
    assert_eq!(6, value_src_len);
}

#[test]
fn test_parse_array() {
    let mut nil_value_data = Vec::from("$-1\r\n");
    // "Error message"
    let mut error_value_data = Vec::from("-Error message\r\n");
    // "Status message"
    let mut status_value_data = Vec::from("+Status message\r\n");
    // -1423
    let mut int_value_data = Vec::from(":-1423\r\n");
    // "Bulk\r\nstring\tmessage"
    let mut bulkstring_value_data = Vec::from("$20\r\nBulk\r\nstring\tmessage\r\n");
    // [1, 2, 3]
    let mut array_value_data = Vec::from("*3\r\n:1\r\n:2\r\n:3\r\n");

    let mut array_data: Vec<u8> = Vec::from("*6\r\n");
    array_data.append(&mut nil_value_data);
    array_data.append(&mut error_value_data);
    array_data.append(&mut status_value_data);
    array_data.append(&mut int_value_data);
    array_data.append(&mut bulkstring_value_data);
    array_data.append(&mut array_value_data);

    let expected_value_len = array_data.len();

    array_data.append(&mut "trash".as_bytes().to_vec());

    let origin = RespInternalValue::Array(vec![
        RespInternalValue::Nil,
        RespInternalValue::Error("Error message".to_string()),
        RespInternalValue::Status("Status message".to_string()),
        RespInternalValue::Int(-1423),
        RespInternalValue::BulkString("Bulk\r\nstring\tmessage".as_bytes().to_vec()),
        RespInternalValue::Array(vec![
            RespInternalValue::Int(1),
            RespInternalValue::Int(2),
            RespInternalValue::Int(3)
        ]),
    ]);
    let ParseResult { value, value_src_len } = parse_resp_value(&array_data).unwrap().unwrap();
    assert_eq!(origin, value);
    assert_eq!(expected_value_len, value_src_len);
}

#[test]
fn test_parse_array_empty() {
    let mut array_data: Vec<u8> = Vec::from("0\r\n");

    let expected_value_len = array_data.len();

    array_data.append(&mut "trash".as_bytes().to_vec());

    let origin = RespInternalValue::Array(Vec::new());
    let ParseResult { value, value_src_len } = parse_array(&array_data).unwrap().unwrap();
    assert_eq!(origin, value);
    assert_eq!(expected_value_len, value_src_len);
}

#[test]
fn test_parse_array_boundaries() {
    // receive an incomplete message
    assert!(
        parse_resp_value(Vec::from("*7\r").as_mut_slice()).unwrap().is_none(),
        "expected Ok(None)"
    );
    // receive an incomplete message
    assert!(
        parse_resp_value(Vec::from("*7\r\n*").as_mut_slice()).unwrap().is_none(),
        "expected Ok(None)"
    );
    // receive an incomplete message
    assert!(
        parse_resp_value(Vec::from("*1\r\n$").as_mut_slice()).unwrap().is_none(),
        "expected Ok(None)"
    );
    // receive incorrect message: array's len ends without CRLF
    assert!(parse_resp_value(Vec::from("*1\r#$").as_mut_slice()).is_err(), "expected Err");
    // receive incorrect message: array's element ends without CRLF
    assert!(parse_resp_value(Vec::from("*1\r\n:12\r$").as_mut_slice()).is_err(), "expected Err");
}
