//! An asynchronous Redis client library specialised around Redis Streams,
//! with a verified RESP codec, command builder and reply parsers.

pub mod codec;
pub mod command;
pub mod connection;
pub mod decimal;
pub mod error;
pub mod resp_value;
pub mod stream;
pub mod text;
pub mod value;

pub use codec::{encode_resp_value, parse_resp_value, OptParseResult, ParseResult, RedisCodec};
pub use command::{command, IntoRedisArgument, RedisArgument, RedisCommand};
pub use connection::response_to_redis_value;
pub use error::{RedisError, RedisErrorKind, RedisResult};
pub use resp_value::RespInternalValue;
pub use value::{from_redis_value, FromRedisValue, RedisMap, RedisValue};
