//! The RESP codec: incremental decoding and encoding of wire values
//! against a growable byte buffer.

pub mod decode;
pub mod framed;
pub mod laws;
pub mod encode;

pub use decode::{parse_array, parse_bulkstring, parse_error, parse_int, parse_resp_value, parse_status, OptParseResult, ParseResult};
pub use encode::encode_resp_value;
pub use framed::RedisCodec;
