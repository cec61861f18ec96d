//! The request/response engine's decision logic: what a single-flight send
//! owes for each outcome the transport hands back.

use vstd::prelude::*;
use crate::error::{RedisError, RedisErrorKind, RedisResult};
use crate::resp_value::{resp_to_value, RespInternalValue};
use crate::value::RedisValue;

verus! {

/// Resolves one awaited response frame: a closed transport before any frame
/// is a connection failure; a frame converts to a user value, surfacing a
/// wire `Error` as a `ReceiveError` with the server's text.
pub fn response_to_redis_value(response: Option<RespInternalValue>) -> (r: RedisResult<
    RedisValue,
>)
    ensures
        match response {
            None => r is Err && r->Err_0.error == RedisErrorKind::ConnectionError,
            Some(v) => match resp_to_value(v@) {
                Ok(vm) => r is Ok && r->Ok_0@ == vm,
                Err(t) => r is Err && r->Err_0.error == RedisErrorKind::ReceiveError
                    && r->Err_0.desc@ == t,
            },
        },
{
    match response {
        Some(v) => v.into_redis_value(),
        None => Err(
            RedisError::new(
                RedisErrorKind::ConnectionError,
                <String as vstd::string::StringExecFns>::from_str(
                    "connection has closed before an answer came",
                ),
            ),
        ),
    }
}

} // verus!
