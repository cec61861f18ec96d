//! The codec as the framing layer drives it: encoding appends to a growable
//! byte buffer, decoding splits one complete frame off its front.

use vstd::prelude::*;
use bytes::BytesMut;
use crate::codec::decode::{parse_resp_value, spec_decode, DecodeOutcome};
use crate::codec::encode::{encode_resp_value, spec_encode};
use crate::error::{RedisError, RedisErrorKind};
use crate::resp_value::RespInternalValue;

verus! {

#[verifier::external_type_specification]
#[verifier::external_body]
pub struct ExBytesMut(BytesMut);

/// The bytes a buffer holds, front to back.
pub uninterp spec fn bytes_view(b: BytesMut) -> Seq<u8>;

/// Relies on `BytesMut::as_ref`: the buffer's contents as a slice.
#[verifier::external_body]
pub fn bytes_as_slice(b: &BytesMut) -> (r: &[u8])
    ensures
        r@ == bytes_view(*b),
{
    b.as_ref()
}

/// Relies on `BytesMut::split_to`: removes the first `n` bytes, which it
/// hands back as a buffer of their own. Panics when `n` exceeds the length,
/// so that case is excluded here.
#[verifier::external_body]
pub fn bytes_split_to(b: &mut BytesMut, n: usize) -> (r: BytesMut)
    requires
        n <= bytes_view(*old(b)).len(),
    ensures
        bytes_view(*final(b)) == bytes_view(*old(b)).skip(n as int),
        bytes_view(r) == bytes_view(*old(b)).take(n as int),
{
    b.split_to(n)
}

/// Relies on `BytesMut::extend_from_slice`: appends the bytes to the back.
#[verifier::external_body]
pub fn bytes_extend(b: &mut BytesMut, s: &[u8])
    ensures
        bytes_view(*final(b)) == bytes_view(*old(b)) + s@,
{
    b.extend_from_slice(s)
}

/// The stateless RESP codec: serialises wire values into a buffer and takes
/// one complete frame at a time off a receive buffer.
pub struct RedisCodec;

impl RedisCodec {
    /// Appends the encoding of `item` to `dst`; never fails.
    pub fn encode(&mut self, item: RespInternalValue, dst: &mut BytesMut) -> (r: Result<
        (),
        RedisError,
    >)
        ensures
            bytes_view(*final(dst)) == bytes_view(*old(dst)) + spec_encode(item@),
            r is Ok,
    {
        let encoded = encode_resp_value(item);
        bytes_extend(dst, encoded.as_slice());
        Ok(())
    }

    /// Takes one complete frame off the front of `buf`: on success exactly
    /// the frame's bytes are consumed; an incomplete frame consumes nothing
    /// and yields `None`; a malformed frame is an error and consumes
    /// nothing.
    pub fn decode(&mut self, buf: &mut BytesMut) -> (r: Result<
        Option<RespInternalValue>,
        RedisError,
    >)
        ensures
            match spec_decode(bytes_view(*old(buf))) {
                DecodeOutcome::NeedMore => r is Ok && r->Ok_0 is None && bytes_view(*final(buf))
                    == bytes_view(*old(buf)),
                DecodeOutcome::Fail => r is Err && r->Err_0.error == RedisErrorKind::ParseError
                    && bytes_view(*final(buf)) == bytes_view(*old(buf)),
                DecodeOutcome::Frame(m, n) => r is Ok && r->Ok_0 is Some && r->Ok_0->Some_0@ == m
                    && bytes_view(*final(buf)) == bytes_view(*old(buf)).skip(n),
            },
    {
        let parsed = {
            let s = bytes_as_slice(buf);
            parse_resp_value(s)
        };
        match parsed {
            Err(e) => Err(e),
            Ok(None) => Ok(None),
            Ok(Some(pr)) => {
                let _rest = bytes_split_to(buf, pr.value_src_len);
                Ok(Some(pr.value))
            },
        }
    }
}

} // verus!
