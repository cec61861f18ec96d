//! The incremental RESP parser: on each call it yields one complete wire
//! value with the number of bytes it spans, asks for more bytes, or reports
//! a parse error, exactly as the spec-level decoder describes.

use vstd::prelude::*;
use vstd::utf8::{decode_utf8, valid_utf8};
use crate::decimal::spec_parse_i64;
use crate::decimal::parse_i64_digits;
use crate::error::{RedisError, RedisErrorKind};
use crate::resp_value::{resp_model, resp_models, RespInternalValue, RespModel};
use crate::text::string_from_utf8;

verus! {

broadcast use vstd::seq::group_seq_axioms;

/// One complete value parsed out of a byte buffer, and the count of bytes
/// it occupied there.
#[derive(Debug)]
pub struct ParseResult<T> {
    pub value: T,
    pub value_src_len: usize,
}

pub type OptParseResult<T> = Option<ParseResult<T>>;

/// Outcome of decoding one frame: more bytes are needed, the input is
/// malformed, or a value spanning `n` bytes was read.
pub enum DecodeOutcome {
    NeedMore,
    Fail,
    Frame(RespModel, int),
}

/// Outcome of reading one CRLF-terminated line.
pub enum LineOutcome {
    NeedMore,
    Fail,
    Line(Seq<u8>, int),
}

/// Outcome of decoding a run of consecutive frames.
pub enum ElemsOutcome {
    NeedMore,
    Fail,
    Elems(Seq<RespModel>, int),
}

/// The position of the first CR byte, if any.
pub open spec fn spec_find_cr(s: Seq<u8>) -> Option<int>
    decreases s.len(),
{
    if s.len() == 0 {
        None
    } else if s[0] == 0x0d {
        Some(0)
    } else {
        match spec_find_cr(s.drop_first()) {
            Some(i) => Some(i + 1),
            None => None,
        }
    }
}

/// One CRLF-terminated line: its content bytes and the bytes consumed. A CR
/// that is not followed by LF is malformed; a missing CR or LF means the
/// frame is not complete yet.
pub open spec fn spec_parse_line(s: Seq<u8>) -> LineOutcome {
    match spec_find_cr(s) {
        None => LineOutcome::NeedMore,
        Some(i) => if i >= s.len() - 1 {
            LineOutcome::NeedMore
        } else if s[i + 1] != 0x0a {
            LineOutcome::Fail
        } else {
            LineOutcome::Line(s.take(i), i + 2)
        },
    }
}

/// An error frame body: a line whose content must be UTF-8 text.
pub open spec fn spec_parse_error(s: Seq<u8>) -> DecodeOutcome {
    match spec_parse_line(s) {
        LineOutcome::NeedMore => DecodeOutcome::NeedMore,
        LineOutcome::Fail => DecodeOutcome::Fail,
        LineOutcome::Line(bytes, n) => if valid_utf8(bytes) {
            DecodeOutcome::Frame(RespModel::Error(decode_utf8(bytes)), n)
        } else {
            DecodeOutcome::Fail
        },
    }
}

/// A status frame body: a line whose content must be UTF-8 text.
pub open spec fn spec_parse_status(s: Seq<u8>) -> DecodeOutcome {
    match spec_parse_line(s) {
        LineOutcome::NeedMore => DecodeOutcome::NeedMore,
        LineOutcome::Fail => DecodeOutcome::Fail,
        LineOutcome::Line(bytes, n) => if valid_utf8(bytes) {
            DecodeOutcome::Frame(RespModel::Status(decode_utf8(bytes)), n)
        } else {
            DecodeOutcome::Fail
        },
    }
}

/// An integer frame body: a line holding a signed decimal number.
pub open spec fn spec_parse_int(s: Seq<u8>) -> DecodeOutcome {
    match spec_parse_line(s) {
        LineOutcome::NeedMore => DecodeOutcome::NeedMore,
        LineOutcome::Fail => DecodeOutcome::Fail,
        LineOutcome::Line(bytes, n) => match spec_parse_i64(bytes) {
            Some(v) => DecodeOutcome::Frame(RespModel::Int(v as int), n),
            None => DecodeOutcome::Fail,
        },
    }
}

/// A bulk string frame body: a length line, then that many payload bytes and
/// a final CRLF. A negative length is the null bulk string, complete at its
/// length line.
pub open spec fn spec_parse_bulkstring(s: Seq<u8>) -> DecodeOutcome {
    match spec_parse_line(s) {
        LineOutcome::NeedMore => DecodeOutcome::NeedMore,
        LineOutcome::Fail => DecodeOutcome::Fail,
        LineOutcome::Line(bytes, n) => match spec_parse_i64(bytes) {
            None => DecodeOutcome::Fail,
            Some(len) => if len < 0 {
                DecodeOutcome::Frame(RespModel::Nil, n)
            } else {
                if s.len() < n + len + 2 {
                    DecodeOutcome::NeedMore
                } else if s[n + len] == 0x0d && s[n + len + 1] == 0x0a {
                    DecodeOutcome::Frame(
                        RespModel::BulkString(s.subrange(n, n + len)),
                        n + len + 2,
                    )
                } else {
                    DecodeOutcome::Fail
                }
            },
        },
    }
}

/// An array frame body: a count line, then that many nested frames. A
/// negative count is the null array.
pub open spec fn spec_parse_array(s: Seq<u8>) -> DecodeOutcome
    decreases s.len(), 1int,
{
    match spec_parse_line(s) {
        LineOutcome::NeedMore => DecodeOutcome::NeedMore,
        LineOutcome::Fail => DecodeOutcome::Fail,
        LineOutcome::Line(bytes, n) => match spec_parse_i64(bytes) {
            None => DecodeOutcome::Fail,
            Some(alen) => if alen < 0 {
                DecodeOutcome::Frame(RespModel::Nil, n)
            } else if n < 1 || n > s.len() {
                DecodeOutcome::Fail
            } else {
                match spec_decode_elems(s.skip(n), alen as int) {
                    ElemsOutcome::NeedMore => DecodeOutcome::NeedMore,
                    ElemsOutcome::Fail => DecodeOutcome::Fail,
                    ElemsOutcome::Elems(vs, m) => DecodeOutcome::Frame(
                        RespModel::Array(vs),
                        n + m,
                    ),
                }
            },
        },
    }
}

/// One frame: a discriminator byte, then the variant's body. The consumed
/// count includes the discriminator.
pub open spec fn spec_decode(s: Seq<u8>) -> DecodeOutcome
    decreases s.len(), 0int,
{
    if s.len() == 0 {
        DecodeOutcome::NeedMore
    } else {
        let rest = s.drop_first();
        let sub = if s[0] == 0x2d {
            spec_parse_error(rest)
        } else if s[0] == 0x2b {
            spec_parse_status(rest)
        } else if s[0] == 0x3a {
            spec_parse_int(rest)
        } else if s[0] == 0x24 {
            spec_parse_bulkstring(rest)
        } else if s[0] == 0x2a {
            spec_parse_array(rest)
        } else {
            DecodeOutcome::Fail
        };
        match sub {
            DecodeOutcome::NeedMore => DecodeOutcome::NeedMore,
            DecodeOutcome::Fail => DecodeOutcome::Fail,
            DecodeOutcome::Frame(v, n) => DecodeOutcome::Frame(v, n + 1),
        }
    }
}

/// `count` consecutive frames; a short or malformed element propagates.
pub open spec fn spec_decode_elems(s: Seq<u8>, count: int) -> ElemsOutcome
    decreases s.len(), 1int + count,
{
    if count <= 0 {
        ElemsOutcome::Elems(Seq::empty(), 0)
    } else {
        match spec_decode(s) {
            DecodeOutcome::NeedMore => ElemsOutcome::NeedMore,
            DecodeOutcome::Fail => ElemsOutcome::Fail,
            DecodeOutcome::Frame(v, n) => if n < 1 || n > s.len() {
                ElemsOutcome::Fail
            } else {
                match spec_decode_elems(s.skip(n), count - 1) {
                    ElemsOutcome::NeedMore => ElemsOutcome::NeedMore,
                    ElemsOutcome::Fail => ElemsOutcome::Fail,
                    ElemsOutcome::Elems(vs, m) => ElemsOutcome::Elems(seq![v] + vs, n + m),
                }
            },
        }
    }
}

/// Characterises `spec_find_cr`: it returns the first CR position.
pub proof fn lemma_find_cr(s: Seq<u8>)
    ensures
        match spec_find_cr(s) {
            Some(i) => 0 <= i < s.len() && s[i] == 0x0d && forall|j: int|
                0 <= j < i ==> s[j] != 0x0d,
            None => forall|j: int| 0 <= j < s.len() ==> s[j] != 0x0d,
        },
    decreases s.len(),
{
    if s.len() > 0 && s[0] != 0x0d {
        let rest = s.drop_first();
        lemma_find_cr(rest);
        match spec_find_cr(rest) {
            Some(i) => {
                assert(s[i + 1] == rest[i]);
                assert forall|j: int| 0 <= j < i + 1 implies s[j] != 0x0d by {
                    if j > 0 {
                        assert(s[j] == rest[j - 1]);
                    }
                }
            },
            None => {
                assert forall|j: int| 0 <= j < s.len() implies s[j] != 0x0d by {
                    if j > 0 {
                        assert(s[j] == rest[j - 1]);
                    }
                }
            },
        }
    }
}

fn parse_error_message(text: &str) -> (r: RedisError)
    ensures
        r.error == RedisErrorKind::ParseError,
{
    RedisError::new(RedisErrorKind::ParseError, text.to_owned())
}

/// Finds the first CR in `data`, as `spec_find_cr` describes.
fn find_cr(data: &[u8]) -> (r: Option<usize>)
    ensures
        match r {
            Some(i) => spec_find_cr(data@) == Some(i as int),
            None => spec_find_cr(data@) is None,
        },
{
    proof {
        lemma_find_cr(data@);
    }
    let mut i: usize = 0;
    while i < data.len()
        invariant
            0 <= i <= data@.len(),
            forall|j: int| 0 <= j < i ==> data@[j] != 0x0d,
        decreases data@.len() - i,
    {
        if data[i] == 0x0d {
            proof {
                lemma_find_cr(data@);
            }
            return Some(i);
        }
        i = i + 1;
    }
    None
}

/// Reads one CRLF-terminated line, as `spec_parse_line` describes; the
/// returned length never exceeds the input length.
fn parse_line(data: &[u8]) -> (r: Result<OptParseResult<Vec<u8>>, RedisError>)
    ensures
        match spec_parse_line(data@) {
            LineOutcome::NeedMore => r is Ok && r->Ok_0 is None,
            LineOutcome::Fail => r is Err && r->Err_0.error == RedisErrorKind::ParseError,
            LineOutcome::Line(bytes, n) => r is Ok && r->Ok_0 is Some && {
                let pr = r->Ok_0->Some_0;
                pr.value@ == bytes && pr.value_src_len == n && 2 <= n <= data@.len()
            },
        },
{
    let i = match find_cr(data) {
        None => {
            return Ok(None);
        },
        Some(i) => i,
    };
    proof {
        lemma_find_cr(data@);
    }
    if i >= data.len() - 1 {
        return Ok(None);
    }
    if data[i + 1] != 0x0a {
        return Err(parse_error_message("a CR inside the frame is not followed by LF"));
    }
    let content = vstd::slice::slice_to_vec(vstd::slice::slice_subrange(data, 0, i));
    Ok(Some(ParseResult { value: content, value_src_len: i + 2 }))
}

/// Parses an error frame body, as `spec_parse_error` describes.
pub fn parse_error(data: &[u8]) -> (r: Result<OptParseResult<RespInternalValue>, RedisError>)
    ensures
        match spec_parse_error(data@) {
            DecodeOutcome::NeedMore => r is Ok && r->Ok_0 is None,
            DecodeOutcome::Fail => r is Err && r->Err_0.error == RedisErrorKind::ParseError,
            DecodeOutcome::Frame(m, n) => r is Ok && r->Ok_0 is Some && {
                let pr = r->Ok_0->Some_0;
                pr.value@ == m && pr.value_src_len == n && 1 <= n <= data@.len()
            },
        },
{
    match parse_line(data) {
        Err(e) => Err(e),
        Ok(None) => Ok(None),
        Ok(Some(pr)) => match string_from_utf8(pr.value) {
            Some(s) => Ok(
                Some(
                    ParseResult {
                        value: RespInternalValue::Error(s),
                        value_src_len: pr.value_src_len,
                    },
                ),
            ),
            None => Err(parse_error_message("an error frame does not hold UTF-8 text")),
        },
    }
}

/// Parses a status frame body, as `spec_parse_status` describes.
pub fn parse_status(data: &[u8]) -> (r: Result<OptParseResult<RespInternalValue>, RedisError>)
    ensures
        match spec_parse_status(data@) {
            DecodeOutcome::NeedMore => r is Ok && r->Ok_0 is None,
            DecodeOutcome::Fail => r is Err && r->Err_0.error == RedisErrorKind::ParseError,
            DecodeOutcome::Frame(m, n) => r is Ok && r->Ok_0 is Some && {
                let pr = r->Ok_0->Some_0;
                pr.value@ == m && pr.value_src_len == n && 1 <= n <= data@.len()
            },
        },
{
    match parse_line(data) {
        Err(e) => Err(e),
        Ok(None) => Ok(None),
        Ok(Some(pr)) => match string_from_utf8(pr.value) {
            Some(s) => Ok(
                Some(
                    ParseResult {
                        value: RespInternalValue::Status(s),
                        value_src_len: pr.value_src_len,
                    },
                ),
            ),
            None => Err(parse_error_message("a status frame does not hold UTF-8 text")),
        },
    }
}

/// Parses an integer frame body, as `spec_parse_int` describes.
pub fn parse_int(data: &[u8]) -> (r: Result<OptParseResult<RespInternalValue>, RedisError>)
    ensures
        match spec_parse_int(data@) {
            DecodeOutcome::NeedMore => r is Ok && r->Ok_0 is None,
            DecodeOutcome::Fail => r is Err && r->Err_0.error == RedisErrorKind::ParseError,
            DecodeOutcome::Frame(m, n) => r is Ok && r->Ok_0 is Some && {
                let pr = r->Ok_0->Some_0;
                pr.value@ == m && pr.value_src_len == n && 1 <= n <= data@.len()
            },
        },
{
    match parse_line(data) {
        Err(e) => Err(e),
        Ok(None) => Ok(None),
        Ok(Some(pr)) => match parse_i64_digits(pr.value.as_slice()) {
            Some(v) => Ok(
                Some(
                    ParseResult {
                        value: RespInternalValue::Int(v),
                        value_src_len: pr.value_src_len,
                    },
                ),
            ),
            None => Err(parse_error_message("an integer frame does not hold a decimal number")),
        },
    }
}

/// Parses a bulk string frame body, as `spec_parse_bulkstring` describes.
pub fn parse_bulkstring(data: &[u8]) -> (r: Result<OptParseResult<RespInternalValue>, RedisError>)
    ensures
        match spec_parse_bulkstring(data@) {
            DecodeOutcome::NeedMore => r is Ok && r->Ok_0 is None,
            DecodeOutcome::Fail => r is Err && r->Err_0.error == RedisErrorKind::ParseError,
            DecodeOutcome::Frame(m, n) => r is Ok && r->Ok_0 is Some && {
                let pr = r->Ok_0->Some_0;
                pr.value@ == m && pr.value_src_len == n && 1 <= n <= data@.len()
            },
        },
{
    let line = match parse_line(data) {
        Err(e) => {
            return Err(e);
        },
        Ok(None) => {
            return Ok(None);
        },
        Ok(Some(pr)) => pr,
    };
    let len = match parse_i64_digits(line.value.as_slice()) {
        Some(l) => l,
        None => {
            return Err(parse_error_message("a bulk string length is not a decimal number"));
        },
    };
    let n = line.value_src_len;
    if len < 0 {
        Ok(Some(ParseResult { value: RespInternalValue::Nil, value_src_len: n }))
    } else {
        if (len as u64) > (data.len() as u64) {
            return Ok(None);
        }
        let blen = len as usize;
        if data.len() - n < 2 {
            return Ok(None);
        }
        if blen > data.len() - n - 2 {
            return Ok(None);
        }
        let total = n + blen + 2;
        if data[total - 2] == 0x0d && data[total - 1] == 0x0a {
            let payload = vstd::slice::slice_to_vec(
                vstd::slice::slice_subrange(data, n, n + blen),
            );
            Ok(
                Some(
                    ParseResult {
                        value: RespInternalValue::BulkString(payload),
                        value_src_len: total,
                    },
                ),
            )
        } else {
            Err(parse_error_message("a bulk string payload does not end with CRLF"))
        }
    }
}

/// Parses an array frame body, as `spec_parse_array` describes.
pub fn parse_array(data: &[u8]) -> (r: Result<OptParseResult<RespInternalValue>, RedisError>)
    ensures
        match spec_parse_array(data@) {
            DecodeOutcome::NeedMore => r is Ok && r->Ok_0 is None,
            DecodeOutcome::Fail => r is Err && r->Err_0.error == RedisErrorKind::ParseError,
            DecodeOutcome::Frame(m, n) => r is Ok && r->Ok_0 is Some && {
                let pr = r->Ok_0->Some_0;
                pr.value@ == m && pr.value_src_len == n && 1 <= n <= data@.len()
            },
        },
    decreases data@.len(), 1int,
{
    let line = match parse_line(data) {
        Err(e) => {
            return Err(e);
        },
        Ok(None) => {
            return Ok(None);
        },
        Ok(Some(pr)) => pr,
    };
    let alen = match parse_i64_digits(line.value.as_slice()) {
        Some(l) => l,
        None => {
            return Err(parse_error_message("an array length is not a decimal number"));
        },
    };
    let n = line.value_src_len;
    if alen < 0 {
        return Ok(Some(ParseResult { value: RespInternalValue::Nil, value_src_len: n }));
    }
    let rest = vstd::slice::slice_subrange(data, n, data.len());
    proof {
        assert(rest@ =~= data@.skip(n as int));
    }
    match parse_elems(rest, alen as u64) {
        Err(e) => Err(e),
        Ok(None) => Ok(None),
        Ok(Some((vec, m))) => {
            proof {
                assert(resp_model(RespInternalValue::Array(vec))->Array_0 =~= resp_models(vec@));
            }
            Ok(
                Some(
                    ParseResult {
                        value: RespInternalValue::Array(vec),
                        value_src_len: n + m,
                    },
                ),
            )
        },
    }
}

/// Parses `count` consecutive frames, as `spec_decode_elems` describes.
fn parse_elems(data: &[u8], count: u64) -> (r: Result<
    Option<(Vec<RespInternalValue>, usize)>,
    RedisError,
>)
    ensures
        match spec_decode_elems(data@, count as int) {
            ElemsOutcome::NeedMore => r is Ok && r->Ok_0 is None,
            ElemsOutcome::Fail => r is Err && r->Err_0.error == RedisErrorKind::ParseError,
            ElemsOutcome::Elems(vs, m) => r is Ok && r->Ok_0 is Some && {
                let (vec, used) = r->Ok_0->Some_0;
                resp_models(vec@) == vs && used == m && 0 <= m <= data@.len()
            },
        },
    decreases data@.len(), 1int + count as int,
{
    if count == 0 {
        let vec: Vec<RespInternalValue> = Vec::new();
        proof {
            assert(resp_models(vec@) =~= Seq::<RespModel>::empty());
        }
        return Ok(Some((vec, 0)));
    }
    match parse_resp_value(data) {
        Err(e) => Err(e),
        Ok(None) => Ok(None),
        Ok(Some(pr)) => {
            let n = pr.value_src_len;
            let rest = vstd::slice::slice_subrange(data, n, data.len());
            proof {
                assert(rest@ =~= data@.skip(n as int));
            }
            match parse_elems(rest, count - 1) {
                Err(e) => Err(e),
                Ok(None) => Ok(None),
                Ok(Some((mut vec, m))) => {
                    let ghost tail_models = resp_models(vec@);
                    vec.insert(0, pr.value);
                    proof {
                        assert(resp_models(vec@) =~= seq![resp_model(pr.value)] + tail_models);
                    }
                    Ok(Some((vec, n + m)))
                },
            }
        },
    }
}

/// Parses one complete RESP frame from the front of `data`: a value and the
/// bytes it spans, a request for more bytes, or a parse error — exactly as
/// `spec_decode` describes.
pub fn parse_resp_value(data: &[u8]) -> (r: Result<
    OptParseResult<RespInternalValue>,
    RedisError,
>)
    ensures
        match spec_decode(data@) {
            DecodeOutcome::NeedMore => r is Ok && r->Ok_0 is None,
            DecodeOutcome::Fail => r is Err && r->Err_0.error == RedisErrorKind::ParseError,
            DecodeOutcome::Frame(m, n) => r is Ok && r->Ok_0 is Some && {
                let pr = r->Ok_0->Some_0;
                pr.value@ == m && pr.value_src_len == n && 1 <= n <= data@.len()
            },
        },
    decreases data@.len(), 0int,
{
    if data.len() == 0 {
        return Ok(None);
    }
    let id = data[0];
    let rest = vstd::slice::slice_subrange(data, 1, data.len());
    proof {
        assert(rest@ =~= data@.drop_first());
    }
    let sub = if id == 0x2d {
        parse_error(rest)
    } else if id == 0x2b {
        parse_status(rest)
    } else if id == 0x3a {
        parse_int(rest)
    } else if id == 0x24 {
        parse_bulkstring(rest)
    } else if id == 0x2a {
        parse_array(rest)
    } else {
        return Err(parse_error_message("unknown RESP start byte"));
    };
    match sub {
        Err(e) => Err(e),
        Ok(None) => Ok(None),
        Ok(Some(pr)) => Ok(
            Some(ParseResult { value: pr.value, value_src_len: pr.value_src_len + 1 }),
        ),
    }
}

} // verus!
