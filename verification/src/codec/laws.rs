//! Laws of the codec: encoding then decoding gives the value back, a frame
//! followed by trailing bytes decodes to exactly that frame, and no proper
//! prefix of a frame decodes to anything but a request for more bytes.

use vstd::prelude::*;
use vstd::utf8::{encode_scalar, encode_utf8, is_scalar};
use crate::codec::decode::{
    spec_decode, spec_decode_elems, spec_find_cr, spec_parse_line, DecodeOutcome, ElemsOutcome,
    LineOutcome,
};
use crate::codec::encode::{crlf, spec_encode, spec_encode_seq, wire_encodable};
use crate::decimal::{
    all_dec_digits, dec_of_int, dec_of_nat, is_dec_digit, lemma_dec_of_nat_digits,
    lemma_dec_val_of_nat, lemma_parse_dec_i64, spec_parse_i64,
};
use crate::resp_value::RespModel;

verus! {

broadcast use vstd::seq::group_seq_axioms, vstd::utf8::encode_utf8_valid_utf8, vstd::utf8::encode_utf8_decode_utf8;

/// No byte produced by OR-ing in a UTF-8 marker pattern can be a CR.
proof fn lemma_marked_byte_not_cr(x: u8)
    ensures
        (0x80u8 | x) != 0x0d,
        (0xc0u8 | x) != 0x0d,
        (0xe0u8 | x) != 0x0d,
        (0xf0u8 | x) != 0x0d,
{
    assert((0x80u8 | x) != 0x0d && (0xc0u8 | x) != 0x0d && (0xe0u8 | x) != 0x0d && (0xf0u8 | x)
        != 0x0d) by (bit_vector);
}

/// The encoding of any scalar other than CR contains no CR byte.
proof fn lemma_scalar_no_cr(v: u32)
    requires
        is_scalar(v),
        v != 0x0d,
    ensures
        forall|i: int| 0 <= i < encode_scalar(v).len() ==> #[trigger] encode_scalar(v)[i] != 0x0d,
{
    lemma_marked_byte_not_cr(((v >> 6) & 0x1F) as u8);
    lemma_marked_byte_not_cr(((v >> 6) & 0x3F) as u8);
    lemma_marked_byte_not_cr((v & 0x3F) as u8);
    lemma_marked_byte_not_cr(((v >> 12) & 0x0F) as u8);
    lemma_marked_byte_not_cr(((v >> 12) & 0x3F) as u8);
    lemma_marked_byte_not_cr(((v >> 18) & 0x7) as u8);
    if vstd::utf8::has_width_1_encoding(v) {
        assert((v & 0x7f) as u8 != 0x0d) by (bit_vector)
            requires
                v <= 0x7f && v != 0x0d,
        ;
    }
    assert forall|i: int| 0 <= i < encode_scalar(v).len() implies #[trigger] encode_scalar(v)[i]
        != 0x0d by {
        let e = encode_scalar(v);
        if vstd::utf8::has_width_1_encoding(v) {
            assert(e =~= seq![vstd::utf8::leading_byte_width_1(v)]);
            assert(e[0] == (v & 0x7f) as u8);
        } else if vstd::utf8::has_width_2_encoding(v) {
            assert(e =~= seq![
                vstd::utf8::leading_byte_width_2(v),
                vstd::utf8::last_continuation_byte(v),
            ]);
            assert(e[0] == (0xC0u8 | ((v >> 6) & 0x1F) as u8));
            assert(e[1] == (0x80u8 | (v & 0x3F) as u8));
        } else if vstd::utf8::has_width_3_encoding(v) {
            assert(e =~= seq![
                vstd::utf8::leading_byte_width_3(v),
                vstd::utf8::second_last_continuation_byte(v),
                vstd::utf8::last_continuation_byte(v),
            ]);
            assert(e[0] == (0xE0u8 | ((v >> 12) & 0x0F) as u8));
            assert(e[1] == (0x80u8 | ((v >> 6) & 0x3F) as u8));
            assert(e[2] == (0x80u8 | (v & 0x3F) as u8));
        } else {
            assert(e =~= seq![
                vstd::utf8::leading_byte_width_4(v),
                vstd::utf8::third_last_continuation_byte(v),
                vstd::utf8::second_last_continuation_byte(v),
                vstd::utf8::last_continuation_byte(v),
            ]);
            assert(e[0] == (0xF0u8 | ((v >> 18) & 0x7) as u8));
            assert(e[1] == (0x80u8 | ((v >> 12) & 0x3F) as u8));
            assert(e[2] == (0x80u8 | ((v >> 6) & 0x3F) as u8));
            assert(e[3] == (0x80u8 | (v & 0x3F) as u8));
        }
    }
}

/// UTF-8 text without a CR character encodes to bytes without a CR byte.
proof fn lemma_utf8_no_cr(t: Seq<char>)
    requires
        forall|i: int| 0 <= i < t.len() ==> #[trigger] t[i] != '\r',
    ensures
        forall|i: int| 0 <= i < encode_utf8(t).len() ==> #[trigger] encode_utf8(t)[i] != 0x0d,
    decreases t.len(),
{
    if t.len() > 0 {
        let c = t[0];
        vstd::utf8::char_is_scalar(c);
        assert(c as u32 != 0x0d) by {
            assert('\r' as u32 == 0x0d);
            vstd::utf8::char_u32_cast(c, c as u32);
            vstd::utf8::char_u32_cast('\r', 0x0d);
        }
        lemma_scalar_no_cr(c as u32);
        let rest = t.drop_first();
        assert(forall|i: int| 0 <= i < rest.len() ==> #[trigger] rest[i] != '\r');
        lemma_utf8_no_cr(rest);
        let sb = encode_scalar(c as u32);
        let rb = encode_utf8(rest);
        assert forall|i: int| 0 <= i < encode_utf8(t).len() implies #[trigger] encode_utf8(t)[i]
            != 0x0d by {
            assert(encode_utf8(t) == sb + rb);
            if i < sb.len() {
                assert(encode_utf8(t)[i] == sb[i]);
            } else {
                assert(encode_utf8(t)[i] == rb[i - sb.len()]);
            }
        }
    }
}

/// Digit bytes are never CR.
proof fn lemma_digits_no_cr(s: Seq<u8>)
    requires
        all_dec_digits(s),
    ensures
        forall|i: int| 0 <= i < s.len() ==> #[trigger] s[i] != 0x0d,
{
    assert(forall|i: int| 0 <= i < s.len() ==> is_dec_digit(#[trigger] s[i]));
}

/// The signed decimal rendering contains no CR byte.
proof fn lemma_dec_of_int_no_cr(i: int)
    ensures
        forall|k: int| 0 <= k < dec_of_int(i).len() ==> #[trigger] dec_of_int(i)[k] != 0x0d,
{
    if i < 0 {
        lemma_dec_of_nat_digits((-i) as nat);
        let d = dec_of_nat((-i) as nat);
        assert forall|k: int| 0 <= k < dec_of_int(i).len() implies #[trigger] dec_of_int(i)[k]
            != 0x0d by {
            if k == 0 {
                assert(dec_of_int(i)[0] == 0x2d);
            } else {
                assert(dec_of_int(i)[k] == d[k - 1]);
                assert(is_dec_digit(d[k - 1]));
            }
        }
    } else {
        lemma_dec_of_nat_digits(i as nat);
        assert(forall|k: int| 0 <= k < dec_of_int(i).len() ==> is_dec_digit(
            #[trigger] dec_of_int(i)[k],
        ));
    }
}

/// When the first CR of `s` stands at `k`, the finder returns `k`.
proof fn lemma_find_cr_at(s: Seq<u8>, k: int)
    requires
        0 <= k < s.len(),
        s[k] == 0x0d,
        forall|j: int| 0 <= j < k ==> #[trigger] s[j] != 0x0d,
    ensures
        spec_find_cr(s) == Some(k),
    decreases k,
{
    if k == 0 {
    } else {
        let rest = s.drop_first();
        assert(rest[k - 1] == s[k]);
        assert(forall|j: int| 0 <= j < k - 1 ==> #[trigger] rest[j] == s[j + 1]);
        lemma_find_cr_at(rest, k - 1);
    }
}

/// A line of CR-free content followed by CRLF and anything parses to
/// exactly that content.
proof fn lemma_parse_line_of(content: Seq<u8>, tail: Seq<u8>)
    requires
        forall|i: int| 0 <= i < content.len() ==> #[trigger] content[i] != 0x0d,
    ensures
        spec_parse_line(content + crlf() + tail) == LineOutcome::Line(
            content,
            content.len() as int + 2,
        ),
{
    let s = content + crlf() + tail;
    let c = content.len() as int;
    assert(s[c] == 0x0d) by {
        assert(s =~= (content + crlf()) + tail);
        assert((content + crlf())[c] == crlf()[0]);
    }
    assert(s[c + 1] == 0x0a) by {
        assert(s =~= (content + crlf()) + tail);
        assert((content + crlf())[c + 1] == crlf()[1]);
    }
    assert(forall|j: int| 0 <= j < c ==> #[trigger] s[j] == content[j]);
    lemma_find_cr_at(s, c);
    assert(s.len() == c + 2 + tail.len());
    assert(s.take(c) =~= content);
}

/// Any proper prefix of a line of CR-free content followed by CRLF is
/// incomplete.
proof fn lemma_parse_line_prefix(content: Seq<u8>, p: Seq<u8>)
    requires
        forall|i: int| 0 <= i < content.len() ==> #[trigger] content[i] != 0x0d,
        p.len() < content.len() + 2,
        forall|i: int| 0 <= i < p.len() ==> #[trigger] p[i] == (content + crlf())[i],
    ensures
        spec_parse_line(p) == LineOutcome::NeedMore,
{
    if p.len() <= content.len() {
        assert(forall|i: int| 0 <= i < p.len() ==> #[trigger] p[i] != 0x0d);
        match spec_find_cr(p) {
            Some(i) => {
                crate::codec::decode::lemma_find_cr(p);
                assert(false);
            },
            None => {},
        }
    } else {
        let c = content.len() as int;
        assert(p.len() == c + 1);
        assert(p[c] == (content + crlf())[c]);
        assert((content + crlf())[c] == crlf()[0]);
        assert(forall|j: int| 0 <= j < c ==> #[trigger] p[j] == content[j]);
        lemma_find_cr_at(p, c);
    }
}

/// `i64` parsing accepts the bare digits of any value up to `i64::MAX`.
proof fn lemma_parse_dec_i64_of_nat(n: nat)
    requires
        n <= i64::MAX,
    ensures
        spec_parse_i64(dec_of_nat(n)) == Some(n as i64),
{
    lemma_parse_dec_i64(n as i64);
    assert(dec_of_int(n as i64 as int) == dec_of_nat(n));
}

/// Every encoding is non-empty.
proof fn lemma_encode_pos(m: RespModel)
    ensures
        spec_encode(m).len() >= 1,
{
    match m {
        RespModel::Nil => {},
        RespModel::Error(_) => {},
        RespModel::Status(_) => {},
        RespModel::Int(_) => {},
        RespModel::BulkString(_) => {},
        RespModel::Array(_) => {},
    }
}

/// Round trip with trailing bytes: the encoding of an encodable value,
/// followed by anything at all, decodes to exactly that value, consuming
/// exactly the encoding.
#[verifier::rlimit(80)]
pub proof fn lemma_decode_encode(m: RespModel, t: Seq<u8>)
    requires
        wire_encodable(m),
    ensures
        spec_decode(spec_encode(m) + t) == DecodeOutcome::Frame(
            m,
            spec_encode(m).len() as int,
        ),
    decreases m,
{
    let s = spec_encode(m) + t;
    match m {
        RespModel::Nil => {
            let d = dec_of_int(-1);
            assert(s[0] == 0x24) by {
                assert(s =~= (seq![0x24u8] + d + crlf()) + t);
            }
            assert(s.drop_first() =~= d + crlf() + t);
            lemma_dec_of_int_no_cr(-1);
            lemma_parse_line_of(d, t);
            lemma_parse_dec_i64(-1i64);
            assert(dec_of_int(-1i64 as int) == d);
            assert(spec_encode(m).len() == 1 + d.len() + 2);
        },
        RespModel::Error(text) => {
            let u = encode_utf8(text);
            assert(s[0] == 0x2d) by {
                assert(s =~= (seq![0x2du8] + u + crlf()) + t);
            }
            assert(s.drop_first() =~= u + crlf() + t);
            lemma_utf8_no_cr(text);
            lemma_parse_line_of(u, t);
        },
        RespModel::Status(text) => {
            let u = encode_utf8(text);
            assert(s[0] == 0x2b) by {
                assert(s =~= (seq![0x2bu8] + u + crlf()) + t);
            }
            assert(s.drop_first() =~= u + crlf() + t);
            lemma_utf8_no_cr(text);
            lemma_parse_line_of(u, t);
        },
        RespModel::Int(iv) => {
            let d = dec_of_int(iv);
            assert(s[0] == 0x3a) by {
                assert(s =~= (seq![0x3au8] + d + crlf()) + t);
            }
            assert(s.drop_first() =~= d + crlf() + t);
            lemma_dec_of_int_no_cr(iv);
            lemma_parse_line_of(d, t);
            lemma_parse_dec_i64(iv as i64);
            assert(dec_of_int(iv as i64 as int) == d);
        },
        RespModel::BulkString(b) => {
            let d = dec_of_nat(b.len());
            let rest = s.drop_first();
            assert(s[0] == 0x24) by {
                assert(s =~= (seq![0x24u8] + d + crlf() + b + crlf()) + t);
            }
            assert(rest =~= d + crlf() + (b + crlf() + t));
            lemma_dec_of_nat_digits(b.len());
            lemma_digits_no_cr(d);
            lemma_parse_line_of(d, b + crlf() + t);
            lemma_parse_dec_i64_of_nat(b.len());
            let n = d.len() as int + 2;
            let blen = b.len() as int;
            assert(rest.len() == n + blen + 2 + t.len());
            let pre = d + crlf() + b;
            assert(rest =~= pre + (crlf() + t));
            assert(rest[n + blen] == 0x0d) by {
                assert((pre + (crlf() + t))[pre.len() as int] == (crlf() + t)[0]);
            }
            assert(rest[n + blen + 1] == 0x0a) by {
                assert((pre + (crlf() + t))[pre.len() as int + 1] == (crlf() + t)[1]);
            }
            assert(rest.subrange(n, n + blen) =~= b) by {
                assert(forall|j: int| 0 <= j < blen ==> #[trigger] pre[n + j] == b[j]);
            }
            assert(spec_encode(m).len() == n + blen + 2 + 1);
        },
        RespModel::Array(vs) => {
            let d = dec_of_nat(vs.len());
            let es = spec_encode_seq(vs);
            let rest = s.drop_first();
            assert(s[0] == 0x2a) by {
                assert(s =~= (seq![0x2au8] + d + crlf() + es) + t);
            }
            assert(rest =~= d + crlf() + (es + t));
            lemma_dec_of_nat_digits(vs.len());
            lemma_digits_no_cr(d);
            lemma_parse_line_of(d, es + t);
            lemma_parse_dec_i64_of_nat(vs.len());
            let n = d.len() as int + 2;
            assert(rest.skip(n) =~= es + t);
            lemma_decode_encode_elems(vs, t);
            assert(spec_encode(m).len() == 1 + n + es.len());
        },
    }
}

/// Round trip for a run of frames: the concatenated encodings of encodable
/// values, followed by anything, decode element by element to those values.
pub proof fn lemma_decode_encode_elems(vs: Seq<RespModel>, t: Seq<u8>)
    requires
        forall|i: int| 0 <= i < vs.len() ==> wire_encodable(#[trigger] vs[i]),
    ensures
        spec_decode_elems(spec_encode_seq(vs) + t, vs.len() as int) == ElemsOutcome::Elems(
            vs,
            spec_encode_seq(vs).len() as int,
        ),
    decreases vs,
{
    if vs.len() == 0 {
        assert(spec_encode_seq(vs) + t =~= t);
        assert(vs =~= Seq::<RespModel>::empty());
    } else {
        let head = vs[0];
        let rest = vs.drop_first();
        let e0 = spec_encode(head);
        let es = spec_encode_seq(rest);
        let s = spec_encode_seq(vs) + t;
        assert(s =~= e0 + (es + t));
        lemma_decode_encode(head, es + t);
        lemma_encode_pos(head);
        assert(s.skip(e0.len() as int) =~= es + t);
        lemma_decode_encode_elems(rest, t);
        assert(seq![head] + rest =~= vs);
        assert(spec_encode_seq(vs).len() == e0.len() + es.len());
    }
}

/// Round trip: decoding the encoding of an encodable value yields the value
/// and consumes the whole encoding.
pub proof fn lemma_round_trip(m: RespModel)
    requires
        wire_encodable(m),
    ensures
        spec_decode(spec_encode(m)) == DecodeOutcome::Frame(m, spec_encode(m).len() as int),
{
    lemma_decode_encode(m, Seq::empty());
    assert(spec_encode(m) + Seq::<u8>::empty() =~= spec_encode(m));
}

/// Incremental parsing: every proper prefix of the encoding of an encodable
/// value decodes to a request for more bytes.
pub proof fn lemma_decode_prefix(m: RespModel, p: Seq<u8>)
    requires
        wire_encodable(m),
        p.len() < spec_encode(m).len(),
        forall|i: int| 0 <= i < p.len() ==> #[trigger] p[i] == spec_encode(m)[i],
    ensures
        spec_decode(p) == DecodeOutcome::NeedMore,
    decreases m,
{
    if p.len() == 0 {
    } else {
        let e = spec_encode(m);
        let pd = p.drop_first();
        assert(p[0] == e[0]);
        match m {
            RespModel::Nil => {
                let d = dec_of_int(-1);
                assert(e =~= seq![0x24u8] + (d + crlf()));
                assert(p[0] == 0x24);
                lemma_dec_of_int_no_cr(-1);
                assert(forall|i: int| 0 <= i < pd.len() ==> #[trigger] pd[i] == (d + crlf())[i]);
                lemma_parse_line_prefix(d, pd);
            },
            RespModel::Error(text) => {
                let u = encode_utf8(text);
                assert(e =~= seq![0x2du8] + (u + crlf()));
                assert(p[0] == 0x2d);
                lemma_utf8_no_cr(text);
                assert(forall|i: int| 0 <= i < pd.len() ==> #[trigger] pd[i] == (u + crlf())[i]);
                lemma_parse_line_prefix(u, pd);
            },
            RespModel::Status(text) => {
                let u = encode_utf8(text);
                assert(e =~= seq![0x2bu8] + (u + crlf()));
                assert(p[0] == 0x2b);
                lemma_utf8_no_cr(text);
                assert(forall|i: int| 0 <= i < pd.len() ==> #[trigger] pd[i] == (u + crlf())[i]);
                lemma_parse_line_prefix(u, pd);
            },
            RespModel::Int(iv) => {
                let d = dec_of_int(iv);
                assert(e =~= seq![0x3au8] + (d + crlf()));
                assert(p[0] == 0x3a);
                lemma_dec_of_int_no_cr(iv);
                assert(forall|i: int| 0 <= i < pd.len() ==> #[trigger] pd[i] == (d + crlf())[i]);
                lemma_parse_line_prefix(d, pd);
            },
            RespModel::BulkString(b) => {
                let d = dec_of_nat(b.len());
                let body = d + crlf() + (b + crlf());
                assert(e =~= seq![0x24u8] + body);
                assert(p[0] == 0x24);
                lemma_dec_of_nat_digits(b.len());
                lemma_digits_no_cr(d);
                assert(forall|i: int| 0 <= i < pd.len() ==> #[trigger] pd[i] == body[i]);
                let n = d.len() as int + 2;
                if pd.len() < n {
                    assert(forall|i: int| 0 <= i < pd.len() ==> #[trigger] pd[i] == (d
                        + crlf())[i]) by {
                        assert(body =~= (d + crlf()) + (b + crlf()));
                    }
                    lemma_parse_line_prefix(d, pd);
                } else {
                    assert(pd.take(n) =~= d + crlf()) by {
                        assert(body =~= (d + crlf()) + (b + crlf()));
                    }
                    assert(forall|i: int| 0 <= i < d.len() ==> #[trigger] pd[i] == d[i]);
                    assert(pd[d.len() as int] == 0x0d && pd[d.len() as int + 1] == 0x0a) by {
                        assert(body =~= (d + crlf()) + (b + crlf()));
                        assert(((d + crlf()) + (b + crlf()))[d.len() as int] == (d
                            + crlf())[d.len() as int]);
                        assert(((d + crlf()) + (b + crlf()))[d.len() as int + 1] == (d
                            + crlf())[d.len() as int + 1]);
                    }
                    lemma_find_cr_at(pd, d.len() as int);
                    assert(spec_parse_line(pd) == LineOutcome::Line(pd.take(d.len() as int), n));
                    assert(pd.take(d.len() as int) =~= d);
                    lemma_parse_dec_i64_of_nat(b.len());
                    assert(pd.len() < n + b.len() + 2);
                }
            },
            RespModel::Array(vs) => {
                let d = dec_of_nat(vs.len());
                let es = spec_encode_seq(vs);
                let body = d + crlf() + es;
                assert(e =~= seq![0x2au8] + body);
                assert(p[0] == 0x2a);
                lemma_dec_of_nat_digits(vs.len());
                lemma_digits_no_cr(d);
                assert(forall|i: int| 0 <= i < pd.len() ==> #[trigger] pd[i] == body[i]);
                let n = d.len() as int + 2;
                if pd.len() < n {
                    assert(forall|i: int| 0 <= i < pd.len() ==> #[trigger] pd[i] == (d
                        + crlf())[i]) by {
                        assert(body =~= (d + crlf()) + es);
                    }
                    lemma_parse_line_prefix(d, pd);
                } else {
                    assert(pd.take(n) =~= d + crlf()) by {
                        assert(body =~= (d + crlf()) + es);
                    }
                    assert(forall|i: int| 0 <= i < d.len() ==> #[trigger] pd[i] == d[i]);
                    assert(pd[d.len() as int] == 0x0d && pd[d.len() as int + 1] == 0x0a) by {
                        assert(body =~= (d + crlf()) + es);
                        assert(((d + crlf()) + es)[d.len() as int] == (d + crlf())[d.len() as int]);
                        assert(((d + crlf()) + es)[d.len() as int + 1] == (d + crlf())[d.len() as int
                            + 1]);
                    }
                    lemma_find_cr_at(pd, d.len() as int);
                    assert(spec_parse_line(pd) == LineOutcome::Line(pd.take(d.len() as int), n));
                    assert(pd.take(d.len() as int) =~= d);
                    lemma_parse_dec_i64_of_nat(vs.len());
                    let q = pd.skip(n);
                    assert(forall|i: int| 0 <= i < q.len() ==> #[trigger] q[i] == es[i]) by {
                        assert(body =~= (d + crlf()) + es);
                        assert(forall|i: int| 0 <= i < q.len() ==> #[trigger] q[i] == pd[n + i]);
                    }
                    assert(q.len() < es.len());
                    lemma_elems_prefix(vs, q);
                }
            },
        }
    }
}

/// Incremental parsing for a run of frames: a proper prefix of the
/// concatenated encodings is incomplete.
proof fn lemma_elems_prefix(vs: Seq<RespModel>, q: Seq<u8>)
    requires
        forall|i: int| 0 <= i < vs.len() ==> wire_encodable(#[trigger] vs[i]),
        q.len() < spec_encode_seq(vs).len(),
        forall|i: int| 0 <= i < q.len() ==> #[trigger] q[i] == spec_encode_seq(vs)[i],
    ensures
        spec_decode_elems(q, vs.len() as int) == ElemsOutcome::NeedMore,
    decreases vs,
{
    assert(vs.len() > 0);
    let head = vs[0];
    let rest = vs.drop_first();
    let e0 = spec_encode(head);
    let es = spec_encode_seq(rest);
    assert(spec_encode_seq(vs) == e0 + es);
    if q.len() < e0.len() {
        assert(forall|i: int| 0 <= i < q.len() ==> #[trigger] q[i] == e0[i]) by {
            assert(forall|i: int| 0 <= i < q.len() ==> (e0 + es)[i] == e0[i]);
        }
        lemma_decode_prefix(head, q);
    } else {
        let tail = q.skip(e0.len() as int);
        assert(q =~= e0 + tail) by {
            assert(forall|i: int| 0 <= i < e0.len() ==> #[trigger] q[i] == e0[i]);
        }
        lemma_decode_encode(head, tail);
        lemma_encode_pos(head);
        assert(forall|i: int| 0 <= i < tail.len() ==> #[trigger] tail[i] == es[i]) by {
            assert(forall|i: int| 0 <= i < tail.len() ==> tail[i] == q[e0.len() + i]);
            assert(forall|i: int| 0 <= i < tail.len() ==> (e0 + es)[e0.len() + i] == es[i]);
        }
        assert(tail.len() < es.len());
        lemma_elems_prefix(rest, tail);
        assert(q.skip(e0.len() as int) == tail);
    }
}

} // verus!
