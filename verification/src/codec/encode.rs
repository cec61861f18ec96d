//! The RESP serialiser: the byte representation of a wire value, as a spec
//! function over models, and the verified encoder that produces it.

use vstd::prelude::*;
use vstd::utf8::encode_utf8;
use crate::decimal::{dec_of_int, dec_of_nat};
use crate::decimal::{push_dec_i64, push_dec_u64};
use crate::resp_value::{RespInternalValue, RespModel};

verus! {

broadcast use vstd::seq::group_seq_axioms;

/// The two-byte frame terminator.
pub open spec fn crlf() -> Seq<u8> {
    seq![0x0du8, 0x0au8]
}

/// The wire bytes of one value. Text is UTF-8 encoded; integers and length
/// prefixes are rendered in base 10; `Nil` is the null bulk string.
pub open spec fn spec_encode(m: RespModel) -> Seq<u8>
    decreases m,
{
    match m {
        RespModel::Nil => seq![0x24u8] + dec_of_int(-1) + crlf(),
        RespModel::Error(text) => seq![0x2du8] + encode_utf8(text) + crlf(),
        RespModel::Status(text) => seq![0x2bu8] + encode_utf8(text) + crlf(),
        RespModel::Int(i) => seq![0x3au8] + dec_of_int(i) + crlf(),
        RespModel::BulkString(b) => seq![0x24u8] + dec_of_nat(b.len()) + crlf() + b + crlf(),
        RespModel::Array(vs) => seq![0x2au8] + dec_of_nat(vs.len()) + crlf() + spec_encode_seq(vs),
    }
}

/// The concatenated wire bytes of a sequence of values.
pub open spec fn spec_encode_seq(vs: Seq<RespModel>) -> Seq<u8>
    decreases vs,
{
    if vs.len() == 0 {
        Seq::empty()
    } else {
        spec_encode(vs[0]) + spec_encode_seq(vs.drop_first())
    }
}

/// The values whose encoding decodes back to exactly the value: every wire
/// value with status and error text free of CR, and with integers and
/// lengths within the signed 64-bit range the wire carries.
pub open spec fn wire_encodable(m: RespModel) -> bool
    decreases m,
{
    match m {
        RespModel::Nil => true,
        RespModel::Error(text) => forall|i: int| 0 <= i < text.len() ==> #[trigger] text[i] != '\r',
        RespModel::Status(text) => forall|i: int|
            0 <= i < text.len() ==> #[trigger] text[i] != '\r',
        RespModel::Int(i) => i64::MIN <= i <= i64::MAX,
        RespModel::BulkString(b) => b.len() <= i64::MAX,
        RespModel::Array(vs) => vs.len() <= i64::MAX && forall|i: int|
            0 <= i < vs.len() ==> wire_encodable(#[trigger] vs[i]),
    }
}

/// Appending one more element to a sequence appends its encoding.
pub proof fn lemma_encode_seq_snoc(vs: Seq<RespModel>, v: RespModel)
    ensures
        spec_encode_seq(vs.push(v)) == spec_encode_seq(vs) + spec_encode(v),
    decreases vs.len(),
{
    if vs.len() == 0 {
        assert(vs.push(v).drop_first() =~= Seq::<RespModel>::empty());
        assert(vs.push(v)[0] == v);
        assert(spec_encode_seq(Seq::<RespModel>::empty()) == Seq::<u8>::empty());
        assert(spec_encode_seq(vs.push(v)) == spec_encode(v) + Seq::<u8>::empty());
        assert(spec_encode(v) + Seq::<u8>::empty() =~= Seq::<u8>::empty() + spec_encode(v));
    } else {
        assert(vs.push(v).drop_first() =~= vs.drop_first().push(v));
        lemma_encode_seq_snoc(vs.drop_first(), v);
        assert(spec_encode_seq(vs.push(v)) == spec_encode(vs[0]) + (spec_encode_seq(vs.drop_first())
            + spec_encode(v)));
        assert(spec_encode(vs[0]) + (spec_encode_seq(vs.drop_first()) + spec_encode(v)) =~= (
        spec_encode(vs[0]) + spec_encode_seq(vs.drop_first())) + spec_encode(v));
    }
}

/// Appends every byte of `s` to `out`.
pub fn push_all(out: &mut Vec<u8>, s: &[u8])
    ensures
        final(out)@ == old(out)@ + s@,
{
    let mut i: usize = 0;
    while i < s.len()
        invariant
            0 <= i <= s@.len(),
            out@ == old(out)@ + s@.take(i as int),
        decreases s@.len() - i,
    {
        out.push(s[i]);
        proof {
            assert((old(out)@ + s@.take(i as int)).push(s@[i as int]) =~= old(out)@ + s@.take(
                i as int + 1,
            ));
        }
        i = i + 1;
    }
    proof {
        assert(out@ == old(out)@ + s@.take(s@.len() as int));
        assert(s@.take(s@.len() as int) =~= s@);
    }
}

/// Appends the CRLF terminator.
fn push_crlf(out: &mut Vec<u8>)
    ensures
        final(out)@ == old(out)@ + crlf(),
{
    out.push(0x0d);
    out.push(0x0a);
    proof {
        assert(old(out)@.push(0x0du8).push(0x0au8) =~= old(out)@ + crlf());
    }
}

/// Appends the wire bytes of `value` to `out`.
fn push_encoded(value: &RespInternalValue, out: &mut Vec<u8>)
    ensures
        final(out)@ == old(out)@ + spec_encode(value@),
    decreases *value,
{
    match value {
        RespInternalValue::Nil => {
            out.push(0x24);
            out.push(0x2d);
            out.push(0x31);
            push_crlf(out);
            proof {
                assert(old(out)@.push(0x24u8).push(0x2du8).push(0x31u8) + crlf() =~= old(out)@
                    + spec_encode(value@));
            }
        },
        RespInternalValue::Error(s) => {
            out.push(0x2d);
            push_all(out, s.as_str().as_bytes());
            push_crlf(out);
            proof {
                assert((old(out)@.push(0x2du8) + encode_utf8(s@)) + crlf() =~= old(out)@
                    + spec_encode(value@));
            }
        },
        RespInternalValue::Status(s) => {
            out.push(0x2b);
            push_all(out, s.as_str().as_bytes());
            push_crlf(out);
            proof {
                assert((old(out)@.push(0x2bu8) + encode_utf8(s@)) + crlf() =~= old(out)@
                    + spec_encode(value@));
            }
        },
        RespInternalValue::Int(x) => {
            out.push(0x3a);
            push_dec_i64(*x, out);
            push_crlf(out);
            proof {
                assert((old(out)@.push(0x3au8) + dec_of_int(*x as int)) + crlf() =~= old(out)@
                    + spec_encode(value@));
            }
        },
        RespInternalValue::BulkString(b) => {
            out.push(0x24);
            push_dec_u64(b.len() as u64, out);
            push_crlf(out);
            push_all(out, b.as_slice());
            push_crlf(out);
            proof {
                assert((((old(out)@.push(0x24u8) + dec_of_nat(b@.len())) + crlf()) + b@) + crlf()
                    =~= old(out)@ + spec_encode(value@));
            }
        },
        RespInternalValue::Array(a) => {
            out.push(0x2a);
            push_dec_u64(a.len() as u64, out);
            push_crlf(out);
            let ghost header = old(out)@.push(0x2au8) + dec_of_nat(a@.len()) + crlf();
            proof {
                assert(out@ =~= header);
            }
            let mut i: usize = 0;
            while i < a.len()
                invariant
                    *value == RespInternalValue::Array(*a),
                    header == old(out)@.push(0x2au8) + dec_of_nat(a@.len()) + crlf(),
                    0 <= i <= a@.len(),
                    out@ == header + spec_encode_seq(value@->Array_0.take(i as int)),
                decreases a@.len() - i,
            {
                proof {
                    assert(decreases_to!(*value => value->Array_0));
                    vstd::std_specs::vec::axiom_vec_index_decreases(*a, i as int);
                }
                push_encoded(&a[i], out);
                proof {
                    let vs = value@->Array_0;
                    assert(vs.take(i as int).push(vs[i as int]) =~= vs.take(i as int + 1));
                    assert(vs[i as int] == a@[i as int]@);
                    lemma_encode_seq_snoc(vs.take(i as int), vs[i as int]);
                    assert((header + spec_encode_seq(vs.take(i as int))) + spec_encode(
                        a@[i as int]@,
                    ) =~= header + spec_encode_seq(vs.take(i as int + 1)));
                }
                i = i + 1;
            }
            proof {
                let vs = value@->Array_0;
                assert(vs.take(vs.len() as int) =~= vs);
                assert(header + spec_encode_seq(vs) =~= old(out)@ + spec_encode(value@));
            }
        },
    }
}

/// Serialises a wire value: the exact bytes are `spec_encode` of its model.
pub fn encode_resp_value(value: RespInternalValue) -> (r: Vec<u8>)
    ensures
        r@ == spec_encode(value@),
{
    let mut out: Vec<u8> = Vec::new();
    push_encoded(&value, &mut out);
    proof {
        assert(Seq::<u8>::empty() + spec_encode(value@) =~= spec_encode(value@));
    }
    out
}

} // verus!
