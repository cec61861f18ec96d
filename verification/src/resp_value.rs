//! The wire value model: the five-variant RESP value as it travels on the
//! connection, together with its mathematical model and the conversions
//! from and to the user-facing value.

use vstd::prelude::*;
use vstd::string::StrSliceExecFns;
use crate::error::{RedisError, RedisErrorKind, RedisResult};
use crate::value::{RedisValue, ValueModel};

verus! {

broadcast use vstd::std_specs::vec::group_vec_axioms;

/// Mathematical model of a wire value: text as character sequences, byte
/// payloads as byte sequences, arrays as sequences of models.
pub enum RespModel {
    Nil,
    Error(Seq<char>),
    Status(Seq<char>),
    Int(int),
    BulkString(Seq<u8>),
    Array(Seq<RespModel>),
}

/// A value in the RESP wire grammar. `Nil` stands for the null bulk string
/// and the null array.
#[derive(PartialEq, Eq, Debug)]
pub enum RespInternalValue {
    Nil,
    Error(String),
    Status(String),
    Int(i64),
    BulkString(Vec<u8>),
    Array(Vec<RespInternalValue>),
}

/// The model of a wire value.
pub open spec fn resp_model(v: RespInternalValue) -> RespModel
    decreases v,
{
    match v {
        RespInternalValue::Nil => RespModel::Nil,
        RespInternalValue::Error(s) => RespModel::Error(s@),
        RespInternalValue::Status(s) => RespModel::Status(s@),
        RespInternalValue::Int(x) => RespModel::Int(x as int),
        RespInternalValue::BulkString(b) => RespModel::BulkString(b@),
        RespInternalValue::Array(a) => RespModel::Array(Seq::new(
            a@.len(),
            |i: int| if 0 <= i < a@.len() { resp_model(a@[i]) } else { RespModel::Nil },
        )),
    }
}

impl View for RespInternalValue {
    type V = RespModel;

    open spec fn view(&self) -> RespModel {
        resp_model(*self)
    }
}

/// The models of a run of wire values, element by element.
pub open spec fn resp_models(s: Seq<RespInternalValue>) -> Seq<RespModel> {
    Seq::new(s.len(), |i: int| if 0 <= i < s.len() { resp_model(s[i]) } else { RespModel::Nil })
}

impl Clone for RespInternalValue {
    fn clone(&self) -> (r: Self)
        ensures
            r@ == self@,
        decreases *self,
    {
        match self {
            RespInternalValue::Nil => RespInternalValue::Nil,
            RespInternalValue::Error(s) => RespInternalValue::Error(s.clone()),
            RespInternalValue::Status(s) => RespInternalValue::Status(s.clone()),
            RespInternalValue::Int(x) => RespInternalValue::Int(*x),
            RespInternalValue::BulkString(b) => RespInternalValue::BulkString(
                vstd::slice::slice_to_vec(b.as_slice()),
            ),
            RespInternalValue::Array(a) => {
                let mut res: Vec<RespInternalValue> = Vec::new();
                let mut i: usize = 0;
                while i < a.len()
                    invariant
                        *self == RespInternalValue::Array(*a),
                        i <= a.len(),
                        res@.len() == i as int,
                        forall|j: int| 0 <= j < i ==> res@[j]@ == a@[j]@,
                    decreases a.len() - i,
                {
                    proof {
                        assert(decreases_to!(*self => self->Array_0));
                        vstd::std_specs::vec::axiom_vec_index_decreases(*a, i as int);
                    }
                    res.push(a[i].clone());
                    i = i + 1;
                }
                let r = RespInternalValue::Array(res);
                proof {
                    assert(r@->Array_0 =~= self@->Array_0);
                }
                r
            }
        }
    }
}

/// The status text that is promoted to the dedicated `Okay` value.
pub open spec fn ok_text() -> Seq<char> {
    seq!['O', 'K']
}

/// What converting a wire value to a user value yields: a wire `Error`
/// anywhere in the tree fails with that error's text; `Status("OK")` is
/// promoted to `Okay`; everything else maps across unchanged.
pub open spec fn resp_to_value(m: RespModel) -> Result<ValueModel, Seq<char>>
    decreases m,
{
    match m {
        RespModel::Nil => Ok(ValueModel::Nil),
        RespModel::Error(t) => Err(t),
        RespModel::Status(t) => if t == ok_text() {
            Ok(ValueModel::Okay)
        } else {
            Ok(ValueModel::Status(t))
        },
        RespModel::Int(x) => Ok(ValueModel::Int(x)),
        RespModel::BulkString(b) => Ok(ValueModel::BulkString(b)),
        RespModel::Array(ms) => match resp_seq_to_values(ms) {
            Ok(vs) => Ok(ValueModel::Array(vs)),
            Err(t) => Err(t),
        },
    }
}

/// Element-wise conversion of a run of wire values; the first `Error` in
/// order decides the failure.
pub open spec fn resp_seq_to_values(ms: Seq<RespModel>) -> Result<Seq<ValueModel>, Seq<char>>
    decreases ms,
{
    if ms.len() == 0 {
        Ok(Seq::empty())
    } else {
        match resp_to_value(ms[0]) {
            Err(t) => Err(t),
            Ok(v) => match resp_seq_to_values(ms.drop_first()) {
                Err(t) => Err(t),
                Ok(vs) => Ok(seq![v] + vs),
            },
        }
    }
}

/// What converting a user value back to a wire value yields; `Okay` becomes
/// `Status("OK")`.
pub open spec fn value_to_resp(v: ValueModel) -> RespModel
    decreases v,
{
    match v {
        ValueModel::Nil => RespModel::Nil,
        ValueModel::Okay => RespModel::Status(ok_text()),
        ValueModel::Status(t) => RespModel::Status(t),
        ValueModel::Int(x) => RespModel::Int(x),
        ValueModel::BulkString(b) => RespModel::BulkString(b),
        ValueModel::Array(vs) => RespModel::Array(
            Seq::new(
                vs.len(),
                |i: int| if 0 <= i < vs.len() { value_to_resp(vs[i]) } else { RespModel::Nil },
            ),
        ),
    }
}

/// When every element converts, the run converts element-wise.
proof fn lemma_resp_seq_ok(ms: Seq<RespModel>)
    requires
        forall|j: int| 0 <= j < ms.len() ==> resp_to_value(#[trigger] ms[j]) is Ok,
    ensures
        resp_seq_to_values(ms) is Ok,
        resp_seq_to_values(ms)->Ok_0.len() == ms.len(),
        forall|i: int|
            0 <= i < ms.len() ==> #[trigger] resp_seq_to_values(ms)->Ok_0[i] == resp_to_value(
                ms[i],
            )->Ok_0,
    decreases ms.len(),
{
    if ms.len() > 0 {
        let rest = ms.drop_first();
        assert(forall|j: int| 0 <= j < rest.len() ==> #[trigger] rest[j] == ms[j + 1]);
        lemma_resp_seq_ok(rest);
        let v0 = resp_to_value(ms[0])->Ok_0;
        let tail = resp_seq_to_values(rest)->Ok_0;
        assert(resp_seq_to_values(ms)->Ok_0 == seq![v0] + tail);
        assert(forall|i: int|
            0 <= i < ms.len() ==> #[trigger] (seq![v0] + tail)[i] == resp_to_value(ms[i])->Ok_0);
    }
}

/// The first failing element decides the failure text of the run.
proof fn lemma_resp_seq_err(ms: Seq<RespModel>, k: int)
    requires
        0 <= k < ms.len(),
        forall|j: int| 0 <= j < k ==> resp_to_value(#[trigger] ms[j]) is Ok,
        resp_to_value(ms[k]) is Err,
    ensures
        resp_seq_to_values(ms) == Err::<Seq<ValueModel>, _>(resp_to_value(ms[k])->Err_0),
    decreases k,
{
    if k > 0 {
        let rest = ms.drop_first();
        assert(forall|j: int| 0 <= j < rest.len() ==> #[trigger] rest[j] == ms[j + 1]);
        lemma_resp_seq_err(rest, k - 1);
    }
}

/// Converts a wire value into a user value, as `resp_to_value` describes; a
/// wire `Error` becomes a `ReceiveError` carrying the error's own text.
fn convert_resp(v: &RespInternalValue) -> (r: RedisResult<RedisValue>)
    ensures
        match resp_to_value(v@) {
            Ok(vm) => r is Ok && r->Ok_0@ == vm,
            Err(t) => r is Err && r->Err_0.error == RedisErrorKind::ReceiveError
                && r->Err_0.desc@ == t,
        },
    decreases *v,
{
    match v {
        RespInternalValue::Nil => Ok(RedisValue::Nil),
        RespInternalValue::Error(x) => Err(
            RedisError::new(RedisErrorKind::ReceiveError, x.clone()),
        ),
        RespInternalValue::Status(x) => {
            let is_ok_text = x.as_str().unicode_len() == 2 && x.as_str().get_char(0) == 'O'
                && x.as_str().get_char(1) == 'K';
            proof {
                if is_ok_text {
                    assert(x@ =~= ok_text());
                } else {
                    assert(x@ != ok_text());
                }
            }
            if is_ok_text {
                Ok(RedisValue::Okay)
            } else {
                Ok(RedisValue::Status(x.clone()))
            }
        },
        RespInternalValue::Int(x) => Ok(RedisValue::Int(*x)),
        RespInternalValue::BulkString(x) => Ok(
            RedisValue::BulkString(vstd::slice::slice_to_vec(x.as_slice())),
        ),
        RespInternalValue::Array(x) => {
            let ghost ms = v@->Array_0;
            let mut res: Vec<RedisValue> = Vec::new();
            let mut i: usize = 0;
            while i < x.len()
                invariant
                    *v == RespInternalValue::Array(*x),
                    ms == resp_model(*v)->Array_0,
                    ms.len() == x@.len(),
                    i <= x.len(),
                    res@.len() == i as int,
                    forall|j: int|
                        0 <= j < i ==> resp_to_value(#[trigger] ms[j]) is Ok && res@[j]@
                            == resp_to_value(ms[j])->Ok_0,
                decreases x.len() - i,
            {
                proof {
                    assert(decreases_to!(*v => v->Array_0));
                    vstd::std_specs::vec::axiom_vec_index_decreases(*x, i as int);
                    assert(ms[i as int] == resp_model(x@[i as int]));
                }
                match convert_resp(&x[i]) {
                    Ok(converted) => {
                        res.push(converted);
                    },
                    Err(e) => {
                        proof {
                            lemma_resp_seq_err(ms, i as int);
                        }
                        return Err(e);
                    },
                }
                i = i + 1;
            }
            proof {
                lemma_resp_seq_ok(ms);
                let r = RedisValue::Array(res);
                assert(r@->Array_0 =~= resp_to_value(v@)->Ok_0->Array_0);
            }
            Ok(RedisValue::Array(res))
        },
    }
}

impl RespInternalValue {
    /// Builds the wire form of a user value, as `value_to_resp` describes.
    pub fn from_redis_value(value: RedisValue) -> (r: RespInternalValue)
        ensures
            r@ == value_to_resp(value@),
    {
        Self::of_redis_value(&value)
    }

    fn of_redis_value(value: &RedisValue) -> (r: RespInternalValue)
        ensures
            r@ == value_to_resp(value@),
        decreases *value,
    {
        match value {
            RedisValue::Nil => RespInternalValue::Nil,
            RedisValue::Okay => {
                let s = <String as vstd::string::StringExecFns>::from_str("OK");
                proof {
                    reveal_strlit("OK");
                    assert(s@ =~= ok_text());
                }
                RespInternalValue::Status(s)
            },
            RedisValue::Status(x) => RespInternalValue::Status(x.clone()),
            RedisValue::Int(x) => RespInternalValue::Int(*x),
            RedisValue::BulkString(x) => RespInternalValue::BulkString(
                vstd::slice::slice_to_vec(x.as_slice()),
            ),
            RedisValue::Array(a) => {
                let mut res: Vec<RespInternalValue> = Vec::new();
                let mut i: usize = 0;
                while i < a.len()
                    invariant
                        *value == RedisValue::Array(*a),
                        i <= a.len(),
                        res@.len() == i as int,
                        forall|j: int| 0 <= j < i ==> res@[j]@ == value_to_resp(a@[j]@),
                    decreases a.len() - i,
                {
                    proof {
                        assert(decreases_to!(*value => value->Array_0));
                        vstd::std_specs::vec::axiom_vec_index_decreases(*a, i as int);
                    }
                    res.push(Self::of_redis_value(&a[i]));
                    i = i + 1;
                }
                let r = RespInternalValue::Array(res);
                proof {
                    assert(r@->Array_0 =~= value_to_resp(value@)->Array_0);
                }
                r
            },
        }
    }

    /// Converts this wire value into a user value; a wire `Error` anywhere
    /// in it fails with `ReceiveError` carrying the server's text.
    pub fn into_redis_value(self) -> (r: RedisResult<RedisValue>)
        ensures
            match resp_to_value(self@) {
                Ok(vm) => r is Ok && r->Ok_0@ == vm,
                Err(t) => r is Err && r->Err_0.error == RedisErrorKind::ReceiveError
                    && r->Err_0.desc@ == t,
            },
    {
        convert_resp(&self)
    }
}

} // verus!
