//! The user-facing value and the fallible conversions from it into scalars,
//! text, byte sequences and nested sequences.

use vstd::prelude::*;
use vstd::utf8::{decode_utf8, valid_utf8};
use crate::decimal::spec_parse_signed;
use crate::error::{RedisError, RedisErrorKind, RedisResult};
use crate::text::string_from_utf8;

verus! {

broadcast use vstd::std_specs::vec::group_vec_axioms;

/// Mathematical model of a user-facing value.
pub enum ValueModel {
    Nil,
    Okay,
    Status(Seq<char>),
    Int(int),
    BulkString(Seq<u8>),
    Array(Seq<ValueModel>),
}

/// A value handed to callers: like a wire value, but a wire `Status("OK")`
/// is promoted to `Ok`, and a wire `Error` never appears (it is surfaced as
/// a failure instead).
#[derive(PartialEq, Eq, Debug)]
pub enum RedisValue {
    Nil,
    Okay,
    Status(String),
    Int(i64),
    BulkString(Vec<u8>),
    Array(Vec<RedisValue>),
}

/// The model of a user-facing value.
pub open spec fn value_model(v: RedisValue) -> ValueModel
    decreases v,
{
    match v {
        RedisValue::Nil => ValueModel::Nil,
        RedisValue::Okay => ValueModel::Okay,
        RedisValue::Status(s) => ValueModel::Status(s@),
        RedisValue::Int(x) => ValueModel::Int(x as int),
        RedisValue::BulkString(b) => ValueModel::BulkString(b@),
        RedisValue::Array(a) => ValueModel::Array(Seq::new(
            a@.len(),
            |i: int| if 0 <= i < a@.len() { value_model(a@[i]) } else { ValueModel::Nil },
        )),
    }
}

impl View for RedisValue {
    type V = ValueModel;

    open spec fn view(&self) -> ValueModel {
        value_model(*self)
    }
}

/// The models of a sequence of user-facing values, element by element.
pub open spec fn value_models(s: Seq<RedisValue>) -> Seq<ValueModel> {
    Seq::new(s.len(), |i: int| if 0 <= i < s.len() { value_model(s[i]) } else { ValueModel::Nil })
}

impl RedisValue {
    /// Converts a wire value into a user value; a wire `Error` anywhere in
    /// it fails with `ReceiveError` carrying the server's text.
    pub fn from_resp_value(resp_value: crate::resp_value::RespInternalValue) -> (r: RedisResult<
        RedisValue,
    >)
        ensures
            match crate::resp_value::resp_to_value(resp_value@) {
                Ok(vm) => r is Ok && r->Ok_0@ == vm,
                Err(t) => r is Err && r->Err_0.error == RedisErrorKind::ReceiveError
                    && r->Err_0.desc@ == t,
            },
    {
        resp_value.into_redis_value()
    }
}

impl Clone for RedisValue {
    fn clone(&self) -> (r: Self)
        ensures
            r@ == self@,
        decreases *self,
    {
        match self {
            RedisValue::Nil => RedisValue::Nil,
            RedisValue::Okay => RedisValue::Okay,
            RedisValue::Status(s) => RedisValue::Status(s.clone()),
            RedisValue::Int(x) => RedisValue::Int(*x),
            RedisValue::BulkString(b) => RedisValue::BulkString(
                vstd::slice::slice_to_vec(b.as_slice()),
            ),
            RedisValue::Array(a) => {
                let mut res: Vec<RedisValue> = Vec::new();
                let mut i: usize = 0;
                while i < a.len()
                    invariant
                        *self == RedisValue::Array(*a),
                        i <= a.len(),
                        res@.len() == i as int,
                        forall|j: int| 0 <= j < i ==> res@[j]@ == a@[j]@,
                    decreases a.len() - i,
                {
                    proof {
                        assert(decreases_to!(*self => self->Array_0));
                        vstd::std_specs::vec::axiom_vec_index_decreases(*a, i as int);
                    }
                    res.push(a[i].clone());
                    i = i + 1;
                }
                let r = RedisValue::Array(res);
                proof {
                    assert(r@->Array_0 =~= self@->Array_0);
                }
                r
            },
        }
    }
}

/// The value `x` wrapped into the unsigned range of a power-of-two modulus
/// `m`: plain remainder, always in `[0, m)`.
pub open spec fn wrap_unsigned(x: int, m: int) -> int {
    x % m
}

/// The value `x` wrapped into the signed two's-complement range of modulus
/// `m`: the remainder, shifted down by `m` when it reaches `m/2`.
pub open spec fn wrap_signed(x: int, m: int) -> int {
    if x % m >= m / 2 {
        x % m - m
    } else {
        x % m
    }
}

/// Negating a non-negative value reflects its remainder.
proof fn lemma_neg_mod(a: int, m: int)
    requires
        m > 0,
        a >= 0,
    ensures
        (-a) % m == (if a % m == 0 {
            0int
        } else {
            m - a % m
        }),
{
    let q = a / m;
    let rem = a % m;
    vstd::arithmetic::div_mod::lemma_fundamental_div_mod(a, m);
    if rem == 0 {
        assert(m * (-q) == -(m * q)) by (nonlinear_arith);
        vstd::arithmetic::div_mod::lemma_fundamental_div_mod_converse_mod(-a, m, -q, 0);
    } else {
        assert(m * (-q - 1) == -(m * q) - m) by (nonlinear_arith);
        vstd::arithmetic::div_mod::lemma_fundamental_div_mod_converse_mod(-a, m, -q - 1, m - rem);
    }
}

/// The 64-bit wrap of an `i64`: the bit-preserving reinterpretation.
fn wrap_i64_to_u64(x: i64) -> (r: u64)
    ensures
        r as int == (x as int) % 0x1_0000_0000_0000_0000,
{
    if x >= 0 {
        proof {
            vstd::arithmetic::div_mod::lemma_small_mod(
                x as nat,
                0x1_0000_0000_0000_0000nat,
            );
        }
        x as u64
    } else {
        let m = ((-(x + 1)) as u64) + 1;
        let r = (u64::MAX - m) + 1;
        proof {
            assert(r as int == x as int + 0x1_0000_0000_0000_0000);
            vstd::arithmetic::div_mod::lemma_mod_add_multiples_vanish(
                x as int,
                0x1_0000_0000_0000_0000,
            );
            vstd::arithmetic::div_mod::lemma_small_mod(
                (x as int + 0x1_0000_0000_0000_0000) as nat,
                0x1_0000_0000_0000_0000nat,
            );
        }
        r
    }
}

/// Reduces a 64-bit wrap to a narrower power-of-two modulus.
fn reduce_unsigned(v: u64, m: u64, Ghost(x): Ghost<int>, Ghost(cof): Ghost<int>) -> (r: u64)
    requires
        v as int == x % 0x1_0000_0000_0000_0000,
        m >= 1,
        cof >= 1,
        m as int * cof == 0x1_0000_0000_0000_0000,
    ensures
        r < m,
        r as int == x % (m as int),
{
    proof {
        vstd::arithmetic::div_mod::lemma_mod_mod(x, m as int, cof);
    }
    v % m
}

/// Shifts an unsigned wrap below 2^32 into the signed range of modulus `m`.
fn to_signed_small(w: u64, m: u64, Ghost(x): Ghost<int>) -> (r: i64)
    requires
        w as int == x % (m as int),
        2 <= m <= 0x1_0000_0000,
        w < m,
    ensures
        r as int == wrap_signed(x, m as int),
{
    if w >= m / 2 {
        (w as i64) - (m as i64)
    } else {
        w as i64
    }
}

/// Shifts a 64-bit wrap into the signed 64-bit range.
fn to_signed_64(v: u64, Ghost(x): Ghost<int>) -> (r: i64)
    requires
        v as int == x % 0x1_0000_0000_0000_0000,
    ensures
        r as int == wrap_signed(x, 0x1_0000_0000_0000_0000),
{
    if v >= 0x8000_0000_0000_0000 {
        -((u64::MAX - v) as i64) - 1
    } else {
        v as i64
    }
}

/// Reads optionally signed decimal text and wraps its value into 64 bits:
/// the value `spec_parse_signed` denotes, reduced modulo 2^64; malformed
/// text is refused.
fn parse_wrapped(s: &[u8]) -> (r: Option<u64>)
    ensures
        match spec_parse_signed(s@) {
            Some(x) => r is Some && r->Some_0 as int == x % 0x1_0000_0000_0000_0000,
            None => r is None,
        },
{
    if s.len() == 0 {
        return None;
    }
    let signed = s[0] == 0x2d || s[0] == 0x2b;
    let neg = s[0] == 0x2d;
    let ds: &[u8] = if signed {
        vstd::slice::slice_subrange(s, 1, s.len())
    } else {
        s
    };
    proof {
        if signed {
            assert(ds@ =~= s@.drop_first());
        }
    }
    if ds.len() == 0 {
        return None;
    }
    let ghost gds = ds@;
    let mut acc: u64 = 0;
    let mut i: usize = 0;
    while i < ds.len()
        invariant
            gds == ds@,
            s@.len() > 0,
            gds.len() > 0,
            gds == (if s@[0] == 0x2d || s@[0] == 0x2b {
                s@.drop_first()
            } else {
                s@
            }),
            0 <= i <= gds.len(),
            crate::decimal::all_dec_digits(gds.take(i as int)),
            acc as int == crate::decimal::dec_val(gds.take(i as int)) % 0x1_0000_0000_0000_0000,
        decreases gds.len() - i,
    {
        let b = ds[i];
        if b < 0x30 || b > 0x39 {
            proof {
                assert(!crate::decimal::is_dec_digit(gds[i as int]));
            }
            return None;
        }
        let d = (b - 0x30) as u64;
        let ghost aprev = crate::decimal::dec_val(gds.take(i as int));
        acc = acc.wrapping_mul(10).wrapping_add(d);
        proof {
            let m = 0x1_0000_0000_0000_0000int;
            let t = gds.take(i + 1);
            assert(t.drop_last() =~= gds.take(i as int));
            assert(t.last() == gds[i as int]);
            vstd::arithmetic::div_mod::lemma_mul_mod_noop_left(aprev, 10, m);
            vstd::arithmetic::div_mod::lemma_small_mod(d as nat, m as nat);
            vstd::arithmetic::div_mod::lemma_add_mod_noop(aprev * 10, d as int, m);
            let prod = (aprev * 10) % m;
            vstd::arithmetic::div_mod::lemma_mod_bound(aprev * 10, m);
            if prod + d >= m {
                vstd::arithmetic::div_mod::lemma_mod_add_multiples_vanish(prod + d - m, m);
                vstd::arithmetic::div_mod::lemma_small_mod((prod + d - m) as nat, m as nat);
            } else {
                vstd::arithmetic::div_mod::lemma_small_mod((prod + d) as nat, m as nat);
            }
            assert(acc as int == crate::decimal::dec_val(t) % m);
        }
        i = i + 1;
    }
    proof {
        assert(gds.take(gds.len() as int) =~= gds);
        crate::decimal::lemma_dec_val_nonneg(gds);
    }
    let ghost a = crate::decimal::dec_val(gds);
    if neg {
        proof {
            lemma_neg_mod(a, 0x1_0000_0000_0000_0000int);
        }
        if acc == 0 {
            Some(0)
        } else {
            Some((u64::MAX - acc) + 1)
        }
    } else {
        Some(acc)
    }
}

/// Conversion from a user-facing value into a target shape; the associated
/// spec functions say for which values the conversion is owed and what it
/// must return. Types outside this crate may implement it with the default
/// (unconstrained) specs.
pub trait FromRedisValue: Sized {
    /// Holds when `r` is the value this conversion owes for `v`.
    open spec fn conv_ok(v: ValueModel, r: &Self) -> bool {
        true
    }

    /// Holds when the conversion must fail on `v`.
    open spec fn conv_fails(v: ValueModel) -> bool {
        false
    }

    /// The error kind owed when the conversion fails on `v`.
    open spec fn conv_err_kind(v: ValueModel) -> RedisErrorKind {
        RedisErrorKind::IncorrectConversion
    }

    /// Holds when a single byte of a bulk string converts into `Self`.
    open spec fn u8_some(n: u8) -> bool {
        false
    }

    /// Holds when `r` is the value owed for the byte `n`.
    open spec fn u8_ok(n: u8, r: &Self) -> bool {
        true
    }

    fn from_redis_value(value: &RedisValue) -> (r: RedisResult<Self>)
        ensures
            match r {
                Ok(x) => !Self::conv_fails(value@) && Self::conv_ok(value@, &x),
                Err(e) => Self::conv_fails(value@) && e.error == Self::conv_err_kind(value@),
            },
    ;

    fn from_redis_u8(n: u8) -> (r: Option<Self>)
        ensures
            match r {
                Some(x) => Self::u8_some(n) && Self::u8_ok(n, &x),
                None => !Self::u8_some(n),
            },
    ;
}

/// Converts a value into the target shape, keeping the error kind and
/// prefixing the description with context.
pub fn from_redis_value<T: FromRedisValue>(value: &RedisValue) -> (r: RedisResult<T>)
    ensures
        match r {
            Ok(x) => !T::conv_fails(value@) && T::conv_ok(value@, &x),
            Err(e) => T::conv_fails(value@) && e.error == T::conv_err_kind(value@),
        },
{
    match T::from_redis_value(value) {
        Ok(x) => Ok(x),
        Err(e) => {
            let mut desc = <String as vstd::string::StringExecFns>::from_str(
                "couldn't convert the Redis value: ",
            );
            <String as vstd::string::StringExecFns>::append(&mut desc, e.description());
            Err(RedisError::new(e.error, desc))
        },
    }
}

fn conversion_error() -> (r: RedisError)
    ensures
        r.error == RedisErrorKind::IncorrectConversion,
{
    RedisError::new(
        RedisErrorKind::IncorrectConversion,
        <String as vstd::string::StringExecFns>::from_str("the value is not convertible to the target shape"),
    )
}

impl FromRedisValue for RedisValue {
    open spec fn conv_ok(v: ValueModel, r: &Self) -> bool {
        r@ == v
    }

    open spec fn conv_fails(v: ValueModel) -> bool {
        false
    }

    fn from_redis_value(value: &RedisValue) -> (r: RedisResult<Self>) {
        Ok(value.clone())
    }

    fn from_redis_u8(n: u8) -> (r: Option<Self>) {
        None
    }
}

impl FromRedisValue for String {
    open spec fn conv_ok(v: ValueModel, r: &Self) -> bool {
        match v {
            ValueModel::Status(t) => r@ == t,
            ValueModel::BulkString(b) => valid_utf8(b) && r@ == decode_utf8(b),
            _ => false,
        }
    }

    open spec fn conv_fails(v: ValueModel) -> bool {
        match v {
            ValueModel::Status(_) => false,
            ValueModel::BulkString(b) => !valid_utf8(b),
            _ => true,
        }
    }

    fn from_redis_value(value: &RedisValue) -> (r: RedisResult<Self>) {
        match value {
            RedisValue::Status(x) => Ok(x.clone()),
            RedisValue::BulkString(x) => {
                match string_from_utf8(vstd::slice::slice_to_vec(x.as_slice())) {
                    Some(s) => Ok(s),
                    None => Err(conversion_error()),
                }
            },
            _ => Err(conversion_error()),
        }
    }

    fn from_redis_u8(n: u8) -> (r: Option<Self>) {
        None
    }
}



impl FromRedisValue for u8 {
    open spec fn conv_ok(v: ValueModel, r: &Self) -> bool {
        match v {
            ValueModel::Int(x) => *r as int == wrap_unsigned(x, 0x100),
            ValueModel::BulkString(b) => match spec_parse_signed(b) {
                Some(x) => *r as int == wrap_unsigned(x, 0x100),
                None => false,
            },
            _ => false,
        }
    }

    open spec fn conv_fails(v: ValueModel) -> bool {
        match v {
            ValueModel::Int(_) => false,
            ValueModel::BulkString(b) => spec_parse_signed(b) is None,
            _ => true,
        }
    }

    open spec fn u8_some(n: u8) -> bool {
        true
    }

    open spec fn u8_ok(n: u8, r: &Self) -> bool {
        *r == n
    }

    fn from_redis_value(value: &RedisValue) -> (r: RedisResult<Self>) {
        match value {
            RedisValue::Int(x) => {
                let v = wrap_i64_to_u64(*x);
                Ok(reduce_unsigned(v, 0x100, Ghost(*x as int), Ghost(0x100_0000_0000_0000)) as u8)
            },
            RedisValue::BulkString(b) => match parse_wrapped(b.as_slice()) {
                Some(v) => {
                    let ghost x = spec_parse_signed(b@)->Some_0;
                    Ok(reduce_unsigned(v, 0x100, Ghost(x), Ghost(0x100_0000_0000_0000)) as u8)
                },
                None => Err(conversion_error()),
            },
            _ => Err(conversion_error()),
        }
    }

    fn from_redis_u8(n: u8) -> (r: Option<Self>) {
        Some(n)
    }
}

impl FromRedisValue for u16 {
    open spec fn conv_ok(v: ValueModel, r: &Self) -> bool {
        match v {
            ValueModel::Int(x) => *r as int == wrap_unsigned(x, 0x1_0000),
            ValueModel::BulkString(b) => match spec_parse_signed(b) {
                Some(x) => *r as int == wrap_unsigned(x, 0x1_0000),
                None => false,
            },
            _ => false,
        }
    }

    open spec fn conv_fails(v: ValueModel) -> bool {
        match v {
            ValueModel::Int(_) => false,
            ValueModel::BulkString(b) => spec_parse_signed(b) is None,
            _ => true,
        }
    }

    fn from_redis_value(value: &RedisValue) -> (r: RedisResult<Self>) {
        match value {
            RedisValue::Int(x) => {
                let v = wrap_i64_to_u64(*x);
                Ok(reduce_unsigned(v, 0x1_0000, Ghost(*x as int), Ghost(0x1_0000_0000_0000)) as u16)
            },
            RedisValue::BulkString(b) => match parse_wrapped(b.as_slice()) {
                Some(v) => {
                    let ghost x = spec_parse_signed(b@)->Some_0;
                    Ok(reduce_unsigned(v, 0x1_0000, Ghost(x), Ghost(0x1_0000_0000_0000)) as u16)
                },
                None => Err(conversion_error()),
            },
            _ => Err(conversion_error()),
        }
    }

    fn from_redis_u8(n: u8) -> (r: Option<Self>) {
        None
    }
}

impl FromRedisValue for u32 {
    open spec fn conv_ok(v: ValueModel, r: &Self) -> bool {
        match v {
            ValueModel::Int(x) => *r as int == wrap_unsigned(x, 0x1_0000_0000),
            ValueModel::BulkString(b) => match spec_parse_signed(b) {
                Some(x) => *r as int == wrap_unsigned(x, 0x1_0000_0000),
                None => false,
            },
            _ => false,
        }
    }

    open spec fn conv_fails(v: ValueModel) -> bool {
        match v {
            ValueModel::Int(_) => false,
            ValueModel::BulkString(b) => spec_parse_signed(b) is None,
            _ => true,
        }
    }

    fn from_redis_value(value: &RedisValue) -> (r: RedisResult<Self>) {
        match value {
            RedisValue::Int(x) => {
                let v = wrap_i64_to_u64(*x);
                Ok(reduce_unsigned(v, 0x1_0000_0000, Ghost(*x as int), Ghost(0x1_0000_0000)) as u32)
            },
            RedisValue::BulkString(b) => match parse_wrapped(b.as_slice()) {
                Some(v) => {
                    let ghost x = spec_parse_signed(b@)->Some_0;
                    Ok(reduce_unsigned(v, 0x1_0000_0000, Ghost(x), Ghost(0x1_0000_0000)) as u32)
                },
                None => Err(conversion_error()),
            },
            _ => Err(conversion_error()),
        }
    }

    fn from_redis_u8(n: u8) -> (r: Option<Self>) {
        None
    }
}

impl FromRedisValue for i8 {
    open spec fn conv_ok(v: ValueModel, r: &Self) -> bool {
        match v {
            ValueModel::Int(x) => *r as int == wrap_signed(x, 0x100),
            ValueModel::BulkString(b) => match spec_parse_signed(b) {
                Some(x) => *r as int == wrap_signed(x, 0x100),
                None => false,
            },
            _ => false,
        }
    }

    open spec fn conv_fails(v: ValueModel) -> bool {
        match v {
            ValueModel::Int(_) => false,
            ValueModel::BulkString(b) => spec_parse_signed(b) is None,
            _ => true,
        }
    }

    fn from_redis_value(value: &RedisValue) -> (r: RedisResult<Self>) {
        match value {
            RedisValue::Int(x) => {
                let v = wrap_i64_to_u64(*x);
                let w = reduce_unsigned(v, 0x100, Ghost(*x as int), Ghost(0x100_0000_0000_0000));
                Ok(to_signed_small(w, 0x100, Ghost(*x as int)) as i8)
            },
            RedisValue::BulkString(b) => match parse_wrapped(b.as_slice()) {
                Some(v) => {
                    let ghost x = spec_parse_signed(b@)->Some_0;
                    let w = reduce_unsigned(v, 0x100, Ghost(x), Ghost(0x100_0000_0000_0000));
                    Ok(to_signed_small(w, 0x100, Ghost(x)) as i8)
                },
                None => Err(conversion_error()),
            },
            _ => Err(conversion_error()),
        }
    }

    fn from_redis_u8(n: u8) -> (r: Option<Self>) {
        None
    }
}

impl FromRedisValue for i16 {
    open spec fn conv_ok(v: ValueModel, r: &Self) -> bool {
        match v {
            ValueModel::Int(x) => *r as int == wrap_signed(x, 0x1_0000),
            ValueModel::BulkString(b) => match spec_parse_signed(b) {
                Some(x) => *r as int == wrap_signed(x, 0x1_0000),
                None => false,
            },
            _ => false,
        }
    }

    open spec fn conv_fails(v: ValueModel) -> bool {
        match v {
            ValueModel::Int(_) => false,
            ValueModel::BulkString(b) => spec_parse_signed(b) is None,
            _ => true,
        }
    }

    fn from_redis_value(value: &RedisValue) -> (r: RedisResult<Self>) {
        match value {
            RedisValue::Int(x) => {
                let v = wrap_i64_to_u64(*x);
                let w = reduce_unsigned(v, 0x1_0000, Ghost(*x as int), Ghost(0x1_0000_0000_0000));
                Ok(to_signed_small(w, 0x1_0000, Ghost(*x as int)) as i16)
            },
            RedisValue::BulkString(b) => match parse_wrapped(b.as_slice()) {
                Some(v) => {
                    let ghost x = spec_parse_signed(b@)->Some_0;
                    let w = reduce_unsigned(v, 0x1_0000, Ghost(x), Ghost(0x1_0000_0000_0000));
                    Ok(to_signed_small(w, 0x1_0000, Ghost(x)) as i16)
                },
                None => Err(conversion_error()),
            },
            _ => Err(conversion_error()),
        }
    }

    fn from_redis_u8(n: u8) -> (r: Option<Self>) {
        None
    }
}

impl FromRedisValue for i32 {
    open spec fn conv_ok(v: ValueModel, r: &Self) -> bool {
        match v {
            ValueModel::Int(x) => *r as int == wrap_signed(x, 0x1_0000_0000),
            ValueModel::BulkString(b) => match spec_parse_signed(b) {
                Some(x) => *r as int == wrap_signed(x, 0x1_0000_0000),
                None => false,
            },
            _ => false,
        }
    }

    open spec fn conv_fails(v: ValueModel) -> bool {
        match v {
            ValueModel::Int(_) => false,
            ValueModel::BulkString(b) => spec_parse_signed(b) is None,
            _ => true,
        }
    }

    fn from_redis_value(value: &RedisValue) -> (r: RedisResult<Self>) {
        match value {
            RedisValue::Int(x) => {
                let v = wrap_i64_to_u64(*x);
                let w = reduce_unsigned(v, 0x1_0000_0000, Ghost(*x as int), Ghost(0x1_0000_0000));
                Ok(to_signed_small(w, 0x1_0000_0000, Ghost(*x as int)) as i32)
            },
            RedisValue::BulkString(b) => match parse_wrapped(b.as_slice()) {
                Some(v) => {
                    let ghost x = spec_parse_signed(b@)->Some_0;
                    let w = reduce_unsigned(v, 0x1_0000_0000, Ghost(x), Ghost(0x1_0000_0000));
                    Ok(to_signed_small(w, 0x1_0000_0000, Ghost(x)) as i32)
                },
                None => Err(conversion_error()),
            },
            _ => Err(conversion_error()),
        }
    }

    fn from_redis_u8(n: u8) -> (r: Option<Self>) {
        None
    }
}

impl FromRedisValue for u64 {
    open spec fn conv_ok(v: ValueModel, r: &Self) -> bool {
        match v {
            ValueModel::Int(x) => *r as int == wrap_unsigned(x, 0x1_0000_0000_0000_0000),
            ValueModel::BulkString(b) => match spec_parse_signed(b) {
                Some(x) => *r as int == wrap_unsigned(x, 0x1_0000_0000_0000_0000),
                None => false,
            },
            _ => false,
        }
    }

    open spec fn conv_fails(v: ValueModel) -> bool {
        match v {
            ValueModel::Int(_) => false,
            ValueModel::BulkString(b) => spec_parse_signed(b) is None,
            _ => true,
        }
    }

    fn from_redis_value(value: &RedisValue) -> (r: RedisResult<Self>) {
        match value {
            RedisValue::Int(x) => Ok(wrap_i64_to_u64(*x)),
            RedisValue::BulkString(b) => match parse_wrapped(b.as_slice()) {
                Some(v) => Ok(v),
                None => Err(conversion_error()),
            },
            _ => Err(conversion_error()),
        }
    }

    fn from_redis_u8(n: u8) -> (r: Option<Self>) {
        None
    }
}

impl FromRedisValue for i64 {
    open spec fn conv_ok(v: ValueModel, r: &Self) -> bool {
        match v {
            ValueModel::Int(x) => *r as int == wrap_signed(x, 0x1_0000_0000_0000_0000),
            ValueModel::BulkString(b) => match spec_parse_signed(b) {
                Some(x) => *r as int == wrap_signed(x, 0x1_0000_0000_0000_0000),
                None => false,
            },
            _ => false,
        }
    }

    open spec fn conv_fails(v: ValueModel) -> bool {
        match v {
            ValueModel::Int(_) => false,
            ValueModel::BulkString(b) => spec_parse_signed(b) is None,
            _ => true,
        }
    }

    fn from_redis_value(value: &RedisValue) -> (r: RedisResult<Self>) {
        match value {
            RedisValue::Int(x) => {
                let v = wrap_i64_to_u64(*x);
                Ok(to_signed_64(v, Ghost(*x as int)))
            },
            RedisValue::BulkString(b) => match parse_wrapped(b.as_slice()) {
                Some(v) => {
                    let ghost x = spec_parse_signed(b@)->Some_0;
                    Ok(to_signed_64(v, Ghost(x)))
                },
                None => Err(conversion_error()),
            },
            _ => Err(conversion_error()),
        }
    }

    fn from_redis_u8(n: u8) -> (r: Option<Self>) {
        None
    }
}

/// Reduces a 64-bit wrap to the machine word's unsigned range.
fn to_word_unsigned(v: u64, Ghost(x): Ghost<int>) -> (r: usize)
    requires
        v as int == x % 0x1_0000_0000_0000_0000,
    ensures
        r as int == wrap_unsigned(x, usize::MAX as int + 1),
{
    if usize::MAX as u64 == u64::MAX {
        v as usize
    } else {
        reduce_unsigned(v, 0x1_0000_0000, Ghost(x), Ghost(0x1_0000_0000)) as usize
    }
}

/// Reduces a 64-bit wrap to the machine word's signed range.
fn to_word_signed(v: u64, Ghost(x): Ghost<int>) -> (r: isize)
    requires
        v as int == x % 0x1_0000_0000_0000_0000,
    ensures
        r as int == wrap_signed(x, usize::MAX as int + 1),
{
    if usize::MAX as u64 == u64::MAX {
        to_signed_64(v, Ghost(x)) as isize
    } else {
        let w = reduce_unsigned(v, 0x1_0000_0000, Ghost(x), Ghost(0x1_0000_0000));
        to_signed_small(w, 0x1_0000_0000, Ghost(x)) as isize
    }
}

impl FromRedisValue for usize {
    open spec fn conv_ok(v: ValueModel, r: &Self) -> bool {
        match v {
            ValueModel::Int(x) => *r as int == wrap_unsigned(x, usize::MAX as int + 1),
            ValueModel::BulkString(b) => match spec_parse_signed(b) {
                Some(x) => *r as int == wrap_unsigned(x, usize::MAX as int + 1),
                None => false,
            },
            _ => false,
        }
    }

    open spec fn conv_fails(v: ValueModel) -> bool {
        match v {
            ValueModel::Int(_) => false,
            ValueModel::BulkString(b) => spec_parse_signed(b) is None,
            _ => true,
        }
    }

    fn from_redis_value(value: &RedisValue) -> (r: RedisResult<Self>) {
        match value {
            RedisValue::Int(x) => {
                let v = wrap_i64_to_u64(*x);
                Ok(to_word_unsigned(v, Ghost(*x as int)))
            },
            RedisValue::BulkString(b) => match parse_wrapped(b.as_slice()) {
                Some(v) => {
                    let ghost x = spec_parse_signed(b@)->Some_0;
                    Ok(to_word_unsigned(v, Ghost(x)))
                },
                None => Err(conversion_error()),
            },
            _ => Err(conversion_error()),
        }
    }

    fn from_redis_u8(n: u8) -> (r: Option<Self>) {
        None
    }
}

impl FromRedisValue for isize {
    open spec fn conv_ok(v: ValueModel, r: &Self) -> bool {
        match v {
            ValueModel::Int(x) => *r as int == wrap_signed(x, usize::MAX as int + 1),
            ValueModel::BulkString(b) => match spec_parse_signed(b) {
                Some(x) => *r as int == wrap_signed(x, usize::MAX as int + 1),
                None => false,
            },
            _ => false,
        }
    }

    open spec fn conv_fails(v: ValueModel) -> bool {
        match v {
            ValueModel::Int(_) => false,
            ValueModel::BulkString(b) => spec_parse_signed(b) is None,
            _ => true,
        }
    }

    fn from_redis_value(value: &RedisValue) -> (r: RedisResult<Self>) {
        match value {
            RedisValue::Int(x) => {
                let v = wrap_i64_to_u64(*x);
                Ok(to_word_signed(v, Ghost(*x as int)))
            },
            RedisValue::BulkString(b) => match parse_wrapped(b.as_slice()) {
                Some(v) => {
                    let ghost x = spec_parse_signed(b@)->Some_0;
                    Ok(to_word_signed(v, Ghost(x)))
                },
                None => Err(conversion_error()),
            },
            _ => Err(conversion_error()),
        }
    }

    fn from_redis_u8(n: u8) -> (r: Option<Self>) {
        None
    }
}

/// The error kind owed by the first failing element of a sequence.
pub open spec fn seq_conv_fail_kind<T: FromRedisValue>(vs: Seq<ValueModel>) -> RedisErrorKind
    decreases vs.len(),
{
    if vs.len() == 0 {
        RedisErrorKind::IncorrectConversion
    } else if T::conv_fails(vs[0]) {
        T::conv_err_kind(vs[0])
    } else {
        seq_conv_fail_kind::<T>(vs.drop_first())
    }
}

/// The first failing element decides the error kind of the sequence.
proof fn lemma_seq_fail_kind<T: FromRedisValue>(vs: Seq<ValueModel>, k: int)
    requires
        0 <= k < vs.len(),
        forall|j: int| 0 <= j < k ==> !T::conv_fails(#[trigger] vs[j]),
        T::conv_fails(vs[k]),
    ensures
        seq_conv_fail_kind::<T>(vs) == T::conv_err_kind(vs[k]),
    decreases k,
{
    if k > 0 {
        let rest = vs.drop_first();
        assert(forall|j: int| 0 <= j < k - 1 ==> #[trigger] rest[j] == vs[j + 1]);
        lemma_seq_fail_kind::<T>(rest, k - 1);
    }
}

impl<T: FromRedisValue> FromRedisValue for Vec<T> {
    open spec fn conv_ok(v: ValueModel, r: &Self) -> bool {
        match v {
            ValueModel::BulkString(b) => r@.len() == b.len() && forall|i: int|
                0 <= i < b.len() ==> T::u8_some(#[trigger] b[i]) && T::u8_ok(b[i], &r@[i]),
            ValueModel::Array(vs) => r@.len() == vs.len() && forall|i: int|
                0 <= i < vs.len() ==> !T::conv_fails(#[trigger] vs[i]) && T::conv_ok(
                    vs[i],
                    &r@[i],
                ),
            _ => false,
        }
    }

    open spec fn conv_fails(v: ValueModel) -> bool {
        match v {
            ValueModel::BulkString(b) => exists|i: int|
                0 <= i < b.len() && !T::u8_some(#[trigger] b[i]),
            ValueModel::Array(vs) => exists|i: int|
                0 <= i < vs.len() && T::conv_fails(#[trigger] vs[i]),
            _ => true,
        }
    }

    open spec fn conv_err_kind(v: ValueModel) -> RedisErrorKind {
        match v {
            ValueModel::Array(vs) => seq_conv_fail_kind::<T>(vs),
            _ => RedisErrorKind::IncorrectConversion,
        }
    }

    fn from_redis_value(value: &RedisValue) -> (r: RedisResult<Self>) {
        match value {
            RedisValue::BulkString(bulk) => {
                let mut result: Vec<T> = Vec::new();
                let mut i: usize = 0;
                while i < bulk.len()
                    invariant
                        *value == RedisValue::BulkString(*bulk),
                        i <= bulk.len(),
                        result@.len() == i as int,
                        forall|j: int|
                            0 <= j < i ==> T::u8_some(#[trigger] bulk@[j]) && T::u8_ok(
                                bulk@[j],
                                &result@[j],
                            ),
                    decreases bulk.len() - i,
                {
                    match T::from_redis_u8(bulk[i]) {
                        Some(x) => {
                            result.push(x);
                        },
                        None => {
                            proof {
                                let b = value@->BulkString_0;
                                assert(b == bulk@);
                                assert((i as int) < b.len() && !T::u8_some(b[i as int]));
                                assert(Self::conv_fails(value@));
                            }
                            return Err(conversion_error());
                        },
                    }
                    i = i + 1;
                }
                Ok(result)
            },
            RedisValue::Array(x) => {
                let ghost vs = value@->Array_0;
                let mut result: Vec<T> = Vec::new();
                let mut i: usize = 0;
                while i < x.len()
                    invariant
                        *value == RedisValue::Array(*x),
                        vs == value_model(*value)->Array_0,
                        vs.len() == x@.len(),
                        i <= x.len(),
                        result@.len() == i as int,
                        forall|j: int|
                            0 <= j < i ==> !T::conv_fails(#[trigger] vs[j]) && T::conv_ok(
                                vs[j],
                                &result@[j],
                            ),
                    decreases x.len() - i,
                {
                    proof {
                        assert(vs[i as int] == value_model(x@[i as int]));
                    }
                    match from_redis_value::<T>(&x[i]) {
                        Ok(v) => {
                            result.push(v);
                        },
                        Err(e) => {
                            proof {
                                assert(T::conv_fails(vs[i as int]));
                                lemma_seq_fail_kind::<T>(vs, i as int);
                            }
                            return Err(e);
                        },
                    }
                    i = i + 1;
                }
                Ok(result)
            },
            _ => Err(conversion_error()),
        }
    }

    fn from_redis_u8(n: u8) -> (r: Option<Self>) {
        None
    }
}


impl<T1: FromRedisValue, T2: FromRedisValue> FromRedisValue for (T1, T2) {
    open spec fn conv_ok(v: ValueModel, r: &Self) -> bool {
        match v {
            ValueModel::Array(vs) => vs.len() == 2 && !T1::conv_fails(vs[0]) && T1::conv_ok(
                vs[0],
                &r.0,
            ) && !T2::conv_fails(vs[1]) && T2::conv_ok(vs[1], &r.1),
            _ => false,
        }
    }

    open spec fn conv_fails(v: ValueModel) -> bool {
        match v {
            ValueModel::Array(vs) => vs.len() != 2 || T1::conv_fails(vs[0]) || T2::conv_fails(
                vs[1],
            ),
            _ => true,
        }
    }

    open spec fn conv_err_kind(v: ValueModel) -> RedisErrorKind {
        match v {
            ValueModel::Array(vs) => if vs.len() != 2 {
                RedisErrorKind::ParseError
            } else if T1::conv_fails(vs[0]) {
                T1::conv_err_kind(vs[0])
            } else {
                T2::conv_err_kind(vs[1])
            },
            _ => RedisErrorKind::IncorrectConversion,
        }
    }

    fn from_redis_value(value: &RedisValue) -> (r: RedisResult<Self>) {
        match value {
            RedisValue::Array(x) => {
                if x.len() != 2 {
                    return Err(
                        RedisError::new(
                            RedisErrorKind::ParseError,
                            <String as vstd::string::StringExecFns>::from_str(
                                "couldn't convert the value to a pair of two elements",
                            ),
                        ),
                    );
                }
                proof {
                    assert(value@->Array_0[0] == value_model(x@[0]));
                    assert(value@->Array_0[1] == value_model(x@[1]));
                }
                let first = match from_redis_value::<T1>(&x[0]) {
                    Ok(a) => a,
                    Err(e) => {
                        return Err(e);
                    },
                };
                let second = match from_redis_value::<T2>(&x[1]) {
                    Ok(b) => b,
                    Err(e) => {
                        return Err(e);
                    },
                };
                Ok((first, second))
            },
            _ => Err(conversion_error()),
        }
    }

    fn from_redis_u8(n: u8) -> (r: Option<Self>) {
        None
    }
}

/// A mapping decoded from an even-length array of alternating keys and
/// values: the pairs, in reply order.
#[derive(PartialEq, Debug)]
pub struct RedisMap<K, V> {
    pub entries: Vec<(K, V)>,
}

/// An alternating key, value, key, value ... run converts pairwise into the
/// given pairs, in order; an odd-length run converts into nothing.
pub open spec fn seq_pairs_ok<K: FromRedisValue, V: FromRedisValue>(
    kvs: Seq<ValueModel>,
    ps: Seq<(K, V)>,
) -> bool
    decreases kvs.len(),
{
    if kvs.len() == 0 {
        ps.len() == 0
    } else if kvs.len() == 1 {
        false
    } else {
        ps.len() >= 1 && !K::conv_fails(kvs[0]) && K::conv_ok(kvs[0], &ps[0].0)
            && !V::conv_fails(kvs[1]) && V::conv_ok(kvs[1], &ps[0].1) && seq_pairs_ok::<K, V>(
            kvs.skip(2),
            ps.drop_first(),
        )
    }
}

/// Whether an alternating run must fail to convert pairwise.
pub open spec fn seq_pairs_fail<K: FromRedisValue, V: FromRedisValue>(kvs: Seq<ValueModel>) -> bool
    decreases kvs.len(),
{
    if kvs.len() == 0 {
        false
    } else if kvs.len() == 1 {
        true
    } else {
        K::conv_fails(kvs[0]) || V::conv_fails(kvs[1]) || seq_pairs_fail::<K, V>(kvs.skip(2))
    }
}

/// The error kind the first failing step of an alternating run owes.
pub open spec fn seq_pairs_fail_kind<K: FromRedisValue, V: FromRedisValue>(
    kvs: Seq<ValueModel>,
) -> RedisErrorKind
    decreases kvs.len(),
{
    if kvs.len() <= 1 {
        RedisErrorKind::IncorrectConversion
    } else if K::conv_fails(kvs[0]) {
        K::conv_err_kind(kvs[0])
    } else if V::conv_fails(kvs[1]) {
        V::conv_err_kind(kvs[1])
    } else {
        seq_pairs_fail_kind::<K, V>(kvs.skip(2))
    }
}

/// Converts the alternating run of `kvs` from `i` on into pairs, as the
/// `seq_pairs` spec functions describe.
fn map_pairs_from<K: FromRedisValue, V: FromRedisValue>(kvs: &Vec<RedisValue>, i: usize) -> (r:
    RedisResult<Vec<(K, V)>>)
    requires
        i <= kvs@.len(),
    ensures
        ({
            let ms = value_models(kvs@).skip(i as int);
            if seq_pairs_fail::<K, V>(ms) {
                r is Err && r->Err_0.error == seq_pairs_fail_kind::<K, V>(ms)
            } else {
                r is Ok && seq_pairs_ok::<K, V>(ms, r->Ok_0@)
            }
        }),
    decreases kvs@.len() - i,
{
    let ghost ms = value_models(kvs@).skip(i as int);
    if kvs.len() - i == 0 {
        let out: Vec<(K, V)> = Vec::new();
        return Ok(out);
    }
    if kvs.len() - i == 1 {
        return Err(conversion_error());
    }
    proof {
        assert(ms[0] == value_model(kvs@[i as int]));
        assert(ms[1] == value_model(kvs@[i as int + 1]));
    }
    let key = match from_redis_value::<K>(&kvs[i]) {
        Ok(k) => k,
        Err(e) => {
            return Err(e);
        },
    };
    let val = match from_redis_value::<V>(&kvs[i + 1]) {
        Ok(v) => v,
        Err(e) => {
            return Err(e);
        },
    };
    proof {
        assert(ms.skip(2) =~= value_models(kvs@).skip(i as int + 2));
    }
    let rest = match map_pairs_from::<K, V>(kvs, i + 2) {
        Ok(ps) => ps,
        Err(e) => {
            return Err(e);
        },
    };
    let mut out = rest;
    let ghost tail = out@;
    out.insert(0, (key, val));
    proof {
        assert(out@.drop_first() =~= tail);
    }
    Ok(out)
}

impl<K: FromRedisValue, V: FromRedisValue> FromRedisValue for RedisMap<K, V> {
    open spec fn conv_ok(v: ValueModel, r: &Self) -> bool {
        match v {
            ValueModel::Array(kvs) => seq_pairs_ok::<K, V>(kvs, r.entries@),
            _ => false,
        }
    }

    open spec fn conv_fails(v: ValueModel) -> bool {
        match v {
            ValueModel::Array(kvs) => seq_pairs_fail::<K, V>(kvs),
            _ => true,
        }
    }

    open spec fn conv_err_kind(v: ValueModel) -> RedisErrorKind {
        match v {
            ValueModel::Array(kvs) => seq_pairs_fail_kind::<K, V>(kvs),
            _ => RedisErrorKind::IncorrectConversion,
        }
    }

    fn from_redis_value(value: &RedisValue) -> (r: RedisResult<Self>) {
        match value {
            RedisValue::Array(x) => {
                proof {
                    assert(value@->Array_0 =~= value_models(x@));
                    assert(value_models(x@).skip(0) =~= value_models(x@));
                }
                match map_pairs_from::<K, V>(x, 0) {
                    Ok(entries) => Ok(RedisMap { entries }),
                    Err(e) => Err(e),
                }
            },
            _ => Err(conversion_error()),
        }
    }

    fn from_redis_u8(n: u8) -> (r: Option<Self>) {
        None
    }
}

/// Integer coercion from a wire integer: every integer shape receives the
/// wire value wrapped to its width, and the conversion never fails.
pub proof fn lemma_integer_coercion(i: i64)
    ensures
        !<u8 as FromRedisValue>::conv_fails(ValueModel::Int(i as int)),
        !<i8 as FromRedisValue>::conv_fails(ValueModel::Int(i as int)),
        !<u16 as FromRedisValue>::conv_fails(ValueModel::Int(i as int)),
        !<i16 as FromRedisValue>::conv_fails(ValueModel::Int(i as int)),
        !<u32 as FromRedisValue>::conv_fails(ValueModel::Int(i as int)),
        !<i32 as FromRedisValue>::conv_fails(ValueModel::Int(i as int)),
        !<u64 as FromRedisValue>::conv_fails(ValueModel::Int(i as int)),
        !<i64 as FromRedisValue>::conv_fails(ValueModel::Int(i as int)),
        !<usize as FromRedisValue>::conv_fails(ValueModel::Int(i as int)),
        !<isize as FromRedisValue>::conv_fails(ValueModel::Int(i as int)),
        forall|r: u8|
            <u8 as FromRedisValue>::conv_ok(ValueModel::Int(i as int), &r) <==> r as int
                == wrap_unsigned(i as int, 0x100),
        forall|r: i8|
            <i8 as FromRedisValue>::conv_ok(ValueModel::Int(i as int), &r) <==> r as int
                == wrap_signed(i as int, 0x100),
        forall|r: u16|
            <u16 as FromRedisValue>::conv_ok(ValueModel::Int(i as int), &r) <==> r as int
                == wrap_unsigned(i as int, 0x1_0000),
        forall|r: i16|
            <i16 as FromRedisValue>::conv_ok(ValueModel::Int(i as int), &r) <==> r as int
                == wrap_signed(i as int, 0x1_0000),
        forall|r: usize|
            <usize as FromRedisValue>::conv_ok(ValueModel::Int(i as int), &r) <==> r as int
                == wrap_unsigned(i as int, usize::MAX as int + 1),
        forall|r: isize|
            <isize as FromRedisValue>::conv_ok(ValueModel::Int(i as int), &r) <==> r as int
                == wrap_signed(i as int, usize::MAX as int + 1),
        forall|r: u32|
            <u32 as FromRedisValue>::conv_ok(ValueModel::Int(i as int), &r) <==> r as int
                == wrap_unsigned(i as int, 0x1_0000_0000),
        forall|r: i32|
            <i32 as FromRedisValue>::conv_ok(ValueModel::Int(i as int), &r) <==> r as int
                == wrap_signed(i as int, 0x1_0000_0000),
        forall|r: u64|
            <u64 as FromRedisValue>::conv_ok(ValueModel::Int(i as int), &r) <==> r as int
                == wrap_unsigned(i as int, 0x1_0000_0000_0000_0000),
        forall|r: i64| <i64 as FromRedisValue>::conv_ok(ValueModel::Int(i as int), &r) <==> r == i,
{
    assert forall|r: i64|
        <i64 as FromRedisValue>::conv_ok(ValueModel::Int(i as int), &r) <==> r == i by {
        lemma_wrap_signed_identity(i);
    }
}

/// Wrapping an `i64` at 64 bits gives the value back.
proof fn lemma_wrap_signed_identity(i: i64)
    ensures
        wrap_signed(i as int, 0x1_0000_0000_0000_0000) == i as int,
{
    let m = 0x1_0000_0000_0000_0000int;
    if i >= 0 {
        vstd::arithmetic::div_mod::lemma_small_mod(i as nat, m as nat);
    } else {
        lemma_neg_mod(-(i as int), m);
        vstd::arithmetic::div_mod::lemma_small_mod((-(i as int)) as nat, m as nat);
    }
}

/// Integer coercion from decimal text: a bulk string holding the decimal
/// rendering of `i` converts exactly as the wire integer `i` does — the
/// value wrapped to the target width — for every integer shape.
pub proof fn lemma_integer_text_coercion(i: i64)
    ensures
        ({
            let b = ValueModel::BulkString(crate::decimal::dec_of_int(i as int));
            let w = ValueModel::Int(i as int);
            &&& !<u8 as FromRedisValue>::conv_fails(b)
            &&& !<i8 as FromRedisValue>::conv_fails(b)
            &&& !<u16 as FromRedisValue>::conv_fails(b)
            &&& !<i16 as FromRedisValue>::conv_fails(b)
            &&& !<u32 as FromRedisValue>::conv_fails(b)
            &&& !<i32 as FromRedisValue>::conv_fails(b)
            &&& !<u64 as FromRedisValue>::conv_fails(b)
            &&& !<i64 as FromRedisValue>::conv_fails(b)
            &&& forall|r: u8|
                <u8 as FromRedisValue>::conv_ok(b, &r) <==> <u8 as FromRedisValue>::conv_ok(w, &r)
            &&& forall|r: i8|
                <i8 as FromRedisValue>::conv_ok(b, &r) <==> <i8 as FromRedisValue>::conv_ok(w, &r)
            &&& forall|r: u16|
                <u16 as FromRedisValue>::conv_ok(b, &r) <==> <u16 as FromRedisValue>::conv_ok(
                    w,
                    &r,
                )
            &&& forall|r: i16|
                <i16 as FromRedisValue>::conv_ok(b, &r) <==> <i16 as FromRedisValue>::conv_ok(
                    w,
                    &r,
                )
            &&& forall|r: u32|
                <u32 as FromRedisValue>::conv_ok(b, &r) <==> <u32 as FromRedisValue>::conv_ok(
                    w,
                    &r,
                )
            &&& forall|r: i32|
                <i32 as FromRedisValue>::conv_ok(b, &r) <==> <i32 as FromRedisValue>::conv_ok(
                    w,
                    &r,
                )
            &&& forall|r: u64|
                <u64 as FromRedisValue>::conv_ok(b, &r) <==> <u64 as FromRedisValue>::conv_ok(
                    w,
                    &r,
                )
            &&& forall|r: i64|
                <i64 as FromRedisValue>::conv_ok(b, &r) <==> <i64 as FromRedisValue>::conv_ok(
                    w,
                    &r,
                )
            &&& forall|r: usize|
                <usize as FromRedisValue>::conv_ok(b, &r) <==> <usize as FromRedisValue>::conv_ok(
                    w,
                    &r,
                )
            &&& forall|r: isize|
                <isize as FromRedisValue>::conv_ok(b, &r) <==> <isize as FromRedisValue>::conv_ok(
                    w,
                    &r,
                )
        }),
{
    let d = crate::decimal::dec_of_int(i as int);
    crate::decimal::lemma_parse_dec_i64(i);
    crate::decimal::lemma_parse_vs_unbounded_signed(d);
    assert(spec_parse_signed(d) == Some(i as int));
}

} // verus!
