//! The command builder: an ordered run of bulk-string arguments, serialised
//! as one RESP array whose first element is the verb.

use vstd::prelude::*;
use vstd::utf8::encode_utf8;
use crate::codec::encode::{crlf, spec_encode, spec_encode_seq};
use crate::decimal::{dec_of_int, dec_of_nat, format_i64};
use crate::resp_value::{resp_models, RespInternalValue, RespModel};

verus! {

broadcast use vstd::std_specs::vec::group_vec_axioms, vstd::seq::group_seq_axioms;

/// Model of one command argument.
pub enum ArgModel {
    Int(int),
    Text(Seq<char>),
    Bytes(Seq<u8>),
}

/// One argument of a command: an integer rendered as decimal digits, text
/// sent as its UTF-8 bytes, or raw bytes sent verbatim.
pub enum RedisArgument {
    Int(i64),
    String(String),
    Bytes(Vec<u8>),
}

impl View for RedisArgument {
    type V = ArgModel;

    open spec fn view(&self) -> ArgModel {
        match self {
            RedisArgument::Int(x) => ArgModel::Int(*x as int),
            RedisArgument::String(s) => ArgModel::Text(s@),
            RedisArgument::Bytes(b) => ArgModel::Bytes(b@),
        }
    }
}

/// The bulk-string payload an argument serialises to.
pub open spec fn arg_bytes(a: ArgModel) -> Seq<u8> {
    match a {
        ArgModel::Int(i) => dec_of_int(i),
        ArgModel::Text(t) => encode_utf8(t),
        ArgModel::Bytes(b) => b,
    }
}

/// Conversion of a plain value into a command argument. Types outside this
/// crate may implement it with the default (unconstrained) model.
pub trait IntoRedisArgument: Sized {
    /// The argument this value becomes.
    open spec fn arg_model(&self) -> ArgModel {
        ArgModel::Bytes(Seq::empty())
    }

    fn into_redis_argument(self) -> (r: RedisArgument)
        ensures
            r@ == self.arg_model(),
    ;
}

impl IntoRedisArgument for RedisArgument {
    open spec fn arg_model(&self) -> ArgModel {
        self@
    }

    fn into_redis_argument(self) -> (r: RedisArgument) {
        self
    }
}

impl IntoRedisArgument for String {
    open spec fn arg_model(&self) -> ArgModel {
        ArgModel::Text(self@)
    }

    fn into_redis_argument(self) -> (r: RedisArgument) {
        RedisArgument::String(self)
    }
}

impl IntoRedisArgument for &str {
    open spec fn arg_model(&self) -> ArgModel {
        ArgModel::Text(self@)
    }

    fn into_redis_argument(self) -> (r: RedisArgument) {
        RedisArgument::String(self.to_owned())
    }
}

impl IntoRedisArgument for Vec<u8> {
    open spec fn arg_model(&self) -> ArgModel {
        ArgModel::Bytes(self@)
    }

    fn into_redis_argument(self) -> (r: RedisArgument) {
        RedisArgument::Bytes(self)
    }
}

impl IntoRedisArgument for i64 {
    open spec fn arg_model(&self) -> ArgModel {
        ArgModel::Int(*self as int)
    }

    fn into_redis_argument(self) -> (r: RedisArgument) {
        RedisArgument::Int(self)
    }
}

impl IntoRedisArgument for u8 {
    open spec fn arg_model(&self) -> ArgModel {
        ArgModel::Int(*self as int)
    }

    fn into_redis_argument(self) -> (r: RedisArgument) {
        RedisArgument::Int(self as i64)
    }
}

impl IntoRedisArgument for i8 {
    open spec fn arg_model(&self) -> ArgModel {
        ArgModel::Int(*self as int)
    }

    fn into_redis_argument(self) -> (r: RedisArgument) {
        RedisArgument::Int(self as i64)
    }
}

impl IntoRedisArgument for u16 {
    open spec fn arg_model(&self) -> ArgModel {
        ArgModel::Int(*self as int)
    }

    fn into_redis_argument(self) -> (r: RedisArgument) {
        RedisArgument::Int(self as i64)
    }
}

impl IntoRedisArgument for i16 {
    open spec fn arg_model(&self) -> ArgModel {
        ArgModel::Int(*self as int)
    }

    fn into_redis_argument(self) -> (r: RedisArgument) {
        RedisArgument::Int(self as i64)
    }
}

impl IntoRedisArgument for u32 {
    open spec fn arg_model(&self) -> ArgModel {
        ArgModel::Int(*self as int)
    }

    fn into_redis_argument(self) -> (r: RedisArgument) {
        RedisArgument::Int(self as i64)
    }
}

impl IntoRedisArgument for i32 {
    open spec fn arg_model(&self) -> ArgModel {
        ArgModel::Int(*self as int)
    }

    fn into_redis_argument(self) -> (r: RedisArgument) {
        RedisArgument::Int(self as i64)
    }
}

impl IntoRedisArgument for u64 {
    open spec fn arg_model(&self) -> ArgModel {
        ArgModel::Int((*self as i64) as int)
    }

    fn into_redis_argument(self) -> (r: RedisArgument) {
        RedisArgument::Int(#[verifier::truncate] (self as i64))
    }
}

impl IntoRedisArgument for usize {
    open spec fn arg_model(&self) -> ArgModel {
        ArgModel::Int((*self as i64) as int)
    }

    fn into_redis_argument(self) -> (r: RedisArgument) {
        RedisArgument::Int(#[verifier::truncate] (self as i64))
    }
}

impl RedisArgument {
    /// The bulk string this argument serialises to.
    pub fn into_resp_value(self) -> (r: RespInternalValue)
        ensures
            r@ == RespModel::BulkString(arg_bytes(self@)),
    {
        match self {
            RedisArgument::Int(x) => RespInternalValue::BulkString(format_i64(x)),
            RedisArgument::String(x) => RespInternalValue::BulkString(
                x.as_str().as_bytes_vec(),
            ),
            RedisArgument::Bytes(x) => RespInternalValue::BulkString(x),
        }
    }
}

/// A command under construction: the ordered arguments, each a bulk string.
#[derive(Clone)]
pub struct RedisCommand {
    args: Vec<RespInternalValue>,
}

impl View for RedisCommand {
    type V = Seq<RespModel>;

    closed spec fn view(&self) -> Seq<RespModel> {
        resp_models(self.args@)
    }
}

/// Starts a command with the given verb as its first bulk-string argument.
pub fn command(cmd: &str) -> (r: RedisCommand)
    ensures
        r@ == seq![RespModel::BulkString(encode_utf8(cmd@))],
{
    RedisCommand::cmd(cmd)
}

impl RedisCommand {
    pub(crate) fn new() -> (r: RedisCommand)
        ensures
            r@ == Seq::<RespModel>::empty(),
    {
        let r = RedisCommand { args: Vec::new() };
        proof {
            assert(r@ =~= Seq::<RespModel>::empty());
        }
        r
    }

    pub(crate) fn cmd(cmd: &str) -> (r: RedisCommand)
        ensures
            r@ == seq![RespModel::BulkString(encode_utf8(cmd@))],
    {
        let mut args: Vec<RespInternalValue> = Vec::new();
        args.push(RespInternalValue::BulkString(cmd.as_bytes_vec()));
        let r = RedisCommand { args };
        proof {
            assert(r@ =~= seq![RespModel::BulkString(encode_utf8(cmd@))]);
        }
        r
    }

    /// Appends one argument and hands the command back.
    pub fn arg<T: IntoRedisArgument>(self, arg: T) -> (r: RedisCommand)
        ensures
            r@ == self@.push(RespModel::BulkString(arg_bytes(arg.arg_model()))),
    {
        let mut c = self;
        c.arg_mut(arg);
        c
    }

    /// Appends one argument in place.
    pub fn arg_mut<T: IntoRedisArgument>(&mut self, arg: T)
        ensures
            final(self)@ == old(self)@.push(
                RespModel::BulkString(arg_bytes(arg.arg_model())),
            ),
    {
        self.args.push(arg.into_redis_argument().into_resp_value());
        proof {
            assert(resp_models(self.args@) =~= resp_models(old(self).args@).push(
                RespModel::BulkString(arg_bytes(arg.arg_model())),
            ));
        }
    }

    /// Appends the other command's arguments after this command's own.
    pub fn append(&mut self, other: RedisCommand)
        ensures
            final(self)@ == old(self)@ + other@,
    {
        let mut rest = other.args;
        self.args.append(&mut rest);
        proof {
            assert(resp_models(self.args@) =~= resp_models(old(self).args@) + resp_models(
                other.args@,
            ));
        }
    }

    /// The wire value this command serialises as: the array of its
    /// arguments.
    pub fn into_resp_value(self) -> (r: RespInternalValue)
        ensures
            r@ == RespModel::Array(self@),
    {
        let ghost model = self@;
        let r = RespInternalValue::Array(self.args);
        proof {
            assert(r@->Array_0 =~= model);
        }
        r
    }
}

/// Command shape: a command whose first argument is the verb serialises to
/// bytes that begin with the argument count, then the verb's length and the
/// verb itself, each CRLF-terminated.
pub proof fn lemma_command_shape(verb: Seq<u8>, args: Seq<RespModel>)
    requires
        args.len() + 1 <= i64::MAX,
        verb.len() <= i64::MAX,
    ensures
        ({
            let enc = spec_encode(RespModel::Array(seq![RespModel::BulkString(verb)] + args));
            let header = seq![0x2au8] + dec_of_nat((args.len() + 1) as nat) + crlf() + seq![
                0x24u8,
            ] + dec_of_nat(verb.len()) + crlf() + verb + crlf();
            enc.len() >= header.len() && enc.take(header.len() as int) == header
        }),
{
    let all = seq![RespModel::BulkString(verb)] + args;
    let enc = spec_encode(RespModel::Array(all));
    assert(all.len() == args.len() + 1);
    assert(all[0] == RespModel::BulkString(verb));
    let e0 = spec_encode(all[0]);
    assert(e0 == seq![0x24u8] + dec_of_nat(verb.len()) + crlf() + verb + crlf());
    assert(spec_encode_seq(all) == e0 + spec_encode_seq(all.drop_first()));
    let header = seq![0x2au8] + dec_of_nat((args.len() + 1) as nat) + crlf() + seq![0x24u8]
        + dec_of_nat(verb.len()) + crlf() + verb + crlf();
    assert(enc == seq![0x2au8] + dec_of_nat(all.len()) + crlf() + spec_encode_seq(all));
    assert(enc =~= header + spec_encode_seq(all.drop_first()));
    assert(enc.take(header.len() as int) =~= header);
}

} // verus!
