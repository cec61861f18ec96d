//! Producer-side options and the exact argv of the append command.

use vstd::prelude::*;
use crate::command::{arg_bytes, command, ArgModel, IntoRedisArgument, RedisCommand};
use crate::error::{RedisErrorKind, RedisResult};
use crate::resp_value::RespModel;
use crate::stream::consume::bulk_text;
use crate::stream::entry::{spec_entry_id_chars, spec_parse_entry_id, text_of, EntryId};
use crate::value::RedisValue;

verus! {

broadcast use vstd::std_specs::vec::group_vec_axioms, vstd::seq::group_seq_axioms;

/// Options of an append: the stream, and optionally an explicit entry id;
/// without one the server assigns the id.
#[derive(Clone)]
pub struct SendEntryOptions {
    pub(crate) stream: String,
    pub(crate) entry_id: Option<EntryId>,
}

/// Model of append options.
pub struct SendEntryModel {
    pub stream: Seq<char>,
    pub entry_id: Option<EntryId>,
}

impl View for SendEntryOptions {
    type V = SendEntryModel;

    closed spec fn view(&self) -> SendEntryModel {
        SendEntryModel {
            stream: self.stream@,
            entry_id: match self.entry_id {
                Some(id) => Some(id),
                None => None,
            },
        }
    }
}

impl SendEntryOptions {
    pub fn new(stream: String) -> (r: SendEntryOptions)
        ensures
            r@.stream == stream@,
            r@.entry_id is None,
    {
        SendEntryOptions { stream, entry_id: None }
    }

    pub fn with_id(stream: String, entry_id: EntryId) -> (r: SendEntryOptions)
        ensures
            r@.stream == stream@,
            r@.entry_id == Some(entry_id),
    {
        SendEntryOptions { stream, entry_id: Some(entry_id) }
    }
}

/// The models of a run of key-value arguments.
pub open spec fn kv_models<T: IntoRedisArgument>(v: Seq<(String, T)>) -> Seq<
    (Seq<char>, ArgModel),
> {
    Seq::new(
        v.len(),
        |i: int| if 0 <= i < v.len() {
            (v[i].0@, v[i].1.arg_model())
        } else {
            (Seq::<char>::empty(), ArgModel::Bytes(Seq::empty()))
        },
    )
}

/// The argv of an append: `XADD <stream> (<id>|*)`, then the field pairs
/// flattened key, value, key, value ... in order.
pub open spec fn spec_add_command(m: SendEntryModel, kvs: Seq<(Seq<char>, ArgModel)>) -> Seq<
    RespModel,
> {
    seq![bulk_text("XADD"@), bulk_text(m.stream), bulk_text(
        match m.entry_id {
            Some(id) => spec_entry_id_chars(id.millis, id.serial),
            None => "*"@,
        },
    )] + Seq::new(
        2 * kvs.len(),
        |i: int| if 0 <= i < 2 * kvs.len() {
            if i % 2 == 0 {
                bulk_text(kvs[i / 2].0)
            } else {
                RespModel::BulkString(arg_bytes(kvs[i / 2].1))
            }
        } else {
            RespModel::Nil
        },
    )
}

/// Builds the append command, exactly as `spec_add_command` describes.
pub fn add_command<T: IntoRedisArgument>(
    options: SendEntryOptions,
    key_values: Vec<(String, T)>,
) -> (r: RedisCommand)
    ensures
        r@ == spec_add_command(options@, kv_models(key_values@)),
{
    let ghost m = options@;
    let ghost kvs = kv_models(key_values@);
    let mut cmd = command("XADD");
    cmd.arg_mut(options.stream);
    match &options.entry_id {
        Some(entry_id) => {
            cmd.arg_mut(entry_id.to_string());
        },
        None => {
            cmd.arg_mut("*");
        },
    }
    let ghost pre = cmd@;
    proof {
        assert(pre =~= seq![bulk_text("XADD"@), bulk_text(m.stream), bulk_text(
            match m.entry_id {
                Some(id) => spec_entry_id_chars(id.millis, id.serial),
                None => "*"@,
            },
        )]);
    }
    let mut rest = key_values;
    let ghost mut i: int = 0;
    let ghost total = kvs.len();
    while rest.len() > 0
        invariant
            pre == seq![bulk_text("XADD"@), bulk_text(m.stream), bulk_text(
                match m.entry_id {
                    Some(id) => spec_entry_id_chars(id.millis, id.serial),
                    None => "*"@,
                },
            )],
            total == kvs.len(),
            0 <= i <= total,
            rest@.len() == total - i,
            forall|j: int|
                0 <= j < rest@.len() ==> (#[trigger] rest@[j]).0@ == kvs[i + j].0 && rest@[j].1.arg_model()
                    == kvs[i + j].1,
            cmd@.len() == pre.len() + 2 * i,
            forall|j: int| 0 <= j < pre.len() ==> #[trigger] cmd@[j] == pre[j],
            forall|j: int|
                pre.len() <= j < pre.len() + 2 * i ==> #[trigger] cmd@[j] == (if (j - pre.len())
                    % 2 == 0 {
                    bulk_text(kvs[(j - pre.len()) / 2].0)
                } else {
                    RespModel::BulkString(arg_bytes(kvs[(j - pre.len()) / 2].1))
                }),
        decreases rest@.len(),
    {
        let ghost prev = rest@;
        let kv = rest.remove(0);
        proof {
            assert(kv.0@ == kvs[i].0 && kv.1.arg_model() == kvs[i].1);
            assert(rest@ =~= prev.subrange(1, prev.len() as int));
            assert(forall|j: int| 0 <= j < rest@.len() ==> #[trigger] rest@[j] == prev[j + 1]);
        }
        cmd.arg_mut(kv.0);
        cmd.arg_mut(kv.1);
        proof {
            i = i + 1;
        }
    }
    proof {
        assert(cmd@ =~= spec_add_command(m, kvs));
    }
    cmd
}

/// Reads the entry id an XADD reply carries: textual reply holding a valid
/// id; anything else fails.
pub fn entry_id_from_response(response: &RedisValue) -> (r: RedisResult<EntryId>)
    ensures
        match text_of(response@) {
            None => r is Err && r->Err_0.error == RedisErrorKind::IncorrectConversion,
            Some(t) => match spec_parse_entry_id(t) {
                None => r is Err && r->Err_0.error == RedisErrorKind::ParseError,
                Some(id) => r == Ok::<EntryId, crate::error::RedisError>(id),
            },
        },
{
    let text = match crate::value::from_redis_value::<String>(response) {
        Ok(t) => t,
        Err(e) => {
            return Err(e);
        },
    };
    EntryId::from_string(text)
}

} // verus!
