//! Consumer-side options, the exact argv of the read commands, and the
//! subscription engine that synthesises continuous delivery from repeated
//! blocking reads.

use vstd::prelude::*;
use vstd::utf8::encode_utf8;
use crate::command::{command, RedisCommand};
use crate::decimal::dec_of_int;
use crate::error::{RedisError, RedisErrorKind, RedisResult};
use crate::resp_value::{resp_to_value, RespInternalValue, RespModel};
use crate::stream::entry::{
    parse_stream_entries, spec_entry_id_chars, spec_parse_stream_entries, spec_range_left,
    spec_range_right, EntryId, RangeType, StreamEntry,
};

verus! {

broadcast use vstd::std_specs::vec::group_vec_axioms, vstd::seq::group_seq_axioms;

/// A bulk-string argument holding text.
pub open spec fn bulk_text(t: Seq<char>) -> RespModel {
    RespModel::BulkString(encode_utf8(t))
}

/// A bulk-string argument holding a decimal integer.
pub open spec fn bulk_int(i: int) -> RespModel {
    RespModel::BulkString(dec_of_int(i))
}

/// Bulk-string arguments for a run of texts, in order.
pub open spec fn bulk_texts(ts: Seq<Seq<char>>) -> Seq<RespModel> {
    Seq::new(ts.len(), |i: int| if 0 <= i < ts.len() { bulk_text(ts[i]) } else { RespModel::Nil })
}

/// The same bulk-string argument repeated `n` times.
pub open spec fn bulk_repeat(t: Seq<char>, n: nat) -> Seq<RespModel> {
    Seq::new(n, |i: int| bulk_text(t))
}

/// The models of a run of strings.
pub open spec fn string_models(v: Seq<String>) -> Seq<Seq<char>> {
    Seq::new(v.len(), |i: int| if 0 <= i < v.len() { v[i]@ } else { Seq::<char>::empty() })
}

/// A group descriptor: a group name and a consumer name within it.
#[derive(Clone)]
pub struct RedisGroup {
    pub(crate) group: String,
    pub(crate) consumer: String,
}

/// Model of a group descriptor.
pub struct GroupModel {
    pub group: Seq<char>,
    pub consumer: Seq<char>,
}

impl View for RedisGroup {
    type V = GroupModel;

    closed spec fn view(&self) -> GroupModel {
        GroupModel { group: self.group@, consumer: self.consumer@ }
    }
}

impl RedisGroup {
    pub fn new(group: String, consumer: String) -> (r: RedisGroup)
        ensures
            r@.group == group@,
            r@.consumer == consumer@,
    {
        RedisGroup { group, consumer }
    }
}

/// Options of a subscription: the streams to listen on and, optionally, the
/// group and consumer to read as.
#[derive(Clone)]
pub struct SubscribeOptions {
    pub(crate) streams: Vec<String>,
    pub(crate) group: Option<RedisGroup>,
}

/// Model of subscription options.
pub struct SubscribeModel {
    pub streams: Seq<Seq<char>>,
    pub group: Option<GroupModel>,
}

impl View for SubscribeOptions {
    type V = SubscribeModel;

    closed spec fn view(&self) -> SubscribeModel {
        SubscribeModel {
            streams: string_models(self.streams@),
            group: match self.group {
                Some(g) => Some(g@),
                None => None,
            },
        }
    }
}

impl SubscribeOptions {
    pub fn new(stream: Vec<String>) -> (r: SubscribeOptions)
        ensures
            r@.streams == string_models(stream@),
            r@.group is None,
    {
        SubscribeOptions { streams: stream, group: None }
    }

    pub fn with_group(stream: Vec<String>, group: RedisGroup) -> (r: SubscribeOptions)
        ensures
            r@.streams == string_models(stream@),
            r@.group == Some(group@),
    {
        SubscribeOptions { streams: stream, group: Some(group) }
    }
}

/// Options of an explicit read: streams with the ids to read after, and the
/// maximum entry count.
pub struct ReadExplicitOptions {
    pub(crate) streams: Vec<(String, EntryId)>,
    pub(crate) count: u16,
}

/// Model of explicit-read options.
pub struct ReadExplicitModel {
    pub streams: Seq<(Seq<char>, EntryId)>,
    pub count: u16,
}

/// The models of a run of stream cursors.
pub open spec fn cursor_models(v: Seq<(String, EntryId)>) -> Seq<(Seq<char>, EntryId)> {
    Seq::new(
        v.len(),
        |i: int| if 0 <= i < v.len() {
            (v[i].0@, v[i].1)
        } else {
            (Seq::<char>::empty(), EntryId { millis: 0, serial: 0 })
        },
    )
}

impl View for ReadExplicitOptions {
    type V = ReadExplicitModel;

    closed spec fn view(&self) -> ReadExplicitModel {
        ReadExplicitModel { streams: cursor_models(self.streams@), count: self.count }
    }
}

impl ReadExplicitOptions {
    pub fn new(stream: String, start_id: EntryId, count: u16) -> (r: ReadExplicitOptions)
        ensures
            r@.streams == seq![(stream@, start_id)],
            r@.count == count,
    {
        let mut streams: Vec<(String, EntryId)> = Vec::new();
        streams.push((stream, start_id));
        let r = ReadExplicitOptions { streams, count };
        proof {
            assert(r@.streams =~= seq![(stream@, start_id)]);
        }
        r
    }

    pub fn add_stream(&mut self, stream: String, start_id: EntryId)
        ensures
            final(self)@.streams == old(self)@.streams.push((stream@, start_id)),
            final(self)@.count == old(self)@.count,
    {
        self.streams.push((stream, start_id));
        proof {
            assert(self@.streams =~= old(self)@.streams.push((stream@, start_id)));
        }
    }
}

/// Options of a range read: the stream, the maximum entry count, and the
/// range of ids to cover.
#[derive(Debug)]
pub struct RangeOptions {
    pub(crate) stream: String,
    pub(crate) count: u16,
    pub(crate) range: RangeType,
}

/// Model of range options.
pub struct RangeModel {
    pub stream: Seq<char>,
    pub count: u16,
    pub range: RangeType,
}

impl View for RangeOptions {
    type V = RangeModel;

    closed spec fn view(&self) -> RangeModel {
        RangeModel { stream: self.stream@, count: self.count, range: self.range }
    }
}

impl RangeOptions {
    /// Builds range options; a bounded range whose left bound is not below
    /// its right bound is rejected with `InvalidOptions`, and every other
    /// range is accepted.
    pub fn new(stream: String, count: u16, range: RangeType) -> (r: RedisResult<RangeOptions>)
        ensures
            match r {
                Ok(o) => crate::stream::entry::spec_range_valid(range) && o@.stream == stream@
                    && o@.count == count && o@.range == range,
                Err(e) => !crate::stream::entry::spec_range_valid(range) && e.error
                    == RedisErrorKind::InvalidOptions,
            },
    {
        if !range.is_valid() {
            return Err(
                RedisError::new(
                    RedisErrorKind::InvalidOptions,
                    <String as vstd::string::StringExecFns>::from_str(
                        "the left bound should be less than the right bound",
                    ),
                ),
            );
        }
        Ok(RangeOptions { stream, count, range })
    }
}

/// The argv of the blocking read a subscription issues: `XREADGROUP GROUP
/// <group> <consumer>` or plain `XREAD`, then `BLOCK 0 STREAMS`, all the
/// stream names, and one cursor per stream — `>` with a group, `$` without.
pub open spec fn spec_subscribe_cmd(m: SubscribeModel) -> Seq<RespModel> {
    let head = match m.group {
        Some(g) => seq![
            bulk_text("XREADGROUP"@),
            bulk_text("GROUP"@),
            bulk_text(g.group),
            bulk_text(g.consumer),
        ],
        None => seq![bulk_text("XREAD"@)],
    };
    let cursor = if m.group is Some {
        ">"@
    } else {
        "$"@
    };
    head + seq![bulk_text("BLOCK"@), bulk_text("0"@), bulk_text("STREAMS"@)] + bulk_texts(
        m.streams,
    ) + bulk_repeat(cursor, m.streams.len())
}

/// Builds the subscription read command, exactly as `spec_subscribe_cmd`
/// describes.
pub fn subscribe_cmd(options: SubscribeOptions) -> (r: RedisCommand)
    ensures
        r@ == spec_subscribe_cmd(options@),
{
    subscribe_cmd_of(&options)
}

fn subscribe_cmd_of(options: &SubscribeOptions) -> (r: RedisCommand)
    ensures
        r@ == spec_subscribe_cmd(options@),
{
    let ghost m = options@;
    let mut cmd = match &options.group {
        Some(g) => {
            let mut c = command("XREADGROUP");
            c.arg_mut("GROUP");
            c.arg_mut(g.group.as_str());
            c.arg_mut(g.consumer.as_str());
            c
        },
        None => command("XREAD"),
    };
    let ghost head = cmd@;
    cmd.arg_mut("BLOCK");
    cmd.arg_mut("0");
    cmd.arg_mut("STREAMS");
    let ghost mid = cmd@;
    proof {
        assert(mid =~= head + seq![bulk_text("BLOCK"@), bulk_text("0"@), bulk_text("STREAMS"@)]);
    }
    let mut ids = RedisCommand::new();
    let mut i: usize = 0;
    while i < options.streams.len()
        invariant
            m == options@,
            m.streams.len() == options.streams@.len(),
            0 <= i <= options.streams@.len(),
            cmd@ == mid + bulk_texts(m.streams.take(i as int)),
            ids@ == bulk_repeat(if m.group is Some { ">"@ } else { "$"@ }, i as nat),
            mid == head + seq![bulk_text("BLOCK"@), bulk_text("0"@), bulk_text("STREAMS"@)],
        decreases options.streams@.len() - i,
    {
        cmd.arg_mut(options.streams[i].as_str());
        if options.group.is_some() {
            ids.arg_mut(">");
        } else {
            ids.arg_mut("$");
        }
        proof {
            assert(m.streams[i as int] == options.streams@[i as int]@);
            assert((mid + bulk_texts(m.streams.take(i as int))).push(
                bulk_text(m.streams[i as int]),
            ) =~= mid + bulk_texts(m.streams.take(i as int + 1)));
            let cursor = if m.group is Some {
                ">"@
            } else {
                "$"@
            };
            assert(bulk_repeat(cursor, i as nat).push(bulk_text(cursor)) =~= bulk_repeat(
                cursor,
                (i + 1) as nat,
            ));
        }
        i = i + 1;
    }
    cmd.append(ids);
    proof {
        assert(m.streams.take(m.streams.len() as int) =~= m.streams);
        assert(cmd@ =~= spec_subscribe_cmd(m));
    }
    cmd
}

/// The argv of an explicit read: `XREAD COUNT <n> STREAMS`, all the stream
/// names, then the start ids in the same order.
pub open spec fn spec_read_explicit_cmd(m: ReadExplicitModel) -> Seq<RespModel> {
    seq![bulk_text("XREAD"@), bulk_text("COUNT"@), bulk_int(m.count as int), bulk_text(
        "STREAMS"@,
    )] + Seq::new(
        m.streams.len(),
        |i: int| if 0 <= i < m.streams.len() {
            bulk_text(m.streams[i].0)
        } else {
            RespModel::Nil
        },
    ) + Seq::new(
        m.streams.len(),
        |i: int| if 0 <= i < m.streams.len() {
            bulk_text(spec_entry_id_chars(m.streams[i].1.millis, m.streams[i].1.serial))
        } else {
            RespModel::Nil
        },
    )
}

/// Builds the explicit read command, exactly as `spec_read_explicit_cmd`
/// describes.
pub fn read_explicit_cmd(options: ReadExplicitOptions) -> (r: RedisCommand)
    ensures
        r@ == spec_read_explicit_cmd(options@),
{
    let ghost m = options@;
    let mut cmd = command("XREAD");
    cmd.arg_mut("COUNT");
    cmd.arg_mut(options.count as i64);
    cmd.arg_mut("STREAMS");
    let ghost mid = cmd@;
    proof {
        assert(mid =~= seq![bulk_text("XREAD"@), bulk_text("COUNT"@), bulk_int(m.count as int),
            bulk_text("STREAMS"@)]);
    }
    let mut ids = RedisCommand::new();
    let mut i: usize = 0;
    while i < options.streams.len()
        invariant
            mid == seq![bulk_text("XREAD"@), bulk_text("COUNT"@), bulk_int(m.count as int),
                bulk_text("STREAMS"@)],
            m == options@,
            m.streams.len() == options.streams@.len(),
            0 <= i <= options.streams@.len(),
            cmd@.len() == mid.len() + i,
            forall|j: int| 0 <= j < mid.len() ==> #[trigger] cmd@[j] == mid[j],
            forall|j: int|
                mid.len() <= j < mid.len() + i ==> #[trigger] cmd@[j] == bulk_text(
                    m.streams[j - mid.len()].0,
                ),
            ids@.len() == i as int,
            forall|j: int|
                0 <= j < i ==> #[trigger] ids@[j] == bulk_text(
                    spec_entry_id_chars(m.streams[j].1.millis, m.streams[j].1.serial),
                ),
        decreases options.streams@.len() - i,
    {
        proof {
            assert(m.streams[i as int] == (options.streams@[i as int].0@,
            options.streams@[i as int].1));
        }
        cmd.arg_mut(options.streams[i].0.as_str());
        let id_text = options.streams[i].1.to_string();
        ids.arg_mut(id_text);
        i = i + 1;
    }
    let ghost pre = cmd@;
    cmd.append(ids);
    proof {
        let names = Seq::new(
            m.streams.len(),
            |j: int| if 0 <= j < m.streams.len() {
                bulk_text(m.streams[j].0)
            } else {
                RespModel::Nil
            },
        );
        let idparts = Seq::new(
            m.streams.len(),
            |j: int| if 0 <= j < m.streams.len() {
                bulk_text(spec_entry_id_chars(m.streams[j].1.millis, m.streams[j].1.serial))
            } else {
                RespModel::Nil
            },
        );
        assert(ids@ =~= idparts);
        assert(pre =~= mid + names);
        assert(cmd@ =~= (mid + names) + idparts);
        assert((mid + names) + idparts =~= spec_read_explicit_cmd(m));
    }
    cmd
}

/// The argv of a range read: `XRANGE <stream> <lo> <hi> COUNT <n>`.
pub open spec fn spec_range_cmd(m: RangeModel) -> Seq<RespModel> {
    seq![
        bulk_text("XRANGE"@),
        bulk_text(m.stream),
        bulk_text(spec_range_left(m.range)),
        bulk_text(spec_range_right(m.range)),
        bulk_text("COUNT"@),
        bulk_int(m.count as int),
    ]
}

/// Builds the range read command, exactly as `spec_range_cmd` describes.
pub fn range_cmd(options: RangeOptions) -> (r: RedisCommand)
    ensures
        r@ == spec_range_cmd(options@),
{
    let ghost m = options@;
    let (left, right) = options.range.to_left_right();
    let mut cmd = command("XRANGE");
    cmd.arg_mut(options.stream);
    cmd.arg_mut(left);
    cmd.arg_mut(right);
    cmd.arg_mut("COUNT");
    cmd.arg_mut(options.count as i64);
    proof {
        assert(cmd@ =~= spec_range_cmd(m));
    }
    cmd
}

/// The subscription engine: it owns the subscription's options and, for
/// each reply frame taken off the wire, yields the decoded batch together
/// with exactly one re-arm command. Because one command is issued per
/// frame consumed — the primer first, then one re-arm per reply — at most
/// one read is outstanding at any moment.
pub struct SubscriptionEngine {
    options: SubscribeOptions,
}

impl View for SubscriptionEngine {
    type V = SubscribeModel;

    closed spec fn view(&self) -> SubscribeModel {
        self.options@
    }
}

impl SubscriptionEngine {
    /// Starts a subscription: hands back the engine and the primer read
    /// command, which the caller writes to the transport first.
    pub fn start(options: SubscribeOptions) -> (r: (SubscriptionEngine, RedisCommand))
        ensures
            r.0@ == options@,
            r.1@ == spec_subscribe_cmd(options@),
    {
        let primer = subscribe_cmd_of(&options);
        (SubscriptionEngine { options }, primer)
    }

    /// Consumes one reply frame: on success yields the re-arm command to
    /// write next — always exactly one — and the decoded batch, in reply
    /// order. A wire `Error` or a malformed batch ends the subscription
    /// with the corresponding failure.
    pub fn on_frame(&self, frame: RespInternalValue) -> (r: RedisResult<
        (RedisCommand, Vec<StreamEntry>),
    >)
        ensures
            match resp_to_value(frame@) {
                Err(t) => r is Err && r->Err_0.error == RedisErrorKind::ReceiveError
                    && r->Err_0.desc@ == t,
                Ok(vm) => match spec_parse_stream_entries(vm) {
                    Ok(ems) => r is Ok && r->Ok_0.0@ == spec_subscribe_cmd(self@)
                        && r->Ok_0.1@.len() == ems.len() && forall|j: int|
                        0 <= j < ems.len() ==> #[trigger] r->Ok_0.1@[j]@ == ems[j],
                    Err(k) => r is Err && r->Err_0.error == k,
                },
            },
    {
        let rearm = subscribe_cmd_of(&self.options);
        let value = match frame.into_redis_value() {
            Ok(v) => v,
            Err(e) => {
                return Err(e);
            },
        };
        let batch = match parse_stream_entries(value) {
            Ok(b) => b,
            Err(e) => {
                return Err(e);
            },
        };
        Ok((rearm, batch))
    }
}

} // verus!
