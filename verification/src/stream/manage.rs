//! Acknowledgement, pending-entry and group-creation options, their exact
//! argv, and the reply handling each owes.

use vstd::prelude::*;
use vstd::string::StrSliceExecFns;
use crate::command::{command, RedisCommand};
use crate::error::{RedisError, RedisErrorKind, RedisResult};
use crate::resp_value::RespModel;
use crate::stream::consume::{bulk_int, bulk_text};
use crate::stream::entry::{spec_entry_id_chars, EntryId};
use crate::value::{RedisValue, ValueModel};

verus! {

broadcast use vstd::std_specs::vec::group_vec_axioms, vstd::seq::group_seq_axioms;

/// Options of a pending-entry read: the streams with start ids, the group,
/// the consumer, and an optional maximum count.
#[derive(Clone)]
pub struct PendingOptions {
    pub(crate) streams: Vec<(String, EntryId)>,
    pub(crate) group: String,
    pub(crate) consumer: String,
    pub(crate) count: Option<u16>,
}

/// Model of pending-read options.
pub struct PendingModel {
    pub streams: Seq<(Seq<char>, EntryId)>,
    pub group: Seq<char>,
    pub consumer: Seq<char>,
    pub count: Option<u16>,
}

impl View for PendingOptions {
    type V = PendingModel;

    closed spec fn view(&self) -> PendingModel {
        PendingModel {
            streams: crate::stream::consume::cursor_models(self.streams@),
            group: self.group@,
            consumer: self.consumer@,
            count: match self.count {
                Some(c) => Some(c),
                None => None,
            },
        }
    }
}

impl PendingOptions {
    pub fn new(stream: String, group: String, consumer: String, start_id: EntryId) -> (r:
        RedisResult<Self>)
        ensures
            r is Ok && r->Ok_0@ == (PendingModel {
                streams: seq![(stream@, start_id)],
                group: group@,
                consumer: consumer@,
                count: None,
            }),
    {
        let mut streams: Vec<(String, EntryId)> = Vec::new();
        streams.push((stream, start_id));
        let r = PendingOptions { streams, group, consumer, count: None };
        proof {
            assert(r@.streams =~= seq![(stream@, start_id)]);
        }
        Ok(r)
    }

    pub fn with_count(
        stream: String,
        group: String,
        consumer: String,
        start_id: EntryId,
        count: u16,
    ) -> (r: RedisResult<Self>)
        ensures
            r is Ok && r->Ok_0@ == (PendingModel {
                streams: seq![(stream@, start_id)],
                group: group@,
                consumer: consumer@,
                count: Some(count),
            }),
    {
        let mut streams: Vec<(String, EntryId)> = Vec::new();
        streams.push((stream, start_id));
        let r = PendingOptions { streams, group, consumer, count: Some(count) };
        proof {
            assert(r@.streams =~= seq![(stream@, start_id)]);
        }
        Ok(r)
    }

    pub fn add_stream(&mut self, stream: String, start_id: EntryId)
        ensures
            final(self)@.streams == old(self)@.streams.push((stream@, start_id)),
            final(self)@.group == old(self)@.group,
            final(self)@.consumer == old(self)@.consumer,
            final(self)@.count == old(self)@.count,
    {
        self.streams.push((stream, start_id));
        proof {
            assert(self@.streams =~= old(self)@.streams.push((stream@, start_id)));
        }
    }
}

/// Options of an idempotent group creation.
#[derive(Clone)]
pub struct TouchGroupOptions {
    pub(crate) stream: String,
    pub(crate) group: String,
}

/// Model of group-creation options.
pub struct TouchGroupModel {
    pub stream: Seq<char>,
    pub group: Seq<char>,
}

impl View for TouchGroupOptions {
    type V = TouchGroupModel;

    closed spec fn view(&self) -> TouchGroupModel {
        TouchGroupModel { stream: self.stream@, group: self.group@ }
    }
}

impl TouchGroupOptions {
    pub fn new(stream: String, group: String) -> (r: Self)
        ensures
            r@.stream == stream@,
            r@.group == group@,
    {
        TouchGroupOptions { stream, group }
    }
}

/// Options of an acknowledgement.
#[derive(Clone)]
pub struct AckOptions {
    pub(crate) stream: String,
    pub(crate) group: String,
    pub(crate) entry_id: EntryId,
}

/// Model of acknowledgement options.
pub struct AckModel {
    pub stream: Seq<char>,
    pub group: Seq<char>,
    pub entry_id: EntryId,
}

impl View for AckOptions {
    type V = AckModel;

    closed spec fn view(&self) -> AckModel {
        AckModel { stream: self.stream@, group: self.group@, entry_id: self.entry_id }
    }
}

impl AckOptions {
    pub fn new(stream: String, group: String, entry_id: EntryId) -> (r: Self)
        ensures
            r@.stream == stream@,
            r@.group == group@,
            r@.entry_id == entry_id,
    {
        AckOptions { stream, group, entry_id }
    }
}

/// The server's answer to an acknowledgement: the entry was pending and is
/// now acknowledged, or no such pending entry existed.
#[derive(PartialEq, Eq, Structural, Debug, Clone, Copy)]
pub enum AckResponse {
    Okay,
    NotExists,
}

impl AckResponse {
    /// Zero acknowledged entries means the entry did not exist; any other
    /// count is success.
    pub fn new(count_acknowledged: i64) -> (r: Self)
        ensures
            r == (if count_acknowledged == 0 {
                AckResponse::NotExists
            } else {
                AckResponse::Okay
            }),
    {
        if count_acknowledged == 0 {
            AckResponse::NotExists
        } else {
            AckResponse::Okay
        }
    }
}

/// Ack mapping: an integer reply of zero means `NotExists`, any other
/// integer means success, and every non-integer reply is a parse error.
pub fn ack_response_from_value(response: &RedisValue) -> (r: RedisResult<AckResponse>)
    ensures
        match response@ {
            ValueModel::Int(x) => r is Ok && r->Ok_0 == (if x == 0 {
                AckResponse::NotExists
            } else {
                AckResponse::Okay
            }),
            _ => r is Err && r->Err_0.error == RedisErrorKind::ParseError,
        },
{
    match response {
        RedisValue::Int(x) => Ok(AckResponse::new(*x)),
        _ => Err(
            RedisError::new(
                RedisErrorKind::ParseError,
                <String as vstd::string::StringExecFns>::from_str(
                    "expected an integer reply to an XACK request",
                ),
            ),
        ),
    }
}

/// The argv of an acknowledgement: `XACK <stream> <group> <id>`.
pub open spec fn spec_ack_entry_command(m: AckModel) -> Seq<RespModel> {
    seq![bulk_text("XACK"@), bulk_text(m.stream), bulk_text(m.group), bulk_text(
        spec_entry_id_chars(m.entry_id.millis, m.entry_id.serial),
    )]
}

/// Builds the acknowledgement command, exactly as `spec_ack_entry_command`
/// describes.
pub fn ack_entry_command(options: AckOptions) -> (r: RedisCommand)
    ensures
        r@ == spec_ack_entry_command(options@),
{
    let ghost m = options@;
    let mut cmd = command("XACK");
    cmd.arg_mut(options.stream);
    cmd.arg_mut(options.group);
    cmd.arg_mut(options.entry_id.to_string());
    proof {
        assert(cmd@ =~= spec_ack_entry_command(m));
    }
    cmd
}

/// The argv of a pending-entry read: a consumer-scoped `XREADGROUP GROUP
/// <group> <consumer> [COUNT <n>] STREAMS`, the stream names, then the
/// start ids in the same order.
pub open spec fn spec_pending_list_command(m: PendingModel) -> Seq<RespModel> {
    let head = seq![bulk_text("XREADGROUP"@), bulk_text("GROUP"@), bulk_text(m.group), bulk_text(
        m.consumer,
    )];
    let countpart = match m.count {
        Some(c) => seq![bulk_text("COUNT"@), bulk_int(c as int)],
        None => Seq::empty(),
    };
    head + countpart + seq![bulk_text("STREAMS"@)] + Seq::new(
        m.streams.len(),
        |i: int| if 0 <= i < m.streams.len() {
            bulk_text(m.streams[i].0)
        } else {
            RespModel::Nil
        },
    ) + Seq::new(
        m.streams.len(),
        |i: int| if 0 <= i < m.streams.len() {
            bulk_text(spec_entry_id_chars(m.streams[i].1.millis, m.streams[i].1.serial))
        } else {
            RespModel::Nil
        },
    )
}

/// Builds the pending-entry read command, exactly as
/// `spec_pending_list_command` describes.
pub fn pending_list_command(options: PendingOptions) -> (r: RedisCommand)
    ensures
        r@ == spec_pending_list_command(options@),
{
    let ghost m = options@;
    let mut cmd = command("XREADGROUP");
    cmd.arg_mut("GROUP");
    cmd.arg_mut(options.group);
    cmd.arg_mut(options.consumer);
    match &options.count {
        Some(count) => {
            cmd.arg_mut("COUNT");
            cmd.arg_mut(*count as i64);
        },
        None => {},
    }
    cmd.arg_mut("STREAMS");
    let ghost mid = cmd@;
    proof {
        let head = seq![bulk_text("XREADGROUP"@), bulk_text("GROUP"@), bulk_text(m.group),
            bulk_text(m.consumer)];
        let countpart = match m.count {
            Some(c) => seq![bulk_text("COUNT"@), bulk_int(c as int)],
            None => Seq::<RespModel>::empty(),
        };
        assert(mid =~= head + countpart + seq![bulk_text("STREAMS"@)]);
    }
    let mut ids = RedisCommand::new();
    let mut i: usize = 0;
    while i < options.streams.len()
        invariant
            m == options@,
            m.streams.len() == options.streams@.len(),
            0 <= i <= options.streams@.len(),
            mid == ({
                let head = seq![bulk_text("XREADGROUP"@), bulk_text("GROUP"@), bulk_text(m.group),
                    bulk_text(m.consumer)];
                let countpart = match m.count {
                    Some(c) => seq![bulk_text("COUNT"@), bulk_int(c as int)],
                    None => Seq::<RespModel>::empty(),
                };
                head + countpart + seq![bulk_text("STREAMS"@)]
            }),
            cmd@.len() == mid.len() + i,
            forall|j: int| 0 <= j < mid.len() ==> #[trigger] cmd@[j] == mid[j],
            forall|j: int|
                mid.len() <= j < mid.len() + i ==> #[trigger] cmd@[j] == bulk_text(
                    m.streams[j - mid.len()].0,
                ),
            ids@.len() == i as int,
            forall|j: int|
                0 <= j < i ==> #[trigger] ids@[j] == bulk_text(
                    spec_entry_id_chars(m.streams[j].1.millis, m.streams[j].1.serial),
                ),
        decreases options.streams@.len() - i,
    {
        proof {
            assert(m.streams[i as int] == (options.streams@[i as int].0@,
            options.streams@[i as int].1));
        }
        cmd.arg_mut(options.streams[i].0.as_str());
        let id_text = options.streams[i].1.to_string();
        ids.arg_mut(id_text);
        i = i + 1;
    }
    let ghost pre = cmd@;
    cmd.append(ids);
    proof {
        let names = Seq::new(
            m.streams.len(),
            |j: int| if 0 <= j < m.streams.len() {
                bulk_text(m.streams[j].0)
            } else {
                RespModel::Nil
            },
        );
        let idparts = Seq::new(
            m.streams.len(),
            |j: int| if 0 <= j < m.streams.len() {
                bulk_text(spec_entry_id_chars(m.streams[j].1.millis, m.streams[j].1.serial))
            } else {
                RespModel::Nil
            },
        );
        assert(ids@ =~= idparts);
        assert(pre =~= mid + names);
        assert(cmd@ =~= (mid + names) + idparts);
        assert((mid + names) + idparts =~= spec_pending_list_command(m));
    }
    cmd
}

/// The argv of an idempotent group creation: `XGROUP CREATE <stream>
/// <group> $ MKSTREAM`.
pub open spec fn spec_touch_group_command(m: TouchGroupModel) -> Seq<RespModel> {
    seq![
        bulk_text("XGROUP"@),
        bulk_text("CREATE"@),
        bulk_text(m.stream),
        bulk_text(m.group),
        bulk_text("$"@),
        bulk_text("MKSTREAM"@),
    ]
}

/// Builds the group creation command, exactly as `spec_touch_group_command`
/// describes.
pub fn touch_group_command(options: TouchGroupOptions) -> (r: RedisCommand)
    ensures
        r@ == spec_touch_group_command(options@),
{
    let ghost m = options@;
    let mut cmd = command("XGROUP");
    cmd.arg_mut("CREATE");
    cmd.arg_mut(options.stream);
    cmd.arg_mut(options.group);
    cmd.arg_mut("$");
    cmd.arg_mut("MKSTREAM");
    proof {
        assert(cmd@ =~= spec_touch_group_command(m));
    }
    cmd
}

/// The error text prefix the server answers an already-existing group with.
pub open spec fn spec_busygroup_prefix(t: Seq<char>) -> bool {
    t.len() >= 9 && t.take(9) == "BUSYGROUP"@
}

/// Whether the text begins with `BUSYGROUP`.
fn is_busygroup(desc: &str) -> (r: bool)
    ensures
        r == spec_busygroup_prefix(desc@),
{
    proof {
        reveal_strlit("BUSYGROUP");
    }
    if desc.unicode_len() < 9 {
        proof {
            assert("BUSYGROUP"@.len() == 9);
        }
        return false;
    }
    let pat = "BUSYGROUP";
    let mut i: usize = 0;
    while i < 9
        invariant
            0 <= i <= 9,
            desc@.len() >= 9,
            pat@ == "BUSYGROUP"@,
            pat@.len() == 9,
            forall|j: int| 0 <= j < i ==> #[trigger] desc@[j] == pat@[j],
        decreases 9 - i,
    {
        if desc.get_char(i) != pat.get_char(i) {
            proof {
                assert(desc@.take(9)[i as int] != pat@[i as int]);
            }
            return false;
        }
        i = i + 1;
    }
    proof {
        assert(desc@.take(9) =~= "BUSYGROUP"@);
    }
    true
}

/// Group creation idempotence: a successful reply succeeds; a server error
/// whose text begins with `BUSYGROUP` (the group already exists) is
/// downgraded to success; every other failure propagates unchanged.
pub fn resolve_touch_group(result: Result<RedisValue, RedisError>) -> (r: Result<(), RedisError>)
    ensures
        match result {
            Ok(_) => r is Ok,
            Err(e) => if e.error == RedisErrorKind::ReceiveError && spec_busygroup_prefix(e.desc@) {
                r is Ok
            } else {
                r is Err && r->Err_0 == e
            },
        },
{
    match result {
        Ok(_) => Ok(()),
        Err(e) => {
            let busy = {
                let d = e.description();
                is_busygroup(d)
            };
            if matches!(e.error, RedisErrorKind::ReceiveError) && busy {
                Ok(())
            } else {
                Err(e)
            }
        },
    }
}

} // verus!
