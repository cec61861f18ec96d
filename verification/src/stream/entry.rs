//! Typed stream entries: the entry id, the entries returned by read and
//! range operations, and the parsers that build them from reply values.

use vstd::prelude::*;
use vstd::string::StrSliceExecFns;
use crate::decimal::{dec_of_nat, dec_val, is_dec_digit, lemma_dec_of_nat_digits,
    lemma_dec_val_of_nat};
use crate::error::{RedisError, RedisErrorKind, RedisResult};
use crate::text::ascii_to_string;
use crate::value::{value_model, RedisValue, ValueModel};

verus! {

broadcast use vstd::std_specs::vec::group_vec_axioms, vstd::seq::group_seq_axioms;

/// An entry id: a pair of milliseconds and a per-millisecond sequence
/// number, ordered lexicographically, written `"<ms>-<seq>"` on the wire.
#[derive(Clone, Copy, PartialEq, Eq, Structural, Debug, Hash)]
pub struct EntryId {
    pub millis: u64,
    pub serial: u64,
}

/// Lexicographic order on the pair.
pub open spec fn entry_id_lt(a: EntryId, b: EntryId) -> bool {
    a.millis < b.millis || (a.millis == b.millis && a.serial < b.serial)
}

impl PartialOrd for EntryId {
    fn partial_cmp(&self, other: &EntryId) -> (r: Option<core::cmp::Ordering>) {
        if self.millis < other.millis {
            Some(core::cmp::Ordering::Less)
        } else if self.millis > other.millis {
            Some(core::cmp::Ordering::Greater)
        } else if self.serial < other.serial {
            Some(core::cmp::Ordering::Less)
        } else if self.serial > other.serial {
            Some(core::cmp::Ordering::Greater)
        } else {
            Some(core::cmp::Ordering::Equal)
        }
    }
}

impl vstd::std_specs::cmp::PartialOrdSpecImpl for EntryId {
    open spec fn obeys_partial_cmp_spec() -> bool {
        true
    }

    open spec fn partial_cmp_spec(&self, other: &EntryId) -> Option<core::cmp::Ordering> {
        if entry_id_lt(*self, *other) {
            Some(core::cmp::Ordering::Less)
        } else if entry_id_lt(*other, *self) {
            Some(core::cmp::Ordering::Greater)
        } else {
            Some(core::cmp::Ordering::Equal)
        }
    }
}

/// An ASCII decimal digit character.
pub open spec fn is_digit_char(c: char) -> bool {
    '0' <= c && c <= '9'
}

/// Every character of `s` is a decimal digit.
pub open spec fn all_digit_chars(s: Seq<char>) -> bool {
    forall|i: int| 0 <= i < s.len() ==> is_digit_char(#[trigger] s[i])
}

/// The numeric value of a digit character string, most significant first.
pub open spec fn char_digits_val(s: Seq<char>) -> int
    decreases s.len(),
{
    if s.len() == 0 {
        0
    } else {
        char_digits_val(s.drop_last()) * 10 + (s.last() as u32 - 48)
    }
}

/// The position of the first `-` in `s`, if any.
pub open spec fn spec_find_dash(s: Seq<char>) -> Option<int>
    decreases s.len(),
{
    if s.len() == 0 {
        None
    } else if s[0] == '-' {
        Some(0)
    } else {
        match spec_find_dash(s.drop_first()) {
            Some(i) => Some(i + 1),
            None => None,
        }
    }
}

/// What entry id text denotes: two non-empty runs of digits around a single
/// `-`, each fitting an unsigned 64-bit number. Anything else is malformed.
pub open spec fn spec_parse_entry_id(s: Seq<char>) -> Option<EntryId> {
    match spec_find_dash(s) {
        None => None,
        Some(i) => {
            let a = s.take(i);
            let b = s.skip(i + 1);
            if a.len() == 0 || b.len() == 0 || !all_digit_chars(a) || !all_digit_chars(b) {
                None
            } else if char_digits_val(a) > u64::MAX || char_digits_val(b) > u64::MAX {
                None
            } else {
                Some(
                    EntryId {
                        millis: char_digits_val(a) as u64,
                        serial: char_digits_val(b) as u64,
                    },
                )
            }
        },
    }
}

/// The wire text of an entry id.
pub open spec fn spec_entry_id_chars(ms: u64, sq: u64) -> Seq<char> {
    dec_of_nat(ms as nat).map_values(|b: u8| b as char) + seq!['-'] + dec_of_nat(
        sq as nat,
    ).map_values(|b: u8| b as char)
}

/// The value of a digit character string is non-negative.
proof fn lemma_char_val_nonneg(s: Seq<char>)
    requires
        all_digit_chars(s),
    ensures
        char_digits_val(s) >= 0,
    decreases s.len(),
{
    if s.len() > 0 {
        assert(all_digit_chars(s.drop_last()));
        lemma_char_val_nonneg(s.drop_last());
        assert(char_digits_val(s.drop_last()) * 10 >= 0) by (nonlinear_arith)
            requires
                char_digits_val(s.drop_last()) >= 0,
        ;
        assert(is_digit_char(s.last()));
        assert(s.last() as u32 >= 48);
    }
}

/// A digit string's value only grows when digits are appended.
proof fn lemma_char_val_extend(s: Seq<char>, k: int)
    requires
        0 <= k <= s.len(),
        all_digit_chars(s),
    ensures
        char_digits_val(s) >= char_digits_val(s.take(k)),
    decreases s.len() - k,
{
    if k < s.len() {
        let t = s.drop_last();
        assert(t =~= s.take(s.len() - 1));
        assert(all_digit_chars(t));
        lemma_char_val_extend(t, k);
        assert(t.take(k) =~= s.take(k));
        lemma_char_val_nonneg(t);
        assert(char_digits_val(t) * 10 >= char_digits_val(t)) by (nonlinear_arith)
            requires
                char_digits_val(t) >= 0,
        ;
        assert(is_digit_char(s.last()));
        assert(s.last() as u32 >= 48);
    } else {
        assert(s.take(k) =~= s);
    }
}

/// Reads the digits of `s` between `from` and `to` as an unsigned 64-bit
/// number: the value, unless the run is empty, holds a non-digit, or
/// overflows.
fn parse_u64_chars(s: &str, from: usize, to: usize) -> (r: Option<u64>)
    requires
        from <= to <= s@.len(),
    ensures
        ({
            let sub = s@.subrange(from as int, to as int);
            match r {
                Some(v) => sub.len() > 0 && all_digit_chars(sub) && char_digits_val(sub)
                    == v as int,
                None => sub.len() == 0 || !all_digit_chars(sub) || char_digits_val(sub)
                    > u64::MAX,
            }
        }),
{
    let ghost sub = s@.subrange(from as int, to as int);
    if from == to {
        return None;
    }
    let mut acc: u64 = 0;
    let mut i: usize = from;
    while i < to
        invariant
            from <= i <= to <= s@.len(),
            sub == s@.subrange(from as int, to as int),
            all_digit_chars(sub.take(i - from)),
            acc as int == char_digits_val(sub.take(i - from)),
        decreases to - i,
    {
        let c = s.get_char(i);
        proof {
            assert(sub[i - from] == s@[i as int]);
        }
        if c < '0' || c > '9' {
            proof {
                assert(!is_digit_char(sub[i - from]));
            }
            return None;
        }
        let d: u64 = (c as u32 - 48) as u64;
        proof {
            assert(d < 10);
        }
        if acc > (u64::MAX - d) / 10 {
            proof {
                assert(acc * 10 + d > u64::MAX) by (nonlinear_arith)
                    requires
                        acc > (u64::MAX - d) / 10,
                        0 <= d < 10,
                ;
                let t = sub.take(i - from + 1);
                assert(t.drop_last() =~= sub.take(i - from));
                assert(t.last() == sub[i - from]);
                assert(char_digits_val(t) == acc * 10 + d);
                if all_digit_chars(sub) {
                    lemma_char_val_extend(sub, i - from + 1);
                }
            }
            return None;
        }
        proof {
            assert(acc * 10 + d <= u64::MAX) by (nonlinear_arith)
                requires
                    acc <= (u64::MAX - d) / 10,
                    0 <= d < 10,
                    acc >= 0,
            ;
            let t = sub.take(i - from + 1);
            assert(t.drop_last() =~= sub.take(i - from));
            assert(t.last() == sub[i - from]);
        }
        acc = acc * 10 + d;
        i = i + 1;
    }
    proof {
        assert(sub.take(to - from) =~= sub);
    }
    Some(acc)
}

impl EntryId {
    pub fn new(ms: u64, id: u64) -> (r: EntryId)
        ensures
            r.millis == ms,
            r.serial == id,
    {
        EntryId { millis: ms, serial: id }
    }

    /// Parses the `"<ms>-<seq>"` wire text of an entry id, exactly as
    /// `spec_parse_entry_id` describes; anything else is a parse error.
    pub fn from_string(id: String) -> (r: RedisResult<EntryId>)
        ensures
            match r {
                Ok(e) => spec_parse_entry_id(id@) == Some(e),
                Err(e) => spec_parse_entry_id(id@) is None && e.error
                    == RedisErrorKind::ParseError,
            },
    {
        let s = id.as_str();
        let n = s.unicode_len();
        let mut dash: usize = 0;
        let mut found = false;
        let mut i: usize = 0;
        while i < n
            invariant
                0 <= i <= n == s@.len(),
                !found ==> forall|j: int| 0 <= j < i ==> s@[j] != '-',
                found ==> 0 <= dash < i && s@[dash as int] == '-' && forall|j: int|
                    0 <= j < dash ==> s@[j] != '-',
            decreases n - i,
        {
            if !found && s.get_char(i) == '-' {
                dash = i;
                found = true;
            }
            i = i + 1;
        }
        proof {
            lemma_find_dash_props(s@);
            if found {
                lemma_find_dash_at(s@, dash as int);
            }
        }
        if !found {
            return Err(entry_id_error());
        }
        proof {
            assert(s@.subrange(0, dash as int) =~= s@.take(dash as int));
            assert(s@.subrange(dash as int + 1, n as int) =~= s@.skip(dash as int + 1));
        }
        let a = match parse_u64_chars(s, 0, dash) {
            Some(v) => v,
            None => {
                return Err(entry_id_error());
            },
        };
        let b = match parse_u64_chars(s, dash + 1, n) {
            Some(v) => v,
            None => {
                return Err(entry_id_error());
            },
        };
        Ok(EntryId { millis: a, serial: b })
    }

    /// The `"<ms>-<seq>"` wire text of this id.
    pub fn to_string(&self) -> (r: String)
        ensures
            r@ == spec_entry_id_chars(self.millis, self.serial),
    {
        let mut bytes = crate::decimal::format_u64(self.millis);
        bytes.push(0x2d);
        crate::decimal::push_dec_u64(self.serial, &mut bytes);
        proof {
            lemma_dec_of_nat_digits(self.millis as nat);
            lemma_dec_of_nat_digits(self.serial as nat);
            assert(forall|i: int| 0 <= i < bytes@.len() ==> #[trigger] bytes@[i] < 0x80);
        }
        let r = ascii_to_string(bytes);
        proof {
            assert(r@ =~= spec_entry_id_chars(self.millis, self.serial));
        }
        r
    }
}

fn entry_id_error() -> (r: RedisError)
    ensures
        r.error == RedisErrorKind::ParseError,
{
    RedisError::new(
        RedisErrorKind::ParseError,
        <String as vstd::string::StringExecFns>::from_str("couldn't parse a stream entry id"),
    )
}

/// Characterises `spec_find_dash`: it returns the first dash position.
proof fn lemma_find_dash_props(s: Seq<char>)
    ensures
        match spec_find_dash(s) {
            Some(i) => 0 <= i < s.len() && s[i] == '-' && forall|j: int|
                0 <= j < i ==> s[j] != '-',
            None => forall|j: int| 0 <= j < s.len() ==> s[j] != '-',
        },
    decreases s.len(),
{
    if s.len() > 0 && s[0] != '-' {
        let rest = s.drop_first();
        lemma_find_dash_props(rest);
        match spec_find_dash(rest) {
            Some(i) => {
                assert(s[i + 1] == rest[i]);
                assert forall|j: int| 0 <= j < i + 1 implies s[j] != '-' by {
                    if j > 0 {
                        assert(s[j] == rest[j - 1]);
                    }
                }
            },
            None => {
                assert forall|j: int| 0 <= j < s.len() implies s[j] != '-' by {
                    if j > 0 {
                        assert(s[j] == rest[j - 1]);
                    }
                }
            },
        }
    }
}

/// When the first dash of `s` stands at `k`, the finder returns `k`.
proof fn lemma_find_dash_at(s: Seq<char>, k: int)
    requires
        0 <= k < s.len(),
        s[k] == '-',
        forall|j: int| 0 <= j < k ==> #[trigger] s[j] != '-',
    ensures
        spec_find_dash(s) == Some(k),
{
    lemma_find_dash_props(s);
    match spec_find_dash(s) {
        Some(i) => {
            if i < k {
                assert(s[i] != '-');
            } else if i > k {
                assert(s[k] != '-');
            }
        },
        None => {
            assert(s[k] != '-');
        },
    }
}

/// Round trip: parsing the wire text of any id pair yields the pair.
pub proof fn lemma_entry_id_round_trip(ms: u64, sq: u64)
    ensures
        spec_parse_entry_id(spec_entry_id_chars(ms, sq)) == Some(
            EntryId { millis: ms, serial: sq },
        ),
{
    let s = spec_entry_id_chars(ms, sq);
    lemma_dec_of_nat_digits(ms as nat);
    lemma_dec_of_nat_digits(sq as nat);
    lemma_dec_val_of_nat(ms as nat);
    lemma_dec_val_of_nat(sq as nat);
    let da = dec_of_nat(ms as nat);
    let db = dec_of_nat(sq as nat);
    let a = da.map_values(|b: u8| b as char);
    let b = db.map_values(|b: u8| b as char);
    lemma_digit_bytes_to_chars(da);
    lemma_digit_bytes_to_chars(db);
    let k = a.len() as int;
    assert(s[k] == '-') by {
        assert(s =~= (a + seq!['-']) + b);
        assert((a + seq!['-'])[k] == '-');
    }
    assert(forall|j: int| 0 <= j < k ==> #[trigger] s[j] == a[j]);
    assert(forall|j: int| 0 <= j < k ==> s[j] != '-') by {
        assert(forall|j: int| 0 <= j < k ==> is_digit_char(#[trigger] a[j]));
    }
    lemma_find_dash_at(s, k);
    assert(s.take(k) =~= a);
    assert(s.skip(k + 1) =~= b);
}

/// Digit bytes become digit characters of the same numeric value.
proof fn lemma_digit_bytes_to_chars(bs: Seq<u8>)
    requires
        crate::decimal::all_dec_digits(bs),
    ensures
        all_digit_chars(bs.map_values(|b: u8| b as char)),
        char_digits_val(bs.map_values(|b: u8| b as char)) == dec_val(bs),
    decreases bs.len(),
{
    let cs = bs.map_values(|b: u8| b as char);
    assert(cs.len() == bs.len());
    assert forall|i: int| 0 <= i < cs.len() implies is_digit_char(#[trigger] cs[i]) by {
        assert(cs[i] == bs[i] as char);
        assert(is_dec_digit(bs[i]));
        assert((bs[i] as char) as u32 == bs[i] as u32);
    }
    if bs.len() > 0 {
        let bt = bs.drop_last();
        assert(crate::decimal::all_dec_digits(bt));
        lemma_digit_bytes_to_chars(bt);
        assert(cs.drop_last() =~= bt.map_values(|b: u8| b as char));
        assert(cs.last() == bs.last() as char);
        assert((bs.last() as char) as u32 == bs.last() as u32);
    }
}


/// The text a reply value carries, when it is textual: a status verbatim,
/// or a bulk string holding valid UTF-8.
pub open spec fn text_of(v: ValueModel) -> Option<Seq<char>> {
    match v {
        ValueModel::Status(t) => Some(t),
        ValueModel::BulkString(b) => if vstd::utf8::valid_utf8(b) {
            Some(vstd::utf8::decode_utf8(b))
        } else {
            None
        },
        _ => None,
    }
}

/// One entry of a stream as a read operation returns it.
#[derive(PartialEq, Debug)]
pub struct StreamEntry {
    /// The stream the entry came from.
    pub stream: String,
    /// The entry's id.
    pub id: EntryId,
    /// The field pairs, in reply order; keys are unique.
    pub values: Vec<(String, RedisValue)>,
}

/// One entry as a range operation returns it: no stream name.
#[derive(PartialEq, Debug)]
pub struct RangeEntry {
    /// The entry's id.
    pub id: EntryId,
    /// The field pairs, in reply order; keys are unique.
    pub values: Vec<(String, RedisValue)>,
}

/// Model of a parsed field list.
pub open spec fn field_models(vs: Seq<(String, RedisValue)>) -> Seq<(Seq<char>, ValueModel)> {
    Seq::new(
        vs.len(),
        |i: int| if 0 <= i < vs.len() {
            (vs[i].0@, value_model(vs[i].1))
        } else {
            (Seq::<char>::empty(), ValueModel::Nil)
        },
    )
}

/// Model of a stream entry.
pub struct StreamEntryModel {
    pub stream: Seq<char>,
    pub id: EntryId,
    pub fields: Seq<(Seq<char>, ValueModel)>,
}

/// Model of a range entry.
pub struct RangeEntryModel {
    pub id: EntryId,
    pub fields: Seq<(Seq<char>, ValueModel)>,
}

impl View for StreamEntry {
    type V = StreamEntryModel;

    open spec fn view(&self) -> StreamEntryModel {
        StreamEntryModel { stream: self.stream@, id: self.id, fields: field_models(self.values@) }
    }
}

impl View for RangeEntry {
    type V = RangeEntryModel;

    open spec fn view(&self) -> RangeEntryModel {
        RangeEntryModel { id: self.id, fields: field_models(self.values@) }
    }
}

impl StreamEntry {
    pub fn new(stream: String, id: EntryId, values: Vec<(String, RedisValue)>) -> (r: Self)
        ensures
            r.stream == stream,
            r.id == id,
            r.values == values,
    {
        StreamEntry { stream, id, values }
    }
}

impl RangeEntry {
    pub fn new(id: EntryId, values: Vec<(String, RedisValue)>) -> (r: Self)
        ensures
            r.id == id,
            r.values == values,
    {
        RangeEntry { id, values }
    }
}

/// Whether some field already carries the key.
pub open spec fn spec_contains_key(fields: Seq<(Seq<char>, ValueModel)>, k: Seq<char>) -> bool {
    exists|j: int| 0 <= j < fields.len() && #[trigger] fields[j].0 == k
}

/// Parses an alternating key, value, key, value ... run into field pairs:
/// keys must be textual and unique, and the run's length must be even.
pub open spec fn spec_fields(kvs: Seq<ValueModel>) -> Result<
    Seq<(Seq<char>, ValueModel)>,
    RedisErrorKind,
>
    decreases kvs.len(),
{
    if kvs.len() == 0 {
        Ok(Seq::empty())
    } else if kvs.len() == 1 {
        Err(RedisErrorKind::ParseError)
    } else {
        match text_of(kvs[0]) {
            None => Err(RedisErrorKind::ParseError),
            Some(k) => match spec_fields(kvs.skip(2)) {
                Err(e) => Err(e),
                Ok(rest) => if spec_contains_key(rest, k) {
                    Err(RedisErrorKind::ParseError)
                } else {
                    Ok(seq![(k, kvs[1])] + rest)
                },
            },
        }
    }
}

/// Parses one range entry: a two-element array of the id text and the
/// field run.
pub open spec fn spec_entry(v: ValueModel) -> Result<RangeEntryModel, RedisErrorKind> {
    match v {
        ValueModel::Array(parts) => if parts.len() != 2 {
            Err(RedisErrorKind::ParseError)
        } else {
            match text_of(parts[0]) {
                None => Err(RedisErrorKind::ParseError),
                Some(idtext) => match spec_parse_entry_id(idtext) {
                    None => Err(RedisErrorKind::ParseError),
                    Some(id) => match parts[1] {
                        ValueModel::Array(kvs) => match spec_fields(kvs) {
                            Err(e) => Err(e),
                            Ok(fields) => Ok(RangeEntryModel { id, fields }),
                        },
                        _ => Err(RedisErrorKind::ParseError),
                    },
                },
            }
        },
        _ => Err(RedisErrorKind::ParseError),
    }
}

/// Parses a run of range entries, in order.
pub open spec fn spec_entries(es: Seq<ValueModel>) -> Result<Seq<RangeEntryModel>, RedisErrorKind>
    decreases es.len(),
{
    if es.len() == 0 {
        Ok(Seq::empty())
    } else {
        match spec_entry(es[0]) {
            Err(e) => Err(e),
            Ok(em) => match spec_entries(es.drop_first()) {
                Err(e) => Err(e),
                Ok(rest) => Ok(seq![em] + rest),
            },
        }
    }
}

/// Parses an XRANGE reply: an array of range entries.
pub open spec fn spec_parse_range_entries(v: ValueModel) -> Result<
    Seq<RangeEntryModel>,
    RedisErrorKind,
> {
    match v {
        ValueModel::Array(es) => spec_entries(es),
        _ => Err(RedisErrorKind::ParseError),
    }
}

/// Parses one stream of an XREAD reply: a two-element array of the stream
/// name and its entries, flattened into named entries.
pub open spec fn spec_stream(v: ValueModel) -> Result<Seq<StreamEntryModel>, RedisErrorKind> {
    match v {
        ValueModel::Array(parts) => if parts.len() != 2 {
            Err(RedisErrorKind::ParseError)
        } else {
            match text_of(parts[0]) {
                None => Err(RedisErrorKind::ParseError),
                Some(name) => match parts[1] {
                    ValueModel::Array(es) => match spec_entries(es) {
                        Err(e) => Err(e),
                        Ok(ems) => Ok(
                            Seq::new(
                                ems.len(),
                                |i: int| if 0 <= i < ems.len() {
                                    StreamEntryModel {
                                        stream: name,
                                        id: ems[i].id,
                                        fields: ems[i].fields,
                                    }
                                } else {
                                    StreamEntryModel {
                                        stream: name,
                                        id: EntryId { millis: 0, serial: 0 },
                                        fields: Seq::empty(),
                                    }
                                },
                            ),
                        ),
                    },
                    _ => Err(RedisErrorKind::ParseError),
                },
            }
        },
        _ => Err(RedisErrorKind::ParseError),
    }
}

/// Parses a run of streams, concatenating their entries in reply order.
pub open spec fn spec_streams(ss: Seq<ValueModel>) -> Result<Seq<StreamEntryModel>, RedisErrorKind>
    decreases ss.len(),
{
    if ss.len() == 0 {
        Ok(Seq::empty())
    } else {
        match spec_stream(ss[0]) {
            Err(e) => Err(e),
            Ok(head) => match spec_streams(ss.drop_first()) {
                Err(e) => Err(e),
                Ok(rest) => Ok(head + rest),
            },
        }
    }
}

/// Parses an XREAD or XREADGROUP reply: an array of streams, each holding
/// entries, flattened into one run of named entries in reply order.
pub open spec fn spec_parse_stream_entries(v: ValueModel) -> Result<
    Seq<StreamEntryModel>,
    RedisErrorKind,
> {
    match v {
        ValueModel::Array(ss) => spec_streams(ss),
        _ => Err(RedisErrorKind::ParseError),
    }
}

fn reply_shape_error() -> (r: RedisError)
    ensures
        r.error == RedisErrorKind::ParseError,
{
    RedisError::new(
        RedisErrorKind::ParseError,
        <String as vstd::string::StringExecFns>::from_str(
            "the reply does not have the expected stream entry shape",
        ),
    )
}

/// Whether the field list already carries the key.
fn contains_key(fields: &Vec<(String, RedisValue)>, k: &String) -> (r: bool)
    ensures
        r == spec_contains_key(field_models(fields@), k@),
{
    let mut j: usize = 0;
    while j < fields.len()
        invariant
            0 <= j <= fields@.len(),
            forall|t: int| 0 <= t < j ==> #[trigger] fields@[t].0@ != k@,
        decreases fields@.len() - j,
    {
        if fields[j].0 == *k {
            proof {
                assert(field_models(fields@)[j as int].0 == k@);
            }
            return true;
        }
        j = j + 1;
    }
    proof {
        assert forall|t: int| 0 <= t < field_models(fields@).len() implies #[trigger] field_models(
            fields@,
        )[t].0 != k@ by {
            assert(field_models(fields@)[t].0 == fields@[t].0@);
        }
    }
    false
}

/// Parses field pairs from `kvs` starting at `i`, as `spec_fields` of the
/// remaining run describes.
fn parse_fields_from(kvs: &Vec<RedisValue>, i: usize) -> (r: RedisResult<
    Vec<(String, RedisValue)>,
>)
    requires
        i <= kvs@.len(),
    ensures
        match spec_fields(crate::value::value_models(kvs@).skip(i as int)) {
            Ok(fs) => r is Ok && field_models(r->Ok_0@) == fs,
            Err(k) => r is Err && r->Err_0.error == k,
        },
    decreases kvs@.len() - i,
{
    let ghost ms = crate::value::value_models(kvs@).skip(i as int);
    if kvs.len() - i == 0 {
        let out: Vec<(String, RedisValue)> = Vec::new();
        proof {
            assert(field_models(out@) =~= Seq::<(Seq<char>, ValueModel)>::empty());
        }
        return Ok(out);
    }
    if kvs.len() - i == 1 {
        return Err(reply_shape_error());
    }
    proof {
        assert(ms[0] == value_model(kvs@[i as int]));
        assert(ms[1] == value_model(kvs@[i as int + 1]));
    }
    let key = match crate::value::from_redis_value::<String>(&kvs[i]) {
        Ok(k) => k,
        Err(_) => {
            return Err(reply_shape_error());
        },
    };
    let rest = match parse_fields_from(kvs, i + 2) {
        Ok(f) => f,
        Err(e) => {
            proof {
                assert(ms.skip(2) =~= crate::value::value_models(kvs@).skip(i as int + 2));
            }
            return Err(e);
        },
    };
    proof {
        assert(ms.skip(2) =~= crate::value::value_models(kvs@).skip(i as int + 2));
    }
    if contains_key(&rest, &key) {
        return Err(reply_shape_error());
    }
    let mut out = rest;
    let ghost pre = out@;
    out.insert(0, (key, kvs[i + 1].clone()));
    proof {
        assert(field_models(out@) =~= seq![
            (key@, value_model(kvs@[i as int + 1])),
        ] + field_models(pre));
    }
    Ok(out)
}


/// Parses one range entry, as `spec_entry` describes.
fn range_entry_of(v: &RedisValue) -> (r: RedisResult<RangeEntry>)
    ensures
        match spec_entry(v@) {
            Ok(em) => r is Ok && r->Ok_0@ == em,
            Err(k) => r is Err && r->Err_0.error == k,
        },
{
    let parts = match v {
        RedisValue::Array(parts) => parts,
        _ => {
            return Err(reply_shape_error());
        },
    };
    if parts.len() != 2 {
        return Err(reply_shape_error());
    }
    proof {
        assert(v@->Array_0[0] == value_model(parts@[0]));
        assert(v@->Array_0[1] == value_model(parts@[1]));
    }
    let idtext = match crate::value::from_redis_value::<String>(&parts[0]) {
        Ok(t) => t,
        Err(_) => {
            return Err(reply_shape_error());
        },
    };
    let id = match EntryId::from_string(idtext) {
        Ok(id) => id,
        Err(e) => {
            return Err(e);
        },
    };
    let kvs = match &parts[1] {
        RedisValue::Array(kvs) => kvs,
        _ => {
            return Err(reply_shape_error());
        },
    };
    proof {
        assert(value_model(parts@[1])->Array_0 =~= crate::value::value_models(kvs@));
        assert(crate::value::value_models(kvs@).skip(0) =~= crate::value::value_models(kvs@));
    }
    let fields = match parse_fields_from(kvs, 0) {
        Ok(f) => f,
        Err(e) => {
            return Err(e);
        },
    };
    Ok(RangeEntry { id, values: fields })
}

/// Parses the entries of `es` starting at `i`, in order.
fn range_entries_from(es: &Vec<RedisValue>, i: usize) -> (r: RedisResult<Vec<RangeEntry>>)
    requires
        i <= es@.len(),
    ensures
        match spec_entries(crate::value::value_models(es@).skip(i as int)) {
            Ok(ems) => r is Ok && r->Ok_0@.len() == ems.len() && forall|j: int|
                0 <= j < ems.len() ==> #[trigger] r->Ok_0@[j]@ == ems[j],
            Err(k) => r is Err && r->Err_0.error == k,
        },
    decreases es@.len() - i,
{
    let ghost ms = crate::value::value_models(es@).skip(i as int);
    if es.len() - i == 0 {
        let out: Vec<RangeEntry> = Vec::new();
        return Ok(out);
    }
    proof {
        assert(ms[0] == value_model(es@[i as int]));
    }
    let head = match range_entry_of(&es[i]) {
        Ok(e) => e,
        Err(e) => {
            return Err(e);
        },
    };
    proof {
        assert(ms.drop_first() =~= crate::value::value_models(es@).skip(i as int + 1));
    }
    let rest = match range_entries_from(es, i + 1) {
        Ok(v) => v,
        Err(e) => {
            return Err(e);
        },
    };
    let mut out = rest;
    out.insert(0, head);
    Ok(out)
}

/// Parses an XRANGE reply into range entries, in reply order, as
/// `spec_parse_range_entries` describes.
pub fn parse_range_entries(value: RedisValue) -> (r: RedisResult<Vec<RangeEntry>>)
    ensures
        match spec_parse_range_entries(value@) {
            Ok(ems) => r is Ok && r->Ok_0@.len() == ems.len() && forall|j: int|
                0 <= j < ems.len() ==> #[trigger] r->Ok_0@[j]@ == ems[j],
            Err(k) => r is Err && r->Err_0.error == k,
        },
{
    let es = match &value {
        RedisValue::Array(es) => es,
        _ => {
            return Err(reply_shape_error());
        },
    };
    proof {
        assert(value@->Array_0 =~= crate::value::value_models(es@));
        assert(crate::value::value_models(es@).skip(0) =~= crate::value::value_models(es@));
    }
    range_entries_from(es, 0)
}

/// Parses one stream of an XREAD reply, as `spec_stream` describes.
fn stream_entries_of(v: &RedisValue) -> (r: RedisResult<Vec<StreamEntry>>)
    ensures
        match spec_stream(v@) {
            Ok(ems) => r is Ok && r->Ok_0@.len() == ems.len() && forall|j: int|
                0 <= j < ems.len() ==> #[trigger] r->Ok_0@[j]@ == ems[j],
            Err(k) => r is Err && r->Err_0.error == k,
        },
{
    let parts = match v {
        RedisValue::Array(parts) => parts,
        _ => {
            return Err(reply_shape_error());
        },
    };
    if parts.len() != 2 {
        return Err(reply_shape_error());
    }
    proof {
        assert(v@->Array_0[0] == value_model(parts@[0]));
        assert(v@->Array_0[1] == value_model(parts@[1]));
    }
    let name = match crate::value::from_redis_value::<String>(&parts[0]) {
        Ok(t) => t,
        Err(_) => {
            return Err(reply_shape_error());
        },
    };
    let es = match &parts[1] {
        RedisValue::Array(es) => es,
        _ => {
            return Err(reply_shape_error());
        },
    };
    proof {
        assert(value_model(parts@[1])->Array_0 =~= crate::value::value_models(es@));
        assert(crate::value::value_models(es@).skip(0) =~= crate::value::value_models(es@));
    }
    let entries = match range_entries_from(es, 0) {
        Ok(v) => v,
        Err(e) => {
            return Err(e);
        },
    };
    let mut out: Vec<StreamEntry> = Vec::new();
    let mut i: usize = 0;
    let ghost ems = spec_entries(crate::value::value_models(es@))->Ok_0;
    while i < entries.len()
        invariant
            0 <= i <= entries@.len(),
            entries@.len() == ems.len(),
            forall|j: int| 0 <= j < ems.len() ==> #[trigger] entries@[j]@ == ems[j],
            out@.len() == i as int,
            forall|j: int|
                0 <= j < i ==> #[trigger] out@[j]@ == (StreamEntryModel {
                    stream: name@,
                    id: ems[j].id,
                    fields: ems[j].fields,
                }),
        decreases entries@.len() - i,
    {
        let e = &entries[i];
        let cloned_name = name.clone();
        let cloned_fields = clone_fields(&e.values);
        let item = StreamEntry { stream: cloned_name, id: e.id, values: cloned_fields };
        proof {
            assert(entries@[i as int]@ == ems[i as int]);
            assert(item@.stream == name@);
            assert(item@.id == ems[i as int].id);
            assert(item@.fields == field_models(entries@[i as int].values@));
            assert(entries@[i as int]@.fields == field_models(entries@[i as int].values@));
            assert(item@.fields == ems[i as int].fields);
        }
        out.push(item);
        i = i + 1;
    }
    Ok(out)
}

/// Copies a field list; the copy has the same model.
fn clone_fields(fields: &Vec<(String, RedisValue)>) -> (r: Vec<(String, RedisValue)>)
    ensures
        field_models(r@) == field_models(fields@),
        r@.len() == fields@.len(),
{
    let mut out: Vec<(String, RedisValue)> = Vec::new();
    let mut i: usize = 0;
    while i < fields.len()
        invariant
            0 <= i <= fields@.len(),
            out@.len() == i as int,
            forall|j: int|
                0 <= j < i ==> #[trigger] out@[j].0@ == fields@[j].0@ && out@[j].1@
                    == fields@[j].1@,
        decreases fields@.len() - i,
    {
        let p = &fields[i];
        out.push((p.0.clone(), p.1.clone()));
        i = i + 1;
    }
    proof {
        assert(field_models(out@) =~= field_models(fields@));
    }
    out
}

/// Parses the streams of `ss` starting at `i`, concatenating their entries.
fn streams_from(ss: &Vec<RedisValue>, i: usize) -> (r: RedisResult<Vec<StreamEntry>>)
    requires
        i <= ss@.len(),
    ensures
        match spec_streams(crate::value::value_models(ss@).skip(i as int)) {
            Ok(ems) => r is Ok && r->Ok_0@.len() == ems.len() && forall|j: int|
                0 <= j < ems.len() ==> #[trigger] r->Ok_0@[j]@ == ems[j],
            Err(k) => r is Err && r->Err_0.error == k,
        },
    decreases ss@.len() - i,
{
    let ghost ms = crate::value::value_models(ss@).skip(i as int);
    if ss.len() - i == 0 {
        let out: Vec<StreamEntry> = Vec::new();
        return Ok(out);
    }
    proof {
        assert(ms[0] == value_model(ss@[i as int]));
    }
    let mut head = match stream_entries_of(&ss[i]) {
        Ok(v) => v,
        Err(e) => {
            return Err(e);
        },
    };
    proof {
        assert(ms.drop_first() =~= crate::value::value_models(ss@).skip(i as int + 1));
    }
    let mut rest = match streams_from(ss, i + 1) {
        Ok(v) => v,
        Err(e) => {
            return Err(e);
        },
    };
    head.append(&mut rest);
    Ok(head)
}

/// Parses an XREAD or XREADGROUP reply into stream entries, flattened in
/// reply order, as `spec_parse_stream_entries` describes.
pub fn parse_stream_entries(value: RedisValue) -> (r: RedisResult<Vec<StreamEntry>>)
    ensures
        match spec_parse_stream_entries(value@) {
            Ok(ems) => r is Ok && r->Ok_0@.len() == ems.len() && forall|j: int|
                0 <= j < ems.len() ==> #[trigger] r->Ok_0@[j]@ == ems[j],
            Err(k) => r is Err && r->Err_0.error == k,
        },
{
    let ss = match &value {
        RedisValue::Array(ss) => ss,
        _ => {
            return Err(reply_shape_error());
        },
    };
    proof {
        assert(value@->Array_0 =~= crate::value::value_models(ss@));
        assert(crate::value::value_models(ss@).skip(0) =~= crate::value::value_models(ss@));
    }
    streams_from(ss, 0)
}

/// The kind of range a range read asks for.
#[derive(Clone, Copy, Debug)]
pub enum RangeType {
    /// The whole stream: `-` to `+`.
    Any,
    /// Everything from the given id on: id to `+`.
    GreaterThan(EntryId),
    /// Everything up to the given id: `-` to id.
    LessThan(EntryId),
    /// A bounded range; only valid when the left bound is below the right.
    GreaterLessThan(EntryId, EntryId),
}

/// A range is valid unless it is bounded with `lo >= hi`.
pub open spec fn spec_range_valid(rt: RangeType) -> bool {
    match rt {
        RangeType::GreaterLessThan(l, r) => entry_id_lt(l, r),
        _ => true,
    }
}

/// The left cursor text of a range.
pub open spec fn spec_range_left(rt: RangeType) -> Seq<char> {
    match rt {
        RangeType::Any => seq!['-'],
        RangeType::GreaterThan(l) => spec_entry_id_chars(l.millis, l.serial),
        RangeType::LessThan(_) => seq!['-'],
        RangeType::GreaterLessThan(l, _) => spec_entry_id_chars(l.millis, l.serial),
    }
}

/// The right cursor text of a range.
pub open spec fn spec_range_right(rt: RangeType) -> Seq<char> {
    match rt {
        RangeType::Any => seq!['+'],
        RangeType::GreaterThan(_) => seq!['+'],
        RangeType::LessThan(r) => spec_entry_id_chars(r.millis, r.serial),
        RangeType::GreaterLessThan(_, r) => spec_entry_id_chars(r.millis, r.serial),
    }
}

impl RangeType {
    /// Whether the left bound is below the right bound.
    pub fn is_valid(&self) -> (r: bool)
        ensures
            r == spec_range_valid(*self),
    {
        match self {
            RangeType::GreaterLessThan(left, right) => *left < *right,
            _ => true,
        }
    }

    /// The two cursor texts the range serialises to.
    pub(crate) fn to_left_right(&self) -> (r: (String, String))
        ensures
            r.0@ == spec_range_left(*self),
            r.1@ == spec_range_right(*self),
    {
        let minus = ascii_char_string(0x2d);
        let plus = ascii_char_string(0x2b);
        proof {
            assert(minus@ =~= seq!['-']);
            assert(plus@ =~= seq!['+']);
        }
        match self {
            RangeType::Any => (minus, plus),
            RangeType::GreaterThan(left) => (left.to_string(), plus),
            RangeType::LessThan(right) => (minus, right.to_string()),
            RangeType::GreaterLessThan(left, right) => (left.to_string(), right.to_string()),
        }
    }
}

/// A one-character ASCII string.
fn ascii_char_string(b: u8) -> (r: String)
    requires
        b < 0x80,
    ensures
        r@ == seq![b as char],
{
    let mut bytes: Vec<u8> = Vec::new();
    bytes.push(b);
    let r = ascii_to_string(bytes);
    proof {
        assert(r@ =~= seq![b as char]);
    }
    r
}

} // verus!
