//! Interfaces for working with Redis streams: typed entries, the command
//! composers for each stream operation, and the subscription engine.

pub mod consume;
pub mod entry;
pub mod manage;
pub mod produce;

pub use consume::{range_cmd, read_explicit_cmd, subscribe_cmd, RangeOptions, ReadExplicitOptions,
    RedisGroup, SubscribeOptions, SubscriptionEngine};
pub use entry::{parse_range_entries, parse_stream_entries, EntryId, RangeEntry, RangeType,
    StreamEntry};
pub use manage::{ack_entry_command, ack_response_from_value, pending_list_command,
    resolve_touch_group, touch_group_command, AckOptions, AckResponse, PendingOptions,
    TouchGroupOptions};
pub use produce::{add_command, entry_id_from_response, SendEntryOptions};
