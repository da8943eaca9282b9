//! Channels kept in memory, for tests of what is written against them.
use vstd::prelude::*;

use crate::channel_backend::{AggregateOptions, UpdateMessageOptions};
use crate::diff::{applied, apply_diff};
use crate::json::{
    at, empty_obj, entries_of, find, insert, lemma_position, lemma_put, opt_doc, put, Entries, Json,
    Value,
};
use crate::text::{copy_all, views};

verus! {

/// A write to an aggregate.
#[derive(Debug, Clone)]
pub struct RecordedAggregateWrite {
    pub channel: String,
    pub data: Value,
    pub opts: AggregateOptions,
}

/// A new message.
#[derive(Debug, Clone)]
pub struct RecordedMessage {
    pub channel: String,
    pub data: Value,
}

/// An update of a message.
#[derive(Debug, Clone)]
pub struct RecordedMessageUpdate {
    pub channel: String,
    pub message_id: u64,
    pub data: Value,
    pub opts: UpdateMessageOptions,
}

/// How many messages were created. Nothing but a new message changes it.
#[derive(Debug)]
pub struct MessageCount {
    count: u64,
}

impl View for MessageCount {
    type V = nat;

    closed spec fn view(&self) -> nat {
        self.count as nat
    }
}

/// Channels that hold their aggregates in memory and record every write.
#[derive(Debug)]
pub struct MockBackend {
    pub aggregates: Vec<(String, Value)>,
    pub aggregate_writes: Vec<RecordedAggregateWrite>,
    pub messages: Vec<RecordedMessage>,
    pub message_updates: Vec<RecordedMessageUpdate>,
    pub created: MessageCount,
}

/// Whether two ways to write an aggregate are the same.
pub open spec fn same_options(a: AggregateOptions, b: AggregateOptions) -> bool {
    &&& a.max_age_ms == b.max_age_ms
    &&& a.save_log == b.save_log
    &&& a.replace_data == b.replace_data
    &&& a.clear_attachments == b.clear_attachments
    &&& views(a.replace_keys@) == views(b.replace_keys@)
}

fn copy_options(o: &AggregateOptions) -> (r: AggregateOptions)
    ensures
        same_options(r, *o),
{
    AggregateOptions {
        max_age_ms: o.max_age_ms,
        save_log: o.save_log,
        replace_data: o.replace_data,
        clear_attachments: o.clear_attachments,
        replace_keys: copy_all(&o.replace_keys),
    }
}

/// The aggregates after a write. A channel without an aggregate begins as an empty
/// object.
pub open spec fn after_write(e: Entries, channel: Seq<char>, data: Json, replace: bool) -> Entries {
    put(
        e,
        channel,
        if replace {
            data
        } else {
            match at(e, channel) {
                Some(was) => applied(was, data, false),
                None => applied(empty_obj(), data, false),
            }
        },
    )
}

impl Default for MockBackend {
    fn default() -> (b: Self)
        ensures
            b.created@ == 0,
            b.aggregates@.len() == 0,
            b.aggregate_writes@.len() == 0,
            b.messages@.len() == 0,
            b.message_updates@.len() == 0,
    {
        MockBackend::new()
    }
}

impl MockBackend {
    /// Channels without aggregates.
    pub fn new() -> (b: Self)
        ensures
            b.created@ == 0,
            b.aggregates@.len() == 0,
            b.aggregate_writes@.len() == 0,
            b.messages@.len() == 0,
            b.message_updates@.len() == 0,
    {
        MockBackend {
            aggregates: Vec::new(),
            aggregate_writes: Vec::new(),
            messages: Vec::new(),
            message_updates: Vec::new(),
            created: MessageCount { count: 0 },
        }
    }

    /// Gives a channel an aggregate without recording a write.
    pub fn seed_aggregate(&mut self, channel: &str, data: Value)
        ensures
            entries_of(final(self).aggregates@) == put(
                entries_of(old(self).aggregates@),
                channel@,
                data@,
            ),
            final(self).aggregate_writes == old(self).aggregate_writes,
            final(self).messages == old(self).messages,
            final(self).created == old(self).created,
            final(self).message_updates == old(self).message_updates,
    {
        insert(&mut self.aggregates, channel, data);
    }

    /// The writes to aggregates, in their order.
    pub fn aggregate_writes(&self) -> (r: &Vec<RecordedAggregateWrite>)
        ensures
            *r == self.aggregate_writes,
    {
        &self.aggregate_writes
    }

    /// The messages, in their order.
    pub fn messages(&self) -> (r: &Vec<RecordedMessage>)
        ensures
            *r == self.messages,
    {
        &self.messages
    }

    /// The aggregate of a channel.
    pub fn fetch_channel_data(&self, channel: &str) -> (r: Option<Value>)
        ensures
            opt_doc(r) == at(entries_of(self.aggregates@), channel@),
    {
        proof {
            lemma_position(entries_of(self.aggregates@), channel@);
        }
        match find(&self.aggregates, channel) {
            Some(i) => Some(self.aggregates[i].1.clone()),
            None => None,
        }
    }

    /// Replaces the aggregate of a channel or merges into it, and records the write.
    pub fn update_channel_aggregate(&mut self, channel: &str, data: &Value, opts: &AggregateOptions)
        ensures
            entries_of(final(self).aggregates@) == after_write(
                entries_of(old(self).aggregates@),
                channel@,
                data@,
                opts.replace_data,
            ),
            final(self).aggregate_writes@.len() == old(self).aggregate_writes@.len() + 1,
            final(self).aggregate_writes@.drop_last() == old(self).aggregate_writes@,
            ({
                let w = final(self).aggregate_writes@.last();
                w.channel@ == channel@ && w.data@ == data@ && same_options(w.opts, *opts)
            }),
            final(self).messages == old(self).messages,
            final(self).created == old(self).created,
            final(self).message_updates == old(self).message_updates,
    {
        let new = if opts.replace_data {
            data.clone()
        } else {
            match self.fetch_channel_data(channel) {
                Some(was) => apply_diff(&was, data, false),
                None => apply_diff(&Value::empty_object(), data, false),
            }
        };
        insert(&mut self.aggregates, channel, new);
        let ghost before = self.aggregate_writes@;
        self.aggregate_writes.push(
            RecordedAggregateWrite {
                channel: channel.to_owned(),
                data: data.clone(),
                opts: copy_options(opts),
            },
        );
        assert(self.aggregate_writes@.drop_last() =~= before);
    }

    /// Records a new message. The messages count from one, and the count goes on
    /// whatever becomes of the list.
    pub fn create_message(&mut self, channel: &str, data: &Value) -> (id: u64)
        requires
            old(self).created@ < u64::MAX,
        ensures
            id == old(self).created@ + 1,
            final(self).created@ == id,
            final(self).messages@.len() == old(self).messages@.len() + 1,
            final(self).messages@.drop_last() == old(self).messages@,
            final(self).messages@.last().channel@ == channel@,
            final(self).messages@.last().data@ == data@,
            final(self).aggregates == old(self).aggregates,
            final(self).aggregate_writes == old(self).aggregate_writes,
            final(self).message_updates == old(self).message_updates,
    {
        let ghost before = self.messages@;
        self.messages.push(RecordedMessage { channel: channel.to_owned(), data: data.clone() });
        assert(self.messages@.drop_last() =~= before);
        self.created.count += 1;
        self.created.count
    }

    /// Records an update of a message.
    pub fn update_message(
        &mut self,
        channel: &str,
        message_id: u64,
        data: &Value,
        opts: &UpdateMessageOptions,
    )
        ensures
            final(self).message_updates@.len() == old(self).message_updates@.len() + 1,
            final(self).message_updates@.drop_last() == old(self).message_updates@,
            ({
                let u = final(self).message_updates@.last();
                u.channel@ == channel@ && u.message_id == message_id && u.data@ == data@ && u.opts
                    == *opts
            }),
            final(self).aggregates == old(self).aggregates,
            final(self).aggregate_writes == old(self).aggregate_writes,
            final(self).messages == old(self).messages,
            final(self).created == old(self).created,
    {
        let ghost before = self.message_updates@;
        self.message_updates.push(
            RecordedMessageUpdate {
                channel: channel.to_owned(),
                message_id,
                data: data.clone(),
                opts: *opts,
            },
        );
        assert(self.message_updates@.drop_last() =~= before);
    }

    /// No events arrive.
    pub fn has_persistent_connection(&self) -> (r: bool)
        ensures
            !r,
    {
        false
    }
}

/// After a write the channel holds what was written, merged into what it held unless
/// that was replaced, and every other channel holds what it held.
pub proof fn law_reads_see_writes(
    e: Entries,
    channel: Seq<char>,
    data: Json,
    replace: bool,
    other: Seq<char>,
)
    ensures
        replace ==> at(after_write(e, channel, data, replace), channel) == Some(data),
        !replace && at(e, channel) is Some ==> at(after_write(e, channel, data, replace), channel)
            == Some(applied(at(e, channel).unwrap(), data, false)),
        other != channel ==> at(after_write(e, channel, data, replace), other) == at(e, other),
{
    let v = if replace {
        data
    } else {
        match at(e, channel) {
            Some(was) => applied(was, data, false),
            None => applied(empty_obj(), data, false),
        }
    };
    lemma_put(e, channel, v);
}

} // verus!
