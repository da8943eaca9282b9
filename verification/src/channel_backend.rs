//! What is read from and written to channels, whatever the transport.
use vstd::prelude::*;

use crate::json::{field, lemma_first_is_position, opt_doc, Json, Number, Value};
use crate::json_text::{double_doc, nearest_double};
use crate::text::{decimal, write_u64};

verus! {

/// A file attached to an aggregate or a message.
#[derive(Debug, Clone, PartialEq, Eq)]
pub struct Attachment {
    pub filename: String,
    /// Missing when the agent does not know the type.
    pub content_type: Option<String>,
    pub size: u64,
    pub url: String,
}

impl Attachment {
    /// The document of the attachment.
    pub open spec fn doc(&self) -> Json {
        Json::Obj(
            seq![
                ("filename"@, Json::Str(self.filename@)),
                (
                    "content_type"@,
                    match self.content_type {
                        Some(t) => Json::Str(t@),
                        None => Json::Null,
                    },
                ),
                ("size"@, Json::Int(self.size as int)),
                ("url"@, Json::Str(self.url@)),
            ],
        )
    }

    /// The document of the attachment.
    pub fn to_json(&self) -> (v: Value)
        ensures
            v@ == self.doc(),
    {
        let mut e: Vec<(String, Value)> = Vec::new();
        e.push(("filename".to_owned(), Value::text(self.filename.as_str())));
        e.push(("content_type".to_owned(), Value::opt_text(&self.content_type)));
        e.push(("size".to_owned(), Value::unsigned(self.size)));
        e.push(("url".to_owned(), Value::text(self.url.as_str())));
        let v = Value::object(e);
        assert(v@->Obj_0 =~= self.doc()->Obj_0);
        v
    }
}

/// A channel's aggregate: its data, its attachments and when it was written.
#[derive(Debug, Clone)]
pub struct ChannelAggregate {
    pub data: Value,
    pub attachments: Vec<Attachment>,
    /// Milliseconds since the epoch.
    pub last_updated: Option<u64>,
}

/// The largest time that a double holds with every smaller one.
pub const EXACT_LIMIT: u64 = 9_007_199_254_740_992;

/// The document of a time as a double: its own digits where a double holds it, and else
/// the nearest double.
pub open spec fn time_doc(ms: u64, nearest: Option<Json>) -> Json {
    let digits = Json::Float(decimal(ms as nat) + ".0"@);
    if ms < EXACT_LIMIT {
        digits
    } else {
        match nearest {
            Some(j) => j,
            None => digits,
        }
    }
}

/// The document of a time as a double. `nearest` is the double nearest to the time; it
/// is asked only where a double cannot hold the time.
pub fn time_value(ms: u64, nearest: Option<Value>) -> (v: Value)
    ensures
        v@ == time_doc(ms, opt_doc(nearest)),
{
    if ms >= EXACT_LIMIT {
        if let Some(n) = nearest {
            return n;
        }
    }
    let mut t = write_u64(ms);
    t.append(".0");
    Value::Number(Number::Float(t))
}

impl ChannelAggregate {
    /// The document of the aggregate. The time is a double.
    pub open spec fn doc(&self) -> Json {
        Json::Obj(
            seq![
                ("data"@, self.data@),
                (
                    "attachments"@,
                    Json::Arr(
                        Seq::new(self.attachments@.len(), |i: int| self.attachments@[i].doc()),
                    ),
                ),
                (
                    "last_updated"@,
                    match self.last_updated {
                        Some(ms) => time_doc(ms, double_doc(decimal(ms as nat))),
                        None => Json::Null,
                    },
                ),
            ],
        )
    }

    /// The document of the aggregate.
    pub fn to_json(&self) -> (v: Value)
        ensures
            v@ == self.doc(),
    {
        let mut items: Vec<Value> = Vec::new();
        let mut i: usize = 0;
        while i < self.attachments.len()
            invariant
                i <= self.attachments@.len(),
                items@.len() == i,
                forall|j: int| 0 <= j < i ==> (#[trigger] items@[j])@ == self.attachments@[j].doc(),
            decreases self.attachments@.len() - i,
        {
            items.push(self.attachments[i].to_json());
            i += 1;
        }
        let stamp = match self.last_updated {
            Some(ms) => time_value(ms, nearest_double(write_u64(ms).as_str())),
            None => Value::Null,
        };
        let list = Value::Array(items);
        assert(list@->Arr_0 =~= Seq::new(
            self.attachments@.len(),
            |i: int| self.attachments@[i].doc(),
        ));
        let mut e: Vec<(String, Value)> = Vec::new();
        e.push(("data".to_owned(), self.data.clone()));
        e.push(("attachments".to_owned(), list));
        e.push(("last_updated".to_owned(), stamp));
        let v = Value::object(e);
        assert(v@->Obj_0 =~= self.doc()->Obj_0);
        v
    }
}

/// How an aggregate is written.
#[derive(Debug, Clone)]
pub struct AggregateOptions {
    /// How old the write may get before it is flushed, in milliseconds; 0 is at
    /// once.
    pub max_age_ms: u64,
    /// Log a data point too.
    pub save_log: bool,
    /// Replace the aggregate instead of merging into it.
    pub replace_data: bool,
    pub clear_attachments: bool,
    /// Dotted key paths to replace within a merge.
    pub replace_keys: Vec<String>,
}

impl Default for AggregateOptions {
    fn default() -> (o: Self)
        ensures
            o.max_age_ms == 0,
            !o.save_log,
            !o.replace_data,
            !o.clear_attachments,
            o.replace_keys@.len() == 0,
    {
        AggregateOptions {
            max_age_ms: 0,
            save_log: false,
            replace_data: false,
            clear_attachments: false,
            replace_keys: Vec::new(),
        }
    }
}

/// How a message is updated.
#[derive(Debug, Clone, Copy, PartialEq, Eq, Structural)]
pub struct UpdateMessageOptions {
    /// Replace the payload instead of merging into it.
    pub replace_data: bool,
    pub clear_attachments: bool,
}

impl Default for UpdateMessageOptions {
    fn default() -> (o: Self)
        ensures
            o == (UpdateMessageOptions { replace_data: false, clear_attachments: false }),
    {
        UpdateMessageOptions { replace_data: false, clear_attachments: false }
    }
}

/// The document of an attachment holds every part under its own key; a type that is not known
/// is null.
pub proof fn law_attachment_documents(a: Attachment)
    ensures
        field(a.doc(), "filename"@) == Some(Json::Str(a.filename@)),
        field(a.doc(), "content_type"@) == Some(
            match a.content_type {
                Some(t) => Json::Str(t@),
                None => Json::Null,
            },
        ),
        field(a.doc(), "size"@) == Some(Json::Int(a.size as int)),
        field(a.doc(), "url"@) == Some(Json::Str(a.url@)),
{
    reveal_strlit("filename");
    reveal_strlit("content_type");
    reveal_strlit("size");
    reveal_strlit("url");
    let e = a.doc()->Obj_0;
    assert(e[0].0 == "filename"@ && e[1].0 == "content_type"@ && e[2].0 == "size"@ && e[3].0
        == "url"@);
    lemma_first_is_position(e, "filename"@, 0);
    lemma_first_is_position(e, "content_type"@, 1);
    lemma_first_is_position(e, "size"@, 2);
    lemma_first_is_position(e, "url"@, 3);
}

/// The document of an aggregate holds its data, its attachments in their order, and when it
/// was updated, if that is known.
pub proof fn law_aggregate_documents(g: ChannelAggregate, i: int)
    ensures
        field(g.doc(), "data"@) == Some(g.data@),
        field(g.doc(), "attachments"@) matches Some(Json::Arr(list)) && list.len()
            == g.attachments@.len() && (0 <= i < list.len() ==> list[i] == g.attachments@[i].doc()),
        g.last_updated is None ==> field(g.doc(), "last_updated"@) == Some(Json::Null),
        g.last_updated matches Some(ms) ==> (ms < 0x20_0000_0000_0000 ==> field(
            g.doc(),
            "last_updated"@,
        ) == Some(Json::Float(decimal(ms as nat) + ".0"@))),
{
    reveal_strlit("data");
    reveal_strlit("attachments");
    reveal_strlit("last_updated");
    let e = g.doc()->Obj_0;
    assert(e[0].0 == "data"@ && e[1].0 == "attachments"@ && e[2].0 == "last_updated"@);
    lemma_first_is_position(e, "data"@, 0);
    lemma_first_is_position(e, "attachments"@, 1);
    lemma_first_is_position(e, "last_updated"@, 2);
}

} // verus!
