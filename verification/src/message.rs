//! A message flowing through the engine: its id, the payload as received,
//! the context that expressions read and tasks write, the audit trail and
//! the errors recorded along the way.
//!
//! The context is an object with three root fields, `data`, `metadata` and
//! `temp_data`, each itself an object when the message is built.

use vstd::prelude::*;
use crate::error::ErrorInfo;
use crate::json::{Json, lookup};
use crate::text::owned;

verus! {

/// Whether a character is a lowercase hexadecimal digit.
pub open spec fn lower_hex(c: char) -> bool {
    ('0' <= c && c <= '9') || ('a' <= c && c <= 'f')
}

/// Whether `s` has the shape of a hyphenated lowercase UUID:
/// `xxxxxxxx-xxxx-xxxx-xxxx-xxxxxxxxxxxx`.
pub open spec fn uuid_shaped(s: Seq<char>) -> bool {
    &&& s.len() == 36
    &&& forall|i: int|
        0 <= i < 36 ==> if i == 8 || i == 13 || i == 18 || i == 23 {
            s[i] == '-'
        } else {
            lower_hex(#[trigger] s[i])
        }
}

/// uuid's `Uuid::now_v7()`, hyphenated and lowercase.
///
/// The value rests on the clock and on chance, so nothing is claimed of it
/// but its shape, which uuid's `Hyphenated::encode_lower` documents and its
/// source shows: 36 characters, hyphens at 8, 13, 18 and 23, lowercase
/// hexadecimal digits elsewhere.
#[verifier::external_body]
fn uuid_v7_text() -> (r: String)
    ensures
        uuid_shaped(r@),
{
    let mut buf = [0u8; 36];
    let text = uuid::Uuid::now_v7().hyphenated().encode_lower(&mut buf);
    text.to_string()
}

/// A message's id: a generated UUID v7, or one the caller supplied.
#[derive(Debug)]
pub enum MessageId {
    /// A generated id, always in hyphenated lowercase UUID form.
    Uuid(String),
    /// A caller-supplied id, such as a correlation id from upstream.
    Custom(String),
}

impl MessageId {
    /// The id's text.
    pub open spec fn text(&self) -> Seq<char> {
        match self {
            MessageId::Uuid(s) => s@,
            MessageId::Custom(s) => s@,
        }
    }

    /// The id's invariant: a generated id is UUID-shaped.
    pub open spec fn wf(&self) -> bool {
        match self {
            MessageId::Uuid(s) => uuid_shaped(s@),
            MessageId::Custom(_) => true,
        }
    }

    /// A fresh UUID v7 id.
    pub fn new_uuid_v7() -> (r: MessageId)
        ensures
            r is Uuid,
            r.wf(),
    {
        MessageId::Uuid(uuid_v7_text())
    }

    /// The id's text.
    pub fn as_str(&self) -> (r: &str)
        ensures
            r@ == self.text(),
    {
        match self {
            MessageId::Uuid(s) => s.as_str(),
            MessageId::Custom(s) => s.as_str(),
        }
    }
}

/// A single recorded mutation.
#[derive(Debug)]
pub struct Change {
    /// The dotted path written.
    pub path: String,
    /// What was there before (`null` when nothing was).
    pub old_value: Json,
    /// What was written.
    pub new_value: Json,
}

/// One audit-trail entry: a task that ran, its status and what it changed.
#[derive(Debug)]
pub struct AuditTrail {
    pub workflow_id: String,
    pub task_id: String,
    /// When it ran, in RFC 3339.
    pub timestamp: String,
    pub changes: Vec<Change>,
    pub status: usize,
    /// The loop counter of the sweep that produced this entry, for a looping
    /// workflow.
    pub loop_counter: Option<i64>,
}

/// Whether `context` is the canonical context for these seeds: an object
/// with `data`, `metadata` and `temp_data`, in that order, each its seed or
/// an empty object.
pub open spec fn is_context_from(
    context: Json,
    data: Option<Json>,
    metadata: Option<Json>,
    temp_data: Option<Json>,
) -> bool {
    context matches Json::Object(entries) && entries@.len() == 3 && entries@[0].0@ == "data"@
        && entries@[1].0@ == "metadata"@ && entries@[2].0@ == "temp_data"@ && root_field_is(
        entries@[0].1,
        data,
    ) && root_field_is(entries@[1].1, metadata) && root_field_is(entries@[2].1, temp_data)
}

/// Whether a root field holds its seed, or an empty object when none.
pub open spec fn root_field_is(field: Json, seed: Option<Json>) -> bool {
    match seed {
        Some(v) => field == v,
        None => field matches Json::Object(e) && e@.len() == 0,
    }
}

/// The value a root field holds: its seed, or an empty object.
fn slot(seed: Option<Json>) -> (r: Json)
    ensures
        root_field_is(r, seed),
{
    match seed {
        Some(v) => v,
        None => Json::Object(Vec::new()),
    }
}

/// The canonical context object, each root field its seed or an empty
/// object, in the fixed order `data`, `metadata`, `temp_data`.
pub fn context_from(data: Option<Json>, metadata: Option<Json>, temp_data: Option<Json>) -> (r: Json)
    ensures
        is_context_from(r, data, metadata, temp_data),
{
    let mut entries: Vec<(String, Json)> = Vec::new();
    entries.push((owned("data"), slot(data)));
    entries.push((owned("metadata"), slot(metadata)));
    entries.push((owned("temp_data"), slot(temp_data)));
    Json::Object(entries)
}

/// The canonical empty context.
pub fn empty_context() -> (r: Json)
    ensures
        is_context_from(r, None, None, None),
{
    context_from(None, None, None)
}

/// A message flowing through the engine.
#[derive(Debug)]
pub struct Message {
    id: MessageId,
    payload: Json,
    /// The context: `data`, `metadata` and `temp_data`.
    pub context: Json,
    audit_trail: Vec<AuditTrail>,
    errors: Vec<ErrorInfo>,
    capture_changes: bool,
    routing_bucket: Option<u8>,
}

/// The value under `key` of `context`, `null` when it has none.
pub open spec fn root_field(context: Json, key: Seq<char>) -> Json {
    match context.field(key) {
        Some(v) => v,
        None => Json::Null,
    }
}

impl Message {
    /// The context.
    pub closed spec fn ctx(&self) -> Json {
        self.context
    }

    pub closed spec fn id_text(&self) -> Seq<char> {
        self.id.text()
    }

    pub closed spec fn id_wf(&self) -> bool {
        self.id.wf()
    }

    pub closed spec fn payload_value(&self) -> Json {
        self.payload
    }

    pub closed spec fn trail(&self) -> Seq<AuditTrail> {
        self.audit_trail@
    }

    pub closed spec fn recorded_errors(&self) -> Seq<ErrorInfo> {
        self.errors@
    }

    pub closed spec fn captures(&self) -> bool {
        self.capture_changes
    }

    pub closed spec fn bucket(&self) -> Option<u8> {
        self.routing_bucket
    }

    /// Start building a message.
    pub fn builder() -> (b: MessageBuilder)
        ensures
            b.seeds() == MessageSeeds::empty(),
    {
        MessageBuilder::new()
    }

    /// A message with a fresh UUID v7 id, this payload, the empty context,
    /// change capture on and no routing bucket.
    pub fn new(payload: Json) -> (m: Message)
        ensures
            m.id_wf(),
            uuid_shaped(m.id_text()),
            m.payload_value() == payload,
            is_context_from(m.ctx(), None, None, None),
            m.trail().len() == 0,
            m.recorded_errors().len() == 0,
            m.captures(),
            m.bucket() is None,
    {
        let context = empty_context();
        Message {
            id: MessageId::new_uuid_v7(),
            payload,
            context,
            audit_trail: Vec::new(),
            errors: Vec::new(),
            capture_changes: true,
            routing_bucket: None,
        }
    }

    /// Record an error.
    pub fn add_error(&mut self, error: ErrorInfo)
        ensures
            final(self).recorded_errors() == old(self).recorded_errors().push(error),
            final(self).id_text() == old(self).id_text(),
            final(self).payload_value() == old(self).payload_value(),
            final(self).ctx() == old(self).ctx(),
            final(self).trail() == old(self).trail(),
            final(self).captures() == old(self).captures(),
            final(self).bucket() == old(self).bucket(),
    {
        self.errors.push(error);
    }

    /// Put `context` in place of the message's context.
    pub fn replace_context(&mut self, context: Json)
        ensures
            final(self).ctx() == context,
            final(self).recorded_errors() == old(self).recorded_errors(),
            final(self).id_text() == old(self).id_text(),
            final(self).payload_value() == old(self).payload_value(),
            final(self).trail() == old(self).trail(),
            final(self).captures() == old(self).captures(),
            final(self).bucket() == old(self).bucket(),
    {
        self.context = context;
    }

    /// Whether any error was recorded.
    pub fn has_errors(&self) -> (r: bool)
        ensures
            r == (self.recorded_errors().len() > 0),
    {
        self.errors.len() > 0
    }

    /// The message id.
    pub fn id(&self) -> (r: &str)
        ensures
            r@ == self.id_text(),
    {
        self.id.as_str()
    }

    /// The payload as the engine received it.
    pub fn payload(&self) -> (r: &Json)
        ensures
            *r == self.payload_value(),
    {
        &self.payload
    }

    /// The audit-trail entries, one per task that ran.
    pub fn audit_trail(&self) -> (r: &Vec<AuditTrail>)
        ensures
            r@ == self.trail(),
    {
        &self.audit_trail
    }

    /// The errors recorded while processing.
    pub fn errors(&self) -> (r: &Vec<ErrorInfo>)
        ensures
            r@ == self.recorded_errors(),
    {
        &self.errors
    }

    /// Whether per-write change capture is on.
    pub fn capture_changes(&self) -> (r: bool)
        ensures
            r == self.captures(),
    {
        self.capture_changes
    }

    /// The routing bucket for a traffic split, if one was set.
    pub fn routing_bucket(&self) -> (r: Option<u8>)
        ensures
            r == self.bucket(),
    {
        self.routing_bucket
    }

    /// The whole context: `data`, `metadata` and `temp_data`.
    pub fn context(&self) -> (r: &Json)
        ensures
            *r == self.ctx(),
    {
        &self.context
    }

    /// The context's root field `key`, `null` when absent.
    fn root(&self, key: &str) -> (r: &Json)
        ensures
            *r == root_field(self.ctx(), key@),
    {
        match self.context.get(key) {
            Some(v) => v,
            None => &Json::Null,
        }
    }

    /// The context's `data`, `null` when absent.
    pub fn data(&self) -> (r: &Json)
        ensures
            *r == root_field(self.ctx(), "data"@),
    {
        self.root("data")
    }

    /// The context's `metadata`, `null` when absent.
    pub fn metadata(&self) -> (r: &Json)
        ensures
            *r == root_field(self.ctx(), "metadata"@),
    {
        self.root("metadata")
    }

    /// The context's `temp_data`, `null` when absent.
    pub fn temp_data(&self) -> (r: &Json)
        ensures
            *r == root_field(self.ctx(), "temp_data"@),
    {
        self.root("temp_data")
    }
}

/// What a builder has been given so far, as plain values.
pub struct MessageSeeds {
    pub id: Option<Seq<char>>,
    pub payload: Option<Json>,
    pub capture_changes: Option<bool>,
    pub data: Option<Json>,
    pub metadata: Option<Json>,
    pub temp_data: Option<Json>,
    pub routing_bucket: Option<u8>,
}

impl MessageSeeds {
    /// Nothing given.
    pub open spec fn empty() -> MessageSeeds {
        MessageSeeds {
            id: None,
            payload: None,
            capture_changes: None,
            data: None,
            metadata: None,
            temp_data: None,
            routing_bucket: None,
        }
    }
}

/// The view of an optional string.
pub open spec fn opt_text(s: Option<String>) -> Option<Seq<char>> {
    match s {
        Some(t) => Some(t@),
        None => None,
    }
}

/// Builder for [`Message`].
#[derive(Debug)]
pub struct MessageBuilder {
    id: Option<String>,
    payload: Option<Json>,
    capture_changes: Option<bool>,
    data: Option<Json>,
    metadata: Option<Json>,
    temp_data: Option<Json>,
    routing_bucket: Option<u8>,
}

/// A seed for a root field is kept only when it is an object; anything else
/// leaves the field as it was, so the root fields stay objects.
pub open spec fn seeded(previous: Option<Json>, value: Json) -> Option<Json> {
    if value is Object {
        Some(value)
    } else {
        previous
    }
}

impl MessageBuilder {
    /// A root-field seed is only ever an object.
    #[verifier::type_invariant]
    spec fn seeds_are_objects(self) -> bool {
        &&& (self.data is Some ==> self.data->0 is Object)
        &&& (self.metadata is Some ==> self.metadata->0 is Object)
        &&& (self.temp_data is Some ==> self.temp_data->0 is Object)
    }

    /// What this builder has been given.
    pub closed spec fn seeds(&self) -> MessageSeeds {
        MessageSeeds {
            id: opt_text(self.id),
            payload: self.payload,
            capture_changes: self.capture_changes,
            data: self.data,
            metadata: self.metadata,
            temp_data: self.temp_data,
            routing_bucket: self.routing_bucket,
        }
    }

    /// An empty builder.
    pub fn new() -> (b: MessageBuilder)
        ensures
            b.seeds() == MessageSeeds::empty(),
    {
        MessageBuilder {
            id: None,
            payload: None,
            capture_changes: None,
            data: None,
            metadata: None,
            temp_data: None,
            routing_bucket: None,
        }
    }

    /// A caller-supplied id; a fresh UUID v7 otherwise.
    pub fn id(self, id: &str) -> (b: MessageBuilder)
        ensures
            b.seeds() == (MessageSeeds { id: Some(id@), ..self.seeds() }),
    {
        proof {
            use_type_invariant(&self);
        }
        MessageBuilder { id: Some(owned(id)), ..self }
    }

    /// The payload; the last one given wins.
    pub fn payload(self, payload: Json) -> (b: MessageBuilder)
        ensures
            b.seeds() == (MessageSeeds { payload: Some(payload), ..self.seeds() }),
    {
        proof {
            use_type_invariant(&self);
        }
        MessageBuilder { payload: Some(payload), ..self }
    }

    /// Seed `context.data`. Keys are taken literally. A value that is not an
    /// object is ignored; a second call keeps the last object.
    pub fn data(self, data: Json) -> (b: MessageBuilder)
        ensures
            b.seeds() == (MessageSeeds { data: seeded(self.seeds().data, data), ..self.seeds() }),
    {
        proof {
            use_type_invariant(&self);
        }
        if data.is_object() {
            MessageBuilder { data: Some(data), ..self }
        } else {
            self
        }
    }

    /// Seed `context.metadata`, as [`Self::data`].
    pub fn metadata(self, metadata: Json) -> (b: MessageBuilder)
        ensures
            b.seeds() == (MessageSeeds {
                metadata: seeded(self.seeds().metadata, metadata),
                ..self.seeds()
            }),
    {
        proof {
            use_type_invariant(&self);
        }
        if metadata.is_object() {
            MessageBuilder { metadata: Some(metadata), ..self }
        } else {
            self
        }
    }

    /// Seed `context.temp_data`, as [`Self::data`].
    pub fn temp_data(self, temp_data: Json) -> (b: MessageBuilder)
        ensures
            b.seeds() == (MessageSeeds {
                temp_data: seeded(self.seeds().temp_data, temp_data),
                ..self.seeds()
            }),
    {
        proof {
            use_type_invariant(&self);
        }
        if temp_data.is_object() {
            MessageBuilder { temp_data: Some(temp_data), ..self }
        } else {
            self
        }
    }

    /// The routing bucket `0..=99`; a larger value is clamped to `99`.
    pub fn routing_bucket(self, bucket: u8) -> (b: MessageBuilder)
        ensures
            b.seeds() == (MessageSeeds {
                routing_bucket: Some(
                    if bucket < 99 {
                        bucket
                    } else {
                        99u8
                    },
                ),
                ..self.seeds()
            }),
    {
        proof {
            use_type_invariant(&self);
        }
        let clamped: u8 = if bucket < 99 {
            bucket
        } else {
            99
        };
        MessageBuilder { routing_bucket: Some(clamped), ..self }
    }

    /// Whether per-write change capture is on (the default).
    pub fn capture_changes(self, on: bool) -> (b: MessageBuilder)
        ensures
            b.seeds() == (MessageSeeds { capture_changes: Some(on), ..self.seeds() }),
    {
        proof {
            use_type_invariant(&self);
        }
        MessageBuilder { capture_changes: Some(on), ..self }
    }

    /// The message: the given id or a fresh UUID v7, the given payload or
    /// `null`, the canonical context with the seeded root fields, change
    /// capture as given or on, and the given bucket.
    pub fn build(self) -> (m: Message)
        ensures
            m.id_wf(),
            match self.seeds().id {
                Some(id) => m.id_text() == id,
                None => uuid_shaped(m.id_text()),
            },
            m.payload_value() == match self.seeds().payload {
                Some(p) => p,
                None => Json::Null,
            },
            is_context_from(m.ctx(), self.seeds().data, self.seeds().metadata, self.seeds().temp_data),
            m.trail().len() == 0,
            m.recorded_errors().len() == 0,
            m.captures() == match self.seeds().capture_changes {
                Some(b) => b,
                None => true,
            },
            m.bucket() == self.seeds().routing_bucket,
    {
        proof {
            use_type_invariant(&self);
        }
        let id = match self.id {
            Some(s) => MessageId::Custom(s),
            None => MessageId::new_uuid_v7(),
        };
        let payload = match self.payload {
            Some(p) => p,
            None => Json::Null,
        };
        let context = context_from(self.data, self.metadata, self.temp_data);
        Message {
            id,
            payload,
            context,
            audit_trail: Vec::new(),
            errors: Vec::new(),
            capture_changes: match self.capture_changes {
                Some(b) => b,
                None => true,
            },
            routing_bucket: self.routing_bucket,
        }
    }
}

/// A context built from seeds reads each root field back: `data`,
/// `metadata` and `temp_data` each hold their seed, or an empty object when
/// none was given.
pub proof fn lemma_context_reads_back_seeds(
    context: Json,
    data: Option<Json>,
    metadata: Option<Json>,
    temp_data: Option<Json>,
)
    requires
        is_context_from(context, data, metadata, temp_data),
    ensures
        root_field_is(root_field(context, "data"@), data),
        root_field_is(root_field(context, "metadata"@), metadata),
        root_field_is(root_field(context, "temp_data"@), temp_data),
{
    reveal_strlit("data");
    reveal_strlit("metadata");
    reveal_strlit("temp_data");
    if let Json::Object(entries) = context {
        let es = entries@;
        assert("data"@ != "metadata"@) by {
            assert("data"@.len() != "metadata"@.len());
        }
        assert("data"@ != "temp_data"@) by {
            assert("data"@.len() != "temp_data"@.len());
        }
        assert("metadata"@ != "temp_data"@) by {
            assert("metadata"@[0] != "temp_data"@[0]);
        }
        assert(es.drop_first()[0] == es[1]);
        assert(es.drop_first().drop_first()[0] == es[2]);
        assert(lookup(es, "data"@) == Some(es[0].1));
        assert(lookup(es, "metadata"@) == lookup(es.drop_first(), "metadata"@));
        assert(lookup(es.drop_first(), "metadata"@) == Some(es[1].1));
        assert(lookup(es, "temp_data"@) == lookup(es.drop_first(), "temp_data"@));
        assert(lookup(es.drop_first(), "temp_data"@) == lookup(
            es.drop_first().drop_first(),
            "temp_data"@,
        ));
        assert(lookup(es.drop_first().drop_first(), "temp_data"@) == Some(es[2].1));
    }
}

} // verus!
