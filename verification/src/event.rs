//! Events: appending them to streams and reading them back.

use vstd::prelude::*;

use crate::digest::{hash_json, json_hash, operation_request_hash, request_hash};
use crate::error::{
    caused_by, invalid, missing, seen, violation, ErrorModel, KernelError, KernelErrorKind,
};
use crate::json::{
    add_field, empty_object, is_object_text, json_quoted, object_text, omitted_content,
    optional_decimal, optional_quoted, quote, quote_optional, redacted_content, searchable,
    searchable_json, write_object, write_optional_number, JsonValue,
};
use crate::kind::{Labelled, Sensitivity};
use crate::model::{
    MemoryEvent, MemoryEventModel, MutationModel, MutationResult, NewEvent, NewEventModel, ReadAccess,
    ReadAccessModel,
};
use crate::operation::{
    prior, required, saved, unreadable, unreadable_error, validate_nonempty, Prior, PriorModel,
};
use crate::order::{ordered, sort_rows, KeyModel, OrderKey, RowKey};
use crate::row::{
    IndexRow, IndexRowModel, MemoryStore, MemoryStoreModel, StoredResult, StoredResultModel,
    StreamRow, StreamRowModel,
};
use crate::scope::{no_scope, read_refusal, scope_exists};
use crate::stamp::{draw_stamp, drawn, find_rfc3339_fault, rfc3339_fault, Stamp, StampModel};
use crate::table::{
    any_row, change_rows, find_row, first_row, first_where, push_row, select_rows, some_row,
    Duplicate, RowChange, RowTest,
};
use crate::text::{concat2, concat3, concat6, estimate_tokens, same_text, token_estimate, Text};

verus! {

pub open spec fn stream_named(id: Text) -> spec_fn(StreamRowModel) -> bool {
    |stream: StreamRowModel| stream.id == id
}

pub open spec fn stream_at(store: MemoryStoreModel, id: Text) -> Option<StreamRowModel> {
    first_where(store.streams, stream_named(id))
}

pub open spec fn no_stream(id: Text) -> ErrorModel {
    missing("stream "@ + id + " does not exist"@)
}

pub open spec fn event_named(id: Text) -> spec_fn(MemoryEventModel) -> bool {
    |event: MemoryEventModel| event.id == id
}

pub open spec fn event_at(store: MemoryStoreModel, id: Text) -> Option<MemoryEventModel> {
    first_where(store.events, event_named(id))
}

pub open spec fn no_event(id: Text) -> ErrorModel {
    missing("event "@ + id + " does not exist"@)
}

/// What an event's content and metadata are taken to cost.
pub open spec fn event_tokens(content: Text, metadata: Text) -> int {
    token_estimate(content + " "@ + metadata)
}

/// An event as an agent is shown it: the content and metadata of a secret are replaced.
pub open spec fn redacted(event: MemoryEventModel) -> MemoryEventModel {
    if event.sensitivity is Secret {
        MemoryEventModel {
            content: redacted_content(),
            metadata: empty_object(),
            content_hash: json_hash(redacted_content()),
            token_count: event_tokens(redacted_content(), empty_object()) as i64,
            ..event
        }
    } else {
        event
    }
}

/// An event as it is shown with a given access.
pub open spec fn shown(access: ReadAccessModel, event: MemoryEventModel) -> MemoryEventModel {
    if access.reveal_secrets {
        event
    } else {
        redacted(event)
    }
}

/// The row of a stream before its first event.
pub open spec fn new_stream(id: Text, scope_id: Text, at: Text) -> StreamRowModel {
    StreamRowModel {
        id,
        scope_id,
        observed_through_sequence: 0,
        next_sequence: 1,
        created_at: at,
    }
}

/// The row of a stream, made anew where the stream has no event yet.
pub open spec fn stream_or_new(
    store: MemoryStoreModel,
    id: Text,
    scope_id: Text,
    at: Text,
) -> StreamRowModel {
    match stream_at(store, id) {
        Some(stream) => stream,
        None => new_stream(id, scope_id, at),
    }
}

/// The next integer, as far as there is one.
pub open spec fn successor(n: i64) -> i64 {
    if n < i64::MAX {
        (n + 1) as i64
    } else {
        n
    }
}

/// A stream's row after one more event; those of other streams stay as they are.
pub open spec fn advanced(id: Text) -> spec_fn(StreamRowModel) -> StreamRowModel {
    |stream: StreamRowModel|
        if stream.id == id {
            StreamRowModel { next_sequence: successor(stream.next_sequence), ..stream }
        } else {
            stream
        }
}

/// The streams after one more event of the stream `id`.
pub open spec fn streams_after(
    store: MemoryStoreModel,
    id: Text,
    scope_id: Text,
    at: Text,
) -> Seq<StreamRowModel> {
    let streams = match stream_at(store, id) {
        Some(_) => store.streams,
        None => store.streams.push(new_stream(id, scope_id, at)),
    };
    streams.map_values(advanced(id))
}

/// Whether no number is left for another event of some stream with this identifier.
pub open spec fn stream_full(store: MemoryStoreModel, id: Text) -> bool {
    exists|i: int|
        0 <= i < store.streams.len() && (#[trigger] store.streams[i]).id == id
            && store.streams[i].next_sequence == i64::MAX
}

pub open spec fn exhausted(id: Text) -> ErrorModel {
    invalid("stream "@ + id + " has no sequence number left"@)
}

/// The memory with an event appended and, unless its content is withheld, indexed.
pub open spec fn with_event(
    store: MemoryStoreModel,
    event: MemoryEventModel,
    at: Text,
) -> MemoryStoreModel {
    MemoryStoreModel {
        streams: streams_after(store, event.stream_id, event.scope_id, at),
        events: store.events.push(event),
        index: if event.sensitivity is Normal {
            store.index.push(
                IndexRowModel {
                    record_type: "event"@,
                    record_id: event.id,
                    scope_id: event.scope_id,
                    text: searchable(event.content),
                },
            )
        } else {
            store.index
        },
        ..store
    }
}

/// The error for a new record whose key another record of its table already has.
pub open spec fn id_clash(column: Text) -> ErrorModel {
    invalid("UNIQUE constraint failed: "@ + column)
}

pub open spec fn event_request(event: NewEventModel) -> Text {
    object_text(
        seq![
            ("scopeId"@, json_quoted(event.scope_id)),
            ("streamId"@, json_quoted(event.stream_id)),
            ("kind"@, json_quoted(event.kind.label())),
            ("actorId"@, optional_quoted(event.actor_id)),
            ("occurredAt"@, optional_quoted(event.occurred_at)),
            ("content"@, event.content),
            ("tokenCount"@, optional_decimal(event.token_count)),
            ("sensitivity"@, json_quoted(event.sensitivity.label())),
            ("metadata"@, event.metadata),
            ("idempotencyKey"@, json_quoted(event.idempotency_key)),
        ],
    )
}

/// What is wrong with the time at which an event says it occurred, if anything is.
pub open spec fn date_fault(event: NewEventModel) -> Option<Text> {
    match event.occurred_at {
        Some(at) => rfc3339_fault(at),
        None => None,
    }
}

/// The error for an event that is malformed by itself, if it is.
pub open spec fn event_refusal(event: NewEventModel) -> Option<ErrorModel> {
    event_refusal_given(event, date_fault(event))
}

/// The error for an event that is malformed by itself, given what is wrong with its time.
pub open spec fn event_refusal_given(event: NewEventModel, fault: Option<Text>) -> Option<
    ErrorModel,
> {
    if let Some(error) = required("scope id"@, event.scope_id) {
        Some(error)
    } else if let Some(error) = required("stream id"@, event.stream_id) {
        Some(error)
    } else if let Some(error) = required("idempotency key"@, event.idempotency_key) {
        Some(error)
    } else if event.token_count matches Some(count) && count < 0 {
        Some(invalid("token count cannot be negative"@))
    } else if !is_object_text(event.metadata) {
        Some(invalid("metadata must be a JSON object"@))
    } else {
        match fault {
            Some(cause) => Some(
                caused_by(invalid("occurred-at must be an RFC 3339 timestamp"@), cause),
            ),
            None => None,
        }
    }
}

/// The token count that is stored: the estimate, or the caller's count where that is higher.
pub open spec fn counted_tokens(hint: Option<i64>, estimate: int) -> i64 {
    match hint {
        Some(count) => if count as int > estimate {
            count
        } else {
            estimate as i64
        },
        None => estimate as i64,
    }
}

/// The record of an appended event. Of content that must not be stored only a marker is kept.
pub open spec fn recorded(
    event: NewEventModel,
    id: Text,
    sequence: i64,
    at: Text,
) -> MemoryEventModel {
    let withheld = event.sensitivity is DoNotStore;
    let content = if withheld {
        omitted_content()
    } else {
        event.content
    };
    let metadata = if withheld {
        empty_object()
    } else {
        event.metadata
    };
    MemoryEventModel {
        id,
        stream_id: event.stream_id,
        sequence,
        scope_id: event.scope_id,
        kind: event.kind,
        actor_id: event.actor_id,
        occurred_at: match event.occurred_at {
            Some(occurred_at) => occurred_at,
            None => at,
        },
        recorded_at: at,
        content,
        content_hash: json_hash(content),
        token_count: if withheld {
            event_tokens(content, metadata) as i64
        } else {
            counted_tokens(event.token_count, event_tokens(content, metadata))
        },
        sensitivity: event.sensitivity,
        metadata,
    }
}

pub open spec fn stream_of_other_scope(stream: Text, scope: Text, asked: Text) -> ErrorModel {
    violation("stream "@ + stream + " belongs to scope "@ + scope + ", not "@ + asked)
}

/// What appending an event does and answers. The stamp holds one identifier.
pub open spec fn append_event_step(
    store: MemoryStoreModel,
    event: NewEventModel,
    stamp: StampModel,
) -> (MemoryStoreModel, Result<MutationModel<MemoryEventModel>, ErrorModel>) {
    let hash = request_hash("event.append"@, event_request(event));
    let stream = stream_or_new(store, event.stream_id, event.scope_id, stamp.at);
    if let Some(error) = event_refusal(event) {
        (store, Err(error))
    } else {
        match prior(store, event.idempotency_key, "event.append"@, hash) {
            PriorModel::Refused(error) => (store, Err(error)),
            PriorModel::Known(StoredResultModel::Event(known)) => (
                store,
                Ok(MutationModel { data: redacted(known), replayed: true }),
            ),
            PriorModel::Known(_) => (store, Err(unreadable(event.idempotency_key))),
            PriorModel::Fresh => if !scope_exists(store, event.scope_id) {
                (store, Err(no_scope(event.scope_id)))
            } else if stream.scope_id != event.scope_id {
                (
                    store,
                    Err(stream_of_other_scope(event.stream_id, stream.scope_id, event.scope_id)),
                )
            } else if stream_full(store, event.stream_id) {
                (store, Err(exhausted(event.stream_id)))
            } else if some_row(store.events, event_named(stamp.ids[0])) {
                (store, Err(id_clash("memory_events.id"@)))
            } else {
                let stored = recorded(event, stamp.ids[0], stream.next_sequence, stamp.at);
                (
                    saved(
                        with_event(store, stored, stamp.at),
                        event.idempotency_key,
                        "event.append"@,
                        hash,
                        StoredResultModel::Event(stored),
                    ),
                    Ok(MutationModel { data: redacted(stored), replayed: false }),
                )
            },
        }
    }
}

/// The events of a stream within a range of sequence numbers.
pub open spec fn event_between(stream_id: Text, from: int, to: int) -> spec_fn(
    MemoryEventModel,
) -> bool {
    |event: MemoryEventModel| event.stream_id == stream_id && from <= event.sequence <= to
}

/// Events are ordered by their streams, and within a stream by their sequence numbers.
pub open spec fn event_order() -> spec_fn(MemoryEventModel) -> KeyModel {
    |event: MemoryEventModel|
        KeyModel {
            major: 0,
            first: event.stream_id,
            second: Seq::empty(),
            minor: event.sequence as int,
        }
}

/// The events of a stream from one sequence number to another, in order.
pub open spec fn events_between(
    store: MemoryStoreModel,
    stream_id: Text,
    from: int,
    to: int,
) -> Seq<MemoryEventModel> {
    ordered(store.events.filter(event_between(stream_id, from, to)), event_order())
}

pub struct StreamNamed<'a> {
    pub id: &'a str,
}

impl<'a> RowTest<StreamRow> for StreamNamed<'a> {
    open spec fn accepts(&self) -> spec_fn(StreamRowModel) -> bool {
        stream_named(self.id@)
    }

    fn test(&self, row: &StreamRow) -> (b: bool) {
        same_text(row.id.as_str(), self.id)
    }
}

pub struct EventNamed<'a> {
    pub id: &'a str,
}

impl<'a> RowTest<MemoryEvent> for EventNamed<'a> {
    open spec fn accepts(&self) -> spec_fn(MemoryEventModel) -> bool {
        event_named(self.id@)
    }

    fn test(&self, row: &MemoryEvent) -> (b: bool) {
        same_text(row.id.as_str(), self.id)
    }
}

pub struct EventBetween<'a> {
    pub stream_id: &'a str,
    pub from: i64,
    pub to: i64,
}

impl<'a> RowTest<MemoryEvent> for EventBetween<'a> {
    open spec fn accepts(&self) -> spec_fn(MemoryEventModel) -> bool {
        event_between(self.stream_id@, self.from as int, self.to as int)
    }

    fn test(&self, row: &MemoryEvent) -> (b: bool) {
        same_text(row.stream_id.as_str(), self.stream_id) && self.from <= row.sequence
            && row.sequence <= self.to
    }
}

pub struct EventOrder {}

impl RowKey<MemoryEvent> for EventOrder {
    open spec fn key(&self) -> spec_fn(MemoryEventModel) -> KeyModel {
        event_order()
    }

    fn key_of(&self, row: &MemoryEvent) -> (key: OrderKey) {
        let second: String = String::new();
        proof {
            assert(second@ =~= Seq::empty());
        }
        OrderKey { major: 0, first: row.stream_id.clone(), second, minor: row.sequence }
    }
}

struct Advance<'a> {
    id: &'a str,
}

impl<'a> RowChange<StreamRow> for Advance<'a> {
    closed spec fn change(&self) -> spec_fn(StreamRowModel) -> StreamRowModel {
        advanced(self.id@)
    }

    fn apply(&self, row: &StreamRow) -> (changed: StreamRow) {
        let mut changed: StreamRow = row.duplicate();
        if same_text(row.id.as_str(), self.id) {
            changed.next_sequence = next_number(row.next_sequence);
        }
        changed
    }
}

pub fn next_number(n: i64) -> (next: i64)
    ensures
        next == successor(n),
{
    if n == i64::MAX {
        n
    } else {
        n + 1
    }
}

pub fn no_stream_error(id: &str) -> (error: KernelError)
    ensures
        error@ == no_stream(id@),
{
    KernelError::of(KernelErrorKind::NotFound, concat3("stream ", id, " does not exist"))
}

pub fn id_clash_error(column: &str) -> (error: KernelError)
    ensures
        error@ == id_clash(column@),
{
    KernelError::of(KernelErrorKind::InvalidInput, concat2("UNIQUE constraint failed: ", column))
}

pub fn exhausted_error(id: &str) -> (error: KernelError)
    ensures
        error@ == exhausted(id@),
{
    KernelError::of(
        KernelErrorKind::InvalidInput,
        concat3("stream ", id, " has no sequence number left"),
    )
}

/// What an event's content and metadata are taken to cost.
pub fn estimate_event_tokens(content: &JsonValue, metadata: &JsonValue) -> (tokens: i64)
    ensures
        tokens == event_tokens(content@, metadata@),
        tokens >= 1,
{
    estimate_tokens(concat3(content.text(), " ", metadata.text()).as_str())
}

/// An event as an agent is shown it.
pub fn redact_for_agent(event: MemoryEvent) -> (safe: MemoryEvent)
    ensures
        safe@ == redacted(event@),
{
    let mut event: MemoryEvent = event;
    if event.sensitivity == Sensitivity::Secret {
        event.content = JsonValue::redacted();
        event.metadata = JsonValue::empty_object();
        event.content_hash = hash_json(&event.content);
        event.token_count = estimate_event_tokens(&event.content, &event.metadata);
    }
    event
}

fn check_event(event: &NewEvent) -> (result: Result<(), KernelError>)
    ensures
        match result {
            Ok(_) => event_refusal(event@) is None,
            Err(error) => event_refusal(event@) == Some(error@),
        },
{
    let fault: Option<String> = match &event.occurred_at {
        Some(at) => find_rfc3339_fault(at.as_str()),
        None => None,
    };
    check_event_given(event, fault)
}

/// Checks what can be checked of an event by itself, given what is wrong with its time.
pub fn check_event_given(event: &NewEvent, fault: Option<String>) -> (result: Result<
    (),
    KernelError,
>)
    ensures
        match result {
            Ok(_) => event_refusal_given(event@, fault.deep_view()) is None,
            Err(error) => event_refusal_given(event@, fault.deep_view()) == Some(error@),
        },
{
    if let Err(error) = validate_nonempty("scope id", event.scope_id.as_str()) {
        return Err(error);
    }
    if let Err(error) = validate_nonempty("stream id", event.stream_id.as_str()) {
        return Err(error);
    }
    if let Err(error) = validate_nonempty("idempotency key", event.idempotency_key.as_str()) {
        return Err(error);
    }
    if let Some(count) = event.token_count {
        if count < 0 {
            return Err(KernelError::invalid_input("token count cannot be negative"));
        }
    }
    if !event.metadata.is_object() {
        return Err(KernelError::invalid_input("metadata must be a JSON object"));
    }
    match fault {
        Some(cause) => Err(
            KernelError::invalid_input("occurred-at must be an RFC 3339 timestamp").because(cause),
        ),
        None => Ok(()),
    }
}

fn write_event_request(event: &NewEvent) -> (json: String)
    ensures
        json@ == event_request(event@),
{
    let mut fields: Vec<(String, String)> = Vec::new();
    let ghost none = fields.deep_view();
    add_field(&mut fields, "scopeId", quote(event.scope_id.as_str()));
    add_field(&mut fields, "streamId", quote(event.stream_id.as_str()));
    add_field(&mut fields, "kind", quote(event.kind.label_text()));
    add_field(&mut fields, "actorId", quote_optional(&event.actor_id));
    add_field(&mut fields, "occurredAt", quote_optional(&event.occurred_at));
    add_field(&mut fields, "content", event.content.text().to_owned());
    add_field(&mut fields, "tokenCount", write_optional_number(&event.token_count));
    add_field(&mut fields, "sensitivity", quote(event.sensitivity.label_text()));
    add_field(&mut fields, "metadata", event.metadata.text().to_owned());
    add_field(&mut fields, "idempotencyKey", quote(event.idempotency_key.as_str()));
    proof {
        let e = event@;
        assert(none =~= Seq::empty());
        assert(fields.deep_view() =~= seq![
            ("scopeId"@, json_quoted(e.scope_id)),
            ("streamId"@, json_quoted(e.stream_id)),
            ("kind"@, json_quoted(e.kind.label())),
            ("actorId"@, optional_quoted(e.actor_id)),
            ("occurredAt"@, optional_quoted(e.occurred_at)),
            ("content"@, e.content),
            ("tokenCount"@, optional_decimal(e.token_count)),
            ("sensitivity"@, json_quoted(e.sensitivity.label())),
            ("metadata"@, e.metadata),
            ("idempotencyKey"@, json_quoted(e.idempotency_key)),
        ]);
    }
    write_object(&fields)
}

fn record_event(event: NewEvent, id: String, sequence: i64, at: &str) -> (stored: MemoryEvent)
    ensures
        stored@ == recorded(event@, id@, sequence, at@),
{
    let withheld: bool = event.sensitivity == Sensitivity::DoNotStore;
    let content: JsonValue = if withheld {
        JsonValue::omitted()
    } else {
        event.content
    };
    let metadata: JsonValue = if withheld {
        JsonValue::empty_object()
    } else {
        event.metadata
    };
    let estimate: i64 = estimate_event_tokens(&content, &metadata);
    let token_count: i64 = match event.token_count {
        Some(count) => if !withheld && count > estimate {
            count
        } else {
            estimate
        },
        None => estimate,
    };
    MemoryEvent {
        id,
        stream_id: event.stream_id,
        sequence,
        scope_id: event.scope_id,
        kind: event.kind,
        actor_id: event.actor_id,
        occurred_at: match event.occurred_at {
            Some(occurred_at) => occurred_at,
            None => at.to_owned(),
        },
        recorded_at: at.to_owned(),
        content_hash: hash_json(&content),
        content,
        token_count,
        sensitivity: event.sensitivity,
        metadata,
    }
}

impl MemoryStore {
    /// The row of a stream, made anew where the stream has no event yet.
    pub(crate) fn stream_row(&self, id: &str, scope_id: &str, at: &str) -> (stream: StreamRow)
        ensures
            stream@ == stream_or_new(self@, id@, scope_id@, at@),
    {
        match first_row(&self.streams, &StreamNamed { id }) {
            Some(stream) => stream,
            None => StreamRow {
                id: id.to_owned(),
                scope_id: scope_id.to_owned(),
                observed_through_sequence: 0,
                next_sequence: 1,
                created_at: at.to_owned(),
            },
        }
    }

    pub(crate) fn is_stream_full(&self, id: &str) -> (b: bool)
        ensures
            b == stream_full(self@, id@),
    {
        let mut i: usize = 0;
        while i < self.streams.len()
            invariant
                i <= self.streams.len(),
                forall|k: int|
                    0 <= k < i ==> !((#[trigger] self@.streams[k]).id == id@
                        && self@.streams[k].next_sequence == i64::MAX),
            decreases self.streams.len() - i,
        {
            proof {
                assert(self@.streams[i as int] == self.streams[i as int]@);
            }
            if same_text(self.streams[i].id.as_str(), id) && self.streams[i].next_sequence
                == i64::MAX {
                return true;
            }
            i = i + 1;
        }
        false
    }

    /// Appends a row to the full-text index.
    pub(crate) fn insert_fts(&mut self, record_type: &str, record_id: &str, scope_id: &str, text: String)
        ensures
            final(self)@ == (MemoryStoreModel {
                index: old(self)@.index.push(
                    IndexRowModel {
                        record_type: record_type@,
                        record_id: record_id@,
                        scope_id: scope_id@,
                        text: text@,
                    },
                ),
                ..old(self)@
            }),
    {
        let row = IndexRow {
            record_type: record_type.to_owned(),
            record_id: record_id.to_owned(),
            scope_id: scope_id.to_owned(),
            text,
        };
        push_row(&mut self.index, row);
    }

    /// Appends an event to its stream.
    pub(crate) fn insert_event(&mut self, event: MemoryEvent, at: &str)
        ensures
            final(self)@ == with_event(old(self)@, event@, at@),
    {
        if find_row(&self.streams, &StreamNamed { id: event.stream_id.as_str() }).is_none() {
            let row = StreamRow {
                id: event.stream_id.clone(),
                scope_id: event.scope_id.clone(),
                observed_through_sequence: 0,
                next_sequence: 1,
                created_at: at.to_owned(),
            };
            push_row(&mut self.streams, row);
        }
        change_rows(&mut self.streams, &Advance { id: event.stream_id.as_str() });
        if event.sensitivity == Sensitivity::Normal {
            let text: String = searchable_json(&event.content);
            self.insert_fts("event", event.id.as_str(), event.scope_id.as_str(), text);
        }
        push_row(&mut self.events, event);
    }

    pub fn append_event(&mut self, event: NewEvent) -> (result: Result<
        MutationResult<MemoryEvent>,
        KernelError,
    >)
        ensures
            exists|stamp: StampModel|
                drawn(stamp) && stamp.ids.len() == 1 && #[trigger] append_event_step(
                    old(self)@,
                    event@,
                    stamp,
                ) == (final(self)@, seen(result)),
    {
        let stamp: Stamp = draw_stamp(1);
        self.append_event_with(event, &stamp)
    }

    /// Appends an event with a given identifier and time.
    pub fn append_event_with(&mut self, event: NewEvent, stamp: &Stamp) -> (result: Result<
        MutationResult<MemoryEvent>,
        KernelError,
    >)
        requires
            stamp@.ids.len() == 1,
        ensures
            append_event_step(old(self)@, event@, stamp@) == (final(self)@, seen(result)),
    {
        if let Err(error) = check_event(&event) {
            return Err(error);
        }
        let key: String = event.idempotency_key.clone();
        let hash: String = operation_request_hash(
            "event.append",
            write_event_request(&event).as_str(),
        );
        match self.prior_result(key.as_str(), "event.append", hash.as_str()) {
            Prior::Refused(error) => return Err(error),
            Prior::Known(StoredResult::Event(known)) => {
                return Ok(MutationResult::replayed(redact_for_agent(known)));
            },
            Prior::Known(_) => return Err(unreadable_error(key.as_str())),
            Prior::Fresh => {},
        }
        if let Err(error) = self.ensure_scope_exists(event.scope_id.as_str()) {
            return Err(error);
        }
        let stream: StreamRow = self.stream_row(
            event.stream_id.as_str(),
            event.scope_id.as_str(),
            stamp.at.as_str(),
        );
        if !same_text(stream.scope_id.as_str(), event.scope_id.as_str()) {
            return Err(
                KernelError::of(
                    KernelErrorKind::ScopeViolation,
                    concat6(
                        "stream ",
                        event.stream_id.as_str(),
                        " belongs to scope ",
                        stream.scope_id.as_str(),
                        ", not ",
                        event.scope_id.as_str(),
                    ),
                ),
            );
        }
        if self.is_stream_full(event.stream_id.as_str()) {
            return Err(exhausted_error(event.stream_id.as_str()));
        }
        if any_row(&self.events, &EventNamed { id: stamp.ids[0].as_str() }) {
            return Err(id_clash_error("memory_events.id"));
        }
        let stored: MemoryEvent = record_event(
            event,
            stamp.ids[0].clone(),
            stream.next_sequence,
            stamp.at.as_str(),
        );
        self.insert_event(stored.duplicate(), stamp.at.as_str());
        self.save_operation(
            key.as_str(),
            "event.append",
            hash.as_str(),
            StoredResult::Event(stored.duplicate()),
        );
        Ok(MutationResult::created(redact_for_agent(stored)))
    }

    /// The events of a stream from one sequence number to another, in order.
    pub(crate) fn query_events_range(&self, stream_id: &str, from: i64, to: i64) -> (events: Vec<
        MemoryEvent,
    >)
        ensures
            events.deep_view() == events_between(self@, stream_id@, from as int, to as int),
    {
        sort_rows(&select_rows(&self.events, &EventBetween { stream_id, from, to }), &EventOrder {  })
    }

    pub fn recall_event_range(&self, stream_id: &str, from_sequence: i64, to_sequence: i64) -> (events:
        Result<Vec<MemoryEvent>, KernelError>)
        ensures
            seen(events) == if from_sequence <= 0 {
                Err(invalid("from sequence must be positive"@))
            } else if to_sequence < from_sequence {
                Err(invalid("to sequence must be at least from sequence"@))
            } else {
                Ok(events_between(self@, stream_id@, from_sequence as int, to_sequence as int))
            },
    {
        if from_sequence <= 0 {
            return Err(KernelError::invalid_input("from sequence must be positive"));
        }
        if to_sequence < from_sequence {
            return Err(KernelError::invalid_input("to sequence must be at least from sequence"));
        }
        Ok(self.query_events_range(stream_id, from_sequence, to_sequence))
    }

    pub fn get_event(&self, event_id: &str) -> (event: Result<MemoryEvent, KernelError>)
        ensures
            seen(event) == match event_at(self@, event_id@) {
                Some(event) => Ok(event),
                None => Err(no_event(event_id@)),
            },
    {
        match first_row(&self.events, &EventNamed { id: event_id }) {
            Some(event) => Ok(event),
            None => Err(
                KernelError::of(
                    KernelErrorKind::NotFound,
                    concat3("event ", event_id, " does not exist"),
                ),
            ),
        }
    }

    /// An event as it is shown with a given access.
    pub fn apply_read_access(&self, access: &ReadAccess, event: MemoryEvent) -> (result: Result<
        MemoryEvent,
        KernelError,
    >)
        ensures
            seen(result) == match read_refusal(self@, access@, event@.scope_id) {
                Some(error) => Err(error),
                None => Ok(shown(access@, event@)),
            },
    {
        match self.ensure_read_scope(access, event.scope_id.as_str()) {
            Err(error) => Err(error),
            Ok(_) => if access.reveal_secrets {
                Ok(event)
            } else {
                Ok(redact_for_agent(event))
            },
        }
    }

    /// Reads an event with a given access.
    pub fn read_event(&self, access: &ReadAccess, event_id: &str) -> (result: Result<
        MemoryEvent,
        KernelError,
    >)
        ensures
            seen(result) == match event_at(self@, event_id@) {
                None => Err(no_event(event_id@)),
                Some(event) => match read_refusal(self@, access@, event.scope_id) {
                    Some(error) => Err(error),
                    None => Ok(shown(access@, event)),
                },
            },
    {
        match self.get_event(event_id) {
            Err(error) => Err(error),
            Ok(event) => self.apply_read_access(access, event),
        }
    }
}

} // verus!
