//! Memory views: append-only generations of what is known of a stream.

use vstd::prelude::*;

use crate::claim_table::{add_links, linked_all};
use crate::digest::{operation_request_hash, request_hash};
use crate::error::{
    failure, first_error, first_error_at, first_error_none, invalid, missing, seen, violation, ErrorModel,
    KernelError, KernelErrorKind,
};
use crate::event::{
    counted_tokens, id_clash, id_clash_error, next_number, no_stream, no_stream_error,
    stream_at, stream_of_other_scope, successor, StreamNamed,
};
use crate::json::{
    add_field, json_quoted, object_text, optional_decimal, optional_quoted, quote, quote_optional,
    string_array_text, write_object, write_optional_number, write_string_array,
};
use crate::kind::{Labelled, ViewKind};
use crate::model::{
    ContinuationDraft, ContinuationDraftModel, CreateView, CreateViewModel, MemoryView,
    MemoryViewModel, MutationModel, MutationResult, Observation, ObservationModel,
};
use crate::operation::{
    prior, required, saved, unreadable, unreadable_error, validate_nonempty, Prior, PriorModel,
};
use crate::order::{ordered, sort_rows, KeyModel, OrderKey, RowKey};
use crate::row::{
    MemoryStore, MemoryStoreModel, RunRow, RunRowModel, StoredResult, StoredResultModel, ViewRow,
    ViewRowModel,
};
use crate::scope::{no_scope, scope_exists};
use crate::stamp::{draw_stamp, drawn, Stamp, StampModel};
use crate::table::{
    any_row, find_row, first_where, last_row, push_row, select_rows, some_row, take_last, Duplicate,
    RowTest,
};
use crate::text::{
    concat3, concat4, concat6, decimal, debug_optional, estimate_tokens, number_text, same_optional_text,
    same_text, show_optional, token_estimate, Text,
};

verus! {

pub open spec fn view_of(stream_id: Text, kind: ViewKind) -> spec_fn(ViewRowModel) -> bool {
    |row: ViewRowModel| row.view.stream_id == stream_id && row.view.kind == kind
}

pub open spec fn view_generation() -> spec_fn(ViewRowModel) -> KeyModel {
    |row: ViewRowModel|
        KeyModel {
            major: row.view.generation as int,
            first: Seq::empty(),
            second: Seq::empty(),
            minor: 0,
        }
}

/// The latest generation of a stream's view.
pub open spec fn latest_view(
    store: MemoryStoreModel,
    stream_id: Text,
    kind: ViewKind,
) -> Option<ViewRowModel> {
    last_row(ordered(store.views.filter(view_of(stream_id, kind)), view_generation()))
}

/// The identifier of the latest generation of a stream's view.
pub open spec fn latest_view_id(
    store: MemoryStoreModel,
    stream_id: Text,
    kind: ViewKind,
) -> Option<Text> {
    match latest_view(store, stream_id, kind) {
        Some(row) => Some(row.view.id),
        None => None,
    }
}

/// What a new view holds.
pub struct ViewContentModel {
    pub scope_id: Text,
    pub stream_id: Text,
    pub kind: ViewKind,
    pub content: Text,
    pub from: i64,
    pub through: i64,
    pub model: Option<Text>,
    pub prompt_version: Option<Text>,
    pub token_count: i64,
    pub continuation: Option<ContinuationDraftModel>,
}

pub struct ViewContent {
    pub scope_id: String,
    pub stream_id: String,
    pub kind: ViewKind,
    pub content: String,
    pub from: i64,
    pub through: i64,
    pub model: Option<String>,
    pub prompt_version: Option<String>,
    pub token_count: i64,
    pub continuation: Option<ContinuationDraft>,
}

impl View for ViewContent {
    type V = ViewContentModel;

    open spec fn view(&self) -> ViewContentModel {
        ViewContentModel {
            scope_id: self.scope_id@,
            stream_id: self.stream_id@,
            kind: self.kind,
            content: self.content@,
            from: self.from,
            through: self.through,
            model: self.model.deep_view(),
            prompt_version: self.prompt_version.deep_view(),
            token_count: self.token_count,
            continuation: self.continuation.deep_view(),
        }
    }
}

/// The next generation of a stream's view: numbered one higher than the latest one, and linked to
/// it.
pub open spec fn next_view(
    store: MemoryStoreModel,
    content: ViewContentModel,
    id: Text,
    at: Text,
) -> ViewRowModel {
    let latest = latest_view(store, content.stream_id, content.kind);
    ViewRowModel {
        view: MemoryViewModel {
            id,
            scope_id: content.scope_id,
            stream_id: content.stream_id,
            kind: content.kind,
            generation: match latest {
                Some(row) => successor(row.view.generation),
                None => 1,
            },
            content: content.content,
            source_from_sequence: content.from,
            source_through_sequence: content.through,
            previous_view_id: latest_view_id(store, content.stream_id, content.kind),
            model: content.model,
            prompt_version: content.prompt_version,
            token_count: content.token_count,
            created_at: at,
        },
        continuation: content.continuation,
    }
}

/// The error for a view that has no next generation, if that is so.
pub open spec fn generation_refusal(
    store: MemoryStoreModel,
    stream_id: Text,
    kind: ViewKind,
) -> Option<ErrorModel> {
    match latest_view(store, stream_id, kind) {
        Some(row) => if row.view.generation == i64::MAX {
            Some(invalid("stream "@ + stream_id + " has no view generation left"@))
        } else {
            None
        },
        None => None,
    }
}

/// The memory with a view added, and with links to the observations that it represents.
pub open spec fn with_view(
    store: MemoryStoreModel,
    row: ViewRowModel,
    observation_ids: Seq<Text>,
) -> MemoryStoreModel {
    MemoryStoreModel {
        views: store.views.push(row),
        view_sources: linked_all(store.view_sources, row.view.id, observation_ids),
        ..store
    }
}

pub open spec fn observation_named(id: Text) -> spec_fn(ObservationModel) -> bool {
    |observation: ObservationModel| observation.id == id
}

pub open spec fn observation_at(store: MemoryStoreModel, id: Text) -> Option<ObservationModel> {
    first_where(store.observations, observation_named(id))
}

pub open spec fn no_observation(id: Text) -> ErrorModel {
    missing("observation "@ + id + " does not exist"@)
}

pub open spec fn view_named(id: Text) -> spec_fn(ViewRowModel) -> bool {
    |row: ViewRowModel| row.view.id == id
}

/// The error for a new view under an identifier that another one has, if that is so.
pub open spec fn view_clash(store: MemoryStoreModel, id: Text) -> Option<ErrorModel> {
    if some_row(store.views, view_named(id)) {
        Some(id_clash("memory_views.id"@))
    } else {
        None
    }
}

pub open spec fn run_named(id: Text) -> spec_fn(RunRowModel) -> bool {
    |run: RunRowModel| run.id == id
}

pub open spec fn run_at(store: MemoryStoreModel, id: Text) -> Option<RunRowModel> {
    first_where(store.runs, run_named(id))
}

/// The error for an observation that a view cannot represent, if it cannot.
pub open spec fn represented_refusal(store: MemoryStoreModel, input: CreateViewModel) -> spec_fn(
    Text,
) -> Option<ErrorModel> {
    |id: Text|
        match observation_at(store, id) {
            None => Some(no_observation(id)),
            Some(observation) => match run_at(store, observation.run_id) {
                None => Some(no_observation(id)),
                Some(run) => if observation.scope_id != input.scope_id {
                    Some(
                        violation(
                            "observation "@ + id + " belongs to scope "@ + observation.scope_id
                                + ", not "@ + input.scope_id,
                        ),
                    )
                } else if run.stream_id != input.stream_id {
                    Some(
                        violation(
                            "observation "@ + id + " belongs to stream "@ + run.stream_id
                                + ", not "@ + input.stream_id,
                        ),
                    )
                } else if observation.source_start_sequence < input.source_from_sequence
                    || observation.source_end_sequence > input.source_through_sequence {
                    Some(
                        invalid(
                            "observation "@ + id + " is outside the declared view source range"@,
                        ),
                    )
                } else {
                    None
                },
            },
        }
}

pub open spec fn view_request(input: CreateViewModel) -> Text {
    object_text(
        seq![
            ("scopeId"@, json_quoted(input.scope_id)),
            ("streamId"@, json_quoted(input.stream_id)),
            ("kind"@, json_quoted(input.kind.label())),
            ("content"@, json_quoted(input.content)),
            ("sourceFromSequence"@, decimal(input.source_from_sequence as int)),
            ("sourceThroughSequence"@, decimal(input.source_through_sequence as int)),
            ("sourceObservationIds"@, string_array_text(input.source_observation_ids)),
            ("model"@, optional_quoted(input.model)),
            ("promptVersion"@, optional_quoted(input.prompt_version)),
            ("tokenCount"@, optional_decimal(input.token_count)),
            ("expectedPreviousViewId"@, optional_quoted(input.expected_previous_view_id)),
            ("idempotencyKey"@, json_quoted(input.idempotency_key)),
        ],
    )
}

/// The error for a view that is malformed by itself, if it is.
pub open spec fn view_refusal(input: CreateViewModel) -> Option<ErrorModel> {
    if let Some(error) = required("view content"@, input.content) {
        Some(error)
    } else if let Some(error) = required("idempotency key"@, input.idempotency_key) {
        Some(error)
    } else if !(input.kind is Continuity) {
        Some(invalid("continuation views are created only by observation commit"@))
    } else if input.source_from_sequence <= 0 || input.source_through_sequence
        < input.source_from_sequence {
        Some(invalid("view source sequence range is invalid"@))
    } else {
        None
    }
}

/// The error for a view that does not fit the memory, if it does not.
pub open spec fn placement_refusal(
    store: MemoryStoreModel,
    input: CreateViewModel,
    id: Text,
) -> Option<ErrorModel> {
    let latest = latest_view_id(store, input.stream_id, ViewKind::Continuity);
    if !scope_exists(store, input.scope_id) {
        Some(no_scope(input.scope_id))
    } else {
        match stream_at(store, input.stream_id) {
            None => Some(no_stream(input.stream_id)),
            Some(stream) => if stream.scope_id != input.scope_id {
                Some(stream_of_other_scope(input.stream_id, stream.scope_id, input.scope_id))
            } else if latest != input.expected_previous_view_id {
                Some(
                    failure(
                        KernelErrorKind::StaleView,
                        "view is stale: expected previous view "@ + debug_optional(
                            input.expected_previous_view_id,
                        ) + ", found "@ + debug_optional(latest),
                    ),
                )
            } else if let Some(error) = first_error(
                input.source_observation_ids,
                represented_refusal(store, input),
            ) {
                Some(error)
            } else if !input.source_observation_ids.no_duplicates() {
                Some(
                    invalid(
                        "UNIQUE constraint failed: view_sources.view_id, view_sources.observation_id"@,
                    ),
                )
            } else if let Some(error) = generation_refusal(
                store,
                input.stream_id,
                ViewKind::Continuity,
            ) {
                Some(error)
            } else {
                view_clash(store, id)
            },
        }
    }
}

/// What a created view holds.
pub open spec fn created_content(input: CreateViewModel) -> ViewContentModel {
    ViewContentModel {
        scope_id: input.scope_id,
        stream_id: input.stream_id,
        kind: input.kind,
        content: input.content,
        from: input.source_from_sequence,
        through: input.source_through_sequence,
        model: input.model,
        prompt_version: input.prompt_version,
        token_count: counted_tokens(input.token_count, token_estimate(input.content)),
        continuation: None,
    }
}

/// What creating a continuity view does and answers. The stamp holds one identifier.
pub open spec fn create_view_step(
    store: MemoryStoreModel,
    input: CreateViewModel,
    stamp: StampModel,
) -> (MemoryStoreModel, Result<MutationModel<MemoryViewModel>, ErrorModel>) {
    let hash = request_hash("view.create"@, view_request(input));
    if let Some(error) = view_refusal(input) {
        (store, Err(error))
    } else {
        match prior(store, input.idempotency_key, "view.create"@, hash) {
            PriorModel::Refused(error) => (store, Err(error)),
            PriorModel::Known(StoredResultModel::View(view)) => (
                store,
                Ok(MutationModel { data: view, replayed: true }),
            ),
            PriorModel::Known(_) => (store, Err(unreadable(input.idempotency_key))),
            PriorModel::Fresh => match placement_refusal(store, input, stamp.ids[0]) {
                Some(error) => (store, Err(error)),
                None => {
                    let row = next_view(store, created_content(input), stamp.ids[0], stamp.at);
                    (
                        saved(
                            with_view(store, row, input.source_observation_ids),
                            input.idempotency_key,
                            "view.create"@,
                            hash,
                            StoredResultModel::View(row.view),
                        ),
                        Ok(MutationModel { data: row.view, replayed: false }),
                    )
                },
            },
        }
    }
}

pub open spec fn view_in(scope_id: Text) -> spec_fn(ViewRowModel) -> bool {
    |row: ViewRowModel| row.view.scope_id == scope_id
}

/// Views are listed by stream, kind and generation.
pub open spec fn view_order() -> spec_fn(ViewRowModel) -> KeyModel {
    |row: ViewRowModel|
        KeyModel {
            major: 0,
            first: row.view.stream_id,
            second: row.view.kind.label(),
            minor: row.view.generation as int,
        }
}

pub open spec fn view_part() -> spec_fn(ViewRowModel) -> MemoryViewModel {
    |row: ViewRowModel| row.view
}

pub struct ViewOf<'a> {
    pub stream_id: &'a str,
    pub kind: ViewKind,
}

impl<'a> RowTest<ViewRow> for ViewOf<'a> {
    open spec fn accepts(&self) -> spec_fn(ViewRowModel) -> bool {
        view_of(self.stream_id@, self.kind)
    }

    fn test(&self, row: &ViewRow) -> (b: bool) {
        same_text(row.view.stream_id.as_str(), self.stream_id) && row.view.kind == self.kind
    }
}

pub struct ViewIn<'a> {
    pub scope_id: &'a str,
}

impl<'a> RowTest<ViewRow> for ViewIn<'a> {
    open spec fn accepts(&self) -> spec_fn(ViewRowModel) -> bool {
        view_in(self.scope_id@)
    }

    fn test(&self, row: &ViewRow) -> (b: bool) {
        same_text(row.view.scope_id.as_str(), self.scope_id)
    }
}

pub struct ViewGeneration {}

impl RowKey<ViewRow> for ViewGeneration {
    open spec fn key(&self) -> spec_fn(ViewRowModel) -> KeyModel {
        view_generation()
    }

    fn key_of(&self, row: &ViewRow) -> (key: OrderKey) {
        let first: String = String::new();
        let second: String = String::new();
        proof {
            assert(first@ =~= Seq::empty());
            assert(second@ =~= Seq::empty());
        }
        OrderKey { major: row.view.generation as i128, first, second, minor: 0 }
    }
}

pub struct ViewOrder {}

impl RowKey<ViewRow> for ViewOrder {
    open spec fn key(&self) -> spec_fn(ViewRowModel) -> KeyModel {
        view_order()
    }

    fn key_of(&self, row: &ViewRow) -> (key: OrderKey) {
        OrderKey {
            major: 0,
            first: row.view.stream_id.clone(),
            second: row.view.kind.label_text().to_owned(),
            minor: row.view.generation,
        }
    }
}

pub struct ObservationNamed<'a> {
    pub id: &'a str,
}

impl<'a> RowTest<Observation> for ObservationNamed<'a> {
    open spec fn accepts(&self) -> spec_fn(ObservationModel) -> bool {
        observation_named(self.id@)
    }

    fn test(&self, row: &Observation) -> (b: bool) {
        same_text(row.id.as_str(), self.id)
    }
}

pub struct ViewNamed<'a> {
    pub id: &'a str,
}

impl<'a> RowTest<ViewRow> for ViewNamed<'a> {
    open spec fn accepts(&self) -> spec_fn(ViewRowModel) -> bool {
        view_named(self.id@)
    }

    fn test(&self, row: &ViewRow) -> (b: bool) {
        same_text(row.view.id.as_str(), self.id)
    }
}

pub struct RunNamed<'a> {
    pub id: &'a str,
}

impl<'a> RowTest<RunRow> for RunNamed<'a> {
    open spec fn accepts(&self) -> spec_fn(RunRowModel) -> bool {
        run_named(self.id@)
    }

    fn test(&self, row: &RunRow) -> (b: bool) {
        same_text(row.id.as_str(), self.id)
    }
}

pub fn no_observation_error(id: &str) -> (error: KernelError)
    ensures
        error@ == no_observation(id@),
{
    KernelError::of(KernelErrorKind::NotFound, concat3("observation ", id, " does not exist"))
}

/// Whether all texts of a list differ.
pub fn all_distinct(texts: &Vec<String>) -> (b: bool)
    ensures
        b == texts.deep_view().no_duplicates(),
{
    let ghost all = texts.deep_view();
    let mut i: usize = 0;
    while i < texts.len()
        invariant
            i <= texts.len(),
            all == texts.deep_view(),
            forall|j: int, k: int| 0 <= j < k < i ==> all[j] != all[k],
        decreases texts.len() - i,
    {
        let mut j: usize = 0;
        while j < i
            invariant
                j <= i < texts.len(),
                all == texts.deep_view(),
                forall|k: int| 0 <= k < j ==> #[trigger] all[k] != all[i as int],
            decreases i - j,
        {
            if same_text(texts[j].as_str(), texts[i].as_str()) {
                proof {
                    assert(all[j as int] == all[i as int]);
                }
                return false;
            }
            j = j + 1;
        }
        i = i + 1;
    }
    true
}

fn check_view(input: &CreateView) -> (result: Result<(), KernelError>)
    ensures
        match result {
            Ok(_) => view_refusal(input@) is None,
            Err(error) => view_refusal(input@) == Some(error@),
        },
{
    if let Err(error) = validate_nonempty("view content", input.content.as_str()) {
        return Err(error);
    }
    if let Err(error) = validate_nonempty("idempotency key", input.idempotency_key.as_str()) {
        return Err(error);
    }
    if input.kind != ViewKind::Continuity {
        return Err(
            KernelError::invalid_input("continuation views are created only by observation commit"),
        );
    }
    if input.source_from_sequence <= 0 || input.source_through_sequence < input.source_from_sequence {
        return Err(KernelError::invalid_input("view source sequence range is invalid"));
    }
    Ok(())
}

fn write_view_request(input: &CreateView) -> (json: String)
    ensures
        json@ == view_request(input@),
{
    let mut fields: Vec<(String, String)> = Vec::new();
    let ghost none = fields.deep_view();
    add_field(&mut fields, "scopeId", quote(input.scope_id.as_str()));
    add_field(&mut fields, "streamId", quote(input.stream_id.as_str()));
    add_field(&mut fields, "kind", quote(input.kind.label_text()));
    add_field(&mut fields, "content", quote(input.content.as_str()));
    add_field(
        &mut fields,
        "sourceFromSequence",
        number_text(input.source_from_sequence as i128),
    );
    add_field(
        &mut fields,
        "sourceThroughSequence",
        number_text(input.source_through_sequence as i128),
    );
    add_field(
        &mut fields,
        "sourceObservationIds",
        write_string_array(&input.source_observation_ids),
    );
    add_field(&mut fields, "model", quote_optional(&input.model));
    add_field(&mut fields, "promptVersion", quote_optional(&input.prompt_version));
    add_field(&mut fields, "tokenCount", write_optional_number(&input.token_count));
    add_field(
        &mut fields,
        "expectedPreviousViewId",
        quote_optional(&input.expected_previous_view_id),
    );
    add_field(&mut fields, "idempotencyKey", quote(input.idempotency_key.as_str()));
    proof {
        let v = input@;
        assert(none =~= Seq::empty());
        assert(fields.deep_view() =~= seq![
            ("scopeId"@, json_quoted(v.scope_id)),
            ("streamId"@, json_quoted(v.stream_id)),
            ("kind"@, json_quoted(v.kind.label())),
            ("content"@, json_quoted(v.content)),
            ("sourceFromSequence"@, decimal(v.source_from_sequence as int)),
            ("sourceThroughSequence"@, decimal(v.source_through_sequence as int)),
            ("sourceObservationIds"@, string_array_text(v.source_observation_ids)),
            ("model"@, optional_quoted(v.model)),
            ("promptVersion"@, optional_quoted(v.prompt_version)),
            ("tokenCount"@, optional_decimal(v.token_count)),
            ("expectedPreviousViewId"@, optional_quoted(v.expected_previous_view_id)),
            ("idempotencyKey"@, json_quoted(v.idempotency_key)),
        ]);
    }
    write_object(&fields)
}

impl MemoryStore {
    /// The latest generation of a stream's view.
    pub fn latest_view(&self, stream_id: &str, kind: ViewKind) -> (view: Option<ViewRow>)
        ensures
            view.deep_view() == latest_view(self@, stream_id@, kind),
    {
        let rows: Vec<ViewRow> = select_rows(&self.views, &ViewOf { stream_id, kind });
        take_last(sort_rows(&rows, &ViewGeneration {  }))
    }

    /// Refuses a view that has no next generation.
    pub(crate) fn check_generation(&self, stream_id: &str, kind: ViewKind) -> (result: Result<(), KernelError>)
        ensures
            match result {
                Ok(_) => generation_refusal(self@, stream_id@, kind) is None,
                Err(error) => generation_refusal(self@, stream_id@, kind) == Some(error@),
            },
    {
        if let Some(row) = self.latest_view(stream_id, kind) {
            if row.view.generation == i64::MAX {
                return Err(
                    KernelError::of(
                        KernelErrorKind::InvalidInput,
                        concat3("stream ", stream_id, " has no view generation left"),
                    ),
                );
            }
        }
        Ok(())
    }

    /// Adds the next generation of a stream's view, with links to the observations that it
    /// represents.
    pub(crate) fn insert_next_view(
        &mut self,
        content: ViewContent,
        observation_ids: &Vec<String>,
        id: &str,
        at: &str,
    ) -> (view: MemoryView)
        ensures
            final(self)@ == with_view(
                old(self)@,
                next_view(old(self)@, content@, id@, at@),
                observation_ids.deep_view(),
            ),
            view@ == next_view(old(self)@, content@, id@, at@).view,
    {
        let latest: Option<ViewRow> = self.latest_view(content.stream_id.as_str(), content.kind);
        let mut generation: i64 = 1;
        let mut previous_view_id: Option<String> = None;
        if let Some(row) = latest {
            generation = next_number(row.view.generation);
            previous_view_id = Some(row.view.id);
        }
        let view = MemoryView {
            id: id.to_owned(),
            scope_id: content.scope_id,
            stream_id: content.stream_id,
            kind: content.kind,
            generation,
            content: content.content,
            source_from_sequence: content.from,
            source_through_sequence: content.through,
            previous_view_id,
            model: content.model,
            prompt_version: content.prompt_version,
            token_count: content.token_count,
            created_at: at.to_owned(),
        };
        let row = ViewRow { view: view.duplicate(), continuation: content.continuation };
        push_row(&mut self.views, row);
        add_links(&mut self.view_sources, id, observation_ids);
        view
    }

    /// Refuses observations that a view cannot represent.
    fn check_represented(&self, input: &CreateView) -> (result: Result<(), KernelError>)
        ensures
            match result {
                Ok(_) => first_error(
                    input@.source_observation_ids,
                    represented_refusal(self@, input@),
                ) is None,
                Err(error) => first_error(
                    input@.source_observation_ids,
                    represented_refusal(self@, input@),
                ) == Some(error@),
            },
    {
        let ghost check = represented_refusal(self@, input@);
        let ghost ids = input@.source_observation_ids;
        let mut i: usize = 0;
        while i < input.source_observation_ids.len()
            invariant
                i <= input.source_observation_ids.len(),
                ids == input.source_observation_ids.deep_view(),
                check == represented_refusal(self@, input@),
                forall|k: int| 0 <= k < i ==> check(#[trigger] ids[k]) is None,
            decreases input.source_observation_ids.len() - i,
        {
            let result: Result<(), KernelError> = self.check_represented_one(
                input,
                input.source_observation_ids[i].as_str(),
            );
            proof {
                assert(ids[i as int] == input.source_observation_ids[i as int]@);
            }
            if let Err(error) = result {
                proof {
                    first_error_at(ids, check, i as int);
                }
                return Err(error);
            }
            i = i + 1;
        }
        proof {
            first_error_none(ids, check);
        }
        Ok(())
    }

    fn check_represented_one(&self, input: &CreateView, id: &str) -> (result: Result<(), KernelError>)
        ensures
            match result {
                Ok(_) => (represented_refusal(self@, input@))(id@) is None,
                Err(error) => (represented_refusal(self@, input@))(id@) == Some(error@),
            },
    {
        let observation: &Observation = match find_row(&self.observations, &ObservationNamed { id }) {
            Some(i) => &self.observations[i],
            None => return Err(no_observation_error(id)),
        };
        let run: &RunRow = match find_row(
            &self.runs,
            &RunNamed { id: observation.run_id.as_str() },
        ) {
            Some(i) => &self.runs[i],
            None => return Err(no_observation_error(id)),
        };
        if !same_text(observation.scope_id.as_str(), input.scope_id.as_str()) {
            return Err(
                KernelError::of(
                    KernelErrorKind::ScopeViolation,
                    concat6(
                        "observation ",
                        id,
                        " belongs to scope ",
                        observation.scope_id.as_str(),
                        ", not ",
                        input.scope_id.as_str(),
                    ),
                ),
            );
        }
        if !same_text(run.stream_id.as_str(), input.stream_id.as_str()) {
            return Err(
                KernelError::of(
                    KernelErrorKind::ScopeViolation,
                    concat6(
                        "observation ",
                        id,
                        " belongs to stream ",
                        run.stream_id.as_str(),
                        ", not ",
                        input.stream_id.as_str(),
                    ),
                ),
            );
        }
        if observation.source_start_sequence < input.source_from_sequence
            || observation.source_end_sequence > input.source_through_sequence {
            return Err(
                KernelError::of(
                    KernelErrorKind::InvalidInput,
                    concat3("observation ", id, " is outside the declared view source range"),
                ),
            );
        }
        Ok(())
    }

    fn check_placement(&self, input: &CreateView, id: &str) -> (result: Result<(), KernelError>)
        ensures
            match result {
                Ok(_) => placement_refusal(self@, input@, id@) is None,
                Err(error) => placement_refusal(self@, input@, id@) == Some(error@),
            },
    {
        if let Err(error) = self.ensure_scope_exists(input.scope_id.as_str()) {
            return Err(error);
        }
        let stream_id: &str = input.stream_id.as_str();
        let stream_scope: &str = match find_row(&self.streams, &StreamNamed { id: stream_id }) {
            Some(i) => self.streams[i].scope_id.as_str(),
            None => return Err(no_stream_error(stream_id)),
        };
        if !same_text(stream_scope, input.scope_id.as_str()) {
            return Err(
                KernelError::of(
                    KernelErrorKind::ScopeViolation,
                    concat6(
                        "stream ",
                        stream_id,
                        " belongs to scope ",
                        stream_scope,
                        ", not ",
                        input.scope_id.as_str(),
                    ),
                ),
            );
        }
        let latest: Option<String> = match self.latest_view(stream_id, ViewKind::Continuity) {
            Some(row) => Some(row.view.id),
            None => None,
        };
        if !same_optional_text(&latest, &input.expected_previous_view_id) {
            return Err(
                KernelError::of(
                    KernelErrorKind::StaleView,
                    concat4(
                        "view is stale: expected previous view ",
                        show_optional(&input.expected_previous_view_id).as_str(),
                        ", found ",
                        show_optional(&latest).as_str(),
                    ),
                ),
            );
        }
        if let Err(error) = self.check_represented(input) {
            return Err(error);
        }
        if !all_distinct(&input.source_observation_ids) {
            return Err(
                KernelError::invalid_input(
                    "UNIQUE constraint failed: view_sources.view_id, view_sources.observation_id",
                ),
            );
        }
        if let Err(error) = self.check_generation(stream_id, ViewKind::Continuity) {
            return Err(error);
        }
        self.check_view_id(id)
    }

    /// Refuses a new view under an identifier that another one has.
    pub(crate) fn check_view_id(&self, id: &str) -> (result: Result<(), KernelError>)
        ensures
            match result {
                Ok(_) => view_clash(self@, id@) is None,
                Err(error) => view_clash(self@, id@) == Some(error@),
            },
    {
        if any_row(&self.views, &ViewNamed { id }) {
            Err(id_clash_error("memory_views.id"))
        } else {
            Ok(())
        }
    }

    pub fn create_view(&mut self, input: CreateView) -> (result: Result<
        MutationResult<MemoryView>,
        KernelError,
    >)
        ensures
            exists|stamp: StampModel|
                drawn(stamp) && stamp.ids.len() == 1 && #[trigger] create_view_step(
                    old(self)@,
                    input@,
                    stamp,
                ) == (final(self)@, seen(result)),
    {
        let stamp: Stamp = draw_stamp(1);
        self.create_view_with(input, &stamp)
    }

    /// Creates a continuity view with a given identifier and time.
    pub fn create_view_with(&mut self, input: CreateView, stamp: &Stamp) -> (result: Result<
        MutationResult<MemoryView>,
        KernelError,
    >)
        requires
            stamp@.ids.len() == 1,
        ensures
            create_view_step(old(self)@, input@, stamp@) == (final(self)@, seen(result)),
    {
        if let Err(error) = check_view(&input) {
            return Err(error);
        }
        let key: String = input.idempotency_key.clone();
        let hash: String = operation_request_hash("view.create", write_view_request(&input).as_str());
        match self.prior_result(key.as_str(), "view.create", hash.as_str()) {
            Prior::Refused(error) => return Err(error),
            Prior::Known(StoredResult::View(view)) => return Ok(MutationResult::replayed(view)),
            Prior::Known(_) => return Err(unreadable_error(key.as_str())),
            Prior::Fresh => {},
        }
        if let Err(error) = self.check_placement(&input, stamp.ids[0].as_str()) {
            return Err(error);
        }
        let estimate: i64 = estimate_tokens(input.content.as_str());
        let token_count: i64 = match input.token_count {
            Some(count) => if count > estimate {
                count
            } else {
                estimate
            },
            None => estimate,
        };
        let observation_ids: Vec<String> = input.source_observation_ids;
        let content = ViewContent {
            scope_id: input.scope_id,
            stream_id: input.stream_id,
            kind: input.kind,
            content: input.content,
            from: input.source_from_sequence,
            through: input.source_through_sequence,
            model: input.model,
            prompt_version: input.prompt_version,
            token_count,
            continuation: None,
        };
        let view: MemoryView = self.insert_next_view(
            content,
            &observation_ids,
            stamp.ids[0].as_str(),
            stamp.at.as_str(),
        );
        self.save_operation(
            key.as_str(),
            "view.create",
            hash.as_str(),
            StoredResult::View(view.duplicate()),
        );
        Ok(MutationResult::created(view))
    }

    pub fn list_views(&self, scope_id: &str) -> (views: Result<Vec<MemoryView>, KernelError>)
        ensures
            seen(views) == if scope_exists(self@, scope_id@) {
                Ok(
                    ordered(self@.views.filter(view_in(scope_id@)), view_order()).map_values(
                        view_part(),
                    ),
                )
            } else {
                Err(no_scope(scope_id@))
            },
    {
        if let Err(error) = self.ensure_scope_exists(scope_id) {
            return Err(error);
        }
        let rows: Vec<ViewRow> = sort_rows(
            &select_rows(&self.views, &ViewIn { scope_id }),
            &ViewOrder {  },
        );
        let mut views: Vec<MemoryView> = Vec::new();
        let mut i: usize = 0;
        while i < rows.len()
            invariant
                i <= rows.len(),
                views.len() == i,
                forall|k: int| 0 <= k < i ==> (#[trigger] views[k])@ == rows[k]@.view,
            decreases rows.len() - i,
        {
            views.push(rows[i].view.duplicate());
            i = i + 1;
        }
        proof {
            assert(views.deep_view() =~= rows.deep_view().map_values(view_part()));
        }
        Ok(views)
    }
}

} // verus!
