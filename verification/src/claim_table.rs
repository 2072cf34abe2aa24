//! Claims as rows: their slots, their evidence, and the commands that change them.

use vstd::prelude::*;

use crate::digest::{hash_json, json_hash};
use crate::error::{
    first_error, first_error_at, first_error_none, invalid, missing, seen, violation, ErrorModel,
    KernelError, KernelErrorKind,
};
use crate::event::{
    event_at, event_named, exhausted, exhausted_error, id_clash, id_clash_error, stream_full,
    stream_or_new, with_event, EventNamed,
};
use crate::json::{
    add_field, command_metadata, command_metadata_is_read_back, json_quoted, json_text_field,
    object_text, quote, searchable, searchable_json, JsonValue,
};
use crate::kind::{ClaimCardinality, ClaimStatus, EventKind, Labelled, Sensitivity};
use crate::model::{Claim, ClaimModel, MemoryEvent, MemoryEventModel, MutationModel};
use crate::order::{ordered, sort_rows, KeyModel, OrderKey, RowKey};
use crate::row::{
    ClaimPatch, ClaimPatchModel, IndexRowModel, Link, LinkModel, MemoryStore, MemoryStoreModel,
    SlotRow, SlotRowModel, StreamRow,
};
use crate::scope::{readable_from, visible_scopes};
use crate::stamp::{Stamp, StampModel};
use crate::table::{
    any_row, change_rows, find_row, first_row, first_where, last_row, push_row, select_rows,
    some_row, take_last, Duplicate, RowChange, RowTest,
};
use crate::text::{
    concat2, concat3, concat5, concat6, estimate_tokens, is_listed, listed, same_text, token_estimate, Text,
};

verus! {

pub open spec fn claim_named(id: Text) -> spec_fn(ClaimModel) -> bool {
    |claim: ClaimModel| claim.id == id
}

pub open spec fn claim_at(store: MemoryStoreModel, id: Text) -> Option<ClaimModel> {
    first_where(store.claims, claim_named(id))
}

pub open spec fn no_claim(id: Text) -> ErrorModel {
    missing("claim "@ + id + " does not exist"@)
}

/// The slot of a claim, with the cardinality that the claim asks for.
pub open spec fn slot_of(claim: ClaimModel) -> SlotRowModel {
    SlotRowModel {
        scope_id: claim.scope_id,
        kind: claim.kind,
        subject: claim.subject,
        predicate: claim.predicate,
        cardinality: claim.cardinality,
    }
}

/// Whether two slots are one: they agree in all but the cardinality.
pub open spec fn same_slot(left: SlotRowModel, right: SlotRowModel) -> bool {
    &&& left.scope_id == right.scope_id
    &&& left.kind == right.kind
    &&& left.subject == right.subject
    &&& left.predicate == right.predicate
}

pub open spec fn slot_keyed(slot: SlotRowModel) -> spec_fn(SlotRowModel) -> bool {
    |row: SlotRowModel| same_slot(row, slot)
}

/// The active claims of a slot that a new claim would repeat or contradict: any of a single-valued
/// slot, those with the same value of a set-valued one.
pub open spec fn active_member(slot: SlotRowModel, value_hash: Text) -> spec_fn(ClaimModel) -> bool {
    |claim: ClaimModel|
        {
            &&& same_slot(slot_of(claim), slot)
            &&& claim.cardinality == slot.cardinality
            &&& slot.cardinality is Single || claim.value_hash == value_hash
            &&& claim.status is Active
        }
}

/// The active claims of a slot, except one.
pub open spec fn active_other(slot: SlotRowModel, excluded: Option<Text>) -> spec_fn(
    ClaimModel,
) -> bool {
    |claim: ClaimModel|
        same_slot(slot_of(claim), slot) && claim.status is Active && excluded != Some(claim.id)
}

/// The active claims of a slot that were made as single-valued.
pub open spec fn active_single(slot: SlotRowModel) -> spec_fn(ClaimModel) -> bool {
    |claim: ClaimModel|
        same_slot(slot_of(claim), slot) && claim.cardinality is Single && claim.status is Active
}

pub open spec fn claim_recency() -> spec_fn(ClaimModel) -> KeyModel {
    |claim: ClaimModel|
        KeyModel { major: 0, first: claim.updated_at, second: Seq::empty(), minor: 0 }
}

/// The active claim that a new claim of the slot would repeat or contradict.
pub open spec fn member_of(
    store: MemoryStoreModel,
    slot: SlotRowModel,
    value_hash: Text,
) -> Option<ClaimModel> {
    last_row(ordered(store.claims.filter(active_member(slot, value_hash)), claim_recency()))
}

/// The error for using a slot with another cardinality than before, if that is so.
pub open spec fn slot_refusal(store: MemoryStoreModel, slot: SlotRowModel) -> Option<ErrorModel> {
    match first_where(store.claim_slots, slot_keyed(slot)) {
        Some(row) => if row.cardinality != slot.cardinality {
            Some(
                invalid("claim slot already uses "@ + row.cardinality.label() + " cardinality"@),
            )
        } else {
            None
        },
        None => None,
    }
}

/// The memory with a slot's cardinality fixed.
pub open spec fn with_slot(store: MemoryStoreModel, slot: SlotRowModel) -> MemoryStoreModel {
    if some_row(store.claim_slots, slot_keyed(slot)) {
        store
    } else {
        MemoryStoreModel { claim_slots: store.claim_slots.push(slot), ..store }
    }
}

/// A claim with its standing changed.
pub open spec fn patched(claim: ClaimModel, patch: ClaimPatchModel) -> ClaimModel {
    ClaimModel {
        status: patch.status,
        modality: match patch.modality {
            Some(modality) => modality,
            None => claim.modality,
        },
        authority: match patch.authority {
            Some(authority) => authority,
            None => claim.authority,
        },
        updated_at: patch.at,
        ..claim
    }
}

pub open spec fn patched_where(
    accepts: spec_fn(ClaimModel) -> bool,
    patch: ClaimPatchModel,
) -> spec_fn(ClaimModel) -> ClaimModel {
    |claim: ClaimModel|
        if accepts(claim) {
            patched(claim, patch)
        } else {
            claim
        }
}

/// The memory with the standing of some claims changed.
pub open spec fn with_patch(
    store: MemoryStoreModel,
    accepts: spec_fn(ClaimModel) -> bool,
    patch: ClaimPatchModel,
) -> MemoryStoreModel {
    MemoryStoreModel { claims: store.claims.map_values(patched_where(accepts, patch)), ..store }
}

/// A change of the status alone.
pub open spec fn restated(status: ClaimStatus, at: Text) -> ClaimPatchModel {
    ClaimPatchModel { status, modality: None, authority: None, at }
}

/// The text under which a claim is indexed.
pub open spec fn claim_index_row(claim: ClaimModel) -> IndexRowModel {
    IndexRowModel {
        record_type: "claim"@,
        record_id: claim.id,
        scope_id: claim.scope_id,
        text: claim.subject + " "@ + claim.predicate + " "@ + searchable(claim.value),
    }
}

/// The memory with a claim added and indexed.
pub open spec fn with_claim(store: MemoryStoreModel, claim: ClaimModel) -> MemoryStoreModel {
    MemoryStoreModel {
        claims: store.claims.push(claim),
        index: store.index.push(claim_index_row(claim)),
        ..store
    }
}

/// The links with one more, unless it is there.
pub open spec fn linked(links: Seq<LinkModel>, holder_id: Text, source_id: Text) -> Seq<LinkModel> {
    let link = LinkModel { holder_id, source_id };
    if links.contains(link) {
        links
    } else {
        links.push(link)
    }
}

/// The links with one for each source, as far as they are not there.
pub open spec fn linked_all(links: Seq<LinkModel>, holder_id: Text, sources: Seq<Text>) -> Seq<
    LinkModel,
>
    decreases sources.len(),
{
    if sources.len() == 0 {
        links
    } else {
        linked(linked_all(links, holder_id, sources.drop_last()), holder_id, sources.last())
    }
}

pub open spec fn held_by(holder_id: Text) -> spec_fn(LinkModel) -> bool {
    |link: LinkModel| link.holder_id == holder_id
}

pub open spec fn link_source() -> spec_fn(LinkModel) -> Text {
    |link: LinkModel| link.source_id
}

/// The sources of a record.
pub open spec fn sources_of(links: Seq<LinkModel>, holder_id: Text) -> Seq<Text> {
    links.filter(held_by(holder_id)).map_values(link_source())
}

/// The memory with more evidence for a claim.
pub open spec fn with_sources(
    store: MemoryStoreModel,
    claim_id: Text,
    event_ids: Seq<Text>,
) -> MemoryStoreModel {
    MemoryStoreModel {
        claim_sources: linked_all(store.claim_sources, claim_id, event_ids),
        ..store
    }
}

/// The memory with the evidence of one claim given to another one too.
pub open spec fn with_copied_sources(
    store: MemoryStoreModel,
    from: Text,
    to: Text,
) -> MemoryStoreModel {
    with_sources(store, to, sources_of(store.claim_sources, from))
}

/// The error for evidence that a claim of `scope_id` cannot rest on, if it cannot.
pub open spec fn source_refusal(store: MemoryStoreModel, scope_id: Text) -> spec_fn(Text) -> Option<
    ErrorModel,
> {
    |event_id: Text|
        match event_at(store, event_id) {
            None => Some(missing("source event "@ + event_id + " does not exist"@)),
            Some(event) => if !readable_from(store, scope_id, event.scope_id) {
                Some(
                    violation(
                        "source event "@ + event_id + " from scope "@ + event.scope_id
                            + " is not visible to scope "@ + scope_id,
                    ),
                )
            } else if !(event.sensitivity is Normal) {
                Some(invalid("redacted event "@ + event_id + " cannot source a claim"@))
            } else {
                None
            },
        }
}

/// The error for the evidence that a claim is given, if there is one.
pub open spec fn sources_refusal(
    store: MemoryStoreModel,
    scope_id: Text,
    event_ids: Seq<Text>,
) -> Option<ErrorModel> {
    match visible_scopes(store, scope_id) {
        Err(error) => Some(error),
        Ok(_) => first_error(event_ids, source_refusal(store, scope_id)),
    }
}

/// The error for evidence of a claim that cannot be seen from another scope, if it cannot.
pub open spec fn hidden_source(store: MemoryStoreModel, claim_id: Text, scope_id: Text) -> spec_fn(
    Text,
) -> Option<ErrorModel> {
    |event_id: Text|
        match event_at(store, event_id) {
            None => None,
            Some(event) => if readable_from(store, scope_id, event.scope_id) {
                None
            } else {
                Some(
                    violation(
                        "claim "@ + claim_id + " has source evidence in scope "@ + event.scope_id
                            + ", which is not visible from scope "@ + scope_id,
                    ),
                )
            },
        }
}

/// The error for moving a claim to a scope that cannot see all its evidence, if it cannot.
pub open spec fn hidden_sources(
    store: MemoryStoreModel,
    claim_id: Text,
    scope_id: Text,
) -> Option<ErrorModel> {
    match visible_scopes(store, scope_id) {
        Err(error) => Some(error),
        Ok(_) => first_error(
            sources_of(store.claim_sources, claim_id),
            hidden_source(store, claim_id, scope_id),
        ),
    }
}

/// The stream that records the memory commands of a scope.
pub open spec fn command_stream(scope_id: Text) -> Text {
    "memory-commands:"@ + scope_id
}

/// What a command event records.
pub open spec fn command_content(operation: Text, request: Text) -> Text {
    object_text(seq![("operation"@, json_quoted(operation)), ("request"@, request)])
}

/// The event that records a command on claims. It is owned by the claim that the command is about.
pub open spec fn command_event(
    store: MemoryStoreModel,
    scope_id: Text,
    operation: Text,
    request: Text,
    owner: Text,
    stamp: StampModel,
) -> MemoryEventModel {
    let content = command_content(operation, request);
    MemoryEventModel {
        id: stamp.ids[0],
        stream_id: command_stream(scope_id),
        sequence: stream_or_new(
            store,
            command_stream(scope_id),
            scope_id,
            stamp.at,
        ).next_sequence,
        scope_id,
        kind: EventKind::MemoryCommand,
        actor_id: Some("explicit-user"@),
        occurred_at: stamp.at,
        recorded_at: stamp.at,
        content,
        content_hash: json_hash(content),
        token_count: token_estimate(content) as i64,
        sensitivity: Sensitivity::Normal,
        metadata: command_metadata(owner),
    }
}

/// Whether an event was generated to record a command on a claim that owns it.
pub open spec fn generated_for(event: MemoryEventModel, claim_id: Text) -> bool {
    &&& event.kind is MemoryCommand
    &&& json_text_field(event.metadata, "generatedBy"@) == Some("omk"@)
    &&& json_text_field(event.metadata, "ownerClaimId"@) == Some(claim_id)
}

/// What is recorded of a command was generated for the claim that owns it.
pub proof fn command_is_generated(
    store: MemoryStoreModel,
    scope_id: Text,
    operation: Text,
    request: Text,
    owner: Text,
    stamp: StampModel,
)
    ensures
        generated_for(command_event(store, scope_id, operation, request, owner, stamp), owner),
{
    command_metadata_is_read_back(owner);
}

/// Whether the last event of a memory records a command on the claim that it is answered with,
/// unless the answer is an error or replayed.
pub open spec fn command_recorded(
    after: MemoryStoreModel,
    answer: Result<MutationModel<ClaimModel>, ErrorModel>,
) -> bool {
    answer matches Ok(done) ==> done.replayed || (after.events.len() > 0 && generated_for(
        after.events.last(),
        done.data.id,
    ))
}

/// The memory with a command recorded as evidence of the claim that owns it.
pub open spec fn with_command(
    store: MemoryStoreModel,
    scope_id: Text,
    operation: Text,
    request: Text,
    owner: Text,
    stamp: StampModel,
) -> MemoryStoreModel {
    with_event(
        store,
        command_event(store, scope_id, operation, request, owner, stamp),
        stamp.at,
    )
}

/// The error for a command that cannot be recorded, if it cannot.
pub open spec fn command_refusal(
    store: MemoryStoreModel,
    scope_id: Text,
    stamp: StampModel,
) -> Option<ErrorModel> {
    if stream_full(store, command_stream(scope_id)) {
        Some(exhausted(command_stream(scope_id)))
    } else if some_row(store.events, event_named(stamp.ids[0])) {
        Some(id_clash("memory_events.id"@))
    } else {
        None
    }
}

/// The error for a new claim under an identifier that another one has, if that is so.
pub open spec fn claim_clash(store: MemoryStoreModel, id: Text) -> Option<ErrorModel> {
    if some_row(store.claims, claim_named(id)) {
        Some(id_clash("claims.id"@))
    } else {
        None
    }
}

/// The claims of some scopes, all of them or those of one status.
pub open spec fn claim_in(scope_ids: Seq<Text>, status: Option<ClaimStatus>) -> spec_fn(
    ClaimModel,
) -> bool {
    |claim: ClaimModel|
        listed(scope_ids, claim.scope_id) && (status matches Some(wanted) ==> claim.status == wanted)
}

pub open spec fn claim_age() -> spec_fn(ClaimModel) -> KeyModel {
    |claim: ClaimModel|
        KeyModel { major: 0, first: claim.created_at, second: claim.id, minor: 0 }
}

/// The claims of some scopes by age.
pub open spec fn claims_in(
    store: MemoryStoreModel,
    scope_ids: Seq<Text>,
    status: Option<ClaimStatus>,
) -> Seq<ClaimModel> {
    ordered(store.claims.filter(claim_in(scope_ids, status)), claim_age())
}

pub struct ClaimNamed<'a> {
    pub id: &'a str,
}

impl<'a> RowTest<Claim> for ClaimNamed<'a> {
    open spec fn accepts(&self) -> spec_fn(ClaimModel) -> bool {
        claim_named(self.id@)
    }

    fn test(&self, row: &Claim) -> (b: bool) {
        same_text(row.id.as_str(), self.id)
    }
}

pub fn in_slot(claim: &Claim, slot: &SlotRow) -> (b: bool)
    ensures
        b == same_slot(slot_of(claim@), slot@),
{
    same_text(claim.scope_id.as_str(), slot.scope_id.as_str()) && claim.kind == slot.kind
        && same_text(claim.subject.as_str(), slot.subject.as_str()) && same_text(
        claim.predicate.as_str(),
        slot.predicate.as_str(),
    )
}

pub struct ActiveMember<'a> {
    pub slot: &'a SlotRow,
    pub value_hash: &'a str,
}

impl<'a> RowTest<Claim> for ActiveMember<'a> {
    open spec fn accepts(&self) -> spec_fn(ClaimModel) -> bool {
        active_member(self.slot@, self.value_hash@)
    }

    fn test(&self, row: &Claim) -> (b: bool) {
        in_slot(row, self.slot) && row.cardinality == self.slot.cardinality && (
        self.slot.cardinality == ClaimCardinality::Single || same_text(
            row.value_hash.as_str(),
            self.value_hash,
        )) && row.status == ClaimStatus::Active
    }
}

pub struct ActiveOther<'a> {
    pub slot: &'a SlotRow,
    pub excluded: Option<&'a str>,
}

impl<'a> RowTest<Claim> for ActiveOther<'a> {
    open spec fn accepts(&self) -> spec_fn(ClaimModel) -> bool {
        active_other(self.slot@, self.excluded.deep_view())
    }

    fn test(&self, row: &Claim) -> (b: bool) {
        in_slot(row, self.slot) && row.status == ClaimStatus::Active && match self.excluded {
            Some(id) => !same_text(row.id.as_str(), id),
            None => true,
        }
    }
}

pub struct ActiveSingle<'a> {
    pub slot: &'a SlotRow,
}

impl<'a> RowTest<Claim> for ActiveSingle<'a> {
    open spec fn accepts(&self) -> spec_fn(ClaimModel) -> bool {
        active_single(self.slot@)
    }

    fn test(&self, row: &Claim) -> (b: bool) {
        in_slot(row, self.slot) && row.cardinality == ClaimCardinality::Single && row.status
            == ClaimStatus::Active
    }
}

pub struct SlotKeyed<'a> {
    pub slot: &'a SlotRow,
}

impl<'a> RowTest<SlotRow> for SlotKeyed<'a> {
    open spec fn accepts(&self) -> spec_fn(SlotRowModel) -> bool {
        slot_keyed(self.slot@)
    }

    fn test(&self, row: &SlotRow) -> (b: bool) {
        same_text(row.scope_id.as_str(), self.slot.scope_id.as_str()) && row.kind == self.slot.kind
            && same_text(row.subject.as_str(), self.slot.subject.as_str()) && same_text(
            row.predicate.as_str(),
            self.slot.predicate.as_str(),
        )
    }
}

pub struct ClaimIn<'a> {
    pub scope_ids: &'a Vec<String>,
    pub status: Option<ClaimStatus>,
}

impl<'a> RowTest<Claim> for ClaimIn<'a> {
    open spec fn accepts(&self) -> spec_fn(ClaimModel) -> bool {
        claim_in(self.scope_ids.deep_view(), self.status)
    }

    fn test(&self, row: &Claim) -> (b: bool) {
        is_listed(self.scope_ids, row.scope_id.as_str()) && match self.status {
            Some(status) => row.status == status,
            None => true,
        }
    }
}

pub struct ClaimRecency {}

impl RowKey<Claim> for ClaimRecency {
    open spec fn key(&self) -> spec_fn(ClaimModel) -> KeyModel {
        claim_recency()
    }

    fn key_of(&self, row: &Claim) -> (key: OrderKey) {
        let second: String = String::new();
        proof {
            assert(second@ =~= Seq::empty());
        }
        OrderKey { major: 0, first: row.updated_at.clone(), second, minor: 0 }
    }
}

pub struct ClaimAge {}

impl RowKey<Claim> for ClaimAge {
    open spec fn key(&self) -> spec_fn(ClaimModel) -> KeyModel {
        claim_age()
    }

    fn key_of(&self, row: &Claim) -> (key: OrderKey) {
        OrderKey { major: 0, first: row.created_at.clone(), second: row.id.clone(), minor: 0 }
    }
}

pub struct PatchWhere<'a, P: RowTest<Claim>> {
    pub test: &'a P,
    pub patch: &'a ClaimPatch,
}

impl<'a, P: RowTest<Claim>> RowChange<Claim> for PatchWhere<'a, P> {
    open spec fn change(&self) -> spec_fn(ClaimModel) -> ClaimModel {
        patched_where(self.test.accepts(), self.patch@)
    }

    fn apply(&self, row: &Claim) -> (changed: Claim) {
        if self.test.test(row) {
            patch_claim(row.duplicate(), self.patch)
        } else {
            row.duplicate()
        }
    }
}

pub fn patch_claim(claim: Claim, patch: &ClaimPatch) -> (changed: Claim)
    ensures
        changed@ == patched(claim@, patch@),
{
    let mut claim: Claim = claim;
    claim.status = patch.status;
    if let Some(modality) = patch.modality {
        claim.modality = modality;
    }
    if let Some(authority) = patch.authority {
        claim.authority = authority;
    }
    claim.updated_at = patch.at.clone();
    claim
}

pub fn restate(status: ClaimStatus, at: &str) -> (patch: ClaimPatch)
    ensures
        patch@ == restated(status, at@),
{
    ClaimPatch { status, modality: None, authority: None, at: at.to_owned() }
}

pub struct HeldBy<'a> {
    pub id: &'a str,
}

impl<'a> RowTest<Link> for HeldBy<'a> {
    open spec fn accepts(&self) -> spec_fn(LinkModel) -> bool {
        held_by(self.id@)
    }

    fn test(&self, row: &Link) -> (b: bool) {
        same_text(row.holder_id.as_str(), self.id)
    }
}

pub fn claim_slot(claim: &Claim) -> (slot: SlotRow)
    ensures
        slot@ == slot_of(claim@),
{
    SlotRow {
        scope_id: claim.scope_id.clone(),
        kind: claim.kind,
        subject: claim.subject.clone(),
        predicate: claim.predicate.clone(),
        cardinality: claim.cardinality,
    }
}

pub fn no_claim_error(id: &str) -> (error: KernelError)
    ensures
        error@ == no_claim(id@),
{
    KernelError::of(KernelErrorKind::NotFound, concat3("claim ", id, " does not exist"))
}

/// Adds a link unless it is there.
pub fn add_link(links: &mut Vec<Link>, holder_id: &str, source_id: &str)
    ensures
        final(links).deep_view() == linked(old(links).deep_view(), holder_id@, source_id@),
{
    let mut i: usize = 0;
    let ghost link = LinkModel { holder_id: holder_id@, source_id: source_id@ };
    while i < links.len()
        invariant
            i <= links.len(),
            links.deep_view() == old(links).deep_view(),
            link == (LinkModel { holder_id: holder_id@, source_id: source_id@ }),
            forall|k: int| 0 <= k < i ==> #[trigger] links.deep_view()[k] != link,
        decreases links.len() - i,
    {
        if same_text(links[i].holder_id.as_str(), holder_id) && same_text(
            links[i].source_id.as_str(),
            source_id,
        ) {
            proof {
                assert(links.deep_view()[i as int] == link);
            }
            return;
        }
        i = i + 1;
    }
    push_row(links, Link { holder_id: holder_id.to_owned(), source_id: source_id.to_owned() });
}

/// Adds a link for each source, as far as they are not there.
pub fn add_links(links: &mut Vec<Link>, holder_id: &str, sources: &Vec<String>)
    ensures
        final(links).deep_view() == linked_all(
            old(links).deep_view(),
            holder_id@,
            sources.deep_view(),
        ),
{
    let mut i: usize = 0;
    proof {
        assert(sources.deep_view().take(0) =~= Seq::empty());
    }
    while i < sources.len()
        invariant
            i <= sources.len(),
            links.deep_view() == linked_all(
                old(links).deep_view(),
                holder_id@,
                sources.deep_view().take(i as int),
            ),
        decreases sources.len() - i,
    {
        proof {
            let next = sources.deep_view().take(i + 1);
            assert(next.drop_last() =~= sources.deep_view().take(i as int));
            assert(next.last() == sources[i as int]@);
        }
        add_link(links, holder_id, sources[i].as_str());
        i = i + 1;
    }
    proof {
        assert(sources.deep_view().take(sources.len() as int) =~= sources.deep_view());
    }
}

/// The sources of a record.
pub fn source_ids(links: &Vec<Link>, holder_id: &str) -> (ids: Vec<String>)
    ensures
        ids.deep_view() == sources_of(links.deep_view(), holder_id@),
{
    let held: Vec<Link> = select_rows(links, &HeldBy { id: holder_id });
    let mut ids: Vec<String> = Vec::new();
    let mut i: usize = 0;
    while i < held.len()
        invariant
            i <= held.len(),
            ids.len() == i,
            forall|k: int| 0 <= k < i ==> (#[trigger] ids[k])@ == held[k].source_id@,
        decreases held.len() - i,
    {
        ids.push(held[i].source_id.clone());
        i = i + 1;
    }
    proof {
        assert(ids.deep_view() =~= held.deep_view().map_values(link_source()));
    }
    ids
}

impl MemoryStore {
    pub fn query_claim(&self, id: &str) -> (claim: Result<Claim, KernelError>)
        ensures
            seen(claim) == match claim_at(self@, id@) {
                Some(claim) => Ok(claim),
                None => Err(no_claim(id@)),
            },
    {
        match first_row(&self.claims, &ClaimNamed { id }) {
            Some(claim) => Ok(claim),
            None => Err(no_claim_error(id)),
        }
    }

    /// The active claim that a new claim of the slot would repeat or contradict.
    pub fn query_active_claim_member(&self, slot: &SlotRow, value_hash: &str) -> (member: Option<Claim>)
        ensures
            member.deep_view() == member_of(self@, slot@, value_hash@),
    {
        let members: Vec<Claim> = select_rows(&self.claims, &ActiveMember { slot, value_hash });
        take_last(sort_rows(&members, &ClaimRecency {  }))
    }

    /// The claims of some scopes by age.
    pub fn query_claims_for_scopes(
        &self,
        scope_ids: &Vec<String>,
        status: Option<ClaimStatus>,
    ) -> (claims: Vec<Claim>)
        ensures
            claims.deep_view() == claims_in(self@, scope_ids.deep_view(), status),
    {
        sort_rows(&select_rows(&self.claims, &ClaimIn { scope_ids, status }), &ClaimAge {  })
    }

    /// Refuses to use a slot with another cardinality than before.
    pub fn check_claim_slot(&self, slot: &SlotRow) -> (result: Result<(), KernelError>)
        ensures
            match result {
                Ok(_) => slot_refusal(self@, slot@) is None,
                Err(error) => slot_refusal(self@, slot@) == Some(error@),
            },
    {
        match find_row(&self.claim_slots, &SlotKeyed { slot }) {
            Some(i) => if self.claim_slots[i].cardinality != slot.cardinality {
                Err(
                    KernelError::of(
                        KernelErrorKind::InvalidInput,
                        concat3(
                            "claim slot already uses ",
                            self.claim_slots[i].cardinality.label_text(),
                            " cardinality",
                        ),
                    ),
                )
            } else {
                Ok(())
            },
            None => Ok(()),
        }
    }

    /// Fixes the cardinality of a slot at its first use.
    pub(crate) fn ensure_claim_slot(&mut self, slot: &SlotRow)
        ensures
            final(self)@ == with_slot(old(self)@, slot@),
    {
        if !any_row(&self.claim_slots, &SlotKeyed { slot }) {
            push_row(&mut self.claim_slots, slot.duplicate());
        }
    }

    pub(crate) fn patch_claims<P: RowTest<Claim>>(&mut self, test: &P, patch: &ClaimPatch)
        ensures
            final(self)@ == with_patch(old(self)@, test.accepts(), patch@),
    {
        change_rows(&mut self.claims, &PatchWhere { test, patch });
    }

    /// Adds a claim and indexes it.
    pub(crate) fn insert_claim(&mut self, claim: &Claim)
        ensures
            final(self)@ == with_claim(old(self)@, claim@),
    {
        let text: String = concat5(
            claim.subject.as_str(),
            " ",
            claim.predicate.as_str(),
            " ",
            searchable_json(&claim.value).as_str(),
        );
        self.insert_fts("claim", claim.id.as_str(), claim.scope_id.as_str(), text);
        push_row(&mut self.claims, claim.duplicate());
    }

    pub(crate) fn attach_event_sources(&mut self, claim_id: &str, event_ids: &Vec<String>)
        ensures
            final(self)@ == with_sources(old(self)@, claim_id@, event_ids.deep_view()),
    {
        add_links(&mut self.claim_sources, claim_id, event_ids);
    }

    /// Adds one event to the evidence of a claim.
    pub(crate) fn attach_event(&mut self, claim_id: &str, event_id: &str)
        ensures
            final(self)@ == with_sources(old(self)@, claim_id@, seq![event_id@]),
    {
        let mut ids: Vec<String> = Vec::new();
        ids.push(event_id.to_owned());
        proof {
            assert(ids.deep_view() =~= seq![event_id@]);
        }
        self.attach_event_sources(claim_id, &ids);
    }

    pub(crate) fn copy_claim_sources(&mut self, from_claim_id: &str, to_claim_id: &str)
        ensures
            final(self)@ == with_copied_sources(old(self)@, from_claim_id@, to_claim_id@),
    {
        let ids: Vec<String> = source_ids(&self.claim_sources, from_claim_id);
        self.attach_event_sources(to_claim_id, &ids);
    }

    /// Refuses evidence that a claim of a scope cannot rest on.
    pub fn validate_claim_event_sources(&self, scope_id: &str, event_ids: &Vec<String>) -> (result:
        Result<(), KernelError>)
        ensures
            match result {
                Ok(_) => sources_refusal(self@, scope_id@, event_ids.deep_view()) is None,
                Err(error) => sources_refusal(self@, scope_id@, event_ids.deep_view()) == Some(
                    error@,
                ),
            },
    {
        let visible: Vec<String> = match self.retrieval_scope_ids(scope_id) {
            Ok(visible) => visible,
            Err(error) => return Err(error),
        };
        let ghost check = source_refusal(self@, scope_id@);
        let ghost ids = event_ids.deep_view();
        let mut i: usize = 0;
        while i < event_ids.len()
            invariant
                i <= event_ids.len(),
                ids == event_ids.deep_view(),
                check == source_refusal(self@, scope_id@),
                visible_scopes(self@, scope_id@) is Ok,
                forall|id: Text|
                    #[trigger] listed(visible.deep_view(), id) <==> readable_from(
                        self@,
                        scope_id@,
                        id,
                    ),
                forall|k: int| 0 <= k < i ==> check(#[trigger] ids[k]) is None,
            decreases event_ids.len() - i,
        {
            let event_id: &str = event_ids[i].as_str();
            proof {
                assert(ids[i as int] == event_id@);
            }
            match find_row(&self.events, &EventNamed { id: event_id }) {
                None => {
                    let error: KernelError = KernelError::of(
                        KernelErrorKind::NotFound,
                        concat3("source event ", event_id, " does not exist"),
                    );
                    proof {
                        assert(check(ids[i as int]) == Some(error@));
                        first_error_at(ids, check, i as int);
                    }
                    return Err(error);
                },
                Some(at) => {
                    let event: &MemoryEvent = &self.events[at];
                    proof {
                        assert(event_at(self@, event_id@) == Some(event@));
                    }
                    if !is_listed(&visible, event.scope_id.as_str()) {
                        let error: KernelError = KernelError::of(
                            KernelErrorKind::ScopeViolation,
                            concat6(
                                "source event ",
                                event_id,
                                " from scope ",
                                event.scope_id.as_str(),
                                " is not visible to scope ",
                                scope_id,
                            ),
                        );
                        proof {
                            assert(check(ids[i as int]) == Some(error@));
                            first_error_at(ids, check, i as int);
                        }
                        return Err(error);
                    }
                    if event.sensitivity != Sensitivity::Normal {
                        let error: KernelError = KernelError::of(
                            KernelErrorKind::InvalidInput,
                            concat3("redacted event ", event_id, " cannot source a claim"),
                        );
                        proof {
                            assert(check(ids[i as int]) == Some(error@));
                            first_error_at(ids, check, i as int);
                        }
                        return Err(error);
                    }
                },
            }
            i = i + 1;
        }
        proof {
            first_error_none(ids, check);
        }
        Ok(())
    }

    /// Refuses to move a claim to a scope that cannot see all its evidence.
    pub fn validate_existing_claim_sources_visible(&self, claim_id: &str, new_scope_id: &str) -> (result:
        Result<(), KernelError>)
        ensures
            match result {
                Ok(_) => hidden_sources(self@, claim_id@, new_scope_id@) is None,
                Err(error) => hidden_sources(self@, claim_id@, new_scope_id@) == Some(error@),
            },
    {
        let visible: Vec<String> = match self.retrieval_scope_ids(new_scope_id) {
            Ok(visible) => visible,
            Err(error) => return Err(error),
        };
        let sources: Vec<String> = source_ids(&self.claim_sources, claim_id);
        let ghost check = hidden_source(self@, claim_id@, new_scope_id@);
        let ghost ids = sources.deep_view();
        let mut i: usize = 0;
        while i < sources.len()
            invariant
                i <= sources.len(),
                ids == sources.deep_view(),
                check == hidden_source(self@, claim_id@, new_scope_id@),
                visible_scopes(self@, new_scope_id@) is Ok,
                ids == sources_of(self@.claim_sources, claim_id@),
                forall|id: Text|
                    #[trigger] listed(visible.deep_view(), id) <==> readable_from(
                        self@,
                        new_scope_id@,
                        id,
                    ),
                forall|k: int| 0 <= k < i ==> check(#[trigger] ids[k]) is None,
            decreases sources.len() - i,
        {
            let event_id: &str = sources[i].as_str();
            proof {
                assert(ids[i as int] == event_id@);
            }
            if let Some(at) = find_row(&self.events, &EventNamed { id: event_id }) {
                let event: &MemoryEvent = &self.events[at];
                proof {
                    assert(event_at(self@, event_id@) == Some(event@));
                }
                if !is_listed(&visible, event.scope_id.as_str()) {
                    let error: KernelError = KernelError::of(
                        KernelErrorKind::ScopeViolation,
                        concat6(
                            "claim ",
                            claim_id,
                            " has source evidence in scope ",
                            event.scope_id.as_str(),
                            ", which is not visible from scope ",
                            new_scope_id,
                        ),
                    );
                    proof {
                        assert(check(ids[i as int]) == Some(error@));
                        first_error_at(ids, check, i as int);
                    }
                    return Err(error);
                }
            }
            i = i + 1;
        }
        proof {
            first_error_none(ids, check);
        }
        Ok(())
    }

    /// Refuses a command that cannot be recorded.
    pub(crate) fn check_command(&self, scope_id: &str, stamp: &Stamp) -> (result: Result<
        (),
        KernelError,
    >)
        requires
            stamp@.ids.len() > 0,
        ensures
            match result {
                Ok(_) => command_refusal(self@, scope_id@, stamp@) is None,
                Err(error) => command_refusal(self@, scope_id@, stamp@) == Some(error@),
            },
    {
        let stream_id: String = concat2("memory-commands:", scope_id);
        if self.is_stream_full(stream_id.as_str()) {
            return Err(exhausted_error(stream_id.as_str()));
        }
        if any_row(&self.events, &EventNamed { id: stamp.ids[0].as_str() }) {
            return Err(id_clash_error("memory_events.id"));
        }
        Ok(())
    }

    /// Refuses a new claim under an identifier that another one has.
    pub(crate) fn check_claim_id(&self, id: &str) -> (result: Result<(), KernelError>)
        ensures
            match result {
                Ok(_) => claim_clash(self@, id@) is None,
                Err(error) => claim_clash(self@, id@) == Some(error@),
            },
    {
        if any_row(&self.claims, &ClaimNamed { id }) {
            Err(id_clash_error("claims.id"))
        } else {
            Ok(())
        }
    }

    /// Records a command on claims, owned by the claim that it is about.
    pub(crate) fn insert_memory_command_event(
        &mut self,
        scope_id: &str,
        operation: &str,
        request: &str,
        owner: &str,
        stamp: &Stamp,
    )
        requires
            stamp@.ids.len() > 0,
        ensures
            final(self)@ == with_command(
                old(self)@,
                scope_id@,
                operation@,
                request@,
                owner@,
                stamp@,
            ),
            final(self)@.events.len() > 0,
            generated_for(final(self)@.events.last(), owner@),
    {
        proof {
            command_is_generated(self@, scope_id@, operation@, request@, owner@, stamp@);
        }
        let stream_id: String = concat2("memory-commands:", scope_id);
        let stream: StreamRow = self.stream_row(stream_id.as_str(), scope_id, stamp.at.as_str());
        let mut fields: Vec<(String, String)> = Vec::new();
        let ghost none = fields.deep_view();
        add_field(&mut fields, "operation", quote(operation));
        add_field(&mut fields, "request", request.to_owned());
        proof {
            assert(none =~= Seq::empty());
            assert(fields.deep_view() =~= seq![
                ("operation"@, json_quoted(operation@)),
                ("request"@, request@),
            ]);
        }
        let content: JsonValue = JsonValue::object(&fields);
        let event = MemoryEvent {
            id: stamp.ids[0].clone(),
            stream_id,
            sequence: stream.next_sequence,
            scope_id: scope_id.to_owned(),
            kind: EventKind::MemoryCommand,
            actor_id: Some("explicit-user".to_owned()),
            occurred_at: stamp.at.clone(),
            recorded_at: stamp.at.clone(),
            content_hash: hash_json(&content),
            token_count: estimate_tokens(content.text()),
            content,
            sensitivity: Sensitivity::Normal,
            metadata: JsonValue::command_metadata(owner),
        };
        self.insert_event(event, stamp.at.as_str());
    }
}

} // verus!
