//! Privacy purges: removing an event or a claim together with everything that rests on it.

use vstd::prelude::*;

use crate::claim_table::{
    claim_at, claim_named, generated_for, in_slot, no_claim, same_slot, slot_of, ClaimNamed,
};
use crate::digest::{operation_request_hash, request_hash};
use crate::error::{seen, ErrorModel, KernelError};
use crate::event::{event_at, no_event, EventNamed};
use crate::graph::{holds_node, reachable, reaches};
use crate::json::{json_quoted, quote};
use crate::kind::{EventKind, RunStatus, SourceIntegrity};
use crate::mention::Mentions;
use crate::model::{
    AmbiguityDraftModel, Claim, ClaimModel, ClaimPurge, ClaimPurgeModel, EventPurge, EventPurgeModel, MemoryEvent,
    MemoryEventModel, MutationModel, MutationResult, Observation, ObservationModel,
};
use crate::operation::{
    prior, required, saved, unreadable, unreadable_error, validate_nonempty, Prior, PriorModel,
};
use crate::order::{ordered, sort_rows, KeyModel, OrderKey, RowKey};
use crate::row::{
    Edge, EdgeModel, IndexRow, IndexRowModel, Link, LinkModel, MemoryStore, MemoryStoreModel, Node,
    NodeModel, OperationRow, OperationRowModel, RunRow, RunRowModel, SlotRow, SlotRowModel,
    StoredResult, StoredResultModel, ViewRow, ViewRowModel,
};
use crate::stamp::{draw_stamp, Stamp, StampModel};
use crate::table::{
    any_row, append_rows, change_rows, find_row, keep_rows, push_row, select_rows, some_row,
    Duplicate, RowChange, RowTest,
};
use crate::text::{is_listed, listed, same_text, Text};

verus! {

pub open spec fn event_node(id: Text) -> NodeModel {
    NodeModel { claim: false, id }
}

pub open spec fn claim_node(id: Text) -> NodeModel {
    NodeModel { claim: true, id }
}

/// How a purge spreads over evidence links: from an event to the claims that rest on it, and from
/// a claim to the commands that were generated for it.
pub open spec fn purge_edges(store: MemoryStoreModel, links: Seq<LinkModel>) -> Seq<EdgeModel>
    decreases links.len(),
{
    if links.len() == 0 {
        Seq::empty()
    } else {
        let front = purge_edges(store, links.drop_last());
        let link = links.last();
        match event_at(store, link.source_id) {
            None => front,
            Some(event) => {
                let spread = front.push(
                    EdgeModel { from: event_node(link.source_id), to: claim_node(link.holder_id) },
                );
                if some_row(store.claims, claim_named(link.holder_id)) && generated_for(
                    event,
                    link.holder_id,
                ) {
                    spread.push(
                        EdgeModel {
                            from: claim_node(link.holder_id),
                            to: event_node(link.source_id),
                        },
                    )
                } else {
                    spread
                }
            },
        }
    }
}

/// The events and claims that a purge of some roots reaches.
pub open spec fn purge_reach(store: MemoryStoreModel, roots: Seq<NodeModel>) -> Set<NodeModel> {
    Set::new(|node: NodeModel| reaches(purge_edges(store, store.claim_sources), roots, node))
}

pub open spec fn event_reached(nodes: Set<NodeModel>) -> spec_fn(MemoryEventModel) -> bool {
    |event: MemoryEventModel| nodes.contains(event_node(event.id))
}

pub open spec fn claim_reached(nodes: Set<NodeModel>) -> spec_fn(ClaimModel) -> bool {
    |claim: ClaimModel| nodes.contains(claim_node(claim.id))
}

pub open spec fn event_id() -> spec_fn(MemoryEventModel) -> Text {
    |event: MemoryEventModel| event.id
}

/// Whether a record is linked to one of some sources.
pub open spec fn linked_to(links: Seq<LinkModel>, holder_id: Text, sources: Seq<Text>) -> bool {
    exists|i: int|
        0 <= i < links.len() && (#[trigger] links[i]).holder_id == holder_id && listed(
            sources,
            links[i].source_id,
        )
}

/// Whether an event was generated for one of some claims that rest on it.
pub open spec fn generated_among(links: Seq<LinkModel>, claims: Seq<Text>) -> spec_fn(
    MemoryEventModel,
) -> bool {
    |event: MemoryEventModel|
        exists|i: int|
            0 <= i < links.len() && (#[trigger] links[i]).source_id == event.id && listed(
                claims,
                links[i].holder_id,
            ) && generated_for(event, links[i].holder_id)
}

pub open spec fn rests_on(links: Seq<LinkModel>, sources: Seq<Text>) -> spec_fn(
    ObservationModel,
) -> bool {
    |observation: ObservationModel| linked_to(links, observation.id, sources)
}

/// Whether the range of a view takes in one of some events.
pub open spec fn view_covers(row: ViewRowModel, events: Seq<MemoryEventModel>) -> bool {
    exists|i: int|
        0 <= i < events.len() && (#[trigger] events[i]).scope_id == row.view.scope_id
            && events[i].stream_id == row.view.stream_id && row.view.source_from_sequence
            <= events[i].sequence <= row.view.source_through_sequence
}

/// The views that take in removed events or represent removed observations.
pub open spec fn view_direct(
    links: Seq<LinkModel>,
    events: Seq<MemoryEventModel>,
    observations: Seq<Text>,
) -> spec_fn(ViewRowModel) -> bool {
    |row: ViewRowModel|
        view_covers(row, events) || linked_to(links, row.view.id, observations)
}

/// The edges from each view to the next generation.
pub open spec fn view_edges(views: Seq<ViewRowModel>) -> Seq<EdgeModel>
    decreases views.len(),
{
    if views.len() == 0 {
        Seq::empty()
    } else {
        let front = view_edges(views.drop_last());
        match views.last().view.previous_view_id {
            Some(previous) => front.push(
                EdgeModel { from: event_node(previous), to: event_node(views.last().view.id) },
            ),
            None => front,
        }
    }
}

pub open spec fn view_node() -> spec_fn(Text) -> NodeModel {
    |id: Text| event_node(id)
}

/// The views that were built on some others, and these themselves.
pub open spec fn view_reach(views: Seq<ViewRowModel>, direct: Seq<Text>) -> Set<NodeModel> {
    Set::new(
        |node: NodeModel| reaches(view_edges(views), direct.map_values(view_node()), node),
    )
}

pub open spec fn view_reached(nodes: Set<NodeModel>) -> spec_fn(ViewRowModel) -> bool {
    |row: ViewRowModel| nodes.contains(event_node(row.view.id))
}

/// The runs whose range takes in one of some events.
pub open spec fn run_covers(events: Seq<MemoryEventModel>) -> spec_fn(RunRowModel) -> bool {
    |run: RunRowModel|
        exists|i: int|
            0 <= i < events.len() && (#[trigger] events[i]).stream_id == run.stream_id
                && run.from_sequence <= events[i].sequence <= run.to_sequence
}

pub open spec fn claim_ids() -> spec_fn(ClaimModel) -> Text {
    |claim: ClaimModel| claim.id
}

pub open spec fn observation_ids() -> spec_fn(ObservationModel) -> Text {
    |observation: ObservationModel| observation.id
}

pub open spec fn view_ids() -> spec_fn(ViewRowModel) -> Text {
    |row: ViewRowModel| row.view.id
}

pub open spec fn run_ids() -> spec_fn(RunRowModel) -> Text {
    |run: RunRowModel| run.id
}

/// What a purge concerns.
#[verifier::ext_equal]
pub struct PrivacyClosureModel {
    /// The events to remove.
    pub events: Seq<MemoryEventModel>,
    /// Those of them that record commands on claims to remove.
    pub generated_event_ids: Seq<Text>,
    pub observation_ids: Seq<Text>,
    pub claim_ids: Seq<Text>,
    /// The views that take in removed events or represent removed observations.
    pub direct_view_ids: Seq<Text>,
    /// The views to remove: those, and all that were built on them.
    pub view_ids: Seq<Text>,
    /// The runs that lose evidence.
    pub affected_run_ids: Seq<Text>,
}

pub struct PrivacyClosure {
    pub events: Vec<MemoryEvent>,
    pub generated_event_ids: Vec<String>,
    pub observation_ids: Vec<String>,
    pub claim_ids: Vec<String>,
    pub direct_view_ids: Vec<String>,
    pub view_ids: Vec<String>,
    pub affected_run_ids: Vec<String>,
}

impl View for PrivacyClosure {
    type V = PrivacyClosureModel;

    open spec fn view(&self) -> PrivacyClosureModel {
        PrivacyClosureModel {
            events: self.events.deep_view(),
            generated_event_ids: self.generated_event_ids.deep_view(),
            observation_ids: self.observation_ids.deep_view(),
            claim_ids: self.claim_ids.deep_view(),
            direct_view_ids: self.direct_view_ids.deep_view(),
            view_ids: self.view_ids.deep_view(),
            affected_run_ids: self.affected_run_ids.deep_view(),
        }
    }
}

/// What a purge of some roots concerns.
pub open spec fn privacy_closure(
    store: MemoryStoreModel,
    roots: Seq<NodeModel>,
) -> PrivacyClosureModel {
    let nodes = purge_reach(store, roots);
    let events = store.events.filter(event_reached(nodes));
    let event_ids = events.map_values(event_id());
    let claims = store.claims.filter(claim_reached(nodes)).map_values(claim_ids());
    let observations = store.observations.filter(
        rests_on(store.observation_sources, event_ids),
    ).map_values(observation_ids());
    let direct = store.views.filter(
        view_direct(store.view_sources, events, observations),
    ).map_values(view_ids());
    PrivacyClosureModel {
        events,
        generated_event_ids: store.events.filter(
            generated_among(store.claim_sources, claims),
        ).map_values(event_id()),
        observation_ids: observations,
        claim_ids: claims,
        direct_view_ids: direct,
        view_ids: store.views.filter(view_reached(view_reach(store.views, direct))).map_values(
            view_ids(),
        ),
        affected_run_ids: store.runs.filter(run_covers(events)).map_values(run_ids()),
    }
}

pub open spec fn claim_kept(removed: Seq<Text>) -> spec_fn(ClaimModel) -> bool {
    |claim: ClaimModel| !listed(removed, claim.id)
}

/// A claim that no longer points to a removed one.
pub open spec fn claim_unlinked(removed: Seq<Text>) -> spec_fn(ClaimModel) -> ClaimModel {
    |claim: ClaimModel|
        if claim.supersedes_id matches Some(id) && listed(removed, id) {
            ClaimModel { supersedes_id: None, ..claim }
        } else {
            claim
        }
}

pub open spec fn link_kept(holders: Seq<Text>, sources: Seq<Text>) -> spec_fn(LinkModel) -> bool {
    |link: LinkModel| !listed(holders, link.holder_id) && !listed(sources, link.source_id)
}

/// The slots that stay: those that still have a claim, or lose none.
pub open spec fn slot_kept(claims: Seq<ClaimModel>, removed: Seq<Text>) -> spec_fn(
    SlotRowModel,
) -> bool {
    |slot: SlotRowModel|
        {
            ||| exists|i: int|
                0 <= i < claims.len() && !listed(removed, (#[trigger] claims[i]).id) && same_slot(
                    slot_of(claims[i]),
                    slot,
                )
            ||| !exists|i: int|
                0 <= i < claims.len() && listed(removed, (#[trigger] claims[i]).id) && same_slot(
                    slot_of(claims[i]),
                    slot,
                )
        }
}

pub open spec fn observation_kept(removed: Seq<Text>) -> spec_fn(ObservationModel) -> bool {
    |observation: ObservationModel| !listed(removed, observation.id)
}

pub open spec fn view_kept(removed: Seq<Text>) -> spec_fn(ViewRowModel) -> bool {
    |row: ViewRowModel| !listed(removed, row.view.id)
}

/// A run that loses evidence: it is marked, its notes are dropped, and it cannot be committed.
pub open spec fn run_purged(events: Seq<MemoryEventModel>, at: Text) -> spec_fn(
    RunRowModel,
) -> RunRowModel {
    |run: RunRowModel|
        if (run_covers(events))(run) {
            RunRowModel {
                status: if run.status is Pending {
                    RunStatus::Stale
                } else {
                    run.status
                },
                source_integrity: SourceIntegrity::PrivacyPurged,
                ambiguities: Seq::empty(),
                error: if run.status is Pending {
                    Some("source evidence privacy-purged"@)
                } else {
                    run.error
                },
                updated_at: at,
                ..run
            }
        } else {
            run
        }
}

pub open spec fn event_kept(removed: Seq<Text>) -> spec_fn(MemoryEventModel) -> bool {
    |event: MemoryEventModel| !listed(removed, event.id)
}

pub open spec fn index_kept(closure: PrivacyClosureModel) -> spec_fn(IndexRowModel) -> bool {
    |row: IndexRowModel|
        {
            &&& !(row.record_type == "claim"@ && listed(closure.claim_ids, row.record_id))
            &&& !(row.record_type == "observation"@ && listed(
                closure.observation_ids,
                row.record_id,
            ))
            &&& !(row.record_type == "event"@ && listed(
                closure.events.map_values(event_id()),
                row.record_id,
            ))
        }
}

/// The identifiers that no stored result may mention after a purge.
pub open spec fn purged_ids(closure: PrivacyClosureModel) -> Seq<Text> {
    closure.claim_ids + closure.observation_ids + closure.view_ids + closure.events.map_values(
        event_id(),
    )
}

pub open spec fn mentions_any(result: StoredResultModel, ids: Seq<Text>) -> bool {
    exists|i: int|
        0 <= i < ids.len() && <StoredResult as Mentions>::mentioned(result, #[trigger] ids[i])
}

/// A completed operation whose request and result are dropped where the result mentions something
/// purged. Its key stays in use.
pub open spec fn operation_scrubbed(ids: Seq<Text>) -> spec_fn(
    OperationRowModel,
) -> OperationRowModel {
    |row: OperationRowModel|
        if row.result matches Some(result) && mentions_any(result, ids) {
            OperationRowModel { request_hash: None, result: None, ..row }
        } else {
            row
        }
}

/// The memory after a purge.
pub open spec fn purged_store(
    store: MemoryStoreModel,
    closure: PrivacyClosureModel,
    at: Text,
) -> MemoryStoreModel {
    let event_ids = closure.events.map_values(event_id());
    MemoryStoreModel {
        scopes: store.scopes,
        streams: store.streams,
        events: store.events.filter(event_kept(event_ids)),
        runs: store.runs.map_values(run_purged(closure.events, at)),
        observations: store.observations.filter(observation_kept(closure.observation_ids)),
        observation_sources: store.observation_sources.filter(
            link_kept(closure.observation_ids, event_ids),
        ),
        claims: store.claims.filter(claim_kept(closure.claim_ids)).map_values(
            claim_unlinked(closure.claim_ids),
        ),
        claim_sources: store.claim_sources.filter(link_kept(closure.claim_ids, event_ids)),
        claim_slots: store.claim_slots.filter(slot_kept(store.claims, closure.claim_ids)),
        views: store.views.filter(view_kept(closure.view_ids)),
        view_sources: store.view_sources.filter(
            link_kept(closure.view_ids, closure.observation_ids),
        ),
        index: store.index.filter(index_kept(closure)),
        operations: store.operations.map_values(operation_scrubbed(purged_ids(closure))),
    }
}

pub open spec fn text_order() -> spec_fn(Text) -> KeyModel {
    |text: Text| KeyModel { major: 0, first: text, second: Seq::empty(), minor: 0 }
}

/// What purging a claim does and answers.
pub open spec fn purge_claim_step(
    store: MemoryStoreModel,
    claim_id: Text,
    key: Text,
    stamp: StampModel,
) -> (MemoryStoreModel, Result<MutationModel<ClaimPurgeModel>, ErrorModel>) {
    let hash = request_hash("claim.purge"@, json_quoted(claim_id));
    if let Some(error) = required("idempotency key"@, key) {
        (store, Err(error))
    } else {
        match prior(store, key, "claim.purge"@, hash) {
            PriorModel::Refused(error) => (store, Err(error)),
            PriorModel::Known(StoredResultModel::ClaimPurge(known)) => (
                store,
                Ok(MutationModel { data: known, replayed: true }),
            ),
            PriorModel::Known(_) => (store, Err(unreadable(key))),
            PriorModel::Fresh => if claim_at(store, claim_id) is None {
                (store, Err(no_claim(claim_id)))
            } else {
                let closure = privacy_closure(store, seq![claim_node(claim_id)]);
                let done = ClaimPurgeModel {
                    id: claim_id,
                    purged_command_events: closure.events.len() as usize,
                };
                (
                    saved(
                        purged_store(store, closure, stamp.at),
                        key,
                        "claim.purge"@,
                        hash,
                        StoredResultModel::ClaimPurge(done),
                    ),
                    Ok(MutationModel { data: done, replayed: false }),
                )
            },
        }
    }
}

/// What purging an event does and answers. The sequence numbers of other events stay as they are.
pub open spec fn purge_event_step(
    store: MemoryStoreModel,
    id: Text,
    key: Text,
    stamp: StampModel,
) -> (MemoryStoreModel, Result<MutationModel<EventPurgeModel>, ErrorModel>) {
    let hash = request_hash("event.purge"@, json_quoted(id));
    if let Some(error) = required("idempotency key"@, key) {
        (store, Err(error))
    } else {
        match prior(store, key, "event.purge"@, hash) {
            PriorModel::Refused(error) => (store, Err(error)),
            PriorModel::Known(StoredResultModel::EventPurge(known)) => (
                store,
                Ok(MutationModel { data: known, replayed: true }),
            ),
            PriorModel::Known(_) => (store, Err(unreadable(key))),
            PriorModel::Fresh => match event_at(store, id) {
                None => (store, Err(no_event(id))),
                Some(event) => {
                    let closure = privacy_closure(store, seq![event_node(id)]);
                    let done = EventPurgeModel {
                        id,
                        stream_id: event.stream_id,
                        sequence: event.sequence,
                        dependent_observations: closure.observation_ids.len() as usize,
                        dependent_claims: closure.claim_ids.len() as usize,
                        dependent_view_ids: ordered(closure.view_ids, text_order()),
                        affected_run_ids: ordered(closure.affected_run_ids, text_order()),
                        purged_command_events: closure.generated_event_ids.len() as usize,
                    };
                    (
                        saved(
                            purged_store(store, closure, stamp.at),
                            key,
                            "event.purge"@,
                            hash,
                            StoredResultModel::EventPurge(done),
                        ),
                        Ok(MutationModel { data: done, replayed: false }),
                    )
                },
            },
        }
    }
}

pub struct TextOrder {}

impl RowKey<String> for TextOrder {
    open spec fn key(&self) -> spec_fn(Text) -> KeyModel {
        text_order()
    }

    fn key_of(&self, row: &String) -> (key: OrderKey) {
        let second: String = String::new();
        proof {
            assert(second@ =~= Seq::empty());
        }
        OrderKey { major: 0, first: row.clone(), second, minor: 0 }
    }
}

fn is_generated_for(event: &MemoryEvent, claim_id: &str) -> (b: bool)
    ensures
        b == generated_for(event@, claim_id@),
{
    if event.kind != EventKind::MemoryCommand {
        return false;
    }
    let by_kernel: bool = match event.metadata.text_field("generatedBy") {
        Some(text) => same_text(text.as_str(), "omk"),
        None => false,
    };
    let owned: bool = match event.metadata.text_field("ownerClaimId") {
        Some(text) => same_text(text.as_str(), claim_id),
        None => false,
    };
    by_kernel && owned
}

struct EventReached<'a> {
    nodes: &'a Vec<Node>,
}

impl<'a> RowTest<MemoryEvent> for EventReached<'a> {
    closed spec fn accepts(&self) -> spec_fn(MemoryEventModel) -> bool {
        event_reached(self.nodes.deep_view().to_set())
    }

    fn test(&self, row: &MemoryEvent) -> (b: bool) {
        holds_node(self.nodes, &Node { claim: false, id: row.id.clone() })
    }
}

struct ClaimReached<'a> {
    nodes: &'a Vec<Node>,
}

impl<'a> RowTest<Claim> for ClaimReached<'a> {
    closed spec fn accepts(&self) -> spec_fn(ClaimModel) -> bool {
        claim_reached(self.nodes.deep_view().to_set())
    }

    fn test(&self, row: &Claim) -> (b: bool) {
        holds_node(self.nodes, &Node { claim: true, id: row.id.clone() })
    }
}

struct ViewReached<'a> {
    nodes: &'a Vec<Node>,
}

impl<'a> RowTest<ViewRow> for ViewReached<'a> {
    closed spec fn accepts(&self) -> spec_fn(ViewRowModel) -> bool {
        view_reached(self.nodes.deep_view().to_set())
    }

    fn test(&self, row: &ViewRow) -> (b: bool) {
        holds_node(self.nodes, &Node { claim: false, id: row.view.id.clone() })
    }
}

fn is_linked_to(links: &Vec<Link>, holder_id: &str, sources: &Vec<String>) -> (b: bool)
    ensures
        b == linked_to(links.deep_view(), holder_id@, sources.deep_view()),
{
    let ghost all = links.deep_view();
    let mut i: usize = 0;
    while i < links.len()
        invariant
            i <= links.len(),
            all == links.deep_view(),
            forall|k: int|
                0 <= k < i ==> !((#[trigger] all[k]).holder_id == holder_id@ && listed(
                    sources.deep_view(),
                    all[k].source_id,
                )),
        decreases links.len() - i,
    {
        proof {
            assert(all[i as int] == links[i as int]@);
        }
        if same_text(links[i].holder_id.as_str(), holder_id) && is_listed(
            sources,
            links[i].source_id.as_str(),
        ) {
            return true;
        }
        i = i + 1;
    }
    false
}

struct GeneratedAmong<'a> {
    links: &'a Vec<Link>,
    claims: &'a Vec<String>,
}

impl<'a> RowTest<MemoryEvent> for GeneratedAmong<'a> {
    closed spec fn accepts(&self) -> spec_fn(MemoryEventModel) -> bool {
        generated_among(self.links.deep_view(), self.claims.deep_view())
    }

    fn test(&self, row: &MemoryEvent) -> (b: bool) {
        let ghost all = self.links.deep_view();
        let mut i: usize = 0;
        while i < self.links.len()
            invariant
                i <= self.links.len(),
                all == self.links.deep_view(),
                forall|k: int|
                    0 <= k < i ==> !((#[trigger] all[k]).source_id == row@.id && listed(
                        self.claims.deep_view(),
                        all[k].holder_id,
                    ) && generated_for(row@, all[k].holder_id)),
            decreases self.links.len() - i,
        {
            proof {
                assert(all[i as int] == self.links[i as int]@);
            }
            if same_text(self.links[i].source_id.as_str(), row.id.as_str()) && is_listed(
                self.claims,
                self.links[i].holder_id.as_str(),
            ) && is_generated_for(row, self.links[i].holder_id.as_str()) {
                return true;
            }
            i = i + 1;
        }
        false
    }
}

struct RestsOn<'a> {
    links: &'a Vec<Link>,
    sources: &'a Vec<String>,
}

impl<'a> RowTest<Observation> for RestsOn<'a> {
    closed spec fn accepts(&self) -> spec_fn(ObservationModel) -> bool {
        rests_on(self.links.deep_view(), self.sources.deep_view())
    }

    fn test(&self, row: &Observation) -> (b: bool) {
        is_linked_to(self.links, row.id.as_str(), self.sources)
    }
}

struct ViewDirect<'a> {
    links: &'a Vec<Link>,
    events: &'a Vec<MemoryEvent>,
    observations: &'a Vec<String>,
}

impl<'a> RowTest<ViewRow> for ViewDirect<'a> {
    closed spec fn accepts(&self) -> spec_fn(ViewRowModel) -> bool {
        view_direct(
            self.links.deep_view(),
            self.events.deep_view(),
            self.observations.deep_view(),
        )
    }

    fn test(&self, row: &ViewRow) -> (b: bool) {
        let ghost all = self.events.deep_view();
        let mut i: usize = 0;
        while i < self.events.len()
            invariant
                i <= self.events.len(),
                all == self.events.deep_view(),
                forall|k: int|
                    0 <= k < i ==> !((#[trigger] all[k]).scope_id == row@.view.scope_id
                        && all[k].stream_id == row@.view.stream_id && row@.view.source_from_sequence
                        <= all[k].sequence <= row@.view.source_through_sequence),
            decreases self.events.len() - i,
        {
            let event: &MemoryEvent = &self.events[i];
            proof {
                assert(all[i as int] == event@);
            }
            if same_text(event.scope_id.as_str(), row.view.scope_id.as_str()) && same_text(
                event.stream_id.as_str(),
                row.view.stream_id.as_str(),
            ) && row.view.source_from_sequence <= event.sequence && event.sequence
                <= row.view.source_through_sequence {
                proof {
                    assert(view_covers(row@, all));
                }
                return true;
            }
            i = i + 1;
        }
        proof {
            assert(!view_covers(row@, all));
        }
        is_linked_to(self.links, row.view.id.as_str(), self.observations)
    }
}

fn does_run_cover(events: &Vec<MemoryEvent>, run: &RunRow) -> (b: bool)
    ensures
        b == (run_covers(events.deep_view()))(run@),
{
    let ghost all = events.deep_view();
    let mut i: usize = 0;
    while i < events.len()
        invariant
            i <= events.len(),
            all == events.deep_view(),
            forall|k: int|
                0 <= k < i ==> !((#[trigger] all[k]).stream_id == run@.stream_id
                    && run@.from_sequence <= all[k].sequence <= run@.to_sequence),
        decreases events.len() - i,
    {
        proof {
            assert(all[i as int] == events[i as int]@);
        }
        if same_text(events[i].stream_id.as_str(), run.stream_id.as_str()) && run.from_sequence
            <= events[i].sequence && events[i].sequence <= run.to_sequence {
            return true;
        }
        i = i + 1;
    }
    false
}

struct RunCovers<'a> {
    events: &'a Vec<MemoryEvent>,
}

impl<'a> RowTest<RunRow> for RunCovers<'a> {
    closed spec fn accepts(&self) -> spec_fn(RunRowModel) -> bool {
        run_covers(self.events.deep_view())
    }

    fn test(&self, row: &RunRow) -> (b: bool) {
        does_run_cover(self.events, row)
    }
}

fn ids_of_events(rows: &Vec<MemoryEvent>) -> (ids: Vec<String>)
    ensures
        ids.deep_view() == rows.deep_view().map_values(event_id()),
{
    let mut ids: Vec<String> = Vec::new();
    let mut i: usize = 0;
    while i < rows.len()
        invariant
            i <= rows.len(),
            ids.len() == i,
            forall|k: int| 0 <= k < i ==> (#[trigger] ids[k])@ == rows[k].id@,
        decreases rows.len() - i,
    {
        ids.push(rows[i].id.clone());
        i = i + 1;
    }
    proof {
        assert(ids.deep_view() =~= rows.deep_view().map_values(event_id()));
    }
    ids
}

fn ids_of_claims(rows: &Vec<Claim>) -> (ids: Vec<String>)
    ensures
        ids.deep_view() == rows.deep_view().map_values(claim_ids()),
{
    let mut ids: Vec<String> = Vec::new();
    let mut i: usize = 0;
    while i < rows.len()
        invariant
            i <= rows.len(),
            ids.len() == i,
            forall|k: int| 0 <= k < i ==> (#[trigger] ids[k])@ == rows[k].id@,
        decreases rows.len() - i,
    {
        ids.push(rows[i].id.clone());
        i = i + 1;
    }
    proof {
        assert(ids.deep_view() =~= rows.deep_view().map_values(claim_ids()));
    }
    ids
}

fn ids_of_observations(rows: &Vec<Observation>) -> (ids: Vec<String>)
    ensures
        ids.deep_view() == rows.deep_view().map_values(observation_ids()),
{
    let mut ids: Vec<String> = Vec::new();
    let mut i: usize = 0;
    while i < rows.len()
        invariant
            i <= rows.len(),
            ids.len() == i,
            forall|k: int| 0 <= k < i ==> (#[trigger] ids[k])@ == rows[k].id@,
        decreases rows.len() - i,
    {
        ids.push(rows[i].id.clone());
        i = i + 1;
    }
    proof {
        assert(ids.deep_view() =~= rows.deep_view().map_values(observation_ids()));
    }
    ids
}

fn ids_of_views(rows: &Vec<ViewRow>) -> (ids: Vec<String>)
    ensures
        ids.deep_view() == rows.deep_view().map_values(view_ids()),
{
    let mut ids: Vec<String> = Vec::new();
    let mut i: usize = 0;
    while i < rows.len()
        invariant
            i <= rows.len(),
            ids.len() == i,
            forall|k: int| 0 <= k < i ==> (#[trigger] ids[k])@ == rows[k].view.id@,
        decreases rows.len() - i,
    {
        ids.push(rows[i].view.id.clone());
        i = i + 1;
    }
    proof {
        assert(ids.deep_view() =~= rows.deep_view().map_values(view_ids()));
    }
    ids
}

fn ids_of_runs(rows: &Vec<RunRow>) -> (ids: Vec<String>)
    ensures
        ids.deep_view() == rows.deep_view().map_values(run_ids()),
{
    let mut ids: Vec<String> = Vec::new();
    let mut i: usize = 0;
    while i < rows.len()
        invariant
            i <= rows.len(),
            ids.len() == i,
            forall|k: int| 0 <= k < i ==> (#[trigger] ids[k])@ == rows[k].id@,
        decreases rows.len() - i,
    {
        ids.push(rows[i].id.clone());
        i = i + 1;
    }
    proof {
        assert(ids.deep_view() =~= rows.deep_view().map_values(run_ids()));
    }
    ids
}

struct ClaimKept<'a> {
    removed: &'a Vec<String>,
}

impl<'a> RowTest<Claim> for ClaimKept<'a> {
    closed spec fn accepts(&self) -> spec_fn(ClaimModel) -> bool {
        claim_kept(self.removed.deep_view())
    }

    fn test(&self, row: &Claim) -> (b: bool) {
        !is_listed(self.removed, row.id.as_str())
    }
}

struct ClaimUnlinked<'a> {
    removed: &'a Vec<String>,
}

impl<'a> RowChange<Claim> for ClaimUnlinked<'a> {
    closed spec fn change(&self) -> spec_fn(ClaimModel) -> ClaimModel {
        claim_unlinked(self.removed.deep_view())
    }

    fn apply(&self, row: &Claim) -> (changed: Claim) {
        let mut changed: Claim = row.duplicate();
        if let Some(id) = &row.supersedes_id {
            if is_listed(self.removed, id.as_str()) {
                changed.supersedes_id = None;
            }
        }
        changed
    }
}

struct LinkKept<'a> {
    holders: &'a Vec<String>,
    sources: &'a Vec<String>,
}

impl<'a> RowTest<Link> for LinkKept<'a> {
    closed spec fn accepts(&self) -> spec_fn(LinkModel) -> bool {
        link_kept(self.holders.deep_view(), self.sources.deep_view())
    }

    fn test(&self, row: &Link) -> (b: bool) {
        !is_listed(self.holders, row.holder_id.as_str()) && !is_listed(
            self.sources,
            row.source_id.as_str(),
        )
    }
}

struct SlotKept<'a> {
    claims: &'a Vec<Claim>,
    removed: &'a Vec<String>,
}

impl<'a> RowTest<SlotRow> for SlotKept<'a> {
    closed spec fn accepts(&self) -> spec_fn(SlotRowModel) -> bool {
        slot_kept(self.claims.deep_view(), self.removed.deep_view())
    }

    fn test(&self, row: &SlotRow) -> (b: bool) {
        let ghost all = self.claims.deep_view();
        let mut loses: bool = false;
        let mut i: usize = 0;
        while i < self.claims.len()
            invariant
                i <= self.claims.len(),
                all == self.claims.deep_view(),
                forall|k: int|
                    0 <= k < i ==> !(!listed(self.removed.deep_view(), (#[trigger] all[k]).id)
                        && same_slot(slot_of(all[k]), row@)),
                loses == exists|k: int|
                    0 <= k < i && listed(self.removed.deep_view(), (#[trigger] all[k]).id)
                        && same_slot(slot_of(all[k]), row@),
            decreases self.claims.len() - i,
        {
            proof {
                assert(all[i as int] == self.claims[i as int]@);
            }
            if in_slot(&self.claims[i], row) {
                if is_listed(self.removed, self.claims[i].id.as_str()) {
                    loses = true;
                } else {
                    return true;
                }
            }
            i = i + 1;
        }
        !loses
    }
}

struct ObservationKept<'a> {
    removed: &'a Vec<String>,
}

impl<'a> RowTest<Observation> for ObservationKept<'a> {
    closed spec fn accepts(&self) -> spec_fn(ObservationModel) -> bool {
        observation_kept(self.removed.deep_view())
    }

    fn test(&self, row: &Observation) -> (b: bool) {
        !is_listed(self.removed, row.id.as_str())
    }
}

struct ViewKept<'a> {
    removed: &'a Vec<String>,
}

impl<'a> RowTest<ViewRow> for ViewKept<'a> {
    closed spec fn accepts(&self) -> spec_fn(ViewRowModel) -> bool {
        view_kept(self.removed.deep_view())
    }

    fn test(&self, row: &ViewRow) -> (b: bool) {
        !is_listed(self.removed, row.view.id.as_str())
    }
}

struct RunPurged<'a> {
    events: &'a Vec<MemoryEvent>,
    at: &'a str,
}

impl<'a> RowChange<RunRow> for RunPurged<'a> {
    closed spec fn change(&self) -> spec_fn(RunRowModel) -> RunRowModel {
        run_purged(self.events.deep_view(), self.at@)
    }

    fn apply(&self, row: &RunRow) -> (changed: RunRow) {
        let mut changed: RunRow = row.duplicate();
        if does_run_cover(self.events, row) {
            if row.status == RunStatus::Pending {
                changed.status = RunStatus::Stale;
                changed.error = Some("source evidence privacy-purged".to_owned());
            }
            changed.source_integrity = SourceIntegrity::PrivacyPurged;
            changed.ambiguities = Vec::new();
            changed.updated_at = self.at.to_owned();
            proof {
                assert(changed@.ambiguities =~= Seq::<AmbiguityDraftModel>::empty());
            }
        }
        changed
    }
}

struct EventKept<'a> {
    removed: &'a Vec<String>,
}

impl<'a> RowTest<MemoryEvent> for EventKept<'a> {
    closed spec fn accepts(&self) -> spec_fn(MemoryEventModel) -> bool {
        event_kept(self.removed.deep_view())
    }

    fn test(&self, row: &MemoryEvent) -> (b: bool) {
        !is_listed(self.removed, row.id.as_str())
    }
}

struct IndexKept<'a> {
    closure: &'a PrivacyClosure,
    event_ids: &'a Vec<String>,
}

/// The rows of the index that stay, for given identifiers of removed events.
spec fn index_kept_with(closure: PrivacyClosureModel, event_ids: Seq<Text>) -> spec_fn(
    IndexRowModel,
) -> bool {
    |row: IndexRowModel|
        {
            &&& !(row.record_type == "claim"@ && listed(closure.claim_ids, row.record_id))
            &&& !(row.record_type == "observation"@ && listed(
                closure.observation_ids,
                row.record_id,
            ))
            &&& !(row.record_type == "event"@ && listed(event_ids, row.record_id))
        }
}

impl<'a> RowTest<IndexRow> for IndexKept<'a> {
    closed spec fn accepts(&self) -> spec_fn(IndexRowModel) -> bool {
        index_kept_with(self.closure@, self.event_ids.deep_view())
    }

    fn test(&self, row: &IndexRow) -> (b: bool) {
        let kind: &str = row.record_type.as_str();
        let id: &str = row.record_id.as_str();
        !(same_text(kind, "claim") && is_listed(&self.closure.claim_ids, id)) && !(same_text(
            kind,
            "observation",
        ) && is_listed(&self.closure.observation_ids, id)) && !(same_text(kind, "event")
            && is_listed(self.event_ids, id))
    }
}

struct Scrub<'a> {
    ids: &'a Vec<String>,
}

impl<'a> RowChange<OperationRow> for Scrub<'a> {
    closed spec fn change(&self) -> spec_fn(OperationRowModel) -> OperationRowModel {
        operation_scrubbed(self.ids.deep_view())
    }

    fn apply(&self, row: &OperationRow) -> (changed: OperationRow) {
        let mut changed: OperationRow = row.duplicate();
        if let Some(result) = &row.result {
            if does_mention_any(result, self.ids) {
                changed.request_hash = None;
                changed.result = None;
            }
        }
        changed
    }
}

fn does_mention_any(result: &StoredResult, ids: &Vec<String>) -> (b: bool)
    ensures
        b == mentions_any(result@, ids.deep_view()),
{
    let ghost all = ids.deep_view();
    let mut i: usize = 0;
    while i < ids.len()
        invariant
            i <= ids.len(),
            all == ids.deep_view(),
            forall|k: int|
                0 <= k < i ==> !<StoredResult as Mentions>::mentioned(result@, #[trigger] all[k]),
        decreases ids.len() - i,
    {
        proof {
            assert(all[i as int] == ids[i as int]@);
        }
        if result.mentions(ids[i].as_str()) {
            return true;
        }
        i = i + 1;
    }
    false
}

impl MemoryStore {
    fn purge_graph(&self) -> (edges: Vec<Edge>)
        ensures
            edges.deep_view() == purge_edges(self@, self@.claim_sources),
    {
        let ghost links = self@.claim_sources;
        let mut edges: Vec<Edge> = Vec::new();
        let mut i: usize = 0;
        proof {
            assert(edges.deep_view() =~= purge_edges(self@, links.take(0)));
        }
        while i < self.claim_sources.len()
            invariant
                i <= self.claim_sources.len(),
                links == self@.claim_sources,
                edges.deep_view() == purge_edges(self@, links.take(i as int)),
            decreases self.claim_sources.len() - i,
        {
            let link: &Link = &self.claim_sources[i];
            proof {
                let next = links.take(i + 1);
                assert(next.drop_last() =~= links.take(i as int));
                assert(next.last() == link@);
            }
            if let Some(at) = find_row(&self.events, &EventNamed { id: link.source_id.as_str() }) {
                let edge = Edge {
                    from: Node { claim: false, id: link.source_id.clone() },
                    to: Node { claim: true, id: link.holder_id.clone() },
                };
                push_row(&mut edges, edge);
                if any_row(&self.claims, &ClaimNamed { id: link.holder_id.as_str() })
                    && is_generated_for(&self.events[at], link.holder_id.as_str()) {
                    let edge = Edge {
                        from: Node { claim: true, id: link.holder_id.clone() },
                        to: Node { claim: false, id: link.source_id.clone() },
                    };
                    push_row(&mut edges, edge);
                }
            }
            i = i + 1;
        }
        proof {
            assert(links.take(links.len() as int) =~= links);
        }
        edges
    }

    fn view_graph(&self) -> (edges: Vec<Edge>)
        ensures
            edges.deep_view() == view_edges(self@.views),
    {
        let ghost views = self@.views;
        let mut edges: Vec<Edge> = Vec::new();
        let mut i: usize = 0;
        proof {
            assert(edges.deep_view() =~= view_edges(views.take(0)));
        }
        while i < self.views.len()
            invariant
                i <= self.views.len(),
                views == self@.views,
                edges.deep_view() == view_edges(views.take(i as int)),
            decreases self.views.len() - i,
        {
            proof {
                let next = views.take(i + 1);
                assert(next.drop_last() =~= views.take(i as int));
                assert(next.last() == self.views[i as int]@);
            }
            if let Some(previous) = &self.views[i].view.previous_view_id {
                let edge = Edge {
                    from: Node { claim: false, id: previous.clone() },
                    to: Node { claim: false, id: self.views[i].view.id.clone() },
                };
                push_row(&mut edges, edge);
            }
            i = i + 1;
        }
        proof {
            assert(views.take(views.len() as int) =~= views);
        }
        edges
    }

    /// The views that were built on some others, and these themselves.
    fn view_successors(&self, direct: &Vec<String>) -> (nodes: Vec<Node>)
        ensures
            nodes.deep_view().to_set() == view_reach(self@.views, direct.deep_view()),
    {
        let mut roots: Vec<Node> = Vec::new();
        let mut i: usize = 0;
        while i < direct.len()
            invariant
                i <= direct.len(),
                roots.len() == i,
                forall|k: int| 0 <= k < i ==> (#[trigger] roots[k])@ == event_node(direct[k]@),
            decreases direct.len() - i,
        {
            roots.push(Node { claim: false, id: direct[i].clone() });
            i = i + 1;
        }
        proof {
            assert(roots.deep_view() =~= direct.deep_view().map_values(view_node()));
        }
        let nodes: Vec<Node> = reachable(&self.view_graph(), &roots);
        proof {
            let found = nodes.deep_view().to_set();
            let wanted = view_reach(self@.views, direct.deep_view());
            assert forall|node: NodeModel| found.contains(node) <==> wanted.contains(node) by {
                assert(nodes.deep_view().contains(node) <==> wanted.contains(node));
            }
            assert(found =~= wanted);
        }
        nodes
    }

    /// Finds what a purge of an event or a claim concerns.
    pub fn collect_privacy_closure(&self, root: Node) -> (closure: PrivacyClosure)
        ensures
            closure@ == privacy_closure(self@, seq![root@]),
    {
        let mut roots: Vec<Node> = Vec::new();
        let ghost start = root@;
        roots.push(root);
        proof {
            assert(roots.deep_view() =~= seq![start]);
        }
        let nodes: Vec<Node> = reachable(&self.purge_graph(), &roots);
        proof {
            let found = nodes.deep_view().to_set();
            let wanted = purge_reach(self@, seq![start]);
            assert forall|node: NodeModel| found.contains(node) <==> wanted.contains(node) by {
                assert(nodes.deep_view().contains(node) <==> wanted.contains(node));
            }
            assert(found =~= wanted);
        }
        let events: Vec<MemoryEvent> = select_rows(&self.events, &EventReached { nodes: &nodes });
        let event_ids: Vec<String> = ids_of_events(&events);
        let claim_ids: Vec<String> = ids_of_claims(
            &select_rows(&self.claims, &ClaimReached { nodes: &nodes }),
        );
        let generated_event_ids: Vec<String> = ids_of_events(
            &select_rows(
                &self.events,
                &GeneratedAmong { links: &self.claim_sources, claims: &claim_ids },
            ),
        );
        let observation_ids: Vec<String> = ids_of_observations(
            &select_rows(
                &self.observations,
                &RestsOn { links: &self.observation_sources, sources: &event_ids },
            ),
        );
        let direct_view_ids: Vec<String> = ids_of_views(
            &select_rows(
                &self.views,
                &ViewDirect {
                    links: &self.view_sources,
                    events: &events,
                    observations: &observation_ids,
                },
            ),
        );
        let successors: Vec<Node> = self.view_successors(&direct_view_ids);
        let view_ids: Vec<String> = ids_of_views(
            &select_rows(&self.views, &ViewReached { nodes: &successors }),
        );
        let affected_run_ids: Vec<String> = ids_of_runs(
            &select_rows(&self.runs, &RunCovers { events: &events }),
        );
        PrivacyClosure {
            events,
            generated_event_ids,
            observation_ids,
            claim_ids,
            direct_view_ids,
            view_ids,
            affected_run_ids,
        }
    }

    /// Removes what a purge concerns.
    pub fn apply_privacy_closure(&mut self, closure: &PrivacyClosure, at: &str)
        ensures
            final(self)@ == purged_store(old(self)@, closure@, at@),
    {
        let event_ids: Vec<String> = ids_of_events(&closure.events);
        let mut ids: Vec<String> = closure.claim_ids.duplicate();
        append_rows(&mut ids, closure.observation_ids.duplicate());
        append_rows(&mut ids, closure.view_ids.duplicate());
        append_rows(&mut ids, event_ids.duplicate());
        change_rows(&mut self.operations, &Scrub { ids: &ids });
        keep_rows(
            &mut self.claim_slots,
            &SlotKept { claims: &self.claims, removed: &closure.claim_ids },
        );
        keep_rows(&mut self.claims, &ClaimKept { removed: &closure.claim_ids });
        change_rows(&mut self.claims, &ClaimUnlinked { removed: &closure.claim_ids });
        keep_rows(
            &mut self.claim_sources,
            &LinkKept { holders: &closure.claim_ids, sources: &event_ids },
        );
        keep_rows(&mut self.observations, &ObservationKept { removed: &closure.observation_ids });
        keep_rows(
            &mut self.observation_sources,
            &LinkKept { holders: &closure.observation_ids, sources: &event_ids },
        );
        keep_rows(&mut self.views, &ViewKept { removed: &closure.view_ids });
        keep_rows(
            &mut self.view_sources,
            &LinkKept { holders: &closure.view_ids, sources: &closure.observation_ids },
        );
        change_rows(&mut self.runs, &RunPurged { events: &closure.events, at });
        keep_rows(&mut self.events, &EventKept { removed: &event_ids });
        keep_rows(&mut self.index, &IndexKept { closure, event_ids: &event_ids });
        proof {
            assert(ids.deep_view() == purged_ids(closure@));
            assert(index_kept_with(closure@, event_ids.deep_view()) =~= index_kept(closure@));
        }
    }

    pub fn purge_claim(&mut self, claim_id: &str, idempotency_key: &str) -> (result: Result<
        MutationResult<ClaimPurge>,
        KernelError,
    >)
        ensures
            exists|stamp: StampModel|
                #[trigger] purge_claim_step(old(self)@, claim_id@, idempotency_key@, stamp) == (
                    final(self)@,
                    seen(result),
                ),
    {
        let stamp: Stamp = draw_stamp(0);
        self.purge_claim_with(claim_id, idempotency_key, &stamp)
    }

    /// Purges a claim at a given time.
    pub fn purge_claim_with(&mut self, claim_id: &str, idempotency_key: &str, stamp: &Stamp) -> (result:
        Result<MutationResult<ClaimPurge>, KernelError>)
        ensures
            purge_claim_step(old(self)@, claim_id@, idempotency_key@, stamp@) == (
                final(self)@,
                seen(result),
            ),
    {
        if let Err(error) = validate_nonempty("idempotency key", idempotency_key) {
            return Err(error);
        }
        let hash: String = operation_request_hash("claim.purge", quote(claim_id).as_str());
        match self.prior_result(idempotency_key, "claim.purge", hash.as_str()) {
            Prior::Refused(error) => return Err(error),
            Prior::Known(StoredResult::ClaimPurge(known)) => {
                return Ok(MutationResult::replayed(known));
            },
            Prior::Known(_) => return Err(unreadable_error(idempotency_key)),
            Prior::Fresh => {},
        }
        if let Err(error) = self.query_claim(claim_id) {
            return Err(error);
        }
        let closure: PrivacyClosure = self.collect_privacy_closure(
            Node { claim: true, id: claim_id.to_owned() },
        );
        self.apply_privacy_closure(&closure, stamp.at.as_str());
        let done = ClaimPurge {
            id: claim_id.to_owned(),
            purged_command_events: closure.events.len(),
        };
        self.save_operation(
            idempotency_key,
            "claim.purge",
            hash.as_str(),
            StoredResult::ClaimPurge(done.duplicate()),
        );
        Ok(MutationResult::created(done))
    }

    pub fn purge_event(&mut self, event_id: &str, idempotency_key: &str) -> (result: Result<
        MutationResult<EventPurge>,
        KernelError,
    >)
        ensures
            exists|stamp: StampModel|
                #[trigger] purge_event_step(old(self)@, event_id@, idempotency_key@, stamp) == (
                    final(self)@,
                    seen(result),
                ),
    {
        let stamp: Stamp = draw_stamp(0);
        self.purge_event_with(event_id, idempotency_key, &stamp)
    }

    /// Purges an event at a given time.
    pub fn purge_event_with(&mut self, event_id: &str, idempotency_key: &str, stamp: &Stamp) -> (result:
        Result<MutationResult<EventPurge>, KernelError>)
        ensures
            purge_event_step(old(self)@, event_id@, idempotency_key@, stamp@) == (
                final(self)@,
                seen(result),
            ),
    {
        if let Err(error) = validate_nonempty("idempotency key", idempotency_key) {
            return Err(error);
        }
        let hash: String = operation_request_hash("event.purge", quote(event_id).as_str());
        match self.prior_result(idempotency_key, "event.purge", hash.as_str()) {
            Prior::Refused(error) => return Err(error),
            Prior::Known(StoredResult::EventPurge(known)) => {
                return Ok(MutationResult::replayed(known));
            },
            Prior::Known(_) => return Err(unreadable_error(idempotency_key)),
            Prior::Fresh => {},
        }
        let event: MemoryEvent = match self.get_event(event_id) {
            Ok(event) => event,
            Err(error) => return Err(error),
        };
        let closure: PrivacyClosure = self.collect_privacy_closure(
            Node { claim: false, id: event_id.to_owned() },
        );
        self.apply_privacy_closure(&closure, stamp.at.as_str());
        let done = EventPurge {
            id: event_id.to_owned(),
            stream_id: event.stream_id,
            sequence: event.sequence,
            dependent_observations: closure.observation_ids.len(),
            dependent_claims: closure.claim_ids.len(),
            dependent_view_ids: sort_rows(&closure.view_ids, &TextOrder {  }),
            affected_run_ids: sort_rows(&closure.affected_run_ids, &TextOrder {  }),
            purged_command_events: closure.generated_event_ids.len(),
        };
        self.save_operation(
            idempotency_key,
            "event.purge",
            hash.as_str(),
            StoredResult::EventPurge(done.duplicate()),
        );
        Ok(MutationResult::created(done))
    }
}

} // verus!
