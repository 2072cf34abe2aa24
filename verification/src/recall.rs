//! Reading evidence back: what observations and claims rest on, and full-text search.

use vstd::prelude::*;

use crate::claim_table::{claim_at, no_claim};
use crate::error::{
    first_error, first_error_at, first_error_none, invalid, seen, ErrorModel, KernelError,
    KernelErrorKind,
};
use crate::event::{event_at, event_order, no_event, shown, EventOrder};
use crate::model::{
    Claim, ClaimExplanation, ClaimExplanationModel, MemoryEvent, MemoryEventModel, Observation,
    ObservationExplanation, ObservationExplanationModel, ReadAccess, ReadAccessModel, SearchHit,
    SearchHitModel,
};
use crate::operation::{required, validate_nonempty};
use crate::order::{ordered, sort_rows};
use crate::row::{Link, LinkModel, MemoryStore, MemoryStoreModel};
use crate::scope::{read_refusal, readable_from, visible_scopes};
use crate::table::{append_rows, filter_agrees, first_row, select_rows, Duplicate, RowTest};
use crate::text::{
    concat2, is_listed, listed, literal_fts_query, literal_phrase, same_text, Text,
};
use crate::view::{no_observation, no_observation_error, observation_at, ObservationNamed};

verus! {

/// The events that a record is linked to.
pub open spec fn evidence_of(links: Seq<LinkModel>, holder_id: Text) -> spec_fn(
    MemoryEventModel,
) -> bool {
    |event: MemoryEventModel| links.contains(LinkModel { holder_id, source_id: event.id })
}

/// The evidence of a record, in order.
pub open spec fn evidence(
    store: MemoryStoreModel,
    links: Seq<LinkModel>,
    holder_id: Text,
) -> Seq<MemoryEventModel> {
    ordered(store.events.filter(evidence_of(links, holder_id)), event_order())
}

pub open spec fn event_read_refusal(store: MemoryStoreModel, access: ReadAccessModel) -> spec_fn(
    MemoryEventModel,
) -> Option<ErrorModel> {
    |event: MemoryEventModel| read_refusal(store, access, event.scope_id)
}

pub open spec fn shown_event(access: ReadAccessModel) -> spec_fn(MemoryEventModel) -> MemoryEventModel {
    |event: MemoryEventModel| shown(access, event)
}

/// Events as they are shown with a given access, which has to cover all of them.
pub open spec fn shown_all(
    store: MemoryStoreModel,
    access: ReadAccessModel,
    events: Seq<MemoryEventModel>,
) -> Result<Seq<MemoryEventModel>, ErrorModel> {
    match first_error(events, event_read_refusal(store, access)) {
        Some(error) => Err(error),
        None => Ok(events.map_values(shown_event(access))),
    }
}

/// The evidence of an observation, as it is shown with a given access.
pub open spec fn recalled(
    store: MemoryStoreModel,
    access: ReadAccessModel,
    observation_id: Text,
) -> Result<Seq<MemoryEventModel>, ErrorModel> {
    match observation_at(store, observation_id) {
        None => Err(no_observation(observation_id)),
        Some(observation) => match read_refusal(store, access, observation.scope_id) {
            Some(error) => Err(error),
            None => shown_all(
                store,
                access,
                evidence(store, store.observation_sources, observation_id),
            ),
        },
    }
}

/// A claim with its evidence, as it is shown with a given access.
pub open spec fn explained(
    store: MemoryStoreModel,
    access: ReadAccessModel,
    claim_id: Text,
) -> Result<ClaimExplanationModel, ErrorModel> {
    match claim_at(store, claim_id) {
        None => Err(no_claim(claim_id)),
        Some(claim) => match read_refusal(store, access, claim.scope_id) {
            Some(error) => Err(error),
            None => match shown_all(
                store,
                access,
                evidence(store, store.claim_sources, claim_id),
            ) {
                Err(error) => Err(error),
                Ok(source_events) => Ok(ClaimExplanationModel { claim, source_events }),
            },
        },
    }
}

/// A full-text search to be run: the match expression, the scopes that may be searched, and how
/// many hits are wanted.
#[derive(Clone, Debug, PartialEq, Eq)]
pub struct SearchRequest {
    pub query: String,
    pub scope_ids: Vec<String>,
    pub limit: usize,
}

/// The error for a search that cannot be run, if it cannot.
pub open spec fn search_refusal(
    store: MemoryStoreModel,
    scope_id: Text,
    query: Text,
    limit: int,
) -> Option<ErrorModel> {
    if let Some(error) = required("search query"@, query) {
        Some(error)
    } else if limit <= 0 || limit > 1000 {
        Some(invalid("search limit must be from 1 to 1000"@))
    } else {
        match visible_scopes(store, scope_id) {
            Err(error) => Some(error),
            Ok(_) => None,
        }
    }
}

/// Whether a search request is what was asked for.
pub open spec fn search_planned(
    store: MemoryStoreModel,
    scope_id: Text,
    expression: Text,
    limit: int,
    request: SearchRequest,
) -> bool {
    &&& request.query@ == expression
    &&& request.limit == limit
    &&& forall|id: Text|
        #[trigger] listed(request.scope_ids.deep_view(), id) <==> readable_from(
            store,
            scope_id,
            id,
        )
}

pub open spec fn hit_in(scope_ids: Seq<Text>) -> spec_fn(SearchHitModel) -> bool {
    |hit: SearchHitModel| listed(scope_ids, hit.scope_id)
}

pub open spec fn hit_readable(store: MemoryStoreModel, anchor: Text) -> spec_fn(
    SearchHitModel,
) -> bool {
    |hit: SearchHitModel| readable_from(store, anchor, hit.scope_id)
}

/// The first rows, up to a number of them.
pub open spec fn up_to<V>(rows: Seq<V>, limit: int) -> Seq<V> {
    if rows.len() <= limit {
        rows
    } else {
        rows.take(limit)
    }
}

/// The ranked hits that a search answers with: those of the scopes that may be searched, up to the
/// limit.
pub open spec fn hits_of(ranked: Seq<SearchHitModel>, scope_ids: Seq<Text>, limit: int) -> Seq<
    SearchHitModel,
> {
    up_to(ranked.filter(hit_in(scope_ids)), limit)
}

/// The evidence that a hit leads to, as an agent is shown it.
pub open spec fn hit_evidence(
    store: MemoryStoreModel,
    access: ReadAccessModel,
    hit: SearchHitModel,
) -> Result<Seq<MemoryEventModel>, ErrorModel> {
    if hit.record_type == "event"@ {
        match event_at(store, hit.id) {
            None => Err(no_event(hit.id)),
            Some(event) => match read_refusal(store, access, event.scope_id) {
                Some(error) => Err(error),
                None => Ok(seq![shown(access, event)]),
            },
        }
    } else if hit.record_type == "observation"@ {
        recalled(store, access, hit.id)
    } else if hit.record_type == "claim"@ {
        match explained(store, access, hit.id) {
            Err(error) => Err(error),
            Ok(explanation) => Ok(explanation.source_events),
        }
    } else {
        Err(invalid("unsupported full-text record type "@ + hit.record_type))
    }
}

/// The evidence that some hits lead to, one list behind the other.
pub open spec fn all_evidence(
    store: MemoryStoreModel,
    access: ReadAccessModel,
    hits: Seq<SearchHitModel>,
) -> Result<Seq<MemoryEventModel>, ErrorModel>
    decreases hits.len(),
{
    if hits.len() == 0 {
        Ok(Seq::empty())
    } else {
        match all_evidence(store, access, hits.drop_last()) {
            Err(error) => Err(error),
            Ok(before) => match hit_evidence(store, access, hits.last()) {
                Err(error) => Err(error),
                Ok(more) => Ok(before + more),
            },
        }
    }
}

pub struct EvidenceOf<'a> {
    pub links: &'a Vec<Link>,
    pub holder_id: &'a str,
}

impl<'a> RowTest<MemoryEvent> for EvidenceOf<'a> {
    open spec fn accepts(&self) -> spec_fn(MemoryEventModel) -> bool {
        evidence_of(self.links.deep_view(), self.holder_id@)
    }

    fn test(&self, row: &MemoryEvent) -> (b: bool) {
        let ghost link = LinkModel { holder_id: self.holder_id@, source_id: row@.id };
        let ghost all = self.links.deep_view();
        let mut i: usize = 0;
        while i < self.links.len()
            invariant
                i <= self.links.len(),
                all == self.links.deep_view(),
                link == (LinkModel { holder_id: self.holder_id@, source_id: row@.id }),
                forall|k: int| 0 <= k < i ==> #[trigger] all[k] != link,
            decreases self.links.len() - i,
        {
            proof {
                assert(all[i as int] == self.links[i as int]@);
            }
            if same_text(self.links[i].holder_id.as_str(), self.holder_id) && same_text(
                self.links[i].source_id.as_str(),
                row.id.as_str(),
            ) {
                proof {
                    assert(all[i as int] == link);
                }
                return true;
            }
            i = i + 1;
        }
        false
    }
}

pub struct HitIn<'a> {
    pub scope_ids: &'a Vec<String>,
}

impl<'a> RowTest<SearchHit> for HitIn<'a> {
    open spec fn accepts(&self) -> spec_fn(SearchHitModel) -> bool {
        hit_in(self.scope_ids.deep_view())
    }

    fn test(&self, row: &SearchHit) -> (b: bool) {
        is_listed(self.scope_ids, row.scope_id.as_str())
    }
}

impl SearchRequest {
    /// Picks the hits to answer with out of all matches, best first.
    pub fn select(&self, ranked: &Vec<SearchHit>) -> (hits: Vec<SearchHit>)
        ensures
            hits.deep_view() == hits_of(
                ranked.deep_view(),
                self.scope_ids.deep_view(),
                self.limit as int,
            ),
    {
        let mut hits: Vec<SearchHit> = select_rows(ranked, &HitIn { scope_ids: &self.scope_ids });
        let ghost all = hits.deep_view();
        if hits.len() > self.limit {
            hits.truncate(self.limit);
            proof {
                assert(hits.deep_view() =~= all.take(self.limit as int));
            }
        }
        hits
    }
}

proof fn evidence_stops(
    store: MemoryStoreModel,
    access: ReadAccessModel,
    hits: Seq<SearchHitModel>,
    n: int,
)
    requires
        0 <= n <= hits.len(),
        all_evidence(store, access, hits.take(n)) is Err,
    ensures
        all_evidence(store, access, hits) == all_evidence(store, access, hits.take(n)),
    decreases hits.len(),
{
    if n == hits.len() {
        assert(hits.take(n) =~= hits);
    } else {
        let front = hits.drop_last();
        assert(front.take(n) =~= hits.take(n));
        evidence_stops(store, access, front, n);
    }
}

impl MemoryStore {
    /// Events as they are shown with a given access, which has to cover all of them.
    fn show_events(&self, access: &ReadAccess, events: Vec<MemoryEvent>) -> (shown: Result<
        Vec<MemoryEvent>,
        KernelError,
    >)
        ensures
            seen(shown) == shown_all(self@, access@, events.deep_view()),
    {
        let ghost all = events.deep_view();
        let ghost check = event_read_refusal(self@, access@);
        let mut shown: Vec<MemoryEvent> = Vec::new();
        let mut i: usize = 0;
        while i < events.len()
            invariant
                i <= events.len(),
                all == events.deep_view(),
                check == event_read_refusal(self@, access@),
                shown.len() == i,
                forall|k: int| 0 <= k < i ==> check(#[trigger] all[k]) is None,
                forall|k: int|
                    0 <= k < i ==> (#[trigger] shown[k])@ == (shown_event(access@))(all[k]),
            decreases events.len() - i,
        {
            proof {
                assert(all[i as int] == events[i as int]@);
            }
            match self.apply_read_access(access, events[i].duplicate()) {
                Err(error) => {
                    proof {
                        assert(check(all[i as int]) == Some(error@));
                        first_error_at(all, check, i as int);
                    }
                    return Err(error);
                },
                Ok(event) => {
                    shown.push(event);
                },
            }
            i = i + 1;
        }
        proof {
            first_error_none(all, check);
            assert(shown.deep_view() =~= all.map_values(shown_event(access@)));
        }
        Ok(shown)
    }

    pub fn recall_by_observation(&self, access: &ReadAccess, observation_id: &str) -> (events: Result<
        Vec<MemoryEvent>,
        KernelError,
    >)
        ensures
            seen(events) == recalled(self@, access@, observation_id@),
    {
        let observation: Observation = match first_row(
            &self.observations,
            &ObservationNamed { id: observation_id },
        ) {
            Some(observation) => observation,
            None => return Err(no_observation_error(observation_id)),
        };
        if let Err(error) = self.ensure_read_scope(access, observation.scope_id.as_str()) {
            return Err(error);
        }
        let events: Vec<MemoryEvent> = select_rows(
            &self.events,
            &EvidenceOf { links: &self.observation_sources, holder_id: observation_id },
        );
        self.show_events(access, sort_rows(&events, &EventOrder {  }))
    }

    pub fn explain_observation(&self, access: &ReadAccess, observation_id: &str) -> (result: Result<
        ObservationExplanation,
        KernelError,
    >)
        ensures
            seen(result) == match recalled(self@, access@, observation_id@) {
                Err(error) => Err(error),
                Ok(source_events) => Ok(
                    ObservationExplanationModel {
                        observation: observation_at(self@, observation_id@).unwrap(),
                        source_events,
                    },
                ),
            },
    {
        let source_events: Vec<MemoryEvent> = match self.recall_by_observation(
            access,
            observation_id,
        ) {
            Ok(events) => events,
            Err(error) => return Err(error),
        };
        match first_row(&self.observations, &ObservationNamed { id: observation_id }) {
            Some(observation) => Ok(ObservationExplanation { observation, source_events }),
            None => Err(no_observation_error(observation_id)),
        }
    }

    pub fn explain_claim(&self, access: &ReadAccess, claim_id: &str) -> (result: Result<
        ClaimExplanation,
        KernelError,
    >)
        ensures
            seen(result) == explained(self@, access@, claim_id@),
    {
        let claim: Claim = match self.query_claim(claim_id) {
            Ok(claim) => claim,
            Err(error) => return Err(error),
        };
        if let Err(error) = self.ensure_read_scope(access, claim.scope_id.as_str()) {
            return Err(error);
        }
        let events: Vec<MemoryEvent> = select_rows(
            &self.events,
            &EvidenceOf { links: &self.claim_sources, holder_id: claim_id },
        );
        match self.show_events(access, sort_rows(&events, &EventOrder {  })) {
            Err(error) => Err(error),
            Ok(source_events) => Ok(ClaimExplanation { claim, source_events }),
        }
    }

    /// Plans a search for a literal phrase.
    pub fn search_full_text(&self, scope_id: &str, query: &str, limit: usize) -> (result: Result<
        SearchRequest,
        KernelError,
    >)
        ensures
            match result {
                Ok(request) => search_refusal(self@, scope_id@, query@, limit as int) is None
                    && search_planned(
                    self@,
                    scope_id@,
                    literal_phrase(query@),
                    limit as int,
                    request,
                ),
                Err(error) => search_refusal(self@, scope_id@, query@, limit as int) == Some(error@),
            },
    {
        self.search_full_text_mode(scope_id, query, limit, false)
    }

    /// Plans a search with a match expression of the caller's.
    pub fn search_full_text_advanced(&self, scope_id: &str, query: &str, limit: usize) -> (result: Result<
        SearchRequest,
        KernelError,
    >)
        ensures
            match result {
                Ok(request) => search_refusal(self@, scope_id@, query@, limit as int) is None
                    && search_planned(self@, scope_id@, query@, limit as int, request),
                Err(error) => search_refusal(self@, scope_id@, query@, limit as int) == Some(error@),
            },
    {
        self.search_full_text_mode(scope_id, query, limit, true)
    }

    fn search_full_text_mode(&self, scope_id: &str, query: &str, limit: usize, advanced_fts: bool) -> (result:
        Result<SearchRequest, KernelError>)
        ensures
            match result {
                Ok(request) => search_refusal(self@, scope_id@, query@, limit as int) is None
                    && search_planned(
                    self@,
                    scope_id@,
                    if advanced_fts {
                        query@
                    } else {
                        literal_phrase(query@)
                    },
                    limit as int,
                    request,
                ),
                Err(error) => search_refusal(self@, scope_id@, query@, limit as int) == Some(error@),
            },
    {
        if let Err(error) = validate_nonempty("search query", query) {
            return Err(error);
        }
        if limit == 0 || limit > 1000 {
            return Err(KernelError::invalid_input("search limit must be from 1 to 1000"));
        }
        let scope_ids: Vec<String> = match self.retrieval_scope_ids(scope_id) {
            Ok(scope_ids) => scope_ids,
            Err(error) => return Err(error),
        };
        let query: String = if advanced_fts {
            query.to_owned()
        } else {
            literal_fts_query(query)
        };
        Ok(SearchRequest { query, scope_ids, limit })
    }

    fn evidence_of_hit(&self, access: &ReadAccess, hit: &SearchHit) -> (events: Result<
        Vec<MemoryEvent>,
        KernelError,
    >)
        ensures
            seen(events) == hit_evidence(self@, access@, hit@),
    {
        let kind: &str = hit.record_type.as_str();
        if same_text(kind, "event") {
            match self.read_event(access, hit.id.as_str()) {
                Err(error) => Err(error),
                Ok(event) => {
                    let ghost only = event@;
                    let mut events: Vec<MemoryEvent> = Vec::new();
                    events.push(event);
                    proof {
                        assert(events.deep_view() =~= seq![only]);
                    }
                    Ok(events)
                },
            }
        } else if same_text(kind, "observation") {
            self.recall_by_observation(access, hit.id.as_str())
        } else if same_text(kind, "claim") {
            match self.explain_claim(access, hit.id.as_str()) {
                Err(error) => Err(error),
                Ok(explanation) => Ok(explanation.source_events),
            }
        } else {
            Err(
                KernelError::of(
                    KernelErrorKind::InvalidInput,
                    concat2("unsupported full-text record type ", kind),
                ),
            )
        }
    }

    /// The evidence that some hits lead to.
    pub(crate) fn collect_evidence(&self, access: &ReadAccess, hits: &Vec<SearchHit>) -> (events: Result<
        Vec<MemoryEvent>,
        KernelError,
    >)
        ensures
            seen(events) == all_evidence(self@, access@, hits.deep_view()),
    {
        let ghost all = hits.deep_view();
        let mut events: Vec<MemoryEvent> = Vec::new();
        let mut i: usize = 0;
        proof {
            assert(all.take(0) =~= Seq::empty());
            assert(events.deep_view() =~= Seq::empty());
        }
        while i < hits.len()
            invariant
                i <= hits.len(),
                all == hits.deep_view(),
                all_evidence(self@, access@, all.take(i as int)) == Ok::<
                    Seq<MemoryEventModel>,
                    ErrorModel,
                >(events.deep_view()),
            decreases hits.len() - i,
        {
            proof {
                assert(all.take(i + 1).drop_last() =~= all.take(i as int));
                assert(all.take(i + 1).last() == hits[i as int]@);
            }
            match self.evidence_of_hit(access, &hits[i]) {
                Err(error) => {
                    proof {
                        evidence_stops(self@, access@, all, i + 1);
                    }
                    return Err(error);
                },
                Ok(more) => {
                    append_rows(&mut events, more);
                },
            }
            i = i + 1;
        }
        proof {
            assert(all.take(all.len() as int) =~= all);
        }
        Ok(events)
    }

    /// The hits that can be read from a scope, up to a number of them.
    pub(crate) fn readable_hits(&self, anchor: &str, ranked: &Vec<SearchHit>, limit: usize) -> (hits: Result<
        Vec<SearchHit>,
        KernelError,
    >)
        ensures
            seen(hits) == match visible_scopes(self@, anchor@) {
                Err(error) => Err(error),
                Ok(_) => Ok(
                    up_to(ranked.deep_view().filter(hit_readable(self@, anchor@)), limit as int),
                ),
            },
    {
        let scope_ids: Vec<String> = match self.retrieval_scope_ids(anchor) {
            Ok(scope_ids) => scope_ids,
            Err(error) => return Err(error),
        };
        proof {
            let all = ranked.deep_view();
            let used = hit_in(scope_ids.deep_view());
            let wanted = hit_readable(self@, anchor@);
            assert forall|i: int| 0 <= i < all.len() implies used(#[trigger] all[i]) == wanted(
                all[i],
            ) by {
                assert(listed(scope_ids.deep_view(), all[i].scope_id) <==> readable_from(
                    self@,
                    anchor@,
                    all[i].scope_id,
                ));
            }
            filter_agrees(all, used, wanted);
        }
        let request = SearchRequest { query: String::new(), scope_ids, limit };
        Ok(request.select(ranked))
    }
}

} // verus!
