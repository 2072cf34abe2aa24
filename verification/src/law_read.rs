//! Laws of reading: what is listed, recalled and explained is what is stored, all of it and nothing
//! else.

use vstd::prelude::*;

use crate::claim_table::{claim_at, claim_named};
use crate::error::first_error_none;
use crate::event::{event_at, event_between, event_named, event_order, events_between, redacted, shown};
use crate::kind::{Labelled, RunStatus};
use crate::law_bundle::{early_rows_stay_early, kept_rows_are_counted};
use crate::law_claim::ordered_contains;
use crate::law_event::{filtered_position, filtered_positions, kept_position};
use crate::model::{MemoryEventModel, ReadAccessModel, ScopeModel, SearchHitModel};
use crate::observation::{last_sequence, run_age, run_info, run_listed, run_wanted, runs_listed};
use crate::order::{key_less, ordered, ordered_rows, KeyModel};
use crate::recall::{
    event_read_refusal, evidence, evidence_of, explained, hit_in, hits_of, recalled, search_refusal,
    shown_all,
};
use crate::row::{LinkModel, MemoryStoreModel, RunRowModel, ViewRowModel};
use crate::scope::{readable_from, scope_age, visible_scopes};
use crate::table::first_where_found;
use crate::text::{
    blank, listed, literal_phrase, quotes_doubled, text_less, text_order_irreflexive, Text,
};
use crate::view::{observation_at, observation_named, view_in, view_order};

verus! {

/// Filtering rows and putting them in order keeps exactly those that are wanted.
pub proof fn selected_rows_are_all<V>(
    rows: Seq<V>,
    accepts: spec_fn(V) -> bool,
    key: spec_fn(V) -> KeyModel,
    row: V,
)
    ensures
        ordered(rows.filter(accepts), key).contains(row) <==> rows.contains(row) && accepts(row),
{
    let some = rows.filter(accepts);
    ordered_contains(some, key, row);
    if some.contains(row) {
        let k = choose|k: int| 0 <= k < some.len() && some[k] == row;
        let at = filtered_position(rows, accepts, k);
        assert(rows[at] == row);
    }
    if rows.contains(row) && accepts(row) {
        let at = choose|at: int| 0 <= at < rows.len() && rows[at] == row;
        let k = kept_position(rows, accepts, at);
        assert(some[k] == row);
    }
}

/// An event that is looked up is one of the memory with that identifier, and none is found only
/// where no event has it; and likewise a claim and an observation.
pub proof fn records_are_found_by_identifier(store: MemoryStoreModel, id: Text)
    ensures
        match event_at(store, id) {
            Some(event) => event.id == id && store.events.contains(event),
            None => forall|k: int|
                0 <= k < store.events.len() ==> (#[trigger] store.events[k]).id != id,
        },
        match claim_at(store, id) {
            Some(claim) => claim.id == id && store.claims.contains(claim),
            None => forall|k: int|
                0 <= k < store.claims.len() ==> (#[trigger] store.claims[k]).id != id,
        },
        match observation_at(store, id) {
            Some(observation) => observation.id == id && store.observations.contains(observation),
            None => forall|k: int|
                0 <= k < store.observations.len() ==> (#[trigger] store.observations[k]).id != id,
        },
{
    first_where_found(store.events, event_named(id));
    first_where_found(store.claims, claim_named(id));
    first_where_found(store.observations, observation_named(id));
    if event_at(store, id) is None {
        assert forall|k: int| 0 <= k < store.events.len() implies (#[trigger] store.events[k]).id
            != id by {
            assert(!(event_named(id))(store.events[k]));
        }
    }
    if claim_at(store, id) is None {
        assert forall|k: int| 0 <= k < store.claims.len() implies (#[trigger] store.claims[k]).id
            != id by {
            assert(!(claim_named(id))(store.claims[k]));
        }
    }
    if observation_at(store, id) is None {
        assert forall|k: int| 0 <= k < store.observations.len() implies (
        #[trigger] store.observations[k]).id != id by {
            assert(!(observation_named(id))(store.observations[k]));
        }
    }
}

/// The events of a stream that are recalled by their numbers are all those within the range, in the
/// order of their numbers.
pub proof fn event_ranges_are_complete(store: MemoryStoreModel, stream_id: Text, from: int, to: int)
    ensures
        ({
            let events = events_between(store, stream_id, from, to);
            &&& forall|event: MemoryEventModel|
                #[trigger] events.contains(event) <==> store.events.contains(event)
                    && event.stream_id == stream_id && from <= event.sequence <= to
            &&& forall|i: int, j: int|
                0 <= i < j < events.len() ==> (#[trigger] events[i]).sequence <= (
                #[trigger] events[j]).sequence
        }),
{
    let accepts = event_between(stream_id, from, to);
    let events = events_between(store, stream_id, from, to);
    assert forall|event: MemoryEventModel|
        #[trigger] events.contains(event) <==> store.events.contains(event) && event.stream_id
            == stream_id && from <= event.sequence <= to by {
        selected_rows_are_all(store.events, accepts, event_order(), event);
    }
    ordered_rows(store.events.filter(accepts), event_order());
    assert forall|i: int, j: int| 0 <= i < j < events.len() implies (
    #[trigger] events[i]).sequence <= (#[trigger] events[j]).sequence by {
        assert(events.contains(events[i]) && events.contains(events[j]));
        assert(!key_less((event_order())(events[j]), (event_order())(events[i])));
    }
}

/// Whether some events are those that a record is linked to, as they are shown with an access: as
/// they are where secrets are revealed, and redacted else; by stream and number.
pub open spec fn shows_the_evidence(
    store: MemoryStoreModel,
    links: Seq<LinkModel>,
    holder_id: Text,
    access: ReadAccessModel,
    events: Seq<MemoryEventModel>,
) -> bool {
    &&& forall|k: int|
        0 <= k < store.events.len() && links.contains(
            LinkModel { holder_id, source_id: (#[trigger] store.events[k]).id },
        ) ==> events.contains(
            if access.reveal_secrets {
                store.events[k]
            } else {
                redacted(store.events[k])
            },
        ) && readable_from(store, access.anchor_scope_id, store.events[k].scope_id)
    &&& forall|i: int|
        0 <= i < events.len() ==> exists|k: int|
            0 <= k < store.events.len() && links.contains(
                LinkModel { holder_id, source_id: (#[trigger] store.events[k]).id },
            ) && #[trigger] events[i] == if access.reveal_secrets {
                store.events[k]
            } else {
                redacted(store.events[k])
            }
    &&& forall|i: int, j: int|
        0 <= i < j < events.len() ==> !text_less(
            (#[trigger] events[j]).stream_id,
            (#[trigger] events[i]).stream_id,
        ) && (events[i].stream_id == events[j].stream_id ==> events[i].sequence
            <= events[j].sequence)
}

proof fn shown_evidence_is_complete(
    store: MemoryStoreModel,
    links: Seq<LinkModel>,
    holder_id: Text,
    access: ReadAccessModel,
)
    requires
        shown_all(store, access, evidence(store, links, holder_id)) is Ok,
    ensures
        shows_the_evidence(
            store,
            links,
            holder_id,
            access,
            shown_all(store, access, evidence(store, links, holder_id))->Ok_0,
        ),
{
    let accepts = evidence_of(links, holder_id);
    let rows = evidence(store, links, holder_id);
    let events = shown_all(store, access, rows)->Ok_0;
    let check = event_read_refusal(store, access);
    first_error_none(rows, check);
    ordered_rows(store.events.filter(accepts), event_order());
    assert forall|k: int|
        0 <= k < store.events.len() && links.contains(
            LinkModel { holder_id, source_id: (#[trigger] store.events[k]).id },
        ) implies events.contains(
        if access.reveal_secrets {
            store.events[k]
        } else {
            redacted(store.events[k])
        },
    ) && readable_from(store, access.anchor_scope_id, store.events[k].scope_id) by {
        selected_rows_are_all(store.events, accepts, event_order(), store.events[k]);
        assert(store.events.contains(store.events[k]));
        let m = choose|m: int| 0 <= m < rows.len() && rows[m] == store.events[k];
        assert(check(rows[m]) is None);
        assert(events[m] == shown(access, store.events[k]));
    }
    assert forall|i: int| 0 <= i < events.len() implies exists|k: int|
        0 <= k < store.events.len() && links.contains(
            LinkModel { holder_id, source_id: (#[trigger] store.events[k]).id },
        ) && #[trigger] events[i] == if access.reveal_secrets {
            store.events[k]
        } else {
            redacted(store.events[k])
        } by {
        assert(rows.contains(rows[i]));
        selected_rows_are_all(store.events, accepts, event_order(), rows[i]);
        let k = choose|k: int| 0 <= k < store.events.len() && store.events[k] == rows[i];
        assert(events[i] == shown(access, store.events[k]));
        assert(links.contains(LinkModel { holder_id, source_id: store.events[k].id }));
    }
    assert forall|i: int, j: int| 0 <= i < j < events.len() implies !text_less(
        (#[trigger] events[j]).stream_id,
        (#[trigger] events[i]).stream_id,
    ) && (events[i].stream_id == events[j].stream_id ==> events[i].sequence
        <= events[j].sequence) by {
        assert(events[i] == shown(access, rows[i]));
        assert(events[j] == shown(access, rows[j]));
        assert(!key_less((event_order())(rows[j]), (event_order())(rows[i])));
        text_order_irreflexive(rows[i].stream_id);
    }
}

/// What is recalled of an observation is its evidence, all of it and nothing else. It is recalled
/// only where the observation can be read.
pub proof fn recalled_evidence_is_complete(
    store: MemoryStoreModel,
    access: ReadAccessModel,
    observation_id: Text,
)
    ensures
        recalled(store, access, observation_id) matches Ok(events) ==> {
            &&& shows_the_evidence(
                store,
                store.observation_sources,
                observation_id,
                access,
                events,
            )
            &&& exists|k: int|
                0 <= k < store.observations.len() && (#[trigger] store.observations[k]).id
                    == observation_id && readable_from(
                    store,
                    access.anchor_scope_id,
                    store.observations[k].scope_id,
                )
        },
{
    if recalled(store, access, observation_id) is Ok {
        shown_evidence_is_complete(store, store.observation_sources, observation_id, access);
        first_where_found(store.observations, observation_named(observation_id));
        let observation = observation_at(store, observation_id).unwrap();
        let k = choose|k: int|
            0 <= k < store.observations.len() && store.observations[k] == observation;
        assert(store.observations[k].id == observation_id);
    }
}

/// What explains a claim is the claim itself and its evidence, all of it and nothing else. It is
/// explained only where the claim can be read.
pub proof fn explanations_are_complete(
    store: MemoryStoreModel,
    access: ReadAccessModel,
    claim_id: Text,
)
    ensures
        explained(store, access, claim_id) matches Ok(explanation) ==> {
            &&& explanation.claim.id == claim_id
            &&& store.claims.contains(explanation.claim)
            &&& readable_from(store, access.anchor_scope_id, explanation.claim.scope_id)
            &&& shows_the_evidence(
                store,
                store.claim_sources,
                claim_id,
                access,
                explanation.source_events,
            )
        },
{
    if explained(store, access, claim_id) is Ok {
        shown_evidence_is_complete(store, store.claim_sources, claim_id, access);
        first_where_found(store.claims, claim_named(claim_id));
    }
}

/// Evidence is recalled and explained wherever the record and all events that it is linked to can
/// be read.
pub proof fn readable_evidence_is_recalled(
    store: MemoryStoreModel,
    access: ReadAccessModel,
    id: Text,
)
    requires
        visible_scopes(store, access.anchor_scope_id) is Ok,
        forall|k: int|
            0 <= k < store.events.len() ==> readable_from(
                store,
                access.anchor_scope_id,
                (#[trigger] store.events[k]).scope_id,
            ),
    ensures
        observation_at(store, id) matches Some(observation) && readable_from(
            store,
            access.anchor_scope_id,
            observation.scope_id,
        ) ==> recalled(store, access, id) is Ok,
        claim_at(store, id) matches Some(claim) && readable_from(
            store,
            access.anchor_scope_id,
            claim.scope_id,
        ) ==> explained(store, access, id) is Ok,
{
    let check = event_read_refusal(store, access);
    let first = evidence(store, store.observation_sources, id);
    let second = evidence(store, store.claim_sources, id);
    first_error_none(first, check);
    first_error_none(second, check);
    assert forall|i: int| 0 <= i < first.len() implies check(#[trigger] first[i]) is None by {
        assert(first.contains(first[i]));
        selected_rows_are_all(
            store.events,
            evidence_of(store.observation_sources, id),
            event_order(),
            first[i],
        );
        let k = choose|k: int| 0 <= k < store.events.len() && store.events[k] == first[i];
        assert(readable_from(store, access.anchor_scope_id, store.events[k].scope_id));
    }
    assert forall|i: int| 0 <= i < second.len() implies check(#[trigger] second[i]) is None by {
        assert(second.contains(second[i]));
        selected_rows_are_all(
            store.events,
            evidence_of(store.claim_sources, id),
            event_order(),
            second[i],
        );
        let k = choose|k: int| 0 <= k < store.events.len() && store.events[k] == second[i];
        assert(readable_from(store, access.anchor_scope_id, store.events[k].scope_id));
    }
}

/// What is shown of a run is the run, with its status as a word, and what can be done about it:
/// a run that lost evidence or was overtaken has to be planned anew, unless it was committed; one
/// that failed has to be looked at; for all others there is nothing to do.
pub proof fn runs_are_shown_as_they_are(run: RunRowModel)
    ensures
        ({
            let info = (run_info())(run);
            &&& info.id == run.id
            &&& info.scope_id == run.scope_id
            &&& info.stream_id == run.stream_id
            &&& info.cursor_at_plan == run.cursor_at_plan
            &&& info.from_sequence == run.from_sequence
            &&& info.to_sequence == run.to_sequence
            &&& info.source_integrity == run.source_integrity
            &&& info.observer_model == run.observer_model
            &&& info.prompt_version == run.prompt_version
            &&& info.ambiguities == run.ambiguities
            &&& info.error == run.error
            &&& info.created_at == run.created_at
            &&& info.updated_at == run.updated_at
            &&& info.status == match run.status {
                RunStatus::Pending => "pending"@,
                RunStatus::Committed => "committed"@,
                RunStatus::Failed => "failed"@,
                RunStatus::Stale => "stale"@,
            }
            &&& info.next_action == if run.source_integrity is PrivacyPurged
                && run.status is Committed {
                Some(
                    "derived records depending on purged evidence were removed; append replacement evidence if needed"@,
                )
            } else if run.source_integrity is PrivacyPurged || run.status is Stale {
                Some("request a new observation plan"@)
            } else if run.status is Failed {
                Some("inspect the error and request a new observation plan"@)
            } else {
                None
            }
        }),
{
}

/// The runs that are listed are all those of the given stream and status, as far as these are
/// given, that can be read from the anchor, by age; and where no anchor is given, all of them.
pub proof fn run_lists_are_complete(
    store: MemoryStoreModel,
    anchor: Text,
    stream_id: Option<Text>,
    status: Option<Text>,
    r: int,
)
    requires
        0 <= r < store.runs.len(),
    ensures
        ({
            let run = store.runs[r];
            let asked = (stream_id matches Some(id) ==> run.stream_id == id) && (
            status matches Some(label) ==> run.status.label() == label);
            let everywhere = ordered(store.runs.filter(run_wanted(stream_id, status)), run_age());
            let seen = ordered(
                store.runs.filter(run_listed(store, anchor, stream_id, status)),
                run_age(),
            );
            &&& asked <==> everywhere.contains(run)
            &&& asked && readable_from(store, anchor, run.scope_id) <==> seen.contains(run)
            &&& runs_listed(store, anchor, stream_id, status) == seen.map_values(run_info())
            &&& forall|i: int, j: int|
                0 <= i < j < seen.len() ==> !text_less(
                    (#[trigger] seen[j]).created_at,
                    (#[trigger] seen[i]).created_at,
                )
            &&& forall|i: int, j: int|
                0 <= i < j < everywhere.len() ==> !text_less(
                    (#[trigger] everywhere[j]).created_at,
                    (#[trigger] everywhere[i]).created_at,
                )
        }),
{
    let run = store.runs[r];
    assert(store.runs.contains(run));
    let first = run_wanted(stream_id, status);
    let second = run_listed(store, anchor, stream_id, status);
    let everywhere = ordered(store.runs.filter(first), run_age());
    let seen = ordered(store.runs.filter(second), run_age());
    selected_rows_are_all(store.runs, first, run_age(), run);
    selected_rows_are_all(store.runs, second, run_age(), run);
    ordered_rows(store.runs.filter(first), run_age());
    ordered_rows(store.runs.filter(second), run_age());
    assert forall|i: int, j: int| 0 <= i < j < seen.len() implies !text_less(
        (#[trigger] seen[j]).created_at,
        (#[trigger] seen[i]).created_at,
    ) by {
        assert(!key_less((run_age())(seen[j]), (run_age())(seen[i])));
        text_order_irreflexive(seen[i].created_at);
    }
    assert forall|i: int, j: int| 0 <= i < j < everywhere.len() implies !text_less(
        (#[trigger] everywhere[j]).created_at,
        (#[trigger] everywhere[i]).created_at,
    ) by {
        assert(!key_less((run_age())(everywhere[j]), (run_age())(everywhere[i])));
        text_order_irreflexive(everywhere[i].created_at);
    }
}

/// The views that are listed for a scope are all its views and no others, by stream, kind and
/// generation.
pub proof fn view_lists_are_complete(store: MemoryStoreModel, scope_id: Text, row: ViewRowModel)
    ensures
        ({
            let rows = ordered(store.views.filter(view_in(scope_id)), view_order());
            &&& rows.contains(row) <==> store.views.contains(row) && row.view.scope_id == scope_id
            &&& forall|i: int, j: int|
                0 <= i < j < rows.len() && (#[trigger] rows[i]).view.stream_id == (
                #[trigger] rows[j]).view.stream_id && rows[i].view.kind == rows[j].view.kind
                    ==> rows[i].view.generation <= rows[j].view.generation
            &&& forall|i: int, j: int|
                0 <= i < j < rows.len() ==> !text_less(
                    (#[trigger] rows[j]).view.stream_id,
                    (#[trigger] rows[i]).view.stream_id,
                )
        }),
{
    let accepts = view_in(scope_id);
    let rows = ordered(store.views.filter(accepts), view_order());
    selected_rows_are_all(store.views, accepts, view_order(), row);
    ordered_rows(store.views.filter(accepts), view_order());
    assert forall|i: int, j: int|
        0 <= i < j < rows.len() && (#[trigger] rows[i]).view.stream_id == (
        #[trigger] rows[j]).view.stream_id && rows[i].view.kind == rows[j].view.kind implies
        rows[i].view.generation <= rows[j].view.generation by {
        assert(!key_less((view_order())(rows[j]), (view_order())(rows[i])));
    }
    assert forall|i: int, j: int| 0 <= i < j < rows.len() implies !text_less(
        (#[trigger] rows[j]).view.stream_id,
        (#[trigger] rows[i]).view.stream_id,
    ) by {
        assert(!key_less((view_order())(rows[j]), (view_order())(rows[i])));
        text_order_irreflexive(rows[i].view.stream_id);
    }
}

/// All scopes are listed, by age.
pub proof fn scope_lists_are_complete(store: MemoryStoreModel, scope: ScopeModel)
    ensures
        ({
            let scopes = ordered(store.scopes, scope_age());
            &&& scopes.len() == store.scopes.len()
            &&& scopes.contains(scope) <==> store.scopes.contains(scope)
            &&& forall|i: int, j: int|
                0 <= i < j < scopes.len() ==> !text_less(
                    (#[trigger] scopes[j]).created_at,
                    (#[trigger] scopes[i]).created_at,
                )
        }),
{
    let scopes = ordered(store.scopes, scope_age());
    ordered_contains(store.scopes, scope_age(), scope);
    ordered_rows(store.scopes, scope_age());
    assert forall|i: int, j: int| 0 <= i < j < scopes.len() implies !text_less(
        (#[trigger] scopes[j]).created_at,
        (#[trigger] scopes[i]).created_at,
    ) by {
        assert(!key_less((scope_age())(scopes[j]), (scope_age())(scopes[i])));
        text_order_irreflexive(scopes[i].created_at);
    }
}

/// A search answers with the best hits of the scopes that may be searched, without leaving one out
/// before the limit is reached: a hit comes behind as many as are better and may be searched too.
pub proof fn best_hits_are_answered(
    ranked: Seq<SearchHitModel>,
    scope_ids: Seq<Text>,
    limit: int,
    r: int,
)
    requires
        limit > 0,
        0 <= r < ranked.len(),
        scope_ids.contains(ranked[r].scope_id),
    ensures
        hits_of(ranked, scope_ids, limit).contains(ranked[r]) || hits_of(
            ranked,
            scope_ids,
            limit,
        ).len() == limit,
        r < limit ==> hits_of(ranked, scope_ids, limit).contains(ranked[r]),
        hits_of(ranked, scope_ids, limit).len() <= limit,
        ({
            let better = ranked.take(r).filter(
                |hit: SearchHitModel| scope_ids.contains(hit.scope_id),
            ).len();
            better < limit ==> better < hits_of(ranked, scope_ids, limit).len() && hits_of(
                ranked,
                scope_ids,
                limit,
            )[better as int] == ranked[r]
        }),
{
    let accepts = hit_in(scope_ids);
    let searched = |hit: SearchHitModel| scope_ids.contains(hit.scope_id);
    assert forall|hit: SearchHitModel| #[trigger] searched(hit) == accepts(hit) by {
        if scope_ids.contains(hit.scope_id) {
            let n = choose|n: int| 0 <= n < scope_ids.len() && scope_ids[n] == hit.scope_id;
            assert(listed(scope_ids, scope_ids[n]));
        }
    }
    assert(searched =~= accepts);
    let rows = ranked.filter(accepts);
    let hits = hits_of(ranked, scope_ids, limit);
    let n = choose|n: int| 0 <= n < scope_ids.len() && scope_ids[n] == ranked[r].scope_id;
    assert(listed(scope_ids, scope_ids[n]));
    let k = early_rows_stay_early(ranked, accepts, r);
    if k < limit {
        assert(hits[k] == ranked[r]);
    }
    kept_rows_are_counted(ranked, accepts, r);
}

/// Hits are answered in the order of their rank.
pub proof fn hits_keep_their_rank(
    ranked: Seq<SearchHitModel>,
    scope_ids: Seq<Text>,
    limit: int,
    i: int,
    j: int,
) -> (at: (int, int))
    requires
        limit > 0,
        0 <= i < j < hits_of(ranked, scope_ids, limit).len(),
    ensures
        0 <= at.0 < at.1 < ranked.len(),
        ranked[at.0] == hits_of(ranked, scope_ids, limit)[i],
        ranked[at.1] == hits_of(ranked, scope_ids, limit)[j],
{
    filtered_positions(ranked, hit_in(scope_ids), i, j)
}

/// A search can be run exactly where its query is not blank, its limit is from one to a thousand,
/// and its scope can be found.
pub proof fn searches_can_be_run(store: MemoryStoreModel, scope_id: Text, query: Text, limit: int)
    ensures
        search_refusal(store, scope_id, query, limit) is None <==> !blank(query) && 1 <= limit
            <= 1000 && visible_scopes(store, scope_id) is Ok,
{
}

/// A query without quotes is looked for as it is, between quotes.
pub proof fn plain_queries_are_kept(query: Text)
    requires
        forall|i: int| 0 <= i < query.len() ==> #[trigger] query[i] != '"',
    ensures
        literal_phrase(query) == "\""@ + query + "\""@,
{
    plain_texts_are_not_doubled(query);
}

proof fn plain_texts_are_not_doubled(text: Text)
    requires
        forall|i: int| 0 <= i < text.len() ==> #[trigger] text[i] != '"',
    ensures
        quotes_doubled(text) == text,
    decreases text.len(),
{
    if text.len() > 0 {
        let front = text.drop_last();
        assert forall|i: int| 0 <= i < front.len() implies #[trigger] front[i] != '"' by {
            assert(front[i] == text[i]);
        }
        plain_texts_are_not_doubled(front);
        assert(text[text.len() - 1] == text.last());
        assert(front.push(text.last()) =~= text);
    } else {
        assert(quotes_doubled(text) =~= text);
    }
}

/// The last number of a stream is the highest that one of its events has, and there is none only
/// where the stream has no event.
pub proof fn last_number_is_the_highest(store: MemoryStoreModel, stream_id: Text)
    ensures
        match last_sequence(store, stream_id) {
            Some(last) => {
                &&& exists|k: int|
                    0 <= k < store.events.len() && (#[trigger] store.events[k]).stream_id
                        == stream_id && store.events[k].sequence == last
                &&& forall|k: int|
                    0 <= k < store.events.len() && (#[trigger] store.events[k]).stream_id
                        == stream_id ==> store.events[k].sequence <= last
            },
            None => forall|k: int|
                0 <= k < store.events.len() ==> (#[trigger] store.events[k]).stream_id != stream_id,
        },
{
    let events = events_between(store, stream_id, i64::MIN as int, i64::MAX as int);
    event_ranges_are_complete(store, stream_id, i64::MIN as int, i64::MAX as int);
    if events.len() > 0 {
        assert(events.contains(events[events.len() - 1]));
        let k = choose|k: int| 0 <= k < store.events.len() && store.events[k] == events.last();
        assert(store.events[k].sequence == events.last().sequence);
    }
    assert forall|k: int|
        0 <= k < store.events.len() && (#[trigger] store.events[k]).stream_id == stream_id implies (
    events.len() > 0 && store.events[k].sequence <= events.last().sequence) by {
        assert(store.events.contains(store.events[k]));
        assert(events.contains(store.events[k]));
        let m = choose|m: int| 0 <= m < events.len() && events[m] == store.events[k];
        if m < events.len() - 1 {
            assert(events[m].sequence <= events[events.len() - 1].sequence);
        }
    }
}

} // verus!
