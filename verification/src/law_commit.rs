//! Laws of observation commits: what an observer hands in is what is recorded, draft for draft.

use vstd::prelude::*;

use crate::claim_table::linked_all;
use crate::digest::json_hash;
use crate::error::{first_error_from, first_error_none, ErrorModel};
use crate::event::{event_between, event_named, event_order, events_between, stream_at};
use crate::json::searchable;
use crate::kind::{RunStatus, ViewKind};
use crate::law_claim::ordered_contains;
use crate::law_event::filtered_position;
use crate::law_observation::committing_changes_runs;
use crate::law_record::linking_adds_the_sources;
use crate::model::{
    AmbiguityDraftModel, ClaimDraftModel, ClaimModel, MemoryEventModel, ObservationDraftModel,
    ObservationModel, ObserverResultModel,
};
use crate::observation::{
    all_drafted, all_observed, claim_id, commit_step, highest, keeps_continuation, lowest, observation_id,
    sequence_in, with_drafted, with_observations,
};
use crate::observer::{
    ambiguity_evidence, ambiguity_refusal, claim_evidence, claim_refusal, named_evidence,
    nothing_found, observation_evidence, observation_refusal, result_refusal,
};
use crate::row::{IndexRowModel, LinkModel, MemoryStoreModel, RunRowModel, StreamRowModel};
use crate::score::Real;
use crate::stamp::StampModel;
use crate::table::{first_where, first_where_found};
use crate::text::{blank, joined, trimmed, Text};
use crate::view::{latest_view, run_at, run_named};

verus! {

/// Whether a commit was carried out now.
pub open spec fn commits_now(
    store: MemoryStoreModel,
    run_id: Text,
    result: ObserverResultModel,
    key: Text,
    stamp: StampModel,
) -> bool {
    &&& stamp.ids.len() == result.observations.len() + result.claims.len() + 1
    &&& commit_step(store, run_id, result, key, stamp).1 matches Ok(done) && !done.replayed
}

proof fn observations_are_added(
    store: MemoryStoreModel,
    made: Seq<ObservationModel>,
    drafts: Seq<ObservationDraftModel>,
)
    requires
        made.len() == drafts.len(),
    ensures
        ({
            let after = with_observations(store, made, drafts);
            &&& after.observations == store.observations + made
            &&& after == (MemoryStoreModel {
                observations: after.observations,
                observation_sources: after.observation_sources,
                index: after.index,
                ..store
            })
            &&& forall|link: LinkModel|
                #[trigger] after.observation_sources.contains(link)
                    <==> store.observation_sources.contains(link) || exists|i: int|
                    0 <= i < made.len() && (#[trigger] made[i]).id == link.holder_id
                        && drafts[i].source_event_ids.contains(link.source_id)
            &&& forall|i: int|
                0 <= i < made.len() ==> after.index.contains(
                    IndexRowModel {
                        record_type: "observation"@,
                        record_id: (#[trigger] made[i]).id,
                        scope_id: made[i].scope_id,
                        text: made[i].content,
                    },
                )
            &&& forall|row: IndexRowModel| store.index.contains(row) ==> #[trigger] after.index.contains(row)
        }),
    decreases made.len(),
{
    let after = with_observations(store, made, drafts);
    if made.len() == 0 {
        assert(store.observations + made =~= store.observations);
    } else {
        let front = made.drop_last();
        let before = with_observations(store, front, drafts.drop_last());
        let n = made.len() - 1;
        observations_are_added(store, front, drafts.drop_last());
        assert(store.observations + made =~= (store.observations + front).push(made.last()));
        assert forall|link: LinkModel|
            #[trigger] after.observation_sources.contains(link)
                <==> store.observation_sources.contains(link) || exists|i: int|
                0 <= i < made.len() && (#[trigger] made[i]).id == link.holder_id
                    && drafts[i].source_event_ids.contains(link.source_id) by {
            linking_adds_the_sources(
                before.observation_sources,
                made.last().id,
                drafts.last().source_event_ids,
                link,
            );
            if exists|i: int|
                0 <= i < front.len() && (#[trigger] front[i]).id == link.holder_id
                    && drafts.drop_last()[i].source_event_ids.contains(link.source_id) {
                let i = choose|i: int|
                    0 <= i < front.len() && (#[trigger] front[i]).id == link.holder_id
                        && drafts.drop_last()[i].source_event_ids.contains(link.source_id);
                assert(made[i] == front[i] && drafts[i] == drafts.drop_last()[i]);
            }
            if exists|i: int|
                0 <= i < made.len() && (#[trigger] made[i]).id == link.holder_id
                    && drafts[i].source_event_ids.contains(link.source_id) {
                let i = choose|i: int|
                    0 <= i < made.len() && (#[trigger] made[i]).id == link.holder_id
                        && drafts[i].source_event_ids.contains(link.source_id);
                if i < n {
                    assert(front[i] == made[i] && drafts.drop_last()[i] == drafts[i]);
                } else {
                    assert(made[i] == made.last() && drafts[i] == drafts.last());
                }
            }
            assert(made[n] == made.last() && drafts[n] == drafts.last());
        }
        let new = after.index.last();
        assert(after.index == before.index.push(new));
        assert forall|row: IndexRowModel| before.index.contains(row) implies after.index.contains(
            row,
        ) by {
            let k = choose|k: int| 0 <= k < before.index.len() && before.index[k] == row;
            assert(after.index[k] == row);
        }
        assert(after.index[before.index.len() as int] == new);
        assert forall|i: int| 0 <= i < made.len() implies after.index.contains(
            IndexRowModel {
                record_type: "observation"@,
                record_id: (#[trigger] made[i]).id,
                scope_id: made[i].scope_id,
                text: made[i].content,
            },
        ) by {
            if i < n {
                assert(front[i] == made[i]);
                assert(before.index.contains(
                    IndexRowModel {
                        record_type: "observation"@,
                        record_id: front[i].id,
                        scope_id: front[i].scope_id,
                        text: front[i].content,
                    },
                ));
            }
        }
    }
}

proof fn claims_are_added(
    store: MemoryStoreModel,
    made: Seq<ClaimModel>,
    drafts: Seq<ClaimDraftModel>,
)
    requires
        made.len() == drafts.len(),
    ensures
        ({
            let after = with_drafted(store, made, drafts);
            &&& after.claims == store.claims + made
            &&& after == (MemoryStoreModel {
                claims: after.claims,
                claim_sources: after.claim_sources,
                index: after.index,
                ..store
            })
            &&& forall|link: LinkModel|
                #[trigger] after.claim_sources.contains(link) <==> store.claim_sources.contains(
                    link,
                ) || exists|i: int|
                    0 <= i < made.len() && (#[trigger] made[i]).id == link.holder_id
                        && drafts[i].source_event_ids.contains(link.source_id)
            &&& forall|i: int|
                0 <= i < made.len() ==> after.index.contains(
                    IndexRowModel {
                        record_type: "claim"@,
                        record_id: (#[trigger] made[i]).id,
                        scope_id: made[i].scope_id,
                        text: made[i].subject + " "@ + made[i].predicate + " "@ + searchable(
                            made[i].value,
                        ),
                    },
                )
            &&& forall|row: IndexRowModel| store.index.contains(row) ==> #[trigger] after.index.contains(row)
        }),
    decreases made.len(),
{
    let after = with_drafted(store, made, drafts);
    if made.len() == 0 {
        assert(store.claims + made =~= store.claims);
    } else {
        let front = made.drop_last();
        let before = with_drafted(store, front, drafts.drop_last());
        let n = made.len() - 1;
        claims_are_added(store, front, drafts.drop_last());
        assert(store.claims + made =~= (store.claims + front).push(made.last()));
        assert forall|link: LinkModel|
            #[trigger] after.claim_sources.contains(link) <==> store.claim_sources.contains(link)
                || exists|i: int|
                0 <= i < made.len() && (#[trigger] made[i]).id == link.holder_id
                    && drafts[i].source_event_ids.contains(link.source_id) by {
            linking_adds_the_sources(
                before.claim_sources,
                made.last().id,
                drafts.last().source_event_ids,
                link,
            );
            if exists|i: int|
                0 <= i < front.len() && (#[trigger] front[i]).id == link.holder_id
                    && drafts.drop_last()[i].source_event_ids.contains(link.source_id) {
                let i = choose|i: int|
                    0 <= i < front.len() && (#[trigger] front[i]).id == link.holder_id
                        && drafts.drop_last()[i].source_event_ids.contains(link.source_id);
                assert(made[i] == front[i] && drafts[i] == drafts.drop_last()[i]);
            }
            if exists|i: int|
                0 <= i < made.len() && (#[trigger] made[i]).id == link.holder_id
                    && drafts[i].source_event_ids.contains(link.source_id) {
                let i = choose|i: int|
                    0 <= i < made.len() && (#[trigger] made[i]).id == link.holder_id
                        && drafts[i].source_event_ids.contains(link.source_id);
                if i < n {
                    assert(front[i] == made[i] && drafts.drop_last()[i] == drafts[i]);
                } else {
                    assert(made[i] == made.last() && drafts[i] == drafts.last());
                }
            }
            assert(made[n] == made.last() && drafts[n] == drafts.last());
        }
        let new = after.index.last();
        assert(after.index == before.index.push(new));
        assert forall|row: IndexRowModel| before.index.contains(row) implies after.index.contains(
            row,
        ) by {
            let k = choose|k: int| 0 <= k < before.index.len() && before.index[k] == row;
            assert(after.index[k] == row);
        }
        assert(after.index[before.index.len() as int] == new);
        assert forall|i: int| 0 <= i < made.len() implies after.index.contains(
            IndexRowModel {
                record_type: "claim"@,
                record_id: (#[trigger] made[i]).id,
                scope_id: made[i].scope_id,
                text: made[i].subject + " "@ + made[i].predicate + " "@ + searchable(
                    made[i].value,
                ),
            },
        ) by {
            if i < n {
                assert(front[i] == made[i]);
                assert(before.index.contains(
                    IndexRowModel {
                        record_type: "claim"@,
                        record_id: front[i].id,
                        scope_id: front[i].scope_id,
                        text: front[i].subject + " "@ + front[i].predicate + " "@ + searchable(
                            front[i].value,
                        ),
                    },
                ));
            }
        }
    }
}

/// Every claim of a commit says what its draft says: it has the draft's kind, cardinality, value,
/// modality and confidence, its subject and its predicate without white space around them, and the
/// scope and the identifier of the run. It is pending, on the authority of a model, and nothing but
/// these claims is added to those of the memory.
#[verifier::rlimit(30)]
pub proof fn committed_claims_are_the_drafts(
    store: MemoryStoreModel,
    run_id: Text,
    result: ObserverResultModel,
    key: Text,
    stamp: StampModel,
)
    requires
        commits_now(store, run_id, result, key, stamp),
    ensures
        ({
            let (after, answer) = commit_step(store, run_id, result, key, stamp);
            let made = answer->Ok_0.data.claims;
            let run = run_at(store, run_id).unwrap();
            &&& after.claims == store.claims + made
            &&& after.claim_slots == store.claim_slots
            &&& made.len() == result.claims.len()
            &&& forall|i: int|
                0 <= i < made.len() ==> {
                    let claim = #[trigger] made[i];
                    let draft = result.claims[i];
                    &&& claim.id == stamp.ids[result.observations.len() + i]
                    &&& claim.origin_run_id == Some(run_id)
                    &&& claim.scope_id == run.scope_id
                    &&& claim.kind == draft.kind
                    &&& claim.subject == trimmed(draft.subject)
                    &&& claim.predicate == trimmed(draft.predicate)
                    &&& claim.cardinality == draft.cardinality
                    &&& claim.value == draft.value
                    &&& claim.value_hash == json_hash(draft.value)
                    &&& claim.modality == draft.modality
                    &&& claim.confidence == draft.confidence.number
                    &&& claim.status is Pending
                    &&& claim.authority is ModelInference
                    &&& claim.supersedes_id is None
                    &&& claim.created_at == stamp.at
                    &&& claim.updated_at == stamp.at
                    &&& after.index.contains(
                        IndexRowModel {
                            record_type: "claim"@,
                            record_id: claim.id,
                            scope_id: claim.scope_id,
                            text: claim.subject + " "@ + claim.predicate + " "@ + searchable(
                                claim.value,
                            ),
                        },
                    )
                }
            &&& forall|link: LinkModel|
                #[trigger] after.claim_sources.contains(link) <==> store.claim_sources.contains(
                    link,
                ) || exists|i: int|
                    0 <= i < made.len() && (#[trigger] made[i]).id == link.holder_id
                        && result.claims[i].source_event_ids.contains(link.source_id)
        }),
{
    let run = run_at(store, run_id).unwrap();
    first_where_found(store.runs, run_named(run_id));
    let sources = events_between(
        store,
        run.stream_id,
        run.from_sequence as int,
        run.to_sequence as int,
    );
    let observations = all_observed(run, sources, result.observations, stamp.ids, stamp.at);
    let claims = all_drafted(
        run,
        result.claims,
        stamp.ids.skip(result.observations.len() as int),
        stamp.at,
    );
    let observed = with_observations(store, observations, result.observations);
    observations_are_added(store, observations, result.observations);
    claims_are_added(observed, claims, result.claims);
}

/// Every observation of a commit says what its draft says: it has the draft's kind, importance,
/// confidence and times, its content without white space around it, and the scope, the model and
/// the prompt version of the run; and nothing but these observations is added to those of the
/// memory, linked to the events that their drafts name.
#[verifier::rlimit(30)]
pub proof fn committed_observations_are_the_drafts(
    store: MemoryStoreModel,
    run_id: Text,
    result: ObserverResultModel,
    key: Text,
    stamp: StampModel,
)
    requires
        commits_now(store, run_id, result, key, stamp),
    ensures
        ({
            let (after, answer) = commit_step(store, run_id, result, key, stamp);
            let made = answer->Ok_0.data.observations;
            let run = run_at(store, run_id).unwrap();
            &&& after.observations == store.observations + made
            &&& made.len() == result.observations.len()
            &&& forall|i: int|
                0 <= i < made.len() ==> {
                    let observation = #[trigger] made[i];
                    let draft = result.observations[i];
                    &&& observation.id == stamp.ids[i]
                    &&& observation.run_id == run_id
                    &&& observation.scope_id == run.scope_id
                    &&& observation.kind == draft.kind
                    &&& observation.content == trimmed(draft.content)
                    &&& observation.importance == draft.importance.number
                    &&& observation.confidence == draft.confidence.number
                    &&& observation.event_time_from == draft.event_time_from
                    &&& observation.event_time_to == draft.event_time_to
                    &&& observation.observer_model == run.observer_model
                    &&& observation.prompt_version == run.prompt_version
                    &&& observation.created_at == stamp.at
                    &&& after.index.contains(
                        IndexRowModel {
                            record_type: "observation"@,
                            record_id: observation.id,
                            scope_id: observation.scope_id,
                            text: observation.content,
                        },
                    )
                }
            &&& forall|link: LinkModel|
                #[trigger] after.observation_sources.contains(link)
                    <==> store.observation_sources.contains(link) || exists|i: int|
                    0 <= i < made.len() && (#[trigger] made[i]).id == link.holder_id
                        && result.observations[i].source_event_ids.contains(link.source_id)
        }),
{
    let run = run_at(store, run_id).unwrap();
    first_where_found(store.runs, run_named(run_id));
    let sources = events_between(
        store,
        run.stream_id,
        run.from_sequence as int,
        run.to_sequence as int,
    );
    let observations = all_observed(run, sources, result.observations, stamp.ids, stamp.at);
    let claims = all_drafted(
        run,
        result.claims,
        stamp.ids.skip(result.observations.len() as int),
        stamp.at,
    );
    let observed = with_observations(store, observations, result.observations);
    observations_are_added(store, observations, result.observations);
    claims_are_added(observed, claims, result.claims);
    let after = commit_step(store, run_id, result, key, stamp).0;
    assert(after.index == with_drafted(observed, claims, result.claims).index);
    assert forall|i: int| 0 <= i < observations.len() implies after.index.contains(
        IndexRowModel {
            record_type: "observation"@,
            record_id: (#[trigger] observations[i]).id,
            scope_id: observations[i].scope_id,
            text: observations[i].content,
        },
    ) by {
        assert(observed.index.contains(
            IndexRowModel {
                record_type: "observation"@,
                record_id: observations[i].id,
                scope_id: observations[i].scope_id,
                text: observations[i].content,
            },
        ));
    }
}

/// A commit marks its run as committed, with the ambiguities that were handed in, moves the cursor
/// of the stream to the end of the run, and leaves other runs, other streams, the scopes and the
/// events as they are.
pub proof fn commit_settles_its_run(
    store: MemoryStoreModel,
    run_id: Text,
    result: ObserverResultModel,
    key: Text,
    stamp: StampModel,
)
    requires
        commits_now(store, run_id, result, key, stamp),
    ensures
        ({
            let (after, answer) = commit_step(store, run_id, result, key, stamp);
            let commit = answer->Ok_0.data;
            let run = run_at(store, run_id).unwrap();
            &&& run.id == run_id
            &&& run.status is Pending
            &&& stream_at(store, run.stream_id) matches Some(stream)
                && stream.observed_through_sequence == run.cursor_at_plan
            &&& commit.run_id == run_id
            &&& commit.ambiguities == result.ambiguities
            &&& commit.next_required_action is None <==> result.claims.len() == 0
            &&& after.scopes == store.scopes
            &&& after.events == store.events
            &&& after.runs.len() == store.runs.len()
            &&& forall|i: int|
                0 <= i < store.runs.len() ==> #[trigger] after.runs[i] == if store.runs[i].id
                    == run_id {
                    RunRowModel {
                        status: RunStatus::Committed,
                        error: None,
                        ambiguities: result.ambiguities,
                        updated_at: stamp.at,
                        ..store.runs[i]
                    }
                } else {
                    store.runs[i]
                }
            &&& after.streams.len() == store.streams.len()
            &&& forall|i: int|
                0 <= i < store.streams.len() ==> #[trigger] after.streams[i]
                    == if store.streams[i].id == run.stream_id {
                    StreamRowModel {
                        observed_through_sequence: run.to_sequence,
                        ..store.streams[i]
                    }
                } else {
                    store.streams[i]
                }
        }),
{
    let run = run_at(store, run_id).unwrap();
    first_where_found(store.runs, run_named(run_id));
    committing_changes_runs(store, run, result, stamp);
    let sources = events_between(
        store,
        run.stream_id,
        run.from_sequence as int,
        run.to_sequence as int,
    );
    let observations = all_observed(run, sources, result.observations, stamp.ids, stamp.at);
    let claims = all_drafted(
        run,
        result.claims,
        stamp.ids.skip(result.observations.len() as int),
        stamp.at,
    );
    observations_are_added(store, observations, result.observations);
    claims_are_added(
        with_observations(store, observations, result.observations),
        claims,
        result.claims,
    );
}

/// Whether a result holds nothing at all.
pub open spec fn holds_nothing(result: ObserverResultModel) -> bool {
    &&& result.observations.len() == 0
    &&& result.claims.len() == 0
    &&& result.ambiguities.len() == 0
    &&& result.continuation.current_task is None
    &&& result.continuation.completed.len() == 0
    &&& result.continuation.blockers.len() == 0
    &&& result.continuation.next_actions.len() == 0
    &&& result.continuation.unresolved_questions.len() == 0
}

/// A commit adds a continuation view of its stream, over the range of its run, that represents all
/// its observations, unless the result holds nothing and there is a continuation to keep. The
/// answer says which, and hands out the view.
#[verifier::rlimit(30)]
pub proof fn commit_continues_its_stream(
    store: MemoryStoreModel,
    run_id: Text,
    result: ObserverResultModel,
    key: Text,
    stamp: StampModel,
)
    requires
        commits_now(store, run_id, result, key, stamp),
    ensures
        ({
            let (after, answer) = commit_step(store, run_id, result, key, stamp);
            let commit = answer->Ok_0.data;
            let run = run_at(store, run_id).unwrap();
            let latest = latest_view(store, run.stream_id, ViewKind::Continuation);
            if holds_nothing(result) && latest is Some {
                &&& after.views == store.views
                &&& after.view_sources == store.view_sources
                &&& commit.continuation_action is Preserved
                &&& commit.continuation_view == latest.unwrap().view
            } else {
                let row = after.views.last();
                &&& after.views == store.views.push(row)
                &&& commit.continuation_action is Created
                &&& commit.continuation_view == row.view
                &&& row.continuation == Some(result.continuation)
                &&& row.view.id == stamp.ids.last()
                &&& row.view.scope_id == run.scope_id
                &&& row.view.stream_id == run.stream_id
                &&& row.view.kind is Continuation
                &&& row.view.source_from_sequence == run.from_sequence
                &&& row.view.source_through_sequence == run.to_sequence
                &&& row.view.model == Some(run.observer_model)
                &&& row.view.prompt_version == Some(run.prompt_version)
                &&& row.view.created_at == stamp.at
                &&& row.view.content.len() < i64::MAX ==> 4 * row.view.token_count
                    >= row.view.content.len()
                &&& match latest {
                    Some(old) => row.view.previous_view_id == Some(old.view.id)
                        && row.view.generation == old.view.generation + 1,
                    None => row.view.previous_view_id is None && row.view.generation == 1,
                }
                &&& forall|link: LinkModel|
                    #[trigger] after.view_sources.contains(link) <==> store.view_sources.contains(
                        link,
                    ) || (link.holder_id == row.view.id && exists|i: int|
                        0 <= i < commit.observations.len() && (
                        #[trigger] commit.observations[i]).id == link.source_id)
            }
        }),
{
    let (after, answer) = commit_step(store, run_id, result, key, stamp);
    let run = run_at(store, run_id).unwrap();
    first_where_found(store.runs, run_named(run_id));
    committing_changes_runs(store, run, result, stamp);
    let sources = events_between(
        store,
        run.stream_id,
        run.from_sequence as int,
        run.to_sequence as int,
    );
    let observations = all_observed(run, sources, result.observations, stamp.ids, stamp.at);
    let claims = all_drafted(
        run,
        result.claims,
        stamp.ids.skip(result.observations.len() as int),
        stamp.at,
    );
    let observed = with_observations(store, observations, result.observations);
    observations_are_added(store, observations, result.observations);
    claims_are_added(observed, claims, result.claims);
    assert(nothing_found(result) <==> holds_nothing(result));
    if !keeps_continuation(store, run, result) {
        let ids = observations.map_values(observation_id());
        let id = stamp.ids.last();
        assert(after.view_sources == linked_all(store.view_sources, id, ids));
        assert forall|link: LinkModel|
            #[trigger] after.view_sources.contains(link) <==> store.view_sources.contains(link) || (
            link.holder_id == id && exists|i: int|
                0 <= i < observations.len() && (#[trigger] observations[i]).id
                    == link.source_id) by {
            linking_adds_the_sources(store.view_sources, id, ids, link);
            if ids.contains(link.source_id) {
                let k = choose|k: int| 0 <= k < ids.len() && ids[k] == link.source_id;
                assert(observations[k].id == link.source_id);
            }
            if exists|i: int|
                0 <= i < observations.len() && (#[trigger] observations[i]).id == link.source_id {
                let i = choose|i: int|
                    0 <= i < observations.len() && (#[trigger] observations[i]).id
                        == link.source_id;
                assert(ids[i] == link.source_id);
            }
        }
    }
}

proof fn observation_sources_are_named(drafts: Seq<ObservationDraftModel>, i: int, id: Text)
    requires
        0 <= i < drafts.len(),
        drafts[i].source_event_ids.contains(id),
    ensures
        observation_evidence(drafts).contains(id),
    decreases drafts.len(),
{
    let front = observation_evidence(drafts.drop_last());
    let all = observation_evidence(drafts);
    if i < drafts.len() - 1 {
        assert(drafts.drop_last()[i] == drafts[i]);
        observation_sources_are_named(drafts.drop_last(), i, id);
        let k = choose|k: int| 0 <= k < front.len() && front[k] == id;
        assert(all[k] == id);
    } else {
        let last = drafts.last().source_event_ids;
        let k = choose|k: int| 0 <= k < last.len() && last[k] == id;
        assert(all[front.len() + k] == id);
    }
}

proof fn claim_sources_are_named(drafts: Seq<ClaimDraftModel>, i: int, id: Text)
    requires
        0 <= i < drafts.len(),
        drafts[i].source_event_ids.contains(id),
    ensures
        claim_evidence(drafts).contains(id),
    decreases drafts.len(),
{
    let front = claim_evidence(drafts.drop_last());
    let all = claim_evidence(drafts);
    if i < drafts.len() - 1 {
        assert(drafts.drop_last()[i] == drafts[i]);
        claim_sources_are_named(drafts.drop_last(), i, id);
        let k = choose|k: int| 0 <= k < front.len() && front[k] == id;
        assert(all[k] == id);
    } else {
        let last = drafts.last().source_event_ids;
        let k = choose|k: int| 0 <= k < last.len() && last[k] == id;
        assert(all[front.len() + k] == id);
    }
}

proof fn ambiguity_sources_are_named(drafts: Seq<AmbiguityDraftModel>, i: int, id: Text)
    requires
        0 <= i < drafts.len(),
        drafts[i].source_event_ids.contains(id),
    ensures
        ambiguity_evidence(drafts).contains(id),
    decreases drafts.len(),
{
    let front = ambiguity_evidence(drafts.drop_last());
    let all = ambiguity_evidence(drafts);
    if i < drafts.len() - 1 {
        assert(drafts.drop_last()[i] == drafts[i]);
        ambiguity_sources_are_named(drafts.drop_last(), i, id);
        let k = choose|k: int| 0 <= k < front.len() && front[k] == id;
        assert(all[k] == id);
    } else {
        let last = drafts.last().source_event_ids;
        let k = choose|k: int| 0 <= k < last.len() && last[k] == id;
        assert(all[front.len() + k] == id);
    }
}

/// Whether a result names an event as evidence.
pub open spec fn names(result: ObserverResultModel, id: Text) -> bool {
    ||| exists|i: int|
        0 <= i < result.observations.len() && (
        #[trigger] result.observations[i]).source_event_ids.contains(id)
    ||| exists|i: int|
        0 <= i < result.claims.len() && (#[trigger] result.claims[i]).source_event_ids.contains(id)
    ||| exists|i: int|
        0 <= i < result.ambiguities.len() && (
        #[trigger] result.ambiguities[i]).source_event_ids.contains(id)
}

/// What a result names is among the evidence that is checked.
pub proof fn named_events_are_listed(result: ObserverResultModel, id: Text)
    requires
        names(result, id),
    ensures
        named_evidence(result).contains(id),
{
    let first = observation_evidence(result.observations);
    let second = claim_evidence(result.claims);
    let third = ambiguity_evidence(result.ambiguities);
    let all = named_evidence(result);
    if exists|i: int|
        0 <= i < result.observations.len() && (
        #[trigger] result.observations[i]).source_event_ids.contains(id) {
        let i = choose|i: int|
            0 <= i < result.observations.len() && (
            #[trigger] result.observations[i]).source_event_ids.contains(id);
        observation_sources_are_named(result.observations, i, id);
        let k = choose|k: int| 0 <= k < first.len() && first[k] == id;
        assert(all[k] == id);
    } else if exists|i: int|
        0 <= i < result.claims.len() && (#[trigger] result.claims[i]).source_event_ids.contains(id) {
        let i = choose|i: int|
            0 <= i < result.claims.len() && (
            #[trigger] result.claims[i]).source_event_ids.contains(id);
        claim_sources_are_named(result.claims, i, id);
        let k = choose|k: int| 0 <= k < second.len() && second[k] == id;
        assert(all[first.len() + k] == id);
    } else {
        let i = choose|i: int|
            0 <= i < result.ambiguities.len() && (
            #[trigger] result.ambiguities[i]).source_event_ids.contains(id);
        ambiguity_sources_are_named(result.ambiguities, i, id);
        let k = choose|k: int| 0 <= k < third.len() && third[k] == id;
        assert(all[first.len() + second.len() + k] == id);
    }
}

proof fn listed_observation_sources_are_named(drafts: Seq<ObservationDraftModel>, id: Text)
    requires
        observation_evidence(drafts).contains(id),
    ensures
        exists|i: int|
            0 <= i < drafts.len() && (#[trigger] drafts[i]).source_event_ids.contains(id),
    decreases drafts.len(),
{
    let front = observation_evidence(drafts.drop_last());
    let last = drafts.last().source_event_ids;
    let k = choose|k: int| 0 <= k < (front + last).len() && (front + last)[k] == id;
    if k < front.len() {
        assert(front[k] == id);
        listed_observation_sources_are_named(drafts.drop_last(), id);
        let i = choose|i: int|
            0 <= i < drafts.drop_last().len() && (
            #[trigger] drafts.drop_last()[i]).source_event_ids.contains(id);
        assert(drafts[i].source_event_ids.contains(id));
    } else {
        assert(last[k - front.len()] == id);
        assert(drafts[drafts.len() - 1].source_event_ids.contains(id));
    }
}

proof fn listed_claim_sources_are_named(drafts: Seq<ClaimDraftModel>, id: Text)
    requires
        claim_evidence(drafts).contains(id),
    ensures
        exists|i: int|
            0 <= i < drafts.len() && (#[trigger] drafts[i]).source_event_ids.contains(id),
    decreases drafts.len(),
{
    let front = claim_evidence(drafts.drop_last());
    let last = drafts.last().source_event_ids;
    let k = choose|k: int| 0 <= k < (front + last).len() && (front + last)[k] == id;
    if k < front.len() {
        assert(front[k] == id);
        listed_claim_sources_are_named(drafts.drop_last(), id);
        let i = choose|i: int|
            0 <= i < drafts.drop_last().len() && (
            #[trigger] drafts.drop_last()[i]).source_event_ids.contains(id);
        assert(drafts[i].source_event_ids.contains(id));
    } else {
        assert(last[k - front.len()] == id);
        assert(drafts[drafts.len() - 1].source_event_ids.contains(id));
    }
}

proof fn listed_ambiguity_sources_are_named(drafts: Seq<AmbiguityDraftModel>, id: Text)
    requires
        ambiguity_evidence(drafts).contains(id),
    ensures
        exists|i: int|
            0 <= i < drafts.len() && (#[trigger] drafts[i]).source_event_ids.contains(id),
    decreases drafts.len(),
{
    let front = ambiguity_evidence(drafts.drop_last());
    let last = drafts.last().source_event_ids;
    let k = choose|k: int| 0 <= k < (front + last).len() && (front + last)[k] == id;
    if k < front.len() {
        assert(front[k] == id);
        listed_ambiguity_sources_are_named(drafts.drop_last(), id);
        let i = choose|i: int|
            0 <= i < drafts.drop_last().len() && (
            #[trigger] drafts.drop_last()[i]).source_event_ids.contains(id);
        assert(drafts[i].source_event_ids.contains(id));
    } else {
        assert(last[k - front.len()] == id);
        assert(drafts[drafts.len() - 1].source_event_ids.contains(id));
    }
}

/// The evidence that is checked is what the result names.
pub proof fn listed_events_are_named(result: ObserverResultModel, id: Text)
    requires
        named_evidence(result).contains(id),
    ensures
        names(result, id),
{
    let first = observation_evidence(result.observations);
    let second = claim_evidence(result.claims);
    let third = ambiguity_evidence(result.ambiguities);
    let all = named_evidence(result);
    let k = choose|k: int| 0 <= k < all.len() && all[k] == id;
    if k < first.len() {
        assert(first[k] == id);
        listed_observation_sources_are_named(result.observations, id);
    } else if k < first.len() + second.len() {
        assert(second[k - first.len()] == id);
        listed_claim_sources_are_named(result.claims, id);
    } else {
        assert(third[k - first.len() - second.len()] == id);
        listed_ambiguity_sources_are_named(result.ambiguities, id);
    }
}

/// Whatever a committed result names as evidence is an event of the run's stream, within the range
/// of the run, whose content is not withheld.
pub proof fn committed_evidence_is_of_the_run(
    store: MemoryStoreModel,
    run_id: Text,
    result: ObserverResultModel,
    key: Text,
    stamp: StampModel,
    id: Text,
)
    requires
        commits_now(store, run_id, result, key, stamp),
        names(result, id),
    ensures
        exists|k: int|
            0 <= k < store.events.len() && (#[trigger] store.events[k]).id == id
                && store.events[k].sensitivity is Normal && in_run(
                run_at(store, run_id).unwrap(),
                store.events[k],
            ),
{
    named_events_are_listed(result, id);
    let run = run_at(store, run_id).unwrap();
    let accepts = event_between(run.stream_id, run.from_sequence as int, run.to_sequence as int);
    let rows = store.events.filter(accepts);
    let sources = events_between(
        store,
        run.stream_id,
        run.from_sequence as int,
        run.to_sequence as int,
    );
    let check = crate::observer::evidence_refusal(sources);
    let ids = named_evidence(result);
    first_error_none(ids, check);
    let n = choose|n: int| 0 <= n < ids.len() && ids[n] == id;
    assert(check(ids[n]) is None);
    first_where_found(sources, event_named(id));
    let event = first_where(sources, event_named(id)).unwrap();
    ordered_contains(rows, event_order(), event);
    let k = choose|k: int| 0 <= k < rows.len() && rows[k] == event;
    let at = filtered_position(store.events, accepts, k);
    assert(store.events[at].id == id);
}

/// Whether an event is among those that a run covers.
pub open spec fn in_run(run: RunRowModel, event: MemoryEventModel) -> bool {
    event.stream_id == run.stream_id && run.from_sequence <= event.sequence <= run.to_sequence
}

proof fn lowest_is_reached(numbers: Seq<int>)
    requires
        numbers.len() > 0,
    ensures
        numbers.contains(lowest(numbers)),
        numbers.contains(highest(numbers)),
        forall|i: int|
            0 <= i < numbers.len() ==> lowest(numbers) <= #[trigger] numbers[i] <= highest(numbers),
    decreases numbers.len(),
{
    let front = numbers.drop_last();
    if numbers.len() > 1 {
        lowest_is_reached(front);
        let a = choose|a: int| 0 <= a < front.len() && front[a] == lowest(front);
        let b = choose|b: int| 0 <= b < front.len() && front[b] == highest(front);
        assert(numbers[a] == front[a] && numbers[b] == front[b]);
        assert(numbers[numbers.len() - 1] == numbers.last());
        assert forall|i: int| 0 <= i < numbers.len() implies lowest(numbers) <= #[trigger] numbers[i]
            <= highest(numbers) by {
            if i < front.len() {
                assert(front[i] == numbers[i]);
            }
        }
    } else {
        assert(numbers[0] == lowest(numbers));
    }
}

/// The range of a committed observation is that of the events it names: it takes all of them in,
/// and starts and ends at one of them.
#[verifier::rlimit(30)]
pub proof fn observation_ranges_are_tight(
    store: MemoryStoreModel,
    run_id: Text,
    result: ObserverResultModel,
    key: Text,
    stamp: StampModel,
    i: int,
    k: int,
)
    requires
        commits_now(store, run_id, result, key, stamp),
        forall|a: int, b: int|
            0 <= a < b < store.events.len() ==> (#[trigger] store.events[a]).id != (
            #[trigger] store.events[b]).id,
        0 <= i < result.observations.len(),
        0 <= k < store.events.len(),
        result.observations[i].source_event_ids.contains(store.events[k].id),
    ensures
        ({
            let made = commit_step(store, run_id, result, key, stamp).1->Ok_0.data.observations[i];
            let ids = result.observations[i].source_event_ids;
            &&& made.source_start_sequence <= store.events[k].sequence <= made.source_end_sequence
            &&& exists|a: int|
                0 <= a < store.events.len() && ids.contains((#[trigger] store.events[a]).id)
                    && store.events[a].sequence == made.source_start_sequence
            &&& exists|b: int|
                0 <= b < store.events.len() && ids.contains((#[trigger] store.events[b]).id)
                    && store.events[b].sequence == made.source_end_sequence
        }),
{
    let run = run_at(store, run_id).unwrap();
    let accepts = event_between(run.stream_id, run.from_sequence as int, run.to_sequence as int);
    let rows = store.events.filter(accepts);
    let sources = events_between(
        store,
        run.stream_id,
        run.from_sequence as int,
        run.to_sequence as int,
    );
    let ids = result.observations[i].source_event_ids;
    let numbers = ids.map_values(sequence_in(sources));
    let check = crate::observer::evidence_refusal(sources);
    let all = named_evidence(result);
    first_error_none(all, check);
    assert forall|n: int| 0 <= n < ids.len() implies exists|a: int|
        0 <= a < store.events.len() && (#[trigger] store.events[a]).id == ids[n]
            && store.events[a].sequence == #[trigger] numbers[n] by {
        assert(ids.contains(ids[n]));
        assert(names(result, ids[n]));
        named_events_are_listed(result, ids[n]);
        let m = choose|m: int| 0 <= m < all.len() && all[m] == ids[n];
        assert(check(all[m]) is None);
        first_where_found(sources, event_named(ids[n]));
        let event = first_where(sources, event_named(ids[n])).unwrap();
        ordered_contains(rows, event_order(), event);
        let r = choose|r: int| 0 <= r < rows.len() && rows[r] == event;
        let at = filtered_position(store.events, accepts, r);
        assert(store.events[at].id == ids[n] && store.events[at].sequence == numbers[n]);
    }
    let n = choose|n: int| 0 <= n < ids.len() && ids[n] == store.events[k].id;
    assert(numbers[n] == numbers[n]);
    let a = choose|a: int|
        0 <= a < store.events.len() && (#[trigger] store.events[a]).id == ids[n]
            && store.events[a].sequence == numbers[n];
    if a < k {
        assert(store.events[a].id != store.events[k].id);
    } else if k < a {
        assert(store.events[k].id != store.events[a].id);
    }
    lowest_is_reached(numbers);
    let low = choose|low: int| 0 <= low < numbers.len() && numbers[low] == lowest(numbers);
    let high = choose|high: int| 0 <= high < numbers.len() && numbers[high] == highest(numbers);
    let x = choose|x: int|
        0 <= x < store.events.len() && (#[trigger] store.events[x]).id == ids[low]
            && store.events[x].sequence == numbers[low];
    let y = choose|y: int|
        0 <= y < store.events.len() && (#[trigger] store.events[y]).id == ids[high]
            && store.events[y].sequence == numbers[high];
    assert(ids.contains(ids[low]) && ids.contains(ids[high]));
    let made = commit_step(store, run_id, result, key, stamp).1->Ok_0.data.observations[i];
    assert(made.source_start_sequence == store.events[x].sequence);
    assert(made.source_end_sequence == store.events[y].sequence);
}

proof fn no_error_from<V>(items: Seq<V>, check: spec_fn(int, V) -> Option<ErrorModel>, from: int)
    requires
        0 <= from,
    ensures
        first_error_from(items, check, from) is None <==> forall|k: int|
            from <= k < items.len() ==> check(k, #[trigger] items[k]) is None,
    decreases items.len() - from,
{
    if from < items.len() {
        no_error_from(items, check, from + 1);
        if check(from, items[from]) is None && first_error_from(items, check, from + 1) is None {
            assert forall|k: int| from <= k < items.len() implies check(k, #[trigger] items[k]) is None by {
                if k > from {
                }
            }
        }
        if forall|k: int| from <= k < items.len() ==> check(k, #[trigger] items[k]) is None {
            assert(check(from, items[from]) is None);
        }
    }
}

/// Whether a number is finite and between zero and one, by its bits.
pub open spec fn is_share(number: Real) -> bool {
    number.bits <= 0x3ff0_0000_0000_0000 || number.bits == 0x8000_0000_0000_0000
}

/// Whether a result is one that an observer may hand in.
pub open spec fn is_proper(result: ObserverResultModel) -> bool {
    &&& holds_nothing(result) ==> (result.empty_reason matches Some(reason) && !blank(reason))
    &&& result.empty_reason matches Some(reason) ==> reason.len() <= 500
    &&& forall|i: int|
        0 <= i < result.observations.len() ==> {
            let draft = #[trigger] result.observations[i];
            &&& !blank(draft.content)
            &&& is_share(draft.importance.number)
            &&& is_share(draft.confidence.number)
            &&& draft.source_event_ids.len() > 0
        }
    &&& forall|i: int|
        0 <= i < result.claims.len() ==> {
            let draft = #[trigger] result.claims[i];
            &&& !blank(draft.subject)
            &&& !blank(draft.predicate)
            &&& is_share(draft.confidence.number)
            &&& draft.source_event_ids.len() > 0
        }
    &&& forall|i: int|
        0 <= i < result.ambiguities.len() ==> {
            let draft = #[trigger] result.ambiguities[i];
            &&& !blank(draft.description)
            &&& draft.source_event_ids.len() > 0
        }
}

/// A result is accepted by itself exactly where every item has a text, evidence and proper scores,
/// and where one that holds nothing gives its reason.
pub proof fn proper_results_are_accepted(result: ObserverResultModel)
    ensures
        result_refusal(result) is None <==> is_proper(result),
{
    assert(nothing_found(result) <==> holds_nothing(result));
    let first = observation_refusal();
    let second = claim_refusal();
    let third = ambiguity_refusal();
    no_error_from(result.observations, first, 0);
    no_error_from(result.claims, second, 0);
    no_error_from(result.ambiguities, third, 0);
    if result_refusal(result) is None {
        assert forall|i: int| 0 <= i < result.observations.len() implies ({
            let draft = #[trigger] result.observations[i];
            &&& !blank(draft.content)
            &&& is_share(draft.importance.number)
            &&& is_share(draft.confidence.number)
            &&& draft.source_event_ids.len() > 0
        }) by {
            assert(first(i, result.observations[i]) is None);
        }
        assert forall|i: int| 0 <= i < result.claims.len() implies ({
            let draft = #[trigger] result.claims[i];
            &&& !blank(draft.subject)
            &&& !blank(draft.predicate)
            &&& is_share(draft.confidence.number)
            &&& draft.source_event_ids.len() > 0
        }) by {
            assert(second(i, result.claims[i]) is None);
        }
        assert forall|i: int| 0 <= i < result.ambiguities.len() implies ({
            let draft = #[trigger] result.ambiguities[i];
            &&& !blank(draft.description)
            &&& draft.source_event_ids.len() > 0
        }) by {
            assert(third(i, result.ambiguities[i]) is None);
        }
    }
    if is_proper(result) {
        assert forall|i: int| 0 <= i < result.observations.len() implies first(
            i,
            #[trigger] result.observations[i],
        ) is None by {}
        assert forall|i: int| 0 <= i < result.claims.len() implies second(
            i,
            #[trigger] result.claims[i],
        ) is None by {}
        assert forall|i: int| 0 <= i < result.ambiguities.len() implies third(
            i,
            #[trigger] result.ambiguities[i],
        ) is None by {}
    }
}

/// The next action that a commit asks for: none where it adds no claim, and else to decide on its
/// claims, each of them named, in their order.
pub proof fn new_claims_are_to_be_decided(
    store: MemoryStoreModel,
    run_id: Text,
    result: ObserverResultModel,
    key: Text,
    stamp: StampModel,
)
    requires
        commits_now(store, run_id, result, key, stamp),
    ensures
        ({
            let commit = commit_step(store, run_id, result, key, stamp).1->Ok_0.data;
            let ids = Seq::new(commit.claims.len(), |i: int| commit.claims[i].id);
            commit.next_required_action == if result.claims.len() == 0 {
                None
            } else {
                Some(
                    "review observer claims ["@ + joined(ids, ","@)
                        + "]; explicitly run `omk claim confirm --id <claim-id> --idempotency-key <key>` or `omk claim reject --id <claim-id> --idempotency-key <key>` for each"@,
                )
            }
        }),
{
    commit_settles_its_run(store, run_id, result, key, stamp);
    let commit = commit_step(store, run_id, result, key, stamp).1->Ok_0.data;
    let ids = Seq::new(commit.claims.len(), |i: int| commit.claims[i].id);
    assert(ids =~= commit.claims.map_values(claim_id()));
}

} // verus!
