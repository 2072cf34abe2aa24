//! Laws of what is accepted: which requests succeed on a memory, and that no others do.

use vstd::prelude::*;

use crate::claim::{
    close_operation, close_request, close_step, closed_status, confirm_request, confirm_step,
    correct_request, correct_step, direct_request, direct_step, moved, normalized, requested_slot,
    rescope_request, rescope_step,
};
use crate::claim_table::{
    claim_at, claim_clash, claim_named, command_refusal, command_stream, hidden_source,
    hidden_sources, slot_keyed, slot_of, slot_refusal, source_refusal, sources_of, sources_refusal,
};
use crate::digest::request_hash;
use crate::error::{first_error, first_error_none};
use crate::event::{
    event_at, event_between, event_named, event_order, events_between, stream_at, stream_full,
};
use crate::json::json_quoted;
use crate::kind::ViewKind;
use crate::law_claim::{claims_sound, ordered_contains};
use crate::law_commit::{
    in_run, is_proper, listed_events_are_named, named_events_are_listed, names,
    proper_results_are_accepted,
};
use crate::law_event::{filtered_position, kept_position};
use crate::law_lifecycle::{sources_are_the_linked, wanted_claim};
use crate::law_record::{
    event_is_held, holds_event, holds_scope, key_unused, latest_view_is_the_highest, scope_is_held,
    unused_key_is_free,
};
use crate::model::{ClaimModel, CreateViewModel, ObserverResultModel};
use crate::observation::{
    claim_ids_new, claims_repeat, commit_request, commit_step, observation_ids_new,
    observations_repeat,
};
use crate::observer::{evidence_refusal, named_evidence};
use crate::privacy::{purge_claim_step, purge_event_step};
use crate::row::{ClaimRequestModel, LinkModel, MemoryStoreModel, RunRowModel};
use crate::scope::{readable_from, visible_scopes};
use crate::stamp::StampModel;
use crate::table::{first_where, first_where_at, first_where_found, some_row};
use crate::text::{blank, blank_is_trimmed, listed, trimmed_of_blank, Text};
use crate::view::{
    create_view_step, latest_view, latest_view_id, observation_at, observation_named,
    represented_refusal, run_at, view_named, view_request,
};

verus! {

/// Whether all events of a memory have identifiers of their own.
pub open spec fn events_differ(store: MemoryStoreModel) -> bool {
    forall|a: int, b: int|
        0 <= a < b < store.events.len() ==> (#[trigger] store.events[a]).id != (
        #[trigger] store.events[b]).id
}

/// Whether a command on claims of a scope can be recorded: its identifier is new, and its stream
/// has a number left.
pub open spec fn command_fits(store: MemoryStoreModel, scope_id: Text, stamp: StampModel) -> bool {
    &&& !holds_event(store, stamp.ids[0])
    &&& forall|i: int|
        0 <= i < store.streams.len() && (#[trigger] store.streams[i]).id == "memory-commands:"@
            + scope_id ==> store.streams[i].next_sequence < i64::MAX
}

/// Whether an event can be evidence of a claim of a scope: it is there, its content is not
/// withheld, and it can be read from the scope.
pub open spec fn is_evidence(store: MemoryStoreModel, scope_id: Text, id: Text) -> bool {
    exists|k: int|
        0 <= k < store.events.len() && (#[trigger] store.events[k]).id == id
            && store.events[k].sensitivity is Normal && readable_from(
            store,
            scope_id,
            store.events[k].scope_id,
        )
}

/// Whether a claim is as many-valued as its slot, where that is known.
pub open spec fn slot_agrees(store: MemoryStoreModel, claim: ClaimModel) -> bool {
    forall|k: int|
        0 <= k < store.claim_slots.len() && (#[trigger] store.claim_slots[k]).scope_id
            == claim.scope_id && store.claim_slots[k].kind == claim.kind
            && store.claim_slots[k].subject == claim.subject && store.claim_slots[k].predicate
            == claim.predicate ==> store.claim_slots[k].cardinality == claim.cardinality
}

/// Whether no claim has an identifier.
pub open spec fn claim_is_new(store: MemoryStoreModel, id: Text) -> bool {
    forall|k: int| 0 <= k < store.claims.len() ==> (#[trigger] store.claims[k]).id != id
}

proof fn fitting_commands_are_accepted(
    store: MemoryStoreModel,
    scope_id: Text,
    stamp: StampModel,
)
    requires
        command_fits(store, scope_id, stamp),
    ensures
        command_refusal(store, scope_id, stamp) is None,
{
    event_is_held(store, stamp.ids[0]);
    if stream_full(store, command_stream(scope_id)) {
        let i = choose|i: int|
            0 <= i < store.streams.len() && (#[trigger] store.streams[i]).id == command_stream(
                scope_id,
            ) && store.streams[i].next_sequence == i64::MAX;
        assert(store.streams[i].id == "memory-commands:"@ + scope_id);
    }
}

proof fn agreeing_slots_are_accepted(store: MemoryStoreModel, claim: ClaimModel)
    requires
        slot_agrees(store, claim),
    ensures
        slot_refusal(store, slot_of(claim)) is None,
{
    first_where_found(store.claim_slots, slot_keyed(slot_of(claim)));
}

proof fn new_claims_do_not_clash(store: MemoryStoreModel, id: Text)
    requires
        claim_is_new(store, id),
    ensures
        claim_clash(store, id) is None,
{
    if some_row(store.claims, claim_named(id)) {
        let k = choose|k: int|
            0 <= k < store.claims.len() && (claim_named(id))(#[trigger] store.claims[k]);
        assert(store.claims[k].id == id);
    }
}

proof fn event_is_found(store: MemoryStoreModel, k: int)
    requires
        events_differ(store),
        0 <= k < store.events.len(),
    ensures
        event_at(store, store.events[k].id) == Some(store.events[k]),
{
    let accepts = event_named(store.events[k].id);
    assert forall|m: int| 0 <= m < k implies !accepts(#[trigger] store.events[m]) by {
        assert(store.events[m].id != store.events[k].id);
    }
    first_where_at(store.events, accepts, k);
}

/// The evidence of a claim is accepted exactly where all of it can be evidence.
pub proof fn evidence_is_accepted(store: MemoryStoreModel, scope_id: Text, ids: Seq<Text>)
    requires
        events_differ(store),
        visible_scopes(store, scope_id) is Ok,
    ensures
        sources_refusal(store, scope_id, ids) is None <==> forall|n: int|
            0 <= n < ids.len() ==> is_evidence(store, scope_id, #[trigger] ids[n]),
{
    let check = source_refusal(store, scope_id);
    first_error_none(ids, check);
    assert forall|n: int| 0 <= n < ids.len() implies (check(#[trigger] ids[n]) is None
        <==> is_evidence(store, scope_id, ids[n])) by {
        let id = ids[n];
        first_where_found(store.events, event_named(id));
        if check(id) is None {
            let event = event_at(store, id).unwrap();
            let k = choose|k: int| 0 <= k < store.events.len() && store.events[k] == event;
            assert(store.events[k].id == id);
        }
        if is_evidence(store, scope_id, id) {
            let k = choose|k: int|
                0 <= k < store.events.len() && (#[trigger] store.events[k]).id == id
                    && store.events[k].sensitivity is Normal && readable_from(
                    store,
                    scope_id,
                    store.events[k].scope_id,
                );
            event_is_found(store, k);
        }
    }
    if forall|n: int| 0 <= n < ids.len() ==> is_evidence(store, scope_id, #[trigger] ids[n]) {
        assert forall|n: int| 0 <= n < ids.len() implies check(#[trigger] ids[n]) is None by {
            assert(is_evidence(store, scope_id, ids[n]));
        }
    }
    if sources_refusal(store, scope_id, ids) is None {
        assert forall|n: int| 0 <= n < ids.len() implies is_evidence(
            store,
            scope_id,
            #[trigger] ids[n],
        ) by {
            assert(check(ids[n]) is None);
        }
    }
}

proof fn claim_is_found(store: MemoryStoreModel, i: int)
    requires
        claims_sound(store),
        0 <= i < store.claims.len(),
    ensures
        claim_at(store, store.claims[i].id) == Some(store.claims[i]),
{
    let accepts = claim_named(store.claims[i].id);
    assert forall|m: int| 0 <= m < i implies !accepts(#[trigger] store.claims[m]) by {
        assert(store.claims[m].id != store.claims[i].id);
    }
    first_where_at(store.claims, accepts, i);
}

/// A claim can be stated or proposed wherever its subject and its predicate are not blank, its
/// scope is there and its evidence can be evidence, and nowhere else.
pub proof fn claims_can_be_stated(
    store: MemoryStoreModel,
    request: ClaimRequestModel,
    key: Text,
    stamp: StampModel,
)
    requires
        key_unused(store, key),
        stamp.ids.len() == 2,
        command_fits(store, request.scope_id, stamp),
        claim_is_new(store, stamp.ids[1]),
        events_differ(store),
        holds_scope(store, request.scope_id) ==> visible_scopes(store, request.scope_id) is Ok,
        slot_agrees(store, wanted_claim(request, stamp)),
    ensures
        direct_step(store, request, key, stamp).1 is Ok <==> {
            &&& !blank(request.subject)
            &&& !blank(request.predicate)
            &&& !blank(key)
            &&& holds_scope(store, request.scope_id)
            &&& forall|n: int|
                0 <= n < request.source_event_ids.len() ==> is_evidence(
                    store,
                    request.scope_id,
                    #[trigger] request.source_event_ids[n],
                )
        },
{
    let asked = normalized(request);
    let wanted = wanted_claim(request, stamp);
    unused_key_is_free(
        store,
        key,
        asked.operation,
        request_hash(asked.operation, direct_request(asked)),
    );
    trimmed_of_blank(request.subject);
    trimmed_of_blank(request.predicate);
    blank_is_trimmed(request.subject);
    blank_is_trimmed(request.predicate);
    scope_is_held(store, request.scope_id);
    fitting_commands_are_accepted(store, request.scope_id, stamp);
    agreeing_slots_are_accepted(store, wanted);
    assert(slot_of(wanted) == requested_slot(asked));
    new_claims_do_not_clash(store, stamp.ids[1]);
    if holds_scope(store, request.scope_id) {
        evidence_is_accepted(store, request.scope_id, request.source_event_ids);
    }
}

/// A claim can be confirmed exactly where it is pending or disputed.
pub proof fn waiting_claims_can_be_confirmed(
    store: MemoryStoreModel,
    key: Text,
    stamp: StampModel,
    i: int,
)
    requires
        claims_sound(store),
        key_unused(store, key),
        !blank(key),
        0 <= i < store.claims.len(),
        command_fits(store, store.claims[i].scope_id, stamp),
        slot_agrees(store, store.claims[i]),
    ensures
        confirm_step(store, store.claims[i].id, key, stamp).1 is Ok <==> {
            store.claims[i].status is Pending || store.claims[i].status is Disputed
        },
{
    let claim = store.claims[i];
    unused_key_is_free(
        store,
        key,
        "claim.confirm"@,
        request_hash("claim.confirm"@, confirm_request(claim.id)),
    );
    claim_is_found(store, i);
    fitting_commands_are_accepted(store, claim.scope_id, stamp);
    agreeing_slots_are_accepted(store, claim);
}

/// A claim can be rejected exactly where it is pending or disputed, and forgotten exactly where it
/// is pending, disputed or active.
pub proof fn open_claims_can_be_closed(
    store: MemoryStoreModel,
    forget: bool,
    key: Text,
    stamp: StampModel,
    i: int,
)
    requires
        claims_sound(store),
        key_unused(store, key),
        !blank(key),
        0 <= i < store.claims.len(),
        command_fits(store, store.claims[i].scope_id, stamp),
    ensures
        close_step(store, store.claims[i].id, forget, key, stamp).1 is Ok <==> {
            ||| store.claims[i].status is Pending
            ||| store.claims[i].status is Disputed
            ||| forget && store.claims[i].status is Active
        },
{
    let claim = store.claims[i];
    unused_key_is_free(
        store,
        key,
        close_operation(forget),
        request_hash(
            close_operation(forget),
            close_request(claim.id, closed_status(forget)),
        ),
    );
    claim_is_found(store, i);
    fitting_commands_are_accepted(store, claim.scope_id, stamp);
}

/// A claim can be corrected, whatever its standing, exactly where the evidence of the correction
/// can be evidence.
pub proof fn claims_can_be_corrected(
    store: MemoryStoreModel,
    value: Text,
    event_ids: Seq<Text>,
    key: Text,
    stamp: StampModel,
    i: int,
)
    requires
        claims_sound(store),
        key_unused(store, key),
        !blank(key),
        0 <= i < store.claims.len(),
        command_fits(store, store.claims[i].scope_id, stamp),
        slot_agrees(store, store.claims[i]),
        claim_is_new(store, stamp.ids[1]),
        events_differ(store),
        visible_scopes(store, store.claims[i].scope_id) is Ok,
    ensures
        correct_step(store, store.claims[i].id, value, event_ids, key, stamp).1 is Ok <==> forall|
            n: int,
        |
            0 <= n < event_ids.len() ==> is_evidence(
                store,
                store.claims[i].scope_id,
                #[trigger] event_ids[n],
            ),
{
    let claim = store.claims[i];
    unused_key_is_free(
        store,
        key,
        "claim.correct"@,
        request_hash("claim.correct"@, correct_request(claim.id, value, event_ids)),
    );
    claim_is_found(store, i);
    fitting_commands_are_accepted(store, claim.scope_id, stamp);
    agreeing_slots_are_accepted(store, claim);
    new_claims_do_not_clash(store, stamp.ids[1]);
    evidence_is_accepted(store, claim.scope_id, event_ids);
}

/// A claim can be moved exactly to a scope that is its own or lies above it, and that can see every
/// event that the claim rests on.
pub proof fn claims_can_be_moved_up(
    store: MemoryStoreModel,
    new_scope_id: Text,
    key: Text,
    stamp: StampModel,
    i: int,
)
    requires
        claims_sound(store),
        key_unused(store, key),
        !blank(key),
        0 <= i < store.claims.len(),
        holds_scope(store, new_scope_id),
        command_fits(store, new_scope_id, stamp),
        slot_agrees(store, ClaimModel { scope_id: new_scope_id, ..store.claims[i] }),
        claim_is_new(store, stamp.ids[1]),
        events_differ(store),
        visible_scopes(store, new_scope_id) is Ok,
        visible_scopes(store, store.claims[i].scope_id) is Ok,
    ensures
        rescope_step(store, store.claims[i].id, new_scope_id, key, stamp).1 is Ok <==> {
            &&& new_scope_id == store.claims[i].scope_id || visible_scopes(
                store,
                store.claims[i].scope_id,
            )->Ok_0.contains(new_scope_id)
            &&& forall|e: int|
                0 <= e < store.events.len() && store.claim_sources.contains(
                    LinkModel {
                        holder_id: store.claims[i].id,
                        source_id: (#[trigger] store.events[e]).id,
                    },
                ) ==> readable_from(store, new_scope_id, store.events[e].scope_id)
        },
{
    let claim = store.claims[i];
    unused_key_is_free(
        store,
        key,
        "claim.rescope"@,
        request_hash("claim.rescope"@, rescope_request(claim.id, new_scope_id)),
    );
    scope_is_held(store, new_scope_id);
    claim_is_found(store, i);
    fitting_commands_are_accepted(store, new_scope_id, stamp);
    let made = moved(claim, new_scope_id, stamp);
    assert(slot_of(made) == slot_of(ClaimModel { scope_id: new_scope_id, ..claim }));
    agreeing_slots_are_accepted(store, ClaimModel { scope_id: new_scope_id, ..claim });
    new_claims_do_not_clash(store, stamp.ids[1]);
    let visible = visible_scopes(store, claim.scope_id)->Ok_0;
    assert(listed(visible, new_scope_id) <==> visible.contains(new_scope_id)) by {
        if listed(visible, new_scope_id) {
            let k = choose|k: int| 0 <= k < visible.len() && #[trigger] visible[k] == new_scope_id;
            assert(visible.contains(visible[k]));
        }
        if visible.contains(new_scope_id) {
            let k = choose|k: int| 0 <= k < visible.len() && visible[k] == new_scope_id;
            assert(listed(visible, visible[k]));
        }
    }
    let check = hidden_source(store, claim.id, new_scope_id);
    let sources = sources_of(store.claim_sources, claim.id);
    first_error_none(sources, check);
    if hidden_sources(store, claim.id, new_scope_id) is None {
        assert forall|e: int|
            0 <= e < store.events.len() && store.claim_sources.contains(
                LinkModel { holder_id: claim.id, source_id: (#[trigger] store.events[e]).id },
            ) implies readable_from(store, new_scope_id, store.events[e].scope_id) by {
            sources_are_the_linked(store.claim_sources, claim.id, store.events[e].id);
            let n = choose|n: int| 0 <= n < sources.len() && sources[n] == store.events[e].id;
            assert(check(sources[n]) is None);
            event_is_found(store, e);
        }
    }
    if forall|e: int|
        0 <= e < store.events.len() && store.claim_sources.contains(
            LinkModel { holder_id: claim.id, source_id: (#[trigger] store.events[e]).id },
        ) ==> readable_from(store, new_scope_id, store.events[e].scope_id) {
        assert forall|n: int| 0 <= n < sources.len() implies check(#[trigger] sources[n]) is None by {
            assert(sources.contains(sources[n]));
            sources_are_the_linked(store.claim_sources, claim.id, sources[n]);
            first_where_found(store.events, event_named(sources[n]));
            if let Some(event) = event_at(store, sources[n]) {
                let e = choose|e: int| 0 <= e < store.events.len() && store.events[e] == event;
                assert(store.events[e].id == sources[n]);
            }
        }
    }
}

/// A record can be purged exactly where it is there.
pub proof fn records_can_be_purged(
    store: MemoryStoreModel,
    id: Text,
    key: Text,
    stamp: StampModel,
)
    requires
        key_unused(store, key),
        !blank(key),
    ensures
        purge_event_step(store, id, key, stamp).1 is Ok <==> holds_event(store, id),
        purge_claim_step(store, id, key, stamp).1 is Ok <==> !claim_is_new(store, id),
{
    unused_key_is_free(
        store,
        key,
        "event.purge"@,
        request_hash("event.purge"@, json_quoted(id)),
    );
    unused_key_is_free(
        store,
        key,
        "claim.purge"@,
        request_hash("claim.purge"@, json_quoted(id)),
    );
    event_is_held(store, id);
    first_where_found(store.events, event_named(id));
    first_where_found(store.claims, claim_named(id));
    if !claim_is_new(store, id) {
        let k = choose|k: int| 0 <= k < store.claims.len() && (#[trigger] store.claims[k]).id == id;
        assert((claim_named(id))(store.claims[k]));
    }
    if some_row(store.claims, claim_named(id)) {
        let k = choose|k: int|
            0 <= k < store.claims.len() && (claim_named(id))(#[trigger] store.claims[k]);
        assert(store.claims[k].id == id);
    }
}

/// Whether an observation can be represented by a view: it is there, of the scope and of the stream
/// of the view, and its range lies within that of the view.
pub open spec fn can_be_represented(
    store: MemoryStoreModel,
    input: CreateViewModel,
    id: Text,
) -> bool {
    observation_at(store, id) matches Some(observation) && {
        &&& run_at(store, observation.run_id) matches Some(run) && run.stream_id == input.stream_id
        &&& observation.scope_id == input.scope_id
        &&& input.source_from_sequence <= observation.source_start_sequence
        &&& observation.source_end_sequence <= input.source_through_sequence
    }
}

/// A continuity view can be created exactly where it says something over a proper range, follows
/// the latest view of its stream, which is of its scope, and represents, each once, observations
/// that it can represent.
pub proof fn views_can_be_created(store: MemoryStoreModel, input: CreateViewModel, stamp: StampModel)
    requires
        key_unused(store, input.idempotency_key),
        !blank(input.idempotency_key),
        forall|k: int|
            0 <= k < store.views.len() ==> (#[trigger] store.views[k]).view.id != stamp.ids[0]
                && store.views[k].view.generation < i64::MAX,
    ensures
        create_view_step(store, input, stamp).1 is Ok <==> {
            &&& !blank(input.content)
            &&& input.kind is Continuity
            &&& 0 < input.source_from_sequence <= input.source_through_sequence
            &&& holds_scope(store, input.scope_id)
            &&& stream_at(store, input.stream_id) matches Some(stream) && stream.scope_id
                == input.scope_id
            &&& latest_view_id(store, input.stream_id, ViewKind::Continuity)
                == input.expected_previous_view_id
            &&& input.source_observation_ids.no_duplicates()
            &&& forall|n: int|
                0 <= n < input.source_observation_ids.len() ==> can_be_represented(
                    store,
                    input,
                    #[trigger] input.source_observation_ids[n],
                )
        },
{
    unused_key_is_free(
        store,
        input.idempotency_key,
        "view.create"@,
        request_hash("view.create"@, view_request(input)),
    );
    scope_is_held(store, input.scope_id);
    let check = represented_refusal(store, input);
    let ids = input.source_observation_ids;
    first_error_none(ids, check);
    assert forall|n: int| 0 <= n < ids.len() implies (check(#[trigger] ids[n]) is None
        <==> can_be_represented(store, input, ids[n])) by {}
    if forall|n: int| 0 <= n < ids.len() ==> can_be_represented(store, input, #[trigger] ids[n]) {
        assert forall|n: int| 0 <= n < ids.len() implies check(#[trigger] ids[n]) is None by {
            assert(can_be_represented(store, input, ids[n]));
        }
    }
    if first_error(ids, check) is None {
        assert forall|n: int| 0 <= n < ids.len() implies can_be_represented(
            store,
            input,
            #[trigger] ids[n],
        ) by {
            assert(check(ids[n]) is None);
        }
    }
    latest_view_is_the_highest(store, input.stream_id, ViewKind::Continuity);
    if let Some(row) = latest_view(store, input.stream_id, ViewKind::Continuity) {
        let k = choose|k: int| 0 <= k < store.views.len() && store.views[k] == row;
        assert(store.views[k].view.generation < i64::MAX);
    }
    if some_row(store.views, view_named(stamp.ids[0])) {
        let k = choose|k: int|
            0 <= k < store.views.len() && (view_named(stamp.ids[0]))(#[trigger] store.views[k]);
        assert(store.views[k].view.id != stamp.ids[0]);
    }
}

/// Whether the identifiers of a stamp are new for what a result adds.
pub open spec fn ids_are_new(
    store: MemoryStoreModel,
    result: ObserverResultModel,
    ids: Seq<Text>,
) -> bool {
    let observed = result.observations.len();
    &&& ids.len() == observed + result.claims.len() + 1
    &&& ids.no_duplicates()
    &&& forall|n: int, k: int|
        0 <= n < ids.len() && 0 <= k < store.observations.len() ==> (
        #[trigger] store.observations[k]).id != #[trigger] ids[n]
    &&& forall|n: int, k: int|
        0 <= n < ids.len() && 0 <= k < store.claims.len() ==> (#[trigger] store.claims[k]).id
            != #[trigger] ids[n]
    &&& forall|n: int, k: int|
        0 <= n < ids.len() && 0 <= k < store.views.len() ==> (#[trigger] store.views[k]).view.id
            != #[trigger] ids[n]
}

/// Whether every item of a result names each event once.
pub open spec fn names_each_once(result: ObserverResultModel) -> bool {
    &&& forall|i: int|
        0 <= i < result.observations.len() ==> (
        #[trigger] result.observations[i]).source_event_ids.no_duplicates()
    &&& forall|i: int|
        0 <= i < result.claims.len() ==> (
        #[trigger] result.claims[i]).source_event_ids.no_duplicates()
}

/// Whether an event is evidence that a run can give: it is there, within the run, and its content
/// is not withheld.
pub open spec fn is_run_evidence(store: MemoryStoreModel, run: RunRowModel, id: Text) -> bool {
    exists|k: int|
        0 <= k < store.events.len() && (#[trigger] store.events[k]).id == id
            && store.events[k].sensitivity is Normal && in_run(run, store.events[k])
}

proof fn run_evidence_is_accepted(store: MemoryStoreModel, run: RunRowModel, id: Text)
    requires
        events_differ(store),
    ensures
        ({
            let sources = events_between(
                store,
                run.stream_id,
                run.from_sequence as int,
                run.to_sequence as int,
            );
            (evidence_refusal(sources))(id) is None <==> is_run_evidence(store, run, id)
        }),
{
    let accepts = event_between(run.stream_id, run.from_sequence as int, run.to_sequence as int);
    let rows = store.events.filter(accepts);
    let sources = events_between(
        store,
        run.stream_id,
        run.from_sequence as int,
        run.to_sequence as int,
    );
    first_where_found(sources, event_named(id));
    if let Some(event) = first_where(sources, event_named(id)) {
        ordered_contains(rows, event_order(), event);
        let r = choose|r: int| 0 <= r < rows.len() && rows[r] == event;
        let at = filtered_position(store.events, accepts, r);
        assert(store.events[at].id == id);
        if is_run_evidence(store, run, id) {
            let k = choose|k: int|
                0 <= k < store.events.len() && (#[trigger] store.events[k]).id == id
                    && store.events[k].sensitivity is Normal && in_run(run, store.events[k]);
            if k < at {
                assert(store.events[k].id != store.events[at].id);
            } else if at < k {
                assert(store.events[at].id != store.events[k].id);
            }
        }
    }
    if is_run_evidence(store, run, id) {
        let k = choose|k: int|
            0 <= k < store.events.len() && (#[trigger] store.events[k]).id == id
                && store.events[k].sensitivity is Normal && in_run(run, store.events[k]);
        assert(accepts(store.events[k]));
        let r = kept_position(store.events, accepts, k);
        assert(rows[r] == store.events[k]);
        ordered_contains(rows, event_order(), store.events[k]);
        let m = choose|m: int| 0 <= m < sources.len() && sources[m] == store.events[k];
        assert((event_named(id))(sources[m]));
    }
}

/// A result can be committed exactly where its run is pending, it is proper, everything it names is
/// evidence that the run can give, and no item names an event twice. (The stream of the run has to
/// stand where the run was planned: else the run is stale.)
pub proof fn results_can_be_committed(
    store: MemoryStoreModel,
    run_id: Text,
    result: ObserverResultModel,
    key: Text,
    stamp: StampModel,
)
    requires
        key_unused(store, key),
        !blank(key),
        !blank(run_id),
        run_at(store, run_id) is Some,
        stream_at(store, run_at(store, run_id).unwrap().stream_id) matches Some(stream)
            && stream.observed_through_sequence == run_at(store, run_id).unwrap().cursor_at_plan,
        ids_are_new(store, result, stamp.ids),
        events_differ(store),
        forall|k: int|
            0 <= k < store.views.len() ==> (#[trigger] store.views[k]).view.generation < i64::MAX,
    ensures
        commit_step(store, run_id, result, key, stamp).1 is Ok <==> {
            &&& run_at(store, run_id).unwrap().status is Pending
            &&& is_proper(result)
            &&& names_each_once(result)
            &&& forall|id: Text| #[trigger]
                names(result, id) ==> is_run_evidence(store, run_at(store, run_id).unwrap(), id)
        },
{
    let run = run_at(store, run_id).unwrap();
    unused_key_is_free(
        store,
        key,
        "observation.commit"@,
        request_hash("observation.commit"@, commit_request(run_id, result)),
    );
    proper_results_are_accepted(result);
    let sources = events_between(
        store,
        run.stream_id,
        run.from_sequence as int,
        run.to_sequence as int,
    );
    let check = evidence_refusal(sources);
    let ids = named_evidence(result);
    first_error_none(ids, check);
    let observed = result.observations.len() as int;
    let first = stamp.ids.subrange(0, observed);
    let second = stamp.ids.subrange(observed, observed + result.claims.len());
    assert(observation_ids_new(store, first)) by {
        assert forall|n: int| 0 <= n < first.len() implies !some_row(
            store.observations,
            observation_named(#[trigger] first[n]),
        ) by {
            assert(first[n] == stamp.ids[n]);
            if some_row(store.observations, observation_named(first[n])) {
                let k = choose|k: int|
                    0 <= k < store.observations.len() && (observation_named(first[n]))(
                        #[trigger] store.observations[k],
                    );
                assert(store.observations[k].id != stamp.ids[n]);
            }
        }
        assert forall|a: int, b: int| 0 <= a < first.len() && 0 <= b < first.len() && a
            != b implies first[a] != first[b] by {
            assert(stamp.ids[a] != stamp.ids[b]);
        }
    }
    assert(claim_ids_new(store, second)) by {
        assert forall|n: int| 0 <= n < second.len() implies !some_row(
            store.claims,
            claim_named(#[trigger] second[n]),
        ) by {
            assert(second[n] == stamp.ids[observed + n]);
            if some_row(store.claims, claim_named(second[n])) {
                let k = choose|k: int|
                    0 <= k < store.claims.len() && (claim_named(second[n]))(
                        #[trigger] store.claims[k],
                    );
                assert(store.claims[k].id != stamp.ids[observed + n]);
            }
        }
        assert forall|a: int, b: int| 0 <= a < second.len() && 0 <= b < second.len() && a
            != b implies second[a] != second[b] by {
            assert(stamp.ids[observed + a] != stamp.ids[observed + b]);
        }
    }
    assert(!some_row(store.views, view_named(stamp.ids.last()))) by {
        if some_row(store.views, view_named(stamp.ids.last())) {
            let k = choose|k: int|
                0 <= k < store.views.len() && (view_named(stamp.ids.last()))(
                    #[trigger] store.views[k],
                );
            assert(store.views[k].view.id != stamp.ids[stamp.ids.len() - 1]);
        }
    }
    latest_view_is_the_highest(store, run.stream_id, ViewKind::Continuation);
    if let Some(row) = latest_view(store, run.stream_id, ViewKind::Continuation) {
        let k = choose|k: int| 0 <= k < store.views.len() && store.views[k] == row;
        assert(store.views[k].view.generation < i64::MAX);
    }
    if forall|id: Text| #[trigger]
        names(result, id) ==> is_run_evidence(store, run, id) {
        assert forall|n: int| 0 <= n < ids.len() implies check(#[trigger] ids[n]) is None by {
            assert(ids.contains(ids[n]));
            listed_events_are_named(result, ids[n]);
            run_evidence_is_accepted(store, run, ids[n]);
        }
    }
    if first_error(ids, check) is None {
        assert forall|id: Text| #[trigger] names(result, id) implies is_run_evidence(
            store,
            run,
            id,
        ) by {
            named_events_are_listed(result, id);
            let n = choose|n: int| 0 <= n < ids.len() && ids[n] == id;
            assert(check(ids[n]) is None);
            run_evidence_is_accepted(store, run, id);
        }
    }
    if !observations_repeat(result.observations) && !claims_repeat(result.claims) {
        assert forall|i: int| 0 <= i < result.observations.len() implies (
        #[trigger] result.observations[i]).source_event_ids.no_duplicates() by {}
        assert forall|i: int| 0 <= i < result.claims.len() implies (
        #[trigger] result.claims[i]).source_event_ids.no_duplicates() by {}
    }
}

} // verus!
