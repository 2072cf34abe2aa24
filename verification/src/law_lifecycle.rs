//! Laws of the life of a claim: what stating, confirming, correcting, moving, closing and
//! reconciling claims makes of them.

use vstd::prelude::*;

use crate::claim::{
    close_step, confirm_step, correct_step, direct_step, moved, normalized, proposed, remembered,
    requested_slot, rescope_step,
};
use crate::claim_table::{
    active_member, active_single, claim_at, claim_named, linked_all, member_of, slot_of, sources_of,
    with_patch,
};
use crate::digest::json_hash;
use crate::json::{same_json, searchable};
use crate::kind::{
    ClaimAuthority, ClaimCardinality, ClaimKind, ClaimModality, ClaimStatus,
};
use crate::law_claim::{claims_sound, member_is_found};
use crate::law_event::{filtered_position, kept_position};
use crate::law_record::linking_adds_the_sources;
use crate::model::ClaimModel;
use crate::row::{ClaimRequestModel, IndexRowModel, LinkModel, MemoryStoreModel};
use crate::score::Real;
use crate::stamp::StampModel;
use crate::table::first_where_at;
use crate::text::{trimmed, Text};

verus! {

/// Whether two claims are about the same thing: they agree in scope, kind, subject and predicate.
pub open spec fn same_place(left: ClaimModel, right: ClaimModel) -> bool {
    &&& left.scope_id == right.scope_id
    &&& left.kind == right.kind
    &&& left.subject == right.subject
    &&& left.predicate == right.predicate
}

/// Whether a claim stands in the way of another one's becoming active: it is active, about the
/// same thing and as many-valued, and where the thing has many values, it has the same one.
pub open spec fn in_the_way(claim: ClaimModel, new: ClaimModel) -> bool {
    &&& claim.status is Active
    &&& same_place(claim, new)
    &&& claim.cardinality == new.cardinality
    &&& new.cardinality is Single || claim.value_hash == new.value_hash
}

/// A claim whose status was changed, and nothing else but the time of the change.
pub open spec fn with_status(claim: ClaimModel, status: ClaimStatus, at: Text) -> ClaimModel {
    ClaimModel { status, updated_at: at, ..claim }
}

/// The sources of a record are those that it is linked to.
pub proof fn sources_are_the_linked(links: Seq<LinkModel>, holder_id: Text, source_id: Text)
    ensures
        sources_of(links, holder_id).contains(source_id) <==> links.contains(
            LinkModel { holder_id, source_id },
        ),
{
    let accepts = crate::claim_table::held_by(holder_id);
    let rows = links.filter(accepts);
    let sources = sources_of(links, holder_id);
    if sources.contains(source_id) {
        let k = choose|k: int| 0 <= k < sources.len() && sources[k] == source_id;
        let at = filtered_position(links, accepts, k);
        assert(links[at] == LinkModel { holder_id, source_id });
    }
    if links.contains(LinkModel { holder_id, source_id }) {
        let at = choose|at: int|
            0 <= at < links.len() && links[at] == LinkModel { holder_id, source_id };
        assert(accepts(links[at]));
        let k = kept_position(links, accepts, at);
        assert(sources[k] == source_id);
    }
}

proof fn one_is_contained(id: Text, other: Text)
    ensures
        seq![id].contains(other) <==> id == other,
{
    assert(seq![id][0] == id);
}

/// The active claim that is looked up for a new one stands in its way, and where none is found none does.
pub proof fn member_stands_in_the_way(store: MemoryStoreModel, new: ClaimModel)
    ensures
        match member_of(store, slot_of(new), new.value_hash) {
            Some(member) => store.claims.contains(member) && in_the_way(member, new),
            None => forall|i: int|
                0 <= i < store.claims.len() ==> !in_the_way(#[trigger] store.claims[i], new),
        },
{
    member_is_found(store, slot_of(new), new.value_hash);
    if member_of(store, slot_of(new), new.value_hash) is None {
        assert forall|i: int| 0 <= i < store.claims.len() implies !in_the_way(
            #[trigger] store.claims[i],
            new,
        ) by {
            assert(!(active_member(slot_of(new), new.value_hash))(store.claims[i]));
        }
    }
}

/// Remembering asks for an active claim that the user asserts; proposing asks for a pending one
/// that the user proposes. Both say what they were given.
pub proof fn claim_requests_say_what_was_given(
    scope_id: Text,
    kind: ClaimKind,
    subject: Text,
    predicate: Text,
    cardinality: ClaimCardinality,
    value: Text,
    source_event_ids: Seq<Text>,
)
    ensures
        ({
            let stated = remembered(
                scope_id,
                kind,
                subject,
                predicate,
                cardinality,
                value,
                source_event_ids,
            );
            let offered = proposed(
                scope_id,
                kind,
                subject,
                predicate,
                cardinality,
                value,
                source_event_ids,
            );
            &&& stated.scope_id == scope_id && offered.scope_id == scope_id
            &&& stated.kind == kind && offered.kind == kind
            &&& stated.subject == subject && offered.subject == subject
            &&& stated.predicate == predicate && offered.predicate == predicate
            &&& stated.cardinality == cardinality && offered.cardinality == cardinality
            &&& stated.value == value && offered.value == value
            &&& stated.source_event_ids == source_event_ids && offered.source_event_ids
                == source_event_ids
            &&& stated.authority is ExplicitUser && offered.authority is ExplicitUser
            &&& stated.status is Active && offered.status is Pending
            &&& stated.modality is ExplicitAssertion && offered.modality is Proposal
            &&& stated.operation == "claim.remember"@ && offered.operation == "claim.propose"@
        }),
{
}

/// The claim that a request is for, before it is known how it stands.
pub open spec fn wanted_claim(request: ClaimRequestModel, stamp: StampModel) -> ClaimModel {
    ClaimModel {
        id: stamp.ids[1],
        origin_run_id: None,
        scope_id: request.scope_id,
        kind: request.kind,
        subject: trimmed(request.subject),
        predicate: trimmed(request.predicate),
        cardinality: request.cardinality,
        value: request.value,
        value_hash: json_hash(request.value),
        modality: request.modality,
        status: request.status,
        authority: request.authority,
        confidence: Real { bits: 0x3ff0_0000_0000_0000 },
        supersedes_id: None,
        created_at: stamp.at,
        updated_at: stamp.at,
    }
}

/// What a request for a claim makes. A proposal, and a statement that nothing stands in the way of,
/// become a claim as they were asked for. A statement that an active claim stands in the way of
/// becomes a disputed claim where that one has another value; where it has the same value, it is
/// the answer and no claim is added. The claims that were there stay as they are, and the claim of
/// the answer rests on the evidence of the request and on the command.
pub proof fn stated_claim_is_recorded(
    store: MemoryStoreModel,
    request: ClaimRequestModel,
    key: Text,
    stamp: StampModel,
)
    requires
        stamp.ids.len() == 2,
        direct_step(store, request, key, stamp).1 matches Ok(done) && !done.replayed,
    ensures
        ({
            let (after, answer) = direct_step(store, request, key, stamp);
            let claim = answer->Ok_0.data;
            let wanted = wanted_claim(request, stamp);
            let blocked = request.status is Active && exists|i: int|
                0 <= i < store.claims.len() && in_the_way(#[trigger] store.claims[i], wanted);
            &&& !blocked ==> claim == wanted && after.claims == store.claims.push(claim)
            &&& blocked ==> exists|i: int|
                0 <= i < store.claims.len() && in_the_way(#[trigger] store.claims[i], wanted) && if same_json(
                    store.claims[i].value,
                    request.value,
                ) {
                    claim == store.claims[i] && after.claims == store.claims
                } else {
                    claim == (ClaimModel { status: ClaimStatus::Disputed, ..wanted })
                        && after.claims == store.claims.push(claim)
                }
            &&& claim.id == wanted.id && after.claims != store.claims ==> after.index.contains(
                IndexRowModel {
                    record_type: "claim"@,
                    record_id: claim.id,
                    scope_id: claim.scope_id,
                    text: claim.subject + " "@ + claim.predicate + " "@ + searchable(claim.value),
                },
            )
            &&& forall|link: LinkModel|
                #[trigger] after.claim_sources.contains(link) <==> store.claim_sources.contains(
                    link,
                ) || (link.holder_id == claim.id && (request.source_event_ids.contains(
                    link.source_id,
                ) || link.source_id == stamp.ids[0]))
            &&& after.scopes == store.scopes
            &&& after.runs == store.runs
            &&& after.observations == store.observations
            &&& after.observation_sources == store.observation_sources
            &&& after.views == store.views
            &&& after.view_sources == store.view_sources
        }),
{
    let (after, answer) = direct_step(store, request, key, stamp);
    let claim = answer->Ok_0.data;
    let wanted = wanted_claim(request, stamp);
    assert(slot_of(wanted) == requested_slot(normalized(request)));
    member_stands_in_the_way(store, wanted);
    let active = member_of(store, slot_of(wanted), wanted.value_hash);
    if request.status is Active && active is Some {
        let i = choose|i: int| 0 <= i < store.claims.len() && store.claims[i] == active.unwrap();
        assert(in_the_way(store.claims[i], wanted));
        if !same_json(store.claims[i].value, request.value) {
            assert(claim == (ClaimModel { status: ClaimStatus::Disputed, ..wanted }));
        }
    } else {
        assert(claim == wanted);
    }
    let first = linked_all(store.claim_sources, claim.id, request.source_event_ids);
    assert(after.claim_sources == linked_all(first, claim.id, seq![stamp.ids[0]]));
    assert forall|link: LinkModel|
        #[trigger] after.claim_sources.contains(link) <==> store.claim_sources.contains(link) || (
        link.holder_id == claim.id && (request.source_event_ids.contains(link.source_id)
            || link.source_id == stamp.ids[0])) by {
        linking_adds_the_sources(
            store.claim_sources,
            claim.id,
            request.source_event_ids,
            link,
        );
        linking_adds_the_sources(first, claim.id, seq![stamp.ids[0]], link);
        one_is_contained(stamp.ids[0], link.source_id);
    }
    if after.claims != store.claims {
        assert(after.index.last() == crate::claim_table::claim_index_row(claim));
        assert(after.index[after.index.len() - 1] == after.index.last());
    }
}

proof fn asked_claim_is_at(store: MemoryStoreModel, id: Text, i: int)
    requires
        claims_sound(store),
        0 <= i < store.claims.len(),
        store.claims[i].id == id,
    ensures
        claim_at(store, id) == Some(store.claims[i]),
{
    let accepts = claim_named(id);
    assert forall|k: int| 0 <= k < i implies !accepts(#[trigger] store.claims[k]) by {
        assert(store.claims[k].id != store.claims[i].id);
    }
    first_where_at(store.claims, accepts, i);
}

/// Whether the evidence of one claim, and a command, is evidence of another one too, and no other
/// link was added.
pub open spec fn evidence_moved(
    before: Seq<LinkModel>,
    after: Seq<LinkModel>,
    from: Text,
    to: Text,
    event_id: Text,
) -> bool {
    forall|link: LinkModel|
        #[trigger] after.contains(link) <==> before.contains(link) || (link.holder_id == to && (
        link.source_id == event_id || before.contains(
            LinkModel { holder_id: from, source_id: link.source_id },
        )))
}

/// Whether a command is evidence of a claim, and no other link was added.
pub open spec fn evidence_added(
    before: Seq<LinkModel>,
    after: Seq<LinkModel>,
    to: Text,
    event_id: Text,
) -> bool {
    forall|link: LinkModel|
        #[trigger] after.contains(link) <==> before.contains(link) || (link.holder_id == to
            && link.source_id == event_id)
}

proof fn copying_moves_evidence(links: Seq<LinkModel>, from: Text, to: Text, event_id: Text)
    ensures
        evidence_moved(
            links,
            linked_all(
                linked_all(links, to, sources_of(links, from)),
                to,
                seq![event_id],
            ),
            from,
            to,
            event_id,
        ),
{
    let copied = linked_all(links, to, sources_of(links, from));
    let after = linked_all(copied, to, seq![event_id]);
    assert forall|link: LinkModel|
        #[trigger] after.contains(link) <==> links.contains(link) || (link.holder_id == to && (
        link.source_id == event_id || links.contains(
            LinkModel { holder_id: from, source_id: link.source_id },
        ))) by {
        linking_adds_the_sources(links, to, sources_of(links, from), link);
        linking_adds_the_sources(copied, to, seq![event_id], link);
        one_is_contained(event_id, link.source_id);
        sources_are_the_linked(links, from, link.source_id);
    }
}

proof fn commanding_adds_evidence(links: Seq<LinkModel>, to: Text, event_id: Text)
    ensures
        evidence_added(links, linked_all(links, to, seq![event_id]), to, event_id),
{
    let after = linked_all(links, to, seq![event_id]);
    assert forall|link: LinkModel|
        #[trigger] after.contains(link) <==> links.contains(link) || (link.holder_id == to
            && link.source_id == event_id) by {
        linking_adds_the_sources(links, to, seq![event_id], link);
        one_is_contained(event_id, link.source_id);
    }
}

/// What confirming a claim makes of it. Only a pending or disputed claim can be confirmed. Where an
/// active claim already says the same, that one is the answer and takes over the evidence, and the
/// confirmed one is rejected. Else the claim becomes active as an accepted decision of the user,
/// and every other active claim of the same single-valued thing is superseded. All other claims
/// stay as they are.
pub proof fn confirmed_claim_is_active(
    store: MemoryStoreModel,
    claim_id: Text,
    key: Text,
    stamp: StampModel,
    i: int,
)
    requires
        claims_sound(store),
        stamp.ids.len() == 1,
        confirm_step(store, claim_id, key, stamp).1 matches Ok(done) && !done.replayed,
        0 <= i < store.claims.len(),
        store.claims[i].id == claim_id,
    ensures
        ({
            let (after, answer) = confirm_step(store, claim_id, key, stamp);
            let asked = store.claims[i];
            let claim = answer->Ok_0.data;
            let repeated = exists|j: int|
                0 <= j < store.claims.len() && in_the_way(#[trigger] store.claims[j], asked)
                    && same_json(store.claims[j].value, asked.value);
            &&& asked.status is Pending || asked.status is Disputed
            &&& after.claims.len() == store.claims.len()
            &&& claim.id != claim_id ==> {
                &&& repeated
                &&& store.claims.contains(claim)
                &&& in_the_way(claim, asked)
                &&& same_json(claim.value, asked.value)
                &&& evidence_moved(
                    store.claim_sources,
                    after.claim_sources,
                    claim_id,
                    claim.id,
                    stamp.ids[0],
                )
                &&& forall|k: int|
                    0 <= k < store.claims.len() ==> #[trigger] after.claims[k] == if k == i {
                        with_status(asked, ClaimStatus::Rejected, stamp.at)
                    } else {
                        store.claims[k]
                    }
            }
            &&& claim.id == claim_id ==> {
                &&& claim == (ClaimModel {
                    status: ClaimStatus::Active,
                    modality: ClaimModality::AcceptedDecision,
                    authority: ClaimAuthority::ExplicitUser,
                    updated_at: stamp.at,
                    ..asked
                })
                &&& evidence_added(
                    store.claim_sources,
                    after.claim_sources,
                    claim_id,
                    stamp.ids[0],
                )
                &&& forall|k: int|
                    0 <= k < store.claims.len() ==> #[trigger] after.claims[k] == if k == i {
                        claim
                    } else if asked.cardinality is Single && store.claims[k].status is Active
                        && same_place(store.claims[k], asked) {
                        with_status(store.claims[k], ClaimStatus::Superseded, stamp.at)
                    } else {
                        store.claims[k]
                    }
            }
            &&& asked.cardinality is Single && repeated ==> claim.id != claim_id
        }),
{
    let (after, answer) = confirm_step(store, claim_id, key, stamp);
    let asked = store.claims[i];
    let claim = answer->Ok_0.data;
    asked_claim_is_at(store, claim_id, i);
    member_stands_in_the_way(store, asked);
    let active = member_of(store, slot_of(asked), asked.value_hash);
    if active is Some && same_json(active.unwrap().value, asked.value) {
        let j = choose|j: int| 0 <= j < store.claims.len() && store.claims[j] == active.unwrap();
        assert(in_the_way(store.claims[j], asked));
        if j < i {
            assert(store.claims[j].id != store.claims[i].id);
        } else if i < j {
            assert(store.claims[i].id != store.claims[j].id);
        }
        copying_moves_evidence(store.claim_sources, claim_id, claim.id, stamp.ids[0]);
        assert forall|k: int| 0 <= k < store.claims.len() implies #[trigger] after.claims[k] == if k
            == i {
            with_status(asked, ClaimStatus::Rejected, stamp.at)
        } else {
            store.claims[k]
        } by {
            if k < i {
                assert(store.claims[k].id != store.claims[i].id);
            } else if i < k {
                assert(store.claims[i].id != store.claims[k].id);
            }
        }
    } else {
        commanding_adds_evidence(store.claim_sources, claim_id, stamp.ids[0]);
        assert forall|k: int| 0 <= k < store.claims.len() implies #[trigger] after.claims[k] == if k
            == i {
            claim
        } else if asked.cardinality is Single && store.claims[k].status is Active && same_place(
            store.claims[k],
            asked,
        ) {
            with_status(store.claims[k], ClaimStatus::Superseded, stamp.at)
        } else {
            store.claims[k]
        } by {
            if k < i {
                assert(store.claims[k].id != store.claims[i].id);
            } else if i < k {
                assert(store.claims[i].id != store.claims[k].id);
            }
        }
        if asked.cardinality is Single && exists|j: int|
            0 <= j < store.claims.len() && in_the_way(#[trigger] store.claims[j], asked)
                && same_json(store.claims[j].value, asked.value) {
            let j = choose|j: int|
                0 <= j < store.claims.len() && in_the_way(#[trigger] store.claims[j], asked)
                    && same_json(store.claims[j].value, asked.value);
            let m = choose|m: int| 0 <= m < store.claims.len() && store.claims[m]
                == active.unwrap();
            if j != m {
                assert(crate::law_claim::compatible(store.claims[j], store.claims[m]));
            }
        }
    }
}

/// What rejecting or forgetting a claim makes of it: a pending or disputed claim is rejected, and
/// one of these or an active one that is forgotten expires. It is the answer, it keeps what it
/// says, and all other claims stay as they are.
pub proof fn closed_claim_is_closed(
    store: MemoryStoreModel,
    claim_id: Text,
    forget: bool,
    key: Text,
    stamp: StampModel,
    i: int,
)
    requires
        claims_sound(store),
        stamp.ids.len() == 1,
        close_step(store, claim_id, forget, key, stamp).1 matches Ok(done) && !done.replayed,
        0 <= i < store.claims.len(),
        store.claims[i].id == claim_id,
    ensures
        ({
            let (after, answer) = close_step(store, claim_id, forget, key, stamp);
            let asked = store.claims[i];
            let status = if forget {
                ClaimStatus::Expired
            } else {
                ClaimStatus::Rejected
            };
            &&& asked.status is Pending || asked.status is Disputed || (asked.status is Active
                && forget)
            &&& answer->Ok_0.data == with_status(asked, status, stamp.at)
            &&& after.claims == store.claims.update(i, with_status(asked, status, stamp.at))
            &&& after.claim_slots == store.claim_slots
            &&& evidence_added(store.claim_sources, after.claim_sources, claim_id, stamp.ids[0])
        }),
{
    let (after, answer) = close_step(store, claim_id, forget, key, stamp);
    let asked = store.claims[i];
    asked_claim_is_at(store, claim_id, i);
    commanding_adds_evidence(store.claim_sources, claim_id, stamp.ids[0]);
    let status = if forget {
        ClaimStatus::Expired
    } else {
        ClaimStatus::Rejected
    };
    let expected = store.claims.update(i, with_status(asked, status, stamp.at));
    assert forall|k: int| 0 <= k < store.claims.len() implies #[trigger] after.claims[k]
        == expected[k] by {
        if k < i {
            assert(store.claims[k].id != store.claims[i].id);
        } else if i < k {
            assert(store.claims[i].id != store.claims[k].id);
        }
    }
    assert(after.claims =~= expected);
}

/// What correcting a claim makes: the old claim is superseded, and with it every active claim of
/// the same single-valued thing; all other claims stay as they are. Unless another member of the
/// set already has the value, a new claim is added and answered that says of the same thing, in the
/// same scope, what the user asserts now, and rests on the evidence of the correction and on the
/// command.
pub proof fn corrected_claim_is_replaced(
    store: MemoryStoreModel,
    claim_id: Text,
    value: Text,
    event_ids: Seq<Text>,
    key: Text,
    stamp: StampModel,
    i: int,
)
    requires
        claims_sound(store),
        stamp.ids.len() == 2,
        correct_step(store, claim_id, value, event_ids, key, stamp).1 matches Ok(done)
            && !done.replayed,
        0 <= i < store.claims.len(),
        store.claims[i].id == claim_id,
    ensures
        ({
            let (after, answer) = correct_step(store, claim_id, value, event_ids, key, stamp);
            let asked = store.claims[i];
            let claim = answer->Ok_0.data;
            let wanted = ClaimModel {
                id: stamp.ids[1],
                origin_run_id: None,
                value,
                value_hash: json_hash(value),
                modality: ClaimModality::ExplicitAssertion,
                status: ClaimStatus::Active,
                authority: ClaimAuthority::ExplicitUser,
                confidence: Real { bits: 0x3ff0_0000_0000_0000 },
                supersedes_id: Some(claim_id),
                created_at: stamp.at,
                updated_at: stamp.at,
                ..asked
            };
            let member = asked.cardinality is SetValued && exists|j: int|
                0 <= j < store.claims.len() && j != i && in_the_way(
                    #[trigger] store.claims[j],
                    wanted,
                );
            &&& forall|k: int|
                0 <= k < store.claims.len() ==> #[trigger] after.claims[k] == if k == i || (
                asked.cardinality is Single && store.claims[k].cardinality is Single
                    && store.claims[k].status is Active && same_place(store.claims[k], asked)) {
                    with_status(store.claims[k], ClaimStatus::Superseded, stamp.at)
                } else {
                    store.claims[k]
                }
            &&& !member ==> {
                &&& claim == wanted
                &&& after.claims.len() == store.claims.len() + 1
                &&& after.claims.last() == claim
                &&& forall|link: LinkModel|
                    #[trigger] after.claim_sources.contains(link) <==> store.claim_sources.contains(
                        link,
                    ) || (link.holder_id == claim.id && (event_ids.contains(link.source_id)
                        || link.source_id == stamp.ids[0]))
            }
            &&& member ==> {
                &&& after.claims.len() == store.claims.len()
                &&& exists|j: int|
                    0 <= j < store.claims.len() && j != i && in_the_way(
                        #[trigger] store.claims[j],
                        wanted,
                    ) && claim == store.claims[j]
            }
        }),
{
    let (after, answer) = correct_step(store, claim_id, value, event_ids, key, stamp);
    let asked = store.claims[i];
    let claim = answer->Ok_0.data;
    asked_claim_is_at(store, claim_id, i);
    let wanted = crate::claim::correction(asked, value, stamp);
    let slot = slot_of(wanted);
    let superseded = crate::claim::with_superseded(store, asked, stamp.at);
    assert forall|k: int| 0 <= k < store.claims.len() implies #[trigger] superseded.claims[k]
        == if k == i || (asked.cardinality is Single && store.claims[k].cardinality is Single
        && store.claims[k].status is Active && same_place(store.claims[k], asked)) {
        with_status(store.claims[k], ClaimStatus::Superseded, stamp.at)
    } else {
        store.claims[k]
    } by {
        if k < i {
            assert(store.claims[k].id != store.claims[i].id);
        } else if i < k {
            assert(store.claims[i].id != store.claims[k].id);
        }
        if asked.cardinality is Single {
            let patch = crate::claim_table::restated(ClaimStatus::Superseded, stamp.at);
            let cleared = with_patch(store, active_single(slot_of(asked)), patch);
            assert(cleared.claims[k].id == store.claims[k].id);
        }
    }
    member_stands_in_the_way(superseded, wanted);
    match member_of(superseded, slot, wanted.value_hash) {
        Some(existing) => {
            let j = choose|j: int| 0 <= j < superseded.claims.len() && superseded.claims[j]
                == existing;
            assert(superseded.claims[j].status is Active);
            assert(j != i);
            assert(store.claims[j] == existing);
            assert(in_the_way(store.claims[j], wanted));
        },
        None => {
            if asked.cardinality is SetValued && exists|j: int|
                0 <= j < store.claims.len() && j != i && in_the_way(
                    #[trigger] store.claims[j],
                    wanted,
                ) {
                let j = choose|j: int|
                    0 <= j < store.claims.len() && j != i && in_the_way(
                        #[trigger] store.claims[j],
                        wanted,
                    );
                assert(superseded.claims[j] == store.claims[j]);
                assert(!in_the_way(superseded.claims[j], wanted));
            }
            assert(after.claims == superseded.claims.push(wanted));
            let first = linked_all(store.claim_sources, wanted.id, event_ids);
            assert forall|link: LinkModel|
                #[trigger] after.claim_sources.contains(link) <==> store.claim_sources.contains(
                    link,
                ) || (link.holder_id == wanted.id && (event_ids.contains(link.source_id)
                    || link.source_id == stamp.ids[0])) by {
                linking_adds_the_sources(store.claim_sources, wanted.id, event_ids, link);
                linking_adds_the_sources(first, wanted.id, seq![stamp.ids[0]], link);
                one_is_contained(stamp.ids[0], link.source_id);
            }
        },
    }
}

/// What moving a claim to another scope makes: the old claim is superseded, and the answer is a
/// claim of the new scope about the same thing, which rests on the command and on every source of
/// the old claim. From an active claim it is active, and where it is new it has the same value and
/// says which claim it replaces; from any other claim it is a new pending one.
pub proof fn moved_claim_keeps_its_standing(
    store: MemoryStoreModel,
    claim_id: Text,
    new_scope_id: Text,
    key: Text,
    stamp: StampModel,
    i: int,
)
    requires
        claims_sound(store),
        stamp.ids.len() == 2,
        rescope_step(store, claim_id, new_scope_id, key, stamp).1 matches Ok(done)
            && !done.replayed,
        0 <= i < store.claims.len(),
        store.claims[i].id == claim_id,
    ensures
        ({
            let (after, answer) = rescope_step(store, claim_id, new_scope_id, key, stamp);
            let asked = store.claims[i];
            let claim = answer->Ok_0.data;
            let wanted = ClaimModel {
                id: stamp.ids[1],
                scope_id: new_scope_id,
                status: if asked.status is Active {
                    ClaimStatus::Active
                } else {
                    ClaimStatus::Pending
                },
                supersedes_id: Some(claim_id),
                created_at: stamp.at,
                updated_at: stamp.at,
                ..asked
            };
            let held = asked.status is Active && exists|j: int|
                0 <= j < store.claims.len() && j != i && in_the_way(
                    #[trigger] store.claims[j],
                    wanted,
                );
            &&& after.claims.contains(claim)
            &&& claim.scope_id == new_scope_id
            &&& claim.kind == asked.kind
            &&& claim.subject == asked.subject
            &&& claim.predicate == asked.predicate
            &&& claim.cardinality == asked.cardinality
            &&& asked.status is Active ==> claim.status is Active
            &&& !(asked.status is Active) ==> claim.status is Pending
            &&& evidence_moved(
                store.claim_sources,
                after.claim_sources,
                claim_id,
                claim.id,
                stamp.ids[0],
            )
            &&& after.claims[i] == with_status(asked, ClaimStatus::Superseded, stamp.at)
            &&& forall|k: int|
                0 <= k < store.claims.len() && k != i && !(store.claims[k].status is Active
                    && same_place(store.claims[k], wanted)) ==> #[trigger] after.claims[k]
                    == store.claims[k]
            &&& !held ==> claim == wanted && after.claims.len() == store.claims.len() + 1
            &&& held ==> after.claims.len() == store.claims.len() && exists|j: int|
                0 <= j < store.claims.len() && j != i && in_the_way(
                    #[trigger] store.claims[j],
                    wanted,
                ) && claim == store.claims[j]
        }),
{
    let (after, answer) = rescope_step(store, claim_id, new_scope_id, key, stamp);
    let asked = store.claims[i];
    let claim = answer->Ok_0.data;
    asked_claim_is_at(store, claim_id, i);
    let wanted = moved(asked, new_scope_id, stamp);
    let slot = slot_of(wanted);
    let patch = crate::claim_table::restated(ClaimStatus::Superseded, stamp.at);
    let superseded = with_patch(store, claim_named(claim_id), patch);
    assert forall|k: int| 0 <= k < store.claims.len() implies #[trigger] superseded.claims[k]
        == if k == i {
        with_status(asked, ClaimStatus::Superseded, stamp.at)
    } else {
        store.claims[k]
    } by {
        if k < i {
            assert(store.claims[k].id != store.claims[i].id);
        } else if i < k {
            assert(store.claims[i].id != store.claims[k].id);
        }
    }
    copying_moves_evidence(store.claim_sources, claim_id, claim.id, stamp.ids[0]);
    member_stands_in_the_way(superseded, wanted);
    let existing = member_of(superseded, slot, wanted.value_hash);
    if wanted.status is Active && existing is Some {
        let j = choose|j: int| 0 <= j < superseded.claims.len() && superseded.claims[j]
            == existing.unwrap();
        assert(j != i);
        assert(store.claims[j] == claim);
        assert(in_the_way(store.claims[j], wanted));
        assert(after.claims[j] == claim);
    } else {
        assert(after.claims.last() == wanted);
        assert(after.claims[after.claims.len() - 1] == wanted);
        if wanted.status is Active {
            if exists|j: int|
                0 <= j < store.claims.len() && j != i && in_the_way(
                    #[trigger] store.claims[j],
                    wanted,
                ) {
                let j = choose|j: int|
                    0 <= j < store.claims.len() && j != i && in_the_way(
                        #[trigger] store.claims[j],
                        wanted,
                    );
                assert(superseded.claims[j] == store.claims[j]);
                assert(!in_the_way(superseded.claims[j], wanted));
            }
        }
        assert forall|k: int|
            0 <= k < store.claims.len() && k != i && !(store.claims[k].status is Active
                && same_place(store.claims[k], wanted)) implies #[trigger] after.claims[k]
            == store.claims[k] by {
            assert(superseded.claims[k] == store.claims[k]);
        }
        assert(superseded.claims[i].status is Superseded);
    }
}

} // verus!
