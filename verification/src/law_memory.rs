//! The law that holds all invariants of the memory together.

use vstd::prelude::*;

use crate::law_claim::{claims_sound, claims_start_sound, claims_stay_sound, hashes_differ};
use crate::law_event::{
    events_sound, events_stay_sound, sequences_sound, sequences_start_sound, sequences_stay_sound,
};
use crate::law_index::{index_sound, index_starts_sound, index_stays_sound};
use crate::law_observation::{runs_sound, runs_start_sound, runs_stay_sound};
use crate::law_scope::{hierarchy_sound, hierarchy_starts_sound, hierarchy_stays_sound};
use crate::law_source::{provenance_starts_sound, provenance_stays_sound, sourced};
use crate::row::MemoryStoreModel;
use crate::stamp::StampModel;
use crate::store::empty_store;
use crate::transition::{stamped, step, Request};

verus! {

/// Whether a memory is sound in every respect.
pub open spec fn sound(store: MemoryStoreModel) -> bool {
    &&& hierarchy_sound(store.scopes)
    &&& events_sound(store)
    &&& sequences_sound(store)
    &&& runs_sound(store)
    &&& claims_sound(store)
    &&& sourced(store)
    &&& index_sound(store)
}

/// A memory starts sound.
pub proof fn memory_starts_sound()
    ensures
        sound(empty_store()),
{
    hierarchy_starts_sound();
    sequences_start_sound();
    runs_start_sound();
    claims_start_sound();
    provenance_starts_sound();
    index_starts_sound();
}

/// Every request leaves a sound memory sound. (A confirmation needs that the hashes of the stored
/// values differ where the values do.)
pub proof fn memory_stays_sound(store: MemoryStoreModel, request: Request, stamp: StampModel)
    requires
        stamped(request, stamp),
        sound(store),
        request is ConfirmClaim ==> hashes_differ(store),
    ensures
        sound(step(store, request, stamp).0),
{
    hierarchy_stays_sound(store, request, stamp);
    events_stay_sound(store, request, stamp);
    sequences_stay_sound(store, request, stamp);
    runs_stay_sound(store, request, stamp);
    claims_stay_sound(store, request, stamp);
    provenance_stays_sound(store, request, stamp);
    index_stays_sound(store, request, stamp);
}

} // verus!
