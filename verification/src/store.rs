//! The whole memory: starting it, and the version of its stored form.

use vstd::prelude::*;

use crate::error::{invalid, seen, ErrorModel, KernelError, KernelErrorKind};
use crate::row::MemoryStoreModel;
use crate::text::{concat3, decimal, number_text};

pub use crate::model::CreateView;
pub use crate::row::MemoryStore;

verus! {

/// The version of the stored form of a memory.
pub const SCHEMA_VERSION: i64 = 5;

/// The memory before anything was recorded.
pub open spec fn empty_store() -> MemoryStoreModel {
    MemoryStoreModel {
        scopes: Seq::empty(),
        streams: Seq::empty(),
        events: Seq::empty(),
        runs: Seq::empty(),
        observations: Seq::empty(),
        observation_sources: Seq::empty(),
        claims: Seq::empty(),
        claim_sources: Seq::empty(),
        claim_slots: Seq::empty(),
        views: Seq::empty(),
        view_sources: Seq::empty(),
        index: Seq::empty(),
        operations: Seq::empty(),
    }
}

impl MemoryStore {
    pub fn new() -> (store: Self)
        ensures
            store@ == empty_store(),
    {
        let store = MemoryStore {
            scopes: Vec::new(),
            streams: Vec::new(),
            events: Vec::new(),
            runs: Vec::new(),
            observations: Vec::new(),
            observation_sources: Vec::new(),
            claims: Vec::new(),
            claim_sources: Vec::new(),
            claim_slots: Vec::new(),
            views: Vec::new(),
            view_sources: Vec::new(),
            index: Vec::new(),
            operations: Vec::new(),
        };
        proof {
            assert(store@ =~= empty_store());
        }
        store
    }
}

/// Whether a database has to be set up (`true`) or can be used as it is, or the error for one
/// that belongs to something else.
pub open spec fn schema_decision(version: i64, has_objects: bool) -> Result<bool, ErrorModel> {
    if version != 0 && version != SCHEMA_VERSION {
        Err(
            invalid(
                "database schema version "@ + decimal(version as int)
                    + " is incompatible with OMK schema version 5; start with a fresh database"@,
            ),
        )
    } else if version == 0 && has_objects {
        Err(invalid("unversioned database is not empty; start with a fresh database"@))
    } else {
        Ok(version == 0)
    }
}

/// Decides what to do with a database when it is opened.
pub fn check_schema(version: i64, has_objects: bool) -> (decision: Result<bool, KernelError>)
    ensures
        seen(decision) == schema_decision(version, has_objects),
{
    if version != 0 && version != SCHEMA_VERSION {
        return Err(
            KernelError::of(
                KernelErrorKind::InvalidInput,
                concat3(
                    "database schema version ",
                    number_text(version as i128).as_str(),
                    " is incompatible with OMK schema version 5; start with a fresh database",
                ),
            ),
        );
    }
    if version == 0 && has_objects {
        return Err(
            KernelError::invalid_input(
                "unversioned database is not empty; start with a fresh database",
            ),
        );
    }
    Ok(version == 0)
}

} // verus!
