//! Idempotency: looking up and recording completed operations.

use vstd::prelude::*;

use crate::error::{failure, invalid, ErrorModel, KernelError, KernelErrorKind};
use crate::row::{
    MemoryStore, MemoryStoreModel, OperationRow, OperationRowModel, StoredResult, StoredResultModel,
};
use crate::table::{find_row, first_where, push_row, Duplicate, RowTest};
use crate::text::{blank, concat2, concat4, is_blank, same_text, Text};

verus! {

/// What is known of an idempotency key.
pub enum PriorModel {
    /// The key has not been used.
    Fresh,
    /// The key cannot be used for this request.
    Refused(ErrorModel),
    /// The request was carried out before, with this result.
    Known(StoredResultModel),
}

pub enum Prior {
    Fresh,
    Refused(KernelError),
    Known(StoredResult),
}

impl View for Prior {
    type V = PriorModel;

    open spec fn view(&self) -> PriorModel {
        match self {
            Prior::Fresh => PriorModel::Fresh,
            Prior::Refused(error) => PriorModel::Refused(error@),
            Prior::Known(result) => PriorModel::Known(result@),
        }
    }
}

pub open spec fn operation_keyed(key: Text) -> spec_fn(OperationRowModel) -> bool {
    |row: OperationRowModel| row.key == key
}

pub open spec fn conflict(message: Text) -> ErrorModel {
    failure(KernelErrorKind::IdempotencyConflict, message)
}

pub open spec fn purged(message: Text) -> ErrorModel {
    failure(KernelErrorKind::PrivacyPurged, message)
}

/// What an idempotency key answers to a request: nothing before its first use, the stored result
/// for the same request of the same operation, and a refusal for any other request or where the
/// result was purged.
pub open spec fn prior(
    store: MemoryStoreModel,
    key: Text,
    operation: Text,
    hash: Text,
) -> PriorModel {
    match first_where(store.operations, operation_keyed(key)) {
        None => PriorModel::Fresh,
        Some(row) => if row.operation != operation {
            PriorModel::Refused(
                conflict(
                    "idempotency key was already used for "@ + row.operation + ", not "@ + operation,
                ),
            )
        } else {
            match (row.result, row.request_hash) {
                (None, _) => PriorModel::Refused(
                    purged("the prior result for this idempotency key was privacy-purged"@),
                ),
                (Some(_), None) => PriorModel::Refused(
                    purged("the prior request for this idempotency key was privacy-purged"@),
                ),
                (Some(result), Some(known)) => if known != hash {
                    PriorModel::Refused(
                        conflict(
                            "idempotency conflict: this key was already used with different request input"@,
                        ),
                    )
                } else {
                    PriorModel::Known(result)
                },
            }
        },
    }
}

/// The memory after an operation has been recorded under its key.
pub open spec fn saved(
    store: MemoryStoreModel,
    key: Text,
    operation: Text,
    hash: Text,
    result: StoredResultModel,
) -> MemoryStoreModel {
    MemoryStoreModel {
        operations: store.operations.push(
            OperationRowModel { key, operation, request_hash: Some(hash), result: Some(result) },
        ),
        ..store
    }
}

/// The error for a stored result that belongs to another kind of operation.
pub open spec fn unreadable(key: Text) -> ErrorModel {
    invalid("reading stored result for idempotency key "@ + key)
}

/// The error for a required text that is blank, if it is.
pub open spec fn required(name: Text, value: Text) -> Option<ErrorModel> {
    if blank(value) {
        Some(invalid(name + " cannot be empty"@))
    } else {
        None
    }
}

pub fn unreadable_error(key: &str) -> (error: KernelError)
    ensures
        error@ == unreadable(key@),
{
    KernelError::of(
        KernelErrorKind::InvalidInput,
        concat2("reading stored result for idempotency key ", key),
    )
}

/// Refuses a blank text.
pub fn validate_nonempty(name: &str, value: &str) -> (result: Result<(), KernelError>)
    ensures
        match result {
            Ok(_) => required(name@, value@) is None,
            Err(error) => required(name@, value@) == Some(error@),
        },
{
    if is_blank(value) {
        Err(KernelError::of(KernelErrorKind::InvalidInput, concat2(name, " cannot be empty")))
    } else {
        Ok(())
    }
}

pub struct OperationKeyed<'a> {
    pub key: &'a str,
}

impl<'a> RowTest<OperationRow> for OperationKeyed<'a> {
    open spec fn accepts(&self) -> spec_fn(OperationRowModel) -> bool {
        operation_keyed(self.key@)
    }

    fn test(&self, row: &OperationRow) -> (b: bool) {
        same_text(row.key.as_str(), self.key)
    }
}

impl MemoryStore {
    /// Looks an idempotency key up.
    pub fn prior_result(&self, key: &str, operation: &str, hash: &str) -> (found: Prior)
        ensures
            found@ == prior(self@, key@, operation@, hash@),
    {
        match find_row(&self.operations, &OperationKeyed { key }) {
            None => Prior::Fresh,
            Some(i) => {
                let row: &OperationRow = &self.operations[i];
                if !same_text(row.operation.as_str(), operation) {
                    return Prior::Refused(
                        KernelError::of(
                            KernelErrorKind::IdempotencyConflict,
                            concat4(
                                "idempotency key was already used for ",
                                row.operation.as_str(),
                                ", not ",
                                operation,
                            ),
                        ),
                    );
                }
                match (&row.result, &row.request_hash) {
                    (None, _) => Prior::Refused(
                        KernelError::privacy_purged(
                            "the prior result for this idempotency key was privacy-purged",
                        ),
                    ),
                    (Some(_), None) => Prior::Refused(
                        KernelError::privacy_purged(
                            "the prior request for this idempotency key was privacy-purged",
                        ),
                    ),
                    (Some(result), Some(known)) => if !same_text(known.as_str(), hash) {
                        Prior::Refused(
                            KernelError::idempotency_conflict(
                                "idempotency conflict: this key was already used with different request input",
                            ),
                        )
                    } else {
                        Prior::Known(result.duplicate())
                    },
                }
            },
        }
    }

    /// Records a completed operation.
    pub(crate) fn save_operation(
        &mut self,
        key: &str,
        operation: &str,
        hash: &str,
        result: StoredResult,
    )
        ensures
            final(self)@ == saved(old(self)@, key@, operation@, hash@, result@),
    {
        let row = OperationRow {
            key: key.to_owned(),
            operation: operation.to_owned(),
            request_hash: Some(hash.to_owned()),
            result: Some(result),
        };
        push_row(&mut self.operations, row);
    }
}

} // verus!
