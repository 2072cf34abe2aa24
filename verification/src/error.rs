//! The kernel's error type.

use vstd::prelude::*;

use crate::text::Text;

verus! {

/// What went wrong, as a caller needs to know it.
#[derive(Clone, Copy, Debug, PartialEq, Eq, Structural)]
pub enum KernelErrorKind {
    IdempotencyConflict,
    BudgetExceeded,
    StaleView,
    StaleObservationRun,
    PrivacyPurged,
    NotFound,
    ScopeViolation,
    InvalidSearchQuery,
    MissingInput,
    InvalidInput,
}

/// An error of the kernel: its kind, a message for people, and what lies behind it where more is
/// known.
#[derive(Clone, Debug)]
pub struct KernelError {
    kind: KernelErrorKind,
    message: String,
    cause: Option<String>,
}

/// The mathematical content of a `KernelError`.
pub struct ErrorModel {
    pub kind: KernelErrorKind,
    pub message: Text,
    pub cause: Option<Text>,
}

impl View for KernelError {
    type V = ErrorModel;

    closed spec fn view(&self) -> ErrorModel {
        ErrorModel { kind: self.kind, message: self.message@, cause: self.cause.deep_view() }
    }
}

/// A result seen through the views of its value and of its error.
pub open spec fn seen<T: DeepView>(result: Result<T, KernelError>) -> Result<T::V, ErrorModel> {
    match result {
        Ok(value) => Ok(value.deep_view()),
        Err(error) => Err(error@),
    }
}

pub open spec fn failure(kind: KernelErrorKind, message: Text) -> ErrorModel {
    ErrorModel { kind, message, cause: None }
}

/// An error with what lies behind it.
pub open spec fn caused_by(error: ErrorModel, cause: Text) -> ErrorModel {
    ErrorModel { cause: Some(cause), ..error }
}

pub open spec fn invalid(message: Text) -> ErrorModel {
    failure(KernelErrorKind::InvalidInput, message)
}

pub open spec fn missing(message: Text) -> ErrorModel {
    failure(KernelErrorKind::NotFound, message)
}

pub open spec fn violation(message: Text) -> ErrorModel {
    failure(KernelErrorKind::ScopeViolation, message)
}

/// The first error that a check of the items in order finds.
pub open spec fn first_error<V>(
    items: Seq<V>,
    check: spec_fn(V) -> Option<ErrorModel>,
) -> Option<ErrorModel>
    decreases items.len(),
{
    if items.len() == 0 {
        None
    } else if check(items[0]) is Some {
        check(items[0])
    } else {
        first_error(items.drop_first(), check)
    }
}

/// The first error that a check of the items and their positions finds, from one position on.
pub open spec fn first_error_from<V>(
    items: Seq<V>,
    check: spec_fn(int, V) -> Option<ErrorModel>,
    from: int,
) -> Option<ErrorModel>
    decreases items.len() - from,
{
    if from < 0 || from >= items.len() {
        None
    } else if check(from, items[from]) is Some {
        check(from, items[from])
    } else {
        first_error_from(items, check, from + 1)
    }
}

pub proof fn first_error_at<V>(items: Seq<V>, check: spec_fn(V) -> Option<ErrorModel>, at: int)
    requires
        0 <= at < items.len(),
        check(items[at]) is Some,
        forall|k: int| 0 <= k < at ==> check(#[trigger] items[k]) is None,
    ensures
        first_error(items, check) == check(items[at]),
    decreases at,
{
    if at > 0 {
        let rest = items.drop_first();
        assert(check(items[0]) is None);
        assert forall|k: int| 0 <= k < at - 1 implies check(#[trigger] rest[k]) is None by {
            assert(rest[k] == items[k + 1]);
        }
        first_error_at(rest, check, at - 1);
    }
}

pub proof fn first_error_none<V>(items: Seq<V>, check: spec_fn(V) -> Option<ErrorModel>)
    ensures
        first_error(items, check) is None <==> forall|k: int|
            0 <= k < items.len() ==> check(#[trigger] items[k]) is None,
    decreases items.len(),
{
    if items.len() > 0 {
        let rest = items.drop_first();
        first_error_none(rest, check);
        if first_error(items, check) is None {
            assert forall|k: int| 0 <= k < items.len() implies check(#[trigger] items[k]) is None by {
                if k > 0 {
                    assert(rest[k - 1] == items[k]);
                }
            }
        } else if check(items[0]) is None {
            let k = choose|k: int| 0 <= k < rest.len() && check(#[trigger] rest[k]) is Some;
            assert(items[k + 1] == rest[k]);
        }
    }
}

impl KernelError {
    pub fn new(kind: KernelErrorKind, message: &str) -> (error: Self)
        ensures
            error@ == failure(kind, message@),
    {
        KernelError { kind, message: message.to_owned(), cause: None }
    }

    /// An error whose message is already built.
    pub fn of(kind: KernelErrorKind, message: String) -> (error: Self)
        ensures
            error@ == failure(kind, message@),
    {
        KernelError { kind, message, cause: None }
    }

    /// The error with what lies behind it.
    pub fn because(self, cause: String) -> (error: Self)
        ensures
            error@ == caused_by(self@, cause@),
    {
        KernelError { kind: self.kind, message: self.message, cause: Some(cause) }
    }

    /// What lies behind the error, where that is known.
    pub fn cause(&self) -> (cause: Option<&str>)
        ensures
            cause.deep_view() == self@.cause,
    {
        match &self.cause {
            Some(cause) => Some(cause.as_str()),
            None => None,
        }
    }

    pub fn kind(&self) -> (kind: KernelErrorKind)
        ensures
            kind == self@.kind,
    {
        self.kind
    }

    /// The message that is shown to people.
    pub fn message(&self) -> (message: &str)
        ensures
            message@ == self@.message,
    {
        self.message.as_str()
    }

    pub fn idempotency_conflict(message: &str) -> (error: Self)
        ensures
            error@ == failure(KernelErrorKind::IdempotencyConflict, message@),
    {
        KernelError::new(KernelErrorKind::IdempotencyConflict, message)
    }

    pub fn budget_exceeded(message: &str) -> (error: Self)
        ensures
            error@ == failure(KernelErrorKind::BudgetExceeded, message@),
    {
        KernelError::new(KernelErrorKind::BudgetExceeded, message)
    }

    pub fn stale_view(message: &str) -> (error: Self)
        ensures
            error@ == failure(KernelErrorKind::StaleView, message@),
    {
        KernelError::new(KernelErrorKind::StaleView, message)
    }

    pub fn stale_observation_run(message: &str) -> (error: Self)
        ensures
            error@ == failure(KernelErrorKind::StaleObservationRun, message@),
    {
        KernelError::new(KernelErrorKind::StaleObservationRun, message)
    }

    pub fn privacy_purged(message: &str) -> (error: Self)
        ensures
            error@ == failure(KernelErrorKind::PrivacyPurged, message@),
    {
        KernelError::new(KernelErrorKind::PrivacyPurged, message)
    }

    pub fn not_found(message: &str) -> (error: Self)
        ensures
            error@ == failure(KernelErrorKind::NotFound, message@),
    {
        KernelError::new(KernelErrorKind::NotFound, message)
    }

    pub fn scope_violation(message: &str) -> (error: Self)
        ensures
            error@ == failure(KernelErrorKind::ScopeViolation, message@),
    {
        KernelError::new(KernelErrorKind::ScopeViolation, message)
    }

    pub fn invalid_search_query(message: &str) -> (error: Self)
        ensures
            error@ == failure(KernelErrorKind::InvalidSearchQuery, message@),
    {
        KernelError::new(KernelErrorKind::InvalidSearchQuery, message)
    }

    pub fn missing_input(message: &str) -> (error: Self)
        ensures
            error@ == failure(KernelErrorKind::MissingInput, message@),
    {
        KernelError::new(KernelErrorKind::MissingInput, message)
    }

    pub fn invalid_input(message: &str) -> (error: Self)
        ensures
            error@ == failure(KernelErrorKind::InvalidInput, message@),
    {
        KernelError::new(KernelErrorKind::InvalidInput, message)
    }
}

} // verus!
