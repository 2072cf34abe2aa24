//! The closed vocabularies of the kernel and their texts.

use vstd::prelude::*;

use crate::error::{invalid, ErrorModel, KernelError, KernelErrorKind};
use crate::table::Duplicate;
use crate::text::{concat3, same_text, Text};

verus! {

/// A vocabulary whose words have fixed texts.
pub trait Labelled: Sized {
    spec fn label(self) -> Text;

    /// The text of a word.
    fn label_text(&self) -> (text: &'static str)
        ensures
            text@ == self.label(),
    ;

    /// The word with a given text.
    fn from_label(text: &str) -> (word: Option<Self>)
        ensures
            match word {
                Some(word) => word.label() == text@,
                None => forall|word: Self| #[trigger] word.label() != text@,
            },
    ;

    /// Two words with one text are one word.
    proof fn labels_differ(left: Self, right: Self)
        requires
            left.label() == right.label(),
        ensures
            left == right,
    ;
}

/// The stored text of a word.
pub fn enum_text<T: Labelled>(value: &T) -> (text: String)
    ensures
        text@ == value.label(),
{
    value.label_text().to_owned()
}

/// The word that a text stands for, if it stands for one.
pub open spec fn word_of<T: Labelled>(text: Text) -> Option<T> {
    if exists|word: T| #[trigger] word.label() == text {
        Some(choose|word: T| #[trigger] word.label() == text)
    } else {
        None
    }
}

pub open spec fn unknown_word(text: Text) -> ErrorModel {
    invalid("unknown variant `"@ + text + "`"@)
}

/// The word that a stored text stands for.
pub fn parse_enum<T: Labelled>(value: &str) -> (word: Result<T, KernelError>)
    ensures
        match word {
            Ok(word) => word_of::<T>(value@) == Some(word) && word.label() == value@,
            Err(error) => word_of::<T>(value@) is None && error@ == unknown_word(value@),
        },
{
    match T::from_label(value) {
        Some(word) => {
            proof {
                T::labels_differ(word_of::<T>(value@).unwrap(), word);
            }
            Ok(word)
        },
        None => Err(
            KernelError::of(
                KernelErrorKind::InvalidInput,
                concat3("unknown variant `", value, "`"),
            ),
        ),
    }
}

/// Parsing the stored text of a word gives that word back.
pub proof fn enum_text_round_trip<T: Labelled>(value: T)
    ensures
        word_of::<T>(value.label()) == Some(value),
{
    T::labels_differ(word_of::<T>(value.label()).unwrap(), value);
}

/// The level of a scope.
#[derive(Clone, Copy, Debug, PartialEq, Eq, Structural)]
pub enum ScopeKind {
    User,
    Project,
    Thread,
    Task,
}

impl DeepView for ScopeKind {
    type V = ScopeKind;

    open spec fn deep_view(&self) -> ScopeKind {
        *self
    }
}

impl Duplicate for ScopeKind {
    fn duplicate(&self) -> (copy: Self) {
        *self
    }
}

impl Labelled for ScopeKind {
    open spec fn label(self) -> Text {
        match self {
            ScopeKind::User => "user"@,
            ScopeKind::Project => "project"@,
            ScopeKind::Thread => "thread"@,
            ScopeKind::Task => "task"@,
        }
    }

    fn label_text(&self) -> (text: &'static str) {
        match self {
            ScopeKind::User => "user",
            ScopeKind::Project => "project",
            ScopeKind::Thread => "thread",
            ScopeKind::Task => "task",
        }
    }

    fn from_label(text: &str) -> (word: Option<Self>) {
        if same_text(text, "user") {
            Some(ScopeKind::User)
        } else if same_text(text, "project") {
            Some(ScopeKind::Project)
        } else if same_text(text, "thread") {
            Some(ScopeKind::Thread)
        } else if same_text(text, "task") {
            Some(ScopeKind::Task)
        } else {
            None
        }
    }

    proof fn labels_differ(left: Self, right: Self) {
        reveal_strlit("user");
        reveal_strlit("project");
        reveal_strlit("thread");
        reveal_strlit("task");
        assert("user"@.len() == 4);
        assert("project"@.len() == 7);
        assert("thread"@.len() == 6);
        assert("task"@.len() == 4);
        assert("user"@[0] == 'u');
        assert("task"@[0] == 't');
    }
}

/// What an event records.
#[derive(Clone, Copy, Debug, PartialEq, Eq, Structural)]
pub enum EventKind {
    UserMessage,
    AssistantMessage,
    ToolCall,
    ToolResult,
    FileReference,
    SystemEvent,
    MemoryCommand,
}

impl DeepView for EventKind {
    type V = EventKind;

    open spec fn deep_view(&self) -> EventKind {
        *self
    }
}

impl Duplicate for EventKind {
    fn duplicate(&self) -> (copy: Self) {
        *self
    }
}

impl Labelled for EventKind {
    open spec fn label(self) -> Text {
        match self {
            EventKind::UserMessage => "user-message"@,
            EventKind::AssistantMessage => "assistant-message"@,
            EventKind::ToolCall => "tool-call"@,
            EventKind::ToolResult => "tool-result"@,
            EventKind::FileReference => "file-reference"@,
            EventKind::SystemEvent => "system-event"@,
            EventKind::MemoryCommand => "memory-command"@,
        }
    }

    fn label_text(&self) -> (text: &'static str) {
        match self {
            EventKind::UserMessage => "user-message",
            EventKind::AssistantMessage => "assistant-message",
            EventKind::ToolCall => "tool-call",
            EventKind::ToolResult => "tool-result",
            EventKind::FileReference => "file-reference",
            EventKind::SystemEvent => "system-event",
            EventKind::MemoryCommand => "memory-command",
        }
    }

    fn from_label(text: &str) -> (word: Option<Self>) {
        if same_text(text, "user-message") {
            Some(EventKind::UserMessage)
        } else if same_text(text, "assistant-message") {
            Some(EventKind::AssistantMessage)
        } else if same_text(text, "tool-call") {
            Some(EventKind::ToolCall)
        } else if same_text(text, "tool-result") {
            Some(EventKind::ToolResult)
        } else if same_text(text, "file-reference") {
            Some(EventKind::FileReference)
        } else if same_text(text, "system-event") {
            Some(EventKind::SystemEvent)
        } else if same_text(text, "memory-command") {
            Some(EventKind::MemoryCommand)
        } else {
            None
        }
    }

    proof fn labels_differ(left: Self, right: Self) {
        reveal_strlit("user-message");
        reveal_strlit("assistant-message");
        reveal_strlit("tool-call");
        reveal_strlit("tool-result");
        reveal_strlit("file-reference");
        reveal_strlit("system-event");
        reveal_strlit("memory-command");
        assert("user-message"@.len() == 12);
        assert("assistant-message"@.len() == 17);
        assert("tool-call"@.len() == 9);
        assert("tool-result"@.len() == 11);
        assert("file-reference"@.len() == 14);
        assert("system-event"@.len() == 12);
        assert("memory-command"@.len() == 14);
        assert("user-message"@[0] == 'u');
        assert("system-event"@[0] == 's');
        assert("file-reference"@[0] == 'f');
        assert("memory-command"@[0] == 'm');
    }
}

/// How far an event's content may travel.
#[derive(Clone, Copy, Debug, PartialEq, Eq, Structural)]
pub enum Sensitivity {
    Normal,
    Secret,
    DoNotStore,
}

impl DeepView for Sensitivity {
    type V = Sensitivity;

    open spec fn deep_view(&self) -> Sensitivity {
        *self
    }
}

impl Duplicate for Sensitivity {
    fn duplicate(&self) -> (copy: Self) {
        *self
    }
}

impl Labelled for Sensitivity {
    open spec fn label(self) -> Text {
        match self {
            Sensitivity::Normal => "normal"@,
            Sensitivity::Secret => "secret"@,
            Sensitivity::DoNotStore => "do-not-store"@,
        }
    }

    fn label_text(&self) -> (text: &'static str) {
        match self {
            Sensitivity::Normal => "normal",
            Sensitivity::Secret => "secret",
            Sensitivity::DoNotStore => "do-not-store",
        }
    }

    fn from_label(text: &str) -> (word: Option<Self>) {
        if same_text(text, "normal") {
            Some(Sensitivity::Normal)
        } else if same_text(text, "secret") {
            Some(Sensitivity::Secret)
        } else if same_text(text, "do-not-store") {
            Some(Sensitivity::DoNotStore)
        } else {
            None
        }
    }

    proof fn labels_differ(left: Self, right: Self) {
        reveal_strlit("normal");
        reveal_strlit("secret");
        reveal_strlit("do-not-store");
        assert("normal"@.len() == 6);
        assert("secret"@.len() == 6);
        assert("do-not-store"@.len() == 12);
        assert("normal"@[0] == 'n');
        assert("secret"@[0] == 's');
    }
}

/// What an observation is about.
#[derive(Clone, Copy, Debug, PartialEq, Eq, Structural)]
pub enum ObservationKind {
    Event,
    Decision,
    Outcome,
    Failure,
    Constraint,
    Preference,
    OpenLoop,
    Relationship,
    Continuation,
}

impl DeepView for ObservationKind {
    type V = ObservationKind;

    open spec fn deep_view(&self) -> ObservationKind {
        *self
    }
}

impl Duplicate for ObservationKind {
    fn duplicate(&self) -> (copy: Self) {
        *self
    }
}

impl Labelled for ObservationKind {
    open spec fn label(self) -> Text {
        match self {
            ObservationKind::Event => "event"@,
            ObservationKind::Decision => "decision"@,
            ObservationKind::Outcome => "outcome"@,
            ObservationKind::Failure => "failure"@,
            ObservationKind::Constraint => "constraint"@,
            ObservationKind::Preference => "preference"@,
            ObservationKind::OpenLoop => "open-loop"@,
            ObservationKind::Relationship => "relationship"@,
            ObservationKind::Continuation => "continuation"@,
        }
    }

    fn label_text(&self) -> (text: &'static str) {
        match self {
            ObservationKind::Event => "event",
            ObservationKind::Decision => "decision",
            ObservationKind::Outcome => "outcome",
            ObservationKind::Failure => "failure",
            ObservationKind::Constraint => "constraint",
            ObservationKind::Preference => "preference",
            ObservationKind::OpenLoop => "open-loop",
            ObservationKind::Relationship => "relationship",
            ObservationKind::Continuation => "continuation",
        }
    }

    fn from_label(text: &str) -> (word: Option<Self>) {
        if same_text(text, "event") {
            Some(ObservationKind::Event)
        } else if same_text(text, "decision") {
            Some(ObservationKind::Decision)
        } else if same_text(text, "outcome") {
            Some(ObservationKind::Outcome)
        } else if same_text(text, "failure") {
            Some(ObservationKind::Failure)
        } else if same_text(text, "constraint") {
            Some(ObservationKind::Constraint)
        } else if same_text(text, "preference") {
            Some(ObservationKind::Preference)
        } else if same_text(text, "open-loop") {
            Some(ObservationKind::OpenLoop)
        } else if same_text(text, "relationship") {
            Some(ObservationKind::Relationship)
        } else if same_text(text, "continuation") {
            Some(ObservationKind::Continuation)
        } else {
            None
        }
    }

    proof fn labels_differ(left: Self, right: Self) {
        reveal_strlit("event");
        reveal_strlit("decision");
        reveal_strlit("outcome");
        reveal_strlit("failure");
        reveal_strlit("constraint");
        reveal_strlit("preference");
        reveal_strlit("open-loop");
        reveal_strlit("relationship");
        reveal_strlit("continuation");
        assert("event"@.len() == 5);
        assert("decision"@.len() == 8);
        assert("outcome"@.len() == 7);
        assert("failure"@.len() == 7);
        assert("constraint"@.len() == 10);
        assert("preference"@.len() == 10);
        assert("open-loop"@.len() == 9);
        assert("relationship"@.len() == 12);
        assert("continuation"@.len() == 12);
        assert("outcome"@[0] == 'o');
        assert("failure"@[0] == 'f');
        assert("constraint"@[0] == 'c');
        assert("preference"@[0] == 'p');
        assert("relationship"@[0] == 'r');
        assert("continuation"@[0] == 'c');
    }
}

/// What a claim is about.
#[derive(Clone, Copy, Debug, PartialEq, Eq, Structural)]
pub enum ClaimKind {
    Fact,
    Preference,
    Decision,
    Goal,
    Commitment,
    Constraint,
    OpenLoop,
    EntityAlias,
    Relationship,
    Hypothesis,
}

impl DeepView for ClaimKind {
    type V = ClaimKind;

    open spec fn deep_view(&self) -> ClaimKind {
        *self
    }
}

impl Duplicate for ClaimKind {
    fn duplicate(&self) -> (copy: Self) {
        *self
    }
}

impl Labelled for ClaimKind {
    open spec fn label(self) -> Text {
        match self {
            ClaimKind::Fact => "fact"@,
            ClaimKind::Preference => "preference"@,
            ClaimKind::Decision => "decision"@,
            ClaimKind::Goal => "goal"@,
            ClaimKind::Commitment => "commitment"@,
            ClaimKind::Constraint => "constraint"@,
            ClaimKind::OpenLoop => "open-loop"@,
            ClaimKind::EntityAlias => "entity-alias"@,
            ClaimKind::Relationship => "relationship"@,
            ClaimKind::Hypothesis => "hypothesis"@,
        }
    }

    fn label_text(&self) -> (text: &'static str) {
        match self {
            ClaimKind::Fact => "fact",
            ClaimKind::Preference => "preference",
            ClaimKind::Decision => "decision",
            ClaimKind::Goal => "goal",
            ClaimKind::Commitment => "commitment",
            ClaimKind::Constraint => "constraint",
            ClaimKind::OpenLoop => "open-loop",
            ClaimKind::EntityAlias => "entity-alias",
            ClaimKind::Relationship => "relationship",
            ClaimKind::Hypothesis => "hypothesis",
        }
    }

    fn from_label(text: &str) -> (word: Option<Self>) {
        if same_text(text, "fact") {
            Some(ClaimKind::Fact)
        } else if same_text(text, "preference") {
            Some(ClaimKind::Preference)
        } else if same_text(text, "decision") {
            Some(ClaimKind::Decision)
        } else if same_text(text, "goal") {
            Some(ClaimKind::Goal)
        } else if same_text(text, "commitment") {
            Some(ClaimKind::Commitment)
        } else if same_text(text, "constraint") {
            Some(ClaimKind::Constraint)
        } else if same_text(text, "open-loop") {
            Some(ClaimKind::OpenLoop)
        } else if same_text(text, "entity-alias") {
            Some(ClaimKind::EntityAlias)
        } else if same_text(text, "relationship") {
            Some(ClaimKind::Relationship)
        } else if same_text(text, "hypothesis") {
            Some(ClaimKind::Hypothesis)
        } else {
            None
        }
    }

    proof fn labels_differ(left: Self, right: Self) {
        reveal_strlit("fact");
        reveal_strlit("preference");
        reveal_strlit("decision");
        reveal_strlit("goal");
        reveal_strlit("commitment");
        reveal_strlit("constraint");
        reveal_strlit("open-loop");
        reveal_strlit("entity-alias");
        reveal_strlit("relationship");
        reveal_strlit("hypothesis");
        assert("fact"@.len() == 4);
        assert("preference"@.len() == 10);
        assert("decision"@.len() == 8);
        assert("goal"@.len() == 4);
        assert("commitment"@.len() == 10);
        assert("constraint"@.len() == 10);
        assert("open-loop"@.len() == 9);
        assert("entity-alias"@.len() == 12);
        assert("relationship"@.len() == 12);
        assert("hypothesis"@.len() == 10);
        assert("fact"@[0] == 'f');
        assert("goal"@[0] == 'g');
        assert("preference"@[0] == 'p');
        assert("commitment"@[0] == 'c');
        assert("constraint"@[0] == 'c');
        assert("hypothesis"@[0] == 'h');
        assert("commitment"@[2] == 'm');
        assert("constraint"@[2] == 'n');
        assert("entity-alias"@[0] == 'e');
        assert("relationship"@[0] == 'r');
    }
}

/// How many values may be active for one claim slot.
#[derive(Clone, Copy, Debug, PartialEq, Eq, Structural)]
pub enum ClaimCardinality {
    Single,
    SetValued,
}

impl DeepView for ClaimCardinality {
    type V = ClaimCardinality;

    open spec fn deep_view(&self) -> ClaimCardinality {
        *self
    }
}

impl Duplicate for ClaimCardinality {
    fn duplicate(&self) -> (copy: Self) {
        *self
    }
}

impl Labelled for ClaimCardinality {
    open spec fn label(self) -> Text {
        match self {
            ClaimCardinality::Single => "single"@,
            ClaimCardinality::SetValued => "set"@,
        }
    }

    fn label_text(&self) -> (text: &'static str) {
        match self {
            ClaimCardinality::Single => "single",
            ClaimCardinality::SetValued => "set",
        }
    }

    fn from_label(text: &str) -> (word: Option<Self>) {
        if same_text(text, "single") {
            Some(ClaimCardinality::Single)
        } else if same_text(text, "set") {
            Some(ClaimCardinality::SetValued)
        } else {
            None
        }
    }

    proof fn labels_differ(left: Self, right: Self) {
        reveal_strlit("single");
        reveal_strlit("set");
        assert("single"@.len() == 6);
        assert("set"@.len() == 3);
    }
}

/// In what sense a claim was made.
#[derive(Clone, Copy, Debug, PartialEq, Eq, Structural)]
pub enum ClaimModality {
    ExplicitAssertion,
    AcceptedDecision,
    Proposal,
    Inference,
    Observation,
}

impl DeepView for ClaimModality {
    type V = ClaimModality;

    open spec fn deep_view(&self) -> ClaimModality {
        *self
    }
}

impl Duplicate for ClaimModality {
    fn duplicate(&self) -> (copy: Self) {
        *self
    }
}

impl Labelled for ClaimModality {
    open spec fn label(self) -> Text {
        match self {
            ClaimModality::ExplicitAssertion => "explicit-assertion"@,
            ClaimModality::AcceptedDecision => "accepted-decision"@,
            ClaimModality::Proposal => "proposal"@,
            ClaimModality::Inference => "inference"@,
            ClaimModality::Observation => "observation"@,
        }
    }

    fn label_text(&self) -> (text: &'static str) {
        match self {
            ClaimModality::ExplicitAssertion => "explicit-assertion",
            ClaimModality::AcceptedDecision => "accepted-decision",
            ClaimModality::Proposal => "proposal",
            ClaimModality::Inference => "inference",
            ClaimModality::Observation => "observation",
        }
    }

    fn from_label(text: &str) -> (word: Option<Self>) {
        if same_text(text, "explicit-assertion") {
            Some(ClaimModality::ExplicitAssertion)
        } else if same_text(text, "accepted-decision") {
            Some(ClaimModality::AcceptedDecision)
        } else if same_text(text, "proposal") {
            Some(ClaimModality::Proposal)
        } else if same_text(text, "inference") {
            Some(ClaimModality::Inference)
        } else if same_text(text, "observation") {
            Some(ClaimModality::Observation)
        } else {
            None
        }
    }

    proof fn labels_differ(left: Self, right: Self) {
        reveal_strlit("explicit-assertion");
        reveal_strlit("accepted-decision");
        reveal_strlit("proposal");
        reveal_strlit("inference");
        reveal_strlit("observation");
        assert("explicit-assertion"@.len() == 18);
        assert("accepted-decision"@.len() == 17);
        assert("proposal"@.len() == 8);
        assert("inference"@.len() == 9);
        assert("observation"@.len() == 11);
    }
}

/// Where a claim is in its life.
#[derive(Clone, Copy, Debug, PartialEq, Eq, Structural)]
pub enum ClaimStatus {
    Pending,
    Active,
    Disputed,
    Superseded,
    Rejected,
    Expired,
}

impl DeepView for ClaimStatus {
    type V = ClaimStatus;

    open spec fn deep_view(&self) -> ClaimStatus {
        *self
    }
}

impl Duplicate for ClaimStatus {
    fn duplicate(&self) -> (copy: Self) {
        *self
    }
}

impl Labelled for ClaimStatus {
    open spec fn label(self) -> Text {
        match self {
            ClaimStatus::Pending => "pending"@,
            ClaimStatus::Active => "active"@,
            ClaimStatus::Disputed => "disputed"@,
            ClaimStatus::Superseded => "superseded"@,
            ClaimStatus::Rejected => "rejected"@,
            ClaimStatus::Expired => "expired"@,
        }
    }

    fn label_text(&self) -> (text: &'static str) {
        match self {
            ClaimStatus::Pending => "pending",
            ClaimStatus::Active => "active",
            ClaimStatus::Disputed => "disputed",
            ClaimStatus::Superseded => "superseded",
            ClaimStatus::Rejected => "rejected",
            ClaimStatus::Expired => "expired",
        }
    }

    fn from_label(text: &str) -> (word: Option<Self>) {
        if same_text(text, "pending") {
            Some(ClaimStatus::Pending)
        } else if same_text(text, "active") {
            Some(ClaimStatus::Active)
        } else if same_text(text, "disputed") {
            Some(ClaimStatus::Disputed)
        } else if same_text(text, "superseded") {
            Some(ClaimStatus::Superseded)
        } else if same_text(text, "rejected") {
            Some(ClaimStatus::Rejected)
        } else if same_text(text, "expired") {
            Some(ClaimStatus::Expired)
        } else {
            None
        }
    }

    proof fn labels_differ(left: Self, right: Self) {
        reveal_strlit("pending");
        reveal_strlit("active");
        reveal_strlit("disputed");
        reveal_strlit("superseded");
        reveal_strlit("rejected");
        reveal_strlit("expired");
        assert("pending"@.len() == 7);
        assert("active"@.len() == 6);
        assert("disputed"@.len() == 8);
        assert("superseded"@.len() == 10);
        assert("rejected"@.len() == 8);
        assert("expired"@.len() == 7);
        assert("pending"@[0] == 'p');
        assert("expired"@[0] == 'e');
        assert("disputed"@[0] == 'd');
        assert("rejected"@[0] == 'r');
    }
}

/// On whose word a claim rests.
#[derive(Clone, Copy, Debug, PartialEq, Eq, Structural)]
pub enum ClaimAuthority {
    ExplicitUser,
    TrustedSource,
    ModelInference,
}

impl DeepView for ClaimAuthority {
    type V = ClaimAuthority;

    open spec fn deep_view(&self) -> ClaimAuthority {
        *self
    }
}

impl Duplicate for ClaimAuthority {
    fn duplicate(&self) -> (copy: Self) {
        *self
    }
}

impl Labelled for ClaimAuthority {
    open spec fn label(self) -> Text {
        match self {
            ClaimAuthority::ExplicitUser => "explicit-user"@,
            ClaimAuthority::TrustedSource => "trusted-source"@,
            ClaimAuthority::ModelInference => "model-inference"@,
        }
    }

    fn label_text(&self) -> (text: &'static str) {
        match self {
            ClaimAuthority::ExplicitUser => "explicit-user",
            ClaimAuthority::TrustedSource => "trusted-source",
            ClaimAuthority::ModelInference => "model-inference",
        }
    }

    fn from_label(text: &str) -> (word: Option<Self>) {
        if same_text(text, "explicit-user") {
            Some(ClaimAuthority::ExplicitUser)
        } else if same_text(text, "trusted-source") {
            Some(ClaimAuthority::TrustedSource)
        } else if same_text(text, "model-inference") {
            Some(ClaimAuthority::ModelInference)
        } else {
            None
        }
    }

    proof fn labels_differ(left: Self, right: Self) {
        reveal_strlit("explicit-user");
        reveal_strlit("trusted-source");
        reveal_strlit("model-inference");
        assert("explicit-user"@.len() == 13);
        assert("trusted-source"@.len() == 14);
        assert("model-inference"@.len() == 15);
    }
}

/// What a memory view is for.
#[derive(Clone, Copy, Debug, PartialEq, Eq, Structural)]
pub enum ViewKind {
    Continuity,
    Continuation,
}

impl DeepView for ViewKind {
    type V = ViewKind;

    open spec fn deep_view(&self) -> ViewKind {
        *self
    }
}

impl Duplicate for ViewKind {
    fn duplicate(&self) -> (copy: Self) {
        *self
    }
}

impl Labelled for ViewKind {
    open spec fn label(self) -> Text {
        match self {
            ViewKind::Continuity => "continuity"@,
            ViewKind::Continuation => "continuation"@,
        }
    }

    fn label_text(&self) -> (text: &'static str) {
        match self {
            ViewKind::Continuity => "continuity",
            ViewKind::Continuation => "continuation",
        }
    }

    fn from_label(text: &str) -> (word: Option<Self>) {
        if same_text(text, "continuity") {
            Some(ViewKind::Continuity)
        } else if same_text(text, "continuation") {
            Some(ViewKind::Continuation)
        } else {
            None
        }
    }

    proof fn labels_differ(left: Self, right: Self) {
        reveal_strlit("continuity");
        reveal_strlit("continuation");
        assert("continuity"@.len() == 10);
        assert("continuation"@.len() == 12);
    }
}

/// What an observation commit did to the continuation view.
#[derive(Clone, Copy, Debug, PartialEq, Eq, Structural)]
pub enum ContinuationAction {
    Created,
    Preserved,
}

impl DeepView for ContinuationAction {
    type V = ContinuationAction;

    open spec fn deep_view(&self) -> ContinuationAction {
        *self
    }
}

impl Duplicate for ContinuationAction {
    fn duplicate(&self) -> (copy: Self) {
        *self
    }
}

impl Labelled for ContinuationAction {
    open spec fn label(self) -> Text {
        match self {
            ContinuationAction::Created => "created"@,
            ContinuationAction::Preserved => "preserved"@,
        }
    }

    fn label_text(&self) -> (text: &'static str) {
        match self {
            ContinuationAction::Created => "created",
            ContinuationAction::Preserved => "preserved",
        }
    }

    fn from_label(text: &str) -> (word: Option<Self>) {
        if same_text(text, "created") {
            Some(ContinuationAction::Created)
        } else if same_text(text, "preserved") {
            Some(ContinuationAction::Preserved)
        } else {
            None
        }
    }

    proof fn labels_differ(left: Self, right: Self) {
        reveal_strlit("created");
        reveal_strlit("preserved");
        assert("created"@.len() == 7);
        assert("preserved"@.len() == 9);
    }
}

/// Whether the evidence of an observation run is still whole.
#[derive(Clone, Copy, Debug, PartialEq, Eq, Structural)]
pub enum SourceIntegrity {
    Intact,
    PrivacyPurged,
}

impl DeepView for SourceIntegrity {
    type V = SourceIntegrity;

    open spec fn deep_view(&self) -> SourceIntegrity {
        *self
    }
}

impl Duplicate for SourceIntegrity {
    fn duplicate(&self) -> (copy: Self) {
        *self
    }
}

impl Labelled for SourceIntegrity {
    open spec fn label(self) -> Text {
        match self {
            SourceIntegrity::Intact => "intact"@,
            SourceIntegrity::PrivacyPurged => "privacy-purged"@,
        }
    }

    fn label_text(&self) -> (text: &'static str) {
        match self {
            SourceIntegrity::Intact => "intact",
            SourceIntegrity::PrivacyPurged => "privacy-purged",
        }
    }

    fn from_label(text: &str) -> (word: Option<Self>) {
        if same_text(text, "intact") {
            Some(SourceIntegrity::Intact)
        } else if same_text(text, "privacy-purged") {
            Some(SourceIntegrity::PrivacyPurged)
        } else {
            None
        }
    }

    proof fn labels_differ(left: Self, right: Self) {
        reveal_strlit("intact");
        reveal_strlit("privacy-purged");
        assert("intact"@.len() == 6);
        assert("privacy-purged"@.len() == 14);
    }
}

/// Where an observation run is in its life.
#[derive(Clone, Copy, Debug, PartialEq, Eq, Structural)]
pub enum RunStatus {
    Pending,
    Committed,
    Failed,
    Stale,
}

impl DeepView for RunStatus {
    type V = RunStatus;

    open spec fn deep_view(&self) -> RunStatus {
        *self
    }
}

impl Duplicate for RunStatus {
    fn duplicate(&self) -> (copy: Self) {
        *self
    }
}

impl Labelled for RunStatus {
    open spec fn label(self) -> Text {
        match self {
            RunStatus::Pending => "pending"@,
            RunStatus::Committed => "committed"@,
            RunStatus::Failed => "failed"@,
            RunStatus::Stale => "stale"@,
        }
    }

    fn label_text(&self) -> (text: &'static str) {
        match self {
            RunStatus::Pending => "pending",
            RunStatus::Committed => "committed",
            RunStatus::Failed => "failed",
            RunStatus::Stale => "stale",
        }
    }

    fn from_label(text: &str) -> (word: Option<Self>) {
        if same_text(text, "pending") {
            Some(RunStatus::Pending)
        } else if same_text(text, "committed") {
            Some(RunStatus::Committed)
        } else if same_text(text, "failed") {
            Some(RunStatus::Failed)
        } else if same_text(text, "stale") {
            Some(RunStatus::Stale)
        } else {
            None
        }
    }

    proof fn labels_differ(left: Self, right: Self) {
        reveal_strlit("pending");
        reveal_strlit("committed");
        reveal_strlit("failed");
        reveal_strlit("stale");
        assert("pending"@.len() == 7);
        assert("committed"@.len() == 9);
        assert("failed"@.len() == 6);
        assert("stale"@.len() == 5);
    }
}

impl Default for ClaimCardinality {
    fn default() -> (cardinality: Self)
        ensures
            cardinality == ClaimCardinality::Single,
    {
        ClaimCardinality::Single
    }
}

} // verus!
