//! Fresh identifiers and the time, drawn before a state change is computed.

use vstd::prelude::*;

use crate::text::Text;

verus! {

/// What is wrong with a text as a timestamp in the format of RFC 3339, if anything is.
pub uninterp spec fn rfc3339_fault(text: Text) -> Option<Text>;

/// `uuid::Uuid::new_v4` in its hyphenated `Display`: a random identifier of 36 characters.
#[verifier::external_body]
fn new_record_id() -> (id: String)
    ensures
        id@.len() == 36,
{
    uuid::Uuid::new_v4().to_string()
}

/// `chrono::Utc::now` in the format of RFC 3339. Nothing is claimed of the time.
#[verifier::external_body]
fn now() -> (timestamp: String) {
    chrono::Utc::now().to_rfc3339()
}

/// `chrono::DateTime::parse_from_rfc3339`: the `Display` of its error, or nothing where it succeeds.
/// It depends on the text alone.
#[verifier::external_body]
pub(crate) fn find_rfc3339_fault(text: &str) -> (fault: Option<String>)
    ensures
        fault.deep_view() == rfc3339_fault(text@),
{
    match chrono::DateTime::parse_from_rfc3339(text) {
        Ok(_) => None,
        Err(error) => Some(error.to_string()),
    }
}

/// What a state change takes from outside: identifiers for the records it makes, and the time.
#[derive(Clone, Debug)]
pub struct Stamp {
    pub ids: Vec<String>,
    pub at: String,
}

/// The mathematical content of a `Stamp`.
pub struct StampModel {
    pub ids: Seq<Text>,
    pub at: Text,
}

impl View for Stamp {
    type V = StampModel;

    open spec fn view(&self) -> StampModel {
        StampModel { ids: self.ids.deep_view(), at: self.at@ }
    }
}

/// Whether a stamp is as drawn: every identifier has the length of a random one.
pub open spec fn drawn(stamp: StampModel) -> bool {
    forall|i: int| 0 <= i < stamp.ids.len() ==> (#[trigger] stamp.ids[i]).len() == 36
}

/// Draws `count` identifiers and the time.
pub fn draw_stamp(count: usize) -> (stamp: Stamp)
    ensures
        stamp@.ids.len() == count,
        drawn(stamp@),
{
    let mut ids: Vec<String> = Vec::new();
    let mut i: usize = 0;
    while i < count
        invariant
            i <= count,
            ids.len() == i,
            forall|k: int| 0 <= k < i ==> (#[trigger] ids[k])@.len() == 36,
        decreases count - i,
    {
        ids.push(new_record_id());
        i = i + 1;
    }
    Stamp { ids, at: now() }
}

} // verus!
