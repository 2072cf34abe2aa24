//! Whether a record mentions the identifier of another one.

use vstd::prelude::*;

use crate::json::JsonValue;
use crate::text::{contains_text, occurs, Text};

verus! {

/// A value in whose texts an identifier may occur.
pub trait Mentions: DeepView {
    /// Whether `id` occurs in one of the texts of `value`.
    spec fn mentioned(value: Self::V, id: Text) -> bool;

    fn mentions(&self, id: &str) -> (b: bool)
        ensures
            b == Self::mentioned(self.deep_view(), id@),
    ;
}

impl Mentions for String {
    open spec fn mentioned(value: Text, id: Text) -> bool {
        occurs(value, id)
    }

    fn mentions(&self, id: &str) -> (b: bool) {
        contains_text(self.as_str(), id)
    }
}

impl Mentions for JsonValue {
    open spec fn mentioned(value: Text, id: Text) -> bool {
        occurs(value, id)
    }

    fn mentions(&self, id: &str) -> (b: bool) {
        contains_text(self.text(), id)
    }
}

impl<T: Mentions> Mentions for Option<T> {
    open spec fn mentioned(value: Option<T::V>, id: Text) -> bool {
        value matches Some(value) && T::mentioned(value, id)
    }

    fn mentions(&self, id: &str) -> (b: bool) {
        match self {
            Some(value) => value.mentions(id),
            None => false,
        }
    }
}

impl<T: Mentions> Mentions for Vec<T> {
    open spec fn mentioned(value: Seq<T::V>, id: Text) -> bool {
        exists|i: int| 0 <= i < value.len() && T::mentioned(#[trigger] value[i], id)
    }

    fn mentions(&self, id: &str) -> (b: bool) {
        let mut i: usize = 0;
        while i < self.len()
            invariant
                i <= self.len(),
                forall|k: int| 0 <= k < i ==> !T::mentioned(#[trigger] self.deep_view()[k], id@),
            decreases self.len() - i,
        {
            proof {
                assert(self.deep_view()[i as int] == self[i as int].deep_view());
            }
            if self[i].mentions(id) {
                return true;
            }
            i = i + 1;
        }
        false
    }
}

} // verus!
