//! Ordering the rows of a table by a key.

use vstd::prelude::*;

use crate::table::Duplicate;
use crate::text::{
    comes_before, same_text, text_less, text_order_irreflexive, text_order_total,
    text_order_transitive, Text,
};

verus! {

/// What a row is ordered by: a number, two texts and another number, in this order.
pub struct OrderKey {
    pub major: i128,
    pub first: String,
    pub second: String,
    pub minor: i64,
}

/// The mathematical content of an `OrderKey`.
#[verifier::ext_equal]
pub struct KeyModel {
    pub major: int,
    pub first: Text,
    pub second: Text,
    pub minor: int,
}

impl View for OrderKey {
    type V = KeyModel;

    open spec fn view(&self) -> KeyModel {
        KeyModel {
            major: self.major as int,
            first: self.first@,
            second: self.second@,
            minor: self.minor as int,
        }
    }
}

pub open spec fn key_less(left: KeyModel, right: KeyModel) -> bool {
    if left.major != right.major {
        left.major < right.major
    } else if left.first != right.first {
        text_less(left.first, right.first)
    } else if left.second != right.second {
        text_less(left.second, right.second)
    } else {
        left.minor < right.minor
    }
}

/// A way to order the rows of a table.
pub trait RowKey<T: DeepView> {
    spec fn key(&self) -> spec_fn(T::V) -> KeyModel;

    fn key_of(&self, row: &T) -> (key: OrderKey)
        ensures
            key@ == (self.key())(row.deep_view()),
    ;
}

/// Where a row with key `new` goes: behind the last row whose key is not greater.
pub open spec fn place<V>(rows: Seq<V>, key: spec_fn(V) -> KeyModel, new: KeyModel) -> int
    decreases rows.len(),
{
    if rows.len() == 0 {
        0
    } else if key_less(new, key(rows.last())) {
        place(rows.drop_last(), key, new)
    } else {
        rows.len() as int
    }
}

/// The rows ordered by their keys; rows with one key stay in the order that they had.
pub open spec fn ordered<V>(rows: Seq<V>, key: spec_fn(V) -> KeyModel) -> Seq<V>
    decreases rows.len(),
{
    if rows.len() == 0 {
        rows
    } else {
        let sorted = ordered(rows.drop_last(), key);
        sorted.insert(place(sorted, key, key(rows.last())), rows.last())
    }
}

/// Whether no row has a smaller key than one before it.
pub open spec fn in_order<V>(rows: Seq<V>, key: spec_fn(V) -> KeyModel) -> bool {
    forall|i: int, j: int|
        0 <= i < j < rows.len() ==> !key_less(key(#[trigger] rows[j]), key(#[trigger] rows[i]))
}

proof fn key_order_transitive(a: KeyModel, b: KeyModel, c: KeyModel)
    requires
        !key_less(b, a),
        !key_less(c, b),
    ensures
        !key_less(c, a),
{
    text_order_total(a.first, b.first);
    text_order_total(b.first, c.first);
    text_order_total(a.second, b.second);
    text_order_total(b.second, c.second);
    text_order_irreflexive(a.first);
    text_order_irreflexive(a.second);
    if text_less(a.first, b.first) && text_less(b.first, c.first) {
        text_order_transitive(a.first, b.first, c.first);
    }
    if text_less(a.second, b.second) && text_less(b.second, c.second) {
        text_order_transitive(a.second, b.second, c.second);
    }
    if text_less(c.first, a.first) && text_less(a.first, b.first) {
        text_order_transitive(c.first, a.first, b.first);
    }
    if text_less(c.second, a.second) && text_less(a.second, b.second) {
        text_order_transitive(c.second, a.second, b.second);
    }
    if text_less(c.first, b.first) && text_less(b.first, c.first) {
        text_order_transitive(c.first, b.first, c.first);
        text_order_irreflexive(c.first);
    }
    if text_less(c.second, b.second) && text_less(b.second, c.second) {
        text_order_transitive(c.second, b.second, c.second);
        text_order_irreflexive(c.second);
    }
    if text_less(c.first, a.first) && text_less(a.first, c.first) {
        text_order_transitive(c.first, a.first, c.first);
        text_order_irreflexive(c.first);
    }
    if text_less(c.second, a.second) && text_less(a.second, c.second) {
        text_order_transitive(c.second, a.second, c.second);
        text_order_irreflexive(c.second);
    }
    if text_less(b.first, a.first) && text_less(a.first, b.first) {
        text_order_transitive(b.first, a.first, b.first);
        text_order_irreflexive(b.first);
    }
    if text_less(b.second, a.second) && text_less(a.second, b.second) {
        text_order_transitive(b.second, a.second, b.second);
        text_order_irreflexive(b.second);
    }
}

proof fn key_order_asymmetric(a: KeyModel, b: KeyModel)
    requires
        key_less(a, b),
    ensures
        !key_less(b, a),
{
    if text_less(a.first, b.first) && text_less(b.first, a.first) {
        text_order_transitive(a.first, b.first, a.first);
        text_order_irreflexive(a.first);
    }
    if text_less(a.second, b.second) && text_less(b.second, a.second) {
        text_order_transitive(a.second, b.second, a.second);
        text_order_irreflexive(a.second);
    }
}

/// The place of a new row parts those that come before it from those behind it.
pub proof fn place_splits<V>(rows: Seq<V>, key: spec_fn(V) -> KeyModel, new: KeyModel)
    ensures
        0 <= place(rows, key, new) <= rows.len(),
        forall|j: int|
            place(rows, key, new) <= j < rows.len() ==> key_less(new, key(#[trigger] rows[j])),
        place(rows, key, new) > 0 ==> !key_less(new, key(rows[place(rows, key, new) - 1])),
    decreases rows.len(),
{
    if rows.len() > 0 && key_less(new, key(rows.last())) {
        let front = rows.drop_last();
        place_splits(front, key, new);
        assert forall|j: int| place(rows, key, new) <= j < rows.len() implies key_less(
            new,
            key(#[trigger] rows[j]),
        ) by {
            if j < front.len() {
                assert(front[j] == rows[j]);
            }
        }
    }
}

/// Ordering rows puts them in order and keeps each of them as often as it was there.
pub proof fn ordered_rows<V>(rows: Seq<V>, key: spec_fn(V) -> KeyModel)
    ensures
        in_order(ordered(rows, key), key),
        ordered(rows, key).to_multiset() == rows.to_multiset(),
        ordered(rows, key).len() == rows.len(),
    decreases rows.len(),
{
    if rows.len() > 0 {
        let front = rows.drop_last();
        let new = rows.last();
        let sorted = ordered(front, key);
        let at = place(sorted, key, key(new));
        let result = sorted.insert(at, new);
        ordered_rows(front, key);
        place_splits(sorted, key, key(new));
        assert forall|i: int, j: int| 0 <= i < j < result.len() implies !key_less(
            key(#[trigger] result[j]),
            key(#[trigger] result[i]),
        ) by {
            let a = if i < at {
                i
            } else {
                i - 1
            };
            let b = if j < at {
                j
            } else {
                j - 1
            };
            if i == at {
                assert(result[j] == sorted[b]);
                key_order_asymmetric(key(new), key(sorted[b]));
            } else if j == at {
                assert(result[i] == sorted[a]);
                if a < at - 1 {
                    assert(!key_less(key(sorted[at - 1]), key(sorted[a])));
                    key_order_transitive(key(sorted[a]), key(sorted[at - 1]), key(new));
                }
            } else {
                assert(result[i] == sorted[a]);
                assert(result[j] == sorted[b]);
            }
        }
        vstd::seq_lib::to_multiset_insert(sorted, at, new);
        assert(rows =~= front.push(new));
        vstd::seq_lib::to_multiset_build(front, new);
    }
}

proof fn ordered_step<V>(rows: Seq<V>, key: spec_fn(V) -> KeyModel, i: int)
    requires
        0 <= i < rows.len(),
    ensures
        ({
            let sorted = ordered(rows.take(i), key);
            ordered(rows.take(i + 1), key) == sorted.insert(
                place(sorted, key, key(rows[i])),
                rows[i],
            )
        }),
{
    assert(rows.take(i + 1).drop_last() =~= rows.take(i));
    assert(rows.take(i + 1).last() == rows[i]);
}

proof fn place_prefix<V>(rows: Seq<V>, key: spec_fn(V) -> KeyModel, new: KeyModel, at: int)
    requires
        0 <= at <= rows.len(),
        forall|j: int| at <= j < rows.len() ==> key_less(new, key(#[trigger] rows[j])),
    ensures
        place(rows, key, new) == place(rows.take(at), key, new),
    decreases rows.len(),
{
    if at < rows.len() {
        assert(key_less(new, key(rows[rows.len() - 1])));
        place_prefix(rows.drop_last(), key, new, at);
        assert(rows.drop_last().take(at) =~= rows.take(at));
    } else {
        assert(rows.take(at) =~= rows);
    }
}

pub fn key_before(left: &OrderKey, right: &OrderKey) -> (b: bool)
    ensures
        b == key_less(left@, right@),
{
    if left.major != right.major {
        left.major < right.major
    } else if !same_text(left.first.as_str(), right.first.as_str()) {
        comes_before(left.first.as_str(), right.first.as_str())
    } else if !same_text(left.second.as_str(), right.second.as_str()) {
        comes_before(left.second.as_str(), right.second.as_str())
    } else {
        left.minor < right.minor
    }
}

/// Copies of the rows, ordered by their keys.
pub fn sort_rows<T: Duplicate, K: RowKey<T>>(rows: &Vec<T>, by: &K) -> (sorted: Vec<T>)
    ensures
        sorted.deep_view() == ordered(rows.deep_view(), by.key()),
{
    let mut sorted: Vec<T> = Vec::new();
    let mut i: usize = 0;
    proof {
        assert(rows.deep_view().take(0) =~= Seq::empty());
        assert(sorted.deep_view() =~= Seq::empty());
    }
    while i < rows.len()
        invariant
            i <= rows.len(),
            sorted.deep_view() == ordered(rows.deep_view().take(i as int), by.key()),
        decreases rows.len() - i,
    {
        let key: OrderKey = by.key_of(&rows[i]);
        let mut at: usize = sorted.len();
        let ghost before = sorted.deep_view();
        proof {
            assert(before.take(before.len() as int) =~= before);
            assert(rows.deep_view()[i as int] == rows[i as int].deep_view());
            ordered_step(rows.deep_view(), by.key(), i as int);
        }
        while at > 0 && key_before(&key, &by.key_of(&sorted[at - 1]))
            invariant
                at <= sorted.len(),
                before == sorted.deep_view(),
                place(before, by.key(), key@) == place(before.take(at as int), by.key(), key@),
            decreases at,
        {
            proof {
                assert(before.take(at as int).drop_last() =~= before.take(at - 1));
                assert(before.take(at as int).last() == sorted[at - 1].deep_view());
            }
            at = at - 1;
        }
        proof {
            if at > 0 {
                assert(before.take(at as int).last() == sorted[at - 1].deep_view());
            }
            assert(place(before, by.key(), key@) == at);
        }
        sorted.insert(at, rows[i].duplicate());
        proof {
            assert(sorted.deep_view() =~= before.insert(at as int, rows[i as int].deep_view()));
        }
        i = i + 1;
    }
    proof {
        assert(rows.deep_view().take(rows.len() as int) =~= rows.deep_view());
    }
    sorted
}

} // verus!
