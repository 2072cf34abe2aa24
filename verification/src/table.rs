//! Tables of records: looking rows up, selecting, keeping and changing them.

use vstd::prelude::*;

verus! {

/// A condition on the rows of a table.
pub trait RowTest<T: DeepView> {
    spec fn accepts(&self) -> spec_fn(T::V) -> bool;

    fn test(&self, row: &T) -> (b: bool)
        ensures
            b == (self.accepts())(row.deep_view()),
    ;
}

/// A change that is made to each row of a table.
pub trait RowChange<T: DeepView> {
    spec fn change(&self) -> spec_fn(T::V) -> T::V;

    fn apply(&self, row: &T) -> (changed: T)
        ensures
            changed.deep_view() == (self.change())(row.deep_view()),
    ;
}

/// A value that can be copied.
pub trait Duplicate: DeepView + Sized {
    fn duplicate(&self) -> (copy: Self)
        ensures
            copy.deep_view() == self.deep_view(),
    ;
}

/// The first row that meets the condition.
pub open spec fn first_where<V>(rows: Seq<V>, accepts: spec_fn(V) -> bool) -> Option<V>
    decreases rows.len(),
{
    if rows.len() == 0 {
        None
    } else if accepts(rows[0]) {
        Some(rows[0])
    } else {
        first_where(rows.drop_first(), accepts)
    }
}

/// Whether some row meets the condition.
pub open spec fn some_row<V>(rows: Seq<V>, accepts: spec_fn(V) -> bool) -> bool {
    exists|i: int| 0 <= i < rows.len() && accepts(#[trigger] rows[i])
}

/// The last row, if there is one.
pub open spec fn last_row<V>(rows: Seq<V>) -> Option<V> {
    if rows.len() == 0 {
        None
    } else {
        Some(rows.last())
    }
}

pub proof fn first_where_at<V>(rows: Seq<V>, accepts: spec_fn(V) -> bool, at: int)
    requires
        0 <= at < rows.len(),
        accepts(rows[at]),
        forall|k: int| 0 <= k < at ==> !accepts(#[trigger] rows[k]),
    ensures
        first_where(rows, accepts) == Some(rows[at]),
    decreases at,
{
    if at > 0 {
        let rest = rows.drop_first();
        assert(!accepts(rows[0]));
        assert forall|k: int| 0 <= k < at - 1 implies !accepts(#[trigger] rest[k]) by {
            assert(rest[k] == rows[k + 1]);
        }
        first_where_at(rest, accepts, at - 1);
    }
}

pub proof fn first_where_none<V>(rows: Seq<V>, accepts: spec_fn(V) -> bool)
    requires
        forall|k: int| 0 <= k < rows.len() ==> !accepts(#[trigger] rows[k]),
    ensures
        first_where(rows, accepts) == None::<V>,
    decreases rows.len(),
{
    if rows.len() > 0 {
        let rest = rows.drop_first();
        assert forall|k: int| 0 <= k < rest.len() implies !accepts(#[trigger] rest[k]) by {
            assert(rest[k] == rows[k + 1]);
        }
        first_where_none(rest, accepts);
    }
}

/// What `first_where` finds is a row that meets the condition, and it finds one where there is
/// one.
pub proof fn first_where_found<V>(rows: Seq<V>, accepts: spec_fn(V) -> bool)
    ensures
        first_where(rows, accepts) is Some <==> some_row(rows, accepts),
        first_where(rows, accepts) matches Some(row) ==> accepts(row) && rows.contains(row),
    decreases rows.len(),
{
    if rows.len() > 0 {
        if accepts(rows[0]) {
            assert(rows.contains(rows[0]));
        } else {
            let rest = rows.drop_first();
            first_where_found(rest, accepts);
            if some_row(rest, accepts) {
                let k = choose|k: int| 0 <= k < rest.len() && accepts(#[trigger] rest[k]);
                assert(rows[k + 1] == rest[k]);
            }
            if some_row(rows, accepts) {
                let k = choose|k: int| 0 <= k < rows.len() && accepts(#[trigger] rows[k]);
                assert(rest[k - 1] == rows[k]);
            }
            if let Some(row) = first_where(rest, accepts) {
                let k = choose|k: int| 0 <= k < rest.len() && rest[k] == row;
                assert(rows[k + 1] == row);
            }
        }
    }
}

pub proof fn filter_step<V>(rows: Seq<V>, accepts: spec_fn(V) -> bool, i: int)
    requires
        0 <= i < rows.len(),
    ensures
        rows.take(i + 1).filter(accepts) == if accepts(rows[i]) {
            rows.take(i).filter(accepts).push(rows[i])
        } else {
            rows.take(i).filter(accepts)
        },
{
    reveal(Seq::filter);
    assert(rows.take(i + 1).drop_last() =~= rows.take(i));
    assert(rows.take(i + 1).last() == rows[i]);
}

/// Two conditions that hold of the same rows select the same rows.
pub proof fn filter_agrees<V>(rows: Seq<V>, left: spec_fn(V) -> bool, right: spec_fn(V) -> bool)
    requires
        forall|i: int| 0 <= i < rows.len() ==> left(#[trigger] rows[i]) == right(rows[i]),
    ensures
        rows.filter(left) == rows.filter(right),
    decreases rows.len(),
{
    reveal(Seq::filter);
    if rows.len() > 0 {
        let front = rows.drop_last();
        assert forall|i: int| 0 <= i < front.len() implies left(#[trigger] front[i]) == right(
            front[i],
        ) by {
            assert(front[i] == rows[i]);
        }
        filter_agrees(front, left, right);
        assert(left(rows[rows.len() - 1]) == right(rows[rows.len() - 1]));
    }
}

/// The position of the first row that meets the condition.
pub fn find_row<T: DeepView, P: RowTest<T>>(rows: &Vec<T>, test: &P) -> (found: Option<usize>)
    ensures
        match found {
            Some(i) => {
                &&& i < rows.len()
                &&& first_where(rows.deep_view(), test.accepts()) == Some(rows[i as int].deep_view())
                &&& (test.accepts())(rows[i as int].deep_view())
            },
            None => first_where(rows.deep_view(), test.accepts()) is None,
        },
        found is Some <==> some_row(rows.deep_view(), test.accepts()),
{
    let mut i: usize = 0;
    while i < rows.len()
        invariant
            i <= rows.len(),
            forall|k: int|
                0 <= k < i ==> !(test.accepts())(#[trigger] rows.deep_view()[k]),
        decreases rows.len() - i,
    {
        if test.test(&rows[i]) {
            proof {
                assert(rows.deep_view()[i as int] == rows[i as int].deep_view());
                first_where_at(rows.deep_view(), test.accepts(), i as int);
            }
            return Some(i);
        }
        proof {
            assert(rows.deep_view()[i as int] == rows[i as int].deep_view());
        }
        i = i + 1;
    }
    proof {
        first_where_none(rows.deep_view(), test.accepts());
    }
    None
}

/// Whether some row meets the condition.
pub fn any_row<T: DeepView, P: RowTest<T>>(rows: &Vec<T>, test: &P) -> (b: bool)
    ensures
        b == some_row(rows.deep_view(), test.accepts()),
{
    find_row(rows, test).is_some()
}

/// A copy of the first row that meets the condition.
pub fn first_row<T: Duplicate, P: RowTest<T>>(rows: &Vec<T>, test: &P) -> (found: Option<T>)
    ensures
        found.deep_view() == first_where(rows.deep_view(), test.accepts()),
{
    match find_row(rows, test) {
        Some(i) => Some(rows[i].duplicate()),
        None => None,
    }
}

/// Copies of the rows that meet the condition, in order.
pub fn select_rows<T: Duplicate, P: RowTest<T>>(rows: &Vec<T>, test: &P) -> (selected: Vec<T>)
    ensures
        selected.deep_view() == rows.deep_view().filter(test.accepts()),
{
    let mut selected: Vec<T> = Vec::new();
    let mut i: usize = 0;
    proof {
        reveal(Seq::filter);
        assert(rows.deep_view().take(0) =~= Seq::empty());
        assert(selected.deep_view() =~= Seq::empty());
    }
    while i < rows.len()
        invariant
            i <= rows.len(),
            selected.deep_view() == rows.deep_view().take(i as int).filter(test.accepts()),
        decreases rows.len() - i,
    {
        proof {
            assert(rows.deep_view()[i as int] == rows[i as int].deep_view());
            filter_step(rows.deep_view(), test.accepts(), i as int);
        }
        if test.test(&rows[i]) {
            push_row(&mut selected, rows[i].duplicate());
        }
        i = i + 1;
    }
    proof {
        assert(rows.deep_view().take(rows.len() as int) =~= rows.deep_view());
    }
    selected
}

/// Takes the last row out of a list.
pub fn take_last<T: DeepView>(rows: Vec<T>) -> (last: Option<T>)
    ensures
        last.deep_view() == last_row(rows.deep_view()),
{
    let mut rows: Vec<T> = rows;
    proof {
        if rows.len() > 0 {
            assert(rows.deep_view().last() == rows[rows.len() - 1].deep_view());
        }
    }
    rows.pop()
}

/// Copies the texts of a list.
pub fn copy_texts(texts: &[String]) -> (copy: Vec<String>)
    ensures
        copy.deep_view() == texts.deep_view(),
{
    let mut copy: Vec<String> = Vec::new();
    let mut i: usize = 0;
    while i < texts.len()
        invariant
            i <= texts.len(),
            copy.deep_view() == texts.deep_view().take(i as int),
        decreases texts.len() - i,
    {
        push_row(&mut copy, texts[i].clone());
        proof {
            assert(texts.deep_view().take(i + 1) =~= texts.deep_view().take(i as int).push(
                texts[i as int]@,
            ));
        }
        i = i + 1;
    }
    proof {
        assert(texts.deep_view().take(texts.len() as int) =~= texts.deep_view());
    }
    copy
}

/// Appends a row.
pub fn push_row<T: DeepView>(rows: &mut Vec<T>, row: T)
    ensures
        final(rows).deep_view() == old(rows).deep_view().push(row.deep_view()),
{
    rows.push(row);
    proof {
        assert(rows.deep_view() =~= old(rows).deep_view().push(row.deep_view()));
    }
}

/// Appends all rows of another table.
pub fn append_rows<T: DeepView>(rows: &mut Vec<T>, more: Vec<T>)
    ensures
        final(rows).deep_view() == old(rows).deep_view() + more.deep_view(),
{
    let mut more: Vec<T> = more;
    let ghost added = more.deep_view();
    rows.append(&mut more);
    proof {
        assert(rows.deep_view() =~= old(rows).deep_view() + added);
    }
}

/// Keeps the rows that meet the condition and removes the others.
pub fn keep_rows<T: Duplicate, P: RowTest<T>>(rows: &mut Vec<T>, test: &P)
    ensures
        final(rows).deep_view() == old(rows).deep_view().filter(test.accepts()),
{
    let kept: Vec<T> = select_rows(rows, test);
    *rows = kept;
}

/// Makes a change to each row.
pub fn change_rows<T: DeepView, C: RowChange<T>>(rows: &mut Vec<T>, change: &C)
    ensures
        final(rows).deep_view() == old(rows).deep_view().map_values(change.change()),
{
    let mut changed: Vec<T> = Vec::new();
    let mut i: usize = 0;
    while i < rows.len()
        invariant
            i <= rows.len(),
            changed.deep_view().len() == i,
            changed.len() == changed.deep_view().len(),
            forall|k: int|
                0 <= k < i ==> #[trigger] changed.deep_view()[k] == (change.change())(
                    rows.deep_view()[k],
                ),
        decreases rows.len() - i,
    {
        let ghost before = changed.deep_view();
        push_row(&mut changed, change.apply(&rows[i]));
        proof {
            assert(rows.deep_view()[i as int] == rows[i as int].deep_view());
        }
        i = i + 1;
    }
    proof {
        assert(changed.deep_view() =~= rows.deep_view().map_values(change.change()));
    }
    *rows = changed;
}

impl Duplicate for String {
    fn duplicate(&self) -> (copy: Self) {
        self.clone()
    }
}

impl Duplicate for i64 {
    fn duplicate(&self) -> (copy: Self) {
        *self
    }
}

impl Duplicate for usize {
    fn duplicate(&self) -> (copy: Self) {
        *self
    }
}

impl Duplicate for bool {
    fn duplicate(&self) -> (copy: Self) {
        *self
    }
}

impl<T: Duplicate> Duplicate for Option<T> {
    fn duplicate(&self) -> (copy: Self) {
        match self {
            Some(value) => Some(value.duplicate()),
            None => None,
        }
    }
}

impl<T: Duplicate> Duplicate for Vec<T> {
    fn duplicate(&self) -> (copy: Self) {
        let mut copy: Vec<T> = Vec::new();
        let mut i: usize = 0;
        while i < self.len()
            invariant
                i <= self.len(),
                copy.deep_view() == self.deep_view().take(i as int),
            decreases self.len() - i,
        {
            push_row(&mut copy, self[i].duplicate());
            proof {
                assert(self.deep_view().take(i + 1) =~= self.deep_view().take(i as int).push(
                    self[i as int].deep_view(),
                ));
            }
            i = i + 1;
        }
        proof {
            assert(self.deep_view().take(self.len() as int) =~= self.deep_view());
        }
        copy
    }
}

} // verus!
