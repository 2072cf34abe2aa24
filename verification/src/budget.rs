//! Packing offers into a token budget, first come first served.

use vstd::prelude::*;

use crate::model::{OmittedItem, OmittedItemModel};
use crate::table::{push_row, Duplicate};
use crate::text::Text;

verus! {

/// What becomes of an item that is offered to a context.
#[derive(Clone, Copy, Debug, PartialEq, Eq, Structural)]
pub enum Verdict {
    Kept,
    /// It does not fit what is left of the budget.
    OverBudget,
    /// All its evidence is already shown as recent events.
    InRawTail,
    /// It is already part of the continuity view.
    InView,
    /// It is already shown elsewhere in the context.
    Repeated,
}

/// An item that is offered to a context: what it costs, and the verdict if that is settled already.
pub struct Offer {
    pub cost: i64,
    pub settled: Option<Verdict>,
}

/// The mathematical content of an `Offer`.
pub struct OfferModel {
    pub cost: int,
    pub settled: Option<Verdict>,
}

impl DeepView for Offer {
    type V = OfferModel;

    open spec fn deep_view(&self) -> OfferModel {
        OfferModel { cost: self.cost as int, settled: self.settled }
    }
}

/// The verdict on an offer after `used` tokens.
pub open spec fn verdict_on(offer: OfferModel, used: int, budget: int) -> Verdict {
    match offer.settled {
        Some(verdict) => verdict,
        None => if used + offer.cost <= budget {
            Verdict::Kept
        } else {
            Verdict::OverBudget
        },
    }
}

/// How many tokens are used after some offers.
pub open spec fn used_after(offers: Seq<OfferModel>, used: int, budget: int) -> int
    decreases offers.len(),
{
    if offers.len() == 0 {
        used
    } else {
        let before = used_after(offers.drop_last(), used, budget);
        if offers.last().settled is None && verdict_on(offers.last(), before, budget) is Kept {
            before + offers.last().cost
        } else {
            before
        }
    }
}

/// The verdicts on some offers: one that fits is kept, one that does not is passed over.
pub open spec fn verdicts(offers: Seq<OfferModel>, used: int, budget: int) -> Seq<Verdict>
    decreases offers.len(),
{
    if offers.len() == 0 {
        Seq::empty()
    } else {
        verdicts(offers.drop_last(), used, budget).push(
            verdict_on(offers.last(), used_after(offers.drop_last(), used, budget), budget),
        )
    }
}

/// The rows that were kept.
pub open spec fn kept<V>(rows: Seq<V>, verdicts: Seq<Verdict>) -> Seq<V>
    decreases rows.len(),
{
    if rows.len() == 0 || verdicts.len() == 0 {
        Seq::empty()
    } else {
        let front = kept(rows.drop_last(), verdicts.drop_last());
        if verdicts.last() is Kept {
            front.push(rows.last())
        } else {
            front
        }
    }
}

/// Why an item is left out, where that is reported.
pub open spec fn reason_for(verdict: Verdict) -> Option<Text> {
    match verdict {
        Verdict::Kept => None,
        Verdict::OverBudget => Some("context token budget"@),
        Verdict::InRawTail => Some("source events already present in raw tail"@),
        Verdict::InView => Some("already represented by continuity view"@),
        Verdict::Repeated => None,
    }
}

/// The report on the items that were left out.
pub open spec fn left_out(ids: Seq<Text>, verdicts: Seq<Verdict>) -> Seq<OmittedItemModel>
    decreases ids.len(),
{
    if ids.len() == 0 || verdicts.len() == 0 {
        Seq::empty()
    } else {
        let front = left_out(ids.drop_last(), verdicts.drop_last());
        match reason_for(verdicts.last()) {
            Some(reason) => front.push(OmittedItemModel { id: ids.last(), reason }),
            None => front,
        }
    }
}

/// What a context has cost so far, and what it has left out.
#[verifier::ext_equal]
pub struct TallyModel {
    pub used: int,
    pub omitted: Seq<OmittedItemModel>,
}

pub struct Tally {
    pub used: i64,
    pub omitted: Vec<OmittedItem>,
}

impl View for Tally {
    type V = TallyModel;

    open spec fn view(&self) -> TallyModel {
        TallyModel { used: self.used as int, omitted: self.omitted.deep_view() }
    }
}

/// The tally after some offers.
pub open spec fn tallied(
    tally: TallyModel,
    ids: Seq<Text>,
    offers: Seq<OfferModel>,
    budget: int,
) -> TallyModel {
    TallyModel {
        used: used_after(offers, tally.used, budget),
        omitted: tally.omitted + left_out(ids, verdicts(offers, tally.used, budget)),
    }
}

/// Packing never goes over a budget that was not exceeded before, and never gives tokens back.
pub proof fn packing_stays_within(offers: Seq<OfferModel>, used: int, budget: int)
    requires
        used <= budget,
        forall|i: int| 0 <= i < offers.len() ==> (#[trigger] offers[i]).cost >= 0,
    ensures
        used <= used_after(offers, used, budget) <= budget,
    decreases offers.len(),
{
    if offers.len() > 0 {
        let front = offers.drop_last();
        assert forall|i: int| 0 <= i < front.len() implies (#[trigger] front[i]).cost >= 0 by {
            assert(front[i] == offers[i]);
        }
        packing_stays_within(front, used, budget);
        assert(offers[offers.len() - 1].cost >= 0);
    }
}

/// The cost of the offers that were kept on their merits.
pub open spec fn kept_cost(offers: Seq<OfferModel>, verdicts: Seq<Verdict>) -> int
    decreases offers.len(),
{
    if offers.len() == 0 || verdicts.len() == 0 {
        0
    } else {
        kept_cost(offers.drop_last(), verdicts.drop_last()) + if offers.last().settled is None
            && verdicts.last() is Kept {
            offers.last().cost
        } else {
            0
        }
    }
}

/// What packing uses is exactly the cost of what it keeps.
pub proof fn packing_counts_what_it_keeps(offers: Seq<OfferModel>, used: int, budget: int)
    ensures
        used_after(offers, used, budget) == used + kept_cost(
            offers,
            verdicts(offers, used, budget),
        ),
        verdicts(offers, used, budget).len() == offers.len(),
    decreases offers.len(),
{
    if offers.len() > 0 {
        let front = offers.drop_last();
        packing_counts_what_it_keeps(front, used, budget);
        assert(verdicts(offers, used, budget).drop_last() =~= verdicts(front, used, budget));
    }
}

fn reason_text(verdict: Verdict) -> (reason: Option<String>)
    ensures
        reason.deep_view() == reason_for(verdict),
{
    match verdict {
        Verdict::Kept => None,
        Verdict::OverBudget => Some("context token budget".to_owned()),
        Verdict::InRawTail => Some("source events already present in raw tail".to_owned()),
        Verdict::InView => Some("already represented by continuity view".to_owned()),
        Verdict::Repeated => None,
    }
}

/// Copies of the rows that were kept.
pub fn keep_packed<T: Duplicate>(rows: &Vec<T>, verdicts: &Vec<Verdict>) -> (selected: Vec<T>)
    requires
        rows.len() == verdicts.len(),
    ensures
        selected.deep_view() == kept(rows.deep_view(), verdicts@),
{
    let ghost all = rows.deep_view();
    let mut selected: Vec<T> = Vec::new();
    let mut i: usize = 0;
    proof {
        assert(selected.deep_view() =~= Seq::empty());
        assert(all.take(0) =~= Seq::empty());
    }
    while i < rows.len()
        invariant
            i <= rows.len(),
            rows.len() == verdicts.len(),
            all == rows.deep_view(),
            selected.deep_view() == kept(all.take(i as int), verdicts@.take(i as int)),
        decreases rows.len() - i,
    {
        proof {
            assert(all.take(i + 1).drop_last() =~= all.take(i as int));
            assert(verdicts@.take(i + 1).drop_last() =~= verdicts@.take(i as int));
            assert(all.take(i + 1).last() == rows[i as int].deep_view());
            assert(verdicts@.take(i + 1).last() == verdicts@[i as int]);
        }
        if verdicts[i] == Verdict::Kept {
            push_row(&mut selected, rows[i].duplicate());
        }
        i = i + 1;
    }
    proof {
        assert(all.take(all.len() as int) =~= all);
        assert(verdicts@.take(all.len() as int) =~= verdicts@);
    }
    selected
}

impl Tally {
    /// Packs some offers, and reports those that are left out.
    pub fn pack(&mut self, ids: &Vec<String>, offers: &Vec<Offer>, budget: i64) -> (verdicts: Vec<
        Verdict,
    >)
        requires
            0 <= old(self).used <= budget,
            ids.len() == offers.len(),
            forall|i: int| 0 <= i < offers.len() ==> (#[trigger] offers[i]).cost >= 0,
        ensures
            verdicts.len() == offers.len(),
            verdicts@ == crate::budget::verdicts(
                offers.deep_view(),
                old(self)@.used,
                budget as int,
            ),
            final(self)@ == tallied(
                old(self)@,
                ids.deep_view(),
                offers.deep_view(),
                budget as int,
            ),
            old(self).used <= final(self).used <= budget,
    {
        let ghost os = offers.deep_view();
        let ghost names = ids.deep_view();
        let ghost start = self@;
        let ghost limit = budget as int;
        let mut verdicts: Vec<Verdict> = Vec::new();
        let mut i: usize = 0;
        proof {
            assert(os.take(0) =~= Seq::empty());
            assert(names.take(0) =~= Seq::empty());
            assert(self@.omitted =~= start.omitted + left_out(names.take(0), verdicts@));
        }
        while i < offers.len()
            invariant
                i <= offers.len(),
                ids.len() == offers.len(),
                os == offers.deep_view(),
                names == ids.deep_view(),
                limit == budget as int,
                0 <= start.used <= self.used <= budget,
                forall|k: int| 0 <= k < offers.len() ==> (#[trigger] offers[k]).cost >= 0,
                verdicts@ == crate::budget::verdicts(os.take(i as int), start.used, limit),
                verdicts.len() == i,
                self.used == used_after(os.take(i as int), start.used, limit),
                self@.omitted == start.omitted + left_out(names.take(i as int), verdicts@),
            decreases offers.len() - i,
        {
            proof {
                assert(os.take(i + 1).drop_last() =~= os.take(i as int));
                assert(os.take(i + 1).last() == offers[i as int].deep_view());
                assert(names.take(i + 1).drop_last() =~= names.take(i as int));
                assert(names.take(i + 1).last() == ids[i as int]@);
            }
            let cost: i64 = offers[i].cost;
            let verdict: Verdict = match offers[i].settled {
                Some(verdict) => verdict,
                None => {
                    if cost <= budget - self.used {
                        self.used = self.used + cost;
                        Verdict::Kept
                    } else {
                        Verdict::OverBudget
                    }
                },
            };
            let ghost before = verdicts@;
            verdicts.push(verdict);
            proof {
                assert(verdicts@.drop_last() =~= before);
            }
            match reason_text(verdict) {
                Some(reason) => {
                    push_row(&mut self.omitted, OmittedItem { id: ids[i].clone(), reason });
                },
                None => {},
            }
            proof {
                assert(self@.omitted =~= start.omitted + left_out(
                    names.take(i + 1),
                    verdicts@,
                ));
            }
            i = i + 1;
        }
        proof {
            assert(os.take(os.len() as int) =~= os);
            assert(names.take(names.len() as int) =~= names);
        }
        verdicts
    }
}

} // verus!
