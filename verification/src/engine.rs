//! Evaluation of a trigger rule over the listings of an event.

use vstd::prelude::*;
use crate::listing::Listing;
use crate::rule::{Aggregation, Node, TriggerRule, compare, field_value, node_holds};

verus! {

/// Whether `i` is the listing that a firing rule reports: it satisfies the
/// tree, no satisfying listing is cheaper, and every earlier satisfying
/// listing is dearer.
pub open spec fn is_best(root: Node, listings: Seq<Listing>, i: int) -> bool {
    &&& 0 <= i < listings.len()
    &&& node_holds(root, listings[i])
    &&& forall|j: int|
        0 <= j < listings.len() && node_holds(root, #[trigger] listings[j])
            ==> listings[i].price_per_unit <= listings[j].price_per_unit
    &&& forall|j: int|
        0 <= j < i && node_holds(root, #[trigger] listings[j])
            ==> listings[i].price_per_unit < listings[j].price_per_unit
}

/// Whether some listing satisfies the tree.
pub open spec fn any_holds(root: Node, listings: Seq<Listing>) -> bool {
    exists|j: int| 0 <= j < listings.len() && node_holds(root, #[trigger] listings[j])
}

/// Whether every listing satisfies the tree.
pub open spec fn every_holds(root: Node, listings: Seq<Listing>) -> bool {
    forall|j: int| 0 <= j < listings.len() ==> node_holds(root, #[trigger] listings[j])
}

/// Whether the rule fires on the listings. A rule never fires on an empty
/// set of listings, in either mode.
pub open spec fn fires(rule: TriggerRule, listings: Seq<Listing>) -> bool {
    match rule.aggregation {
        Aggregation::Any => any_holds(rule.root, listings),
        Aggregation::All => listings.len() > 0 && every_holds(rule.root, listings),
    }
}

/// The price that the rule reports on the listings: that of the earliest
/// cheapest listing that satisfies the tree, where the rule fires.
pub open spec fn reported_price(rule: TriggerRule, listings: Seq<Listing>) -> Option<i32> {
    if fires(rule, listings) {
        Some(listings[choose|i: int| is_best(rule.root, listings, i)].price_per_unit)
    } else {
        None
    }
}

/// The index of the earliest cheapest listing that satisfies the tree, if any
/// listing satisfies it.
pub fn cheapest_satisfying(root: &Node, listings: &Vec<Listing>) -> (best: Option<usize>)
    ensures
        best is Some <==> any_holds(*root, listings@),
        best matches Some(i) ==> is_best(*root, listings@, i as int),
{
    let mut best: Option<usize> = None;
    let mut k: usize = 0;
    while k < listings.len()
        invariant
            k <= listings@.len(),
            best is Some <==> any_holds(*root, listings@.subrange(0, k as int)),
            best matches Some(i) ==> i < k && is_best(*root, listings@.subrange(0, k as int), i as int),
        decreases listings.len() - k,
    {
        let ghost before = listings@.subrange(0, k as int);
        let ghost after = listings@.subrange(0, k + 1);
        let holds = root.holds(&listings[k]);
        proof {
            assert(forall|j: int| 0 <= j < k ==> before[j] == after[j]);
            assert(after[k as int] == listings@[k as int]);
            if any_holds(*root, before) {
                let j = choose|j: int| 0 <= j < before.len() && node_holds(*root, #[trigger] before[j]);
                assert(node_holds(*root, after[j]));
            }
        }
        if holds {
            let better = match best {
                None => true,
                Some(i) => listings[k].price_per_unit < listings[i].price_per_unit,
            };
            if better {
                best = Some(k);
            }
            proof {
                assert(node_holds(*root, after[k as int]));
            }
        } else {
            proof {
                if any_holds(*root, after) {
                    let j = choose|j: int| 0 <= j < after.len() && node_holds(*root, #[trigger] after[j]);
                    assert(j < k);
                    assert(node_holds(*root, before[j]));
                }
            }
        }
        k = k + 1;
    }
    proof {
        assert(listings@.subrange(0, k as int) =~= listings@);
    }
    best
}

/// Whether every listing satisfies the tree.
pub fn all_satisfy(root: &Node, listings: &Vec<Listing>) -> (b: bool)
    ensures
        b == every_holds(*root, listings@),
{
    let mut k: usize = 0;
    while k < listings.len()
        invariant
            k <= listings@.len(),
            forall|j: int| 0 <= j < k ==> node_holds(*root, #[trigger] listings@[j]),
        decreases listings.len() - k,
    {
        if !root.holds(&listings[k]) {
            return false;
        }
        k = k + 1;
    }
    true
}

impl TriggerRule {
    /// The index of the listing that the rule reports, if the rule fires.
    pub fn best_listing(&self, listings: &Vec<Listing>) -> (best: Option<usize>)
        ensures
            best is Some <==> fires(*self, listings@),
            best matches Some(i) ==> is_best(self.root, listings@, i as int),
    {
        match self.aggregation {
            Aggregation::Any => cheapest_satisfying(&self.root, listings),
            Aggregation::All => {
                if all_satisfy(&self.root, listings) {
                    let best = cheapest_satisfying(&self.root, listings);
                    proof {
                        if listings@.len() > 0 {
                            assert(node_holds(self.root, listings@[0]));
                        }
                    }
                    best
                } else {
                    None
                }
            },
        }
    }

    /// The price that the rule reports on the listings: that of the earliest
    /// cheapest listing that satisfies the tree, if the rule fires.
    pub fn evaluate(&self, listings: &Vec<Listing>) -> (value: Option<i32>)
        ensures
            value == reported_price(*self, listings@),
            value is Some <==> fires(*self, listings@),
            value matches Some(p) ==> exists|i: int|
                is_best(self.root, listings@, i) && p == (#[trigger] listings@[i]).price_per_unit,
    {
        match self.best_listing(listings) {
            Some(i) => {
                proof {
                    assert(is_best(self.root, listings@, i as int));
                    let c = choose|c: int| is_best(self.root, listings@, c);
                    best_is_unique(self.root, listings@, i as int, c);
                }
                Some(listings[i].price_per_unit)
            },
            None => None,
        }
    }
}

/// The listing that a rule reports is unique, so the reported price is a
/// function of the rule and the listings.
pub proof fn best_is_unique(root: Node, listings: Seq<Listing>, i: int, j: int)
    requires
        is_best(root, listings, i),
        is_best(root, listings, j),
    ensures
        i == j,
{
}

/// Where some listing satisfies the tree, there is a listing to report.
pub proof fn best_exists(root: Node, listings: Seq<Listing>)
    requires
        any_holds(root, listings),
    ensures
        exists|i: int| is_best(root, listings, i),
    decreases listings.len(),
{
    let last = listings.len() - 1;
    let init = listings.drop_last();
    let w = choose|j: int| 0 <= j < listings.len() && node_holds(root, #[trigger] listings[j]);
    assert forall|j: int| 0 <= j < init.len() implies #[trigger] init[j] == listings[j] by {}
    if any_holds(root, init) {
        best_exists(root, init);
        let b = choose|b: int| is_best(root, init, b);
        assert(init[b] == listings[b]);
        if node_holds(root, listings[last]) && listings[last].price_per_unit < listings[b].price_per_unit {
            assert forall|j: int| 0 <= j < listings.len() && node_holds(root, #[trigger] listings[j]) implies listings[last].price_per_unit
                <= listings[j].price_per_unit by {
                if j < last {
                    assert(node_holds(root, init[j]));
                }
            }
            assert forall|j: int| 0 <= j < last && node_holds(root, #[trigger] listings[j]) implies listings[last].price_per_unit
                < listings[j].price_per_unit by {
                assert(node_holds(root, init[j]));
            }
            assert(is_best(root, listings, last));
        } else {
            assert forall|j: int| 0 <= j < listings.len() && node_holds(root, #[trigger] listings[j]) implies listings[b].price_per_unit
                <= listings[j].price_per_unit by {
                if j < last {
                    assert(node_holds(root, init[j]));
                }
            }
            assert forall|j: int| 0 <= j < b && node_holds(root, #[trigger] listings[j]) implies listings[b].price_per_unit
                < listings[j].price_per_unit by {
                assert(node_holds(root, init[j]));
            }
            assert(is_best(root, listings, b));
        }
    } else {
        assert(w == last) by {
            if w < last {
                assert(node_holds(root, init[w]));
            }
        }
        assert forall|j: int| 0 <= j < last implies !node_holds(root, #[trigger] listings[j]) by {
            if node_holds(root, listings[j]) {
                assert(node_holds(root, init[j]));
            }
        }
        assert(is_best(root, listings, last));
    }
}

/// Where a rule fires, the price that it reports is that of a listing that
/// satisfies the tree, and no listing that satisfies the tree is cheaper.
pub proof fn reported_price_is_minimum(rule: TriggerRule, listings: Seq<Listing>)
    requires
        fires(rule, listings),
    ensures
        exists|i: int|
            is_best(rule.root, listings, i) && reported_price(rule, listings) == Some(
                (#[trigger] listings[i]).price_per_unit,
            ),
{
    if rule.aggregation == Aggregation::All {
        assert(node_holds(rule.root, listings[0]));
    }
    best_exists(rule.root, listings);
    let c = choose|i: int| is_best(rule.root, listings, i);
    assert(is_best(rule.root, listings, c));
}

/// Negating the tree twice leaves the outcome on every set of listings
/// unchanged: the rule fires on the same sets and reports the same price.
pub proof fn double_negation_evaluates_identically(rule: TriggerRule, listings: Seq<Listing>)
    ensures
        reported_price(
            TriggerRule {
                aggregation: rule.aggregation,
                root: Node::Not(Box::new(Node::Not(Box::new(rule.root)))),
            },
            listings,
        ) == reported_price(rule, listings),
{
    let root = Node::Not(Box::new(Node::Not(Box::new(rule.root))));
    let twice = TriggerRule { aggregation: rule.aggregation, root };
    assert forall|l: Listing| node_holds(root, l) == node_holds(rule.root, l) by {
        crate::rule::double_negation(rule.root, l);
    }
    if any_holds(rule.root, listings) {
        let j = choose|j: int| 0 <= j < listings.len() && node_holds(rule.root, #[trigger] listings[j]);
        assert(node_holds(root, listings[j]));
    }
    if any_holds(root, listings) {
        let j = choose|j: int| 0 <= j < listings.len() && node_holds(root, #[trigger] listings[j]);
        assert(node_holds(rule.root, listings[j]));
    }
    assert(fires(twice, listings) == fires(rule, listings));
    if fires(rule, listings) {
        reported_price_is_minimum(rule, listings);
        reported_price_is_minimum(twice, listings);
        let a = choose|i: int| is_best(rule.root, listings, i);
        let b = choose|i: int| is_best(root, listings, i);
        assert(is_best(rule.root, listings, b));
        best_is_unique(rule.root, listings, a, b);
    }
}

/// On a single listing a predicate rule fires exactly when the listing's
/// field stands in the predicate's relation to the threshold, in either mode,
/// and then reports the listing's price.
pub proof fn single_listing_predicate(rule: TriggerRule, listing: Listing)
    requires
        rule.root is Predicate,
    ensures
        fires(rule, seq![listing]) == compare(
            rule.root->op,
            field_value(rule.root->field, listing),
            rule.root->threshold as int,
        ),
        reported_price(rule, seq![listing]) == if fires(rule, seq![listing]) {
            Some(listing.price_per_unit)
        } else {
            None
        },
{
    let s = seq![listing];
    assert(s[0] == listing);
    if node_holds(rule.root, listing) {
        assert(node_holds(rule.root, s[0]));
    }
    if fires(rule, s) {
        reported_price_is_minimum(rule, s);
    }
}

} // verus!
