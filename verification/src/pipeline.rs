//! What is done with one event: which of the candidate alerts are to be
//! notified, and of what price.

use vstd::prelude::*;
use crate::engine::reported_price;
use crate::listing::{Listing, MarketUpdateEvent};
use crate::matcher::{AlertMatcher, AlertRow, UserAlert, candidates};
use crate::rule::TriggerRule;

verus! {

/// An alert that is to be notified, with the price that its rule reported.
#[derive(Debug)]
pub struct Dispatch {
    pub alert: UserAlert,
    pub value: i32,
}

/// The dispatch that a candidate gives on the listings: one where its rule
/// fires and the alert has an endpoint, none otherwise.
pub open spec fn dispatch_of(candidate: (UserAlert, TriggerRule), listings: Seq<Listing>) -> Option<
    Dispatch,
> {
    match reported_price(candidate.1, listings) {
        Some(value) => if candidate.0.discord_webhook is Some {
            Some(Dispatch { alert: candidate.0, value })
        } else {
            None
        },
        None => None,
    }
}

/// The dispatches that the candidates give, in the order of the candidates.
pub open spec fn dispatches(found: Seq<(UserAlert, TriggerRule)>, listings: Seq<Listing>) -> Seq<Dispatch>
    decreases found.len(),
{
    if found.len() == 0 {
        Seq::empty()
    } else {
        let before = dispatches(found.drop_last(), listings);
        match dispatch_of(found.last(), listings) {
            Some(d) => before.push(d),
            None => before,
        }
    }
}

/// The dispatch that a candidate gives on the listings, if it gives one.
pub fn plan_dispatch(alert: &UserAlert, rule: &TriggerRule, listings: &Vec<Listing>) -> (d: Option<Dispatch>)
    ensures
        d == dispatch_of((*alert, *rule), listings@),
{
    match rule.evaluate(listings) {
        Some(value) => {
            if alert.has_endpoint() {
                Some(Dispatch { alert: alert.duplicate(), value })
            } else {
                None
            }
        },
        None => None,
    }
}

/// The dispatches that the candidates give on the listings, in the order of
/// the candidates.
pub fn plan_dispatches(found: &Vec<(UserAlert, TriggerRule)>, listings: &Vec<Listing>) -> (out: Vec<Dispatch>)
    ensures
        out@ == dispatches(found@, listings@),
{
    let mut out: Vec<Dispatch> = Vec::new();
    let mut k: usize = 0;
    while k < found.len()
        invariant
            k <= found@.len(),
            out@ == dispatches(found@.subrange(0, k as int), listings@),
        decreases found.len() - k,
    {
        proof {
            let next = found@.subrange(0, k + 1);
            assert(next.drop_last() =~= found@.subrange(0, k as int));
            assert(next.last() == found@[k as int]);
        }
        let candidate = &found[k];
        match plan_dispatch(&candidate.0, &candidate.1, listings) {
            Some(d) => {
                out.push(d);
            },
            None => {},
        }
        k = k + 1;
    }
    proof {
        assert(found@.subrange(0, k as int) =~= found@);
    }
    out
}

/// What is to be done for an event, given the stored alerts: the alerts that
/// concern it, whose rule fires on its listings and that have an endpoint,
/// each with the reported price.
pub fn process_event(matcher: &AlertMatcher, event: &MarketUpdateEvent, rows: &Vec<AlertRow>) -> (out: Vec<
    Dispatch,
>)
    ensures
        out@ == dispatches(
            candidates(matcher.window, rows@, event.world_id, event.item_id),
            event.listings@,
        ),
{
    let found = matcher.find_candidates(rows, event.world_id, event.item_id);
    plan_dispatches(&found, &event.listings)
}

/// An alert without an endpoint is never dispatched, whether or not its rule
/// fires.
pub proof fn inert_alert_never_dispatched(alert: UserAlert, rule: TriggerRule, listings: Seq<Listing>)
    requires
        alert.discord_webhook is None,
    ensures
        dispatch_of((alert, rule), listings) is None,
{
}

/// Every dispatch is for an alert that has an endpoint and whose rule fired
/// with the dispatched price.
pub proof fn dispatches_have_endpoints(found: Seq<(UserAlert, TriggerRule)>, listings: Seq<Listing>, k: int)
    requires
        0 <= k < dispatches(found, listings).len(),
    ensures
        dispatches(found, listings)[k].alert.discord_webhook is Some,
        exists|i: int|
            0 <= i < found.len() && dispatch_of(#[trigger] found[i], listings) == Some(
                dispatches(found, listings)[k],
            ),
    decreases found.len(),
{
    let before = dispatches(found.drop_last(), listings);
    if k < before.len() {
        dispatches_have_endpoints(found.drop_last(), listings, k);
        let i = choose|i: int|
            0 <= i < found.drop_last().len() && dispatch_of(#[trigger] found.drop_last()[i], listings) == Some(
                before[k],
            );
        assert(found.drop_last()[i] == found[i]);
    } else {
        assert(found.last() == found[found.len() - 1]);
    }
}

} // verus!
