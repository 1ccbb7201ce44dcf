//! Selection of the stored alerts that an event concerns.

use vstd::prelude::*;
use vstd::utf8::encode_utf8;
use crate::codec::parse_rule;
use crate::listing::WILDCARD_ITEM;
use crate::rule::TriggerRule;

verus! {

/// The schema versions of stored rules that this process understands, both
/// ends included.
#[derive(Clone, Copy, Debug, PartialEq, Eq, Structural)]
pub struct VersionWindow {
    pub min_supported: i32,
    pub max_supported: i32,
}

/// One stored alert, as the store hands it out.
#[derive(Debug)]
pub struct AlertRow {
    pub world_id: i32,
    pub item_id: i32,
    pub trigger_version: i32,
    pub name: String,
    pub discord_webhook: Option<String>,
    pub trigger: String,
}

/// What a selected alert carries on: its owner, the endpoint to notify, if
/// there is one, and the stored text of its rule.
#[derive(Debug)]
pub struct UserAlert {
    pub name: String,
    pub discord_webhook: Option<String>,
    pub trigger: String,
}

/// Selects alerts for events, within one window of schema versions.
#[derive(Clone, Copy, Debug)]
pub struct AlertMatcher {
    pub window: VersionWindow,
}

/// Whether a version lies in the window.
pub open spec fn supported(window: VersionWindow, version: i32) -> bool {
    window.min_supported <= version <= window.max_supported
}

/// Whether a stored alert concerns an event of the given world and item: it
/// is of that world, of that item or of any item, and of a supported version.
pub open spec fn selects(window: VersionWindow, row: AlertRow, world_id: i32, item_id: i32) -> bool {
    &&& row.world_id == world_id
    &&& (row.item_id == item_id || row.item_id == WILDCARD_ITEM)
    &&& supported(window, row.trigger_version)
}

/// The part of a row that is carried on.
pub open spec fn alert_of(row: AlertRow) -> UserAlert {
    UserAlert { name: row.name, discord_webhook: row.discord_webhook, trigger: row.trigger }
}

/// The candidate that a row gives: the alert with its parsed rule, where the
/// row is selected and its stored text is that of a rule.
pub open spec fn candidate_of(window: VersionWindow, row: AlertRow, world_id: i32, item_id: i32) -> Option<
    (UserAlert, TriggerRule),
> {
    if selects(window, row, world_id, item_id) {
        match parse_rule(encode_utf8(row.trigger@)) {
            Some(rule) => Some((alert_of(row), rule)),
            None => None,
        }
    } else {
        None
    }
}

/// The candidates that the rows give, in the order of the rows. A row that
/// gives none is passed over and does not affect the others.
pub open spec fn candidates(window: VersionWindow, rows: Seq<AlertRow>, world_id: i32, item_id: i32) -> Seq<
    (UserAlert, TriggerRule),
>
    decreases rows.len(),
{
    if rows.len() == 0 {
        Seq::empty()
    } else {
        let before = candidates(window, rows.drop_last(), world_id, item_id);
        match candidate_of(window, rows.last(), world_id, item_id) {
            Some(c) => before.push(c),
            None => before,
        }
    }
}

fn copy_of(text: &Option<String>) -> (r: Option<String>)
    ensures
        r == *text,
{
    match text {
        Some(s) => Some(s.clone()),
        None => None,
    }
}

impl VersionWindow {
    pub fn new(min_supported: i32, max_supported: i32) -> (w: VersionWindow)
        ensures
            w.min_supported == min_supported,
            w.max_supported == max_supported,
    {
        VersionWindow { min_supported, max_supported }
    }

    /// Whether a version lies in the window.
    pub fn supports(&self, version: i32) -> (b: bool)
        ensures
            b == supported(*self, version),
    {
        self.min_supported <= version && version <= self.max_supported
    }
}

impl UserAlert {
    /// A copy of the alert.
    pub fn duplicate(&self) -> (r: UserAlert)
        ensures
            r == *self,
    {
        UserAlert {
            name: self.name.clone(),
            discord_webhook: copy_of(&self.discord_webhook),
            trigger: self.trigger.clone(),
        }
    }

    /// Whether the alert has an endpoint to notify. An alert without one is
    /// inert.
    pub fn has_endpoint(&self) -> (b: bool)
        ensures
            b == self.discord_webhook is Some,
    {
        self.discord_webhook.is_some()
    }
}

impl AlertRow {
    /// The part of the row that is carried on.
    pub fn alert(&self) -> (r: UserAlert)
        ensures
            r == alert_of(*self),
    {
        UserAlert {
            name: self.name.clone(),
            discord_webhook: copy_of(&self.discord_webhook),
            trigger: self.trigger.clone(),
        }
    }
}

impl AlertMatcher {
    pub fn new(window: VersionWindow) -> (m: AlertMatcher)
        ensures
            m.window == window,
    {
        AlertMatcher { window }
    }

    /// Whether a stored alert concerns an event of the given world and item.
    pub fn selects(&self, row: &AlertRow, world_id: i32, item_id: i32) -> (b: bool)
        ensures
            b == selects(self.window, *row, world_id, item_id),
    {
        row.world_id == world_id && (row.item_id == item_id || row.item_id == WILDCARD_ITEM)
            && self.window.supports(row.trigger_version)
    }

    /// The candidate that a row gives, if it gives one.
    pub fn candidate(&self, row: &AlertRow, world_id: i32, item_id: i32) -> (c: Option<
        (UserAlert, TriggerRule),
    >)
        ensures
            c == candidate_of(self.window, *row, world_id, item_id),
    {
        if !self.selects(row, world_id, item_id) {
            return None;
        }
        match TriggerRule::parse(row.trigger.as_str().as_bytes()) {
            Some(rule) => Some((row.alert(), rule)),
            None => None,
        }
    }

    /// The alerts among the rows that concern an event of the given world and
    /// item, each with its parsed rule, in the order of the rows.
    pub fn find_candidates(&self, rows: &Vec<AlertRow>, world_id: i32, item_id: i32) -> (found: Vec<
        (UserAlert, TriggerRule),
    >)
        ensures
            found@ == candidates(self.window, rows@, world_id, item_id),
    {
        let mut found: Vec<(UserAlert, TriggerRule)> = Vec::new();
        let mut k: usize = 0;
        while k < rows.len()
            invariant
                k <= rows@.len(),
                found@ == candidates(self.window, rows@.subrange(0, k as int), world_id, item_id),
            decreases rows.len() - k,
        {
            proof {
                let next = rows@.subrange(0, k + 1);
                assert(next.drop_last() =~= rows@.subrange(0, k as int));
                assert(next.last() == rows@[k as int]);
            }
            match self.candidate(&rows[k], world_id, item_id) {
                Some(c) => {
                    found.push(c);
                },
                None => {},
            }
            k = k + 1;
        }
        proof {
            assert(rows@.subrange(0, k as int) =~= rows@);
        }
        found
    }
}

/// An alert for any item is selected for an event exactly when it is of the
/// event's world and of a supported version, whatever the event's item.
pub proof fn wildcard_matches_by_world(window: VersionWindow, row: AlertRow, world_id: i32, item_id: i32)
    requires
        row.item_id == WILDCARD_ITEM,
    ensures
        selects(window, row, world_id, item_id) <==> row.world_id == world_id && supported(
            window,
            row.trigger_version,
        ),
{
}

/// An alert for one item is selected for an event exactly when it is of the
/// event's world and item and of a supported version.
pub proof fn concrete_matches_own_item(window: VersionWindow, row: AlertRow, world_id: i32, item_id: i32)
    requires
        row.item_id != WILDCARD_ITEM,
    ensures
        selects(window, row, world_id, item_id) <==> row.world_id == world_id && row.item_id == item_id
            && supported(window, row.trigger_version),
{
}

/// An alert of a version outside the window is selected for no event and
/// gives no candidate.
pub proof fn unsupported_version_never_selected(
    window: VersionWindow,
    row: AlertRow,
    world_id: i32,
    item_id: i32,
)
    requires
        !supported(window, row.trigger_version),
    ensures
        !selects(window, row, world_id, item_id),
        candidate_of(window, row, world_id, item_id) is None,
{
}

/// Every candidate comes from a row that is selected, so from a row of the
/// event's world, of its item or of any item, and of a supported version.
pub proof fn candidates_are_selected(
    window: VersionWindow,
    rows: Seq<AlertRow>,
    world_id: i32,
    item_id: i32,
    k: int,
)
    requires
        0 <= k < candidates(window, rows, world_id, item_id).len(),
    ensures
        exists|i: int|
            0 <= i < rows.len() && selects(window, #[trigger] rows[i], world_id, item_id)
                && candidate_of(window, rows[i], world_id, item_id) == Some(
                candidates(window, rows, world_id, item_id)[k],
            ),
    decreases rows.len(),
{
    let before = candidates(window, rows.drop_last(), world_id, item_id);
    if k < before.len() {
        candidates_are_selected(window, rows.drop_last(), world_id, item_id, k);
        let i = choose|i: int|
            0 <= i < rows.drop_last().len() && selects(window, #[trigger] rows.drop_last()[i], world_id, item_id)
                && candidate_of(window, rows.drop_last()[i], world_id, item_id) == Some(before[k]);
        assert(rows.drop_last()[i] == rows[i]);
    } else {
        assert(rows.last() == rows[rows.len() - 1]);
    }
}

} // verus!
