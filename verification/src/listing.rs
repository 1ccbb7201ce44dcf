//! Market listings and the update event that carries them.

use vstd::prelude::*;

verus! {

/// The item id that, in a stored alert, stands for "any item".
pub const WILDCARD_ITEM: i32 = -1;

/// One market offer.
#[derive(Clone, Copy, Debug, PartialEq, Eq, Structural)]
pub struct Listing {
    pub price_per_unit: i32,
    pub quantity: i32,
    pub hq: bool,
}

impl Listing {
    /// Prices and quantities are never negative in a listing that the market
    /// published.
    pub open spec fn well_formed(self) -> bool {
        self.price_per_unit >= 0 && self.quantity >= 0
    }

    pub fn new(price_per_unit: i32, quantity: i32, hq: bool) -> (l: Listing)
        ensures
            l.price_per_unit == price_per_unit,
            l.quantity == quantity,
            l.hq == hq,
    {
        Listing { price_per_unit, quantity, hq }
    }

    pub fn is_well_formed(&self) -> (b: bool)
        ensures
            b == self.well_formed(),
    {
        self.price_per_unit >= 0 && self.quantity >= 0
    }
}

/// The listings of one item on one world, in market order.
#[derive(Debug)]
pub struct MarketUpdateEvent {
    pub world_id: i32,
    pub item_id: i32,
    pub listings: Vec<Listing>,
}

impl MarketUpdateEvent {
    /// An event always names a concrete item, and carries only well-formed
    /// listings.
    pub open spec fn well_formed(&self) -> bool {
        &&& self.item_id != WILDCARD_ITEM
        &&& forall|i: int| 0 <= i < self.listings@.len() ==> (#[trigger] self.listings@[i]).well_formed()
    }
}

} // verus!
