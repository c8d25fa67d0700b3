use super::EntityId;
use vstd::prelude::*;

verus! {

/// Marks a container that can be searched.
pub struct Container;

/// Marks an item as held by an entity, in hand or in the inventory.
#[derive(Clone, Copy, Debug, PartialEq, Eq, Structural)]
pub struct Held {
    pub holder: EntityId,
    pub in_hand: bool,
}

impl Held {
    /// Whether `holder` holds the item.
    pub fn held_by(&self, holder: EntityId) -> (r: bool)
        ensures
            r == (self.holder == holder),
    {
        self.holder == holder
    }

    /// Whether the item is held in hand.
    pub fn is_in_hand(&self) -> (r: bool)
        ensures
            r == self.in_hand,
    {
        self.in_hand
    }

    /// Whether `holder` keeps the item in the inventory (not in hand).
    pub fn is_in_inventory(&self, holder: EntityId) -> (r: bool)
        ensures
            r == (self.holder == holder && !self.in_hand),
    {
        self.held_by(holder) && !self.in_hand
    }

    /// Held in the inventory of `holder`.
    pub fn in_inventory(holder: EntityId) -> (h: Self)
        ensures
            h.holder == holder,
            !h.in_hand,
    {
        Held { holder, in_hand: false }
    }

    /// Held in the hand of `holder`.
    pub fn in_hand(holder: EntityId) -> (h: Self)
        ensures
            h.holder == holder,
            h.in_hand,
    {
        Held { holder, in_hand: true }
    }
}

} // verus!
