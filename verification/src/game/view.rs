use crate::base::display::{CreatureVariantSet, DialogueExpression};
use crate::base::item::Price;
use crate::base::name::NounData;
use crate::base::store::StockQuantity;
use vstd::prelude::*;

verus! {

/// Lines of text to show to the player, in order.
pub struct Messages(pub Vec<String>);

impl Messages {
    /// No messages.
    pub fn new() -> (m: Self)
        ensures
            m.0@ == Seq::<String>::empty(),
    {
        Messages(Vec::new())
    }

    /// Adds a line after the others.
    pub fn add(&mut self, message: String)
        ensures
            final(self).0@ == old(self).0@.push(message),
    {
        self.0.push(message);
    }
}

/// How an item in the inventory of the controlled character is shown: its name and what can be
/// done with it.
pub struct ItemProfile {
    pub name: String,
    pub is_wieldable: bool,
    pub is_wielded: bool,
    pub is_usable: bool,
}

impl ItemProfile {
    /// The item's name.
    pub fn name(&self) -> (s: &str)
        ensures
            s@ == self.name@,
    {
        self.name.as_str()
    }
}

/// How a stock of a store is shown: the item's noun, its price and how many are left.
pub struct StoreStockView {
    pub item_noun: NounData,
    pub price: Price,
    pub quantity: StockQuantity,
}

/// What decides how an object is drawn: whether it is cut open, alive and badly hurt, its
/// expression and its variants.
pub struct ObjectProperties {
    pub is_cut: bool,
    pub is_alive: bool,
    pub is_badly_hurt: bool,
    pub expression: DialogueExpression,
    pub creature_variant_set: CreatureVariantSet,
}

} // verus!
