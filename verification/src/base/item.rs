use super::display::ModelId;
use super::name::NounId;
use crate::text::{concat, str_eq};
use vstd::prelude::*;

verus! {

/// A tool that forces a blocked door open.
#[derive(Copy, Clone, Debug, Eq, PartialEq, Structural)]
pub enum Tool {
    Crowbar,
    Blowtorch,
}

impl Tool {
    /// The message of a character forcing a door open with the tool.
    pub fn into_message(self, character_name: &str) -> (s: String)
        ensures
            self == Tool::Crowbar ==> s@ == character_name@
                + " used their crowbar and forced open the door."@,
            self == Tool::Blowtorch ==> s@ == character_name@
                + " used their blowtorch and cut open the door."@,
    {
        match self {
            Tool::Crowbar => concat(character_name, " used their crowbar and forced open the door."),
            Tool::Blowtorch => concat(character_name, " used their blowtorch and cut open the door."),
        }
    }

    /// Whether an item of this type is the tool.
    pub fn matches(self, item_type: &ItemTypeId) -> (r: bool)
        ensures
            self == Tool::Crowbar ==> r == (item_type.0@ == "crowbar"@),
            self == Tool::Blowtorch ==> r == (item_type.0@ == "blowtorch"@),
    {
        match self {
            Tool::Crowbar => item_type.is_crowbar(),
            Tool::Blowtorch => item_type.is_blowtorch(),
        }
    }
}

/// The price of an item.
#[derive(Debug, Clone, Copy)]
pub struct Price(pub i32);

impl Price {
    /// What a store asks for the item.
    pub fn buy_price(&self) -> (p: i32)
        ensures
            p == self.0,
    {
        self.0
    }

    /// What a store pays for the item: the price less a quarter of it (rounded toward zero).
    pub fn sell_price(&self) -> (p: i32)
        ensures
            p == self.0 - crate::text::trunc_div(self.0 as int, 4),
    {
        self.0 - self.0 / 4
    }
}

/// Selling an item back never pays more than buying it cost: for a price that is not negative,
/// what a store pays lies between three quarters of the buying price and the whole of it.
pub proof fn law_resale_not_profitable(price: Price)
    requires
        price.0 >= 0,
    ensures
        0 <= price.0 - crate::text::trunc_div(price.0 as int, 4) <= price.0,
        4 * (price.0 - crate::text::trunc_div(price.0 as int, 4)) >= 3 * price.0,
{
}

/// The id of an item type, such as "crowbar".
#[derive(Clone, Debug, PartialEq, Eq, Hash)]
pub struct ItemTypeId(pub String);

impl ItemTypeId {
    /// Whether this is a fuel can.
    pub fn is_fuel_can(&self) -> (r: bool)
        ensures
            r == (self.0@ == "fuel_can"@),
    {
        str_eq(self.0.as_str(), "fuel_can")
    }

    /// The food ration item type.
    pub fn food_ration() -> (t: Self)
        ensures
            t.0@ == "food_ration"@,
    {
        Self("food_ration".to_owned())
    }

    /// Whether this is a food ration.
    pub fn is_food_ration(&self) -> (r: bool)
        ensures
            r == (self.0@ == "food_ration"@),
    {
        str_eq(self.0.as_str(), "food_ration")
    }

    /// The crowbar item type.
    pub fn crowbar() -> (t: Self)
        ensures
            t.0@ == "crowbar"@,
    {
        Self("crowbar".to_owned())
    }

    /// Whether this is a crowbar.
    pub fn is_crowbar(&self) -> (r: bool)
        ensures
            r == (self.0@ == "crowbar"@),
    {
        str_eq(self.0.as_str(), "crowbar")
    }

    /// Whether this is a blowtorch.
    pub fn is_blowtorch(&self) -> (r: bool)
        ensures
            r == (self.0@ == "blowtorch"@),
    {
        str_eq(self.0.as_str(), "blowtorch")
    }

    /// Whether this is a medkit.
    pub fn is_medkit(&self) -> (r: bool)
        ensures
            r == (self.0@ == "medkit"@),
    {
        str_eq(self.0.as_str(), "medkit")
    }

    /// Whether this is a black orb.
    pub fn is_black_orb(&self) -> (r: bool)
        ensures
            r == (self.0@ == "black_orb"@),
    {
        str_eq(self.0.as_str(), "black_orb")
    }

    /// Whether this is a four-leaf clover.
    pub fn is_four_leaf_clover(&self) -> (r: bool)
        ensures
            r == (self.0@ == "four_leaf_clover"@),
    {
        str_eq(self.0.as_str(), "four_leaf_clover")
    }

    /// The noun of the item type, which has the type's id.
    pub fn noun_id(&self) -> (n: NounId)
        ensures
            n.0@ == self.0@,
    {
        NounId(self.0.clone())
    }

    /// The model of the item type: `item/{id}`.
    pub fn model_id(&self) -> (m: ModelId)
        ensures
            m.0@ == "item/"@ + self.0@,
    {
        ModelId::item(self.0.as_str())
    }

    /// The text of the id (as its `Display`).
    pub fn to_text(&self) -> (s: String)
        ensures
            s@ == self.0@,
    {
        self.0.clone()
    }
}

} // verus!
