use super::item::{ItemTypeId, Price};
use crate::text::{decimal_u16};
use vstd::prelude::*;

verus! {

/// The crew's wallet.
pub struct Points(pub i32);

/// How many of an item a store has.
#[derive(Debug, Clone, Copy, PartialEq, Eq, Structural)]
pub enum StockQuantity {
    Unlimited,
    Count(u16),
}

impl StockQuantity {
    /// Whether the stock is sold out.
    pub fn is_zero(&self) -> (r: bool)
        ensures
            r == (*self == StockQuantity::Count(0)),
    {
        match self {
            StockQuantity::Count(0) => true,
            _ => false,
        }
    }

    /// The stock after `subtracted` items are taken, or none where fewer are there.
    pub fn subtracted(&self, subtracted: u16) -> (r: Option<Self>)
        ensures
            *self == StockQuantity::Unlimited ==> r == Some(StockQuantity::Unlimited),
            *self matches StockQuantity::Count(count) ==> (if subtracted <= count {
                r == Some(StockQuantity::Count((count - subtracted) as u16))
            } else {
                r is None
            }),
    {
        match self {
            StockQuantity::Unlimited => Some(StockQuantity::Unlimited),
            StockQuantity::Count(count) => match count.checked_sub(subtracted) {
                Some(c) => Some(StockQuantity::Count(c)),
                None => None,
            },
        }
    }

    /// The text of the quantity (as its `Display`): "Unlimited", "SOLD OUT" or the count.
    pub fn to_text(&self) -> (s: String)
        ensures
            *self == StockQuantity::Unlimited ==> s@ == "Unlimited"@,
            *self == StockQuantity::Count(0) ==> s@ == "SOLD OUT"@,
            (*self matches StockQuantity::Count(count) && count > 0) ==> s@ == crate::text::decimal(self->Count_0 as nat),
    {
        match self {
            StockQuantity::Unlimited => "Unlimited".to_owned(),
            StockQuantity::Count(0) => "SOLD OUT".to_owned(),
            StockQuantity::Count(count) => decimal_u16(*count),
        }
    }
}

/// An item that a store sells, at a price, with a quantity.
#[derive(Debug, Clone)]
pub struct StoreStock {
    pub item: ItemTypeId,
    pub price: Price,
    pub quantity: StockQuantity,
}

/// The stock of a shopkeeper.
pub struct Shopkeeper(pub Vec<StoreStock>);

/// Marks a character who is trading with a shopkeeper.
pub struct IsTrading(pub super::EntityId);

} // verus!
