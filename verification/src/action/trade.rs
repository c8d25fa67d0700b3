use crate::base::area::ShipStatus;
use crate::base::item::{ItemTypeId, Price};
use crate::base::store::{Points, Shopkeeper, StockQuantity, StoreStock};
use super::Error;
use crate::base::name::{ArticleKind, CountFormat, NounData};
use crate::text::{concat, concat4, concat5, decimal_i32, join_elements, joined, signed_decimal, str_eq};
use vstd::prelude::*;

verus! {

/// The position of the first stock of the item, if the store has it.
pub open spec fn stock_index(stocks: Seq<StoreStock>, item: Seq<char>) -> Option<int> {
    if exists|i: int| 0 <= i < stocks.len() && stocks[i].item.0@ == item {
        Some(
            choose|i: int|
                0 <= i < stocks.len() && stocks[i].item.0@ == item && forall|j: int|
                    0 <= j < i ==> stocks[j].item.0@ != item,
        )
    } else {
        None
    }
}

pub proof fn lemma_stock_index(stocks: Seq<StoreStock>, item: Seq<char>, i: int)
    requires
        0 <= i < stocks.len(),
        stocks[i].item.0@ == item,
        forall|j: int| 0 <= j < i ==> stocks[j].item.0@ != item,
    ensures
        stock_index(stocks, item) == Some(i),
{
    let k = choose|k: int|
        0 <= k < stocks.len() && stocks[k].item.0@ == item && forall|j: int|
            0 <= j < k ==> stocks[j].item.0@ != item;
    if k < i {
        assert(stocks[k].item.0@ != item);
    }
    if k > i {
        assert(stocks[i].item.0@ != item);
    }
}

/// The first stock of `item_type` in the store.
pub fn find_stock(shopkeeper: &Shopkeeper, item_type: &ItemTypeId) -> (r: Option<usize>)
    ensures
        r matches Some(i) ==> stock_index(shopkeeper.0@, item_type.0@) == Some(i as int) && i < shopkeeper.0.len(),
        r is None ==> stock_index(shopkeeper.0@, item_type.0@) is None,
{
    let mut i: usize = 0;
    while i < shopkeeper.0.len()
        invariant
            i <= shopkeeper.0.len(),
            forall|j: int| 0 <= j < i ==> shopkeeper.0@[j].item.0@ != item_type.0@,
        decreases shopkeeper.0.len() - i,
    {
        if str_eq(shopkeeper.0[i].item.0.as_str(), item_type.0.as_str()) {
            proof {
                lemma_stock_index(shopkeeper.0@, item_type.0@, i as int);
            }
            return Some(i);
        }
        i = i + 1;
    }
    None
}

/// Takes `points` from the crew's wallet, where the crew has one and can afford it.
pub fn try_spend_points(wallet: &mut Option<Points>, points: i32) -> (r: Result<(), String>)
    requires
        *old(wallet) matches Some(w) ==> w.0 - points <= i32::MAX,
    ensures
        *old(wallet) is None ==> (r matches Err(e) && e@ == "The crew is missing its wallet."@),
        *old(wallet) matches Some(w) && w.0 < points ==> (r matches Err(e) && e@
            == "The crew cannot afford that."@),
        r is Err ==> *final(wallet) == *old(wallet),
        r is Ok <==> (*old(wallet) matches Some(w) && w.0 >= points),
        r is Ok ==> final(wallet).unwrap().0 == old(wallet).unwrap().0 - points,
{
    match wallet {
        None => Err("The crew is missing its wallet.".to_owned()),
        Some(crew_points) => {
            if crew_points.0 < points {
                return Err("The crew cannot afford that.".to_owned());
            }
            crew_points.0 = crew_points.0 - points;
            Ok(())
        },
    }
}

/// Whether the cost of `amount` items of the stock fits in an `i32`, and so does what is left in
/// the wallet after paying it.
pub open spec fn cost_fits(stocks: Seq<StoreStock>, item: Seq<char>, amount: u16, wallet: Option<Points>) -> bool {
    stock_index(stocks, item) matches Some(i) ==> {
        &&& i32::MIN <= stocks[i].price.0 * amount <= i32::MAX
        &&& wallet matches Some(w) ==> w.0 - stocks[i].price.0 * amount <= i32::MAX
    }
}

/// Buys `amount` items of `item_type` from the store that the performer trades with (none where
/// they trade with no one): the stock goes down by the amount and the wallet by its cost.
pub fn try_buy(
    shopkeeper: &mut Option<Shopkeeper>,
    wallet: &mut Option<Points>,
    item_type: &ItemTypeId,
    amount: u16,
) -> (r: Result<(ItemTypeId, Price), String>)
    requires
        *old(shopkeeper) matches Some(s) ==> cost_fits(s.0@, item_type.0@, amount, *old(wallet)),
    ensures
        r is Err ==> *final(shopkeeper) == *old(shopkeeper) && *final(wallet) == *old(wallet),
        *old(shopkeeper) is None ==> (r matches Err(e) && e@ == "Tried to buy while not trading."@),
        *old(shopkeeper) matches Some(s) ==> ({
            let stocks = s.0@;
            match stock_index(stocks, item_type.0@) {
                None => r matches Err(e) && e@ == "The item is not in stock."@,
                Some(i) => {
                    let stock = stocks[i];
                    let cost = stock.price.0 * amount;
                    if amount < 1 {
                        r matches Err(e) && e@ == "Tried to purchase a non-positive number of items."@
                    } else if stock.quantity matches StockQuantity::Count(c) && c < amount {
                        r matches Err(e) && e@ == "Tried buying more than what was in stock."@
                    } else if *old(wallet) is None {
                        r matches Err(e) && e@ == "The crew is missing its wallet."@
                    } else if old(wallet).unwrap().0 < cost {
                        r matches Err(e) && e@ == "The crew cannot afford that."@
                    } else {
                        &&& r matches Ok((item, price)) && item == stock.item && price == stock.price
                        &&& final(wallet).unwrap().0 == old(wallet).unwrap().0 - cost
                        &&& *final(shopkeeper) matches Some(fs) && fs.0@ == stocks.update(
                            i,
                            StoreStock {
                                quantity: match stock.quantity {
                                    StockQuantity::Unlimited => StockQuantity::Unlimited,
                                    StockQuantity::Count(c) => StockQuantity::Count((c - amount) as u16),
                                },
                                ..stock
                            },
                        )
                    }
                },
            }
        }),
{
    let (index, new_quantity, stock) = match &*shopkeeper {
        None => return Err("Tried to buy while not trading.".to_owned()),
        Some(shop) => {
            let index = match find_stock(shop, item_type) {
                Some(i) => i,
                None => return Err("The item is not in stock.".to_owned()),
            };
            if amount < 1 {
                return Err("Tried to purchase a non-positive number of items.".to_owned());
            }
            let new_quantity = match shop.0[index].quantity.subtracted(amount) {
                Some(q) => q,
                None => return Err("Tried buying more than what was in stock.".to_owned()),
            };
            (index, new_quantity, shop.0[index].clone_stock())
        },
    };
    let price = stock.price;
    assert(stock == old(shopkeeper).unwrap().0@[index as int]);
    let cost: i32 = price.buy_price() * (amount as i32);
    try_spend_points(wallet, cost)?;
    let item = ItemTypeId(stock.item.0.clone());
    match shopkeeper {
        Some(shop) => {
            shop.0.set(index, StoreStock { item: stock.item, price: stock.price, quantity: new_quantity });
        },
        None => {},
    }
    Ok((item, price))
}

impl StoreStock {
    /// A copy of the stock.
    pub fn clone_stock(&self) -> (s: Self)
        ensures
            s == *self,
    {
        StoreStock { item: ItemTypeId(self.item.0.clone()), price: self.price, quantity: self.quantity }
    }
}

/// The sum of the sell prices.
pub open spec fn sell_total(prices: Seq<Price>) -> int
    decreases prices.len(),
{
    if prices.len() == 0 {
        0
    } else {
        sell_total(prices.drop_last()) + (prices.last().0 - crate::text::trunc_div(prices.last().0 as int, 4))
    }
}

/// Whether every partial sum of the sell prices fits in an `i32`.
pub open spec fn sell_total_fits(prices: Seq<Price>) -> bool {
    forall|k: int| 0 <= k <= prices.len() ==> i32::MIN <= #[trigger] sell_total(prices.take(k)) <= i32::MAX
}

/// What the store pays for the items: the sum of their sell prices.
pub fn sell_value(prices: &Vec<Price>) -> (v: i32)
    requires
        sell_total_fits(prices@),
    ensures
        v == sell_total(prices@),
{
    let mut value: i32 = 0;
    let mut i: usize = 0;
    assert(prices@.take(0).len() == 0);
    while i < prices.len()
        invariant
            i <= prices.len(),
            sell_total_fits(prices@),
            value == sell_total(prices@.take(i as int)),
        decreases prices.len() - i,
    {
        assert(prices@.take(i + 1).drop_last() == prices@.take(i as int));
        assert(prices@.take(i + 1).last() == prices@[i as int]);
        assert(i32::MIN <= sell_total(prices@.take(i + 1)) <= i32::MAX);
        value = value + prices[i].sell_price();
        i = i + 1;
    }
    assert(prices@.take(prices.len() as int) == prices@);
    value
}

/// Whether the crew keeps enough fuel for the ship after a sale: true where there is no ship or
/// it needs no fuel, and otherwise where the crew's fuel cans that are not being sold cover
/// what the ship needs.
pub fn check_has_fuel_reserve(ship_status: Option<ShipStatus>, crew_fuel_cans_kept: usize) -> (r: bool)
    ensures
        r == (match ship_status {
            Some(ShipStatus::NeedFuel(amount)) => crew_fuel_cans_kept >= amount.cans(),
            _ => true,
        }),
{
    match ship_status {
        Some(ShipStatus::NeedFuel(amount)) => crew_fuel_cans_kept >= amount.can_count(),
        _ => true,
    }
}


/// An item offered for sale: whether it still exists, whether the seller holds it, its price
/// (none where it cannot be sold), and whether it is a fuel can.
#[derive(Debug, Clone, Copy)]
pub struct SaleItem {
    pub exists: bool,
    pub held_by_performer: bool,
    pub price: Option<Price>,
    pub is_fuel_can: bool,
}

/// Why an item cannot be sold, the checks taken in order; none where it can.
pub open spec fn sale_item_error(item: SaleItem) -> Option<Seq<char>> {
    if !item.exists {
        Some("One of the items being sold no longer exists."@)
    } else if !item.held_by_performer {
        Some("Item to sell is not being held!"@)
    } else if item.price is None {
        Some("That item can not be sold."@)
    } else {
        None
    }
}

/// The index of the first item from `from` on that cannot be sold, or the number of items.
pub open spec fn first_unsellable(items: Seq<SaleItem>, from: int) -> int
    decreases items.len() - from,
{
    if from < 0 || from >= items.len() {
        items.len() as int
    } else if sale_item_error(items[from]) is Some {
        from
    } else {
        first_unsellable(items, from + 1)
    }
}

proof fn lemma_first_unsellable_bounds(items: Seq<SaleItem>, from: int)
    requires
        0 <= from <= items.len(),
    ensures
        from <= first_unsellable(items, from) <= items.len(),
    decreases items.len() - from,
{
    if from < items.len() && sale_item_error(items[from]) is None {
        lemma_first_unsellable_bounds(items, from + 1);
    }
}

/// The prices of the items.
pub open spec fn sale_prices(items: Seq<SaleItem>) -> Seq<Price> {
    items.map_values(|it: SaleItem| it.price->0)
}

/// Whether some item is a fuel can.
pub open spec fn sells_fuel(items: Seq<SaleItem>) -> bool {
    exists|i: int| 0 <= i < items.len() && (#[trigger] items[i]).is_fuel_can
}

/// Checks the items of a sale in order: the first that cannot be sold decides the failure.
/// Otherwise gives what the store pays, and whether a fuel can is among them.
pub fn check_sale(items: &Vec<SaleItem>) -> (r: Result<(i32, bool), String>)
    requires
        sell_total_fits(sale_prices(items@.take(first_unsellable(items@, 0)))),
    ensures
        first_unsellable(items@, 0) < items.len() ==> (r matches Err(e) && Some(e@) == sale_item_error(
            items@[first_unsellable(items@, 0)],
        )),
        first_unsellable(items@, 0) == items.len() ==> (r matches Ok((value, fuel)) && value == sell_total(
            sale_prices(items@),
        ) && fuel == sells_fuel(items@)),
{
    let mut value: i32 = 0;
    let mut fuel = false;
    let mut i: usize = 0;
    let ghost k = first_unsellable(items@, 0);
    proof {
        lemma_first_unsellable_bounds(items@, 0);
    }
    assert(sale_prices(items@).take(0).len() == 0);
    while i < items.len()
        invariant
            i <= items.len(),
            first_unsellable(items@, 0) == k,
            k == first_unsellable(items@, i as int),
            i <= k,
            sell_total_fits(sale_prices(items@.take(k))),
            value == sell_total(sale_prices(items@).take(i as int)),
            fuel == exists|j: int| 0 <= j < i && (#[trigger] items@[j]).is_fuel_can,
        decreases items.len() - i,
    {
        let item = items[i];
        if !item.exists {
            return Err("One of the items being sold no longer exists.".to_owned());
        }
        if !item.held_by_performer {
            return Err("Item to sell is not being held!".to_owned());
        }
        let price = match item.price {
            Some(p) => p,
            None => return Err("That item can not be sold.".to_owned()),
        };
        proof {
            lemma_first_unsellable_bounds(items@, i + 1);
        }
        assert(k > i);
        assert(sale_prices(items@.take(k)).take(i + 1) =~= sale_prices(items@).take(i + 1));
        assert(sale_prices(items@).take(i + 1).drop_last() =~= sale_prices(items@).take(i as int));
        assert(i32::MIN <= sell_total(sale_prices(items@.take(k)).take(i + 1)) <= i32::MAX);
        value = value + price.sell_price();
        fuel = fuel || item.is_fuel_can;
        i = i + 1;
    }
    assert(sale_prices(items@).take(items.len() as int) =~= sale_prices(items@));
    Ok((value, fuel))
}

/// The refusal to sell a fuel can that the ship still needs.
pub fn fuel_sale_refusal(performer_name: &str) -> (e: Error)
    ensures
        !e.visible,
        e.message@ == performer_name@
            + " does not want to sell their fuel can, since they need it to refuel their ship."@,
{
    Error::private(concat(performer_name, " does not want to sell their fuel can, since they need it to refuel their ship."))
}

/// The message of a sale: the items sold, counted and listed, and what they brought.
pub fn sold_message(performer_name: &str, item_names: &Vec<String>, value: i32) -> (s: String)
    ensures
        s@ == performer_name@ + " sold "@ + joined(item_names@.map_values(|n: String| n@)) + " for "@
            + signed_decimal(value as int) + "."@,
{
    let list = join_elements(item_names);
    let amount = decimal_i32(value);
    concat5(performer_name, " sold ", list.as_str(), " for ", concat(amount.as_str(), ".").as_str())
}

/// The message of a purchase: the performer and the items bought, counted with their article.
pub fn bought_message(performer_name: &str, noun: &NounData, amount: u16) -> (s: String)
    ensures
        s@ == performer_name@ + " bought "@ + noun.counted(None, amount, ArticleKind::A, CountFormat::Text) + "."@,
{
    let items = noun.with_text_count(amount, ArticleKind::A);
    concat4(performer_name, " bought ", items.as_str(), ".")
}

/// The message of starting to trade, with the shopkeeper's greeting.
pub fn trade_start_message(performer_name: &str) -> (s: String)
    ensures
        s@ == performer_name@
            + " starts trading with the shopkeeper. \"Welcome to the store. What do you want to buy?\""@,
{
    concat(performer_name, " starts trading with the shopkeeper. \"Welcome to the store. What do you want to buy?\"")
}

/// Leaving the store: fails where the performer is not trading; otherwise the message.
pub fn exit_trade(performer_name: &str, is_trading: bool) -> (r: Result<String, Error>)
    ensures
        !is_trading ==> (r matches Err(e) && !e.visible && e.message@ == performer_name@ + " is already not trading."@),
        is_trading ==> (r matches Ok(m) && m@ == performer_name@ + " stops trading with the shopkeeper."@),
{
    if !is_trading {
        return Err(Error::private(concat(performer_name, " is already not trading.")));
    }
    Ok(concat(performer_name, " stops trading with the shopkeeper."))
}

} // verus!
