use super::game::{advance_at, default_err_at, done_err};
use super::parse::{Parse, find_space, parse_u16};
use crate::base::EntityId;
use crate::base::name::NounData;
use crate::base::store::StockQuantity;
use crate::text::{concat3, concat4, str_eq};
use vstd::prelude::*;

verus! {

/// An entry of the store's stock, with the noun of its item.
pub struct StoreItem {
    pub noun: NounData,
    pub quantity: StockQuantity,
}

/// An item held by the trading character, with its names.
pub struct HeldItem {
    pub entity: EntityId,
    pub base: String,
    pub plural: String,
    pub in_hand: bool,
}

/// What the store grammar reads against: the stock in the store's order, the items held by
/// the trading character in the world's order, and that character's definite name.
pub struct StoreCommandTargets {
    pub stock: Vec<StoreItem>,
    pub held: Vec<HeldItem>,
    pub holder: String,
}

/// A command of the store grammar. Stock entries are given by their index in the stock.
#[derive(Debug, PartialEq, Eq)]
pub enum StoreCommand {
    Buy(usize, u16),
    Sell(Vec<EntityId>),
    AskAbout(usize),
    Exit,
    Status,
}

/// A store command as read, with the items to sell as a sequence.
pub enum StoreSyntax {
    Buy(int, u16),
    Sell(Seq<EntityId>),
    AskAbout(int),
    Exit,
    Status,
}

/// The store command as read.
pub open spec fn store_syntax_of(c: StoreCommand) -> StoreSyntax {
    match c {
        StoreCommand::Buy(i, n) => StoreSyntax::Buy(i as int, n),
        StoreCommand::Sell(v) => StoreSyntax::Sell(v@),
        StoreCommand::AskAbout(i) => StoreSyntax::AskAbout(i as int),
        StoreCommand::Exit => StoreSyntax::Exit,
        StoreCommand::Status => StoreSyntax::Status,
    }
}

/// Whether the result is what the spec reads.
pub open spec fn store_read_as(r: Result<StoreCommand, String>, expected: Result<StoreSyntax, Seq<char>>) -> bool {
    match expected {
        Ok(c) => r matches Ok(g) && store_syntax_of(g) == c,
        Err(m) => r matches Err(e) && e@ == m,
    }
}

/// The first of `names`, from index `from` on, that the input goes on with at `start`: where
/// the input goes on after it, and its index.
pub open spec fn first_name_from(input: Seq<char>, start: nat, names: Seq<Seq<char>>, from: int) -> Option<(nat, int)>
    decreases names.len() - from,
{
    if from < 0 || from >= names.len() {
        None
    } else {
        match advance_at(input, start, names[from]) {
            Some(s) => Some((s, from)),
            None => first_name_from(input, start, names, from + 1),
        }
    }
}

/// The names of the stock entries for an amount: singular for one, plural otherwise.
pub open spec fn stock_names(stock: Seq<StoreItem>, amount: u16) -> Seq<Seq<char>> {
    stock.map_values(|e: StoreItem| e.noun.form_for(amount))
}

/// Whether the stock holds `amount` items.
pub open spec fn in_stock(quantity: StockQuantity, amount: u16) -> bool {
    match quantity {
        StockQuantity::Unlimited => true,
        StockQuantity::Count(c) => amount <= c,
    }
}

/// The name of a held item, plural or not.
pub open spec fn held_name(item: HeldItem, plural: bool) -> Seq<char> {
    if plural {
        item.plural@
    } else {
        item.base@
    }
}

/// Whether a held item is one of those asked for: in hand or not, or either where `hand` is none.
pub open spec fn hand_fits(item: HeldItem, hand: Option<bool>) -> bool {
    match hand {
        Some(h) => item.in_hand == h,
        None => true,
    }
}

/// The first held item from index `from` on that fits `hand` and whose name the input goes on
/// with at `start`: where the input goes on after it, and its index.
pub open spec fn first_held_from(
    input: Seq<char>,
    start: nat,
    items: Seq<HeldItem>,
    plural: bool,
    hand: Option<bool>,
    from: int,
) -> Option<(nat, int)>
    decreases items.len() - from,
{
    if from < 0 || from >= items.len() {
        None
    } else if !hand_fits(items[from], hand) {
        first_held_from(input, start, items, plural, hand, from + 1)
    } else {
        match advance_at(input, start, held_name(items[from], plural)) {
            Some(s) => Some((s, from)),
            None => first_held_from(input, start, items, plural, hand, from + 1),
        }
    }
}

/// Whether a held item goes with `key` by its name, and fits `hand`.
pub open spec fn named_like(item: HeldItem, plural: bool, key: Seq<char>, hand: Option<bool>) -> bool {
    held_name(item, plural) == key && hand_fits(item, hand)
}

/// The held items with the name `key` that fit `hand`, in order, as entities.
pub open spec fn entities_named(items: Seq<HeldItem>, plural: bool, key: Seq<char>, hand: Option<bool>) -> Seq<EntityId> {
    items.filter(|it: HeldItem| named_like(it, plural, key, hand)).map_values(|it: HeldItem| it.entity)
}

/// The next word read as a number, and where reading goes on after it: past the space that
/// ends the word, or, where none ends it, where the word starts.
pub open spec fn number_at(input: Seq<char>, start: nat) -> Option<(nat, u16)> {
    let active = input.skip(start as int);
    let word = match find_space(active, 0) {
        Some(i) => active.take(i),
        None => active,
    };
    match parse_u16(word) {
        Some(n) => Some(
            (
                match find_space(active, 0) {
                    Some(i) => (start + i + 1) as nat,
                    None => start,
                },
                n,
            ),
        ),
        None => None,
    }
}

/// A complete command: the command where nothing follows, else the failure that quotes what was read.
pub open spec fn complete(input: Seq<char>, start: nat, c: StoreSyntax) -> Result<StoreSyntax, Seq<char>> {
    if start == input.len() {
        Ok(c)
    } else {
        Err(done_err(input, start))
    }
}

/// The failure for a name that is not in the store.
pub open spec fn not_in_store(input: Seq<char>, start: nat) -> Seq<char> {
    "\""@ + input.skip(start as int) + "\" does not match an item in the store."@
}

/// "buy": the stock entry named for the amount; it fails where the stock holds fewer.
pub open spec fn buy_rule(input: Seq<char>, start: nat, t: StoreCommandTargets, amount: u16) -> Result<StoreSyntax, Seq<char>> {
    match first_name_from(input, start, stock_names(t.stock@, amount), 0) {
        Some((s, i)) => if s != input.len() {
            Err(done_err(input, s))
        } else if !in_stock(t.stock@[i].quantity, amount) {
            Err("There are not enough "@ + t.stock@[i].noun.plural_view() + " in stock."@)
        } else {
            Ok(StoreSyntax::Buy(i, amount))
        },
        None => Err(not_in_store(input, start)),
    }
}

/// The failure for a name that the character holds no item by.
pub open spec fn holds_none(input: Seq<char>, start: nat, holder: Seq<char>) -> Seq<char> {
    holder + " is holding no item by the name \""@ + input.skip(start as int) + "\"."@
}

/// "sell all": every held item with the plural name read.
pub open spec fn sell_all_rule(input: Seq<char>, start: nat, t: StoreCommandTargets) -> Result<StoreSyntax, Seq<char>> {
    match first_held_from(input, start, t.held@, true, None, 0) {
        Some((s, i)) => complete(
            input,
            s,
            StoreSyntax::Sell(entities_named(t.held@, true, held_name(t.held@[i], true), None)),
        ),
        None => Err(holds_none(input, start, t.holder@)),
    }
}

/// "sell" with a count: that many held items with the name read (plural unless the count is
/// one), those not in hand first; it fails where fewer are held.
pub open spec fn sell_count_rule(input: Seq<char>, start: nat, t: StoreCommandTargets, count: u16) -> Result<StoreSyntax, Seq<char>> {
    let plural = count != 1;
    match first_held_from(input, start, t.held@, plural, None, 0) {
        Some((s, i)) => {
            let key = held_name(t.held@[i], plural);
            let items = entities_named(t.held@, plural, key, Some(false)) + entities_named(t.held@, plural, key, Some(true));
            if s != input.len() {
                Err(done_err(input, s))
            } else if items.len() < count {
                Err(t.holder@ + " does not have that many "@ + t.held@[i].plural@ + "."@)
            } else {
                Ok(StoreSyntax::Sell(items.take(count as int)))
            }
        },
        None => Err(holds_none(input, start, t.holder@)),
    }
}

/// "sell" with a name: the first held item by that name, items in hand tried last.
pub open spec fn sell_one_rule(input: Seq<char>, start: nat, t: StoreCommandTargets) -> Result<StoreSyntax, Seq<char>> {
    match first_held_from(input, start, t.held@, false, Some(false), 0) {
        Some((s, i)) => complete(input, s, StoreSyntax::Sell(seq![t.held@[i].entity])),
        None => match first_held_from(input, start, t.held@, false, Some(true), 0) {
            Some((s, i)) => complete(input, s, StoreSyntax::Sell(seq![t.held@[i].entity])),
            None => Err("\""@ + input.skip(start as int) + "\" does not match an item in your inventory."@),
        },
    }
}

/// What the store grammar reads from the input: the first rule whose first word the input
/// starts with decides; other input fails.
pub open spec fn store_command_spec(input: Seq<char>, t: StoreCommandTargets) -> Result<StoreSyntax, Seq<char>> {
    if let Some(s) = advance_at(input, 0, "buy"@) {
        match number_at(input, s) {
            Some((s2, n)) => buy_rule(input, s2, t, n),
            None => buy_rule(input, s, t, 1),
        }
    } else if let Some(s) = advance_at(input, 0, "sell"@) {
        if let Some(s2) = advance_at(input, s, "all"@) {
            sell_all_rule(input, s2, t)
        } else {
            match number_at(input, s) {
                Some((s2, n)) => sell_count_rule(input, s2, t, n),
                None => sell_one_rule(input, s, t),
            }
        }
    } else if let Some(s) = advance_at(input, 0, "ask about"@) {
        match first_name_from(input, s, stock_names(t.stock@, 1), 0) {
            Some((s2, i)) => complete(input, s2, StoreSyntax::AskAbout(i)),
            None => Err(not_in_store(input, s)),
        }
    } else if let Some(s) = advance_at(input, 0, "exit"@) {
        complete(input, s, StoreSyntax::Exit)
    } else if let Some(s) = advance_at(input, 0, "status"@) {
        complete(input, s, StoreSyntax::Status)
    } else {
        Err(default_err_at(input, 0))
    }
}

/// The first stock entry whose name for `amount` the input goes on with.
fn find_stock<'a>(p: &Parse<'a>, stock: &Vec<StoreItem>, amount: u16) -> (r: Option<(Parse<'a>, usize)>)
    ensures
        r is None <==> first_name_from(p.input_view(), p.start_view(), stock_names(stock@, amount), 0) is None,
        r matches Some((q, i)) ==> i < stock.len() && q.input_view() == p.input_view() && first_name_from(
            p.input_view(),
            p.start_view(),
            stock_names(stock@, amount),
            0,
        ) == Some((q.start_view(), i as int)),
{
    let ghost names = stock_names(stock@, amount);
    let mut i: usize = 0;
    while i < stock.len()
        invariant
            i <= stock.len(),
            names == stock_names(stock@, amount),
            first_name_from(p.input_view(), p.start_view(), names, 0) == first_name_from(
                p.input_view(),
                p.start_view(),
                names,
                i as int,
            ),
        decreases stock.len() - i,
    {
        match p.try_advance(stock[i].noun.for_count(amount)) {
            Some(q) => {
                return Some((q, i));
            },
            None => {},
        }
        i = i + 1;
    }
    None
}

/// The first held item that fits `hand` and whose name the input goes on with.
fn find_held<'a>(p: &Parse<'a>, items: &Vec<HeldItem>, plural: bool, hand: Option<bool>) -> (r: Option<(Parse<'a>, usize)>)
    ensures
        r is None <==> first_held_from(p.input_view(), p.start_view(), items@, plural, hand, 0) is None,
        r matches Some((q, i)) ==> i < items.len() && q.input_view() == p.input_view() && first_held_from(
            p.input_view(),
            p.start_view(),
            items@,
            plural,
            hand,
            0,
        ) == Some((q.start_view(), i as int)),
{
    let mut i: usize = 0;
    while i < items.len()
        invariant
            i <= items.len(),
            first_held_from(p.input_view(), p.start_view(), items@, plural, hand, 0) == first_held_from(
                p.input_view(),
                p.start_view(),
                items@,
                plural,
                hand,
                i as int,
            ),
        decreases items.len() - i,
    {
        let item = &items[i];
        let fits = match hand {
            Some(h) => item.in_hand == h,
            None => true,
        };
        if fits {
            let name = if plural {
                item.plural.as_str()
            } else {
                item.base.as_str()
            };
            match p.try_advance(name) {
                Some(q) => {
                    return Some((q, i));
                },
                None => {},
            }
        }
        i = i + 1;
    }
    None
}

/// The held items with the name of the item at `key` that fit `hand`, in order.
fn collect_named(items: &Vec<HeldItem>, plural: bool, key: usize, hand: Option<bool>) -> (r: Vec<EntityId>)
    requires
        key < items.len(),
    ensures
        r@ == entities_named(items@, plural, held_name(items@[key as int], plural), hand),
{
    let key_name = if plural {
        items[key].plural.as_str()
    } else {
        items[key].base.as_str()
    };
    let ghost k = held_name(items@[key as int], plural);
    let mut r: Vec<EntityId> = Vec::new();
    let mut i: usize = 0;
    while i < items.len()
        invariant
            i <= items.len(),
            key_name@ == k,
            r@ == entities_named(items@.take(i as int), plural, k, hand),
        decreases items.len() - i,
    {
        proof {
            reveal(Seq::filter);
            assert(items@.take(i + 1).drop_last() =~= items@.take(i as int));
        }
        let item = &items[i];
        let name = if plural {
            item.plural.as_str()
        } else {
            item.base.as_str()
        };
        let fits = match hand {
            Some(h) => item.in_hand == h,
            None => true,
        };
        if fits && str_eq(name, key_name) {
            r.push(item.entity);
        }
        i = i + 1;
        proof {
            let f = |it: HeldItem| named_like(it, plural, k, hand);
            let g = |it: HeldItem| it.entity;
            assert(r@ =~= items@.take(i as int).filter(f).map_values(g));
        }
    }
    assert(items@.take(items.len() as int) =~= items@);
    r
}

/// The failure for input left after a complete command.
fn unexpected_after<'a>(p: &Parse<'a>) -> (e: String)
    ensures
        e@ == done_err(p.input_view(), p.start_view()),
{
    let consumed = p.consumed_input();
    concat3("Unexpected argument after \"", consumed.as_str(), "\"")
}

/// The command where nothing follows it.
fn complete_with<'a>(p: &Parse<'a>, c: StoreCommand) -> (r: Result<StoreCommand, String>)
    ensures
        store_read_as(r, complete(p.input_view(), p.start_view(), store_syntax_of(c))),
{
    if p.active_len() == 0 {
        Ok(c)
    } else {
        Err(unexpected_after(p))
    }
}

fn buy<'a>(p: &Parse<'a>, t: &StoreCommandTargets, amount: u16) -> (r: Result<StoreCommand, String>)
    ensures
        store_read_as(r, buy_rule(p.input_view(), p.start_view(), *t, amount)),
{
    match find_stock(p, &t.stock, amount) {
        Some((q, i)) => {
            if q.active_len() != 0 {
                return Err(unexpected_after(&q));
            }
            match t.stock[i].quantity.subtracted(amount) {
                Some(_) => Ok(StoreCommand::Buy(i, amount)),
                None => Err(concat3("There are not enough ", t.stock[i].noun.plural(), " in stock.")),
            }
        },
        None => {
            let rest = p.active_input();
            Err(concat3("\"", rest.as_str(), "\" does not match an item in the store."))
        },
    }
}

fn holds_no_item<'a>(p: &Parse<'a>, holder: &String) -> (e: String)
    ensures
        e@ == holds_none(p.input_view(), p.start_view(), holder@),
{
    let rest = p.active_input();
    concat4(holder.as_str(), " is holding no item by the name \"", rest.as_str(), "\".")
}

fn sell_all<'a>(p: &Parse<'a>, t: &StoreCommandTargets) -> (r: Result<StoreCommand, String>)
    ensures
        store_read_as(r, sell_all_rule(p.input_view(), p.start_view(), *t)),
{
    match find_held(p, &t.held, true, None) {
        Some((q, i)) => {
            let items = collect_named(&t.held, true, i, None);
            complete_with(&q, StoreCommand::Sell(items))
        },
        None => Err(holds_no_item(p, &t.holder)),
    }
}

fn sell_count<'a>(p: &Parse<'a>, t: &StoreCommandTargets, count: u16) -> (r: Result<StoreCommand, String>)
    ensures
        store_read_as(r, sell_count_rule(p.input_view(), p.start_view(), *t, count)),
{
    let plural = count != 1;
    match find_held(p, &t.held, plural, None) {
        Some((q, i)) => {
            if q.active_len() != 0 {
                return Err(unexpected_after(&q));
            }
            let mut items = collect_named(&t.held, plural, i, Some(false));
            let mut in_hand = collect_named(&t.held, plural, i, Some(true));
            items.append(&mut in_hand);
            if items.len() < count as usize {
                return Err(
                    concat4(t.holder.as_str(), " does not have that many ", t.held[i].plural.as_str(), "."),
                );
            }
            items.truncate(count as usize);
            Ok(StoreCommand::Sell(items))
        },
        None => Err(holds_no_item(p, &t.holder)),
    }
}

fn sell_one<'a>(p: &Parse<'a>, t: &StoreCommandTargets) -> (r: Result<StoreCommand, String>)
    ensures
        store_read_as(r, sell_one_rule(p.input_view(), p.start_view(), *t)),
{
    match find_held(p, &t.held, false, Some(false)) {
        Some((q, i)) => {
            let items = vec![t.held[i].entity];
            assert(items@ =~= seq![t.held@[i as int].entity]);
            complete_with(&q, StoreCommand::Sell(items))
        },
        None => match find_held(p, &t.held, false, Some(true)) {
            Some((q, i)) => {
                let items = vec![t.held[i].entity];
                assert(items@ =~= seq![t.held@[i as int].entity]);
                complete_with(&q, StoreCommand::Sell(items))
            },
            None => {
                let rest = p.active_input();
                Err(concat3("\"", rest.as_str(), "\" does not match an item in your inventory."))
            },
        },
    }
}

/// Reads a command of the store grammar, used while trading: buying, selling, asking about
/// stock, leaving the store or the status; the failure to show for other input.
pub fn parse_store_command(input: &str, t: &StoreCommandTargets) -> (r: Result<StoreCommand, String>)
    ensures
        store_read_as(r, store_command_spec(input@, *t)),
{
    let p = Parse::new(input);
    proof {
        reveal_strlit("buy");
        reveal_strlit("sell");
        reveal_strlit("all");
        reveal_strlit("ask about");
        reveal_strlit("exit");
        reveal_strlit("status");
    }
    if let Some(q) = p.try_advance("buy") {
        return match q.read_number() {
            Some((q2, n)) => buy(&q2, t, n),
            None => buy(&q, t, 1),
        };
    }
    if let Some(q) = p.try_advance("sell") {
        if let Some(q2) = q.try_advance("all") {
            return sell_all(&q2, t);
        }
        return match q.read_number() {
            Some((q2, n)) => sell_count(&q2, t, n),
            None => sell_one(&q, t),
        };
    }
    if let Some(q) = p.try_advance("ask about") {
        return match find_stock(&q, &t.stock, 1) {
            Some((q2, i)) => complete_with(&q2, StoreCommand::AskAbout(i)),
            None => {
                let rest = q.active_input();
                Err(concat3("\"", rest.as_str(), "\" does not match an item in the store."))
            },
        };
    }
    if let Some(q) = p.try_advance("exit") {
        return complete_with(&q, StoreCommand::Exit);
    }
    if let Some(q) = p.try_advance("status") {
        return complete_with(&q, StoreCommand::Status);
    }
    p.default_err()
}

} // verus!
