use aftiktuna::action::dialogue::{
    TellTo, check_crew_room, check_dialogue_reach, check_talk, finished_talking_message, joined_crew_message,
};
use aftiktuna::action::item::{
    ItemUseKind, check_give, check_search, four_leaf_clover_pickup, gave_message, lost_track_error, nearest_item,
    search_message, use_item, wield_message,
};
use aftiktuna::action::trade::{
    SaleItem, bought_message, check_sale, exit_trade, fuel_sale_refusal, sold_message, trade_start_message,
};
use aftiktuna::base::EntityId;
use aftiktuna::base::item::Price;
use aftiktuna::base::name::{IndefiniteArticle, NounData};
use aftiktuna::base::position::Pos;
use aftiktuna::base::status::{StatChanges, Stats, reroll_stats};

fn e(n: u64) -> EntityId {
    EntityId(n)
}

fn stats(strength: i16, endurance: i16, agility: i16, luck: i16) -> Stats {
    Stats { strength, endurance, agility, luck }
}

fn sum(s: &Stats) -> i16 {
    s.strength + s.endurance + s.agility + s.luck
}

fn in_bounds(s: &Stats) -> bool {
    (1..=10).contains(&s.strength)
        && (1..=10).contains(&s.endurance)
        && (1..=10).contains(&s.agility)
        && (0..=10).contains(&s.luck)
}

#[test]
fn take_all_goes_for_the_closest_item_in_the_area() {
    let here = e(100);
    let there = e(200);
    let taker = Pos::new(here, 4, 10);
    let items = vec![
        (e(1), Pos::new(there, 4, 10)),
        (e(2), Pos::new(here, 1, 10)),
        (e(3), Pos::new(here, 6, 10)),
        (e(4), Pos::new(here, 2, 10)),
    ];
    // Items 3 and 4 are both two steps away; the first of them is taken.
    assert_eq!(nearest_item(taker, &items), Ok(e(3)));
    assert_eq!(nearest_item(taker, &items[..2].to_vec()), Ok(e(2)));
    assert_eq!(nearest_item(taker, &vec![(e(1), Pos::new(there, 4, 10))]), Err("There are no items to take here.".to_string()));
}

#[test]
fn four_leaf_clover_adds_luck() {
    let mut s = Some(stats(5, 5, 5, 3));
    let m = four_leaf_clover_pickup("Mint", "the four-leaf clover", true, &mut s);
    assert_eq!(
        m,
        Some("Mint tries to pick up the four-leaf clover. But as they do, it disappears in their hand. (Luck has increased by 2 points)".to_string())
    );
    assert_eq!(s, Some(stats(5, 5, 5, 5)));
    // Luck would leave its bounds: picked up as usual.
    let mut s = Some(stats(5, 5, 5, 9));
    assert_eq!(four_leaf_clover_pickup("Mint", "the four-leaf clover", true, &mut s), None);
    assert_eq!(s, Some(stats(5, 5, 5, 9)));
    let mut s = Some(stats(5, 5, 5, 3));
    assert_eq!(four_leaf_clover_pickup("Mint", "the knife", false, &mut s), None);
    assert_eq!(s, Some(stats(5, 5, 5, 3)));
}

#[test]
fn searching_a_container() {
    let pos = Pos::new(e(100), 3, 10);
    assert_eq!(check_search("Mint", "the crate", Some(pos), true).ok(), Some(pos));
    let err = check_search("Mint", "the crate", None, true).unwrap_err();
    assert_eq!(err.message, "Mint lost track of the crate.");
    let err = check_search("Mint", "the rock", Some(pos), false).unwrap_err();
    assert_eq!(err.message, "the rock is not a searchable container.");
    assert!(!err.visible);
    assert_eq!(
        search_message("Mint", "the crate", &vec![]),
        "Mint searched the crate, but did not find anything of interest."
    );
    assert_eq!(
        search_message("Mint", "the crate", &vec!["a knife".to_string(), "two fuel cans".to_string()]),
        "Mint searched the crate and found a knife and two fuel cans."
    );
}

#[test]
fn giving_and_wielding() {
    let area = e(100);
    assert!(check_give("Mint", "Cerulean", true, Some(area), area, true).is_ok());
    assert_eq!(
        check_give("Mint", "Cerulean", false, Some(area), area, true).unwrap_err().message,
        "Mint lost track of the item they were going to give."
    );
    assert_eq!(
        check_give("Mint", "Cerulean", true, None, area, true).unwrap_err().message,
        "Cerulean disappeared before Mint could interact with them."
    );
    assert_eq!(
        check_give("Mint", "Cerulean", true, Some(e(7)), area, true).unwrap_err().message,
        "Cerulean left before Mint could interact with them."
    );
    assert_eq!(
        check_give("Mint", "Cerulean", true, Some(area), area, false).unwrap_err().message,
        "Cerulean died before they could be given an item."
    );
    assert_eq!(gave_message("Mint", "Cerulean", "medkit"), "Mint gave Cerulean a medkit.");
    assert_eq!(wield_message("Mint", "the knife", true), "Mint wielded the knife.");
    assert_eq!(wield_message("Mint", "the knife", false), "Mint picked up and wielded the knife.");
    assert_eq!(lost_track_error("Mint", "the knife").message, "Mint lost track of the knife.");
}

#[test]
fn using_items() {
    let mut rng = rand::rng();
    let mut s = Some(stats(5, 5, 5, 5));
    let err = use_item(&mut rng, "Mint", "the medkit", false, Some(ItemUseKind::Medkit), true, &mut s).err().unwrap();
    assert_eq!(err.message, "Mint tried using an item not held by them.");
    let err = use_item(&mut rng, "Mint", "the rock", true, None, true, &mut s).err().unwrap();
    assert_eq!(err.message, "Mint tried to use the rock, but it is not usable.");
    let err = use_item(&mut rng, "Mint", "the medkit", true, Some(ItemUseKind::Medkit), false, &mut s).err().unwrap();
    assert_eq!(err.message, "Mint no longer needs to use a medkit.");
    let o = use_item(&mut rng, "Mint", "the medkit", true, Some(ItemUseKind::Medkit), true, &mut s).ok().unwrap();
    assert!(o.consumed && o.restores_health);
    assert_eq!(o.message, "Mint used a medkit and recovered some health.");

    let orb = ItemUseKind::BlackOrb(StatChanges { strength: 0, endurance: 2, agility: 0, luck: -1 });
    let o = use_item(&mut rng, "Mint", "the orb", true, Some(orb), false, &mut s).ok().unwrap();
    assert!(o.consumed && !o.restores_health);
    assert_eq!(s, Some(stats(5, 7, 5, 4)));
    assert_eq!(
        o.message,
        "Mint holds up and inspects the orb. Mint gets a sensation of hardiness when suddenly, the orb cracks and falls apart into worthless pieces! (Stats have changed)"
    );
    let mut high = Some(stats(5, 10, 5, 5));
    let o = use_item(&mut rng, "Mint", "the orb", true, Some(orb), false, &mut high).ok().unwrap();
    assert!(!o.consumed);
    assert_eq!(high, Some(stats(5, 10, 5, 5)));
    assert_eq!(o.message, "Mint holds up and inspects the orb, but can't figure out what it is.");

    let mut s = Some(stats(5, 5, 5, 5));
    let o = use_item(&mut rng, "Mint", "the mirror", true, Some(ItemUseKind::OddHandMirror(3)), false, &mut s).ok().unwrap();
    assert!(o.consumed);
    let new = s.unwrap();
    assert_eq!(sum(&new), 23);
    assert!(in_bounds(&new));
    assert_eq!(
        o.message,
        "Mint holds up and gazes into the mirror. After a few moments, the glass suddenly cracks! Turning away from the broken mirror, Mint gives off a different vibe from just a moment ago. (Stats have changed)"
    );
    let mut s = Some(stats(10, 10, 10, 10));
    let o = use_item(&mut rng, "Mint", "the mirror", true, Some(ItemUseKind::OddHandMirror(1)), false, &mut s).ok().unwrap();
    assert!(!o.consumed);
    assert_eq!(s, Some(stats(10, 10, 10, 10)));
    assert_eq!(o.message, "Mint gazes into the mirror, but nothing seems to come from doing so.");
}

#[test]
fn rerolled_stats_have_the_sum_asked_for() {
    let mut rng = rand::rng();
    for target in 3..=40 {
        let s = reroll_stats(&mut rng, target).unwrap();
        assert_eq!(sum(&s), target);
        assert!(in_bounds(&s));
    }
    assert_eq!(reroll_stats(&mut rng, 2), None);
    assert_eq!(reroll_stats(&mut rng, 41), None);
}

#[test]
fn talking_and_orders() {
    assert_eq!(check_talk("the goblin", false, true).ok(), Some(false));
    assert_eq!(check_talk("the goblin", true, true).err().unwrap().message, "the goblin is not interested in talking.");
    assert_eq!(check_talk("Cerulean", true, false).ok(), Some(true));
    assert!(check_crew_room(2).is_ok());
    assert_eq!(check_crew_room(3).err().unwrap().message, "There is not enough room for another crew member.");
    assert_eq!(joined_crew_message("Cerulean"), "Cerulean joined the crew!");
    assert!(check_dialogue_reach("Mint", "Cerulean", e(1), e(1)).is_ok());
    assert_eq!(
        check_dialogue_reach("Mint", "Cerulean", e(1), e(2)).err().unwrap().message,
        "Cerulean left before Mint could talk to them."
    );
    assert_eq!(finished_talking_message("Mint", "Cerulean"), "Mint finishes talking with Cerulean.");
    assert!(TellTo::Wait.proceeds(true, false));
    assert!(!TellTo::Wait.proceeds(true, true));
    assert!(TellTo::WaitAtShip.proceeds(true, true));
    assert!(!TellTo::Follow.proceeds(true, false));
    assert!(TellTo::Follow.proceeds(true, true));
    assert!(!TellTo::Follow.proceeds(false, true));
    assert_eq!(TellTo::Wait.dialogue_name(), "tell_to/wait");
    assert_eq!(TellTo::WaitAtShip.dialogue_name(), "tell_to/wait_at_ship");
    assert_eq!(TellTo::Follow.dialogue_name(), "tell_to/follow");
    assert_eq!(TellTo::Wait.waiting_after(), Some(false));
    assert_eq!(TellTo::WaitAtShip.waiting_after(), Some(true));
    assert_eq!(TellTo::Follow.waiting_after(), None);
}

fn sale(exists: bool, held: bool, price: Option<i32>, fuel: bool) -> SaleItem {
    SaleItem { exists, held_by_performer: held, price: price.map(Price), is_fuel_can: fuel }
}

#[test]
fn selling_and_trading() {
    assert_eq!(check_sale(&vec![sale(true, true, Some(100), false), sale(true, true, Some(10), true)]), Ok((83, true)));
    assert_eq!(check_sale(&vec![]), Ok((0, false)));
    assert_eq!(
        check_sale(&vec![sale(true, true, Some(100), false), sale(false, false, None, false)]),
        Err("One of the items being sold no longer exists.".to_string())
    );
    assert_eq!(check_sale(&vec![sale(true, false, None, false)]), Err("Item to sell is not being held!".to_string()));
    assert_eq!(check_sale(&vec![sale(true, true, None, false)]), Err("That item can not be sold.".to_string()));
    assert_eq!(
        fuel_sale_refusal("Mint").message,
        "Mint does not want to sell their fuel can, since they need it to refuel their ship."
    );
    assert_eq!(
        sold_message("Mint", &vec!["a knife".to_string(), "two fuel cans".to_string()], 83),
        "Mint sold a knife and two fuel cans for 83."
    );
    let noun = NounData::new("fuel can", "fuel cans", IndefiniteArticle::A);
    assert_eq!(bought_message("Mint", &noun, 1), "Mint bought a fuel can.");
    assert_eq!(bought_message("Mint", &noun, 3), "Mint bought three fuel cans.");
    assert_eq!(
        trade_start_message("Mint"),
        "Mint starts trading with the shopkeeper. \"Welcome to the store. What do you want to buy?\""
    );
    assert_eq!(exit_trade("Mint", false).err().unwrap().message, "Mint is already not trading.");
    assert_eq!(exit_trade("Mint", true).ok(), Some("Mint stops trading with the shopkeeper.".to_string()));
}
