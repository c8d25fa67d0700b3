use aftiktuna::action::combat::{
    AttackEffect, AttackMeans, HitType, TargetCandidate, attack_kind_text, attack_text, classify_hit, closest_targets,
    hit_message, select_attack_target, stun_difficulty,
};
use aftiktuna::action::door::{
    HelperCandidate, blocked_entry_error, check_door_reach, check_tool_for_forcing, doors_to_cut, entry_destination,
    find_door_helper,
};
use aftiktuna::action::ship::{RefuelOutcome, RefuelResult, incomplete_refuel_message, launch, refuel, try_refuel};
use aftiktuna::action::trade::{check_has_fuel_reserve, find_stock, sell_value, try_buy, try_spend_points};
use aftiktuna::action::{
    check_give_name, check_tame, need_more_rest, open_chest_outcome, order_by_agility, rest_message, shows_error,
    shows_success,
};
use aftiktuna::base::area::{FuelAmount, ShipStatus};
use aftiktuna::base::combat::{AttackKind, UnarmedType};
use aftiktuna::base::item::{ItemTypeId, Price, Tool};
use aftiktuna::base::position::{Direction, Placement, Pos};
use aftiktuna::base::status::{Stamina, Stats};
use aftiktuna::base::store::{Points, Shopkeeper, StockQuantity, StoreStock};
use aftiktuna::base::{BlockType, EntityId};

fn e(n: u64) -> EntityId {
    EntityId(n)
}

fn pos(area: u64, coord: u32) -> Pos {
    Pos::new(e(area), coord, 10)
}

#[test]
fn hit_classification_by_roll() {
    assert_eq!(classify_hit(4, 10), HitType::Dodge);
    assert_eq!(classify_hit(5, 10), HitType::GrazingHit);
    assert_eq!(classify_hit(9, 10), HitType::GrazingHit);
    assert_eq!(classify_hit(10, 10), HitType::DirectHit);
    assert_eq!(classify_hit(1, i16::MIN), HitType::DirectHit);
}

#[test]
fn stun_difficulty_formula() {
    // 15 + 2 * (5 - 3) - (-3)
    assert_eq!(stun_difficulty(3, 5, AttackKind::Light), 22);
    // 15 + 2 * (2 - 6) - 6
    assert_eq!(stun_difficulty(6, 2, AttackKind::Charged), 1);
    assert_eq!(stun_difficulty(4, 4, AttackKind::Rash), 12);
}

#[test]
fn attack_messages() {
    assert_eq!(attack_kind_text(AttackKind::Rash), "With uncontrolled force, ");
    let (text, verb) = attack_text(
        AttackKind::Charged,
        "the goblin",
        &AttackMeans::Weapon("sword".to_owned()),
        "Mint",
    );
    assert_eq!(text, "With power, the goblin swings their sword at Mint");
    assert_eq!(verb, "hits");
    let (text, verb) = attack_text(AttackKind::Light, "the eyesaur", &AttackMeans::Unarmed(UnarmedType::Bite), "Mint");
    assert_eq!(text, "the eyesaur jumps at Mint");
    assert_eq!(verb, "bites");
    let (text, _) = attack_text(AttackKind::Light, "Mint", &AttackMeans::Plain, "the goblin");
    assert_eq!(text, "Mint attacks the goblin");
    assert_eq!(
        hit_message("Mint attacks the goblin", HitType::DirectHit, "the goblin", "hits", Some(AttackEffect::Killed)),
        "Mint attacks the goblin and directly hits them, killing the goblin."
    );
    assert_eq!(
        hit_message("Mint attacks the goblin", HitType::GrazingHit, "the goblin", "hits", None),
        "Mint attacks the goblin and narrowly hits them."
    );
    assert_eq!(
        hit_message("Mint attacks the goblin", HitType::Dodge, "the goblin", "hits", None),
        "Mint attacks the goblin, but the goblin dodges the attack."
    );
    assert_eq!(AttackEffect::Stunned.verb(), "stunning");
}

#[test]
fn closest_targets_keep_ties_in_order() {
    let attacker = pos(1, 5);
    let candidates = vec![
        TargetCandidate { entity: e(10), placement: Placement::from_parts(pos(1, 8), None, false), is_alive: true },
        TargetCandidate { entity: e(11), placement: Placement::from_parts(pos(1, 3), None, false), is_alive: true },
        TargetCandidate { entity: e(12), placement: Placement::from_parts(pos(1, 7), None, false), is_alive: true },
        TargetCandidate { entity: e(13), placement: Placement::from_parts(pos(1, 5), None, false), is_alive: false },
        TargetCandidate { entity: e(14), placement: Placement::from_parts(pos(2, 5), None, false), is_alive: true },
    ];
    assert_eq!(closest_targets(attacker, &candidates), vec![e(11), e(12)]);
    let mut rng = rand::rng();
    let picked = select_attack_target(&mut rng, attacker, &candidates).unwrap();
    assert!(picked == e(11) || picked == e(12));
    let single = vec![candidates[3]];
    assert_eq!(select_attack_target(&mut rng, attacker, &single), Some(e(13)));
    let none: Vec<TargetCandidate> = vec![candidates[3], candidates[4]];
    assert_eq!(select_attack_target(&mut rng, attacker, &none), None);
}

#[test]
fn forcing_tools() {
    assert_eq!(check_tool_for_forcing(BlockType::Stuck, &vec![Tool::Blowtorch, Tool::Crowbar], "Mint"), Ok(Tool::Crowbar));
    assert_eq!(
        check_tool_for_forcing(BlockType::Sealed, &vec![Tool::Crowbar], "Mint"),
        Err("Mint needs some sort of tool to break the door open.".to_owned())
    );
    assert_eq!(
        check_tool_for_forcing(BlockType::Stuck, &vec![], "Mint"),
        Err("Mint needs some sort of tool to force the door open.".to_owned())
    );
}

#[test]
fn door_checks() {
    let error = blocked_entry_error("Mint", BlockType::Sealed);
    assert_eq!(error.message, "Mint is unable to enter the door as it is sealed shut.");
    assert!(error.visible);
    assert!(check_door_reach("Mint", None, Some(e(1))).unwrap_err().message == "Mint lost track of the door.");
    assert!(check_door_reach("Mint", Some(pos(2, 0)), Some(e(1))).unwrap_err().message == "Mint cannot reach the door from here.");
    assert!(check_door_reach("Mint", Some(pos(1, 0)), Some(e(1))).is_ok());
    let destination = pos(3, 4);
    assert_eq!(entry_destination(destination, true, Direction::Right, Some(10)).get_coord(), 5);
    assert_eq!(entry_destination(destination, false, Direction::Right, Some(10)).get_coord(), 4);
    assert_eq!(entry_destination(pos(3, 9), true, Direction::Right, Some(10)).get_coord(), 9);
    let doors = vec![(e(1), e(100)), (e(2), e(200)), (e(3), e(100))];
    assert_eq!(doors_to_cut(Tool::Blowtorch, e(100), &doors), vec![e(1), e(3)]);
    assert!(doors_to_cut(Tool::Crowbar, e(100), &doors).is_empty());
}

#[test]
fn door_helpers() {
    let crew = vec![
        HelperCandidate { entity: e(1), pos: pos(1, 0), held_tools: vec![Tool::Crowbar] },
        HelperCandidate { entity: e(2), pos: pos(1, 1), held_tools: vec![Tool::Blowtorch] },
    ];
    assert_eq!(find_door_helper(true, e(1), e(1), BlockType::Stuck, &crew), Some(e(2)));
    assert_eq!(find_door_helper(true, e(9), e(1), BlockType::Stuck, &crew), Some(e(1)));
    assert_eq!(find_door_helper(false, e(9), e(1), BlockType::Stuck, &crew), None);
    assert_eq!(find_door_helper(true, e(2), e(1), BlockType::Sealed, &crew), None);
}

#[test]
fn refueling() {
    assert_eq!(try_refuel(FuelAmount::TwoCans, 1), (RefuelResult::Incomplete(FuelAmount::OneCan), 1));
    assert_eq!(try_refuel(FuelAmount::TwoCans, 3), (RefuelResult::Complete, 2));
    assert_eq!(try_refuel(FuelAmount::OneCan, 0), (RefuelResult::Incomplete(FuelAmount::OneCan), 0));
    assert_eq!(incomplete_refuel_message(FuelAmount::TwoCans, "Mint"), "Mint need two fuel cans to refuel the ship.");
    match refuel(ShipStatus::NeedFuel(FuelAmount::TwoCans), 2, "Mint") {
        RefuelOutcome::Refueled(status, message, used) => {
            assert_eq!(status, ShipStatus::Refueled);
            assert_eq!(message, "Mint refueled the ship.");
            assert_eq!(used, 2);
        }
        _ => panic!("expected refuel"),
    }
    assert!(matches!(refuel(ShipStatus::Launching, 2, "Mint"), RefuelOutcome::AlreadyLaunching));
    let (status, message, used) = launch(ShipStatus::Refueled, 0, "Mint", &vec![]);
    assert_eq!(status, ShipStatus::Launching);
    assert_eq!(message, "Mint set the ship to launch.");
    assert_eq!(used, 0);
}

#[test]
fn buying_and_selling() {
    let mut shop = Some(Shopkeeper(vec![
        StoreStock { item: ItemTypeId("food_ration".to_owned()), price: Price(100), quantity: StockQuantity::Unlimited },
        StoreStock { item: ItemTypeId("medkit".to_owned()), price: Price(200), quantity: StockQuantity::Count(1) },
    ]));
    let mut wallet = Some(Points(500));
    assert_eq!(find_stock(shop.as_ref().unwrap(), &ItemTypeId("medkit".to_owned())), Some(1));
    let (item, price) = try_buy(&mut shop, &mut wallet, &ItemTypeId("medkit".to_owned()), 1).unwrap();
    assert_eq!(item, ItemTypeId("medkit".to_owned()));
    assert_eq!(price.0, 200);
    assert_eq!(wallet.as_ref().unwrap().0, 300);
    assert_eq!(
        try_buy(&mut shop, &mut wallet, &ItemTypeId("medkit".to_owned()), 1).unwrap_err(),
        "Tried buying more than what was in stock."
    );
    assert_eq!(
        try_buy(&mut shop, &mut wallet, &ItemTypeId("food_ration".to_owned()), 4).unwrap_err(),
        "The crew cannot afford that."
    );
    assert_eq!(
        try_buy(&mut shop, &mut wallet, &ItemTypeId("sword".to_owned()), 1).unwrap_err(),
        "The item is not in stock."
    );
    assert_eq!(
        try_buy(&mut shop, &mut wallet, &ItemTypeId("food_ration".to_owned()), 0).unwrap_err(),
        "Tried to purchase a non-positive number of items."
    );
    let mut no_shop: Option<Shopkeeper> = None;
    assert_eq!(
        try_buy(&mut no_shop, &mut wallet, &ItemTypeId("food_ration".to_owned()), 1).unwrap_err(),
        "Tried to buy while not trading."
    );
    let mut no_wallet: Option<Points> = None;
    assert_eq!(try_spend_points(&mut no_wallet, 1).unwrap_err(), "The crew is missing its wallet.");
    assert_eq!(sell_value(&vec![Price(100), Price(7)]), 75 + 6);
    assert!(!check_has_fuel_reserve(Some(ShipStatus::NeedFuel(FuelAmount::TwoCans)), 1));
    assert!(check_has_fuel_reserve(None, 0));
}

#[test]
fn acting_order_and_visibility() {
    let order = order_by_agility(&vec![(e(1), 3), (e(2), 7), (e(3), 3), (e(4), 5)]);
    assert_eq!(order, vec![(e(2), 7), (e(4), 5), (e(1), 3), (e(3), 3)]);
    assert!(shows_error(e(1), e(1), false, None, e(5)));
    assert!(shows_error(e(2), e(1), true, Some(pos(5, 0)), e(5)));
    assert!(!shows_error(e(2), e(1), false, Some(pos(5, 0)), e(5)));
    assert!(shows_success(&None, e(5), e(5)));
    assert!(shows_success(&Some(vec![e(3), e(5)]), e(1), e(5)));
    assert!(!shows_success(&Some(vec![e(3)]), e(5), e(5)));
}

#[test]
fn resting_and_taming() {
    let stats = Stats::new(5, 2, 5, 5);
    let mut stamina = Stamina::with_max(&stats);
    assert!(!need_more_rest(e(1), &vec![(pos(1, 0), Stamina::with_max(&stats))]));
    stamina.on_move();
    stamina.on_move();
    assert!(need_more_rest(e(1), &vec![(pos(1, 0), stamina)]));
    assert_eq!(rest_message(true), Some("The crew takes some time to rest up.".to_owned()));
    assert_eq!(rest_message(false), None);
    assert_eq!(check_tame(3, true, Some(false), 1, "Mint", "the eyesaur").unwrap_err().message, "There is not enough room for another crew member.");
    assert_eq!(check_tame(1, true, Some(true), 1, "Mint", "the eyesaur").unwrap_err().message, "the eyesaur is on the attack and does not let Mint approach it.");
    assert_eq!(check_tame(1, true, Some(false), 2, "Mint", "the eyesaur").unwrap_err().message, "Mint is unable to approach the eyesaur as the latter is not alone.");
    assert_eq!(check_tame(1, false, Some(false), 1, "Mint", "the eyesaur").unwrap_err().message, "the eyesaur is not a tameable creature.");
    assert!(check_tame(1, true, Some(false), 1, "Mint", "the eyesaur").is_ok());
    assert_eq!(check_give_name(false, false, "Mint", "the goblin").unwrap_err().message, "Mint cannot name the goblin.");
    assert_eq!(check_give_name(true, true, "Mint", "Cerulean").unwrap_err().message, "Cerulean already has a name.");
    assert!(open_chest_outcome(false, "Mint", "the crate").is_err());
    assert_eq!(
        open_chest_outcome(true, "Mint", "the chest").unwrap(),
        "Mint opened the fortuna chest and found the item that they desired the most."
    );
}
