use aftiktuna::action::dialogue::TellTo;
use aftiktuna::base::EntityId;
use aftiktuna::base::area::{FuelAmount, ShipStatus};
use aftiktuna::base::position::Pos;
use aftiktuna::base::status::{Stamina, Stats};
use aftiktuna::command::game::combat::{HostileCandidate, group_by_name, hostile_targets};
use aftiktuna::command::game::dialogue::{TalkPlan, check_talk_to, check_tell};
use aftiktuna::command::game::item::{
    UsableKind, UsePlan, WieldItemTarget, check_give_command, check_take_all, check_wield, plan_item_use,
};
use aftiktuna::command::game::{
    check_control, check_go_to_ship, check_launch_ship, check_refuel_ship, check_rest, crew_needs_rest,
};
use aftiktuna::dialogue::TalkTopic;

fn e(n: u64) -> EntityId {
    EntityId(n)
}

fn err(message: &str) -> Result<(), String> {
    Err(message.to_string())
}

#[test]
fn talk_to_checks() {
    let ok = || Ok(());
    assert_eq!(
        check_talk_to("Mint", "Mint", true, true, ok(), false, None, None),
        Err("Mint does not want to talk to themselves.".to_string())
    );
    assert_eq!(
        check_talk_to("Mint", "the goblin", false, false, ok(), false, None, None),
        Err("Mint cannot talk to the dead.".to_string())
    );
    assert_eq!(
        check_talk_to("Mint", "Cerulean", false, true, err("the goblin is in the way."), false, None, None),
        Err("the goblin is in the way.".to_string())
    );
    assert_eq!(check_talk_to("Mint", "the shopkeeper", false, true, ok(), true, None, None), Ok(TalkPlan::Trade));
    assert_eq!(
        check_talk_to("Mint", "Cerulean", false, true, ok(), false, Some(TalkTopic::AskName), None),
        Ok(TalkPlan::Talk(TalkTopic::AskName))
    );
    assert_eq!(
        check_talk_to("Mint", "the hunter", false, true, ok(), false, None, Some("the eyesaur")),
        Err("the hunter is still waiting for the eyesaur to be gone.".to_string())
    );
    assert_eq!(
        check_talk_to("Mint", "Cerulean", false, true, ok(), false, None, None),
        Err("Mint has nothing to say to Cerulean.".to_string())
    );
    assert_eq!(TalkTopic::pick(Some(false), Some(true)), Some(TalkTopic::AskName));
    assert_eq!(TalkTopic::pick(Some(true), Some(true)), Some(TalkTopic::CompleteHuntQuest));
    assert_eq!(TalkTopic::pick(None, Some(false)), None);
}

#[test]
fn tell_checks() {
    assert_eq!(
        check_tell(TellTo::Wait, "Mint", "Mint", true, true, None, false),
        err("Mint can't give an order to themselves.")
    );
    assert_eq!(
        check_tell(TellTo::Follow, "Mint", "Cerulean", false, false, Some(false), false),
        err("Mint can't tell Cerulean to do things from here.")
    );
    assert_eq!(check_tell(TellTo::Wait, "Mint", "Cerulean", false, true, Some(true), false), err("Cerulean is already waiting."));
    assert_eq!(check_tell(TellTo::Wait, "Mint", "Cerulean", false, true, None, false), Ok(()));
    assert_eq!(
        check_tell(TellTo::WaitAtShip, "Mint", "Cerulean", false, true, Some(false), true),
        err("Cerulean is already waiting at the ship.")
    );
    assert_eq!(
        check_tell(TellTo::WaitAtShip, "Mint", "Cerulean", false, true, Some(true), false),
        err("Cerulean is already on their way to the ship.")
    );
    assert_eq!(check_tell(TellTo::WaitAtShip, "Mint", "Cerulean", false, true, Some(false), false), Ok(()));
    assert_eq!(check_tell(TellTo::Follow, "Mint", "Cerulean", false, true, None, false), Ok(()));
}

#[test]
fn item_command_checks() {
    assert_eq!(check_take_all(false, true), err("There are no items to take here."));
    assert_eq!(check_take_all(true, false), err("You should take care of all foes here before taking all items."));
    assert_eq!(check_take_all(true, true), Ok(()));
    assert_eq!(check_give_command("Mint", true, Ok(())), err("Mint can't give an item to themselves."));
    assert_eq!(check_give_command("Mint", false, err("the goblin is in the way.")), err("the goblin is in the way."));
    assert_eq!(check_give_command("Mint", false, Ok(())), Ok(()));

    assert_eq!(
        check_wield("Mint", WieldItemTarget::InHand(e(3)), "knife", "the knife", Ok(()), true),
        Err("Mint is already wielding a knife.".to_string())
    );
    assert_eq!(check_wield("Mint", WieldItemTarget::InInventory(e(3)), "knife", "the knife", Ok(()), true), Ok(e(3)));
    assert_eq!(
        check_wield("Mint", WieldItemTarget::InInventory(e(3)), "rock", "the rock", Ok(()), false),
        Err("the rock is not a wieldable item.".to_string())
    );
    assert_eq!(
        check_wield("Mint", WieldItemTarget::OnGround(e(3)), "knife", "the knife", err("the goblin is in the way."), true),
        Err("the goblin is in the way.".to_string())
    );
    assert_eq!(check_wield("Mint", WieldItemTarget::OnGround(e(3)), "knife", "the knife", Ok(()), true), Ok(e(3)));

    assert_eq!(plan_item_use(UsableKind::FuelCan, "Mint", false, "the fuel can", false), Ok(UsePlan::Refuel));
    assert_eq!(
        plan_item_use(UsableKind::Medkit, "Mint", false, "the medkit", false),
        Err("Mint is not hurt, and does not need to use the medkit.".to_string())
    );
    assert_eq!(plan_item_use(UsableKind::Medkit, "Mint", true, "the medkit", false), Ok(UsePlan::Use));
    assert_eq!(plan_item_use(UsableKind::BlackOrb, "Mint", false, "the orb", false), Ok(UsePlan::Use));
    assert_eq!(
        plan_item_use(UsableKind::Wieldable, "Mint", false, "the knife", true),
        Err("the knife is already being held.".to_string())
    );
    assert_eq!(plan_item_use(UsableKind::Wieldable, "Mint", false, "the knife", false), Ok(UsePlan::Wield));
    assert_eq!(
        plan_item_use(UsableKind::Other, "Mint", false, "the rock", false),
        Err("The item can not be used in any meaningful way.".to_string())
    );
}

#[test]
fn ship_and_rest_command_checks() {
    assert_eq!(check_go_to_ship(true), err("You are already at the ship."));
    assert_eq!(check_go_to_ship(false), Ok(()));
    assert_eq!(check_rest(false, true), err("This area is not safe to rest in."));
    assert_eq!(check_rest(true, false), err("The crew is already rested."));
    assert_eq!(check_rest(true, true), Ok(()));
    assert_eq!(check_control(e(1), e(1)), Err("You're already in control of them.".to_string()));
    assert_eq!(check_control(e(1), e(2)), Ok(e(2)));

    let need = Some(ShipStatus::NeedFuel(FuelAmount::OneCan));
    assert_eq!(
        check_refuel_ship("Mint", None, need, true),
        err("Mint needs to be in the ship control room in order to refuel it.")
    );
    assert_eq!(check_refuel_ship("Mint", Some(err("the crate is in the way.")), need, true), err("the crate is in the way."));
    assert_eq!(check_refuel_ship("Mint", Some(Ok(())), None, true), err("The crew has no ship."));
    assert_eq!(check_refuel_ship("Mint", Some(Ok(())), Some(ShipStatus::Refueled), true), err("The ship is already refueled."));
    assert_eq!(check_refuel_ship("Mint", Some(Ok(())), need, false), err("Mint needs a fuel can to refuel the ship."));
    assert_eq!(check_refuel_ship("Mint", Some(Ok(())), need, true), Ok(()));

    assert_eq!(
        check_launch_ship("Mint", true, Some(Ok(())), need, true),
        err("You are already at your final destination. You should find the fortuna chest before leaving!")
    );
    assert_eq!(
        check_launch_ship("Mint", false, None, need, true),
        err("Mint needs to be in the ship control room in order to launch it.")
    );
    assert_eq!(check_launch_ship("Mint", false, Some(Ok(())), need, false), err("Mint needs a fuel can to launch the ship."));
    assert_eq!(check_launch_ship("Mint", false, Some(Ok(())), Some(ShipStatus::Refueled), false), Ok(()));
    assert_eq!(check_launch_ship("Mint", false, Some(Ok(())), need, true), Ok(()));
}

#[test]
fn rest_is_needed_while_some_stamina_is_low() {
    let area = e(100);
    let stats = Stats { strength: 5, endurance: 5, agility: 5, luck: 5 };
    let rested = || Stamina::with_max(&stats);
    let tired = || {
        let mut s = Stamina::with_max(&stats);
        s.on_dodge_attempt();
        s
    };
    let here = Pos::new(area, 1, 5);
    let elsewhere = Pos::new(e(200), 1, 5);
    assert!(!crew_needs_rest(area, &vec![(here, rested())]));
    assert!(crew_needs_rest(area, &vec![(here, rested()), (here, tired())]));
    assert!(!crew_needs_rest(area, &vec![(elsewhere, tired())]));
}

#[test]
fn hostiles_are_grouped_by_name() {
    let pairs = vec![
        ("goblin".to_string(), e(1)),
        ("goblins".to_string(), e(1)),
        ("eyesaur".to_string(), e(2)),
        ("goblin".to_string(), e(3)),
        ("goblins".to_string(), e(3)),
    ];
    assert_eq!(
        group_by_name(&pairs),
        vec![
            ("goblin".to_string(), vec![e(1), e(3)]),
            ("goblins".to_string(), vec![e(1), e(3)]),
            ("eyesaur".to_string(), vec![e(2)]),
        ]
    );
    let area = e(100);
    let hostile = |n: u64, coord_area: u64, alive: bool, names: &[&str]| HostileCandidate {
        entity: e(n),
        pos: Pos::new(e(coord_area), 1, 5),
        alive,
        names: names.iter().map(|s| s.to_string()).collect(),
    };
    let candidates = vec![
        hostile(1, 100, true, &["goblin", "goblins"]),
        hostile(2, 100, false, &["goblin", "goblins"]),
        hostile(3, 200, true, &["goblin", "goblins"]),
        hostile(4, 100, true, &["goblin", "goblins"]),
    ];
    assert_eq!(
        hostile_targets(area, &candidates),
        vec![("goblin".to_string(), vec![e(1), e(4)]), ("goblins".to_string(), vec![e(1), e(4)])]
    );
}
