use aftiktuna::action::combat::{check_attack_target, nail_breaks_message, readies_attack_message, stuns_attacker};
use aftiktuna::action::door::{
    assist_line, check_door_blocked, keeps_going_to_ship, no_path_to_ship_error, not_a_door_error,
};
use aftiktuna::ai::{PathOption, find_random_unblocked_path};
use aftiktuna::area::PickResult;
use aftiktuna::base::combat::AttackKind;
use aftiktuna::base::position::{Occupant, Placement, Pos};
use aftiktuna::base::{BlockType, EntityId};
use aftiktuna::command::game::{Mover, Obstacles};
use aftiktuna::game_interface::{Phase, StopType};
use aftiktuna::game_loop::{
    WaitRequest, after_tick, clover_vanishes_message, introduction_message, is_wait_requested, next_location_phase,
    should_controlled_character_wait, should_take_user_input,
};

fn e(n: u64) -> EntityId {
    EntityId(n)
}

fn pos(coord: u32) -> Pos {
    Pos::new(e(100), coord, 10)
}

#[test]
fn attack_target_checks() {
    let area = e(100);
    assert_eq!(check_attack_target("Mint", "the goblin", false, None, area).ok(), Some(false));
    assert_eq!(
        check_attack_target("Mint", "the goblin", true, None, area).err().unwrap().message,
        "the goblin disappeared before Mint could attack."
    );
    assert_eq!(
        check_attack_target("Mint", "the goblin", true, Some(e(7)), area).err().unwrap().message,
        "the goblin left before Mint could attack."
    );
    assert_eq!(check_attack_target("Mint", "the goblin", true, Some(area), area).ok(), Some(true));
    assert_eq!(readies_attack_message("Mint"), "Mint readies a powerful attack.");
    assert!(stuns_attacker(AttackKind::Rash));
    assert!(!stuns_attacker(AttackKind::Light));
    assert!(!stuns_attacker(AttackKind::Charged));
    assert_eq!(nail_breaks_message(), "The used nail breaks in two.");
}

#[test]
fn forcing_and_going_to_the_ship() {
    assert_eq!(not_a_door_error().message, "The door ceased being a door.");
    assert_eq!(check_door_blocked("Mint", Some(BlockType::Sealed)).ok(), Some(BlockType::Sealed));
    let err = check_door_blocked("Mint", None).err().unwrap();
    assert_eq!(err.message, "Mint inspects the door, but it does not appear to be stuck.");
    assert!(err.visible);
    assert_eq!(assist_line(), "I'll help you get that door open.");
    assert_eq!(no_path_to_ship_error().message, "Could not find a path to the ship.");
    assert!(keeps_going_to_ship(true, true, false));
    assert!(!keeps_going_to_ship(true, true, true));
    assert!(!keeps_going_to_ship(false, true, false));
    assert!(!keeps_going_to_ship(true, false, false));
}

#[test]
fn random_path_is_one_that_can_be_used() {
    let mut rng = rand::rng();
    let mover = Mover { entity: e(1), is_crew_member: false, is_hostile: true, pos: Some(pos(1)) };
    let crew_in_way = Occupant { entity: e(9), placement: Placement::from_parts(pos(3), None, false), blocks_opponent: true };
    let obstacles = Obstacles { hostiles: vec![], crew: vec![crew_in_way], occupants: vec![] };
    let paths = vec![
        PathOption { door: e(20), pos: pos(5), destination_accepted: true },
        PathOption { door: e(21), pos: pos(0), destination_accepted: true },
        PathOption { door: e(22), pos: pos(2), destination_accepted: false },
        PathOption { door: e(23), pos: Pos::new(e(200), 0, 10), destination_accepted: true },
    ];
    // Door 20 lies behind a crew member, 22 leads somewhere not accepted, 23 is elsewhere.
    for _ in 0..20 {
        assert_eq!(find_random_unblocked_path(&mut rng, &mover, &obstacles, &paths), Some(e(21)));
    }
    let open = Obstacles { hostiles: vec![], crew: vec![], occupants: vec![] };
    for _ in 0..20 {
        let d = find_random_unblocked_path(&mut rng, &mover, &open, &paths).unwrap();
        assert!(d == e(20) || d == e(21));
    }
    assert_eq!(find_random_unblocked_path(&mut rng, &mover, &obstacles, &paths[2..].to_vec()), None);
    let unplaced = Mover { entity: e(1), is_crew_member: false, is_hostile: true, pos: None };
    assert_eq!(find_random_unblocked_path(&mut rng, &unplaced, &open, &paths), None);
}

#[test]
fn game_loop_decisions() {
    assert!(should_take_user_input(false, false));
    assert!(!should_take_user_input(true, false));
    assert!(!should_take_user_input(false, true));
    assert!(should_controlled_character_wait(false, true, true));
    assert!(!should_controlled_character_wait(true, true, true));
    assert!(!should_controlled_character_wait(false, false, true));
    assert!(!should_controlled_character_wait(false, true, false));

    let area = e(100);
    let crew = vec![
        WaitRequest { entity: e(1), pos: pos(1), requesting_wait: true },
        WaitRequest { entity: e(2), pos: Pos::new(e(200), 1, 5), requesting_wait: true },
        WaitRequest { entity: e(3), pos: pos(2), requesting_wait: false },
    ];
    // The controlled character's own request does not count, nor one from another area.
    assert!(!is_wait_requested(e(1), area, &crew));
    assert!(is_wait_requested(e(3), area, &crew));

    assert!(matches!(next_location_phase(PickResult::Nothing), Err(Phase::Stopped(StopType::Win))));
    assert_eq!(next_location_phase(PickResult::Location("forest".to_string())).ok(), Some("forest".to_string()));

    assert!(matches!(after_tick(Err(StopType::Lose), true), Err(Phase::Stopped(StopType::Lose))));
    assert!(matches!(after_tick(Ok(None), true), Ok(true)));
    assert!(matches!(after_tick(Ok(Some(e(2))), false), Ok(false)));

    assert_eq!(introduction_message("Mint"), "You're playing as the aftik Mint.");
    assert_eq!(
        clover_vanishes_message("Mint"),
        "As Mint holds the four leaf clover, it disappears in their hand. (Luck has increased by 2 points)"
    );
}
