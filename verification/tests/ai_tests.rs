use aftiktuna::ai::{
    blocks_opponents, keeps_repeating, next_action,
    CrewChoice, CrewFacts, FoeChoice, FoeFacts, IntentionFacts, PathLink, controlled_character_action,
    find_path_towards, has_behavior, is_requesting_wait, pick_attack_kind, pick_crew_action, pick_foe_action,
    pick_intention,
};
use aftiktuna::base::EntityId;
use aftiktuna::base::behavior::{BadlyHurtBehavior, Intention, RepeatingAction};
use aftiktuna::base::combat::AttackKind;

fn e(n: u64) -> EntityId {
    EntityId(n)
}

fn link(door: u64, area: u64, destination: u64) -> PathLink {
    PathLink { door: e(door), area: e(area), destination: e(destination) }
}

#[test]
fn path_search_finds_first_door_of_shortest_way() {
    // Area 1 leads to 2 (door 10) and 3 (door 11); 2 leads to the ship 4 (door 12), 3 leads to 5 (door 13),
    // and 5 to the ship (door 14).
    let doors = vec![link(11, 1, 3), link(10, 1, 2), link(13, 3, 5), link(12, 2, 4), link(14, 5, 4)];
    assert_eq!(find_path_towards(&doors, e(1), &vec![e(4)]), Some(e(10)));
    assert_eq!(find_path_towards(&doors, e(1), &vec![e(5)]), Some(e(11)));
    assert_eq!(find_path_towards(&doors, e(1), &vec![e(9)]), None);
    // The starting area itself is never the answer.
    assert_eq!(find_path_towards(&doors, e(1), &vec![e(1)]), None);
    assert_eq!(find_path_towards(&vec![], e(1), &vec![e(4)]), None);
}

#[test]
fn path_search_handles_cycles() {
    let doors = vec![link(1, 1, 2), link(2, 2, 1), link(3, 2, 3), link(4, 3, 2)];
    assert_eq!(find_path_towards(&doors, e(1), &vec![e(3)]), Some(e(1)));
    assert_eq!(find_path_towards(&doors, e(3), &vec![e(1)]), Some(e(4)));
}

#[test]
fn attack_kind_choice() {
    let mut rng = rand::rng();
    let kinds = vec![AttackKind::Light, AttackKind::Rash];
    assert_eq!(pick_attack_kind(&mut rng, &kinds, true), AttackKind::Rash);
    assert!(kinds.contains(&pick_attack_kind(&mut rng, &kinds, false)));
    assert_eq!(pick_attack_kind(&mut rng, &vec![], true), AttackKind::Light);
    assert!(has_behavior(true, Some(BadlyHurtBehavior::Fearful), BadlyHurtBehavior::Fearful));
    assert!(!has_behavior(false, Some(BadlyHurtBehavior::Fearful), BadlyHurtBehavior::Fearful));
}

fn crew_facts() -> CrewFacts {
    CrewFacts {
        is_fearful: false,
        safe_in_ship: false,
        unblocked_path_to_ship: Some(e(1)),
        random_unblocked_path: Some(e(2)),
        intention: None,
        waits_at_ship_away: false,
        foes: vec![],
    }
}

#[test]
fn crew_choices() {
    assert!(pick_crew_action(crew_facts()).is_none());
    let fearful = CrewFacts { is_fearful: true, ..crew_facts() };
    assert!(matches!(pick_crew_action(fearful), Some(CrewChoice::EnterDoor(d)) if d == e(1)));
    let fearful_lost = CrewFacts { is_fearful: true, unblocked_path_to_ship: None, ..crew_facts() };
    assert!(matches!(pick_crew_action(fearful_lost), Some(CrewChoice::EnterDoor(d)) if d == e(2)));
    let fighting = CrewFacts { foes: vec![e(7)], intention: Some(Intention::Refuel), ..crew_facts() };
    assert!(matches!(pick_crew_action(fighting), Some(CrewChoice::Attack(foes)) if foes == vec![e(7)]));
    let medkit = CrewFacts { foes: vec![e(7)], intention: Some(Intention::UseMedkit(e(9))), ..crew_facts() };
    assert!(matches!(pick_crew_action(medkit), Some(CrewChoice::UseMedkit(i)) if i == e(9)));
    let refuel = CrewFacts { intention: Some(Intention::Refuel), ..crew_facts() };
    assert!(matches!(pick_crew_action(refuel), Some(CrewChoice::Refuel)));
}

#[test]
fn foe_choices() {
    let mut rng = rand::rng();
    let facts = FoeFacts {
        is_fearful: false,
        random_unblocked_path: None,
        aggressive: true,
        targets: vec![e(3)],
        is_wandering: false,
        observation_targets: vec![],
        random_wander_path: None,
    };
    assert!(matches!(pick_foe_action(&mut rng, facts), Some(FoeChoice::Attack(t)) if t == vec![e(3)]));
    let calm = FoeFacts {
        is_fearful: false,
        random_unblocked_path: None,
        aggressive: false,
        targets: vec![e(3)],
        is_wandering: false,
        observation_targets: vec![],
        random_wander_path: None,
    };
    assert!(pick_foe_action(&mut rng, calm).is_none());
    let fleeing = FoeFacts {
        is_fearful: true,
        random_unblocked_path: Some(e(8)),
        aggressive: true,
        targets: vec![e(3)],
        is_wandering: false,
        observation_targets: vec![],
        random_wander_path: None,
    };
    assert!(matches!(pick_foe_action(&mut rng, fleeing), Some(FoeChoice::EnterDoor(d)) if d == e(8)));
}

#[test]
fn intentions() {
    let facts = IntentionFacts { hurt_and_safe: true, inventory: vec![(e(1), false, true), (e(2), true, false)], can_refuel: true };
    assert_eq!(pick_intention(&facts), Some(Intention::UseMedkit(e(2))));
    let healthy = IntentionFacts { hurt_and_safe: false, ..facts };
    assert_eq!(pick_intention(&healthy), Some(Intention::Wield(e(1))));
    let nothing = IntentionFacts { hurt_and_safe: false, inventory: vec![], can_refuel: true };
    assert_eq!(pick_intention(&nothing), Some(Intention::Refuel));
    assert!(is_requesting_wait(false, false, true));
    assert_eq!(controlled_character_action(false, Some(e(5)), true), Some(Some(e(5))));
    assert_eq!(controlled_character_action(false, None, true), Some(None));
    assert_eq!(controlled_character_action(true, Some(e(5)), true), None);
}

#[test]
fn intentions_before_the_turn() {
    assert!(!blocks_opponents(true, Some(BadlyHurtBehavior::Fearful)));
    assert!(blocks_opponents(false, Some(BadlyHurtBehavior::Fearful)));
    assert!(blocks_opponents(true, None));
    assert!(!keeps_repeating(RepeatingAction::Rest, false));
    assert!(keeps_repeating(RepeatingAction::Rest, true));
    assert!(keeps_repeating(RepeatingAction::ChargedAttack(e(3)), false));
    assert_eq!(next_action(Some(1), Some(2)), Some(1));
    assert_eq!(next_action(None, Some(2)), Some(2));
    assert_eq!(next_action::<u8>(None, None), None);
}
