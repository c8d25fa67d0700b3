use aftiktuna::ai::{FoeChoice, FoeFacts, foe_wander_choice};
use aftiktuna::area::{Category, Locations, PickResult};
use aftiktuna::asset::access::path_ends_with;
use aftiktuna::asset::model::GroupPlacement;
use aftiktuna::base::EntityId;
use aftiktuna::base::status::{Stamina, Stats};
use aftiktuna::dialogue::{ShipDialogue, pick_ship_dialogue_topic, ship_topic_from_draws};
use aftiktuna::game_loop::{TurnEndFacts, end_of_turn};

fn e(n: u64) -> EntityId {
    EntityId(n)
}

fn wanderer() -> FoeFacts {
    FoeFacts {
        is_fearful: false,
        random_unblocked_path: None,
        aggressive: false,
        targets: vec![],
        is_wandering: true,
        observation_targets: vec![e(7), e(8)],
        random_wander_path: Some(e(20)),
    }
}

#[test]
fn the_wanderer_follows_the_draws() {
    assert!(matches!(foe_wander_choice(wanderer(), 1, true, false), Some(FoeChoice::Examine(t)) if t == e(8)));
    assert!(matches!(foe_wander_choice(wanderer(), 1, false, true), Some(FoeChoice::EnterDoor(d)) if d == e(20)));
    assert!(foe_wander_choice(wanderer(), 0, false, false).is_none());
    let mut nothing_to_see = wanderer();
    nothing_to_see.observation_targets = vec![];
    assert!(matches!(foe_wander_choice(nothing_to_see, 0, true, true), Some(FoeChoice::EnterDoor(d)) if d == e(20)));
    let mut no_door = wanderer();
    no_door.random_wander_path = None;
    assert!(foe_wander_choice(no_door, 0, false, true).is_none());
    let mut settled = wanderer();
    settled.is_wandering = false;
    assert!(foe_wander_choice(settled, 0, true, true).is_none());
    let mut angry = wanderer();
    angry.aggressive = true;
    angry.targets = vec![e(3)];
    assert!(matches!(foe_wander_choice(angry, 0, true, true), Some(FoeChoice::Attack(t)) if t == vec![e(3)]));
}

#[test]
fn a_picked_location_leaves_its_category() {
    let mut rng = rand::rng();
    let mut locations = Locations {
        categories: vec![
            Category { name: "forest".to_owned(), location_names: vec!["forest/a".to_owned(), "forest/b".to_owned()] },
            Category { name: "village".to_owned(), location_names: vec!["village/a".to_owned()] },
        ],
        fortuna_locations: vec!["fortuna/a".to_owned()],
    };
    let picked = locations.pick_from_category(0, &mut rng);
    let left: Vec<String> = if picked == "forest/a" { vec!["forest/b".to_owned()] } else { vec!["forest/a".to_owned()] };
    assert_eq!(locations.categories[0].location_names, left);
    assert_eq!(locations.categories[1].location_names, vec!["village/a".to_owned()]);
    let picked = locations.pick_from_category(1, &mut rng);
    assert_eq!(picked, "village/a");
    assert_eq!(locations.categories.len(), 1);
    assert!(matches!(locations.pick_fortuna_location(&mut rng), PickResult::Location(l) if l == "fortuna/a"));
    assert!(locations.fortuna_locations.is_empty());
}

#[test]
fn turn_end_unstuns_and_applies_clovers() {
    let effects = end_of_turn(TurnEndFacts {
        stunned: vec![(e(1), true), (e(2), false), (e(3), true)],
        holder_stats: vec![Stats::new(5, 5, 5, 7), Stats::new(5, 5, 5, 9)],
        clover_holders: vec![Some(0), Some(1), None, Some(0)],
    });
    assert_eq!(effects.unstunned, vec![e(1), e(2), e(3)]);
    assert_eq!(effects.regained_balance, vec![e(1), e(3)]);
    assert_eq!(effects.used_clovers, vec![0]);
    assert_eq!(effects.holder_stats, vec![Stats::new(5, 5, 5, 9), Stats::new(5, 5, 5, 9)]);
}

#[test]
fn group_placement_names_the_wrong_group() {
    let mut map = indexmap::IndexMap::new();
    map.insert(1u16, vec![(0i16, 0i16)]);
    map.insert(3u16, vec![(0, 0), (10, 0)]);
    assert_eq!(
        GroupPlacement::try_from_map(map).err(),
        Some("Position group 3 has wrong number of positions: 2".to_owned())
    );
}

#[test]
fn paths_compare_root_and_current_directory() {
    assert!(!path_ends_with("/x/a", "/a"));
    assert!(path_ends_with("/a", "/a"));
    assert!(path_ends_with("/x/a", "a"));
    assert!(path_ends_with("./a", "./a"));
    assert!(!path_ends_with("x/a", "./a"));
    assert!(path_ends_with("x/./a", "x/a"));
    assert!(path_ends_with("x/a/", "a"));
}

#[test]
fn stamina_for_extreme_endurance() {
    let stamina = Stamina::with_max(&Stats::new(1, 10920, 1, 1));
    assert!(format!("{:?}", stamina).contains("32766"));
}

#[test]
fn ship_topics_follow_the_draws() {
    let crew = vec![(e(1), false), (e(2), true), (e(3), false)];
    assert_eq!(ship_topic_from_draws(&crew, true, 2, 0, 0, 1), Some((ShipDialogue::ApproachingFortuna, e(3), e(1))));
    assert_eq!(ship_topic_from_draws(&crew, false, 2, 0, 0, 1), Some((ShipDialogue::CrewLoss, e(2), e(3))));
    let calm = vec![(e(1), false), (e(2), false)];
    assert_eq!(ship_topic_from_draws(&calm, false, 1, 0, 0, 0), Some((ShipDialogue::Regular, e(2), e(1))));
    assert_eq!(ship_topic_from_draws(&vec![(e(1), true)], false, 0, 0, 0, 0), None);
    let mut rng = rand::rng();
    let picked = pick_ship_dialogue_topic(&mut rng, &crew, false).unwrap();
    assert_eq!(picked.0, ShipDialogue::CrewLoss);
    assert_eq!(picked.1, e(2));
    assert_ne!(picked.2, e(2));
}
