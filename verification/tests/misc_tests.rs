use aftiktuna::action::combat::{AttackEffect, HitType, attack_hit_effect, roll_hit};
use aftiktuna::action::{named_message, tamed_message};
use aftiktuna::base::behavior::{Hostile, RepeatingAction, is_safe, trigger_aggression_in_area};
use aftiktuna::base::combat::AttackKind;
use aftiktuna::base::display::{CreatureVariant, CreatureVariantSet, WeightedVariant};
use aftiktuna::base::inventory::Held;
use aftiktuna::base::item::{ItemTypeId, Tool};
use aftiktuna::base::position::{Direction, Pos};
use aftiktuna::base::status::{CreatureAttribute, Stats};
use aftiktuna::base::{EntityId, SpeciesId};
use aftiktuna::command::parse::Parse;
use aftiktuna::game_interface::{Phase, PhaseResult};
use aftiktuna::text::decimal_u32;

fn e(n: u64) -> EntityId {
    EntityId(n)
}

#[test]
fn naming_and_taming_messages() {
    assert_eq!(named_message("Mint", "the aftik", "Plum"), "Mint dubbed the aftik to be named Plum.");
    assert_eq!(tamed_message("Mint", "the scarvie"), "Mint offered a food ration to the scarvie and tamed it.");
}

#[test]
fn rolled_hits_follow_the_difficulty() {
    let mut rng = rand::rng();
    // With a difficulty far below any roll, every hit is direct; far above, every attack is dodged.
    for _ in 0..20 {
        assert_eq!(roll_hit(&mut rng, -100, AttackKind::Light), HitType::DirectHit);
        assert_eq!(roll_hit(&mut rng, 100, AttackKind::Light), HitType::Dodge);
    }
}

#[test]
fn hit_effects() {
    let mut rng = rand::rng();
    assert_eq!(attack_hit_effect(&mut rng, true, false, false, true, 5, 5, AttackKind::Light), Some(AttackEffect::Killed));
    // Grazing hits, stunned targets and weapons that do not stun never stun.
    assert_eq!(attack_hit_effect(&mut rng, false, false, false, true, 10, 1, AttackKind::Light), None);
    assert_eq!(attack_hit_effect(&mut rng, false, true, true, true, 10, 1, AttackKind::Light), None);
    assert_eq!(attack_hit_effect(&mut rng, false, true, false, false, 10, 1, AttackKind::Light), None);
    // A far stronger attacker always stuns; a far weaker one never does.
    for _ in 0..20 {
        assert_eq!(
            attack_hit_effect(&mut rng, false, true, false, true, 100, 1, AttackKind::Light),
            Some(AttackEffect::Stunned)
        );
        assert_eq!(attack_hit_effect(&mut rng, false, true, false, true, 1, 100, AttackKind::Light), None);
    }
}

#[test]
fn behaviors() {
    assert!(!RepeatingAction::ChargedAttack(e(1)).cancel_if_unsafe());
    assert!(!RepeatingAction::UseItem { item: e(1), use_time: 2 }.cancel_if_unsafe());
    assert!(RepeatingAction::TakeAll.cancel_if_unsafe());
    assert!(RepeatingAction::Rest.cancel_if_unsafe());
    assert!(RepeatingAction::GoToShip.cancel_if_unsafe());
    // An area is safe where no living hostile there is aggressive.
    assert!(is_safe(&vec![(true, false), (false, true)]));
    assert!(!is_safe(&vec![(true, false), (true, true)]));
    let mut hostiles = vec![(true, Hostile { aggressive: false }), (false, Hostile { aggressive: false })];
    trigger_aggression_in_area(&mut hostiles);
    assert!(hostiles[0].1.aggressive);
    assert!(!hostiles[1].1.aggressive);
}

#[test]
fn variants_are_picked_once_per_group() {
    let mut rng = rand::rng();
    let groups = vec![
        vec![
            WeightedVariant { variant: CreatureVariant::female(), weight: 1 },
            WeightedVariant { variant: CreatureVariant::male(), weight: 0 },
        ],
        vec![WeightedVariant { variant: CreatureVariant("striped".to_string()), weight: 3 }],
    ];
    let set = CreatureVariantSet::random_for_species(&groups, &mut rng);
    assert_eq!(set.0, vec![CreatureVariant::female(), CreatureVariant("striped".to_string())]);
    let mut set = CreatureVariantSet(vec![CreatureVariant("striped".to_string())]);
    set.insert_missing_variants(&groups, &mut rng);
    assert_eq!(set.0, vec![CreatureVariant("striped".to_string()), CreatureVariant::female()]);
}

#[test]
fn small_base_helpers() {
    let held = Held::in_inventory(e(1));
    assert!(!held.is_in_hand());
    assert!(held.is_in_inventory(e(1)));
    assert!(!held.is_in_inventory(e(2)));
    assert!(!Held::in_hand(e(1)).is_in_inventory(e(1)));
    assert_eq!(Tool::Crowbar.into_message("Mint"), "Mint used their crowbar and forced open the door.");
    assert_eq!(Tool::Blowtorch.into_message("Mint"), "Mint used their blowtorch and cut open the door.");
    assert!(ItemTypeId("food_ration".to_string()).is_food_ration());
    assert!(!ItemTypeId("black_orb".to_string()).is_food_ration());
    assert!(ItemTypeId("black_orb".to_string()).is_black_orb());
    let center = Pos::center_of(e(7), 6);
    assert_eq!(center.get_coord(), 2);
    assert_eq!(center.get_area(), e(7));
    assert_eq!(Direction::Left.to_i16(), -1);
    assert_eq!(Direction::Right.to_i16(), 1);
    let mut stats = Stats { strength: 5, endurance: 5, agility: 5, luck: 5 };
    CreatureAttribute::Muscular.adjust_stats(&mut stats);
    assert_eq!(stats, Stats { strength: 8, endurance: 5, agility: 5, luck: 4 });
    CreatureAttribute::Agile.adjust_stats(&mut stats);
    assert_eq!(stats, Stats { strength: 8, endurance: 4, agility: 8, luck: 4 });
    assert_eq!(SpeciesId("goblin".to_string()).portrait_model_id().0, "portrait/goblin");
    assert_eq!(decimal_u32(0), "0");
    assert_eq!(decimal_u32(4294967295), "4294967295");
    let result = PhaseResult::from_phase(Phase::CommandInput);
    assert!(matches!(result.next_phase, Phase::CommandInput));
    assert!(result.load_error.is_none());
}

#[test]
fn parse_numbers_and_the_rest() {
    let parse = Parse::new("3 knives");
    assert_eq!(
        parse.numeric(|rest, n| (n, rest.take_remaining(|s| s.to_string()))),
        Some((3, "knives".to_string()))
    );
    assert_eq!(Parse::new("three knives").numeric(|_, n| n), None);
    let parse = Parse::new("knife");
    let found = parse.match_against(
        vec![("sword".to_string(), 1), ("knife".to_string(), 2)],
        |rest, a| (a, rest.take_remaining(|s| s.len())),
        |s| (0, s.len()),
    );
    assert_eq!(found, (2, 0));
    let missing = Parse::new("axe").match_against(vec![("sword".to_string(), 1)], |_, a| (a, 0), |s| (0, s.len()));
    assert_eq!(missing, (0, 3));
}
