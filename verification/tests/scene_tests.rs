use aftiktuna::action::combat::{AttackEffect, AttackMeans, HitType, attack_report};
use aftiktuna::action::door::{EnterDoorScene, ForceDoorScene, enter_door, force_door};
use aftiktuna::asset::NounDataMap;
use aftiktuna::base::combat::{AttackKind, UnarmedType};
use aftiktuna::base::item::{Price, Tool};
use aftiktuna::base::name::{ArticleKind, CountFormat, IndefiniteArticle, NameIdData, NounData, NounId, names_with_counts};
use aftiktuna::base::position::{Direction, Pos};
use aftiktuna::base::{BlockType, Door, DoorKind, EntityId};

fn e(n: u64) -> EntityId {
    EntityId(n)
}

fn pos(area: u64, coord: u32) -> Pos {
    Pos::new(e(area), coord, 10)
}

fn force_scene() -> ForceDoorScene {
    ForceDoorScene {
        performer_name: "Mint".to_owned(),
        performer_area: Some(e(1)),
        door_pos: Some(pos(1, 4)),
        door_pair: Some(e(50)),
        step_blocked: None,
        block_type: Some(BlockType::Stuck),
        held_tools: vec![Tool::Crowbar],
        doors: vec![(e(20), e(50)), (e(21), e(51)), (e(22), e(50))],
    }
}

#[test]
fn forcing_a_stuck_door_with_a_crowbar() {
    let forced = force_door(&force_scene()).unwrap();
    assert_eq!(forced.tool, Tool::Crowbar);
    assert!(forced.cut_doors.is_empty());
    assert_eq!(forced.message, "Mint used their crowbar and forced open the door.");
}

#[test]
fn forcing_a_sealed_door_cuts_both_sides() {
    let mut scene = force_scene();
    scene.block_type = Some(BlockType::Sealed);
    scene.held_tools = vec![Tool::Crowbar, Tool::Blowtorch];
    let forced = force_door(&scene).unwrap();
    assert_eq!(forced.tool, Tool::Blowtorch);
    assert_eq!(forced.cut_doors, vec![e(20), e(22)]);
    assert_eq!(forced.message, "Mint used their blowtorch and cut open the door.");
}

#[test]
fn forcing_fails_in_order() {
    let mut scene = force_scene();
    scene.door_pos = None;
    let err = force_door(&scene).err().unwrap();
    assert_eq!((err.message.as_str(), err.visible), ("Mint lost track of the door.", false));

    let mut scene = force_scene();
    scene.performer_area = Some(e(2));
    let err = force_door(&scene).err().unwrap();
    assert_eq!((err.message.as_str(), err.visible), ("Mint cannot reach the door from here.", false));

    let mut scene = force_scene();
    scene.door_pair = None;
    let err = force_door(&scene).err().unwrap();
    assert_eq!((err.message.as_str(), err.visible), ("The door ceased being a door.", false));

    let mut scene = force_scene();
    scene.step_blocked = Some("The goblin is in the way.".to_owned());
    let err = force_door(&scene).err().unwrap();
    assert_eq!((err.message.as_str(), err.visible), ("The goblin is in the way.", false));

    let mut scene = force_scene();
    scene.block_type = None;
    let err = force_door(&scene).err().unwrap();
    assert_eq!(
        (err.message.as_str(), err.visible),
        ("Mint inspects the door, but it does not appear to be stuck.", true)
    );

    let mut scene = force_scene();
    scene.block_type = Some(BlockType::Sealed);
    let err = force_door(&scene).err().unwrap();
    assert_eq!((err.message.as_str(), err.visible), ("Mint needs some sort of tool to break the door open.", true));
}

fn enter_scene() -> EnterDoorScene {
    EnterDoorScene {
        performer_name: "Mint".to_owned(),
        performer_area: Some(e(1)),
        is_large: false,
        direction: Direction::Left,
        door_pos: Some(pos(1, 4)),
        step_blocked: None,
        door: Some(Door { kind: DoorKind::Path, destination: pos(2, 3), door_pair: e(50) }),
        pair_block: None,
        destination_area_size: Some(10),
    }
}

#[test]
fn entering_a_door_leads_to_its_destination() {
    let entry = enter_door(&enter_scene()).unwrap();
    assert_eq!(entry.destination, pos(2, 3));
    assert_eq!(entry.kind, DoorKind::Path);

    let mut scene = enter_scene();
    scene.is_large = true;
    let entry = enter_door(&scene).unwrap();
    assert_eq!(entry.destination, pos(2, 2));

    let mut scene = enter_scene();
    scene.is_large = true;
    scene.door = Some(Door { kind: DoorKind::Door, destination: pos(2, 0), door_pair: e(50) });
    let entry = enter_door(&scene).unwrap();
    assert_eq!(entry.destination, pos(2, 0));
    assert_eq!(entry.kind, DoorKind::Door);
}

#[test]
fn entering_fails_in_order() {
    let mut scene = enter_scene();
    scene.door_pos = None;
    assert_eq!(enter_door(&scene).err().unwrap().message, "Mint lost track of the door.");

    let mut scene = enter_scene();
    scene.performer_area = None;
    assert_eq!(enter_door(&scene).err().unwrap().message, "Mint cannot reach the door from here.");

    let mut scene = enter_scene();
    scene.step_blocked = Some("The goblin and the eyesaur are in the way.".to_owned());
    scene.door = None;
    assert_eq!(enter_door(&scene).err().unwrap().message, "The goblin and the eyesaur are in the way.");

    let mut scene = enter_scene();
    scene.door = None;
    assert_eq!(enter_door(&scene).err().unwrap().message, "The door ceased being a door.");

    let mut scene = enter_scene();
    scene.pair_block = Some(BlockType::Sealed);
    let err = enter_door(&scene).err().unwrap();
    assert!(err.visible);
    assert_eq!(err.message, "Mint is unable to enter the door as it is sealed shut.");
}

#[test]
fn a_rash_direct_hit_with_a_cursed_nail() {
    let report = attack_report(
        AttackKind::Rash,
        "Mint",
        &AttackMeans::Weapon("cursed nail".to_owned()),
        "the goblin",
        HitType::DirectHit,
        Some(AttackEffect::Killed),
        true,
    );
    assert!(report.attacker_stunned);
    assert!(report.nail_used);
    assert_eq!(
        report.messages,
        vec![
            "With uncontrolled force, Mint swings their cursed nail at the goblin and directly hits them, killing the goblin."
                .to_owned(),
            "The used nail breaks in two.".to_owned(),
        ]
    );
}

#[test]
fn a_dodged_bite_keeps_the_nail() {
    let report = attack_report(
        AttackKind::Light,
        "the eyesaur",
        &AttackMeans::Unarmed(UnarmedType::Bite),
        "Mint",
        HitType::Dodge,
        None,
        true,
    );
    assert!(!report.attacker_stunned);
    assert!(!report.nail_used);
    assert_eq!(report.messages, vec!["the eyesaur jumps at Mint, but Mint dodges the attack.".to_owned()]);

    let report = attack_report(
        AttackKind::Charged,
        "the eyesaur",
        &AttackMeans::Unarmed(UnarmedType::Bite),
        "Mint",
        HitType::GrazingHit,
        Some(AttackEffect::Stunned),
        false,
    );
    assert_eq!(
        report.messages,
        vec!["With power, the eyesaur jumps at Mint and narrowly bites them, stunning Mint.".to_owned()]
    );
}

#[test]
fn resale_pays_three_quarters() {
    assert_eq!(Price(100).buy_price(), 100);
    assert_eq!(Price(100).sell_price(), 75);
    assert_eq!(Price(7).sell_price(), 6);
    assert_eq!(Price(0).sell_price(), 0);
}

#[test]
fn noun_counts_cover_every_unnamed_entry() {
    let map = NounDataMap::new(vec![
        (NounId("knife".to_owned()), NounData::new("knife", "knives", IndefiniteArticle::A)),
        (NounId("sword".to_owned()), NounData::new("sword", "swords", IndefiniteArticle::A)),
    ]);
    let data = vec![
        NameIdData::Noun(None, NounId("knife".to_owned())),
        NameIdData::Name("Mint".to_owned()),
        NameIdData::Noun(None, NounId("sword".to_owned())),
        NameIdData::Noun(None, NounId("knife".to_owned())),
    ];
    let names = names_with_counts(data, ArticleKind::A, CountFormat::Text, &map);
    assert_eq!(names, vec!["Mint".to_owned(), "two knives".to_owned(), "a sword".to_owned()]);
}
