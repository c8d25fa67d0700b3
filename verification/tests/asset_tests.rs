use aftiktuna::asset::NounDataMap;
use aftiktuna::asset::access::{AssetDirectory, AssetFile, json_file_stem, path_ends_with};
use aftiktuna::asset::background::{PortraitBGData, background_texture_name};
use aftiktuna::asset::color::{ColorSource, RGBColor, SpeciesColorData, SpeciesColorEntry, SpeciesColorMap};
use aftiktuna::asset::dialogue::{
    ConditionedDialogueNode, DialogueCondition, DialogueConditionList, DialogueFacts, DialogueList,
};
use aftiktuna::asset::location::creature::{AttributeChoice, Type};
use aftiktuna::asset::location::{ContainerType, DoorAdjective, DoorType};
use aftiktuna::asset::loot::{LootEntry, LootTable};
use aftiktuna::asset::model::{ColoredTextures, GroupPlacement, LayerCondition, LayerConditionList, texture_path};
use aftiktuna::asset::placement::{
    ModelLayout, ObjectLayout, PlacedObject, Positioner, displacement_range, position_objects,
};
use aftiktuna::asset::profile::{StatsOrRandom, random_aftik_profile, random_profile};
use aftiktuna::asset::species::{CharacterSpeciesData, FaunaData, merge_species};
use aftiktuna::asset::TextureLoader;
use aftiktuna::base::behavior::BackgroundId;
use aftiktuna::base::combat::{AttackSet, UnarmedType};
use aftiktuna::base::display::{CreatureVariant, CreatureVariantSet, DialogueExpression, SpeciesColorId};
use aftiktuna::base::item::ItemTypeId;
use aftiktuna::base::name::{IndefiniteArticle, NounData, NounId};
use aftiktuna::base::position::Direction;
use aftiktuna::base::status::{MoraleState, Stats};
use aftiktuna::base::{DoorKind, SpeciesId};
use aftiktuna::game::view::ObjectProperties;

#[test]
fn json_file_names() {
    assert_eq!(json_file_stem("goblin.json"), Some("goblin".to_owned()));
    assert_eq!(json_file_stem("goblin.txt"), None);
    assert_eq!(json_file_stem("a.b.json"), None);
    assert_eq!(json_file_stem(".json"), Some("".to_owned()));
    assert_eq!(json_file_stem("json"), None);
}

#[test]
fn asset_paths() {
    let file: AssetFile<Vec<String>> = AssetFile::new("character_names.json");
    assert_eq!(file.file_path(), "assets/character_names.json");
    assert!(file.matches("assets/character_names.json"));
    assert!(file.matches("/home/user//assets/./character_names.json"));
    assert!(!file.matches("assets/old_character_names.json"));
    let dir: AssetDirectory<Vec<String>> = AssetDirectory::new("loot_table");
    assert_eq!(dir.dir_path(), "assets/loot_table");
    assert_eq!(dir.file_path("crate"), "assets/loot_table/crate.json");
    assert!(path_ends_with("a/b/c", "b/c"));
    assert!(!path_ends_with("a/bb/c", "b/c"));
    assert_eq!(texture_path("door"), "object/door");
    assert_eq!(background_texture_name("forest"), "background/forest");
}

struct NameLoader;

impl TextureLoader<String, String> for NameLoader {
    fn load_texture(&mut self, name: String) -> Result<String, String> {
        if name.contains("missing") { Err(name) } else { Ok(format!("loaded {name}")) }
    }
}

#[test]
fn portrait_backgrounds_load_through_the_loader() {
    let mut loader = NameLoader;
    match PortraitBGData::Texture("forest".to_owned()).load(&mut loader) {
        Ok(PortraitBGData::Texture(t)) => assert_eq!(t, "loaded background/forest"),
        _ => panic!("expected texture"),
    }
    match PortraitBGData::<String>::Color([1, 2, 3]).load(&mut loader) {
        Ok(PortraitBGData::Color(c)) => assert_eq!(c, [1, 2, 3]),
        _ => panic!("expected color"),
    }
    assert!(PortraitBGData::Texture("missing".to_owned()).load(&mut loader).is_err());
}

#[test]
fn species_colors() {
    let entry = SpeciesColorEntry { adjective: None, color_data: SpeciesColorData::default() };
    let map = SpeciesColorMap::new(vec![(
        SpeciesId("goblin".to_owned()),
        vec![(SpeciesColorId("green".to_owned()), entry)],
    )]);
    assert!(map.get(&SpeciesId("goblin".to_owned()), &SpeciesColorId("green".to_owned())).is_some());
    assert!(map.get(&SpeciesId("goblin".to_owned()), &SpeciesColorId("red".to_owned())).is_none());
    assert!(map.get(&SpeciesId("aftik".to_owned()), &SpeciesColorId("green".to_owned())).is_none());
    assert_eq!(map.available_ids(&SpeciesId("goblin".to_owned())), vec![SpeciesColorId("green".to_owned())]);
    assert!(map.available_ids(&SpeciesId("aftik".to_owned())).is_empty());
    let data = SpeciesColorData { primary_color: RGBColor::new(1, 2, 3), secondary_color: RGBColor::new(4, 5, 6) };
    assert_eq!(ColorSource::Primary.get_color(&data), RGBColor::new(1, 2, 3));
    assert_eq!(ColorSource::Uncolored.get_color(&data), RGBColor::new(255, 255, 255));
    assert_eq!(ColorSource::default(), ColorSource::Uncolored);
}

fn facts() -> DialogueFacts {
    DialogueFacts {
        speaker_is_badly_hurt: false,
        target_is_badly_hurt: false,
        has_enough_fuel: true,
        speaker_at_ship: false,
        at_fortuna: false,
        speaker_is_passenger: false,
        speaker_name_known: None,
        speaker_crew_loss_memory: Some(true),
        speaker_background: Some(BackgroundId("fighter".to_owned())),
        speaker_morale: None,
    }
}

#[test]
fn dialogue_conditions() {
    let f = facts();
    assert!(DialogueCondition::HasEnoughFuel(true).test(&f));
    assert!(!DialogueCondition::HasKnownName(false).test(&f));
    assert!(DialogueCondition::HasRecentCrewLossMemory(true).test(&f));
    assert!(DialogueCondition::HasBackground(BackgroundId("fighter".to_owned())).test(&f));
    assert!(DialogueCondition::MoraleIsAtLeast(MoraleState::Neutral).test(&f));
    assert!(!DialogueCondition::MoraleIsAtLeast(MoraleState::Good).test(&f));
    let list = DialogueList(vec![
        ConditionedDialogueNode {
            condition: DialogueConditionList(vec![DialogueCondition::AtShip(true)]),
            expression: DialogueExpression::Neutral,
            message: "first".to_owned(),
            reply: None,
        },
        ConditionedDialogueNode {
            condition: DialogueConditionList(vec![]),
            expression: DialogueExpression::Excited,
            message: "second".to_owned(),
            reply: None,
        },
    ]);
    assert_eq!(list.select_node(&f).unwrap().message, "second");
    assert!(DialogueConditionList(vec![]).is_empty());
}

#[test]
fn location_types() {
    assert_eq!(DoorType::variants().len(), 11);
    assert_eq!(DoorType::LeftPath.model_id().0, "path/left_corner");
    assert_eq!(DoorType::House.model_id().0, "door/door");
    assert_eq!(DoorType::CrossroadPath.kind(), DoorKind::Path);
    assert_eq!(DoorType::Shack.kind(), DoorKind::Door);
    assert_eq!(DoorType::UpwardStairs.noun_id().0, "upward_stairs");
    assert_eq!(DoorAdjective::Middle.word(), "middle");
    assert_eq!(ContainerType::CrashedShip.model_id().0, "container/crashed_ship");
    assert_eq!(ContainerType::Cabinet.noun_id().0, "cabinet");
    assert_eq!(Type::VoraciousFrog.species().0, "voracious_frog");
    assert!(Type::BloodMantis.is_aggressive_by_default());
    assert!(!Type::Goblin.is_aggressive_by_default());
    assert!(Type::Scarvie.is_tameable());
    assert!(!Type::Azureclops.is_tameable());
    assert_eq!(AttributeChoice::variants().len(), 5);
    assert_eq!(AttributeChoice::default(), AttributeChoice::Random);
}

#[test]
fn loot_tables() {
    assert!(LootTable::new(vec![]).is_none());
    assert!(LootTable::new(vec![LootEntry { item: ItemTypeId("knife".to_owned()), weight: 0 }]).is_none());
    let table = LootTable::new(vec![
        LootEntry { item: ItemTypeId("knife".to_owned()), weight: 0 },
        LootEntry { item: ItemTypeId("bat".to_owned()), weight: 3 },
    ])
    .unwrap();
    let mut rng = rand::rng();
    assert_eq!(table.pick_loot_item(&mut rng), &ItemTypeId("bat".to_owned()));
    assert!(LootTable::new(vec![
        LootEntry { item: ItemTypeId("a".to_owned()), weight: 40000 },
        LootEntry { item: ItemTypeId("b".to_owned()), weight: 40000 },
    ])
    .is_none());
}

#[test]
fn layer_conditions_and_textures() {
    let properties = ObjectProperties {
        is_cut: false,
        is_alive: true,
        is_badly_hurt: false,
        expression: DialogueExpression::Sad,
        creature_variant_set: CreatureVariantSet(vec![CreatureVariant::female()]),
    };
    assert!(LayerConditionList(vec![LayerCondition::Alive(true), LayerCondition::Variant(CreatureVariant::female())]).test(&properties));
    assert!(!LayerConditionList(vec![LayerCondition::Expression(DialogueExpression::Neutral)]).test(&properties));
    let textures = ColoredTextures::from_texture("fur".to_owned());
    assert_eq!(textures.primary_texture(), "fur");
    assert!(ColoredTextures::<String>::try_from_list(vec![]).is_err());
    let list = ColoredTextures::try_from_list(vec![(ColorSource::Primary, 1), (ColorSource::Secondary, 2)]).unwrap();
    assert_eq!(*list.primary_texture(), 1);
    assert_eq!(list.iter().len(), 2);
}

#[test]
fn group_placement_splits_greedily() {
    let placement = GroupPlacement::single();
    assert_eq!(placement.position(3), vec![vec![(0, 0)], vec![(0, 0)], vec![(0, 0)]]);
    assert!(placement.position(0).is_empty());
    let mut map = indexmap::IndexMap::new();
    map.insert(1u16, vec![(0i16, 0i16)]);
    map.insert(3u16, vec![(0, 0), (10, 0), (-10, 0)]);
    let placement = GroupPlacement::try_from_map(map).unwrap();
    let groups = placement.position(4);
    assert_eq!(groups, vec![vec![(0, 0), (10, 0), (-10, 0)], vec![(0, 0)]]);
    let mut bad = indexmap::IndexMap::new();
    bad.insert(2u16, vec![(0i16, 0i16)]);
    assert_eq!(GroupPlacement::try_from_map(bad).err(), Some("Must contain at least position group 1".to_owned()));
    let mut zero = indexmap::IndexMap::new();
    zero.insert(0u16, vec![]);
    zero.insert(1u16, vec![(0i16, 0i16)]);
    assert_eq!(GroupPlacement::try_from_map(zero).err(), Some("May not contain position group 0".to_owned()));
}

#[test]
fn positioner_displacement() {
    let mut positioner = Positioner::default();
    let range = displacement_range(3, false, Direction::Right);
    assert_eq!(range, vec![3]);
    assert_eq!(positioner.calculate_displacement(&range, true, 15), (0, 0));
    assert_eq!(positioner.calculate_displacement(&range, true, 15), (1, 15));
    let wide = displacement_range(3, true, Direction::Right);
    assert_eq!(wide, vec![3, 2]);
    assert_eq!(positioner.calculate_displacement(&wide, false, 5), (2, 30));
    assert_eq!(positioner.calculate_displacement(&vec![2], false, 5), (2, 35));
    assert_eq!(displacement_range(0, true, Direction::Right), vec![0]);
}

#[test]
fn species_merge() {
    let stats = Stats::new(5, 5, 5, 5);
    let fauna = vec![(
        SpeciesId("goblin".to_owned()),
        FaunaData {
            default_stats: stats,
            is_large: false,
            unarmed: UnarmedType::Punch,
            attack_set: AttackSet::Light,
            badly_hurt_behavior: None,
            agressive_by_default: false,
            tameable: false,
            variant_groups: vec![],
        },
    )];
    let character = |name: &str| {
        (
            SpeciesId(name.to_owned()),
            CharacterSpeciesData {
                default_stats: stats,
                is_large: false,
                unarmed: UnarmedType::Punch,
                attack_set: AttackSet::Quick,
                badly_hurt_behavior: None,
                variant_groups: vec![],
            },
        )
    };
    let merged = merge_species(fauna, vec![character("aftik")]).unwrap();
    assert_eq!(merged.len(), 2);
    assert_eq!(merged[1].0, SpeciesId("aftik".to_owned()));
    let fauna2 = vec![(
        SpeciesId("goblin".to_owned()),
        FaunaData {
            default_stats: stats,
            is_large: false,
            unarmed: UnarmedType::Punch,
            attack_set: AttackSet::Light,
            badly_hurt_behavior: None,
            agressive_by_default: false,
            tameable: false,
            variant_groups: vec![],
        },
    )];
    match merge_species(fauna2, vec![character("goblin")]) {
        Err(message) => assert_eq!(message, "\"goblin\" has been defined as both species and fauna."),
        Ok(_) => panic!("expected error"),
    }
}

#[test]
fn random_profiles() {
    let mut rng = rand::rng();
    let mut names = vec!["Bob".to_owned()];
    let mut aftik_colors = vec![
        (SpeciesColorId("red".to_owned()), vec!["Rose".to_owned()]),
        (SpeciesColorId("blue".to_owned()), vec![]),
    ];
    let used = vec![];
    let (name, color) = random_aftik_profile(&mut aftik_colors, &mut rng, &used).unwrap();
    assert_eq!(name, "Rose");
    assert_eq!(color, SpeciesColorId("red".to_owned()));
    assert!(random_aftik_profile(&mut aftik_colors, &mut rng, &used).is_none());
    let map = SpeciesColorMap::new(vec![(
        SpeciesId("goblin".to_owned()),
        vec![
            (SpeciesColorId("green".to_owned()), SpeciesColorEntry::default()),
            (SpeciesColorId("grey".to_owned()), SpeciesColorEntry::default()),
        ],
    )]);
    let used = vec![SpeciesColorId("green".to_owned())];
    let profile = random_profile(SpeciesId("goblin".to_owned()), &used, &mut names, &mut aftik_colors, &map, &mut rng).unwrap();
    assert_eq!(profile.name, "Bob");
    assert_eq!(profile.color, SpeciesColorId("grey".to_owned()));
    assert!(names.is_empty());
    assert!(matches!(profile.stats, StatsOrRandom::Random));
    assert_eq!(StatsOrRandom::Stats(Stats::new(1, 2, 3, 4)).unwrap_or_else(|| Stats::new(0, 0, 0, 0)), Stats::new(1, 2, 3, 4));
}

#[test]
fn noun_lookup() {
    let map = NounDataMap::new(vec![(NounId("knife".to_owned()), NounData::new("knife", "knives", IndefiniteArticle::A))]);
    assert_eq!(map.lookup(&NounId("knife".to_owned())).plural(), "knives");
    assert_eq!(map.lookup(&NounId("spoon".to_owned())).singular(), "???");
}

#[test]
fn objects_are_placed_in_groups_and_drawing_order() {
    let small = ModelLayout {
        order_weight: 0,
        z_offset: 0,
        has_x_displacement: true,
        z_displacement: 5,
        large_displacement: false,
        group_placement: GroupPlacement::single(),
    };
    let large = ModelLayout {
        order_weight: 10,
        z_offset: 3,
        has_x_displacement: false,
        z_displacement: 0,
        large_displacement: true,
        group_placement: GroupPlacement::single(),
    };
    let objects = vec![
        ObjectLayout { coord: 1, direction: Direction::Right, is_controlled: false, model: 0 },
        ObjectLayout { coord: 1, direction: Direction::Right, is_controlled: false, model: 0 },
        ObjectLayout { coord: 2, direction: Direction::Right, is_controlled: false, model: 1 },
    ];
    let placed = position_objects(&objects, &vec![small, large]);
    assert_eq!(
        placed,
        vec![
            PlacedObject { object: 0, x: 160, y: 190, z: -190 },
            PlacedObject { object: 2, x: 280, y: 187, z: -187 },
            PlacedObject { object: 1, x: 145, y: 185, z: -185 },
        ]
    );
    assert_eq!(position_objects(&vec![], &vec![]), vec![]);
}
