use aftiktuna::area::{Category, Choice, Locations, LocationTracker, PickResult};
use aftiktuna::base::combat::AttackSet;
use aftiktuna::base::name::{ArticleKind, CountFormat, IndefiniteArticle, NameData, NounData, Adjective};
use aftiktuna::base::position::{Direction, Pos, checked_add_signed};
use aftiktuna::base::status::{StatChanges, Stats, Trait, Traits};
use aftiktuna::base::store::StockQuantity;
use aftiktuna::base::{EntityId, SpeciesId};
use aftiktuna::game_interface::{FrameCache, FrameGetter, Phase, StopType, next_result, ready_to_take_input};
use aftiktuna::text::{decimal_i32, join_elements};

#[test]
fn stat_changes_stay_in_bounds_and_undo() {
    let mut stats = Stats::new(5, 5, 5, 0);
    let change = StatChanges { strength: 2, endurance: 0, agility: -1, luck: 3 };
    assert!(stats.try_change_in_bounds(change).is_ok());
    assert_eq!(stats, Stats::new(7, 5, 4, 3));
    let undo = StatChanges { strength: -2, endurance: 0, agility: 1, luck: -3 };
    assert!(stats.try_change_in_bounds(undo).is_ok());
    assert_eq!(stats, Stats::new(5, 5, 5, 0));
    let too_much = StatChanges { strength: 6, ..StatChanges::default() };
    assert!(stats.try_change_in_bounds(too_much).is_err());
    assert_eq!(stats, Stats::new(5, 5, 5, 0));
}

#[test]
fn traits_sorted_without_duplicates() {
    let traits = Traits(vec![Trait::BigEater, Trait::GoodDodger, Trait::BigEater]);
    assert_eq!(traits.sorted_iter(), vec![Trait::GoodDodger, Trait::BigEater]);
    assert!(traits.has_traits());
    assert_eq!(Trait::FastHealer.name(), "[Fast Healer]");
}

#[test]
fn noun_counts() {
    let knife = NounData::new("knife", "knives", IndefiniteArticle::A);
    assert_eq!(knife.with_text_count(1, ArticleKind::A), "a knife");
    assert_eq!(knife.with_text_count(3, ArticleKind::The), "the three knives");
    assert_eq!(knife.with_count(None, 12, ArticleKind::One, CountFormat::Text), "12 knives");
    let rusty = Adjective("rusty".to_owned());
    assert_eq!(knife.with_count(Some(&rusty), 1, ArticleKind::The, CountFormat::Numeric), "the rusty knife");
    let name = NameData::Noun(Some(rusty), knife);
    assert_eq!(name.definite(), "the rusty knife");
    assert_eq!(name.plural(), "rusty knives");
    assert_eq!(CountFormat::Numeric.apply(2), "2");
}

#[test]
fn positions_and_directions() {
    let a = Pos::new(EntityId(1), 2, 10);
    let b = Pos::new(EntityId(1), 7, 10);
    assert_eq!(a.distance_to(b), 5);
    assert_eq!(b.distance_to(a), 5);
    assert_eq!(a.get_adjacent_towards(b).get_coord(), 3);
    assert_eq!(Direction::between(a, b), Direction::Right);
    assert_eq!(Direction::Left.opposite().opposite(), Direction::Left);
    assert!(Pos::try_new(EntityId(1), 10, Some(10)).is_err());
    assert_eq!(checked_add_signed(3, -4), None);
    assert_eq!(checked_add_signed(3, -3), Some(0));
    assert_eq!(a.try_offset_direction(Direction::Left, Some(10)).unwrap().get_coord(), 1);
}

#[test]
fn store_quantities() {
    assert_eq!(StockQuantity::Count(3).subtracted(2), Some(StockQuantity::Count(1)));
    assert_eq!(StockQuantity::Count(1).subtracted(2), None);
    assert_eq!(StockQuantity::Unlimited.subtracted(100), Some(StockQuantity::Unlimited));
    assert!(StockQuantity::Count(0).is_zero());
    assert_eq!(AttackSet::Intense.available_kinds().len(), 2);
    assert!(SpeciesId("aftik".to_owned()).is_aftik());
}

#[test]
fn locations_count_down_to_fortuna() {
    let locations = Locations {
        categories: vec![
            Category { name: "Forest".to_owned(), location_names: vec!["forest/a".to_owned()] },
            Category { name: "Village".to_owned(), location_names: vec!["village/a".to_owned()] },
        ],
        fortuna_locations: vec!["fortuna/a".to_owned()],
    };
    let mut tracker = LocationTracker::new(locations, 1);
    let mut rng = rand::rng();
    let choice = match tracker.next(&mut rng) {
        PickResult::Choice(choice) => choice,
        _ => panic!("expected a choice"),
    };
    assert_eq!(choice.0.len(), 2);
    assert!(tracker.try_make_choice(&choice, "moon", &mut rng).is_err());
    let name = choice.0[0].1.clone();
    let picked = tracker.try_make_choice(&choice, &name.to_uppercase(), &mut rng).unwrap();
    assert!(picked == "forest/a" || picked == "village/a");
    assert!(!tracker.is_at_fortuna());
    match tracker.next(&mut rng) {
        PickResult::Location(location) => assert_eq!(location, "fortuna/a"),
        _ => panic!("expected the fortuna location"),
    }
    assert!(tracker.is_at_fortuna());
    assert!(matches!(tracker.next(&mut rng), PickResult::Nothing));
}

#[test]
fn choice_presentation() {
    let choice = Choice(vec![(0, "Forest".to_owned()), (1, "Village".to_owned())]);
    let messages = choice.present();
    assert_eq!(messages.0[0], "On the next planet, there are two destination targets: Forest, Village");
    assert_eq!(messages.0[1], "Pick the location to travel to next.");
    assert_eq!(choice.try_choose("village"), Some(1));
}

#[test]
fn frames_come_out_in_order() {
    let mut cache = FrameCache::new(vec![1, 2]);
    cache.add_new_frames(vec![3]);
    assert!(cache.has_more_frames());
    assert_eq!(FrameGetter::get(&mut cache), 1);
    assert_eq!(cache.take_next_frame(), Some(2));
    cache.set_error_frame(99);
    assert_eq!(cache.take_next_frame(), Some(3));
    assert_eq!(cache.take_next_frame(), Some(99));
    assert_eq!(cache.take_next_frame(), None);
    assert!(!cache.has_more_frames());
}

#[test]
fn game_phase_results() {
    let cache: FrameCache<u8> = FrameCache::new(vec![]);
    assert!(ready_to_take_input(&cache, &Phase::CommandInput));
    assert!(!ready_to_take_input(&cache, &Phase::Stopped(StopType::Win)));
    assert!(next_result(&cache, false, &Phase::LoadLocation("x".to_owned())).is_none());
    assert!(next_result(&cache, true, &Phase::CommandInput).unwrap().has_frame() == false);
    let busy = FrameCache::new(vec![5u8]);
    assert!(next_result(&busy, true, &Phase::CommandInput).unwrap().has_frame());
    let result = Phase::CommandInput.with_error("broken".to_owned());
    assert_eq!(result.load_error, Some("broken".to_owned()));
}

#[test]
fn prose_lists_and_numbers() {
    assert_eq!(join_elements(&vec![]), "");
    assert_eq!(join_elements(&vec!["a".to_owned()]), "a");
    assert_eq!(join_elements(&vec!["a".to_owned(), "b".to_owned()]), "a and b");
    assert_eq!(join_elements(&vec!["a".to_owned(), "b".to_owned(), "c".to_owned()]), "a, b and c");
    assert_eq!(decimal_i32(-305), "-305");
    assert_eq!(decimal_i32(0), "0");
}
