use aftiktuna::base::EntityId;
use aftiktuna::base::name::{IndefiniteArticle, NounData};
use aftiktuna::base::position::Pos;
use aftiktuna::command::Target;
use aftiktuna::game_interface::StopType;
use aftiktuna::game_loop::{
    CrewPlace, action_recipients, build_eating_message, check_player_state, leave_messages,
    regained_balance_message, share_food_rations,
};

fn e(n: u64) -> EntityId {
    EntityId(n)
}

fn ration() -> NounData {
    NounData::new("food ration", "food rations", IndefiniteArticle::A)
}

#[test]
fn rations_go_to_the_most_hurt_first() {
    // Three hurt crew members, the second a big eater, and three rations.
    let candidates = vec![(e(1), false), (e(2), true), (e(3), false)];
    assert_eq!(share_food_rations(&candidates, 3), vec![(e(1), 1), (e(2), 2)]);
    // Too few rations: the big eater eats what is left.
    assert_eq!(share_food_rations(&candidates, 2), vec![(e(1), 1), (e(2), 1)]);
    // Rations enough for all.
    assert_eq!(share_food_rations(&candidates, 10), vec![(e(1), 1), (e(2), 2), (e(3), 1)]);
    assert_eq!(share_food_rations(&candidates, 0), vec![]);
}

#[test]
fn rations_eaten_and_left_add_up() {
    let candidates = vec![(e(1), true), (e(2), true), (e(3), false)];
    for available in 0usize..8 {
        let eaten = share_food_rations(&candidates, available);
        let sum: usize = eaten.iter().map(|(_, n)| *n as usize).sum();
        assert_eq!(sum, available.min(5));
    }
}

#[test]
fn eating_message_for_one_and_for_many() {
    assert_eq!(
        build_eating_message(&vec![("Mint".to_string(), 1)], &ration()),
        "Mint ate one food ration to recover some health."
    );
    assert_eq!(
        build_eating_message(&vec![("Mint".to_string(), 2)], &ration()),
        "Mint ate two food rations to recover some health."
    );
    assert_eq!(
        build_eating_message(&vec![("Mint".to_string(), 2), ("Cerulean".to_string(), 1)], &ration()),
        "Mint and Cerulean ate 3 food rations to recover some health."
    );
    assert_eq!(
        build_eating_message(
            &vec![("Mint".to_string(), 1), ("Cerulean".to_string(), 1), ("Plum".to_string(), 2)],
            &ration()
        ),
        "Mint, Cerulean and Plum ate 4 food rations to recover some health."
    );
}

#[test]
fn player_state_after_a_tick() {
    assert_eq!(check_player_state(true, None, false), Ok(None));
    assert_eq!(check_player_state(false, Some(e(4)), false), Ok(Some(e(4))));
    assert_eq!(check_player_state(false, None, false), Err(StopType::Lose));
    assert_eq!(check_player_state(false, None, true), Err(StopType::Lose));
    assert_eq!(check_player_state(true, None, true), Err(StopType::Win));
    assert_eq!(check_player_state(false, Some(e(4)), true), Err(StopType::Win));
}

#[test]
fn crew_orders_reach_those_in_the_area_that_do_not_wait() {
    let here = e(100);
    let there = e(200);
    let crew = vec![
        CrewPlace { entity: e(1), pos: Pos::new(here, 0, 5), is_waiting: true },
        CrewPlace { entity: e(2), pos: Pos::new(here, 2, 5), is_waiting: false },
        CrewPlace { entity: e(3), pos: Pos::new(here, 3, 5), is_waiting: true },
        CrewPlace { entity: e(4), pos: Pos::new(there, 1, 5), is_waiting: false },
    ];
    assert_eq!(action_recipients(Target::Crew, e(1), here, &crew), vec![e(1), e(2)]);
    assert_eq!(action_recipients(Target::Controlled, e(1), here, &crew), vec![e(1)]);
}

#[test]
fn balance_and_leaving_messages() {
    assert_eq!(
        regained_balance_message(&vec!["the goblin".to_string(), "the eyesaur".to_string()]),
        "the goblin and the eyesaur regained their balance."
    );
    assert_eq!(
        leave_messages(&vec!["Mint".to_string()]),
        vec!["The ship leaves for the next planet.".to_string(), "Mint was left behind.".to_string()]
    );
    assert_eq!(leave_messages(&vec![]), vec!["The ship leaves for the next planet.".to_string()]);
}
