use aftiktuna::base::EntityId;
use aftiktuna::game_loop::{
    WaitingReaction, change_character_message, crew_loss_memories, death_messages, waiting_reaction,
};

fn e(n: u64) -> EntityId {
    EntityId(n)
}

#[test]
fn each_dead_crew_member_gets_a_message() {
    let names = vec!["Mint".to_owned(), "the aftik".to_owned()];
    assert_eq!(death_messages(&names), vec!["Mint is dead.".to_owned(), "the aftik is dead.".to_owned()]);
    assert!(death_messages(&vec![]).is_empty());
}

#[test]
fn crew_remember_the_last_named_loss_before_their_own() {
    // Crew 1, 2, 3 and 4; 2 (Mint, named), 3 (no name) and 4 (Cerulean, named) die, in that order.
    let crew = vec![e(1), e(2), e(3), e(4)];
    let dead = vec![(e(2), Some("Mint".to_owned())), (e(3), None), (e(4), Some("Cerulean".to_owned()))];
    assert_eq!(
        crew_loss_memories(&crew, &dead),
        vec![(e(1), "Cerulean".to_owned()), (e(3), "Mint".to_owned()), (e(4), "Mint".to_owned())]
    );
    assert!(crew_loss_memories(&crew, &vec![(e(3), None)]).is_empty());
}

#[test]
fn taking_over_another_character() {
    assert_eq!(change_character_message("Mint"), "You're now playing as the aftik Mint.");
}

#[test]
fn waiting_creatures_react_to_the_player() {
    assert_eq!(waiting_reaction(true, true, Some(false)), Some(WaitingReaction::Threatening));
    assert_eq!(waiting_reaction(true, true, Some(true)), Some(WaitingReaction::Attacking));
    assert_eq!(waiting_reaction(true, true, None), None);
    assert_eq!(waiting_reaction(false, true, Some(true)), None);
    assert_eq!(waiting_reaction(true, false, Some(true)), None);
}

#[test]
fn a_hunt_task_starts_unpresented() {
    let task = aftiktuna::asset::location::creature::GivesHuntReward {
        target_tag: aftiktuna::base::Tag("goblin_boss".to_owned()),
        target_label: "the boss".to_owned(),
        task_dialogue: "task".to_owned(),
        already_completed_dialogue: "done".to_owned(),
        reward_dialogue: "reward".to_owned(),
        reward: aftiktuna::base::behavior::Reward {
            points: 30,
            items: vec![aftiktuna::base::item::ItemTypeId("medkit".to_owned())],
        },
    };
    let data = task.cloned_data();
    assert!(!data.presented);
    assert_eq!(data.target_tag, task.target_tag);
    assert_eq!(data.target_label, "the boss");
    assert_eq!(data.reward.points, 30);
    assert_eq!(data.reward.items, vec![aftiktuna::base::item::ItemTypeId("medkit".to_owned())]);
    assert!(data.is_fulfilled(false));
    assert!(!data.is_fulfilled(true));
}
