use aftiktuna::base::EntityId;
use aftiktuna::command::game::combat::AttackCommand;
use aftiktuna::command::game::dialogue::{DialogueCommand, DialogueCommandTargets};
use aftiktuna::command::game::item::ItemCommandTargets;
use aftiktuna::command::game::{CommandTargets, GameCommand, PlayerCommand, parse_player_command};

fn e(n: u64) -> EntityId {
    EntityId(n)
}

fn parse(input: &str) -> Result<PlayerCommand, String> {
    let items = ItemCommandTargets {
        items_nearby: vec![],
        containers: vec![],
        crew_characters: vec![],
        inventory_items: vec![],
        items_in_hand: vec![],
        wieldables_nearby: vec![],
        controlled_name: "Mint".to_owned(),
    };
    let game = CommandTargets {
        doors: vec![("door".to_owned(), e(10))],
        checkable_items: vec![],
        crew_characters: vec![],
        fortuna_chests: vec![],
        hostiles: vec![],
        crew_in_room: vec![],
    };
    let hostiles = vec![("goblin".to_owned(), vec![e(5)])];
    let talk = DialogueCommandTargets {
        talk_targets: vec![("cat".to_owned(), e(6))],
        recruit_targets: vec![],
        crew_characters: vec![],
    };
    parse_player_command(input, &items, &game, &hostiles, &talk)
}

#[test]
fn the_grammars_are_tried_in_turn() {
    assert!(matches!(parse("enter door"), Ok(PlayerCommand::Game(GameCommand::Enter(d))) if d == e(10)));
    assert!(matches!(parse("attack goblin"), Ok(PlayerCommand::Attack(AttackCommand::Attack(v))) if v == vec![e(5)]));
    assert!(matches!(parse("talk to cat"), Ok(PlayerCommand::Dialogue(DialogueCommand::TalkTo(t))) if t == e(6)));
    assert_eq!(parse("dance").err(), Some("Unexpected input: \"dance\"".to_owned()));
}
