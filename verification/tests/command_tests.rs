use aftiktuna::area::Choice;
use aftiktuna::base::EntityId;
use aftiktuna::base::item::Price;
use aftiktuna::base::name::{IndefiniteArticle, NameData, NounData};
use aftiktuna::base::store::StockQuantity;
use aftiktuna::command::game::combat::{AttackCommand, parse_attack_command};
use aftiktuna::command::game::dialogue::{DialogueCommand, DialogueCommandTargets, parse_dialogue_command};
use aftiktuna::command::game::item::{ItemCommand, ItemCommandTargets, WieldItemTarget, parse_item_command};
use aftiktuna::command::game::{CommandTargets, GameCommand, parse_game_command};
use aftiktuna::command::parse::Parse;
use aftiktuna::command::suggestion::{
    EntityTraits, InteractionType, Suggestion, for_location_choice, for_store, interactions_for,
    sorted_without_duplicates,
};
use aftiktuna::command::{CommandInfo, Target, entity_names};
use aftiktuna::base::status::CreatureAttribute;
use aftiktuna::base::name::Adjective;
use aftiktuna::game::view::{ItemProfile, StoreStockView};

fn e(n: u64) -> EntityId {
    EntityId(n)
}

fn named(names: &[(&str, u64)]) -> Vec<(String, EntityId)> {
    names.iter().map(|(name, id)| (name.to_string(), e(*id))).collect()
}

fn targets() -> CommandTargets {
    CommandTargets {
        doors: named(&[("door", 1), ("left door", 2)]),
        checkable_items: named(&[("knife", 3)]),
        crew_characters: named(&[("mint", 4)]),
        fortuna_chests: named(&[("fortuna chest", 5)]),
        hostiles: named(&[("goblin", 6)]),
        crew_in_room: named(&[("cat", 7)]),
    }
}

fn texts(suggestions: &[Suggestion]) -> Vec<String> {
    suggestions.iter().map(|s| s.text().to_owned()).collect()
}

#[test]
fn game_command_enter_door() {
    match parse_game_command("enter door", &targets()) {
        Some(Ok(GameCommand::Enter(door))) => assert_eq!(door, e(1)),
        _ => panic!("expected enter"),
    }
    match parse_game_command("ENTER Left Door", &targets()) {
        Some(Ok(GameCommand::Enter(door))) => assert_eq!(door, e(2)),
        _ => panic!("expected enter"),
    }
}

#[test]
fn game_command_unknown_door() {
    match parse_game_command("enter window", &targets()) {
        Some(Err(message)) => assert_eq!(message, "There is no such door or path here to go through."),
        _ => panic!("expected error"),
    }
}

#[test]
fn game_command_trailing_argument() {
    match parse_game_command("wait now", &targets()) {
        Some(Err(message)) => assert_eq!(message, "Unexpected argument after \"wait\""),
        _ => panic!("expected error"),
    }
}

#[test]
fn game_command_go_to_unknown() {
    match parse_game_command("go to moon", &targets()) {
        Some(Err(message)) => assert_eq!(message, "Unexpected input after \"go to\": \"moon\""),
        _ => panic!("expected error"),
    }
    assert!(matches!(parse_game_command("go to ship", &targets()), Some(Ok(GameCommand::GoToShip))));
}

#[test]
fn game_command_simple_words() {
    assert!(matches!(parse_game_command("rest", &targets()), Some(Ok(GameCommand::Rest))));
    assert!(matches!(parse_game_command("status", &targets()), Some(Ok(GameCommand::Status))));
    assert!(matches!(parse_game_command("refuel ship", &targets()), Some(Ok(GameCommand::RefuelShip))));
    assert!(matches!(parse_game_command("launch ship", &targets()), Some(Ok(GameCommand::LaunchShip))));
    assert!(parse_game_command("dance", &targets()).is_none());
    assert!(parse_game_command("waiting", &targets()).is_none());
}

#[test]
fn game_command_name_takes_the_rest() {
    match parse_game_command("name cat Mr Whiskers", &targets()) {
        Some(Ok(GameCommand::Name(target, name))) => {
            assert_eq!(target, e(7));
            assert_eq!(name, "Mr Whiskers");
        }
        _ => panic!("expected name"),
    }
}

#[test]
fn game_command_target_failures() {
    match parse_game_command("check spoon", &targets()) {
        Some(Err(message)) => assert_eq!(message, "There is no item by the name \"spoon\" here."),
        _ => panic!("expected error"),
    }
    match parse_game_command("control bob", &targets()) {
        Some(Err(message)) => assert_eq!(message, "There is no crew member by the name \"bob\"."),
        _ => panic!("expected error"),
    }
    match parse_game_command("tame dragon", &targets()) {
        Some(Err(message)) => assert_eq!(message, "\"dragon\" is not a valid target."),
        _ => panic!("expected error"),
    }
    assert!(matches!(parse_game_command("open fortuna chest", &targets()), Some(Ok(GameCommand::Open(_)))));
}

#[test]
fn item_commands() {
    let t = ItemCommandTargets {
        items_nearby: named(&[("knife", 1)]),
        containers: named(&[("crate", 2)]),
        crew_characters: named(&[("mint", 3)]),
        inventory_items: named(&[("medkit", 4)]),
        items_in_hand: named(&[("sword", 5)]),
        wieldables_nearby: named(&[("bat", 6)]),
        controlled_name: "Cerulean".to_owned(),
    };
    assert!(matches!(parse_item_command("take all", &t), Some(Ok(ItemCommand::TakeAll))));
    assert!(matches!(parse_item_command("take knife", &t), Some(Ok(ItemCommand::Take(x))) if x == e(1)));
    match parse_item_command("take spoon", &t) {
        Some(Err(message)) => assert_eq!(message, "There is no spoon here to pick up."),
        _ => panic!("expected error"),
    }
    assert!(matches!(
        parse_item_command("give mint sword", &t),
        Some(Ok(ItemCommand::Give { receiver, item })) if receiver == e(3) && item == e(5)
    ));
    match parse_item_command("give mint spoon", &t) {
        Some(Err(message)) => assert_eq!(message, "Cerulean has no spoon to give."),
        _ => panic!("expected error"),
    }
    assert!(matches!(
        parse_item_command("wield bat", &t),
        Some(Ok(ItemCommand::Wield(WieldItemTarget::OnGround(x)))) if x == e(6)
    ));
    assert!(matches!(
        parse_item_command("wield sword", &t),
        Some(Ok(ItemCommand::Wield(WieldItemTarget::InHand(x)))) if x == e(5)
    ));
    match parse_item_command("use spoon", &t) {
        Some(Err(message)) => assert_eq!(message, "No held item by the name \"spoon\"."),
        _ => panic!("expected error"),
    }
    match parse_item_command("search barrel", &t) {
        Some(Err(message)) => assert_eq!(message, "\"barrel\" is not a valid searchable container."),
        _ => panic!("expected error"),
    }
    assert!(parse_item_command("enter door", &t).is_none());
}

#[test]
fn attack_commands() {
    let hostiles = vec![("goblin".to_owned(), vec![e(1), e(2)])];
    assert!(matches!(parse_attack_command("attack", &hostiles), Some(Ok(AttackCommand::AttackAny))));
    match parse_attack_command("attack goblin", &hostiles) {
        Some(Ok(AttackCommand::Attack(targets))) => assert_eq!(targets, vec![e(1), e(2)]),
        _ => panic!("expected attack"),
    }
    match parse_attack_command("attack troll", &hostiles) {
        Some(Err(message)) => assert_eq!(message, "There is no such target here."),
        _ => panic!("expected error"),
    }
    assert!(parse_attack_command("attacker", &hostiles).is_none());
}

#[test]
fn dialogue_commands() {
    let t = DialogueCommandTargets {
        talk_targets: named(&[("mint", 1)]),
        recruit_targets: named(&[("goblin", 2)]),
        crew_characters: named(&[("mint", 1)]),
    };
    assert!(matches!(parse_dialogue_command("talk to mint", &t), Some(Ok(DialogueCommand::TalkTo(x))) if x == e(1)));
    assert!(matches!(
        parse_dialogue_command("tell mint to wait at ship", &t),
        Some(Ok(DialogueCommand::TellToWaitAtShip(x))) if x == e(1)
    ));
    assert!(matches!(parse_dialogue_command("tell mint to wait", &t), Some(Ok(DialogueCommand::TellToWait(_)))));
    assert!(matches!(parse_dialogue_command("tell mint to follow", &t), Some(Ok(DialogueCommand::TellToFollow(_)))));
    match parse_dialogue_command("tell mint to dance", &t) {
        Some(Err(message)) => assert_eq!(message, "Unexpected input after \"tell mint to\": \"dance\""),
        _ => panic!("expected error"),
    }
    match parse_dialogue_command("recruit troll", &t) {
        Some(Err(message)) => assert_eq!(message, "\"troll\" is not a valid recruitment target."),
        _ => panic!("expected error"),
    }
    match parse_dialogue_command("talk mint", &t) {
        Some(Err(message)) => assert_eq!(message, "Unexpected input after \"talk\": \"mint\""),
        _ => panic!("expected error"),
    }
}

#[test]
fn parse_literal_and_done() {
    let parse = Parse::new("Take  knife");
    let result = parse.literal("take", |rest| rest.done_or_err(|| Ok::<u8, String>(1)));
    assert_eq!(result, Some(Err("Unexpected argument after \"Take\"".to_owned())));
    let parse = Parse::new("rest");
    assert_eq!(parse.literal("rest", |rest| rest.done_or_err(|| Ok::<u8, String>(1))), Some(Ok(1)));
}

#[test]
fn sorted_without_duplicates_sorts_and_dedups() {
    let input = vec![
        Suggestion::Simple("wait".to_owned()),
        Suggestion::Simple("attack".to_owned()),
        Suggestion::Simple("wait".to_owned()),
        Suggestion::Recursive("use _".to_owned(), vec![]),
        Suggestion::Recursive("check _".to_owned(), vec![Suggestion::Simple("check knife".to_owned())]),
    ];
    let result = sorted_without_duplicates(input);
    assert_eq!(texts(&result), vec!["attack", "check knife", "wait"]);
}

#[test]
fn commands_for_items_and_crew() {
    let inventory = vec![
        ItemProfile { name: "knife".to_owned(), is_wieldable: true, is_wielded: false, is_usable: false },
        ItemProfile { name: "medkit".to_owned(), is_wieldable: false, is_wielded: false, is_usable: true },
    ];
    let item = InteractionType::Item.commands("Knife", &inventory);
    assert_eq!(texts(&item), vec!["take knife", "check knife"]);
    let crew = InteractionType::CrewMember.commands("Mint", &inventory);
    assert_eq!(texts(&crew), vec!["control mint", "status", "rest", "tell mint to wait at ship", "give mint _"]);
    match &crew[4] {
        Suggestion::Recursive(_, children) => assert_eq!(texts(children), vec!["give mint knife", "give mint medkit"]),
        _ => panic!("expected group"),
    }
    let controlled = InteractionType::Controlled.commands("Cerulean", &inventory);
    assert_eq!(texts(&controlled), vec!["status", "rest", "wait", "go to ship", "wield _", "use _", "check _"]);
    match &controlled[4] {
        Suggestion::Recursive(_, children) => assert_eq!(texts(children), vec!["wield knife"]),
        _ => panic!("expected group"),
    }
}

#[test]
fn interactions_of_a_blocked_door() {
    let traits = EntityTraits {
        is_item: false,
        can_wield: false,
        is_container: false,
        door: Some(true),
        is_fortuna_chest: false,
        is_controlled: false,
        is_crew_character: false,
        is_waiting: false,
        is_ship_controls: false,
        is_shopkeeper: false,
        is_recruitable_character: false,
        is_named_character: false,
        is_alive: false,
        is_hostile: false,
        is_recruitable: false,
    };
    assert_eq!(interactions_for(&traits), vec![InteractionType::Door, InteractionType::Forceable]);
}

#[test]
fn interactions_of_a_tameable_foe() {
    let traits = EntityTraits {
        is_item: false,
        can_wield: false,
        is_container: false,
        door: None,
        is_fortuna_chest: false,
        is_controlled: false,
        is_crew_character: false,
        is_waiting: false,
        is_ship_controls: false,
        is_shopkeeper: false,
        is_recruitable_character: false,
        is_named_character: false,
        is_alive: true,
        is_hostile: true,
        is_recruitable: true,
    };
    assert_eq!(interactions_for(&traits), vec![InteractionType::Foe, InteractionType::Tameable]);
}

#[test]
fn store_suggestions() {
    let knife = NameData::Noun(None, NounData::new("knife", "knives", IndefiniteArticle::A));
    let items = vec![knife.clone(), knife, NameData::Name("Bob".to_owned())];
    let stock = StoreStockView {
        item_noun: NounData::new("medkit", "medkits", IndefiniteArticle::A),
        price: Price(200),
        quantity: StockQuantity::Count(2),
    };
    let suggestions = for_store(Some(&stock), &items);
    assert_eq!(texts(&suggestions), vec!["status", "exit", "sell _", "sell all _", "buy medkit"]);
    match &suggestions[3] {
        Suggestion::Recursive(_, children) => assert_eq!(texts(children), vec!["sell all knives"]),
        _ => panic!("expected group"),
    }
    let sold_out = StoreStockView { quantity: StockQuantity::Count(0), ..stock };
    assert_eq!(for_store(Some(&sold_out), &items).len(), 4);
}

#[test]
fn location_choice_suggestions() {
    let choice = Choice(vec![(0, "Forest".to_owned()), (1, "Village".to_owned())]);
    assert_eq!(texts(&for_location_choice(&choice)), vec!["Forest", "Village"]);
}

#[test]
fn entity_names_with_adjective_and_attribute() {
    let name = NameData::Noun(Some(Adjective("rusty".to_owned())), NounData::new("robot", "robots", IndefiniteArticle::A));
    assert_eq!(
        entity_names(&name, Some(CreatureAttribute::Bulky)),
        vec!["robot", "bulky robot", "rusty robot", "rusty bulky robot"]
    );
    assert_eq!(entity_names(&NameData::Name("Mint".to_owned()), None), vec!["Mint"]);
}

#[test]
fn command_info_text() {
    let info = CommandInfo::Message(vec!["a".to_owned(), "b".to_owned()]);
    assert_eq!(info.into_text(), vec!["a", "b"]);
    assert_eq!(Target::Crew, Target::Crew);
}
