use aftiktuna::base::EntityId;
use aftiktuna::base::name::{IndefiniteArticle, NounData};
use aftiktuna::base::store::StockQuantity;
use aftiktuna::command::store::{HeldItem, StoreCommand, StoreCommandTargets, StoreItem, parse_store_command};

fn e(n: u64) -> EntityId {
    EntityId(n)
}

fn held(n: u64, base: &str, plural: &str, in_hand: bool) -> HeldItem {
    HeldItem { entity: e(n), base: base.to_string(), plural: plural.to_string(), in_hand }
}

fn targets() -> StoreCommandTargets {
    StoreCommandTargets {
        stock: vec![
            StoreItem {
                noun: NounData::new("fuel can", "fuel cans", IndefiniteArticle::A),
                quantity: StockQuantity::Unlimited,
            },
            StoreItem {
                noun: NounData::new("medkit", "medkits", IndefiniteArticle::A),
                quantity: StockQuantity::Count(1),
            },
        ],
        held: vec![
            held(1, "food ration", "food rations", false),
            held(2, "food ration", "food rations", true),
            held(3, "food ration", "food rations", false),
            held(4, "knife", "knives", true),
        ],
        holder: "Mint".to_string(),
    }
}

fn read(input: &str) -> Result<StoreCommand, String> {
    parse_store_command(input, &targets())
}

fn err(message: &str) -> Result<StoreCommand, String> {
    Err(message.to_string())
}

#[test]
fn buying() {
    assert_eq!(read("buy fuel can"), Ok(StoreCommand::Buy(0, 1)));
    assert_eq!(read("Buy Fuel Can"), Ok(StoreCommand::Buy(0, 1)));
    assert_eq!(read("buy 2 fuel cans"), Ok(StoreCommand::Buy(0, 2)));
    assert_eq!(read("buy medkit"), Ok(StoreCommand::Buy(1, 1)));
    assert_eq!(read("buy 2 medkits"), err("There are not enough medkits in stock."));
    assert_eq!(read("buy 2 fuel can"), err("\"fuel can\" does not match an item in the store."));
    assert_eq!(read("buy sword"), err("\"sword\" does not match an item in the store."));
    assert_eq!(read("buy fuel can now"), err("Unexpected argument after \"buy fuel can\""));
    // A number that ends the input is read again as a name.
    assert_eq!(read("buy 3"), err("\"3\" does not match an item in the store."));
}

#[test]
fn selling() {
    assert_eq!(read("sell all food rations"), Ok(StoreCommand::Sell(vec![e(1), e(2), e(3)])));
    // Items not in hand go first.
    assert_eq!(read("sell 2 food rations"), Ok(StoreCommand::Sell(vec![e(1), e(3)])));
    assert_eq!(read("sell 3 food rations"), Ok(StoreCommand::Sell(vec![e(1), e(3), e(2)])));
    assert_eq!(read("sell 4 food rations"), err("Mint does not have that many food rations."));
    assert_eq!(read("sell 1 knife"), Ok(StoreCommand::Sell(vec![e(4)])));
    assert_eq!(read("sell food ration"), Ok(StoreCommand::Sell(vec![e(1)])));
    assert_eq!(read("sell knife"), Ok(StoreCommand::Sell(vec![e(4)])));
    assert_eq!(read("sell all swords"), err("Mint is holding no item by the name \"swords\"."));
    assert_eq!(read("sell 2 swords"), err("Mint is holding no item by the name \"swords\"."));
    assert_eq!(read("sell sword"), err("\"sword\" does not match an item in your inventory."));
    assert_eq!(read("sell"), err("\"\" does not match an item in your inventory."));
    assert_eq!(read("sell knife please"), err("Unexpected argument after \"sell knife\""));
}

#[test]
fn other_store_commands() {
    assert_eq!(read("ask about medkit"), Ok(StoreCommand::AskAbout(1)));
    assert_eq!(read("ask about medkits"), err("\"medkits\" does not match an item in the store."));
    assert_eq!(read("exit"), Ok(StoreCommand::Exit));
    assert_eq!(read("status"), Ok(StoreCommand::Status));
    assert_eq!(read("exit now"), err("Unexpected argument after \"exit\""));
    assert_eq!(read("dance"), err("Unexpected input: \"dance\""));
}
