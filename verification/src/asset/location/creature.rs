use crate::base::behavior::{GivesHuntRewardData, Reward};
use crate::base::display::SpeciesColorId;
use crate::base::item::{ItemTypeId, Price};
use crate::base::position::Direction;
use crate::base::status::CreatureAttribute;
use crate::base::store::StockQuantity;
use crate::base::{SpeciesId, Tag};
use vstd::prelude::*;

pub use crate::base::behavior::Wandering;

verus! {

/// Which attribute a spawned creature gets: none, a random one, or the given one.
#[derive(Debug, Clone, Copy, PartialEq, Eq, Structural)]
pub enum AttributeChoice {
    Absent,
    Random,
    Attribute(CreatureAttribute),
}

impl AttributeChoice {
    /// Every choice: no attribute, a random one, then each attribute in order.
    pub fn variants() -> (v: Vec<Self>)
        ensures
            v@ == seq![
                AttributeChoice::Absent,
                AttributeChoice::Random,
                AttributeChoice::Attribute(CreatureAttribute::Muscular),
                AttributeChoice::Attribute(CreatureAttribute::Bulky),
                AttributeChoice::Attribute(CreatureAttribute::Agile),
            ],
    {
        let mut v = vec![AttributeChoice::Absent, AttributeChoice::Random];
        let attributes = CreatureAttribute::variants();
        let mut i: usize = 0;
        while i < attributes.len()
            invariant
                i <= attributes.len(),
                attributes@ == seq![CreatureAttribute::Muscular, CreatureAttribute::Bulky, CreatureAttribute::Agile],
                v@ == seq![AttributeChoice::Absent, AttributeChoice::Random] + attributes@.take(i as int).map_values(
                    |a: CreatureAttribute| AttributeChoice::Attribute(a),
                ),
            decreases attributes.len() - i,
        {
            v.push(AttributeChoice::Attribute(attributes[i]));
            i = i + 1;
            assert(v@ =~= seq![AttributeChoice::Absent, AttributeChoice::Random] + attributes@.take(
                i as int,
            ).map_values(|a: CreatureAttribute| AttributeChoice::Attribute(a)));
        }
        assert(attributes@.take(3) =~= attributes@);
        v
    }
}

impl Default for AttributeChoice {
    /// A random attribute.
    fn default() -> (c: Self)
        ensures
            c == AttributeChoice::Random,
    {
        AttributeChoice::Random
    }
}

/// A kind of creature that an area can spawn.
#[derive(Debug, Copy, Clone, PartialEq, Eq, Structural)]
pub enum Type {
    Goblin,
    Eyesaur,
    Azureclops,
    Scarvie,
    VoraciousFrog,
    BloodMantis,
}

impl Type {
    /// Every creature type, in declaration order.
    pub fn variants() -> (v: Vec<Self>)
        ensures
            v@ == seq![
                Type::Goblin,
                Type::Eyesaur,
                Type::Azureclops,
                Type::Scarvie,
                Type::VoraciousFrog,
                Type::BloodMantis,
            ],
    {
        vec![Type::Goblin, Type::Eyesaur, Type::Azureclops, Type::Scarvie, Type::VoraciousFrog, Type::BloodMantis]
    }

    /// The id of the type's species: its name in snake case.
    pub open spec fn species_name(self) -> Seq<char> {
        match self {
            Type::Goblin => "goblin"@,
            Type::Eyesaur => "eyesaur"@,
            Type::Azureclops => "azureclops"@,
            Type::Scarvie => "scarvie"@,
            Type::VoraciousFrog => "voracious_frog"@,
            Type::BloodMantis => "blood_mantis"@,
        }
    }

    /// The species of the creature type.
    pub fn species(self) -> (s: SpeciesId)
        ensures
            s.0@ == self.species_name(),
    {
        let name = match self {
            Type::Goblin => "goblin",
            Type::Eyesaur => "eyesaur",
            Type::Azureclops => "azureclops",
            Type::Scarvie => "scarvie",
            Type::VoraciousFrog => "voracious_frog",
            Type::BloodMantis => "blood_mantis",
        };
        SpeciesId(name.to_owned())
    }

    /// Whether the creature attacks on sight unless told otherwise: azureclopses, voracious frogs
    /// and blood mantises do.
    pub fn is_aggressive_by_default(self) -> (r: bool)
        ensures
            r == (self == Type::Azureclops || self == Type::VoraciousFrog || self == Type::BloodMantis),
    {
        match self {
            Type::Goblin | Type::Eyesaur | Type::Scarvie => false,
            Type::Azureclops | Type::VoraciousFrog | Type::BloodMantis => true,
        }
    }

    /// Whether the crew can tame the creature: eyesaurs and scarvies only.
    pub fn is_tameable(self) -> (r: bool)
        ensures
            r == (self == Type::Eyesaur || self == Type::Scarvie),
    {
        match self {
            Type::Eyesaur | Type::Scarvie => true,
            _ => false,
        }
    }
}

/// A hunt task that a character gives, as a location describes it.
pub struct GivesHuntReward {
    pub target_tag: Tag,
    pub target_label: String,
    pub task_dialogue: String,
    pub already_completed_dialogue: String,
    pub reward_dialogue: String,
    pub reward: Reward,
}

/// A copy of the item types.
fn copy_item_types(items: &Vec<ItemTypeId>) -> (r: Vec<ItemTypeId>)
    ensures
        r@ == items@,
{
    let mut r: Vec<ItemTypeId> = Vec::new();
    let mut i: usize = 0;
    while i < items.len()
        invariant
            i <= items.len(),
            r@ == items@.take(i as int),
        decreases items.len() - i,
    {
        r.push(ItemTypeId(items[i].0.clone()));
        i = i + 1;
        assert(r@ =~= items@.take(i as int));
    }
    assert(items@.take(items.len() as int) =~= items@);
    r
}

impl GivesHuntReward {
    /// The task as a character carries it: the same data, not yet presented to the crew.
    pub fn cloned_data(&self) -> (d: GivesHuntRewardData)
        ensures
            d.target_tag == self.target_tag,
            d.target_label == self.target_label,
            d.task_dialogue == self.task_dialogue,
            d.already_completed_dialogue == self.already_completed_dialogue,
            d.reward_dialogue == self.reward_dialogue,
            d.reward.points == self.reward.points,
            d.reward.items@ == self.reward.items@,
            !d.presented,
    {
        GivesHuntRewardData {
            target_tag: Tag(self.target_tag.0.clone()),
            target_label: self.target_label.clone(),
            task_dialogue: self.task_dialogue.clone(),
            already_completed_dialogue: self.already_completed_dialogue.clone(),
            reward_dialogue: self.reward_dialogue.clone(),
            reward: Reward { points: self.reward.points, items: copy_item_types(&self.reward.items) },
            presented: false,
        }
    }
}

/// How a character placed by a location deals with the crew.
pub enum CharacterInteraction {
    Recruitable,
    Talk { dialogue: String },
    GivesHuntReward(Box<GivesHuntReward>),
    Shopkeeper { stock: Vec<StockDefinition> },
    Hostile { encounter_dialogue: Option<String> },
}

/// The corpse of an aftik placed by a location.
pub struct AftikCorpseData {
    pub color: Option<SpeciesColorId>,
    pub direction: Option<Direction>,
}

/// An item that a store sells, with the price and quantity where they differ from the defaults.
pub struct StockDefinition {
    pub item: ItemTypeId,
    pub price: Option<Price>,
    pub quantity: Option<StockQuantity>,
}

} // verus!
