use super::item::ItemTypeId;
use super::{EntityId, Tag};
use vstd::prelude::*;

verus! {

/// Marks a character.
#[derive(Debug)]
pub struct Character;

/// Marks a creature that fights the crew, and whether it attacks on sight.
#[derive(Debug)]
pub struct Hostile {
    pub aggressive: bool,
}

/// Marks a creature that wanders, within areas of a tag where one is given.
#[derive(Clone)]
pub struct Wandering {
    pub area_tag: Option<Tag>,
}

/// Marks something that wanderers look at.
#[derive(Debug)]
pub struct ObservationTarget;

/// What a creature does when badly hurt.
#[derive(Debug, Clone, Copy, PartialEq, Eq, Structural)]
pub enum BadlyHurtBehavior {
    /// With this behavior, the entity will flee when hurt.
    Fearful,
    /// With this behavior, the entity will prioritize rash attacks when hurt.
    Determined,
}

/// The background of a character, which dialogue may depend on.
#[derive(Debug, Clone, PartialEq, Eq)]
pub struct BackgroundId(pub String);

/// What a crew member means to do when it gets to act.
#[derive(Debug, Clone, Copy, PartialEq, Eq, Structural)]
pub enum Intention {
    Wield(EntityId),
    Force { door: EntityId, assisted: EntityId },
    UseMedkit(EntityId),
    Refuel,
}

/// An action that goes on over several turns.
#[derive(Clone, Copy)]
pub enum RepeatingAction {
    TakeAll,
    Rest,
    GoToShip,
    UseItem { item: EntityId, use_time: u16 },
    ChargedAttack(EntityId),
}

impl RepeatingAction {
    /// Whether danger breaks off the action: all but a charged attack and the use of an item.
    pub fn cancel_if_unsafe(self) -> (r: bool)
        ensures
            r == !(self is ChargedAttack || self is UseItem),
    {
        match self {
            RepeatingAction::ChargedAttack(_) => false,
            RepeatingAction::UseItem { .. } => false,
            _ => true,
        }
    }
}

/// Marks a crew member who waits, and whether at the ship.
pub struct Waiting {
    pub at_ship: bool,
}

/// Memory of a lost crew member, and whether the loss is recent.
#[derive(Debug)]
pub struct CrewLossMemory {
    pub name: String,
    pub recent: bool,
}

/// Marks a character who may join the crew.
#[derive(Debug, Clone)]
pub struct Recruitable;

/// Dialogue that appears after the greeting as a response to the talk action.
#[derive(Debug, Clone)]
pub struct Talk(pub String);

/// What a character gives for the crew's help.
#[derive(Debug, Clone)]
pub struct Reward {
    pub points: i32,
    pub items: Vec<ItemTypeId>,
}

/// A hunt task that a character gives, and its reward.
#[derive(Clone)]
pub struct GivesHuntRewardData {
    pub target_tag: Tag,
    pub target_label: String,
    pub task_dialogue: String,
    pub already_completed_dialogue: String,
    pub reward_dialogue: String,
    pub reward: Reward,
    pub presented: bool,
}

impl GivesHuntRewardData {
    /// The task is fulfilled once no creature with the target tag is alive.
    pub fn is_fulfilled(&self, any_target_alive: bool) -> (r: bool)
        ensures
            r == !any_target_alive,
    {
        !any_target_alive
    }
}

/// Dialogue between npcs triggered by encounter.
#[derive(Debug, Clone)]
pub struct BackgroundDialogue {
    /// The tag is expected to only match one other entity.
    pub target: Tag,
    pub dialogue: String,
}

/// Dialogue towards the player triggered by encounter.
#[derive(Debug, Clone)]
pub struct EncounterDialogue(pub String);

/// Assigned to crew entity when any crew member have brought up that the crew has sufficient fuel to leave.
#[derive(Debug, Clone)]
pub struct TalkedAboutEnoughFuel;

/// What a character has talked about.
#[derive(Debug, Clone, Default)]
pub struct TalkState {
    pub talked_about_badly_hurt: bool,
}

/// Whether an area is safe: every hostile in it is dead. Each hostile is given by whether it is
/// in the area and whether it is alive.
pub fn is_safe(hostiles: &Vec<(bool, bool)>) -> (r: bool)
    ensures
        r == forall|i: int| 0 <= i < hostiles.len() ==> !(#[trigger] hostiles[i]).0 || !hostiles[i].1,
{
    let mut i: usize = 0;
    while i < hostiles.len()
        invariant
            i <= hostiles.len(),
            forall|k: int| 0 <= k < i ==> !(#[trigger] hostiles[k]).0 || !hostiles[k].1,
        decreases hostiles.len() - i,
    {
        if hostiles[i].0 && hostiles[i].1 {
            return false;
        }
        i = i + 1;
    }
    true
}

/// Makes every hostile in the area aggressive. Each hostile is given by whether it is in the
/// area and its state.
pub fn trigger_aggression_in_area(hostiles: &mut Vec<(bool, Hostile)>)
    ensures
        final(hostiles).len() == old(hostiles).len(),
        forall|i: int|
            0 <= i < final(hostiles).len() ==> (#[trigger] final(hostiles)[i]).0 == old(hostiles)[i].0
                && final(hostiles)[i].1.aggressive == (old(hostiles)[i].0 || old(hostiles)[i].1.aggressive),
{
    let mut i: usize = 0;
    while i < hostiles.len()
        invariant
            i <= hostiles.len() == old(hostiles).len(),
            forall|k: int|
                0 <= k < i ==> (#[trigger] hostiles[k]).0 == old(hostiles)[k].0
                    && hostiles[k].1.aggressive == (old(hostiles)[k].0 || old(hostiles)[k].1.aggressive),
            forall|k: int| i <= k < hostiles.len() ==> #[trigger] hostiles[k] == old(hostiles)[k],
        decreases hostiles.len() - i,
    {
        if hostiles[i].0 {
            let in_area = hostiles[i].0;
            hostiles.set(i, (in_area, Hostile { aggressive: true }));
        }
        i = i + 1;
    }
}

} // verus!
