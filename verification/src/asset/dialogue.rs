use crate::base::behavior::BackgroundId;
use crate::base::display::DialogueExpression;
use crate::base::status::MoraleState;
use crate::text::str_eq;
use vstd::prelude::*;

verus! {

/// What dialogue conditions are tested against: what the game knows of the speaker and the
/// target when a line of dialogue is chosen.
pub struct DialogueFacts {
    pub speaker_is_badly_hurt: bool,
    pub target_is_badly_hurt: bool,
    /// Whether the crew needs fuel to launch and holds at least as many fuel cans.
    pub has_enough_fuel: bool,
    pub speaker_at_ship: bool,
    pub at_fortuna: bool,
    pub speaker_is_passenger: bool,
    /// Whether the speaker's name is known, where the speaker has a name.
    pub speaker_name_known: Option<bool>,
    /// Whether the speaker's memory of a lost crew member is recent, where it has one.
    pub speaker_crew_loss_memory: Option<bool>,
    pub speaker_background: Option<BackgroundId>,
    /// The speaker's morale, where it has one.
    pub speaker_morale: Option<MoraleState>,
}

/// A condition for a line of dialogue.
pub enum DialogueCondition {
    IsBadlyHurt(bool),
    TargetIsBadlyHurt(bool),
    HasEnoughFuel(bool),
    AtShip(bool),
    AtFortuna(bool),
    IsPassenger(bool),
    HasKnownName(bool),
    HasCrewLossMemory(bool),
    HasRecentCrewLossMemory(bool),
    HasBackground(BackgroundId),
    MoraleIsAtLeast(MoraleState),
}

/// The speaker's morale: neutral where it has none.
pub open spec fn morale_or_default(morale: Option<MoraleState>) -> MoraleState {
    match morale {
        Some(m) => m,
        None => MoraleState::Neutral,
    }
}

impl DialogueCondition {
    /// Whether the condition holds of the facts. A condition on the name or the memory of a
    /// lost crew member fails where the speaker has none; one on the background fails where the
    /// speaker has none.
    pub open spec fn holds(&self, facts: DialogueFacts) -> bool {
        match self {
            DialogueCondition::IsBadlyHurt(b) => *b == facts.speaker_is_badly_hurt,
            DialogueCondition::TargetIsBadlyHurt(b) => *b == facts.target_is_badly_hurt,
            DialogueCondition::HasEnoughFuel(b) => *b == facts.has_enough_fuel,
            DialogueCondition::AtShip(b) => *b == facts.speaker_at_ship,
            DialogueCondition::AtFortuna(b) => *b == facts.at_fortuna,
            DialogueCondition::IsPassenger(b) => *b == facts.speaker_is_passenger,
            DialogueCondition::HasKnownName(b) => facts.speaker_name_known == Some(*b),
            DialogueCondition::HasCrewLossMemory(b) => *b == (facts.speaker_crew_loss_memory is Some),
            DialogueCondition::HasRecentCrewLossMemory(b) => *b == (facts.speaker_crew_loss_memory == Some(true)),
            DialogueCondition::HasBackground(expected) => facts.speaker_background matches Some(bg) && bg.0@
                == expected.0@,
            DialogueCondition::MoraleIsAtLeast(state) => state.rank() <= morale_or_default(
                facts.speaker_morale,
            ).rank(),
        }
    }

    /// Whether the condition holds of the facts.
    pub fn test(&self, facts: &DialogueFacts) -> (r: bool)
        ensures
            r == self.holds(*facts),
    {
        match self {
            DialogueCondition::IsBadlyHurt(b) => *b == facts.speaker_is_badly_hurt,
            DialogueCondition::TargetIsBadlyHurt(b) => *b == facts.target_is_badly_hurt,
            DialogueCondition::HasEnoughFuel(b) => *b == facts.has_enough_fuel,
            DialogueCondition::AtShip(b) => *b == facts.speaker_at_ship,
            DialogueCondition::AtFortuna(b) => *b == facts.at_fortuna,
            DialogueCondition::IsPassenger(b) => *b == facts.speaker_is_passenger,
            DialogueCondition::HasKnownName(b) => match facts.speaker_name_known {
                Some(known) => known == *b,
                None => false,
            },
            DialogueCondition::HasCrewLossMemory(b) => *b == facts.speaker_crew_loss_memory.is_some(),
            DialogueCondition::HasRecentCrewLossMemory(b) => {
                let recent = match facts.speaker_crew_loss_memory {
                    Some(r) => r,
                    None => false,
                };
                *b == recent
            },
            DialogueCondition::HasBackground(expected) => match &facts.speaker_background {
                Some(bg) => str_eq(bg.0.as_str(), expected.0.as_str()),
                None => false,
            },
            DialogueCondition::MoraleIsAtLeast(state) => {
                let morale = match facts.speaker_morale {
                    Some(m) => m,
                    None => MoraleState::Neutral,
                };
                state.rank_value() <= morale.rank_value()
            },
        }
    }
}

/// Conditions that must all hold.
pub struct DialogueConditionList(pub Vec<DialogueCondition>);

impl DialogueConditionList {
    /// Whether every condition holds of the facts.
    pub open spec fn holds(&self, facts: DialogueFacts) -> bool {
        forall|i: int| 0 <= i < self.0.len() ==> (#[trigger] self.0@[i]).holds(facts)
    }

    /// Whether every condition holds of the facts.
    pub fn test(&self, facts: &DialogueFacts) -> (r: bool)
        ensures
            r == self.holds(*facts),
    {
        let mut i: usize = 0;
        while i < self.0.len()
            invariant
                i <= self.0.len(),
                forall|k: int| 0 <= k < i ==> (#[trigger] self.0@[k]).holds(*facts),
            decreases self.0.len() - i,
        {
            if !self.0[i].test(facts) {
                return false;
            }
            i = i + 1;
        }
        true
    }

    /// Whether there are no conditions.
    pub fn is_empty(&self) -> (r: bool)
        ensures
            r == (self.0.len() == 0),
    {
        self.0.len() == 0
    }
}

/// A line of dialogue with the conditions for saying it, the speaker's expression, and the
/// replies that may follow.
pub struct ConditionedDialogueNode {
    pub condition: DialogueConditionList,
    pub expression: DialogueExpression,
    pub message: String,
    pub reply: Option<DialogueList>,
}

/// Lines of dialogue, the first whose conditions hold being said.
pub struct DialogueList(pub Vec<ConditionedDialogueNode>);

impl DialogueList {
    /// The first line whose conditions hold of the facts, if any.
    pub fn select_node(&self, facts: &DialogueFacts) -> (r: Option<&ConditionedDialogueNode>)
        ensures
            r is None <==> forall|i: int| 0 <= i < self.0.len() ==> !(#[trigger] self.0@[i]).condition.holds(*facts),
            r matches Some(node) ==> exists|i: int|
                0 <= i < self.0.len() && self.0@[i] == *node && node.condition.holds(*facts) && forall|j: int|
                    0 <= j < i ==> !(#[trigger] self.0@[j]).condition.holds(*facts),
    {
        let mut i: usize = 0;
        while i < self.0.len()
            invariant
                i <= self.0.len(),
                forall|k: int| 0 <= k < i ==> !(#[trigger] self.0@[k]).condition.holds(*facts),
            decreases self.0.len() - i,
        {
            if self.0[i].condition.test(facts) {
                assert(self.0@[i as int] == self.0[i as int]);
                return Some(&self.0[i]);
            }
            i = i + 1;
        }
        None
    }

    /// Whether there are no lines.
    pub fn is_empty(&self) -> (r: bool)
        ensures
            r == (self.0.len() == 0),
    {
        self.0.len() == 0
    }
}

/// What a piece of dialogue changes once it is said.
pub struct DialogueEffect {
    pub set_talked_about_enough_fuel: bool,
}

/// How the next dialogue follows: as a response, or as a continuation.
#[derive(Clone, Copy, PartialEq, Eq, Structural)]
pub enum NextDialogueKind {
    Response,
    Continuation,
}

/// Dialogue that may follow, with its conditions.
pub struct NextDialogueData {
    pub kind: NextDialogueKind,
    pub condition: DialogueConditionList,
    pub node: RefOrData,
}

/// A piece of dialogue: its effect, its description, its lines, and what may follow.
pub struct DialogueData {
    pub effect: Option<DialogueEffect>,
    pub description: String,
    pub dialogue: DialogueList,
    pub next: Vec<NextDialogueData>,
}

/// Dialogue given by its id, or in place.
pub enum RefOrData {
    Ref(String),
    Data(DialogueData),
}

} // verus!
