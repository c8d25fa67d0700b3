pub mod display;
pub mod store;
pub mod item;
pub mod name;
pub mod status;
pub mod position;
pub mod combat;
pub mod area;
pub mod behavior;
pub mod inventory;

use crate::text::{concat, str_eq};
use vstd::prelude::*;

verus! {

/// An entity of the game world, by its bits.
#[derive(Clone, Copy, Debug, PartialEq, Eq, Hash, Structural)]
pub struct EntityId(pub u64);

/// The most crew members that the crew can have.
pub const CREW_SIZE_LIMIT: usize = 3;

/// Marks a member of the crew, with the crew entity.
#[derive(Debug)]
pub struct CrewMember(pub EntityId);

/// The id of a species, such as "aftik".
#[derive(Debug, Clone, PartialEq, Eq, Hash)]
pub struct SpeciesId(pub String);

impl SpeciesId {
    /// Whether this is the aftik species.
    pub fn is_aftik(&self) -> (r: bool)
        ensures
            r == (self.0@ == "aftik"@),
    {
        str_eq(self.0.as_str(), "aftik")
    }

    /// The creature model of the species: `creature/{id}`.
    pub fn model_id(&self) -> (m: display::ModelId)
        ensures
            m.0@ == "creature/"@ + self.0@,
    {
        display::ModelId(concat("creature/", self.0.as_str()))
    }

    /// The portrait model of the species: `portrait/{id}`.
    pub fn portrait_model_id(&self) -> (m: display::ModelId)
        ensures
            m.0@ == "portrait/"@ + self.0@,
    {
        display::ModelId(concat("portrait/", self.0.as_str()))
    }

    /// The noun of the species, which has the species' id.
    pub fn noun_id(&self) -> (n: name::NounId)
        ensures
            n.0@ == self.0@,
    {
        name::NounId(self.0.clone())
    }

    /// The species with this id.
    pub fn from_str(value: &str) -> (s: Self)
        ensures
            s.0@ == value@,
    {
        Self(value.to_owned())
    }

    /// The text of the id (as its `Display`).
    pub fn to_text(&self) -> (s: String)
        ensures
            s@ == self.0@,
    {
        self.0.clone()
    }
}

/// A label by which entities are found, such as a hunt target.
#[derive(Debug, Clone, PartialEq, Eq)]
pub struct Tag(pub String);

/// Marks the fortuna chest.
pub struct FortunaChest;

/// Marks an opened chest.
pub struct OpenedChest;

/// Whether a passage is a door or a path.
#[derive(Copy, Clone, Debug, PartialEq, Eq, Structural)]
pub enum DoorKind {
    Door,
    Path,
}

/// A door or path: what kind it is, where it leads, and the pair of doors that it belongs to
/// (both sides of a passage share the pair, which carries the passage's block).
#[derive(Copy, Clone, Debug)]
pub struct Door {
    pub kind: DoorKind,
    pub destination: position::Pos,
    pub door_pair: EntityId,
}

/// Marks a door that has been cut open.
pub struct IsCut;

/// Why a door cannot be passed.
#[derive(Debug, Copy, Clone, Eq, PartialEq, Structural)]
pub enum BlockType {
    Stuck,
    Sealed,
}

impl BlockType {
    /// All block types, in declaration order.
    pub fn variants() -> (v: Vec<Self>)
        ensures
            v@ == seq![BlockType::Stuck, BlockType::Sealed],
    {
        vec![BlockType::Stuck, BlockType::Sealed]
    }

    /// How the blocked door is described.
    pub fn description(self) -> (s: &'static str)
        ensures
            self == BlockType::Stuck ==> s@ == "stuck"@,
            self == BlockType::Sealed ==> s@ == "sealed shut"@,
    {
        match self {
            BlockType::Stuck => "stuck",
            BlockType::Sealed => "sealed shut",
        }
    }

    /// The tools that can open the door: a crowbar or a blowtorch for a stuck door, only a
    /// blowtorch for a sealed one.
    pub fn usable_tools(self) -> (tools: Vec<item::Tool>)
        ensures
            self == BlockType::Stuck ==> tools@ == seq![item::Tool::Crowbar, item::Tool::Blowtorch],
            self == BlockType::Sealed ==> tools@ == seq![item::Tool::Blowtorch],
    {
        match self {
            BlockType::Stuck => vec![item::Tool::Crowbar, item::Tool::Blowtorch],
            BlockType::Sealed => vec![item::Tool::Blowtorch],
        }
    }
}

} // verus!
