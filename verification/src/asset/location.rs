pub mod creature;

use crate::asset::loot::LootTableId;
use crate::base::display::ModelId;
use crate::base::item::ItemTypeId;
use crate::base::name::NounId;
use crate::base::position::Direction;
use crate::base::{BlockType, DoorKind};
use vstd::prelude::*;

verus! {

/// A variant of a location, with how often it is picked.
pub struct WeightedVariant {
    pub id: String,
    pub weight: u32,
}

/// What two doors that lead to each other share: whether they are blocked, and whether they
/// are cut open.
#[derive(Clone, Copy)]
pub struct DoorPairData {
    pub block_type: Option<BlockType>,
    pub is_cut: bool,
}

impl Default for DoorPairData {
    /// Neither blocked nor cut.
    fn default() -> (d: Self)
        ensures
            d.block_type is None,
            !d.is_cut,
    {
        DoorPairData { block_type: None, is_cut: false }
    }
}

/// How a door looks.
#[derive(Copy, Clone, Debug, PartialEq, Eq, Structural)]
pub enum DoorType {
    Door,
    Doorway,
    UpwardStairs,
    DownwardStairs,
    Shack,
    House,
    Store,
    Path,
    LeftPath,
    RightPath,
    CrossroadPath,
}

impl DoorType {
    /// Every door type, in declaration order.
    pub fn variants() -> (v: Vec<Self>)
        ensures
            v@ == seq![
                DoorType::Door,
                DoorType::Doorway,
                DoorType::UpwardStairs,
                DoorType::DownwardStairs,
                DoorType::Shack,
                DoorType::House,
                DoorType::Store,
                DoorType::Path,
                DoorType::LeftPath,
                DoorType::RightPath,
                DoorType::CrossroadPath,
            ],
    {
        vec![
            DoorType::Door,
            DoorType::Doorway,
            DoorType::UpwardStairs,
            DoorType::DownwardStairs,
            DoorType::Shack,
            DoorType::House,
            DoorType::Store,
            DoorType::Path,
            DoorType::LeftPath,
            DoorType::RightPath,
            DoorType::CrossroadPath,
        ]
    }

    /// Whether the door type is a path.
    pub open spec fn is_path(self) -> bool {
        self == DoorType::Path || self == DoorType::LeftPath || self == DoorType::RightPath || self
            == DoorType::CrossroadPath
    }

    /// The model of the door type.
    pub open spec fn model_name(self) -> Seq<char> {
        match self {
            DoorType::Door | DoorType::House | DoorType::Store => "door/door"@,
            DoorType::Doorway => "door/doorway"@,
            DoorType::UpwardStairs => "door/upward_stairs"@,
            DoorType::DownwardStairs => "door/downward_stairs"@,
            DoorType::Shack => "door/shack"@,
            DoorType::Path => "path"@,
            DoorType::LeftPath => "path/left_corner"@,
            DoorType::RightPath => "path/right_corner"@,
            DoorType::CrossroadPath => "path/crossroad"@,
        }
    }

    /// The model of the door type.
    pub fn model_id(self) -> (m: ModelId)
        ensures
            m.0@ == self.model_name(),
    {
        let name = match self {
            DoorType::Door | DoorType::House | DoorType::Store => "door/door",
            DoorType::Doorway => "door/doorway",
            DoorType::UpwardStairs => "door/upward_stairs",
            DoorType::DownwardStairs => "door/downward_stairs",
            DoorType::Shack => "door/shack",
            DoorType::Path => "path",
            DoorType::LeftPath => "path/left_corner",
            DoorType::RightPath => "path/right_corner",
            DoorType::CrossroadPath => "path/crossroad",
        };
        ModelId::new(name)
    }

    /// Whether one passes through it as a door or walks along it as a path.
    pub fn kind(self) -> (k: DoorKind)
        ensures
            k == (if self.is_path() {
                DoorKind::Path
            } else {
                DoorKind::Door
            }),
    {
        match self {
            DoorType::Path | DoorType::LeftPath | DoorType::RightPath | DoorType::CrossroadPath => DoorKind::Path,
            _ => DoorKind::Door,
        }
    }

    /// The noun of the door type.
    pub open spec fn noun_name(self) -> Seq<char> {
        match self {
            DoorType::Door => "door"@,
            DoorType::Doorway => "doorway"@,
            DoorType::UpwardStairs => "upward_stairs"@,
            DoorType::DownwardStairs => "downward_stairs"@,
            DoorType::Shack => "shack"@,
            DoorType::House => "house"@,
            DoorType::Store => "store"@,
            _ => "path"@,
        }
    }

    /// The noun of the door type.
    pub fn noun_id(self) -> (n: NounId)
        ensures
            n.0@ == self.noun_name(),
    {
        let name = match self {
            DoorType::Door => "door",
            DoorType::Doorway => "doorway",
            DoorType::UpwardStairs => "upward_stairs",
            DoorType::DownwardStairs => "downward_stairs",
            DoorType::Shack => "shack",
            DoorType::House => "house",
            DoorType::Store => "store",
            DoorType::Path | DoorType::LeftPath | DoorType::RightPath | DoorType::CrossroadPath => "path",
        };
        NounId::from_str(name)
    }
}

/// The word that tells doors of one area apart.
#[derive(Copy, Clone, PartialEq, Eq, Structural)]
pub enum DoorAdjective {
    Left,
    Middle,
    Right,
}

impl DoorAdjective {
    /// Every adjective, in declaration order.
    pub fn variants() -> (v: Vec<Self>)
        ensures
            v@ == seq![DoorAdjective::Left, DoorAdjective::Middle, DoorAdjective::Right],
    {
        vec![DoorAdjective::Left, DoorAdjective::Middle, DoorAdjective::Right]
    }

    /// The word: "left", "middle" or "right".
    pub fn word(self) -> (s: &'static str)
        ensures
            self == DoorAdjective::Left ==> s@ == "left"@,
            self == DoorAdjective::Middle ==> s@ == "middle"@,
            self == DoorAdjective::Right ==> s@ == "right"@,
    {
        match self {
            DoorAdjective::Left => "left",
            DoorAdjective::Middle => "middle",
            DoorAdjective::Right => "right",
        }
    }
}

/// A door that a location places: the pair it belongs to, how it looks, and its adjective.
pub struct DoorSpawnData {
    pub pair_id: String,
    pub display_type: DoorType,
    pub adjective: Option<DoorAdjective>,
}

/// A kind of container that items can be searched for in.
#[derive(Debug, Clone, Copy, PartialEq, Eq, Structural)]
pub enum ContainerType {
    Tent,
    Cabinet,
    Drawer,
    Crate,
    Chest,
    CrashedShip,
}

impl ContainerType {
    /// Every container type, in declaration order.
    pub fn variants() -> (v: Vec<Self>)
        ensures
            v@ == seq![
                ContainerType::Tent,
                ContainerType::Cabinet,
                ContainerType::Drawer,
                ContainerType::Crate,
                ContainerType::Chest,
                ContainerType::CrashedShip,
            ],
    {
        vec![
            ContainerType::Tent,
            ContainerType::Cabinet,
            ContainerType::Drawer,
            ContainerType::Crate,
            ContainerType::Chest,
            ContainerType::CrashedShip,
        ]
    }

    /// The noun of the container type, which also names its model under `container/`.
    pub open spec fn noun_name(self) -> Seq<char> {
        match self {
            ContainerType::Tent => "tent"@,
            ContainerType::Cabinet => "cabinet"@,
            ContainerType::Drawer => "drawer"@,
            ContainerType::Crate => "crate"@,
            ContainerType::Chest => "chest"@,
            ContainerType::CrashedShip => "crashed_ship"@,
        }
    }

    fn name(self) -> (s: &'static str)
        ensures
            s@ == self.noun_name(),
    {
        match self {
            ContainerType::Tent => "tent",
            ContainerType::Cabinet => "cabinet",
            ContainerType::Drawer => "drawer",
            ContainerType::Crate => "crate",
            ContainerType::Chest => "chest",
            ContainerType::CrashedShip => "crashed_ship",
        }
    }

    /// The model of the container type: `container/{noun}`.
    pub fn model_id(self) -> (m: ModelId)
        ensures
            m.0@ == "container/"@ + self.noun_name(),
    {
        ModelId(crate::text::concat("container/", self.name()))
    }

    /// The noun of the container type.
    pub fn noun_id(self) -> (n: NounId)
        ensures
            n.0@ == self.noun_name(),
    {
        NounId::from_str(self.name())
    }
}

/// What a container holds: an item, or a pick from a loot table.
#[derive(Debug, Clone)]
pub enum ItemOrLoot {
    Item { item: ItemTypeId },
    Loot { table: LootTableId },
}

/// A container that a location places.
pub struct ContainerData {
    pub container_type: ContainerType,
    pub content: Vec<ItemOrLoot>,
    pub direction: Direction,
}

} // verus!
