use super::Error;
use crate::base::item::Tool;
use crate::base::position::{Coord, Direction, Pos};
use crate::base::{BlockType, Door, DoorKind, EntityId};
use crate::text::{concat, concat4};
use vstd::prelude::*;

verus! {

/// The tools that open a door of the block type, in the order in which they are tried.
pub open spec fn usable_tools_spec(block_type: BlockType) -> Seq<Tool> {
    match block_type {
        BlockType::Stuck => seq![Tool::Crowbar, Tool::Blowtorch],
        BlockType::Sealed => seq![Tool::Blowtorch],
    }
}

/// The first of `tools` that is among `held`.
pub open spec fn first_held(tools: Seq<Tool>, held: Seq<Tool>) -> Option<Tool>
    decreases tools.len(),
{
    if tools.len() == 0 {
        None
    } else if held.contains(tools[0]) {
        Some(tools[0])
    } else {
        first_held(tools.drop_first(), held)
    }
}

/// Whether `held` holds the tool.
fn holds_tool(held: &Vec<Tool>, tool: Tool) -> (r: bool)
    ensures
        r == held@.contains(tool),
{
    let mut i: usize = 0;
    while i < held.len()
        invariant
            i <= held.len(),
            forall|k: int| 0 <= k < i ==> held@[k] != tool,
        decreases held.len() - i,
    {
        if held[i] == tool {
            assert(held@[i as int] == tool);
            return true;
        }
        i = i + 1;
    }
    false
}

/// The tool that the performer forces the door with: the first usable tool for the block type
/// that they hold. Without one, the message says what they need.
pub fn check_tool_for_forcing(block_type: BlockType, held: &Vec<Tool>, performer_name: &str) -> (r: Result<
    Tool,
    String,
>)
    ensures
        first_held(usable_tools_spec(block_type), held@) matches Some(t) ==> r == Ok::<Tool, String>(t),
        first_held(usable_tools_spec(block_type), held@) is None ==> (r matches Err(m) && m@ == performer_name@ + (
        match block_type {
            BlockType::Stuck => " needs some sort of tool to force the door open."@,
            BlockType::Sealed => " needs some sort of tool to break the door open."@,
        })),
{
    let tools = block_type.usable_tools();
    let mut i: usize = 0;
    assert(tools@.skip(0) =~= tools@);
    while i < tools.len()
        invariant
            i <= tools.len(),
            tools@ == usable_tools_spec(block_type),
            first_held(tools@.skip(i as int), held@) == first_held(usable_tools_spec(block_type), held@),
        decreases tools.len() - i,
    {
        assert(tools@.skip(i as int).drop_first() =~= tools@.skip(i + 1));
        if holds_tool(held, tools[i]) {
            return Ok(tools[i]);
        }
        i = i + 1;
    }
    match block_type {
        BlockType::Stuck => Err(concat(performer_name, " needs some sort of tool to force the door open.")),
        BlockType::Sealed => Err(concat(performer_name, " needs some sort of tool to break the door open.")),
    }
}

/// The failure of entering a blocked door: "Mint is unable to enter the door as it is stuck.".
pub fn blocked_entry_error(performer_name: &str, block_type: BlockType) -> (e: Error)
    ensures
        e.visible,
        e.message@ == performer_name@ + " is unable to enter the door as it is "@ + (match block_type {
            BlockType::Stuck => "stuck"@,
            BlockType::Sealed => "sealed shut"@,
        }) + "."@,
{
    Error::visible(concat4(performer_name, " is unable to enter the door as it is ", block_type.description(), "."))
}

/// Where the door and performer stand, as far as the performer can reach the door: the door's
/// position, or the failure where the door is gone or in another area.
pub fn check_door_reach(performer_name: &str, door_pos: Option<Pos>, performer_area: Option<EntityId>) -> (r:
    Result<Pos, Error>)
    ensures
        door_pos is None ==> (r matches Err(e) && !e.visible && e.message@ == performer_name@
            + " lost track of the door."@),
        door_pos matches Some(p) ==> (performer_area != Some(p.area_view()) ==> (r matches Err(e)
            && !e.visible && e.message@ == performer_name@ + " cannot reach the door from here."@)),
        door_pos matches Some(p) ==> (performer_area == Some(p.area_view()) ==> r == Ok::<Pos, Error>(p)),
{
    match door_pos {
        None => Err(Error::private(concat(performer_name, " lost track of the door."))),
        Some(pos) => {
            let reachable = match performer_area {
                Some(area) => pos.is_in(area),
                None => false,
            };
            if reachable {
                Ok(pos)
            } else {
                Err(Error::private(concat(performer_name, " cannot reach the door from here.")))
            }
        },
    }
}

/// Where a performer comes out of a door: a large performer one step further in the direction
/// it faces where that stays inside the area, and otherwise the door's destination itself.
pub fn entry_destination(destination: Pos, is_large: bool, direction: Direction, area_size: Option<Coord>) -> (p:
    Pos)
    ensures
        !is_large ==> p == destination,
        is_large ==> (if 0 <= destination.coord_view() + direction.offset() <= u32::MAX && area_size is Some
            && destination.coord_view() + direction.offset() < area_size->0 {
            p.coord_view() == destination.coord_view() + direction.offset() && p.area_view()
                == destination.area_view()
        } else {
            p == destination
        }),
{
    if is_large {
        match destination.try_offset_direction(direction, area_size) {
            Some(p) => p,
            None => destination,
        }
    } else {
        destination
    }
}

/// The doors that a blowtorch cuts: every door of the pair, in order, where the tool is a
/// blowtorch; none where it is not. `doors` holds each door with its pair.
pub fn doors_to_cut(tool: Tool, door_pair: EntityId, doors: &Vec<(EntityId, EntityId)>) -> (r: Vec<EntityId>)
    ensures
        tool == Tool::Crowbar ==> r@.len() == 0,
        tool == Tool::Blowtorch ==> r@ == doors@.filter(|d: (EntityId, EntityId)| d.1 == door_pair).map_values(
            |d: (EntityId, EntityId)| d.0,
        ),
{
    let mut r: Vec<EntityId> = Vec::new();
    if tool == Tool::Crowbar {
        return r;
    }
    let mut i: usize = 0;
    while i < doors.len()
        invariant
            i <= doors.len(),
            r@ == doors@.take(i as int).filter(|d: (EntityId, EntityId)| d.1 == door_pair).map_values(
                |d: (EntityId, EntityId)| d.0,
            ),
        decreases doors.len() - i,
    {
        proof {
            reveal(Seq::filter);
            assert(doors@.take(i + 1).drop_last() =~= doors@.take(i as int));
        }
        if doors[i].1 == door_pair {
            r.push(doors[i].0);
        }
        i = i + 1;
        proof {
            let f = |d: (EntityId, EntityId)| d.1 == door_pair;
            let g = |d: (EntityId, EntityId)| d.0;
            assert(r@ =~= doors@.take(i as int).filter(f).map_values(g));
        }
    }
    assert(doors@.take(doors.len() as int) =~= doors@);
    r
}

/// A crew member who might help with a blocked door: the entity, where it stands, and which
/// door-opening tools it holds.
pub struct HelperCandidate {
    pub entity: EntityId,
    pub pos: Pos,
    pub held_tools: Vec<Tool>,
}

/// Whether the candidate can help: it is not the controlled character, stands in `area`, and
/// holds a tool that opens the door.
pub open spec fn can_help(c: HelperCandidate, controlled: EntityId, area: EntityId, block_type: BlockType) -> bool {
    c.entity != controlled && c.pos.area_view() == area && first_held(usable_tools_spec(block_type), c.held_tools@)
        is Some
}

/// Whether any of `tools` is among `held`.
fn holds_any(tools: &Vec<Tool>, held: &Vec<Tool>) -> (r: bool)
    ensures
        r == (first_held(tools@, held@) is Some),
{
    let mut i: usize = 0;
    assert(tools@.skip(0) =~= tools@);
    while i < tools.len()
        invariant
            i <= tools.len(),
            first_held(tools@.skip(i as int), held@) == first_held(tools@, held@),
        decreases tools.len() - i,
    {
        assert(tools@.skip(i as int).drop_first() =~= tools@.skip(i + 1));
        if holds_tool(held, tools[i]) {
            return true;
        }
        i = i + 1;
    }
    false
}

/// The crew member who goes to force a door that the performer failed to get through: the
/// first candidate that can help, where the area is safe; none otherwise.
pub fn find_door_helper(
    area_is_safe: bool,
    controlled: EntityId,
    area: EntityId,
    block_type: BlockType,
    crew: &Vec<HelperCandidate>,
) -> (r: Option<EntityId>)
    ensures
        !area_is_safe ==> r is None,
        area_is_safe ==> (r is None <==> forall|k: int|
            0 <= k < crew.len() ==> !can_help(#[trigger] crew@[k], controlled, area, block_type)),
        area_is_safe ==> (r matches Some(e) ==> exists|k: int|
            0 <= k < crew.len() && can_help(#[trigger] crew@[k], controlled, area, block_type) && crew@[k].entity
                == e && forall|j: int| 0 <= j < k ==> !can_help(#[trigger] crew@[j], controlled, area, block_type)),
{
    if !area_is_safe {
        return None;
    }
    let tools = block_type.usable_tools();
    let mut i: usize = 0;
    while i < crew.len()
        invariant
            i <= crew.len(),
            area_is_safe,
            tools@ == usable_tools_spec(block_type),
            forall|k: int| 0 <= k < i ==> !can_help(#[trigger] crew@[k], controlled, area, block_type),
        decreases crew.len() - i,
    {
        let c = &crew[i];
        if c.entity != controlled && c.pos.is_in(area) && holds_any(&tools, &c.held_tools) {
            assert(can_help(crew@[i as int], controlled, area, block_type));
            return Some(c.entity);
        }
        i = i + 1;
    }
    None
}


/// The failure where a door entity is no longer a door.
pub fn not_a_door_error() -> (e: Error)
    ensures
        !e.visible,
        e.message@ == "The door ceased being a door."@,
{
    Error::private("The door ceased being a door.".to_owned())
}

/// The block of the door that the performer tries to force: the failure where it is not
/// blocked at all.
pub fn check_door_blocked(performer_name: &str, block_type: Option<BlockType>) -> (r: Result<BlockType, Error>)
    ensures
        block_type matches Some(b) ==> r == Ok::<BlockType, Error>(b),
        block_type is None ==> (r matches Err(e) && e.visible && e.message@ == performer_name@
            + " inspects the door, but it does not appear to be stuck."@),
{
    match block_type {
        Some(b) => Ok(b),
        None => Err(Error::visible(concat(performer_name, " inspects the door, but it does not appear to be stuck."))),
    }
}

/// What a crew member says when it comes to help force a door open.
pub fn assist_line() -> (s: &'static str)
    ensures
        s@ == "I'll help you get that door open."@,
{
    "I'll help you get that door open."
}

/// The failure of "go to ship" where no path leads to the ship.
pub fn no_path_to_ship_error() -> (e: Error)
    ensures
        !e.visible,
        e.message@ == "Could not find a path to the ship."@,
{
    Error::private("Could not find a path to the ship.".to_owned())
}

/// Whether a performer on its way to the ship keeps going after a step: where the step
/// succeeded, the new area is safe, and it is not the ship yet.
pub fn keeps_going_to_ship(step_succeeded: bool, area_is_safe: bool, in_ship: bool) -> (r: bool)
    ensures
        r == (step_succeeded && area_is_safe && !in_ship),
{
    step_succeeded && area_is_safe && !in_ship
}


/// The message of a character forcing a door open with a tool.
pub open spec fn forced_open_message(tool: Tool, name: Seq<char>) -> Seq<char> {
    match tool {
        Tool::Crowbar => name + " used their crowbar and forced open the door."@,
        Tool::Blowtorch => name + " used their blowtorch and cut open the door."@,
    }
}

/// The failure message where the performer holds no tool for the door's block.
pub open spec fn needs_tool_message(block_type: BlockType, name: Seq<char>) -> Seq<char> {
    match block_type {
        BlockType::Stuck => name + " needs some sort of tool to force the door open."@,
        BlockType::Sealed => name + " needs some sort of tool to break the door open."@,
    }
}

/// What forcing a door reads of the game: the performer's name and area, where the door is
/// (none where it is gone), the pair that the door belongs to (none where it is no longer a
/// door), what keeps the performer from stepping onto the door (the blockage's message), the
/// block on the pair, the tools that the performer holds, and every door with its pair.
pub struct ForceDoorScene {
    pub performer_name: String,
    pub performer_area: Option<EntityId>,
    pub door_pos: Option<Pos>,
    pub door_pair: Option<EntityId>,
    pub step_blocked: Option<String>,
    pub block_type: Option<BlockType>,
    pub held_tools: Vec<Tool>,
    pub doors: Vec<(EntityId, EntityId)>,
}

/// A door that was forced open: with which tool, which doors the blowtorch cut, and the message.
pub struct ForcedDoor {
    pub tool: Tool,
    pub cut_doors: Vec<EntityId>,
    pub message: String,
}

/// Forcing a door open. It fails, in this order, where the door is gone, stands in another
/// area, is no longer a door, or the way onto it is blocked (privately), and where the door is
/// not blocked or the performer holds no tool for its block (visibly). Else the block comes off
/// the pair with the first usable tool held, and a blowtorch cuts every door of the pair.
pub fn force_door(scene: &ForceDoorScene) -> (r: Result<ForcedDoor, Error>)
    ensures
        scene.door_pos is None ==> (r matches Err(e) && !e.visible && e.message@ == scene.performer_name@
            + " lost track of the door."@),
        scene.door_pos matches Some(p) && scene.performer_area != Some(p.area_view()) ==> (r matches Err(e)
            && !e.visible && e.message@ == scene.performer_name@ + " cannot reach the door from here."@),
        scene.door_pos matches Some(p) && scene.performer_area == Some(p.area_view()) ==> {
            match scene.door_pair {
                None => r matches Err(e) && !e.visible && e.message@ == "The door ceased being a door."@,
                Some(pair) => match scene.step_blocked {
                    Some(m) => r matches Err(e) && !e.visible && e.message@ == m@,
                    None => match scene.block_type {
                        None => r matches Err(e) && e.visible && e.message@ == scene.performer_name@
                            + " inspects the door, but it does not appear to be stuck."@,
                        Some(b) => match first_held(usable_tools_spec(b), scene.held_tools@) {
                            None => r matches Err(e) && e.visible && e.message@ == needs_tool_message(
                                b,
                                scene.performer_name@,
                            ),
                            Some(t) => r matches Ok(f) && f.tool == t && f.message@ == forced_open_message(
                                t,
                                scene.performer_name@,
                            ) && (t == Tool::Crowbar ==> f.cut_doors@.len() == 0) && (t == Tool::Blowtorch
                                ==> f.cut_doors@ == scene.doors@.filter(|d: (EntityId, EntityId)| d.1 == pair).map_values(
                                |d: (EntityId, EntityId)| d.0,
                            )),
                        },
                    },
                },
            }
        },
{
    let name = scene.performer_name.as_str();
    check_door_reach(name, scene.door_pos, scene.performer_area)?;
    let pair = match scene.door_pair {
        Some(pair) => pair,
        None => return Err(not_a_door_error()),
    };
    match &scene.step_blocked {
        Some(m) => return Err(Error::private(m.clone())),
        None => {},
    }
    let block_type = check_door_blocked(name, scene.block_type)?;
    match check_tool_for_forcing(block_type, &scene.held_tools, name) {
        Err(m) => Err(Error::visible(m)),
        Ok(tool) => {
            let cut_doors = doors_to_cut(tool, pair, &scene.doors);
            let message = tool.into_message(name);
            Ok(ForcedDoor { tool, cut_doors, message })
        },
    }
}


/// What entering a door reads of the game: the performer's name, area, size and facing, where
/// the door is (none where it is gone), what keeps the performer from being moved onto the door
/// (the message; none where it can be moved there, pushing aside whom it may), the door (none
/// where it is no longer a door), the block on its pair, and the size of the area it leads to.
pub struct EnterDoorScene {
    pub performer_name: String,
    pub performer_area: Option<EntityId>,
    pub is_large: bool,
    pub direction: Direction,
    pub door_pos: Option<Pos>,
    pub step_blocked: Option<String>,
    pub door: Option<Door>,
    pub pair_block: Option<BlockType>,
    pub destination_area_size: Option<Coord>,
}

/// Where a performer that goes through a door comes out, and through what kind of passage.
#[derive(Copy, Clone, Debug)]
pub struct Entry {
    pub destination: Pos,
    pub kind: DoorKind,
}

/// Going through a door. It fails privately, in this order, where the door is gone, stands in
/// another area, cannot be stepped onto, or is no longer a door; and visibly where its pair is
/// blocked. Else the performer comes out at the door's destination (one step further in its
/// facing where it is large and that step stays inside the area).
pub fn enter_door(scene: &EnterDoorScene) -> (r: Result<Entry, Error>)
    ensures
        scene.door_pos is None ==> (r matches Err(e) && !e.visible && e.message@ == scene.performer_name@
            + " lost track of the door."@),
        scene.door_pos matches Some(p) && scene.performer_area != Some(p.area_view()) ==> (r matches Err(e)
            && !e.visible && e.message@ == scene.performer_name@ + " cannot reach the door from here."@),
        scene.door_pos matches Some(p) && scene.performer_area == Some(p.area_view()) ==> {
            match scene.step_blocked {
                Some(m) => r matches Err(e) && !e.visible && e.message@ == m@,
                None => match scene.door {
                    None => r matches Err(e) && !e.visible && e.message@ == "The door ceased being a door."@,
                    Some(door) => match scene.pair_block {
                        Some(b) => r matches Err(e) && e.visible && e.message@ == scene.performer_name@
                            + " is unable to enter the door as it is "@ + (match b {
                            BlockType::Stuck => "stuck"@,
                            BlockType::Sealed => "sealed shut"@,
                        }) + "."@,
                        None => r matches Ok(entry) && entry.kind == door.kind && {
                            let d = door.destination;
                            let o = d.coord_view() + scene.direction.offset();
                            if scene.is_large && 0 <= o <= u32::MAX && scene.destination_area_size is Some && o
                                < scene.destination_area_size->0 {
                                entry.destination.coord_view() == o && entry.destination.area_view()
                                    == d.area_view()
                            } else {
                                entry.destination == d
                            }
                        },
                    },
                },
            }
        },
{
    let name = scene.performer_name.as_str();
    check_door_reach(name, scene.door_pos, scene.performer_area)?;
    match &scene.step_blocked {
        Some(m) => return Err(Error::private(m.clone())),
        None => {},
    }
    let door = match scene.door {
        Some(door) => door,
        None => return Err(not_a_door_error()),
    };
    match scene.pair_block {
        Some(b) => Err(blocked_entry_error(name, b)),
        None => {
            let destination = entry_destination(
                door.destination,
                scene.is_large,
                scene.direction,
                scene.destination_area_size,
            );
            Ok(Entry { destination, kind: door.kind })
        },
    }
}

} // verus!
