use crate::text::{concat, concat4};
use super::EntityId;
use vstd::prelude::*;

verus! {

/// A coordinate within an area.
pub type Coord = u32;

/// A place: a coordinate in an area.
#[derive(Clone, Copy, Debug, Eq, PartialEq, Structural)]
pub struct Pos {
    coord: Coord,
    area: EntityId,
}

/// Why a position could not be made.
#[derive(Debug, PartialEq, Eq, Structural)]
pub enum PosError {
    InvalidArea,
    OutOfBounds { coord: Coord, area_size: Coord },
}

impl Pos {
    /// The coordinate.
    pub closed spec fn coord_view(&self) -> Coord {
        self.coord
    }

    /// The area.
    pub closed spec fn area_view(&self) -> EntityId {
        self.area
    }

    /// The distance between two positions of one area.
    pub open spec fn distance_spec(&self, pos: Pos) -> nat {
        if self.coord_view() > pos.coord_view() {
            (self.coord_view() - pos.coord_view()) as nat
        } else {
            (pos.coord_view() - self.coord_view()) as nat
        }
    }

    /// The position at `coord` in `area`, given the size of the area (none where `area` is not
    /// an area); fails where the area is missing or the coordinate lies outside it.
    pub fn try_new(area: EntityId, coord: Coord, area_size: Option<Coord>) -> (r: Result<Pos, PosError>)
        ensures
            area_size is None ==> r == Err::<Pos, PosError>(PosError::InvalidArea),
            area_size matches Some(size) ==> (if coord < size {
                r matches Ok(p) && p.coord_view() == coord && p.area_view() == area
            } else {
                r == Err::<Pos, PosError>(PosError::OutOfBounds { coord, area_size: size })
            }),
    {
        let area_size = match area_size {
            Some(size) => size,
            None => return Err(PosError::InvalidArea),
        };
        if coord >= area_size {
            return Err(PosError::OutOfBounds { coord, area_size });
        }
        Ok(Pos { coord, area })
    }

    /// The position at `coord` in an area of size `area_size`.
    pub fn new(area: EntityId, coord: Coord, area_size: Coord) -> (p: Pos)
        requires
            coord < area_size,
        ensures
            p.coord_view() == coord,
            p.area_view() == area,
    {
        Pos { coord, area }
    }

    /// The middle of an area of size `area_size` (the left one of two middles).
    pub fn center_of(area: EntityId, area_size: Coord) -> (p: Pos)
        requires
            area_size > 0,
        ensures
            p.coord_view() == (area_size - 1) / 2,
            p.area_view() == area,
    {
        Pos::new(area, (area_size - 1) / 2, area_size)
    }

    /// The coordinate.
    pub fn get_coord(&self) -> (c: Coord)
        ensures
            c == self.coord_view(),
    {
        self.coord
    }

    /// The area.
    pub fn get_area(&self) -> (a: EntityId)
        ensures
            a == self.area_view(),
    {
        self.area
    }

    /// The neighbouring position one step towards `pos`, or this position where they are equal.
    pub fn get_adjacent_towards(&self, pos: Pos) -> (p: Pos)
        requires
            self.area_view() == pos.area_view(),
        ensures
            p.area_view() == self.area_view(),
            self.coord_view() < pos.coord_view() ==> p.coord_view() == self.coord_view() + 1,
            self.coord_view() > pos.coord_view() ==> p.coord_view() == self.coord_view() - 1,
            self.coord_view() == pos.coord_view() ==> p == *self,
    {
        if self.coord < pos.coord {
            Pos { coord: self.coord + 1, area: self.area }
        } else if self.coord > pos.coord {
            Pos { coord: self.coord - 1, area: self.area }
        } else {
            *self
        }
    }

    /// The position `offset` steps away, where it lies within an area of size `area_size`.
    pub fn try_offset(self, offset: i32, area_size: Option<Coord>) -> (r: Option<Pos>)
        ensures
            r is Some <==> (0 <= self.coord_view() + offset <= u32::MAX && area_size is Some
                && self.coord_view() + offset < area_size->0),
            r matches Some(p) ==> p.coord_view() == self.coord_view() + offset && p.area_view()
                == self.area_view(),
    {
        let coord = match checked_add_signed(self.coord, offset) {
            Some(c) => c,
            None => return None,
        };
        match Pos::try_new(self.area, coord, area_size) {
            Ok(p) => Some(p),
            Err(_) => None,
        }
    }

    /// The position one step in `direction`, where it lies within an area of size `area_size`.
    pub fn try_offset_direction(self, direction: Direction, area_size: Option<Coord>) -> (r: Option<Pos>)
        ensures
            r is Some <==> (0 <= self.coord_view() + direction.offset() <= u32::MAX && area_size is Some
                && self.coord_view() + direction.offset() < area_size->0),
            r matches Some(p) ==> p.coord_view() == self.coord_view() + direction.offset() && p.area_view()
                == self.area_view(),
    {
        self.try_offset(direction.to_i32(), area_size)
    }

    /// Whether the position lies in `area`.
    pub fn is_in(&self, area: EntityId) -> (r: bool)
        ensures
            r == (self.area_view() == area),
    {
        self.area == area
    }

    /// The number of steps between the coordinates of two positions.
    pub fn distance_to(&self, pos: Pos) -> (d: u32)
        ensures
            d == self.distance_spec(pos),
    {
        if self.coord > pos.coord {
            self.coord - pos.coord
        } else {
            pos.coord - self.coord
        }
    }
}

/// `u32::checked_add_signed`: the sum where it fits in a `u32`.
pub fn checked_add_signed(value: u32, offset: i32) -> (r: Option<u32>)
    ensures
        r is Some <==> 0 <= value + offset <= u32::MAX,
        r matches Some(v) ==> v == value + offset,
{
    let sum: i64 = value as i64 + offset as i64;
    if 0 <= sum && sum <= 4294967295 {
        Some(sum as u32)
    } else {
        None
    }
}

/// Distance does not depend on the order of the two positions.
pub proof fn law_distance_symmetric(a: Pos, b: Pos)
    ensures
        a.distance_spec(b) == b.distance_spec(a),
{
}

/// A step towards a position brings one a step closer to it, unless one is there already.
pub proof fn law_adjacent_step_closer(a: Pos, b: Pos, step: Pos)
    requires
        a.area_view() == b.area_view(),
        a.coord_view() != b.coord_view(),
        step.area_view() == a.area_view(),
        a.coord_view() < b.coord_view() ==> step.coord_view() == a.coord_view() + 1,
        a.coord_view() > b.coord_view() ==> step.coord_view() == a.coord_view() - 1,
    ensures
        step.distance_spec(b) + 1 == a.distance_spec(b),
{
}

/// The way a creature faces.
#[derive(Copy, Clone, Debug, Eq, PartialEq, Structural)]
pub enum Direction {
    Left,
    Right,
}

impl Default for Direction {
    fn default() -> (d: Self)
        ensures
            d == Direction::Right,
    {
        Direction::Right
    }
}

impl Direction {
    /// The step that the direction stands for: -1 to the left, 1 to the right.
    pub open spec fn offset(self) -> int {
        match self {
            Direction::Left => -1,
            Direction::Right => 1,
        }
    }

    /// The direction from one position to another of the same area.
    pub fn between(from: Pos, to: Pos) -> (d: Direction)
        requires
            from.area_view() == to.area_view(),
        ensures
            d == (if to.coord_view() < from.coord_view() { Direction::Left } else { Direction::Right }),
    {
        Self::between_coords(from.get_coord(), to.get_coord())
    }

    /// Left where `to` lies before `from`, and right otherwise.
    pub fn between_coords(from: Coord, to: Coord) -> (d: Direction)
        ensures
            d == (if to < from { Direction::Left } else { Direction::Right }),
    {
        if to < from {
            Direction::Left
        } else {
            Direction::Right
        }
    }

    /// The other direction.
    pub fn opposite(self) -> (d: Direction)
        ensures
            d != self,
            d.offset() == -self.offset(),
    {
        match self {
            Direction::Left => Direction::Right,
            Direction::Right => Direction::Left,
        }
    }

    /// The step as an `i16`.
    pub fn to_i16(self) -> (n: i16)
        ensures
            n == self.offset(),
    {
        match self {
            Direction::Left => -1,
            Direction::Right => 1,
        }
    }

    /// The step as an `i32`.
    pub fn to_i32(self) -> (n: i32)
        ensures
            n == self.offset(),
    {
        match self {
            Direction::Left => -1,
            Direction::Right => 1,
        }
    }
}

/// Turning around twice faces the first way again.
pub proof fn law_opposite_involution(d: Direction)
    ensures
        ({
            let o = match d {
                Direction::Left => Direction::Right,
                Direction::Right => Direction::Left,
            };
            (match o {
                Direction::Left => Direction::Right,
                Direction::Right => Direction::Left,
            }) == d
        }),
{
}

/// A creature with this component is treated as if it also occupies the space directly behind it.
#[derive(Clone, Copy, Debug, Default)]
pub struct Large;

/// Where an entity stands, which way it faces, and whether it is large.
#[derive(Clone, Copy, Debug)]
pub struct Placement {
    pub pos: Pos,
    pub direction: Direction,
    pub is_large: bool,
}

impl Placement {
    /// The placement of an entity with this position, optional direction and size.
    pub fn from_parts(pos: Pos, direction: Option<Direction>, is_large: bool) -> (p: Placement)
        ensures
            p.pos == pos,
            p.direction == (match direction {
                Some(d) => d,
                None => Direction::Right,
            }),
            p.is_large == is_large,
    {
        Placement {
            pos,
            direction: match direction {
                Some(d) => d,
                None => Direction::Right,
            },
            is_large,
        }
    }

    /// The area of the placement.
    pub fn area(&self) -> (a: EntityId)
        ensures
            a == self.pos.area_view(),
    {
        self.pos.get_area()
    }

    /// The lowest coordinate that the entity covers.
    pub open spec fn min_coord_spec(&self) -> Coord {
        if self.is_large && self.direction == Direction::Right && self.pos.coord_view() > 0 {
            (self.pos.coord_view() - 1) as Coord
        } else {
            self.pos.coord_view()
        }
    }

    /// The highest coordinate that the entity covers.
    pub open spec fn max_coord_spec(&self) -> Coord {
        if self.is_large && self.direction == Direction::Left && self.pos.coord_view() < u32::MAX {
            (self.pos.coord_view() + 1) as Coord
        } else {
            self.pos.coord_view()
        }
    }

    fn min_coord(&self) -> (c: Coord)
        ensures
            c == self.min_coord_spec(),
    {
        let coord = self.pos.get_coord();
        if self.is_large && self.direction == Direction::Right {
            match checked_add_signed(coord, -1) {
                Some(c) => c,
                None => coord,
            }
        } else {
            coord
        }
    }

    fn max_coord(&self) -> (c: Coord)
        ensures
            c == self.max_coord_spec(),
    {
        let coord = self.pos.get_coord();
        if self.is_large && self.direction == Direction::Left {
            match checked_add_signed(coord, 1) {
                Some(c) => c,
                None => coord,
            }
        } else {
            coord
        }
    }

    /// The position of the entity nearest to `pos`: for a large entity, its back where `pos`
    /// lies at or before its lowest coordinate, and its highest coordinate otherwise.
    pub open spec fn closest_coord_spec(&self, pos: Pos) -> Coord {
        if self.is_large {
            if pos.coord_view() <= self.min_coord_spec() {
                self.min_coord_spec()
            } else {
                self.max_coord_spec()
            }
        } else {
            self.pos.coord_view()
        }
    }

    /// The position of the entity that is nearest to `pos`.
    pub fn closest_pos(&self, pos: Pos) -> (p: Pos)
        requires
            pos.area_view() == self.pos.area_view(),
        ensures
            p.coord_view() == self.closest_coord_spec(pos),
            p.area_view() == self.pos.area_view(),
    {
        if self.is_large {
            let area = self.pos.get_area();
            let min_coord = self.min_coord();
            if pos.get_coord() <= min_coord {
                Pos { coord: min_coord, area }
            } else {
                Pos { coord: self.max_coord(), area }
            }
        } else {
            self.pos
        }
    }

    /// The distance from the nearest part of the entity to `pos`.
    pub fn distance_to(&self, pos: Pos) -> (d: u32)
        requires
            pos.area_view() == self.pos.area_view(),
        ensures
            d == (if self.closest_coord_spec(pos) > pos.coord_view() {
                self.closest_coord_spec(pos) - pos.coord_view()
            } else {
                pos.coord_view() - self.closest_coord_spec(pos)
            }),
    {
        self.closest_pos(pos).distance_to(pos)
    }

    /// The position one step from the nearest part of the entity towards `pos`, in the area of `pos`.
    pub closed spec fn adjacent_towards_spec(&self, pos: Pos) -> Pos {
        let c = self.closest_coord_spec(pos);
        Pos {
            coord: if c < pos.coord {
                (c + 1) as Coord
            } else if c > pos.coord {
                (c - 1) as Coord
            } else {
                c
            },
            area: pos.area,
        }
    }

    /// The step from the nearest part of the entity towards `pos`.
    pub fn get_adjacent_towards(&self, pos: Pos) -> (p: Pos)
        requires
            pos.area_view() == self.pos.area_view(),
        ensures
            p == self.adjacent_towards_spec(pos),
            p.area_view() == pos.area_view(),
            ({
                let c = self.closest_coord_spec(pos);
                &&& c < pos.coord_view() ==> p.coord_view() == c + 1
                &&& c > pos.coord_view() ==> p.coord_view() == c - 1
                &&& c == pos.coord_view() ==> p.coord_view() == c
            }),
    {
        self.closest_pos(pos).get_adjacent_towards(pos)
    }

    /// Whether the entity covers a coordinate from `low` to `high` of `area`: its own coordinate,
    /// or, for a large entity, the one behind it.
    pub open spec fn overlaps_spec(&self, area: EntityId, low: Coord, high: Coord) -> bool {
        let coord = self.pos.coord_view();
        let behind = coord - self.direction.offset();
        self.pos.area_view() == area && ((low <= coord <= high) || (self.is_large && 0 <= behind
            <= u32::MAX && low <= behind <= high))
    }

    /// Whether the entity covers `pos`.
    pub fn overlaps_with_pos(&self, pos: Pos) -> (r: bool)
        ensures
            r == self.overlaps_spec(pos.area_view(), pos.coord_view(), pos.coord_view()),
    {
        self.overlaps_with_range(pos.get_area(), pos.get_coord(), pos.get_coord())
    }

    /// Whether the entity covers any coordinate from `low` to `high` of `area`.
    pub fn overlaps_with_range(&self, area: EntityId, low: Coord, high: Coord) -> (r: bool)
        ensures
            r == self.overlaps_spec(area, low, high),
    {
        let coord = self.pos.get_coord();
        self.pos.is_in(area) && ((low <= coord && coord <= high) || (self.is_large && match checked_add_signed(
            coord,
            self.direction.opposite().to_i32(),
        ) {
            Some(behind) => low <= behind && behind <= high,
            None => false,
        }))
    }
}

/// Marks an entity that takes up space, and whether it blocks its opponents.
#[derive(Debug, Clone, Copy)]
pub struct OccupiesSpace {
    pub blocks_opponent: bool,
}

impl Default for OccupiesSpace {
    fn default() -> (o: Self)
        ensures
            o.blocks_opponent,
    {
        OccupiesSpace { blocks_opponent: true }
    }
}

/// What keeps an entity from moving.
#[derive(Debug, Clone, Copy, PartialEq, Eq, Structural)]
pub enum Blockage {
    Hostile(EntityId),
    TakesSpace(EntityId, EntityId),
}

/// A push that could not be made.
pub struct PushError;

/// An entity that takes up space, where it is, and whether it blocks its opponents.
#[derive(Clone, Copy)]
pub struct Occupant {
    pub entity: EntityId,
    pub placement: Placement,
    pub blocks_opponent: bool,
}

/// The occupants (other than `ignored`) that cover `target`, in order.
pub open spec fn occupants_at(occupants: Seq<Occupant>, ignored: Option<EntityId>, target: Pos) -> Seq<Occupant> {
    occupants.filter(
        |o: Occupant|
            Some(o.entity) != ignored && o.placement.overlaps_spec(
                target.area_view(),
                target.coord_view(),
                target.coord_view(),
            ),
    )
}

/// A position is blocked where two or more occupants, other than `ignored`, cover it.
pub fn check_is_pos_blocked(ignored: Option<EntityId>, target_pos: Pos, occupants: &Vec<Occupant>) -> (r: Result<(), Blockage>)
    ensures
        ({
            let at = occupants_at(occupants@, ignored, target_pos);
            &&& (r is Ok <==> at.len() < 2)
            &&& (r is Err ==> r == Err::<(), Blockage>(Blockage::TakesSpace(at[0].entity, at[1].entity)))
        }),
{
    let ghost pred = |o: Occupant|
        Some(o.entity) != ignored && o.placement.overlaps_spec(
            target_pos.area_view(),
            target_pos.coord_view(),
            target_pos.coord_view(),
        );
    let mut found: Vec<EntityId> = Vec::new();
    let mut i: usize = 0;
    while i < occupants.len()
        invariant
            i <= occupants.len(),
            found@ == occupants@.take(i as int).filter(pred).map_values(|o: Occupant| o.entity),
            pred == (|o: Occupant|
                Some(o.entity) != ignored && o.placement.overlaps_spec(
                    target_pos.area_view(),
                    target_pos.coord_view(),
                    target_pos.coord_view(),
                )),
        decreases occupants.len() - i,
    {
        let o = occupants[i];
        let ghost before = occupants@.take(i as int);
        assert(occupants@.take(i + 1) == before.push(o));
        proof {
            lemma_filter_push(before, pred, o);
        }
        let skip = match ignored {
            Some(e) => e == o.entity,
            None => false,
        };
        if !skip && o.placement.overlaps_with_pos(target_pos) {
            found.push(o.entity);
            assert(found@ =~= before.push(o).filter(pred).map_values(|o: Occupant| o.entity));
        } else {
            assert(found@ =~= before.push(o).filter(pred).map_values(|o: Occupant| o.entity));
        }
        i = i + 1;
    }
    assert(occupants@.take(occupants.len() as int) == occupants@);
    if found.len() >= 2 {
        return Err(Blockage::TakesSpace(found[0], found[1]));
    }
    Ok(())
}

/// Whether an occupant blocks opponents on a coordinate from `low` to `high` of `area`.
pub open spec fn blocks_in_range(o: Occupant, area: EntityId, low: Coord, high: Coord) -> bool {
    o.blocks_opponent && o.placement.overlaps_spec(area, low, high)
}

/// The first candidate from index `from` on that blocks opponents in the range.
pub open spec fn first_blocking(candidates: Seq<Occupant>, area: EntityId, low: Coord, high: Coord, from: int) -> Option<
    EntityId,
>
    decreases candidates.len() - from,
{
    if from < 0 || from >= candidates.len() {
        None
    } else if blocks_in_range(candidates[from], area, low, high) {
        Some(candidates[from].entity)
    } else {
        first_blocking(candidates, area, low, high, from + 1)
    }
}

/// What keeps a move from `entity_pos` to `target_pos` of one area: nothing where they are
/// equal; for a crew member, the first hostile, and for a hostile, the first crew member, that
/// blocks opponents from the first step to the target; else two other occupants on the target.
pub open spec fn blocked_spec(
    entity: EntityId,
    is_crew_member: bool,
    is_hostile: bool,
    entity_pos: Pos,
    target_pos: Pos,
    hostiles: Seq<Occupant>,
    crew: Seq<Occupant>,
    occupants: Seq<Occupant>,
) -> Result<(), Blockage> {
    let from = entity_pos.coord_view();
    let to = target_pos.coord_view();
    let area = entity_pos.area_view();
    let low: Coord = if from < to { (from + 1) as Coord } else { to };
    let high: Coord = if from < to { to } else { (from - 1) as Coord };
    let at = occupants_at(occupants, Some(entity), target_pos);
    if from == to {
        Ok(())
    } else if is_crew_member && first_blocking(hostiles, area, low, high, 0) is Some {
        Err(Blockage::Hostile(first_blocking(hostiles, area, low, high, 0)->0))
    } else if is_hostile && first_blocking(crew, area, low, high, 0) is Some {
        Err(Blockage::Hostile(first_blocking(crew, area, low, high, 0)->0))
    } else if at.len() < 2 {
        Ok(())
    } else {
        Err(Blockage::TakesSpace(at[0].entity, at[1].entity))
    }
}

/// Where a candidate from `from` on blocks opponents in the range, some first one does.
proof fn lemma_first_blocking_found(candidates: Seq<Occupant>, area: EntityId, low: Coord, high: Coord, from: int, k: int)
    requires
        0 <= from <= k < candidates.len(),
        blocks_in_range(candidates[k], area, low, high),
    ensures
        first_blocking(candidates, area, low, high, from) is Some,
    decreases k - from,
{
    if !blocks_in_range(candidates[from], area, low, high) {
        lemma_first_blocking_found(candidates, area, low, high, from + 1, k);
    }
}

/// An opponent in the way stops a move: where a crew member moves to another coordinate of its
/// area, a hostile that blocks opponents and covers any coordinate it would pass on the way,
/// from its first step up to the target itself, makes the move blocked by a hostile; and so does
/// a crew member in the way of a moving hostile. In particular, one that stands right next to the
/// mover on the side of the move blocks it.
pub proof fn law_opponent_in_the_way_blocks(
    entity: EntityId,
    is_crew_member: bool,
    is_hostile: bool,
    entity_pos: Pos,
    target_pos: Pos,
    hostiles: Seq<Occupant>,
    crew: Seq<Occupant>,
    occupants: Seq<Occupant>,
    k: int,
    c: Coord,
)
    requires
        entity_pos.area_view() == target_pos.area_view(),
        entity_pos.coord_view() != target_pos.coord_view(),
        entity_pos.coord_view() < target_pos.coord_view() ==> entity_pos.coord_view() < c <= target_pos.coord_view(),
        entity_pos.coord_view() > target_pos.coord_view() ==> target_pos.coord_view() <= c < entity_pos.coord_view(),
        (is_crew_member && 0 <= k < hostiles.len() && hostiles[k].blocks_opponent
            && hostiles[k].placement.overlaps_spec(entity_pos.area_view(), c, c)) || (is_hostile && 0 <= k
            < crew.len() && crew[k].blocks_opponent && crew[k].placement.overlaps_spec(entity_pos.area_view(), c, c)),
    ensures
        blocked_spec(entity, is_crew_member, is_hostile, entity_pos, target_pos, hostiles, crew, occupants) matches Err(
            Blockage::Hostile(_),
        ),
{
    let from = entity_pos.coord_view();
    let to = target_pos.coord_view();
    let area = entity_pos.area_view();
    let low: Coord = if from < to { (from + 1) as Coord } else { to };
    let high: Coord = if from < to { to } else { (from - 1) as Coord };
    assert(low <= c <= high);
    if is_crew_member && 0 <= k < hostiles.len() && hostiles[k].blocks_opponent
        && hostiles[k].placement.overlaps_spec(area, c, c) {
        assert(blocks_in_range(hostiles[k], area, low, high));
        lemma_first_blocking_found(hostiles, area, low, high, 0, k);
    } else {
        assert(blocks_in_range(crew[k], area, low, high));
        lemma_first_blocking_found(crew, area, low, high, 0, k);
        if is_crew_member {
            if first_blocking(hostiles, area, low, high, 0) is None {
            }
        }
    }
}

/// The message of a blockage, given the names of the entities in the way.
pub fn blockage_message(blockage: Blockage, first_name: &str, second_name: &str) -> (s: String)
    ensures
        blockage is Hostile ==> s@ == first_name@ + " is in the way."@,
        blockage is TakesSpace ==> s@ == first_name@ + " and "@ + second_name@ + " are in the way."@,
{
    match blockage {
        Blockage::Hostile(_) => concat(first_name, " is in the way."),
        Blockage::TakesSpace(_, _) => concat4(first_name, " and ", second_name, " are in the way."),
    }
}

/// The first of the candidates that blocks opponents and covers a coordinate from `low` to `high`
/// of `area`.
pub fn find_blocking_in_range(candidates: &Vec<Occupant>, area: EntityId, low: Coord, high: Coord) -> (r: Option<EntityId>)
    ensures
        r == first_blocking(candidates@, area, low, high, 0),
        r matches Some(e) ==> exists|i: int|
            0 <= i < candidates.len() && #[trigger] candidates[i].entity == e && candidates[i].blocks_opponent
                && candidates[i].placement.overlaps_spec(area, low, high) && forall|j: int|
                0 <= j < i ==> !(candidates[j].blocks_opponent && #[trigger] candidates[j].placement.overlaps_spec(
                    area,
                    low,
                    high,
                )),
        r is None ==> forall|j: int|
            0 <= j < candidates.len() ==> !(candidates[j].blocks_opponent && #[trigger] candidates[j].placement.overlaps_spec(
                area,
                low,
                high,
            )),
{
    let mut i: usize = 0;
    while i < candidates.len()
        invariant
            i <= candidates.len(),
            first_blocking(candidates@, area, low, high, 0) == first_blocking(candidates@, area, low, high, i as int),
            forall|j: int|
                0 <= j < i ==> !(candidates[j].blocks_opponent && #[trigger] candidates[j].placement.overlaps_spec(
                    area,
                    low,
                    high,
                )),
        decreases candidates.len() - i,
    {
        if candidates[i].blocks_opponent && candidates[i].placement.overlaps_with_range(area, low, high) {
            return Some(candidates[i].entity);
        }
        i = i + 1;
    }
    None
}

/// Whether a move from `entity_pos` to `target_pos` is blocked: a crew member is stopped by a
/// hostile, and a hostile by a crew member, that blocks opponents anywhere from the first step
/// to the target; and the target is blocked where two other occupants cover it.
pub fn check_is_blocked(
    entity: EntityId,
    is_crew_member: bool,
    is_hostile: bool,
    entity_pos: Pos,
    target_pos: Pos,
    hostiles: &Vec<Occupant>,
    crew: &Vec<Occupant>,
    occupants: &Vec<Occupant>,
) -> (r: Result<(), Blockage>)
    requires
        entity_pos.area_view() == target_pos.area_view(),
    ensures
        r == blocked_spec(entity, is_crew_member, is_hostile, entity_pos, target_pos, hostiles@, crew@, occupants@),
        entity_pos.coord_view() == target_pos.coord_view() ==> r is Ok,
        r matches Err(Blockage::Hostile(e)) ==> (is_crew_member && hostiles@.map_values(
            |o: Occupant| o.entity,
        ).contains(e)) || (is_hostile && crew@.map_values(|o: Occupant| o.entity).contains(e)),
        (r is Ok && entity_pos.coord_view() != target_pos.coord_view()) ==> occupants_at(
            occupants@,
            Some(entity),
            target_pos,
        ).len() < 2,
{
    if entity_pos.get_coord() == target_pos.get_coord() {
        return Ok(());
    }
    let adjacent_pos = entity_pos.get_adjacent_towards(target_pos);
    let low = if adjacent_pos.get_coord() < target_pos.get_coord() { adjacent_pos.get_coord() } else { target_pos.get_coord() };
    let high = if adjacent_pos.get_coord() > target_pos.get_coord() { adjacent_pos.get_coord() } else { target_pos.get_coord() };
    let ghost from = entity_pos.coord_view();
    let ghost to = target_pos.coord_view();
    assert(low == if from < to { (from + 1) as Coord } else { to });
    assert(high == if from < to { to } else { (from - 1) as Coord });
    if is_crew_member {
        match find_blocking_in_range(hostiles, entity_pos.get_area(), low, high) {
            Some(e) => {
                proof {
                    let i = choose|i: int|
                        0 <= i < hostiles.len() && #[trigger] hostiles[i].entity == e && hostiles[i].blocks_opponent
                            && hostiles[i].placement.overlaps_spec(entity_pos.area_view(), low, high) && forall|j: int|
                            0 <= j < i ==> !(hostiles[j].blocks_opponent && #[trigger] hostiles[j].placement.overlaps_spec(
                                entity_pos.area_view(),
                                low,
                                high,
                            ));
                    assert(hostiles@.map_values(|o: Occupant| o.entity)[i] == e);
                }
                return Err(Blockage::Hostile(e));
            },
            None => {},
        }
    }
    if is_hostile {
        match find_blocking_in_range(crew, entity_pos.get_area(), low, high) {
            Some(e) => {
                proof {
                    let i = choose|i: int|
                        0 <= i < crew.len() && #[trigger] crew[i].entity == e && crew[i].blocks_opponent
                            && crew[i].placement.overlaps_spec(entity_pos.area_view(), low, high) && forall|j: int|
                            0 <= j < i ==> !(crew[j].blocks_opponent && #[trigger] crew[j].placement.overlaps_spec(
                                entity_pos.area_view(),
                                low,
                                high,
                            ));
                    assert(crew@.map_values(|o: Occupant| o.entity)[i] == e);
                }
                return Err(Blockage::Hostile(e));
            },
            None => {},
        }
    }
    match check_is_pos_blocked(Some(entity), target_pos, occupants) {
        Ok(()) => Ok(()),
        Err(b) => Err(b),
    }
}

} // verus!

verus! {

pub proof fn lemma_filter_push<A>(s: Seq<A>, pred: spec_fn(A) -> bool, x: A)
    ensures
        s.push(x).filter(pred) == (if pred(x) { s.filter(pred).push(x) } else { s.filter(pred) }),
{
    reveal(Seq::filter);
    assert(s.push(x).drop_last() == s);
}

} // verus!
