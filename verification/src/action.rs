pub mod ship;
pub mod trade;
pub mod combat;
pub mod door;
pub mod item;
pub mod dialogue;

use crate::base::position::Pos;
use crate::base::status::Stamina;
use crate::base::{CREW_SIZE_LIMIT, EntityId};
use crate::sorting::{goes_before, is_stable_order, stable_order};
use crate::text::{concat, concat3, concat4};
use vstd::prelude::*;

verus! {

/// Marks a crew member who was waiting before being given an order.
pub struct WasWaiting;

/// Whether the entries go from the highest agility to the lowest.
pub open spec fn sorted_by_agility(s: Seq<(EntityId, i16)>) -> bool {
    forall|i: int, j: int| 0 <= i < j < s.len() ==> s[i].1 >= s[j].1
}

/// The key by which entities are sorted to act: the higher the agility, the smaller the key.
pub open spec fn agility_key(agility: i16) -> u128 {
    (32767 - agility) as u128
}

/// The sort keys of the entries.
pub open spec fn agility_keys(entries: Seq<(EntityId, i16)>) -> Seq<u128> {
    entries.map_values(|e: (EntityId, i16)| agility_key(e.1))
}

/// The order in which entities act within a tick: the entries sorted by agility, highest first,
/// entries of equal agility keeping their order (a stable sort).
pub fn order_by_agility(entries: &Vec<(EntityId, i16)>) -> (r: Vec<(EntityId, i16)>)
    ensures
        r.len() == entries.len(),
        sorted_by_agility(r@),
        exists|order: Seq<usize>|
            is_stable_order(agility_keys(entries@), order) && r@ == order.map_values(
                |k: usize| entries@[k as int],
            ),
{
    let mut keys: Vec<u128> = Vec::new();
    let mut i: usize = 0;
    while i < entries.len()
        invariant
            i <= entries.len(),
            keys.len() == i,
            forall|k: int| 0 <= k < i ==> #[trigger] keys@[k] == agility_key(entries@[k].1),
        decreases entries.len() - i,
    {
        keys.push((32767 - entries[i].1 as i32) as u128);
        i = i + 1;
    }
    assert(keys@ =~= agility_keys(entries@));
    let order = stable_order(&keys);
    let mut r: Vec<(EntityId, i16)> = Vec::new();
    let mut j: usize = 0;
    while j < order.len()
        invariant
            j <= order.len(),
            is_stable_order(keys@, order@),
            keys@ == agility_keys(entries@),
            r.len() == j,
            forall|k: int| 0 <= k < j ==> #[trigger] r@[k] == entries@[order@[k] as int],
        decreases order.len() - j,
    {
        r.push(entries[order[j]]);
        j = j + 1;
    }
    proof {
        assert(r@ =~= order@.map_values(|k: usize| entries@[k as int]));
        assert forall|a: int, b: int| 0 <= a < b < r@.len() implies r@[a].1 >= r@[b].1 by {
            assert(goes_before(keys@, order@[a] as int, order@[b] as int));
            assert(keys@[order@[a] as int] == agility_key(entries@[order@[a] as int].1));
            assert(keys@[order@[b] as int] == agility_key(entries@[order@[b] as int].1));
        }
    }
    r
}

/// Why an action failed, and whether others than the performer's controller may see it.
#[derive(Debug)]
pub struct Error {
    pub message: String,
    pub visible: bool,
}

impl Error {
    /// A failure that only the player controlling the performer hears of.
    pub fn private(message: String) -> (e: Self)
        ensures
            e.message@ == message@,
            !e.visible,
    {
        Error { message, visible: false }
    }

    /// A failure that anyone in the performer's area sees.
    pub fn visible(message: String) -> (e: Self)
        ensures
            e.message@ == message@,
            e.visible,
    {
        Error { message, visible: true }
    }
}

/// Whether the player sees the message of a failed action: always where the player controls the
/// performer, and otherwise where the failure is visible and the performer stands in the area
/// of the controlled character.
pub fn shows_error(
    performer: EntityId,
    controlled: EntityId,
    visible: bool,
    performer_pos: Option<Pos>,
    controlled_area: EntityId,
) -> (r: bool)
    ensures
        r == (performer == controlled || (visible && performer_pos is Some && performer_pos->0.area_view()
            == controlled_area)),
{
    if performer == controlled {
        return true;
    }
    match performer_pos {
        Some(pos) => visible && pos.is_in(controlled_area),
        None => false,
    }
}

/// Whether the player sees the message of a successful action: where it happened in the player's
/// area, the areas being those that the action names, or else the performer's own.
pub fn shows_success(areas: &Option<Vec<EntityId>>, performer_area: EntityId, player_area: EntityId) -> (r:
    bool)
    ensures
        r == (match areas {
            Some(list) => list@.contains(player_area),
            None => performer_area == player_area,
        }),
{
    match areas {
        None => performer_area == player_area,
        Some(list) => {
            let mut i: usize = 0;
            while i < list.len()
                invariant
                    i <= list.len(),
                    *areas == Some(*list),
                    forall|k: int| 0 <= k < i ==> list@[k] != player_area,
                decreases list.len() - i,
            {
                if list[i] == player_area {
                    assert(list@[i as int] == player_area);
                    assert(list@.contains(player_area));
                    return true;
                }
                i = i + 1;
            }
            false
        },
    }
}

/// Whether the crew keeps resting: some crew member in `area` has stamina more than one point
/// below the maximum.
pub fn need_more_rest(area: EntityId, crew: &Vec<(Pos, Stamina)>) -> (r: bool)
    requires
        forall|k: int| 0 <= k < crew.len() ==> (#[trigger] crew@[k]).1.current() < i16::MAX,
    ensures
        r == exists|k: int|
            0 <= k < crew.len() && (#[trigger] crew@[k]).0.area_view() == area && crew@[k].1.current() + 1
                < crew@[k].1.maximum(),
{
    let mut i: usize = 0;
    while i < crew.len()
        invariant
            i <= crew.len(),
            forall|k: int| 0 <= k < crew.len() ==> (#[trigger] crew@[k]).1.current() < i16::MAX,
            forall|k: int|
                0 <= k < i ==> !((#[trigger] crew@[k]).0.area_view() == area && crew@[k].1.current() + 1
                    < crew@[k].1.maximum()),
        decreases crew.len() - i,
    {
        if crew[i].0.is_in(area) && crew[i].1.need_more_rest() {
            return true;
        }
        i = i + 1;
    }
    false
}

/// The message of a rest: only on the first turn of resting.
pub fn rest_message(first_turn_resting: bool) -> (r: Option<String>)
    ensures
        first_turn_resting ==> (r matches Some(m) && m@ == "The crew takes some time to rest up."@),
        !first_turn_resting ==> r is None,
{
    if first_turn_resting {
        Some("The crew takes some time to rest up.".to_owned())
    } else {
        None
    }
}

/// What stands in the way of taming a creature, checked in this order: a full crew, a target
/// that is dead or not a recruitable creature, one that is on the attack, and other creatures
/// beside it. `hostile` tells whether the target is a recruitable creature and, if so, whether
/// it is aggressive.
pub fn check_tame(
    crew_size: usize,
    target_alive: bool,
    hostile: Option<bool>,
    creatures_in_area: usize,
    performer_name: &str,
    target_name: &str,
) -> (r: Result<(), Error>)
    ensures
        crew_size >= CREW_SIZE_LIMIT ==> (r matches Err(e) && !e.visible && e.message@
            == "There is not enough room for another crew member."@),
        crew_size < CREW_SIZE_LIMIT && (!target_alive || hostile is None) ==> (r matches Err(e)
            && !e.visible && e.message@ == target_name@ + " is not a tameable creature."@),
        crew_size < CREW_SIZE_LIMIT && target_alive && hostile == Some(true) ==> (r matches Err(e)
            && !e.visible && e.message@ == target_name@ + " is on the attack and does not let "@
            + performer_name@ + " approach it."@),
        crew_size < CREW_SIZE_LIMIT && target_alive && hostile == Some(false) && creatures_in_area > 1
            ==> (r matches Err(e) && !e.visible && e.message@ == performer_name@
            + " is unable to approach "@ + target_name@ + " as the latter is not alone."@),
        r is Ok <==> (crew_size < CREW_SIZE_LIMIT && target_alive && hostile == Some(false)
            && creatures_in_area <= 1),
{
    if crew_size >= CREW_SIZE_LIMIT {
        return Err(Error::private("There is not enough room for another crew member.".to_owned()));
    }
    if !target_alive {
        return Err(Error::private(concat(target_name, " is not a tameable creature.")));
    }
    match hostile {
        None => {
            return Err(Error::private(concat(target_name, " is not a tameable creature.")));
        },
        Some(true) => {
            return Err(
                Error::private(
                    concat4(target_name, " is on the attack and does not let ", performer_name, " approach it."),
                ),
            );
        },
        Some(false) => {},
    }
    if creatures_in_area > 1 {
        return Err(
            Error::private(
                concat4(performer_name, " is unable to approach ", target_name, " as the latter is not alone."),
            ),
        );
    }
    Ok(())
}

/// Whether a crew member may be given a name: only a crew member without one.
pub fn check_give_name(
    target_is_crew: bool,
    target_has_name: bool,
    performer_name: &str,
    target_name: &str,
) -> (r: Result<(), Error>)
    ensures
        !target_is_crew ==> (r matches Err(e) && !e.visible && e.message@ == performer_name@ + " cannot name "@
            + target_name@ + "."@),
        target_is_crew && target_has_name ==> (r matches Err(e) && !e.visible && e.message@ == target_name@
            + " already has a name."@),
        r is Ok <==> target_is_crew && !target_has_name,
{
    if !target_is_crew {
        return Err(Error::private(concat4(performer_name, " cannot name ", target_name, ".")));
    }
    if target_has_name {
        return Err(Error::private(concat(target_name, " already has a name.")));
    }
    Ok(())
}

/// The message of a successful naming.
pub fn named_message(performer_name: &str, target_name: &str, name: &str) -> (s: String)
    ensures
        s@ == performer_name@ + " dubbed "@ + target_name@ + " to be named "@ + name@ + "."@,
{
    let head = concat3(performer_name, " dubbed ", target_name);
    concat4(head.as_str(), " to be named ", name, ".")
}

/// The message of a successful taming.
pub fn tamed_message(performer_name: &str, target_name: &str) -> (s: String)
    ensures
        s@ == performer_name@ + " offered a food ration to "@ + target_name@ + " and tamed it."@,
{
    concat4(performer_name, " offered a food ration to ", target_name, " and tamed it.")
}

/// The outcome of opening a chest: only the fortuna chest can be opened.
pub fn open_chest_outcome(is_fortuna_chest: bool, performer_name: &str, chest_name: &str) -> (r: Result<
    String,
    Error,
>)
    ensures
        is_fortuna_chest ==> (r matches Ok(m) && m@ == performer_name@
            + " opened the fortuna chest and found the item that they desired the most."@),
        !is_fortuna_chest ==> (r matches Err(e) && e.visible && e.message@ == performer_name@ + " tried to open "@
            + chest_name@ + ", but that is not the fortuna chest!"@),
{
    if is_fortuna_chest {
        Ok(concat(performer_name, " opened the fortuna chest and found the item that they desired the most."))
    } else {
        let head = concat3(performer_name, " tried to open ", chest_name);
        Err(Error::visible(concat(head.as_str(), ", but that is not the fortuna chest!")))
    }
}

} // verus!
