use super::Error;
use crate::base::EntityId;
use crate::base::position::Pos;
use crate::base::status::{
    StatChanges, Stats, applied, changes_computable, changes_in_bounds, reroll_stats, stats_in_bounds,
    stats_sum,
};
use crate::text::{concat, concat3, concat4, concat5, join_elements, joined};
use rand::rngs::ThreadRng;
use vstd::prelude::*;

verus! {

/// The luck that a four-leaf clover gives to whoever picks it up.
pub open spec fn four_leaf_clover_effect() -> StatChanges {
    StatChanges { strength: 0, endurance: 0, agility: 0, luck: 2 }
}

/// The change that a four-leaf clover makes to the stats of whoever picks it up: two luck.
pub fn four_leaf_clover_changes() -> (c: StatChanges)
    ensures
        c == four_leaf_clover_effect(),
{
    StatChanges { strength: 0, endurance: 0, agility: 0, luck: 2 }
}

/// The failure of a performer that can no longer find what it went for.
pub fn lost_track_error(performer_name: &str, thing_name: &str) -> (e: Error)
    ensures
        e.message@ == performer_name@ + " lost track of "@ + thing_name@ + "."@,
        !e.visible,
{
    Error::private(concat4(performer_name, " lost track of ", thing_name, "."))
}

/// Whether the item lies in the area.
pub open spec fn item_in_area(item: (EntityId, Pos), area: EntityId) -> bool {
    item.1.area_view() == area
}

/// The item that "take all" goes for first: of the items in the taker's area, the closest, the
/// first of them where several are equally close. Fails where the area holds no item.
pub fn nearest_item(taker: Pos, items: &Vec<(EntityId, Pos)>) -> (r: Result<EntityId, String>)
    ensures
        r is Err <==> forall|i: int| 0 <= i < items.len() ==> !item_in_area(#[trigger] items@[i], taker.area_view()),
        r matches Err(m) ==> m@ == "There are no items to take here."@,
        r matches Ok(e) ==> exists|i: int|
            0 <= i < items.len() && items@[i].0 == e && item_in_area(items@[i], taker.area_view()) && (forall|j: int|
                0 <= j < items.len() && item_in_area(#[trigger] items@[j], taker.area_view()) ==> items@[i].1.distance_spec(
                    taker,
                ) <= items@[j].1.distance_spec(taker)) && (forall|j: int|
                0 <= j < i && item_in_area(#[trigger] items@[j], taker.area_view()) ==> items@[i].1.distance_spec(taker)
                    < items@[j].1.distance_spec(taker)),
{
    let mut best: Option<usize> = None;
    let mut i: usize = 0;
    while i < items.len()
        invariant
            i <= items.len(),
            best is None ==> forall|j: int| 0 <= j < i ==> !item_in_area(#[trigger] items@[j], taker.area_view()),
            best matches Some(b) ==> b < i && item_in_area(items@[b as int], taker.area_view()) && (forall|j: int|
                0 <= j < i && item_in_area(#[trigger] items@[j], taker.area_view()) ==> items@[b as int].1.distance_spec(
                    taker,
                ) <= items@[j].1.distance_spec(taker)) && (forall|j: int|
                0 <= j < b && item_in_area(#[trigger] items@[j], taker.area_view()) ==> items@[b as int].1.distance_spec(
                    taker,
                ) < items@[j].1.distance_spec(taker)),
        decreases items.len() - i,
    {
        let (_, pos) = items[i];
        if pos.is_in(taker.get_area()) {
            match best {
                None => {
                    best = Some(i);
                },
                Some(b) => {
                    let (_, best_pos) = items[b];
                    if pos.distance_to(taker) < best_pos.distance_to(taker) {
                        best = Some(i);
                    }
                },
            }
        }
        i = i + 1;
    }
    match best {
        Some(b) => Ok(items[b].0),
        None => Err("There are no items to take here.".to_owned()),
    }
}

/// Picking up a four-leaf clover: where the taker's luck can grow by two in its bounds, it
/// does, and the clover vanishes with the message given; otherwise, or for another item, the
/// item is picked up as usual (none) and the stats stay.
pub fn four_leaf_clover_pickup(
    performer_name: &str,
    item_name: &str,
    is_four_leaf_clover: bool,
    stats: &mut Option<Stats>,
) -> (r: Option<String>)
    requires
        *old(stats) matches Some(s) ==> changes_computable(s, four_leaf_clover_effect()),
    ensures
        r is Some <==> is_four_leaf_clover && (*old(stats) matches Some(s) && changes_in_bounds(
            s,
            four_leaf_clover_effect(),
        )),
        r is Some ==> *final(stats) == Some(applied(old(stats)->0, four_leaf_clover_effect())),
        r is None ==> *final(stats) == *old(stats),
        r matches Some(m) ==> m@ == performer_name@ + " tries to pick up "@ + item_name@
            + ". But as they do, it disappears in their hand. (Luck has increased by 2 points)"@,
{
    if !is_four_leaf_clover {
        return None;
    }
    match stats {
        Some(s) => {
            if s.try_change_in_bounds(four_leaf_clover_changes()).is_err() {
                return None;
            }
        },
        None => {
            return None;
        },
    }
    Some(
        concat4(
            performer_name,
            " tries to pick up ",
            item_name,
            ". But as they do, it disappears in their hand. (Luck has increased by 2 points)",
        ),
    )
}

/// Before a search: the container must still be placed, and be a container. Gives where it is.
pub fn check_search(performer_name: &str, container_name: &str, container_pos: Option<Pos>, is_container: bool) -> (r:
    Result<Pos, Error>)
    ensures
        container_pos is None ==> (r matches Err(e) && e.message@ == performer_name@ + " lost track of "@
            + container_name@ + "."@ && !e.visible),
        container_pos is Some && !is_container ==> (r matches Err(e) && e.message@ == container_name@
            + " is not a searchable container."@ && !e.visible),
        container_pos matches Some(p) ==> (is_container ==> r == Ok::<Pos, Error>(p)),
{
    let pos = match container_pos {
        Some(p) => p,
        None => return Err(lost_track_error(performer_name, container_name)),
    };
    if !is_container {
        return Err(Error::private(concat(container_name, " is not a searchable container.")));
    }
    Ok(pos)
}

/// The message of a search: what was found, counted and listed, or that nothing was.
pub fn search_message(performer_name: &str, container_name: &str, found: &Vec<String>) -> (s: String)
    ensures
        found.len() == 0 ==> s@ == performer_name@ + " searched "@ + container_name@
            + ", but did not find anything of interest."@,
        found.len() > 0 ==> s@ == performer_name@ + " searched "@ + container_name@ + " and found "@ + joined(
            found@.map_values(|f: String| f@),
        ) + "."@,
{
    if found.len() == 0 {
        return concat3(performer_name, " searched ", concat(container_name, ", but did not find anything of interest.").as_str());
    }
    let list = join_elements(found);
    concat5(performer_name, " searched ", container_name, " and found ", concat(list.as_str(), ".").as_str())
}

/// Before an item is given: the giver must still hold it, and the receiver must still be
/// placed, in the giver's area, and alive. The first failed check decides.
pub fn check_give(
    performer_name: &str,
    receiver_name: &str,
    item_held_by_performer: bool,
    receiver_area: Option<EntityId>,
    performer_area: EntityId,
    receiver_alive: bool,
) -> (r: Result<(), Error>)
    ensures
        r is Ok <==> item_held_by_performer && receiver_area == Some(performer_area) && receiver_alive,
        r matches Err(e) ==> !e.visible,
        !item_held_by_performer ==> (r matches Err(e) && e.message@ == performer_name@
            + " lost track of the item they were going to give."@),
        item_held_by_performer && receiver_area is None ==> (r matches Err(e) && e.message@ == receiver_name@
            + " disappeared before "@ + performer_name@ + " could interact with them."@),
        item_held_by_performer && receiver_area is Some && receiver_area != Some(performer_area) ==> (r matches Err(e)
            && e.message@ == receiver_name@ + " left before "@ + performer_name@ + " could interact with them."@),
        item_held_by_performer && receiver_area == Some(performer_area) && !receiver_alive ==> (r matches Err(e)
            && e.message@ == receiver_name@ + " died before they could be given an item."@),
{
    if !item_held_by_performer {
        return Err(Error::private(concat(performer_name, " lost track of the item they were going to give.")));
    }
    let area = match receiver_area {
        Some(a) => a,
        None => {
            return Err(
                Error::private(concat4(receiver_name, " disappeared before ", performer_name, " could interact with them.")),
            );
        },
    };
    if area != performer_area {
        return Err(Error::private(concat4(receiver_name, " left before ", performer_name, " could interact with them.")));
    }
    if !receiver_alive {
        return Err(Error::private(concat(receiver_name, " died before they could be given an item.")));
    }
    Ok(())
}

/// The message of a gift.
pub fn gave_message(performer_name: &str, receiver_name: &str, item_name: &str) -> (s: String)
    ensures
        s@ == performer_name@ + " gave "@ + receiver_name@ + " a "@ + item_name@ + "."@,
{
    concat5(performer_name, " gave ", receiver_name, " a ", concat(item_name, ".").as_str())
}

/// The message of wielding an item: from the inventory, or picked up from the ground.
pub fn wield_message(performer_name: &str, item_name: &str, from_inventory: bool) -> (s: String)
    ensures
        from_inventory ==> s@ == performer_name@ + " wielded "@ + item_name@ + "."@,
        !from_inventory ==> s@ == performer_name@ + " picked up and wielded "@ + item_name@ + "."@,
{
    if from_inventory {
        concat4(performer_name, " wielded ", item_name, ".")
    } else {
        concat4(performer_name, " picked up and wielded ", item_name, ".")
    }
}

/// What using an item of a type does: heal, change stats, or reroll stats to a new sum.
#[derive(Debug, Clone, Copy, PartialEq, Eq, Structural)]
pub enum ItemUseKind {
    Medkit,
    BlackOrb(StatChanges),
    OddHandMirror(i16),
}

/// What came of using an item: whether the item is used up, whether the user is to recover
/// health, and the message.
pub struct UseOutcome {
    pub consumed: bool,
    pub restores_health: bool,
    pub message: String,
}

/// Whether the sums that a mirror's new stat sum needs fit in an `i16`, from left to right.
pub open spec fn mirror_sum_computable(s: Stats, sum_change: i16) -> bool {
    &&& i16::MIN <= s.strength + s.endurance <= i16::MAX
    &&& i16::MIN <= s.strength + s.endurance + s.agility <= i16::MAX
    &&& i16::MIN <= stats_sum(s) <= i16::MAX
    &&& i16::MIN <= stats_sum(s) + sum_change <= i16::MAX
}

/// Whether using an item of that kind can be computed on these stats.
pub open spec fn use_computable(usage: Option<ItemUseKind>, stats: Option<Stats>) -> bool {
    match (usage, stats) {
        (Some(ItemUseKind::BlackOrb(change)), Some(s)) => changes_computable(s, change),
        (Some(ItemUseKind::OddHandMirror(c)), Some(s)) => mirror_sum_computable(s, c),
        _ => true,
    }
}

/// Uses an item: the user must hold it, and it must be usable. A medkit needs a hurt user and
/// heals; a black orb changes the stats where they stay in bounds; an odd hand mirror rerolls
/// the stats to their sum changed by its amount, where stats in bounds can have that sum. An
/// orb or mirror that changes nothing is kept, with a message of its own.
pub fn use_item(
    rng: &mut ThreadRng,
    performer_name: &str,
    item_name: &str,
    held_by_performer: bool,
    usage: Option<ItemUseKind>,
    is_hurt: bool,
    stats: &mut Option<Stats>,
) -> (r: Result<UseOutcome, Error>)
    requires
        use_computable(usage, *old(stats)),
    ensures
        r matches Err(e) ==> !e.visible && *final(stats) == *old(stats),
        r matches Ok(o) ==> (o.restores_health <==> usage == Some(ItemUseKind::Medkit)),
        !held_by_performer ==> (r matches Err(e) && e.message@ == performer_name@
            + " tried using an item not held by them."@),
        held_by_performer && usage is None ==> (r matches Err(e) && e.message@ == performer_name@ + " tried to use "@
            + item_name@ + ", but it is not usable."@),
        held_by_performer && usage == Some(ItemUseKind::Medkit) ==> (if is_hurt {
            r matches Ok(o) && o.consumed && o.message@ == performer_name@
                + " used a medkit and recovered some health."@ && *final(stats) == *old(stats)
        } else {
            r matches Err(e) && e.message@ == performer_name@ + " no longer needs to use a medkit."@
        }),
        usage matches Some(ItemUseKind::BlackOrb(change)) ==> held_by_performer ==> (if *old(stats) matches Some(s)
            && changes_in_bounds(s, change) {
            r matches Ok(o) && o.consumed && *final(stats) == Some(applied(old(stats)->0, change)) && o.message@
                == performer_name@ + " holds up and inspects the orb. "@ + performer_name@
                + " gets a sensation of hardiness when suddenly, the orb cracks and falls apart into worthless pieces! (Stats have changed)"@
        } else {
            r matches Ok(o) && !o.consumed && *final(stats) == *old(stats) && o.message@ == performer_name@
                + " holds up and inspects the orb, but can't figure out what it is."@
        }),
        usage matches Some(ItemUseKind::OddHandMirror(c)) ==> held_by_performer ==> (if *old(stats) matches Some(s)
            && 3 <= stats_sum(s) + c <= 40 {
            r matches Ok(o) && o.consumed && (*final(stats) matches Some(n) && stats_in_bounds(n) && stats_sum(n)
                == stats_sum(old(stats)->0) + c) && o.message@ == performer_name@
                + " holds up and gazes into the mirror. After a few moments, the glass suddenly cracks! Turning away from the broken mirror, "@
                + performer_name@ + " gives off a different vibe from just a moment ago. (Stats have changed)"@
        } else {
            r matches Ok(o) && !o.consumed && *final(stats) == *old(stats) && o.message@ == performer_name@
                + " gazes into the mirror, but nothing seems to come from doing so."@
        }),
{
    if !held_by_performer {
        return Err(Error::private(concat(performer_name, " tried using an item not held by them.")));
    }
    let kind = match usage {
        Some(k) => k,
        None => {
            return Err(Error::private(concat4(performer_name, " tried to use ", item_name, ", but it is not usable.")));
        },
    };
    match kind {
        ItemUseKind::Medkit => {
            if !is_hurt {
                return Err(Error::private(concat(performer_name, " no longer needs to use a medkit.")));
            }
            Ok(
                UseOutcome {
                    consumed: true,
                    restores_health: true,
                    message: concat(performer_name, " used a medkit and recovered some health."),
                },
            )
        },
        ItemUseKind::BlackOrb(change) => {
            let changed = match stats {
                Some(s) => s.try_change_in_bounds(change).is_ok(),
                None => false,
            };
            if !changed {
                return Ok(
                    UseOutcome {
                        consumed: false,
                        restores_health: false,
                        message: concat(performer_name, " holds up and inspects the orb, but can't figure out what it is."),
                    },
                );
            }
            Ok(
                UseOutcome {
                    consumed: true,
                    restores_health: false,
                    message: concat4(
                        performer_name,
                        " holds up and inspects the orb. ",
                        performer_name,
                        " gets a sensation of hardiness when suddenly, the orb cracks and falls apart into worthless pieces! (Stats have changed)",
                    ),
                },
            )
        },
        ItemUseKind::OddHandMirror(sum_change) => {
            let rerolled = match stats {
                Some(s) => reroll_stats(rng, s.strength + s.endurance + s.agility + s.luck + sum_change),
                None => None,
            };
            match rerolled {
                Some(n) => {
                    *stats = Some(n);
                    Ok(
                        UseOutcome {
                            consumed: true,
                            restores_health: false,
                            message: concat4(
                                performer_name,
                                " holds up and gazes into the mirror. After a few moments, the glass suddenly cracks! Turning away from the broken mirror, ",
                                performer_name,
                                " gives off a different vibe from just a moment ago. (Stats have changed)",
                            ),
                        },
                    )
                },
                None => Ok(
                    UseOutcome {
                        consumed: false,
                        restores_health: false,
                        message: concat(performer_name, " gazes into the mirror, but nothing seems to come from doing so."),
                    },
                ),
            }
        },
    }
}

} // verus!
