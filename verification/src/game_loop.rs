use crate::base::EntityId;
use crate::action::item::{four_leaf_clover_changes, four_leaf_clover_effect};
use crate::base::status::{Stats, applied, changes_computable, changes_in_bounds};
use crate::base::name::{ArticleKind, CountFormat, NounData};
use crate::base::position::Pos;
use crate::command::Target;
use crate::area::PickResult;
use crate::game_interface::{Phase, StopType};
use crate::text::{concat, concat3, decimal_u16, join_elements, joined};
use vstd::prelude::*;

verus! {

/// How many rations a crew member wants at a meal: two for a big eater, one for others.
pub open spec fn rations_wanted(big_eater: bool) -> int {
    if big_eater {
        2
    } else {
        1
    }
}

/// How the rations are shared, in order: each hurt crew member in turn eats what it wants, or
/// what is left; those that get none are left out. Gives who ate how many, and what is left.
pub open spec fn share_rations(candidates: Seq<(EntityId, bool)>, available: int) -> (Seq<(EntityId, u16)>, int)
    decreases candidates.len(),
{
    if candidates.len() == 0 {
        (Seq::empty(), available)
    } else {
        let (eaten, left) = share_rations(candidates.drop_last(), available);
        let want = rations_wanted(candidates.last().1);
        let take = if left < want { left } else { want };
        if take > 0 {
            (eaten.push((candidates.last().0, take as u16)), left - take)
        } else {
            (eaten, left)
        }
    }
}

/// The sum of the rations eaten.
pub open spec fn rations_eaten(eaten: Seq<(EntityId, u16)>) -> int
    decreases eaten.len(),
{
    if eaten.len() == 0 {
        0
    } else {
        rations_eaten(eaten.drop_last()) + eaten.last().1
    }
}

/// How many rations the crew members want together.
pub open spec fn rations_wanted_total(candidates: Seq<(EntityId, bool)>) -> int
    decreases candidates.len(),
{
    if candidates.len() == 0 {
        0
    } else {
        rations_wanted_total(candidates.drop_last()) + rations_wanted(candidates.last().1)
    }
}

/// Rations are neither made nor lost: what is eaten and what is left add up to what there was.
/// And none is left over while someone still wants more: the crew eat all the rations there
/// are, or all that they want, whichever is fewer.
pub proof fn law_rations_conserved(candidates: Seq<(EntityId, bool)>, available: int)
    requires
        available >= 0,
    ensures
        rations_eaten(share_rations(candidates, available).0) + share_rations(candidates, available).1 == available,
        share_rations(candidates, available).1 >= 0,
        rations_eaten(share_rations(candidates, available).0) == (if available < rations_wanted_total(candidates) {
            available
        } else {
            rations_wanted_total(candidates)
        }),
    decreases candidates.len(),
{
    if candidates.len() > 0 {
        law_rations_conserved(candidates.drop_last(), available);
        let (eaten, left) = share_rations(candidates.drop_last(), available);
        let want = rations_wanted(candidates.last().1);
        let take = if left < want { left } else { want };
        if take > 0 {
            assert(eaten.push((candidates.last().0, take as u16)).drop_last() =~= eaten);
        }
    }
}

/// Who eats how many of the `available` rations: the hurt crew members in the order given
/// (the most hurt first), each with whether it is a big eater.
pub fn share_food_rations(candidates: &Vec<(EntityId, bool)>, available: usize) -> (r: Vec<(EntityId, u16)>)
    ensures
        r@ == share_rations(candidates@, available as int).0,
{
    let mut eaten: Vec<(EntityId, u16)> = Vec::new();
    let mut left: usize = available;
    let mut i: usize = 0;
    while i < candidates.len()
        invariant
            i <= candidates.len(),
            (eaten@, left as int) == share_rations(candidates@.take(i as int), available as int),
        decreases candidates.len() - i,
    {
        assert(candidates@.take(i + 1).drop_last() =~= candidates@.take(i as int));
        let (entity, big_eater) = candidates[i];
        let want: usize = if big_eater { 2 } else { 1 };
        let take: usize = if left < want { left } else { want };
        if take > 0 {
            eaten.push((entity, take as u16));
            left = left - take;
        }
        i = i + 1;
    }
    assert(candidates@.take(candidates.len() as int) =~= candidates@);
    eaten
}

/// The sum of the amounts.
pub open spec fn amount_sum(amounts: Seq<(String, u16)>) -> int
    decreases amounts.len(),
{
    if amounts.len() == 0 {
        0
    } else {
        amount_sum(amounts.drop_last()) + amounts.last().1
    }
}

/// The names of the eaters.
pub open spec fn eater_names(eaters: Seq<(String, u16)>) -> Seq<Seq<char>> {
    eaters.map_values(|e: (String, u16)| e.0@)
}

/// The message of the crew's meal: "Mint ate one food ration to recover some health." for one
/// eater, and otherwise the eaters' names followed by "ate 3 food rations to recover some
/// health.".
pub fn build_eating_message(eaters: &Vec<(String, u16)>, ration_noun: &NounData) -> (s: String)
    requires
        eaters.len() > 0,
        amount_sum(eaters@) <= u16::MAX,
    ensures
        eaters.len() == 1 ==> s@ == eaters@[0].0@ + " ate "@ + ration_noun.counted(
            None,
            eaters@[0].1,
            ArticleKind::One,
            CountFormat::Text,
        ) + " to recover some health."@,
        eaters.len() != 1 ==> s@ == joined(eater_names(eaters@)) + " ate "@ + crate::text::decimal(
            amount_sum(eaters@) as nat,
        ) + " food rations to recover some health."@,
{
    if eaters.len() == 1 {
        let ration = ration_noun.with_text_count(eaters[0].1, ArticleKind::One);
        let head = concat3(eaters[0].0.as_str(), " ate ", ration.as_str());
        return concat(head.as_str(), " to recover some health.");
    }
    let mut names: Vec<String> = Vec::new();
    let mut sum: u16 = 0;
    let mut i: usize = 0;
    while i < eaters.len()
        invariant
            i <= eaters.len(),
            amount_sum(eaters@) <= u16::MAX,
            names.len() == i,
            forall|k: int| 0 <= k < i ==> (#[trigger] names@[k])@ == eaters@[k].0@,
            sum == amount_sum(eaters@.take(i as int)),
        decreases eaters.len() - i,
    {
        assert(eaters@.take(i + 1).drop_last() =~= eaters@.take(i as int));
        proof {
            lemma_amount_sum_prefix(eaters@, i + 1);
        }
        let name = eaters[i].0.clone();
        names.push(name);
        sum = sum + eaters[i].1;
        i = i + 1;
    }
    assert(eaters@.take(eaters.len() as int) =~= eaters@);
    assert(names@.map_values(|n: String| n@) =~= eater_names(eaters@));
    let list = join_elements(&names);
    let amount = decimal_u16(sum);
    let head = concat3(list.as_str(), " ate ", amount.as_str());
    concat(head.as_str(), " food rations to recover some health.")
}

/// The sum of a prefix is at most the sum of all.
proof fn lemma_amount_sum_prefix(amounts: Seq<(String, u16)>, k: int)
    requires
        0 <= k <= amounts.len(),
    ensures
        amount_sum(amounts.take(k)) <= amount_sum(amounts),
    decreases amounts.len() - k,
{
    if k < amounts.len() {
        lemma_amount_sum_prefix(amounts, k + 1);
        assert(amounts.take(k + 1).drop_last() =~= amounts.take(k));
    } else {
        assert(amounts.take(k) =~= amounts);
    }
}

/// How the game goes on after a tick for the player: as it is, under control of another crew
/// member where the controlled one left the crew, or stopped, lost where no crew member is
/// left and won where the fortuna chest was opened.
pub fn check_player_state(
    controlled_is_crew: bool,
    next_crew_character: Option<EntityId>,
    controlled_opened_chest: bool,
) -> (r: Result<Option<EntityId>, StopType>)
    ensures
        !controlled_is_crew && next_crew_character is None ==> r == Err::<Option<EntityId>, StopType>(StopType::Lose),
        !(!controlled_is_crew && next_crew_character is None) && controlled_opened_chest ==> r == Err::<
            Option<EntityId>,
            StopType,
        >(StopType::Win),
        !(!controlled_is_crew && next_crew_character is None) && !controlled_opened_chest ==> r == Ok::<
            Option<EntityId>,
            StopType,
        >(if controlled_is_crew { None } else { next_crew_character }),
{
    let mut next: Option<EntityId> = None;
    if !controlled_is_crew {
        match next_crew_character {
            Some(c) => {
                next = Some(c);
            },
            None => {
                return Err(StopType::Lose);
            },
        }
    }
    if controlled_opened_chest {
        return Err(StopType::Win);
    }
    Ok(next)
}

/// A crew member that may be given the crew's order.
#[derive(Clone, Copy)]
pub struct CrewPlace {
    pub entity: EntityId,
    pub pos: Pos,
    pub is_waiting: bool,
}

/// Whether the crew member takes the crew's order: it is in the controlled one's area, and is
/// the controlled one or not waiting.
pub open spec fn takes_crew_order(c: CrewPlace, controlled: EntityId, area: EntityId) -> bool {
    c.pos.area_view() == area && (c.entity == controlled || !c.is_waiting)
}

/// Who is given a command's action: the controlled character alone, or for the crew each crew
/// member that takes the crew's order, in order.
pub fn action_recipients(target: Target, controlled: EntityId, area: EntityId, crew: &Vec<CrewPlace>) -> (r: Vec<
    EntityId,
>)
    ensures
        target == Target::Controlled ==> r@ == seq![controlled],
        target == Target::Crew ==> r@ == crew@.filter(|c: CrewPlace| takes_crew_order(c, controlled, area)).map_values(
            |c: CrewPlace| c.entity,
        ),
{
    let mut r: Vec<EntityId> = Vec::new();
    match target {
        Target::Controlled => {
            r.push(controlled);
            assert(r@ =~= seq![controlled]);
            r
        },
        Target::Crew => {
            let mut i: usize = 0;
            while i < crew.len()
                invariant
                    i <= crew.len(),
                    r@ == crew@.take(i as int).filter(|c: CrewPlace| takes_crew_order(c, controlled, area)).map_values(
                        |c: CrewPlace| c.entity,
                    ),
                decreases crew.len() - i,
            {
                proof {
                    reveal(Seq::filter);
                    assert(crew@.take(i + 1).drop_last() =~= crew@.take(i as int));
                }
                let c = crew[i];
                if c.pos.is_in(area) && (c.entity == controlled || !c.is_waiting) {
                    r.push(c.entity);
                }
                i = i + 1;
                proof {
                    let f = |c: CrewPlace| takes_crew_order(c, controlled, area);
                    let g = |c: CrewPlace| c.entity;
                    assert(r@ =~= crew@.take(i as int).filter(f).map_values(g));
                }
            }
            assert(crew@.take(crew.len() as int) =~= crew@);
            r
        },
    }
}

/// The message of creatures that got over being stunned: the counted names, then "regained
/// their balance.".
pub fn regained_balance_message(names: &Vec<String>) -> (s: String)
    ensures
        s@ == joined(names@.map_values(|n: String| n@)) + " regained their balance."@,
{
    let list = join_elements(names);
    concat(list.as_str(), " regained their balance.")
}

/// The messages of the ship leaving: the departure, then one for each crew member left behind.
pub fn leave_messages(left_behind: &Vec<String>) -> (r: Vec<String>)
    ensures
        r.len() == left_behind.len() + 1,
        r@[0]@ == "The ship leaves for the next planet."@,
        forall|i: int| 0 <= i < left_behind.len() ==> r@[i + 1]@ == left_behind@[i]@ + " was left behind."@,
{
    let mut r: Vec<String> = vec!["The ship leaves for the next planet.".to_owned()];
    let mut i: usize = 0;
    while i < left_behind.len()
        invariant
            i <= left_behind.len(),
            r.len() == i + 1,
            r@[0]@ == "The ship leaves for the next planet."@,
            forall|k: int| 0 <= k < i ==> r@[k + 1]@ == left_behind@[k]@ + " was left behind."@,
        decreases left_behind.len() - i,
    {
        r.push(concat(left_behind[i].as_str(), " was left behind."));
        i = i + 1;
    }
    r
}


/// Whether the game stops for the player's command: not while the controlled character
/// repeats an action or is stunned.
pub fn should_take_user_input(has_repeating_action: bool, is_stunned: bool) -> (r: bool)
    ensures
        r == !(has_repeating_action || is_stunned),
{
    !(has_repeating_action || is_stunned)
}

/// A crew member as seen by the wait check: where it is, and whether it asks to wait.
#[derive(Clone, Copy)]
pub struct WaitRequest {
    pub entity: EntityId,
    pub pos: Pos,
    pub requesting_wait: bool,
}

/// Whether another crew member in the controlled character's area asks to wait.
pub fn is_wait_requested(controlled: EntityId, area: EntityId, crew: &Vec<WaitRequest>) -> (r: bool)
    ensures
        r == exists|k: int|
            0 <= k < crew.len() && (#[trigger] crew@[k]).entity != controlled && crew@[k].pos.area_view() == area
                && crew@[k].requesting_wait,
{
    let mut i: usize = 0;
    while i < crew.len()
        invariant
            i <= crew.len(),
            forall|k: int|
                0 <= k < i ==> !((#[trigger] crew@[k]).entity != controlled && crew@[k].pos.area_view() == area
                    && crew@[k].requesting_wait),
        decreases crew.len() - i,
    {
        let c = crew[i];
        if c.entity != controlled && c.pos.is_in(area) && c.requesting_wait {
            return true;
        }
        i = i + 1;
    }
    false
}

/// Whether the controlled character waits this tick without asking the player: where it repeats
/// no action, a crew member asks to wait, and the area is safe.
pub fn should_controlled_character_wait(has_repeating_action: bool, wait_requested: bool, area_is_safe: bool) -> (r:
    bool)
    ensures
        r == (!has_repeating_action && wait_requested && area_is_safe),
{
    !has_repeating_action && wait_requested && area_is_safe
}

/// Where the journey goes next: to the location picked, or, where the player must choose or
/// nothing is left, to the phase that says so (nothing left is a win).
pub fn next_location_phase(pick: PickResult) -> (r: Result<String, Phase>)
    ensures
        pick is Nothing ==> r matches Err(Phase::Stopped(StopType::Win)),
        pick matches PickResult::Location(l) ==> r matches Ok(n) && n@ == l@,
        pick matches PickResult::Choice(c) ==> r == Err::<String, Phase>(Phase::ChooseLocation(c)),
{
    match pick {
        PickResult::Nothing => Err(Phase::Stopped(StopType::Win)),
        PickResult::Location(l) => Ok(l),
        PickResult::Choice(c) => Err(Phase::ChooseLocation(c)),
    }
}

/// How a tick ends: stopped where the game is over, on to the next location where the ship
/// launches (true), else on to the next tick (false).
pub fn after_tick(player_state: Result<Option<EntityId>, StopType>, ship_launching: bool) -> (r: Result<bool, Phase>)
    ensures
        player_state matches Err(stop) ==> r == Err::<bool, Phase>(Phase::Stopped(stop)),
        player_state is Ok ==> r == Ok::<bool, Phase>(ship_launching),
{
    match player_state {
        Err(stop) => Err(Phase::Stopped(stop)),
        Ok(_) => Ok(ship_launching),
    }
}

/// The message that introduces the controlled character when the first location is loaded.
pub fn introduction_message(name: &str) -> (s: String)
    ensures
        s@ == "You're playing as the aftik "@ + name@ + "."@,
{
    concat3("You're playing as the aftik ", name, ".")
}

/// The message of a four-leaf clover that vanishes in the inventory of its holder.
pub fn clover_vanishes_message(holder_name: &str) -> (s: String)
    ensures
        s@ == "As "@ + holder_name@
            + " holds the four leaf clover, it disappears in their hand. (Luck has increased by 2 points)"@,
{
    concat3(
        "As ",
        holder_name,
        " holds the four leaf clover, it disappears in their hand. (Luck has increased by 2 points)",
    )
}


/// The messages of crew members that died: "{name} is dead." for each, in order.
pub fn death_messages(dead_names: &Vec<String>) -> (r: Vec<String>)
    ensures
        r.len() == dead_names.len(),
        forall|i: int| 0 <= i < dead_names.len() ==> r@[i]@ == dead_names@[i]@ + " is dead."@,
{
    let mut r: Vec<String> = Vec::new();
    let mut i: usize = 0;
    while i < dead_names.len()
        invariant
            i <= dead_names.len(),
            r.len() == i,
            forall|k: int| 0 <= k < i ==> r@[k]@ == dead_names@[k]@ + " is dead."@,
        decreases dead_names.len() - i,
    {
        r.push(concat(dead_names[i].as_str(), " is dead."));
        i = i + 1;
    }
    r
}

/// Where `c` stands among the dead crew members: its index, or the number of them where it is
/// not among them.
pub open spec fn death_index(dead: Seq<(EntityId, Option<String>)>, c: EntityId) -> int
    decreases dead.len(),
{
    if dead.len() == 0 {
        0
    } else if dead[0].0 == c {
        0
    } else {
        1 + death_index(dead.drop_first(), c)
    }
}

/// The name of the last crew member with a name among the first `upto` of the dead.
pub open spec fn last_name_before(dead: Seq<(EntityId, Option<String>)>, upto: int) -> Option<Seq<char>>
    decreases upto,
{
    if upto <= 0 {
        None
    } else {
        match dead[upto - 1].1 {
            Some(name) => Some(name@),
            None => last_name_before(dead, upto - 1),
        }
    }
}

/// The loss that crew member `c` remembers after the deaths: the crew leave the dead one at a
/// time, in order, and each named one is remembered by all who are crew at that moment, the
/// last such memory staying. So `c` remembers the last named one who died before it did.
pub open spec fn loss_memory(dead: Seq<(EntityId, Option<String>)>, c: EntityId) -> Option<Seq<char>> {
    last_name_before(dead, death_index(dead, c))
}

/// The memories of loss that the crew keep, for each crew member that has one, in the order of
/// `crew`.
pub open spec fn loss_memories(crew: Seq<EntityId>, dead: Seq<(EntityId, Option<String>)>) -> Seq<(EntityId, Seq<char>)>
    decreases crew.len(),
{
    if crew.len() == 0 {
        Seq::empty()
    } else {
        let earlier = loss_memories(crew.drop_last(), dead);
        match loss_memory(dead, crew.last()) {
            Some(name) => earlier.push((crew.last(), name)),
            None => earlier,
        }
    }
}

fn find_death_index(dead: &Vec<(EntityId, Option<String>)>, c: EntityId) -> (r: usize)
    ensures
        r == death_index(dead@, c),
        r <= dead.len(),
{
    let mut i: usize = 0;
    assert(dead@.skip(0) =~= dead@);
    while i < dead.len()
        invariant
            i <= dead.len(),
            death_index(dead@, c) == i + death_index(dead@.skip(i as int), c),
        decreases dead.len() - i,
    {
        assert(dead@.skip(i as int)[0] == dead@[i as int]);
        if dead[i].0 == c {
            return i;
        }
        assert(dead@.skip(i as int).drop_first() =~= dead@.skip(i + 1));
        i = i + 1;
    }
    assert(dead@.skip(i as int).len() == 0);
    i
}

fn find_last_name_before(dead: &Vec<(EntityId, Option<String>)>, upto: usize) -> (r: Option<String>)
    requires
        upto <= dead.len(),
    ensures
        match r {
            Some(name) => last_name_before(dead@, upto as int) == Some(name@),
            None => last_name_before(dead@, upto as int) is None,
        },
{
    let mut i: usize = upto;
    while i > 0
        invariant
            i <= upto <= dead.len(),
            last_name_before(dead@, upto as int) == last_name_before(dead@, i as int),
        decreases i,
    {
        match &dead[i - 1].1 {
            Some(name) => {
                return Some(name.clone());
            },
            None => {},
        }
        i = i - 1;
    }
    None
}

/// Which crew member remembers which lost crew member after the deaths, as [`loss_memory`]
/// says, for the crew members of `crew` that remember one.
pub fn crew_loss_memories(crew: &Vec<EntityId>, dead: &Vec<(EntityId, Option<String>)>) -> (r: Vec<(EntityId, String)>)
    ensures
        r@.map_values(|m: (EntityId, String)| (m.0, m.1@)) == loss_memories(crew@, dead@),
{
    let mut r: Vec<(EntityId, String)> = Vec::new();
    let mut i: usize = 0;
    while i < crew.len()
        invariant
            i <= crew.len(),
            r@.map_values(|m: (EntityId, String)| (m.0, m.1@)) == loss_memories(crew@.take(i as int), dead@),
        decreases crew.len() - i,
    {
        let ghost before = r@;
        let c = crew[i];
        let index = find_death_index(dead, c);
        let memory = find_last_name_before(dead, index);
        assert(crew@.take(i + 1).drop_last() =~= crew@.take(i as int));
        assert(crew@.take(i + 1).last() == c);
        match memory {
            Some(name) => {
                r.push((c, name));
                assert(r@.map_values(|m: (EntityId, String)| (m.0, m.1@)) =~= before.map_values(
                    |m: (EntityId, String)| (m.0, m.1@),
                ).push((c, r@[r.len() - 1].1@)));
            },
            None => {},
        }
        i = i + 1;
    }
    assert(crew@.take(crew.len() as int) =~= crew@);
    r
}

/// The message of the player taking over another crew member.
pub fn change_character_message(name: &str) -> (s: String)
    ensures
        s@ == "You're now playing as the aftik "@ + name@ + "."@,
{
    concat3("You're now playing as the aftik ", name, ".")
}

/// How a creature that was waiting reacts when the player comes: a creature that is hostile
/// but not aggressive threatens, an aggressive one attacks.
#[derive(Debug, Clone, Copy, PartialEq, Eq, Structural)]
pub enum WaitingReaction {
    Threatening,
    Attacking,
}

/// The reaction of a creature that was waiting: only where it is alive and in the player's
/// area, and then by whether it is hostile (`Some`) and aggressive (`true`).
pub fn waiting_reaction(in_player_area: bool, alive: bool, hostile_aggressive: Option<bool>) -> (r: Option<
    WaitingReaction,
>)
    ensures
        !(in_player_area && alive) ==> r is None,
        in_player_area && alive ==> r == match hostile_aggressive {
            None => None,
            Some(false) => Some(WaitingReaction::Threatening),
            Some(true) => Some(WaitingReaction::Attacking),
        },
{
    if !(in_player_area && alive) {
        return None;
    }
    match hostile_aggressive {
        None => None,
        Some(false) => Some(WaitingReaction::Threatening),
        Some(true) => Some(WaitingReaction::Attacking),
    }
}

} // verus!

verus! {

/// What the end of a turn reads of the game: the entities that were stunned when the turn began,
/// each with whether it is alive now; the stats of the holders of four-leaf clovers; and for each
/// clover, the position of its holder among them (none where the holder is gone).
pub struct TurnEndFacts {
    pub stunned: Vec<(EntityId, bool)>,
    pub holder_stats: Vec<Stats>,
    pub clover_holders: Vec<Option<usize>>,
}

/// What the end of a turn does: who is no longer stunned, who of them regained their balance
/// (to be named in the message), which clovers vanished (by position), and the holders' stats.
pub struct TurnEndEffects {
    pub unstunned: Vec<EntityId>,
    pub regained_balance: Vec<EntityId>,
    pub used_clovers: Vec<usize>,
    pub holder_stats: Vec<Stats>,
}

/// The entities that are alive, in order.
pub open spec fn alive_entities(s: Seq<(EntityId, bool)>) -> Seq<EntityId>
    decreases s.len(),
{
    if s.len() == 0 {
        Seq::empty()
    } else if s.last().1 {
        alive_entities(s.drop_last()).push(s.last().0)
    } else {
        alive_entities(s.drop_last())
    }
}

/// The clovers taken in turn: each whose holder is there and can take two more luck within
/// bounds gives it that luck and vanishes; the others stay. Gives the holders' stats after all
/// the clovers, and the positions of the clovers that vanished.
pub open spec fn clovers_applied(holders: Seq<Stats>, clovers: Seq<Option<usize>>) -> (Seq<Stats>, Seq<usize>)
    decreases clovers.len(),
{
    if clovers.len() == 0 {
        (holders, Seq::empty())
    } else {
        let (h, used) = clovers_applied(holders, clovers.drop_last());
        match clovers.last() {
            Some(i) => if i < h.len() && changes_in_bounds(h[i as int], four_leaf_clover_effect()) {
                (h.update(i as int, applied(h[i as int], four_leaf_clover_effect())), used.push((clovers.len() - 1) as usize))
            } else {
                (h, used)
            },
            None => (h, used),
        }
    }
}

/// What the end of a turn does, as the facts say: every entity stunned at the start is stunned
/// no longer, those alive regain their balance, and the clovers are applied in turn.
pub open spec fn turn_end_spec(f: TurnEndFacts, r: TurnEndEffects) -> bool {
    &&& r.unstunned@ == f.stunned@.map_values(|e: (EntityId, bool)| e.0)
    &&& r.regained_balance@ == alive_entities(f.stunned@)
    &&& r.holder_stats@ == clovers_applied(f.holder_stats@, f.clover_holders@).0
    &&& r.used_clovers@ == clovers_applied(f.holder_stats@, f.clover_holders@).1
}

/// What the end of a turn does, as [`turn_end_spec`] says. The luck of each holder must leave
/// room for two more in an `i16`.
pub fn end_of_turn(f: TurnEndFacts) -> (r: TurnEndEffects)
    requires
        forall|i: int|
            0 <= i < f.holder_stats.len() ==> changes_computable(#[trigger] f.holder_stats@[i], four_leaf_clover_effect()),
    ensures
        turn_end_spec(f, r),
{
    let mut unstunned: Vec<EntityId> = Vec::new();
    let mut regained_balance: Vec<EntityId> = Vec::new();
    let mut i: usize = 0;
    while i < f.stunned.len()
        invariant
            i <= f.stunned.len(),
            unstunned@ == f.stunned@.take(i as int).map_values(|e: (EntityId, bool)| e.0),
            regained_balance@ == alive_entities(f.stunned@.take(i as int)),
        decreases f.stunned.len() - i,
    {
        assert(f.stunned@.take(i + 1).drop_last() =~= f.stunned@.take(i as int));
        assert(f.stunned@.take(i + 1).last() == f.stunned@[i as int]);
        unstunned.push(f.stunned[i].0);
        if f.stunned[i].1 {
            regained_balance.push(f.stunned[i].0);
        }
        i = i + 1;
        assert(unstunned@ =~= f.stunned@.take(i as int).map_values(|e: (EntityId, bool)| e.0));
    }
    assert(f.stunned@.take(f.stunned.len() as int) =~= f.stunned@);
    let ghost start = f.holder_stats@;
    let ghost clovers = f.clover_holders@;
    let mut holder_stats = f.holder_stats;
    let mut used_clovers: Vec<usize> = Vec::new();
    let mut k: usize = 0;
    while k < f.clover_holders.len()
        invariant
            k <= clovers.len(),
            clovers == f.clover_holders@,
            (holder_stats@, used_clovers@) == clovers_applied(start, clovers.take(k as int)),
            forall|i: int|
                0 <= i < holder_stats.len() ==> changes_computable(#[trigger] holder_stats@[i], four_leaf_clover_effect()),
        decreases clovers.len() - k,
    {
        assert(clovers.take(k + 1).drop_last() =~= clovers.take(k as int));
        assert(clovers.take(k + 1).last() == clovers[k as int]);
        if let Some(h) = f.clover_holders[k] {
            if h < holder_stats.len() {
                let mut stats = holder_stats[h];
                match stats.try_change_in_bounds(four_leaf_clover_changes()) {
                    Ok(_) => {
                        holder_stats.set(h, stats);
                        used_clovers.push(k);
                    },
                    Err(_) => {},
                }
            }
        }
        k = k + 1;
    }
    assert(clovers.take(clovers.len() as int) =~= clovers);
    TurnEndEffects { unstunned, regained_balance, used_clovers, holder_stats }
}

} // verus!
