use super::{advance_at, done_err, find_target, first_target, names_view};
use crate::base::EntityId;
use crate::command::parse::Parse;
use crate::text::{concat, concat3, concat4};
use vstd::prelude::*;

verus! {

/// Where an item to wield is: in the hand, in the inventory, or on the ground.
#[derive(Clone, Copy, PartialEq, Eq, Structural)]
pub enum WieldItemTarget {
    InHand(EntityId),
    InInventory(EntityId),
    OnGround(EntityId),
}

/// A command about items, as read from the input.
#[derive(Clone, Copy, PartialEq, Eq, Structural)]
pub enum ItemCommand {
    TakeAll,
    Take(EntityId),
    Search(EntityId),
    Give { receiver: EntityId, item: EntityId },
    Wield(WieldItemTarget),
    Use(EntityId),
}

/// The names by which the player can refer to the targets of the item commands, each with its
/// entity, in the order in which they are tried, and the name of the controlled character.
pub struct ItemCommandTargets {
    /// Items in the area, the closest first.
    pub items_nearby: Vec<(String, EntityId)>,
    pub containers: Vec<(String, EntityId)>,
    pub crew_characters: Vec<(String, EntityId)>,
    pub inventory_items: Vec<(String, EntityId)>,
    pub items_in_hand: Vec<(String, EntityId)>,
    /// Items in the area that can be wielded, the closest first.
    pub wieldables_nearby: Vec<(String, EntityId)>,
    pub controlled_name: String,
}

/// A command of `input` read from `start`, with nothing after it.
pub open spec fn done(input: Seq<char>, start: nat, c: ItemCommand) -> Result<ItemCommand, Seq<char>> {
    if start == input.len() {
        Ok(c)
    } else {
        Err(done_err(input, start))
    }
}

/// The names of the items to wield, with where each is: in hand, in the inventory, nearby.
pub open spec fn wield_targets(t: ItemCommandTargets) -> Seq<(Seq<char>, WieldItemTarget)> {
    names_view(t.items_in_hand@).map_values(|e: (Seq<char>, EntityId)| (e.0, WieldItemTarget::InHand(e.1)))
        + names_view(t.inventory_items@).map_values(
        |e: (Seq<char>, EntityId)| (e.0, WieldItemTarget::InInventory(e.1)),
    ) + names_view(t.wieldables_nearby@).map_values(
        |e: (Seq<char>, EntityId)| (e.0, WieldItemTarget::OnGround(e.1)),
    )
}

/// The first wield target whose name the input goes on with, and where the input goes on.
pub open spec fn first_wield_target(input: Seq<char>, start: nat, names: Seq<(Seq<char>, WieldItemTarget)>) -> Option<
    (nat, WieldItemTarget),
>
    decreases names.len(),
{
    if names.len() == 0 {
        None
    } else {
        match advance_at(input, start, names[0].0) {
            Some(s) => Some((s, names[0].1)),
            None => first_wield_target(input, start, names.drop_first()),
        }
    }
}

/// What the item commands read from the input; none where it starts with none of their words.
pub open spec fn item_command_spec(input: Seq<char>, t: ItemCommandTargets) -> Option<Result<ItemCommand, Seq<char>>> {
    if let Some(s) = advance_at(input, 0, "take"@) {
        Some(
            if let Some(s2) = advance_at(input, s, "all"@) {
                done(input, s2, ItemCommand::TakeAll)
            } else {
                match first_target(input, s, names_view(t.items_nearby@)) {
                    Some((s2, e)) => done(input, s2, ItemCommand::Take(e)),
                    None => Err("There is no "@ + input.skip(s as int) + " here to pick up."@),
                }
            },
        )
    } else if let Some(s) = advance_at(input, 0, "search"@) {
        Some(
            match first_target(input, s, names_view(t.containers@)) {
                Some((s2, e)) => done(input, s2, ItemCommand::Search(e)),
                None => Err("\""@ + input.skip(s as int) + "\" is not a valid searchable container."@),
            },
        )
    } else if let Some(s) = advance_at(input, 0, "give"@) {
        Some(
            match first_target(input, s, names_view(t.crew_characters@)) {
                Some((s2, receiver)) => match first_target(
                    input,
                    s2,
                    names_view(t.inventory_items@) + names_view(t.items_in_hand@),
                ) {
                    Some((s3, item)) => done(input, s3, ItemCommand::Give { receiver, item }),
                    None => Err(t.controlled_name@ + " has no "@ + input.skip(s2 as int) + " to give."@),
                },
                None => Err("\""@ + input.skip(s as int) + "\" is not a valid target."@),
            },
        )
    } else if let Some(s) = advance_at(input, 0, "wield"@) {
        Some(
            match first_wield_target(input, s, wield_targets(t)) {
                Some((s2, w)) => done(input, s2, ItemCommand::Wield(w)),
                None => Err("There is no "@ + input.skip(s as int) + " that "@ + t.controlled_name@ + " can wield."@),
            },
        )
    } else if let Some(s) = advance_at(input, 0, "use"@) {
        Some(
            match first_target(input, s, names_view(t.items_in_hand@) + names_view(t.inventory_items@)) {
                Some((s2, e)) => done(input, s2, ItemCommand::Use(e)),
                None => Err("No held item by the name \""@ + input.skip(s as int) + "\"."@),
            },
        )
    } else {
        None
    }
}

/// Whether the result is what the spec reads.
pub open spec fn item_read_as(r: Option<Result<ItemCommand, String>>, expected: Option<Result<ItemCommand, Seq<char>>>) -> bool {
    match expected {
        None => r is None,
        Some(Ok(c)) => r == Some(Ok::<ItemCommand, String>(c)),
        Some(Err(m)) => r matches Some(Err(e)) && e@ == m,
    }
}

fn done_or_err<'a>(p: &Parse<'a>, c: ItemCommand) -> (r: Result<ItemCommand, String>)
    ensures
        match done(p.input_view(), p.start_view(), c) {
            Ok(x) => r == Ok::<ItemCommand, String>(x),
            Err(m) => r matches Err(e) && e@ == m,
        },
{
    if p.active_len() == 0 {
        Ok(c)
    } else {
        let consumed = p.consumed_input();
        Err(concat3("Unexpected argument after \"", consumed.as_str(), "\""))
    }
}

fn append_names(a: &Vec<(String, EntityId)>, b: &Vec<(String, EntityId)>) -> (r: Vec<(String, EntityId)>)
    ensures
        names_view(r@) == names_view(a@) + names_view(b@),
{
    let mut r: Vec<(String, EntityId)> = Vec::new();
    let mut i: usize = 0;
    while i < a.len()
        invariant
            i <= a.len(),
            r.len() == i,
            forall|k: int| 0 <= k < i ==> (#[trigger] r@[k]).0@ == a@[k].0@ && r@[k].1 == a@[k].1,
        decreases a.len() - i,
    {
        let name = a[i].0.clone();
        r.push((name, a[i].1));
        i = i + 1;
    }
    let mut j: usize = 0;
    while j < b.len()
        invariant
            j <= b.len(),
            r.len() == a.len() + j,
            forall|k: int| 0 <= k < a.len() ==> (#[trigger] r@[k]).0@ == a@[k].0@ && r@[k].1 == a@[k].1,
            forall|k: int| 0 <= k < j ==> (#[trigger] r@[a.len() + k]).0@ == b@[k].0@ && r@[a.len() + k].1 == b@[k].1,
        decreases b.len() - j,
    {
        let name = b[j].0.clone();
        r.push((name, b[j].1));
        j = j + 1;
    }
    assert(names_view(r@) =~= names_view(a@) + names_view(b@)) by {
        assert forall|k: int| 0 <= k < r.len() implies #[trigger] names_view(r@)[k] == (names_view(a@) + names_view(b@))[k] by {
            if k >= a.len() {
                assert(r@[a.len() + (k - a.len())] == r@[k]);
            }
        }
    }
    r
}

/// The wield targets as pairs of text and target.
pub open spec fn wield_view(v: Seq<(String, WieldItemTarget)>) -> Seq<(Seq<char>, WieldItemTarget)> {
    v.map_values(|e: (String, WieldItemTarget)| (e.0@, e.1))
}

fn wield_names(t: &ItemCommandTargets) -> (r: Vec<(String, WieldItemTarget)>)
    ensures
        wield_view(r@) == wield_targets(*t),
{
    let h = &t.items_in_hand;
    let v = &t.inventory_items;
    let g = &t.wieldables_nearby;
    let mut r: Vec<(String, WieldItemTarget)> = Vec::new();
    let mut i: usize = 0;
    while i < h.len()
        invariant
            i <= h.len(),
            r.len() == i,
            forall|k: int| 0 <= k < i ==> (#[trigger] r@[k]).0@ == h@[k].0@ && r@[k].1 == WieldItemTarget::InHand(h@[k].1),
        decreases h.len() - i,
    {
        let name = h[i].0.clone();
        r.push((name, WieldItemTarget::InHand(h[i].1)));
        i = i + 1;
    }
    let mut j: usize = 0;
    while j < v.len()
        invariant
            j <= v.len(),
            r.len() == h.len() + j,
            forall|k: int| 0 <= k < h.len() ==> (#[trigger] r@[k]).0@ == h@[k].0@ && r@[k].1 == WieldItemTarget::InHand(h@[k].1),
            forall|k: int|
                0 <= k < j ==> (#[trigger] r@[h.len() + k]).0@ == v@[k].0@ && r@[h.len() + k].1 == WieldItemTarget::InInventory(
                    v@[k].1,
                ),
        decreases v.len() - j,
    {
        let name = v[j].0.clone();
        r.push((name, WieldItemTarget::InInventory(v[j].1)));
        j = j + 1;
    }
    let mut l: usize = 0;
    while l < g.len()
        invariant
            l <= g.len(),
            r.len() == h.len() + v.len() + l,
            forall|k: int| 0 <= k < h.len() ==> (#[trigger] r@[k]).0@ == h@[k].0@ && r@[k].1 == WieldItemTarget::InHand(h@[k].1),
            forall|k: int|
                0 <= k < v.len() ==> (#[trigger] r@[h.len() + k]).0@ == v@[k].0@ && r@[h.len() + k].1 == WieldItemTarget::InInventory(
                    v@[k].1,
                ),
            forall|k: int|
                0 <= k < l ==> (#[trigger] r@[h.len() + v.len() + k]).0@ == g@[k].0@ && r@[h.len() + v.len() + k].1
                    == WieldItemTarget::OnGround(g@[k].1),
        decreases g.len() - l,
    {
        let name = g[l].0.clone();
        r.push((name, WieldItemTarget::OnGround(g[l].1)));
        l = l + 1;
    }
    assert(wield_view(r@) =~= wield_targets(*t)) by {
        assert forall|k: int| 0 <= k < r.len() implies #[trigger] wield_view(r@)[k] == wield_targets(*t)[k] by {
            if k >= h.len() + v.len() {
                assert(r@[h.len() + v.len() + (k - h.len() - v.len())] == r@[k]);
            } else if k >= h.len() {
                assert(r@[h.len() + (k - h.len())] == r@[k]);
            }
        }
    }
    r
}

fn find_wield_target<'a>(p: &Parse<'a>, t: &ItemCommandTargets) -> (r: Option<(Parse<'a>, WieldItemTarget)>)
    ensures
        r is None <==> first_wield_target(p.input_view(), p.start_view(), wield_targets(*t)) is None,
        r matches Some(found) ==> found.0.input_view() == p.input_view() && first_wield_target(
            p.input_view(),
            p.start_view(),
            wield_targets(*t),
        ) == Some((found.0.start_view(), found.1)),
{
    let names = wield_names(t);
    let ghost all = wield_view(names@);
    let mut k: usize = 0;
    assert(all.skip(0) =~= all);
    while k < names.len()
        invariant
            k <= names.len(),
            all == wield_view(names@),
            all == wield_targets(*t),
            first_wield_target(p.input_view(), p.start_view(), all) == first_wield_target(
                p.input_view(),
                p.start_view(),
                all.skip(k as int),
            ),
        decreases names.len() - k,
    {
        assert(all.skip(k as int)[0] == (names@[k as int].0@, names@[k as int].1));
        assert(all.skip(k as int).drop_first() =~= all.skip(k + 1));
        match p.try_advance(names[k].0.as_str()) {
            Some(q) => {
                return Some((q, names[k].1));
            },
            None => {},
        }
        k = k + 1;
    }
    None
}

/// Reads a command about items: where the input starts with "take", "search", "give", "wield"
/// or "use", what that rule reads (the command, or the failure to show); none otherwise.
pub fn parse_item_command(input: &str, t: &ItemCommandTargets) -> (r: Option<Result<ItemCommand, String>>)
    ensures
        item_read_as(r, item_command_spec(input@, *t)),
{
    let p = Parse::new(input);
    proof {
        reveal_strlit("take");
        reveal_strlit("all");
        reveal_strlit("search");
        reveal_strlit("give");
        reveal_strlit("wield");
        reveal_strlit("use");
    }
    if let Some(q) = p.try_advance("take") {
        if let Some(q2) = q.try_advance("all") {
            return Some(done_or_err(&q2, ItemCommand::TakeAll));
        }
        return Some(
            match find_target(&q, &t.items_nearby) {
                Some((q2, e)) => done_or_err(&q2, ItemCommand::Take(e)),
                None => {
                    let rest = q.active_input();
                    Err(concat3("There is no ", rest.as_str(), " here to pick up."))
                },
            },
        );
    }
    if let Some(q) = p.try_advance("search") {
        return Some(
            match find_target(&q, &t.containers) {
                Some((q2, e)) => done_or_err(&q2, ItemCommand::Search(e)),
                None => {
                    let rest = q.active_input();
                    Err(concat3("\"", rest.as_str(), "\" is not a valid searchable container."))
                },
            },
        );
    }
    if let Some(q) = p.try_advance("give") {
        return Some(
            match find_target(&q, &t.crew_characters) {
                Some((q2, receiver)) => {
                    let items = append_names(&t.inventory_items, &t.items_in_hand);
                    match find_target(&q2, &items) {
                        Some((q3, item)) => done_or_err(&q3, ItemCommand::Give { receiver, item }),
                        None => {
                            let rest = q2.active_input();
                            Err(concat4(t.controlled_name.as_str(), " has no ", rest.as_str(), " to give."))
                        },
                    }
                },
                None => {
                    let rest = q.active_input();
                    Err(concat3("\"", rest.as_str(), "\" is not a valid target."))
                },
            },
        );
    }
    if let Some(q) = p.try_advance("wield") {
        return Some(
            match find_wield_target(&q, t) {
                Some((q2, w)) => done_or_err(&q2, ItemCommand::Wield(w)),
                None => {
                    let rest = q.active_input();
                    let head = concat3("There is no ", rest.as_str(), " that ");
                    Err(concat3(head.as_str(), t.controlled_name.as_str(), " can wield."))
                },
            },
        );
    }
    if let Some(q) = p.try_advance("use") {
        let items = append_names(&t.items_in_hand, &t.inventory_items);
        return Some(
            match find_target(&q, &items) {
                Some((q2, e)) => done_or_err(&q2, ItemCommand::Use(e)),
                None => {
                    let rest = q.active_input();
                    Err(concat3("No held item by the name \"", rest.as_str(), "\"."))
                },
            },
        );
    }
    None
}


/// Checks "take all": there must be items in the area, and no foes left in it.
pub fn check_take_all(items_here: bool, area_is_safe: bool) -> (r: Result<(), String>)
    ensures
        !items_here ==> (r matches Err(e) && e@ == "There are no items to take here."@),
        items_here && !area_is_safe ==> (r matches Err(e) && e@
            == "You should take care of all foes here before taking all items."@),
        items_here && area_is_safe ==> r is Ok,
{
    if !items_here {
        return Err("There are no items to take here.".to_owned());
    }
    if !area_is_safe {
        return Err("You should take care of all foes here before taking all items.".to_owned());
    }
    Ok(())
}

/// Checks "give": not to oneself, and the receiver must be within reach (`reach` holds the
/// failure of that check).
pub fn check_give_command(controlled_name: &str, receiver_is_controlled: bool, reach: Result<(), String>) -> (r: Result<
    (),
    String,
>)
    ensures
        receiver_is_controlled ==> (r matches Err(e) && e@ == controlled_name@ + " can't give an item to themselves."@),
        !receiver_is_controlled ==> match reach {
            Ok(()) => r is Ok,
            Err(m) => r matches Err(e) && e@ == m@,
        },
{
    if receiver_is_controlled {
        return Err(concat(controlled_name, " can't give an item to themselves."));
    }
    reach
}

/// Checks "wield": an item in the hand is wielded already; one on the ground must be within
/// reach (`reach`); and the item must be a weapon. Gives the item to wield.
pub fn check_wield(
    controlled_name: &str,
    target: WieldItemTarget,
    item_base_name: &str,
    item_definite_name: &str,
    reach: Result<(), String>,
    is_weapon: bool,
) -> (r: Result<EntityId, String>)
    ensures
        target matches WieldItemTarget::InHand(_) ==> (r matches Err(e) && e@ == controlled_name@
            + " is already wielding a "@ + item_base_name@ + "."@),
        target matches WieldItemTarget::OnGround(i) ==> match reach {
            Err(m) => r matches Err(e) && e@ == m@,
            Ok(()) => if is_weapon {
                r == Ok::<EntityId, String>(i)
            } else {
                r matches Err(e) && e@ == item_definite_name@ + " is not a wieldable item."@
            },
        },
        target matches WieldItemTarget::InInventory(i) ==> (if is_weapon {
            r == Ok::<EntityId, String>(i)
        } else {
            r matches Err(e) && e@ == item_definite_name@ + " is not a wieldable item."@
        }),
{
    let item = match target {
        WieldItemTarget::InHand(_) => {
            return Err(concat3(controlled_name, " is already wielding a ", concat(item_base_name, ".").as_str()));
        },
        WieldItemTarget::InInventory(i) => i,
        WieldItemTarget::OnGround(i) => {
            match reach {
                Err(m) => return Err(m),
                Ok(()) => {},
            }
            i
        },
    };
    if !is_weapon {
        return Err(concat(item_definite_name, " is not a wieldable item."));
    }
    Ok(item)
}

/// What kind of item a "use" command is about.
#[derive(Debug, Clone, Copy, PartialEq, Eq, Structural)]
pub enum UsableKind {
    FuelCan,
    Medkit,
    BlackOrb,
    Wieldable,
    Other,
}

/// What a "use" command leads to: refuelling the ship, using the item, or wielding it.
#[derive(Debug, Clone, Copy, PartialEq, Eq, Structural)]
pub enum UsePlan {
    Refuel,
    Use,
    Wield,
}

/// Checks "use": a fuel can refuels the ship; a medkit is used by a hurt character only; a black
/// orb is used; a wieldable item is wielded unless it is in hand already; other items fail.
pub fn plan_item_use(kind: UsableKind, controlled_name: &str, controlled_is_hurt: bool, item_name: &str, item_in_hand: bool) -> (r:
    Result<UsePlan, String>)
    ensures
        kind == UsableKind::FuelCan ==> r == Ok::<UsePlan, String>(UsePlan::Refuel),
        kind == UsableKind::Medkit ==> (if controlled_is_hurt {
            r == Ok::<UsePlan, String>(UsePlan::Use)
        } else {
            r matches Err(e) && e@ == controlled_name@ + " is not hurt, and does not need to use the medkit."@
        }),
        kind == UsableKind::BlackOrb ==> r == Ok::<UsePlan, String>(UsePlan::Use),
        kind == UsableKind::Wieldable ==> (if item_in_hand {
            r matches Err(e) && e@ == item_name@ + " is already being held."@
        } else {
            r == Ok::<UsePlan, String>(UsePlan::Wield)
        }),
        kind == UsableKind::Other ==> (r matches Err(e) && e@ == "The item can not be used in any meaningful way."@),
{
    match kind {
        UsableKind::FuelCan => Ok(UsePlan::Refuel),
        UsableKind::Medkit => {
            if !controlled_is_hurt {
                return Err(concat(controlled_name, " is not hurt, and does not need to use the medkit."));
            }
            Ok(UsePlan::Use)
        },
        UsableKind::BlackOrb => Ok(UsePlan::Use),
        UsableKind::Wieldable => {
            if item_in_hand {
                return Err(concat(item_name, " is already being held."));
            }
            Ok(UsePlan::Wield)
        },
        UsableKind::Other => Err("The item can not be used in any meaningful way.".to_owned()),
    }
}

} // verus!
