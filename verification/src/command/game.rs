pub mod combat;
pub mod dialogue;
pub mod item;

use super::parse::Parse;
use crate::base::EntityId;
use crate::base::area::ShipStatus;
use crate::base::status::Stamina;
use crate::sorting::{is_stable_order, stable_order};
use crate::base::position::{Blockage, Occupant, Placement, Pos, blocked_spec, check_is_blocked};
use crate::text::{concat, concat3, concat4, trim_end};
use vstd::prelude::*;

verus! {

/// Where the input goes on after `word` read from `start`: past the word, and the space after
/// it if there is one; none where the input does not go on with the word (ignoring ASCII case)
/// followed by a space or its end.
pub open spec fn advance_at(input: Seq<char>, start: nat, word: Seq<char>) -> Option<nat> {
    let rest = input.skip(start as int);
    if !super::parse::matches_prefix(rest, word) {
        None
    } else if rest.len() == word.len() {
        Some((start + word.len()) as nat)
    } else if rest[word.len() as int] == ' ' {
        Some((start + word.len() + 1) as nat)
    } else {
        None
    }
}

/// The first entry whose name the input goes on with, and where the input goes on after it.
pub open spec fn first_target(input: Seq<char>, start: nat, names: Seq<(Seq<char>, EntityId)>) -> Option<
    (nat, EntityId),
>
    decreases names.len(),
{
    if names.len() == 0 {
        None
    } else {
        match advance_at(input, start, names[0].0) {
            Some(s) => Some((s, names[0].1)),
            None => first_target(input, start, names.drop_first()),
        }
    }
}

/// The failure for input left after a complete command.
pub open spec fn done_err(input: Seq<char>, start: nat) -> Seq<char> {
    "Unexpected argument after \""@ + trim_end(input.take(start as int)) + "\""@
}

/// The failure for input that no rule accepts after what was read.
pub open spec fn default_err_at(input: Seq<char>, start: nat) -> Seq<char> {
    let consumed = trim_end(input.take(start as int));
    let active = input.skip(start as int);
    if consumed.len() == 0 {
        "Unexpected input: \""@ + active + "\""@
    } else {
        "Unexpected input after \""@ + consumed + "\": \""@ + active + "\""@
    }
}

/// A command of the game's main grammar, as read from the input.
pub enum GameCommand {
    Enter(EntityId),
    Force(EntityId),
    GoToShip,
    Wait,
    Rest,
    RefuelShip,
    LaunchShip,
    Status,
    Check(EntityId),
    Control(EntityId),
    Open(EntityId),
    Tame(EntityId),
    Name(EntityId, String),
}

/// A command as read, with the new name of a `name` command as text.
pub enum CommandSyntax {
    Enter(EntityId),
    Force(EntityId),
    GoToShip,
    Wait,
    Rest,
    RefuelShip,
    LaunchShip,
    Status,
    Check(EntityId),
    Control(EntityId),
    Open(EntityId),
    Tame(EntityId),
    Name(EntityId, Seq<char>),
}

/// The command as read.
pub open spec fn syntax_of(c: GameCommand) -> CommandSyntax {
    match c {
        GameCommand::Enter(e) => CommandSyntax::Enter(e),
        GameCommand::Force(e) => CommandSyntax::Force(e),
        GameCommand::GoToShip => CommandSyntax::GoToShip,
        GameCommand::Wait => CommandSyntax::Wait,
        GameCommand::Rest => CommandSyntax::Rest,
        GameCommand::RefuelShip => CommandSyntax::RefuelShip,
        GameCommand::LaunchShip => CommandSyntax::LaunchShip,
        GameCommand::Status => CommandSyntax::Status,
        GameCommand::Check(e) => CommandSyntax::Check(e),
        GameCommand::Control(e) => CommandSyntax::Control(e),
        GameCommand::Open(e) => CommandSyntax::Open(e),
        GameCommand::Tame(e) => CommandSyntax::Tame(e),
        GameCommand::Name(e, n) => CommandSyntax::Name(e, n@),
    }
}

/// The names by which the player can refer to the targets of each command, each with its
/// entity, in the order in which they are tried.
pub struct CommandTargets {
    pub doors: Vec<(String, EntityId)>,
    pub checkable_items: Vec<(String, EntityId)>,
    pub crew_characters: Vec<(String, EntityId)>,
    pub fortuna_chests: Vec<(String, EntityId)>,
    pub hostiles: Vec<(String, EntityId)>,
    pub crew_in_room: Vec<(String, EntityId)>,
}

/// The names with their entities, the names as text.
pub open spec fn names_view(v: Seq<(String, EntityId)>) -> Seq<(Seq<char>, EntityId)> {
    v.map_values(|e: (String, EntityId)| (e.0@, e.1))
}

/// A command that takes a target from `names` and nothing after it.
pub open spec fn targeted(
    input: Seq<char>,
    start: nat,
    names: Seq<(Seq<char>, EntityId)>,
    make: spec_fn(EntityId) -> CommandSyntax,
    failure: Seq<char>,
) -> Result<CommandSyntax, Seq<char>> {
    match first_target(input, start, names) {
        Some((s, e)) => if s == input.len() {
            Ok(make(e))
        } else {
            Err(done_err(input, s))
        },
        None => Err(failure),
    }
}

/// A command of one word and nothing after it.
pub open spec fn single(input: Seq<char>, start: nat, command: CommandSyntax) -> Result<CommandSyntax, Seq<char>> {
    if start == input.len() {
        Ok(command)
    } else {
        Err(done_err(input, start))
    }
}

/// A command of a word and "ship", such as "launch ship".
pub open spec fn with_ship(input: Seq<char>, start: nat, command: CommandSyntax) -> Result<CommandSyntax, Seq<char>> {
    match advance_at(input, start, "ship"@) {
        Some(s) => single(input, s, command),
        None => Err(default_err_at(input, start)),
    }
}

/// What the main grammar reads from the input: the first rule whose first word the input
/// starts with decides; none where no rule's first word matches.
pub open spec fn game_command_spec(input: Seq<char>, t: CommandTargets) -> Option<Result<CommandSyntax, Seq<char>>> {
    let not_valid = |rest: Seq<char>| "\""@ + rest + "\" is not a valid target."@;
    if let Some(s) = advance_at(input, 0, "enter"@) {
        Some(targeted(input, s, names_view(t.doors@), |e| CommandSyntax::Enter(e), "There is no such door or path here to go through."@))
    } else if let Some(s) = advance_at(input, 0, "force"@) {
        Some(targeted(input, s, names_view(t.doors@), |e| CommandSyntax::Force(e), "There is no such door here."@))
    } else if let Some(s) = advance_at(input, 0, "go to"@) {
        Some(with_ship(input, s, CommandSyntax::GoToShip))
    } else if let Some(s) = advance_at(input, 0, "wait"@) {
        Some(single(input, s, CommandSyntax::Wait))
    } else if let Some(s) = advance_at(input, 0, "rest"@) {
        Some(single(input, s, CommandSyntax::Rest))
    } else if let Some(s) = advance_at(input, 0, "refuel"@) {
        Some(with_ship(input, s, CommandSyntax::RefuelShip))
    } else if let Some(s) = advance_at(input, 0, "launch"@) {
        Some(with_ship(input, s, CommandSyntax::LaunchShip))
    } else if let Some(s) = advance_at(input, 0, "status"@) {
        Some(single(input, s, CommandSyntax::Status))
    } else if let Some(s) = advance_at(input, 0, "check"@) {
        Some(targeted(input, s, names_view(t.checkable_items@), |e| CommandSyntax::Check(e),
            "There is no item by the name \""@ + input.skip(s as int) + "\" here."@))
    } else if let Some(s) = advance_at(input, 0, "control"@) {
        Some(targeted(input, s, names_view(t.crew_characters@), |e| CommandSyntax::Control(e),
            "There is no crew member by the name \""@ + input.skip(s as int) + "\"."@))
    } else if let Some(s) = advance_at(input, 0, "open"@) {
        Some(targeted(input, s, names_view(t.fortuna_chests@), |e| CommandSyntax::Open(e), not_valid(input.skip(s as int))))
    } else if let Some(s) = advance_at(input, 0, "tame"@) {
        Some(targeted(input, s, names_view(t.hostiles@), |e| CommandSyntax::Tame(e), not_valid(input.skip(s as int))))
    } else if let Some(s) = advance_at(input, 0, "name"@) {
        Some(match first_target(input, s, names_view(t.crew_in_room@)) {
            Some((s2, e)) => Ok(CommandSyntax::Name(e, input.skip(s2 as int))),
            None => Err(not_valid(input.skip(s as int))),
        })
    } else {
        None
    }
}

/// Whether the result is what the spec reads.
pub open spec fn read_as(r: Option<Result<GameCommand, String>>, expected: Option<Result<CommandSyntax, Seq<char>>>) -> bool {
    match expected {
        None => r is None,
        Some(Ok(c)) => r matches Some(Ok(g)) && syntax_of(g) == c,
        Some(Err(m)) => r matches Some(Err(e)) && e@ == m,
    }
}

/// Whether the result is what the spec reads, for a rule that is known to apply.
pub open spec fn read_rule_as(r: Result<GameCommand, String>, expected: Result<CommandSyntax, Seq<char>>) -> bool {
    match expected {
        Ok(c) => r matches Ok(g) && syntax_of(g) == c,
        Err(m) => r matches Err(e) && e@ == m,
    }
}

pub(crate) fn find_target<'a>(p: &Parse<'a>, names: &Vec<(String, EntityId)>) -> (r: Option<(Parse<'a>, EntityId)>)
    ensures
        r is None <==> first_target(p.input_view(), p.start_view(), names_view(names@)) is None,
        r matches Some(found) ==> found.0.input_view() == p.input_view() && first_target(
            p.input_view(),
            p.start_view(),
            names_view(names@),
        ) == Some((found.0.start_view(), found.1)),
{
    let ghost all = names_view(names@);
    let mut i: usize = 0;
    assert(all.skip(0) =~= all);
    while i < names.len()
        invariant
            i <= names.len(),
            all == names_view(names@),
            first_target(p.input_view(), p.start_view(), all) == first_target(
                p.input_view(),
                p.start_view(),
                all.skip(i as int),
            ),
        decreases names.len() - i,
    {
        assert(all.skip(i as int)[0] == (names@[i as int].0@, names@[i as int].1));
        assert(all.skip(i as int).drop_first() =~= all.skip(i + 1));
        match p.try_advance(names[i].0.as_str()) {
            Some(q) => {
                return Some((q, names[i].1));
            },
            None => {},
        }
        i = i + 1;
    }
    None
}

pub(crate) fn finish<'a>(p: &Parse<'a>, command: GameCommand) -> (r: Result<GameCommand, String>)
    ensures
        read_rule_as(r, single(p.input_view(), p.start_view(), syntax_of(command))),
{
    if p.active_len() == 0 {
        Ok(command)
    } else {
        let consumed = p.consumed_input();
        Err(concat3("Unexpected argument after \"", consumed.as_str(), "\""))
    }
}

fn finish_targeted<'a>(p: &Parse<'a>, names: &Vec<(String, EntityId)>, kind: u8, failure: String) -> (r: Result<
    GameCommand,
    String,
>)
    requires
        kind < 6,
    ensures
        read_rule_as(
            r,
            targeted(p.input_view(), p.start_view(), names_view(names@), |e| command_of_kind(kind, e), failure@),
        ),
{
    match find_target(p, names) {
        Some((q, e)) => finish(&q, make_command(kind, e)),
        None => Err(failure),
    }
}

/// The targeted command of each kind.
pub open spec fn command_of_kind(kind: u8, e: EntityId) -> CommandSyntax {
    if kind == 0 {
        CommandSyntax::Enter(e)
    } else if kind == 1 {
        CommandSyntax::Force(e)
    } else if kind == 2 {
        CommandSyntax::Check(e)
    } else if kind == 3 {
        CommandSyntax::Control(e)
    } else if kind == 4 {
        CommandSyntax::Open(e)
    } else {
        CommandSyntax::Tame(e)
    }
}

fn make_command(kind: u8, e: EntityId) -> (c: GameCommand)
    requires
        kind < 6,
    ensures
        syntax_of(c) == command_of_kind(kind, e),
{
    if kind == 0 {
        GameCommand::Enter(e)
    } else if kind == 1 {
        GameCommand::Force(e)
    } else if kind == 2 {
        GameCommand::Check(e)
    } else if kind == 3 {
        GameCommand::Control(e)
    } else if kind == 4 {
        GameCommand::Open(e)
    } else {
        GameCommand::Tame(e)
    }
}

pub(crate) fn finish_with_ship<'a>(p: &Parse<'a>, command: GameCommand) -> (r: Result<GameCommand, String>)
    ensures
        read_rule_as(r, with_ship(p.input_view(), p.start_view(), syntax_of(command))),
{
    match p.try_advance("ship") {
        Some(q) => finish(&q, command),
        None => p.default_err(),
    }
}

/// Reads a command of the game's main grammar: where the input starts with the first word of
/// a rule, what that rule reads (the command, or the failure to show); none where it starts with
/// no rule's first word.
pub fn parse_game_command(input: &str, t: &CommandTargets) -> (r: Option<Result<GameCommand, String>>)
    ensures
        read_as(r, game_command_spec(input@, *t)),
{
    let p = Parse::new(input);
    proof {
        reveal_strlit("enter");
        reveal_strlit("force");
        reveal_strlit("go to");
        reveal_strlit("wait");
        reveal_strlit("rest");
        reveal_strlit("refuel");
        reveal_strlit("launch");
        reveal_strlit("status");
        reveal_strlit("check");
        reveal_strlit("control");
        reveal_strlit("open");
        reveal_strlit("tame");
        reveal_strlit("name");
        reveal_strlit("ship");
    }
    if let Some(q) = p.try_advance("enter") {
        let r = finish_targeted(&q, &t.doors, 0, "There is no such door or path here to go through.".to_owned());
        assert((|e| CommandSyntax::Enter(e)) =~= (|e| command_of_kind(0, e)));
        return Some(r);
    }
    if let Some(q) = p.try_advance("force") {
        let r = finish_targeted(&q, &t.doors, 1, "There is no such door here.".to_owned());
        assert((|e| CommandSyntax::Force(e)) =~= (|e| command_of_kind(1, e)));
        return Some(r);
    }
    if let Some(q) = p.try_advance("go to") {
        return Some(finish_with_ship(&q, GameCommand::GoToShip));
    }
    if let Some(q) = p.try_advance("wait") {
        return Some(finish(&q, GameCommand::Wait));
    }
    if let Some(q) = p.try_advance("rest") {
        return Some(finish(&q, GameCommand::Rest));
    }
    if let Some(q) = p.try_advance("refuel") {
        return Some(finish_with_ship(&q, GameCommand::RefuelShip));
    }
    if let Some(q) = p.try_advance("launch") {
        return Some(finish_with_ship(&q, GameCommand::LaunchShip));
    }
    if let Some(q) = p.try_advance("status") {
        return Some(finish(&q, GameCommand::Status));
    }
    if let Some(q) = p.try_advance("check") {
        let rest = q.active_input();
        let failure = concat3("There is no item by the name \"", rest.as_str(), "\" here.");
        let r = finish_targeted(&q, &t.checkable_items, 2, failure);
        assert((|e| CommandSyntax::Check(e)) =~= (|e| command_of_kind(2, e)));
        return Some(r);
    }
    if let Some(q) = p.try_advance("control") {
        let rest = q.active_input();
        let failure = concat3("There is no crew member by the name \"", rest.as_str(), "\".");
        let r = finish_targeted(&q, &t.crew_characters, 3, failure);
        assert((|e| CommandSyntax::Control(e)) =~= (|e| command_of_kind(3, e)));
        return Some(r);
    }
    if let Some(q) = p.try_advance("open") {
        let rest = q.active_input();
        let failure = concat3("\"", rest.as_str(), "\" is not a valid target.");
        let r = finish_targeted(&q, &t.fortuna_chests, 4, failure);
        assert((|e| CommandSyntax::Open(e)) =~= (|e| command_of_kind(4, e)));
        return Some(r);
    }
    if let Some(q) = p.try_advance("tame") {
        let rest = q.active_input();
        let failure = concat3("\"", rest.as_str(), "\" is not a valid target.");
        let r = finish_targeted(&q, &t.hostiles, 5, failure);
        assert((|e| CommandSyntax::Tame(e)) =~= (|e| command_of_kind(5, e)));
        return Some(r);
    }
    if let Some(q) = p.try_advance("name") {
        return Some(
            match find_target(&q, &t.crew_in_room) {
                Some((q2, e)) => Ok(GameCommand::Name(e, q2.active_input())),
                None => {
                    let rest = q.active_input();
                    Err(concat3("\"", rest.as_str(), "\" is not a valid target."))
                },
            },
        );
    }
    None
}


/// Why a command's target cannot be reached: it is not in the character's area, or something
/// is in the way.
#[derive(Debug, Clone, Copy, PartialEq, Eq, Structural)]
pub enum Inaccessible {
    NotHere,
    Blocked(Blockage),
}

/// A character about to reach for a target: who it is, which side it is on, and where it is
/// (none where it is not placed).
#[derive(Clone, Copy)]
pub struct Mover {
    pub entity: EntityId,
    pub is_crew_member: bool,
    pub is_hostile: bool,
    pub pos: Option<Pos>,
}

/// What may stand in a character's way: hostiles and crew members that may block their
/// opponents, and everything that takes up space.
pub struct Obstacles {
    pub hostiles: Vec<Occupant>,
    pub crew: Vec<Occupant>,
    pub occupants: Vec<Occupant>,
}

/// What a blockage means for reaching a target: a hostile in the way always stops the
/// character; things that take up space stop it only where it cannot push them aside.
pub open spec fn reach_result(blocked: Result<(), Blockage>, can_push: bool) -> Result<(), Inaccessible> {
    match blocked {
        Ok(()) => Ok(()),
        Err(Blockage::Hostile(e)) => Err(Inaccessible::Blocked(Blockage::Hostile(e))),
        Err(Blockage::TakesSpace(a, b)) => if can_push {
            Ok(())
        } else {
            Err(Inaccessible::Blocked(Blockage::TakesSpace(a, b)))
        },
    }
}

/// Whether the character can reach the target's position: both must be placed, in one area,
/// and the way there must be open (things that take up space may be pushed where `can_push`).
pub fn check_accessible(character: &Mover, target_pos: Option<Pos>, can_push: bool, obstacles: &Obstacles) -> (r:
    Result<(), Inaccessible>)
    ensures
        match (character.pos, target_pos) {
            (Some(c), Some(t)) => if c.area_view() == t.area_view() {
                r == reach_result(
                    blocked_spec(
                        character.entity,
                        character.is_crew_member,
                        character.is_hostile,
                        c,
                        t,
                        obstacles.hostiles@,
                        obstacles.crew@,
                        obstacles.occupants@,
                    ),
                    can_push,
                )
            } else {
                r == Err::<(), Inaccessible>(Inaccessible::NotHere)
            },
            _ => r == Err::<(), Inaccessible>(Inaccessible::NotHere),
        },
{
    let character_pos = match character.pos {
        Some(p) => p,
        None => return Err(Inaccessible::NotHere),
    };
    let target_pos = match target_pos {
        Some(p) => p,
        None => return Err(Inaccessible::NotHere),
    };
    if !character_pos.is_in(target_pos.get_area()) {
        return Err(Inaccessible::NotHere);
    }
    match check_is_blocked(
        character.entity,
        character.is_crew_member,
        character.is_hostile,
        character_pos,
        target_pos,
        &obstacles.hostiles,
        &obstacles.crew,
        &obstacles.occupants,
    ) {
        Ok(()) => Ok(()),
        Err(Blockage::Hostile(e)) => Err(Inaccessible::Blocked(Blockage::Hostile(e))),
        Err(Blockage::TakesSpace(a, b)) => {
            if can_push {
                Ok(())
            } else {
                Err(Inaccessible::Blocked(Blockage::TakesSpace(a, b)))
            }
        },
    }
}

/// Whether the character can step next to the target: both must be placed, in one area, and
/// nothing may be in the way to the step beside the target's nearest part.
pub fn check_adjacent_accessible(character: &Mover, target: Option<Placement>, obstacles: &Obstacles) -> (r: Result<
    (),
    Inaccessible,
>)
    ensures
        match (character.pos, target) {
            (Some(c), Some(t)) => if c.area_view() == t.pos.area_view() {
                r == reach_result(
                    blocked_spec(
                        character.entity,
                        character.is_crew_member,
                        character.is_hostile,
                        c,
                        t.adjacent_towards_spec(c),
                        obstacles.hostiles@,
                        obstacles.crew@,
                        obstacles.occupants@,
                    ),
                    false,
                )
            } else {
                r == Err::<(), Inaccessible>(Inaccessible::NotHere)
            },
            _ => r == Err::<(), Inaccessible>(Inaccessible::NotHere),
        },
{
    let character_pos = match character.pos {
        Some(p) => p,
        None => return Err(Inaccessible::NotHere),
    };
    let placement = match target {
        Some(p) => p,
        None => return Err(Inaccessible::NotHere),
    };
    if !character_pos.is_in(placement.area()) {
        return Err(Inaccessible::NotHere);
    }
    let target_pos = placement.get_adjacent_towards(character_pos);
    match check_is_blocked(
        character.entity,
        character.is_crew_member,
        character.is_hostile,
        character_pos,
        target_pos,
        &obstacles.hostiles,
        &obstacles.crew,
        &obstacles.occupants,
    ) {
        Ok(()) => Ok(()),
        Err(b) => Err(Inaccessible::Blocked(b)),
    }
}

/// The message of a target out of reach where it is not in the character's area.
pub fn cannot_reach_message(character_name: &str, target_name: &str) -> (s: String)
    ensures
        s@ == character_name@ + " can not reach "@ + target_name@ + " from here."@,
{
    concat4(character_name, " can not reach ", target_name, " from here.")
}


/// Checks "go to ship": the character must not be at the ship already.
pub fn check_go_to_ship(in_ship: bool) -> (r: Result<(), String>)
    ensures
        in_ship ==> (r matches Err(e) && e@ == "You are already at the ship."@),
        !in_ship ==> r is Ok,
{
    if in_ship {
        return Err("You are already at the ship.".to_owned());
    }
    Ok(())
}

/// Whether some crew member in `area` has stamina below the maximum.
pub fn crew_needs_rest(area: EntityId, crew: &Vec<(Pos, Stamina)>) -> (r: bool)
    ensures
        r == exists|k: int|
            0 <= k < crew.len() && (#[trigger] crew@[k]).0.area_view() == area && crew@[k].1.current()
                < crew@[k].1.maximum(),
{
    let mut i: usize = 0;
    while i < crew.len()
        invariant
            i <= crew.len(),
            forall|k: int|
                0 <= k < i ==> !((#[trigger] crew@[k]).0.area_view() == area && crew@[k].1.current()
                    < crew@[k].1.maximum()),
        decreases crew.len() - i,
    {
        if crew[i].0.is_in(area) && crew[i].1.need_rest() {
            return true;
        }
        i = i + 1;
    }
    false
}

/// Checks "rest": the area must be safe, and some crew member there must need rest.
pub fn check_rest(area_is_safe: bool, crew_needs_rest: bool) -> (r: Result<(), String>)
    ensures
        !area_is_safe ==> (r matches Err(e) && e@ == "This area is not safe to rest in."@),
        area_is_safe && !crew_needs_rest ==> (r matches Err(e) && e@ == "The crew is already rested."@),
        area_is_safe && crew_needs_rest ==> r is Ok,
{
    if !area_is_safe {
        return Err("This area is not safe to rest in.".to_owned());
    }
    if !crew_needs_rest {
        return Err("The crew is already rested.".to_owned());
    }
    Ok(())
}

/// Checks "control": the target must be another crew member than the controlled one.
pub fn check_control(character: EntityId, target: EntityId) -> (r: Result<EntityId, String>)
    ensures
        target == character ==> (r matches Err(e) && e@ == "You're already in control of them."@),
        target != character ==> r == Ok::<EntityId, String>(target),
{
    if target == character {
        Err("You're already in control of them.".to_owned())
    } else {
        Ok(target)
    }
}

/// The common checks of refuelling and launching: ship controls in the character's area of the
/// ship (`controls_reach` is none where there are none, else whether they are within reach),
/// and a ship.
pub open spec fn ship_controls_check(
    name: Seq<char>,
    doing: Seq<char>,
    controls_reach: Option<Result<(), String>>,
    status: Option<ShipStatus>,
) -> Option<Seq<char>> {
    match controls_reach {
        None => Some(name + " needs to be in the ship control room in order to "@ + doing + " it."@),
        Some(Err(m)) => Some(m@),
        Some(Ok(())) => if status is None {
            Some("The crew has no ship."@)
        } else {
            None
        },
    }
}

fn check_ship_controls(name: &str, doing: &str, controls_reach: Option<Result<(), String>>, status: Option<ShipStatus>) -> (r:
    Result<ShipStatus, String>)
    ensures
        match ship_controls_check(name@, doing@, controls_reach, status) {
            Some(m) => r matches Err(e) && e@ == m,
            None => r == Ok::<ShipStatus, String>(status->0),
        },
{
    match controls_reach {
        None => {
            return Err(concat4(name, " needs to be in the ship control room in order to ", doing, " it."));
        },
        Some(Err(m)) => {
            return Err(m);
        },
        Some(Ok(())) => {},
    }
    match status {
        Some(s) => Ok(s),
        None => Err("The crew has no ship.".to_owned()),
    }
}

/// Checks "refuel ship": at the ship controls, for a ship that needs fuel, with a fuel can.
pub fn check_refuel_ship(
    name: &str,
    controls_reach: Option<Result<(), String>>,
    status: Option<ShipStatus>,
    holding_fuel_can: bool,
) -> (r: Result<(), String>)
    ensures
        match ship_controls_check(name@, "refuel"@, controls_reach, status) {
            Some(m) => r matches Err(e) && e@ == m,
            None => if !(status->0 is NeedFuel) {
                r matches Err(e) && e@ == "The ship is already refueled."@
            } else if !holding_fuel_can {
                r matches Err(e) && e@ == name@ + " needs a fuel can to refuel the ship."@
            } else {
                r is Ok
            },
        },
{
    proof {
        reveal_strlit("refuel");
    }
    let status = check_ship_controls(name, "refuel", controls_reach, status)?;
    match status {
        ShipStatus::NeedFuel(_) => {},
        _ => return Err("The ship is already refueled.".to_owned()),
    }
    if !holding_fuel_can {
        return Err(concat(name, " needs a fuel can to refuel the ship."));
    }
    Ok(())
}

/// Checks "launch ship": not from the final destination, at the ship controls, with a fuel can
/// where the ship still needs fuel.
pub fn check_launch_ship(
    name: &str,
    at_fortuna: bool,
    controls_reach: Option<Result<(), String>>,
    status: Option<ShipStatus>,
    holding_fuel_can: bool,
) -> (r: Result<(), String>)
    ensures
        at_fortuna ==> (r matches Err(e) && e@
            == "You are already at your final destination. You should find the fortuna chest before leaving!"@),
        !at_fortuna ==> match ship_controls_check(name@, "launch"@, controls_reach, status) {
            Some(m) => r matches Err(e) && e@ == m,
            None => if status->0 is NeedFuel && !holding_fuel_can {
                r matches Err(e) && e@ == name@ + " needs a fuel can to launch the ship."@
            } else {
                r is Ok
            },
        },
{
    if at_fortuna {
        return Err(
            "You are already at your final destination. You should find the fortuna chest before leaving!".to_owned(),
        );
    }
    proof {
        reveal_strlit("launch");
    }
    let status = check_ship_controls(name, "launch", controls_reach, status)?;
    if let ShipStatus::NeedFuel(_) = status {
        if !holding_fuel_can {
            return Err(concat(name, " needs a fuel can to launch the ship."));
        }
    }
    Ok(())
}


/// Whether a named target stands in the area.
pub open spec fn named_in_area(c: (String, EntityId, Pos), area: EntityId) -> bool {
    c.2.area_view() == area
}

/// The distances of the named targets from a position, as sort keys.
pub open spec fn distance_keys(cs: Seq<(String, EntityId, Pos)>, from: Pos) -> Seq<u128> {
    cs.map_values(|c: (String, EntityId, Pos)| c.2.distance_spec(from) as u128)
}

/// The names of the targets in the area of `compare_pos`, the closest first; names at equal
/// distance keep their order.
pub fn targets_by_proximity(compare_pos: Pos, candidates: &Vec<(String, EntityId, Pos)>) -> (r: Vec<(String, EntityId)>)
    ensures
        ({
            let here = candidates@.filter(|c: (String, EntityId, Pos)| named_in_area(c, compare_pos.area_view()));
            &&& r.len() == here.len()
            &&& exists|order: Seq<usize>|
                is_stable_order(distance_keys(here, compare_pos), order) && forall|i: int|
                    0 <= i < r.len() ==> (#[trigger] r@[i]).0@ == here[order[i] as int].0@ && r@[i].1
                        == here[order[i] as int].1
        }),
{
    let ghost pred = |c: (String, EntityId, Pos)| named_in_area(c, compare_pos.area_view());
    let mut here: Vec<(String, EntityId, Pos)> = Vec::new();
    let mut keys: Vec<u128> = Vec::new();
    let mut i: usize = 0;
    while i < candidates.len()
        invariant
            i <= candidates.len(),
            here.len() == keys.len(),
            pred == (|c: (String, EntityId, Pos)| named_in_area(c, compare_pos.area_view())),
            forall|k: int| 0 <= k < here.len() ==> #[trigger] here@[k].0@ == candidates@.take(i as int).filter(pred)[k].0@,
            here.len() == candidates@.take(i as int).filter(pred).len(),
            forall|k: int|
                0 <= k < here.len() ==> here@[k].1 == candidates@.take(i as int).filter(pred)[k].1 && here@[k].2
                    == candidates@.take(i as int).filter(pred)[k].2,
            keys@ == distance_keys(candidates@.take(i as int).filter(pred), compare_pos),
        decreases candidates.len() - i,
    {
        proof {
            reveal(Seq::filter);
            assert(candidates@.take(i + 1).drop_last() =~= candidates@.take(i as int));
        }
        let (name, entity, pos) = &candidates[i];
        if pos.is_in(compare_pos.get_area()) {
            here.push((name.clone(), *entity, *pos));
            keys.push(pos.distance_to(compare_pos) as u128);
        }
        i = i + 1;
        proof {
            let f = candidates@.take(i as int).filter(pred);
            assert(keys@ =~= distance_keys(f, compare_pos));
        }
    }
    assert(candidates@.take(candidates.len() as int) =~= candidates@);
    let order = stable_order(&keys);
    let mut r: Vec<(String, EntityId)> = Vec::new();
    let mut j: usize = 0;
    while j < order.len()
        invariant
            j <= order.len(),
            r.len() == j,
            order.len() == here.len(),
            forall|k: int| 0 <= k < order.len() ==> order@[k] < here.len(),
            forall|k: int| 0 <= k < j ==> (#[trigger] r@[k]).0@ == here@[order@[k] as int].0@ && r@[k].1 == here@[order@[k] as int].1,
        decreases order.len() - j,
    {
        let k = order[j];
        r.push((here[k].0.clone(), here[k].1));
        j = j + 1;
    }
    r
}


/// The names of the targets in `area`, in order.
pub fn targets_in_room(area: EntityId, candidates: &Vec<(String, EntityId, Pos)>) -> (r: Vec<(String, EntityId)>)
    ensures
        r@.map_values(|t: (String, EntityId)| (t.0@, t.1)) == candidates@.filter(
            |c: (String, EntityId, Pos)| named_in_area(c, area),
        ).map_values(|c: (String, EntityId, Pos)| (c.0@, c.1)),
{
    let ghost pred = |c: (String, EntityId, Pos)| named_in_area(c, area);
    let ghost g = |c: (String, EntityId, Pos)| (c.0@, c.1);
    let ghost h = |t: (String, EntityId)| (t.0@, t.1);
    let mut r: Vec<(String, EntityId)> = Vec::new();
    let mut i: usize = 0;
    while i < candidates.len()
        invariant
            i <= candidates.len(),
            pred == (|c: (String, EntityId, Pos)| named_in_area(c, area)),
            g == (|c: (String, EntityId, Pos)| (c.0@, c.1)),
            h == (|t: (String, EntityId)| (t.0@, t.1)),
            r@.map_values(h) == candidates@.take(i as int).filter(pred).map_values(g),
        decreases candidates.len() - i,
    {
        proof {
            reveal(Seq::filter);
            assert(candidates@.take(i + 1).drop_last() =~= candidates@.take(i as int));
        }
        let ghost before = r@;
        let ghost c = candidates@[i as int];
        assert(candidates@.take(i + 1) =~= candidates@.take(i as int).push(c));
        let (name, entity, pos) = &candidates[i];
        if pos.is_in(area) {
            r.push((name.clone(), *entity));
            assert(r@ =~= before.push((c.0, c.1)));
            assert(r@.map_values(h) =~= before.map_values(h).push(g(c)));
            assert(candidates@.take(i + 1).filter(pred) =~= candidates@.take(i as int).filter(pred).push(c));
        } else {
            assert(candidates@.take(i + 1).filter(pred) =~= candidates@.take(i as int).filter(pred));
        }
        i = i + 1;
        proof {
            assert(r@.map_values(h) =~= candidates@.take(i as int).filter(pred).map_values(g));
        }
    }
    assert(candidates@.take(candidates.len() as int) =~= candidates@);
    r
}

} // verus!

verus! {

/// A command of any of the game's grammars.
pub enum PlayerCommand {
    Item(self::item::ItemCommand),
    Game(GameCommand),
    Attack(self::combat::AttackCommand),
    Dialogue(self::dialogue::DialogueCommand),
}

/// Reads a command of the game, trying the grammars in turn: the item commands, the main
/// grammar, attacks, then dialogue. The first grammar whose first word the input starts with
/// decides; where none does, the failure names the whole input as unexpected.
pub fn parse_player_command(
    input: &str,
    items: &self::item::ItemCommandTargets,
    game: &CommandTargets,
    hostiles: &Vec<(String, Vec<EntityId>)>,
    talk: &self::dialogue::DialogueCommandTargets,
) -> (r: Result<PlayerCommand, String>)
    ensures
        self::item::item_command_spec(input@, *items) is Some ==> self::item::item_read_as(
            match r {
                Ok(PlayerCommand::Item(c)) => Some(Ok(c)),
                Err(e) => Some(Err(e)),
                _ => None,
            },
            self::item::item_command_spec(input@, *items),
        ),
        self::item::item_command_spec(input@, *items) is None && game_command_spec(input@, *game) is Some ==> read_as(
            match r {
                Ok(PlayerCommand::Game(c)) => Some(Ok(c)),
                Err(e) => Some(Err(e)),
                _ => None,
            },
            game_command_spec(input@, *game),
        ),
        self::item::item_command_spec(input@, *items) is None && game_command_spec(input@, *game) is None ==> match
            self::combat::attack_command_spec(input@, self::combat::groups_view(hostiles@)) {
            None => true,
            Some(Ok(None)) => r matches Ok(PlayerCommand::Attack(self::combat::AttackCommand::AttackAny)),
            Some(Ok(Some(targets))) => r matches Ok(PlayerCommand::Attack(self::combat::AttackCommand::Attack(v)))
                && v@ == targets,
            Some(Err(m)) => r matches Err(e) && e@ == m,
        },
        self::item::item_command_spec(input@, *items) is None && game_command_spec(input@, *game) is None
            && self::combat::attack_command_spec(input@, self::combat::groups_view(hostiles@)) is None ==> match
            self::dialogue::dialogue_command_spec(input@, *talk) {
            None => r matches Err(e) && e@ == "Unexpected input: \""@ + input@ + "\""@,
            Some(expected) => match r {
                Ok(PlayerCommand::Dialogue(c)) => self::dialogue::dialogue_read_as(Ok(c), expected),
                Err(e) => self::dialogue::dialogue_read_as(Err(e), expected),
                _ => false,
            },
        },
{
    match self::item::parse_item_command(input, items) {
        Some(Ok(c)) => return Ok(PlayerCommand::Item(c)),
        Some(Err(e)) => return Err(e),
        None => {},
    }
    match parse_game_command(input, game) {
        Some(Ok(c)) => return Ok(PlayerCommand::Game(c)),
        Some(Err(e)) => return Err(e),
        None => {},
    }
    match self::combat::parse_attack_command(input, hostiles) {
        Some(Ok(c)) => return Ok(PlayerCommand::Attack(c)),
        Some(Err(e)) => return Err(e),
        None => {},
    }
    match self::dialogue::parse_dialogue_command(input, talk) {
        Some(Ok(c)) => Ok(PlayerCommand::Dialogue(c)),
        Some(Err(e)) => Err(e),
        None => {
            let p = Parse::new(input);
            proof {
                assert(p.input_view().take(0) =~= Seq::<char>::empty());
                assert(p.input_view().skip(0) =~= input@);
                assert(trim_end(Seq::<char>::empty()).len() == 0);
            }
            p.default_err()
        },
    }
}

} // verus!
