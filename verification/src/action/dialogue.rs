use super::Error;
use crate::base::{CREW_SIZE_LIMIT, EntityId};
use crate::text::{concat, concat4};
use vstd::prelude::*;

verus! {

/// Before talking to a target: a dead target makes the talk end quietly (false); a hostile one
/// refuses; any other is talked to (true).
pub fn check_talk(target_name: &str, target_alive: bool, target_hostile: bool) -> (r: Result<bool, Error>)
    ensures
        !target_alive ==> r == Ok::<bool, Error>(false),
        target_alive && target_hostile ==> (r matches Err(e) && !e.visible && e.message@ == target_name@
            + " is not interested in talking."@),
        target_alive && !target_hostile ==> r == Ok::<bool, Error>(true),
{
    if !target_alive {
        return Ok(false);
    }
    if target_hostile {
        return Err(Error::private(concat(target_name, " is not interested in talking.")));
    }
    Ok(true)
}

/// Before recruiting: the crew must have room for one more.
pub fn check_crew_room(crew_size: usize) -> (r: Result<(), Error>)
    ensures
        r is Ok <==> crew_size < CREW_SIZE_LIMIT,
        r matches Err(e) ==> !e.visible && e.message@ == "There is not enough room for another crew member."@,
{
    if crew_size >= CREW_SIZE_LIMIT {
        return Err(Error::private("There is not enough room for another crew member.".to_owned()));
    }
    Ok(())
}

/// The message of a recruit joining.
pub fn joined_crew_message(name: &str) -> (s: String)
    ensures
        s@ == name@ + " joined the crew!"@,
{
    concat(name, " joined the crew!")
}

/// Before any dialogue: the target must be in the performer's area.
pub fn check_dialogue_reach(performer_name: &str, target_name: &str, performer_area: EntityId, target_area: EntityId) -> (r:
    Result<(), Error>)
    ensures
        r is Ok <==> performer_area == target_area,
        r matches Err(e) ==> !e.visible && e.message@ == target_name@ + " left before "@ + performer_name@
            + " could talk to them."@,
{
    if performer_area != target_area {
        return Err(Error::private(concat4(target_name, " left before ", performer_name, " could talk to them.")));
    }
    Ok(())
}

/// The message that ends a dialogue that gave no result of its own.
pub fn finished_talking_message(performer_name: &str, target_name: &str) -> (s: String)
    ensures
        s@ == performer_name@ + " finishes talking with "@ + target_name@ + "."@,
{
    concat4(performer_name, " finishes talking with ", target_name, ".")
}

/// An order given to a crew member by talking.
#[derive(Debug, Clone, Copy, PartialEq, Eq, Structural)]
pub enum TellTo {
    Wait,
    WaitAtShip,
    Follow,
}

impl TellTo {
    /// Whether the order is given: the target must be alive; it must not wait already to be told
    /// to wait, and must wait to be told to follow. Otherwise the order ends quietly.
    pub open spec fn proceeds_spec(self, target_alive: bool, target_waiting: bool) -> bool {
        target_alive && match self {
            TellTo::Wait => !target_waiting,
            TellTo::WaitAtShip => true,
            TellTo::Follow => target_waiting,
        }
    }

    /// Whether the order is given.
    pub fn proceeds(self, target_alive: bool, target_waiting: bool) -> (r: bool)
        ensures
            r == self.proceeds_spec(target_alive, target_waiting),
    {
        target_alive && match self {
            TellTo::Wait => !target_waiting,
            TellTo::WaitAtShip => true,
            TellTo::Follow => target_waiting,
        }
    }

    /// The name of the dialogue that the order triggers.
    pub fn dialogue_name(self) -> (s: &'static str)
        ensures
            self == TellTo::Wait ==> s@ == "tell_to/wait"@,
            self == TellTo::WaitAtShip ==> s@ == "tell_to/wait_at_ship"@,
            self == TellTo::Follow ==> s@ == "tell_to/follow"@,
    {
        match self {
            TellTo::Wait => "tell_to/wait",
            TellTo::WaitAtShip => "tell_to/wait_at_ship",
            TellTo::Follow => "tell_to/follow",
        }
    }

    /// How the target waits after the order: at the ship or not, or not at all (none).
    pub fn waiting_after(self) -> (r: Option<bool>)
        ensures
            self == TellTo::Wait ==> r == Some(false),
            self == TellTo::WaitAtShip ==> r == Some(true),
            self == TellTo::Follow ==> r is None,
    {
        match self {
            TellTo::Wait => Some(false),
            TellTo::WaitAtShip => Some(true),
            TellTo::Follow => None,
        }
    }
}

} // verus!
