use super::{advance_at, default_err_at, done_err, find_target, first_target, names_view};
use crate::base::EntityId;
use crate::command::parse::Parse;
use crate::action::dialogue::TellTo;
use crate::dialogue::TalkTopic;
use crate::text::{concat, concat3, concat4};
use vstd::prelude::*;

verus! {

/// A command about talking to characters, as read from the input.
#[derive(Clone, Copy, PartialEq, Eq, Structural)]
pub enum DialogueCommand {
    TalkTo(EntityId),
    Recruit(EntityId),
    TellToWait(EntityId),
    TellToWaitAtShip(EntityId),
    TellToFollow(EntityId),
}

/// The names by which the player can refer to the targets of the dialogue commands.
pub struct DialogueCommandTargets {
    pub talk_targets: Vec<(String, EntityId)>,
    pub recruit_targets: Vec<(String, EntityId)>,
    pub crew_characters: Vec<(String, EntityId)>,
}

/// A command with nothing after it.
pub open spec fn done_at(input: Seq<char>, start: nat, c: DialogueCommand) -> Result<DialogueCommand, Seq<char>> {
    if start == input.len() {
        Ok(c)
    } else {
        Err(done_err(input, start))
    }
}

/// What follows "tell <crew member> to".
pub open spec fn tell_spec(input: Seq<char>, start: nat, target: EntityId) -> Result<DialogueCommand, Seq<char>> {
    if let Some(s) = advance_at(input, start, "wait"@) {
        if let Some(s2) = advance_at(input, s, "at ship"@) {
            done_at(input, s2, DialogueCommand::TellToWaitAtShip(target))
        } else {
            done_at(input, s, DialogueCommand::TellToWait(target))
        }
    } else if let Some(s) = advance_at(input, start, "follow"@) {
        done_at(input, s, DialogueCommand::TellToFollow(target))
    } else {
        Err(default_err_at(input, start))
    }
}

/// What the dialogue commands read from the input; none where it starts with none of their
/// words.
pub open spec fn dialogue_command_spec(input: Seq<char>, t: DialogueCommandTargets) -> Option<
    Result<DialogueCommand, Seq<char>>,
> {
    if let Some(s) = advance_at(input, 0, "talk"@) {
        Some(
            if let Some(s2) = advance_at(input, s, "to"@) {
                match first_target(input, s2, names_view(t.talk_targets@)) {
                    Some((s3, e)) => done_at(input, s3, DialogueCommand::TalkTo(e)),
                    None => Err("\""@ + input.skip(s2 as int) + "\" is not a valid target."@),
                }
            } else {
                Err(default_err_at(input, s))
            },
        )
    } else if let Some(s) = advance_at(input, 0, "recruit"@) {
        Some(
            match first_target(input, s, names_view(t.recruit_targets@)) {
                Some((s2, e)) => done_at(input, s2, DialogueCommand::Recruit(e)),
                None => Err("\""@ + input.skip(s as int) + "\" is not a valid recruitment target."@),
            },
        )
    } else if let Some(s) = advance_at(input, 0, "tell"@) {
        Some(
            match first_target(input, s, names_view(t.crew_characters@)) {
                Some((s2, e)) => if let Some(s3) = advance_at(input, s2, "to"@) {
                    tell_spec(input, s3, e)
                } else {
                    Err(default_err_at(input, s2))
                },
                None => Err("\""@ + input.skip(s as int) + "\" is not a valid target."@),
            },
        )
    } else {
        None
    }
}

/// Whether the result is what the spec reads.
pub open spec fn dialogue_read_as(
    r: Result<DialogueCommand, String>,
    expected: Result<DialogueCommand, Seq<char>>,
) -> bool {
    match expected {
        Ok(c) => r == Ok::<DialogueCommand, String>(c),
        Err(m) => r matches Err(e) && e@ == m,
    }
}

fn done<'a>(p: &Parse<'a>, c: DialogueCommand) -> (r: Result<DialogueCommand, String>)
    ensures
        dialogue_read_as(r, done_at(p.input_view(), p.start_view(), c)),
{
    if p.active_len() == 0 {
        Ok(c)
    } else {
        let consumed = p.consumed_input();
        Err(concat3("Unexpected argument after \"", consumed.as_str(), "\""))
    }
}

fn tell<'a>(p: &Parse<'a>, target: EntityId) -> (r: Result<DialogueCommand, String>)
    ensures
        dialogue_read_as(r, tell_spec(p.input_view(), p.start_view(), target)),
{
    proof {
        reveal_strlit("wait");
        reveal_strlit("at ship");
        reveal_strlit("follow");
    }
    if let Some(q) = p.try_advance("wait") {
        if let Some(q2) = q.try_advance("at ship") {
            done(&q2, DialogueCommand::TellToWaitAtShip(target))
        } else {
            done(&q, DialogueCommand::TellToWait(target))
        }
    } else if let Some(q) = p.try_advance("follow") {
        done(&q, DialogueCommand::TellToFollow(target))
    } else {
        p.default_err()
    }
}

/// Reads a dialogue command: "talk to", "recruit" or "tell ... to ..."; none where the input
/// starts with none of these.
pub fn parse_dialogue_command(input: &str, t: &DialogueCommandTargets) -> (r: Option<Result<DialogueCommand, String>>)
    ensures
        match dialogue_command_spec(input@, *t) {
            None => r is None,
            Some(expected) => r matches Some(x) && dialogue_read_as(x, expected),
        },
{
    proof {
        reveal_strlit("talk");
        reveal_strlit("to");
        reveal_strlit("recruit");
        reveal_strlit("tell");
    }
    let p = Parse::new(input);
    if let Some(q) = p.try_advance("talk") {
        return Some(
            if let Some(q2) = q.try_advance("to") {
                match find_target(&q2, &t.talk_targets) {
                    Some((q3, e)) => done(&q3, DialogueCommand::TalkTo(e)),
                    None => {
                        let rest = q2.active_input();
                        Err(concat3("\"", rest.as_str(), "\" is not a valid target."))
                    },
                }
            } else {
                q.default_err()
            },
        );
    }
    if let Some(q) = p.try_advance("recruit") {
        return Some(
            match find_target(&q, &t.recruit_targets) {
                Some((q2, e)) => done(&q2, DialogueCommand::Recruit(e)),
                None => {
                    let rest = q.active_input();
                    Err(concat3("\"", rest.as_str(), "\" is not a valid recruitment target."))
                },
            },
        );
    }
    if let Some(q) = p.try_advance("tell") {
        return Some(
            match find_target(&q, &t.crew_characters) {
                Some((q2, e)) => {
                    if let Some(q3) = q2.try_advance("to") {
                        tell(&q3, e)
                    } else {
                        q2.default_err()
                    }
                },
                None => {
                    let rest = q.active_input();
                    Err(concat3("\"", rest.as_str(), "\" is not a valid target."))
                },
            },
        );
    }
    None
}


/// What a "talk to" command leads to: trading with a shopkeeper, or talking about a topic.
#[derive(Debug, Clone, Copy, PartialEq, Eq, Structural)]
pub enum TalkPlan {
    Trade,
    Talk(TalkTopic),
}

/// Checks a "talk to" command: the target must be another, living character within reach.
/// A shopkeeper is traded with; anyone else is talked to about the topic given, and where
/// there is none, the failure says that the target waits for its hunt (where it gives a hunt
/// reward, whose target is named) or that there is nothing to say.
pub fn check_talk_to(
    speaker_name: &str,
    target_name: &str,
    target_is_speaker: bool,
    target_alive: bool,
    reach: Result<(), String>,
    is_shopkeeper: bool,
    topic: Option<TalkTopic>,
    hunt_target_label: Option<&str>,
) -> (r: Result<TalkPlan, String>)
    ensures
        target_is_speaker ==> (r matches Err(e) && e@ == speaker_name@ + " does not want to talk to themselves."@),
        !target_is_speaker && !target_alive ==> (r matches Err(e) && e@ == speaker_name@
            + " cannot talk to the dead."@),
        !target_is_speaker && target_alive ==> match reach {
            Err(m) => r matches Err(e) && e@ == m@,
            Ok(()) => if is_shopkeeper {
                r == Ok::<TalkPlan, String>(TalkPlan::Trade)
            } else {
                match topic {
                    Some(t) => r == Ok::<TalkPlan, String>(TalkPlan::Talk(t)),
                    None => match hunt_target_label {
                        Some(label) => r matches Err(e) && e@ == target_name@ + " is still waiting for "@ + label@
                            + " to be gone."@,
                        None => r matches Err(e) && e@ == speaker_name@ + " has nothing to say to "@ + target_name@
                            + "."@,
                    },
                }
            },
        },
{
    if target_is_speaker {
        return Err(concat(speaker_name, " does not want to talk to themselves."));
    }
    if !target_alive {
        return Err(concat(speaker_name, " cannot talk to the dead."));
    }
    match reach {
        Err(m) => return Err(m),
        Ok(()) => {},
    }
    if is_shopkeeper {
        return Ok(TalkPlan::Trade);
    }
    match topic {
        Some(t) => Ok(TalkPlan::Talk(t)),
        None => match hunt_target_label {
            Some(label) => Err(concat4(target_name, " is still waiting for ", label, " to be gone.")),
            None => Err(concat4(speaker_name, " has nothing to say to ", target_name, ".")),
        },
    }
}

/// The end of the failure for an order that the target already follows, after its name; none
/// where it follows another or none.
pub open spec fn already_done(order: TellTo, target_waiting: Option<bool>, target_in_ship: bool) -> Option<Seq<char>> {
    match order {
        TellTo::Wait => if target_waiting is Some {
            Some(" is already waiting."@)
        } else {
            None
        },
        TellTo::WaitAtShip => if target_in_ship && target_waiting is Some {
            Some(" is already waiting at the ship."@)
        } else if target_waiting == Some(true) {
            Some(" is already on their way to the ship."@)
        } else {
            None
        },
        TellTo::Follow => None,
    }
}

/// Checks an order told to a crew member: not to oneself, only within one area, and not an
/// order that the target already follows (`target_waiting` tells whether and where it waits:
/// true for at the ship).
pub fn check_tell(
    order: TellTo,
    controlled_name: &str,
    target_name: &str,
    target_is_controlled: bool,
    same_area: bool,
    target_waiting: Option<bool>,
    target_in_ship: bool,
) -> (r: Result<(), String>)
    ensures
        target_is_controlled ==> (r matches Err(e) && e@ == controlled_name@ + " can't give an order to themselves."@),
        !target_is_controlled && !same_area ==> (r matches Err(e) && e@ == controlled_name@ + " can't tell "@
            + target_name@ + " to do things from here."@),
        !target_is_controlled && same_area ==> match already_done(order, target_waiting, target_in_ship) {
            Some(m) => r matches Err(e) && e@ == target_name@ + m,
            None => r is Ok,
        },
{
    if target_is_controlled {
        return Err(concat(controlled_name, " can't give an order to themselves."));
    }
    if !same_area {
        return Err(concat4(controlled_name, " can't tell ", target_name, " to do things from here."));
    }
    match order {
        TellTo::Wait => {
            if target_waiting.is_some() {
                return Err(concat(target_name, " is already waiting."));
            }
        },
        TellTo::WaitAtShip => {
            if target_in_ship && target_waiting.is_some() {
                return Err(concat(target_name, " is already waiting at the ship."));
            }
            if let Some(true) = target_waiting {
                return Err(concat(target_name, " is already on their way to the ship."));
            }
        },
        TellTo::Follow => {},
    }
    Ok(())
}

} // verus!
