pub mod game;
pub mod parse;
pub mod store;
pub mod suggestion;

use crate::base::name::NameData;
use crate::base::status::CreatureAttribute;
use crate::text::{concat3, concat5};
use vstd::prelude::*;

verus! {

/// Who a command's action is for: the controlled character, or the whole crew.
#[derive(Debug, Copy, Clone, PartialEq, Eq, Structural)]
pub enum Target {
    Controlled,
    Crew,
}

/// Information that a command shows without acting: plain lines, or the crew's status as lines.
pub enum CommandInfo {
    Message(Vec<String>),
    Status(Vec<String>),
}

impl CommandInfo {
    /// The lines to show.
    pub fn into_text(self) -> (lines: Vec<String>)
        ensures
            lines@ == (match self {
                CommandInfo::Message(text_lines) => text_lines@,
                CommandInfo::Status(status_lines) => status_lines@,
            }),
    {
        match self {
            CommandInfo::Message(text_lines) => text_lines,
            CommandInfo::Status(status_lines) => status_lines,
        }
    }
}

/// The names by which a player may refer to an entity: its own name; or its noun, with the
/// attribute, with the adjective, and with both, as far as it has them.
pub open spec fn entity_names_spec(name: NameData, attribute: Option<CreatureAttribute>) -> Seq<Seq<char>> {
    match name {
        NameData::Name(n) => seq![n@],
        NameData::Noun(adjective, noun) => {
            let base = noun.singular_view();
            match (adjective, attribute) {
                (None, None) => seq![base],
                (None, Some(a)) => seq![base, a.adjective() + " "@ + base],
                (Some(adj), None) => seq![base, adj.0@ + " "@ + base],
                (Some(adj), Some(a)) => seq![
                    base,
                    a.adjective() + " "@ + base,
                    adj.0@ + " "@ + base,
                    adj.0@ + " "@ + a.adjective() + " "@ + base,
                ],
            }
        },
    }
}

/// The names by which a player may refer to an entity with this name and attribute.
pub fn entity_names(name: &NameData, attribute: Option<CreatureAttribute>) -> (r: Vec<String>)
    ensures
        r@.map_values(|s: String| s@) == entity_names_spec(*name, attribute),
{
    let r = match name {
        NameData::Name(n) => vec![n.clone()],
        NameData::Noun(adjective, noun) => {
            let base = noun.singular();
            match (adjective, attribute) {
                (None, None) => vec![base.to_owned()],
                (None, Some(a)) => vec![base.to_owned(), concat3(a.as_adjective(), " ", base)],
                (Some(adj), None) => vec![base.to_owned(), concat3(adj.0.as_str(), " ", base)],
                (Some(adj), Some(a)) => vec![
                    base.to_owned(),
                    concat3(a.as_adjective(), " ", base),
                    concat3(adj.0.as_str(), " ", base),
                    concat5(adj.0.as_str(), " ", a.as_adjective(), " ", base),
                ],
            }
        },
    };
    assert(r@.map_values(|s: String| s@) =~= entity_names_spec(*name, attribute));
    r
}

} // verus!
