use crate::base::SpeciesId;
use crate::base::behavior::BadlyHurtBehavior;
use crate::base::combat::{AttackSet, UnarmedType};
use crate::base::display::WeightedVariant;
use crate::base::status::Stats;
use crate::text::{concat3, str_eq};
use vstd::prelude::*;

verus! {

/// Whether a species is one of characters, or fauna with how it behaves.
#[derive(Debug, Clone, Copy, PartialEq, Eq, Structural)]
pub enum SpeciesKind {
    CharacterSpecies,
    Fauna { agressive_by_default: bool, tameable: bool },
}

/// What a species is like.
pub struct SpeciesData {
    pub kind: SpeciesKind,
    pub default_stats: Stats,
    pub is_large: bool,
    pub unarmed: UnarmedType,
    pub attack_set: AttackSet,
    pub badly_hurt_behavior: Option<BadlyHurtBehavior>,
    pub variant_groups: Vec<Vec<WeightedVariant>>,
}

/// A species of characters, as its file describes it.
pub struct CharacterSpeciesData {
    pub default_stats: Stats,
    pub is_large: bool,
    pub unarmed: UnarmedType,
    pub attack_set: AttackSet,
    pub badly_hurt_behavior: Option<BadlyHurtBehavior>,
    pub variant_groups: Vec<Vec<WeightedVariant>>,
}

/// A species of fauna, as its file describes it.
pub struct FaunaData {
    pub default_stats: Stats,
    pub is_large: bool,
    pub unarmed: UnarmedType,
    pub attack_set: AttackSet,
    pub badly_hurt_behavior: Option<BadlyHurtBehavior>,
    pub agressive_by_default: bool,
    pub tameable: bool,
    pub variant_groups: Vec<Vec<WeightedVariant>>,
}

impl SpeciesData {
    /// The data of a species of characters.
    pub fn from_character(value: CharacterSpeciesData) -> (d: Self)
        ensures
            d.kind == SpeciesKind::CharacterSpecies,
            d.default_stats == value.default_stats,
            d.is_large == value.is_large,
            d.unarmed == value.unarmed,
            d.attack_set == value.attack_set,
            d.badly_hurt_behavior == value.badly_hurt_behavior,
            d.variant_groups == value.variant_groups,
    {
        SpeciesData {
            kind: SpeciesKind::CharacterSpecies,
            default_stats: value.default_stats,
            is_large: value.is_large,
            unarmed: value.unarmed,
            attack_set: value.attack_set,
            badly_hurt_behavior: value.badly_hurt_behavior,
            variant_groups: value.variant_groups,
        }
    }

    /// The data of a species of fauna.
    pub fn from_fauna(value: FaunaData) -> (d: Self)
        ensures
            d.kind == (SpeciesKind::Fauna {
                agressive_by_default: value.agressive_by_default,
                tameable: value.tameable,
            }),
            d.default_stats == value.default_stats,
            d.is_large == value.is_large,
            d.unarmed == value.unarmed,
            d.attack_set == value.attack_set,
            d.badly_hurt_behavior == value.badly_hurt_behavior,
            d.variant_groups == value.variant_groups,
    {
        SpeciesData {
            kind: SpeciesKind::Fauna { agressive_by_default: value.agressive_by_default, tameable: value.tameable },
            default_stats: value.default_stats,
            is_large: value.is_large,
            unarmed: value.unarmed,
            attack_set: value.attack_set,
            badly_hurt_behavior: value.badly_hurt_behavior,
            variant_groups: value.variant_groups,
        }
    }
}

/// The ids of the entries.
pub open spec fn ids_of<D>(entries: Seq<(SpeciesId, D)>) -> Seq<Seq<char>> {
    entries.map_values(|e: (SpeciesId, D)| e.0.0@)
}

/// Whether no id occurs twice.
pub open spec fn ids_distinct(ids: Seq<Seq<char>>) -> bool {
    forall|i: int, j: int| 0 <= i < j < ids.len() ==> ids[i] != ids[j]
}

fn contains_id(entries: &Vec<(SpeciesId, SpeciesData)>, id: &SpeciesId) -> (r: bool)
    ensures
        r == ids_of(entries@).contains(id.0@),
{
    let mut i: usize = 0;
    while i < entries.len()
        invariant
            i <= entries.len(),
            forall|k: int| 0 <= k < i ==> entries@[k].0.0@ != id.0@,
        decreases entries.len() - i,
    {
        if str_eq(entries[i].0.0.as_str(), id.0.as_str()) {
            assert(ids_of(entries@)[i as int] == id.0@);
            return true;
        }
        i = i + 1;
    }
    proof {
        if ids_of(entries@).contains(id.0@) {
            let k = choose|k: int| 0 <= k < ids_of(entries@).len() && ids_of(entries@)[k] == id.0@;
            assert(entries@[k].0.0@ == id.0@);
        }
    }
    false
}

/// All species, fauna first, then the species of characters, each in its given order. A species
/// of characters that has the id of one before it is refused, with a message that names it.
pub fn merge_species(
    fauna: Vec<(SpeciesId, FaunaData)>,
    characters: Vec<(SpeciesId, CharacterSpeciesData)>,
) -> (r: Result<Vec<(SpeciesId, SpeciesData)>, String>)
    requires
        ids_distinct(ids_of(fauna@)),
    ensures
        r is Ok <==> ids_distinct(ids_of(fauna@) + ids_of(characters@)),
        r matches Ok(map) ==> ids_of(map@) == ids_of(fauna@) + ids_of(characters@),
        r matches Err(message) ==> exists|i: int|
            0 <= i < characters.len() && message@ == "\""@ + characters@[i].0.0@
                + "\" has been defined as both species and fauna."@,
{
    let ghost all_ids = ids_of(fauna@) + ids_of(characters@);
    let ghost fauna_ids = ids_of(fauna@);
    let ghost character_ids = ids_of(characters@);
    let mut map: Vec<(SpeciesId, SpeciesData)> = Vec::new();
    let mut fauna = fauna;
    let mut characters = characters;
    let ghost fauna_input = fauna@;
    let ghost characters_input = characters@;
    let ghost mut i: int = 0;
    assert(fauna_input.skip(0) =~= fauna_input);
    while fauna.len() > 0
        invariant
            0 <= i <= fauna_input.len(),
            fauna@ == fauna_input.skip(i),
            ids_of(map@) == ids_of(fauna_input.take(i)),
        decreases fauna.len(),
    {
        let (id, data) = fauna.remove(0);
        assert(fauna_input.skip(i + 1) =~= fauna_input.skip(i).drop_first());
        assert(ids_of(fauna_input.take(i + 1)) =~= ids_of(fauna_input.take(i)).push(id.0@));
        map.push((id, SpeciesData::from_fauna(data)));
        proof {
            i = i + 1;
        }
        assert(ids_of(map@) =~= ids_of(fauna_input.take(i)));
    }
    assert(fauna_input.take(i) =~= fauna_input);
    let ghost mut j: int = 0;
    assert(characters_input.skip(0) =~= characters_input);
    assert(fauna_ids + ids_of(characters_input.take(0)) =~= fauna_ids);
    let mut error: Option<String> = None;
    while characters.len() > 0 && error.is_none()
        invariant
            error matches Some(m) ==> !ids_distinct(all_ids) && exists|i: int|
                0 <= i < characters_input.len() && m@ == "\""@ + characters_input[i].0.0@
                    + "\" has been defined as both species and fauna."@,
            error is None ==> ids_distinct(ids_of(map@)),
            error is None ==> ids_of(map@) == fauna_ids + ids_of(characters_input.take(j)),
            0 <= j <= characters_input.len(),
            characters@ == characters_input.skip(j),
            fauna_ids == ids_of(fauna_input),
            character_ids == ids_of(characters_input),
            all_ids == fauna_ids + character_ids,
            ids_distinct(fauna_ids),
        decreases characters.len(),
    {
        let (id, data) = characters.remove(0);
        assert(characters_input.skip(j + 1) =~= characters_input.skip(j).drop_first());
        assert(id.0@ == character_ids[j]);
        if contains_id(&map, &id) {
            proof {
                let k = choose|k: int| 0 <= k < ids_of(map@).len() && ids_of(map@)[k] == id.0@;
                assert(ids_of(characters_input.take(j)).len() == j);
                assert(k < fauna_ids.len() + j);
                if k < fauna_ids.len() {
                    assert(all_ids[k] == fauna_ids[k]);
                } else {
                    assert(all_ids[k] == ids_of(characters_input.take(j))[k - fauna_ids.len()]);
                    assert(all_ids[k] == character_ids[k - fauna_ids.len()]);
                }
                assert(all_ids[fauna_ids.len() + j] == character_ids[j]);
                assert(all_ids[k] == all_ids[fauna_ids.len() + j]);
                assert(!ids_distinct(all_ids));
            }
            error = Some(concat3("\"", id.0.as_str(), "\" has been defined as both species and fauna."));
            assert(characters_input[j].0.0@ == id.0@);
            proof {
                j = j + 1;
            }
            continue;
        }
        let ghost before = ids_of(map@);
        map.push((id, SpeciesData::from_character(data)));
        assert(ids_of(characters_input.take(j + 1)) =~= ids_of(characters_input.take(j)).push(id.0@));
        assert(ids_of(map@) =~= before.push(id.0@));
        proof {
            assert forall|a: int, b: int| 0 <= a < b < ids_of(map@).len() implies ids_of(map@)[a] != ids_of(map@)[b] by {
                if b == before.len() {
                    assert(ids_of(map@)[a] == before[a]);
                    assert(before.contains(before[a]));
                }
            }
            j = j + 1;
        }
    }
    match error {
        Some(message) => Err(message),
        None => {
            assert(characters_input.take(j) =~= characters_input);
            assert(ids_of(map@) =~= all_ids);
            Ok(map)
        },
    }
}

} // verus!
