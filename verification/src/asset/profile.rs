use crate::asset::color::SpeciesColorMap;
use crate::base::SpeciesId;
use crate::base::display::SpeciesColorId;
use crate::base::status::{Stats, Traits};
use crate::random::random_below;
use crate::text::str_eq;
use rand::rngs::ThreadRng;
use vstd::prelude::*;

verus! {

/// Stats given in place, or to be picked at random.
#[derive(Debug, Clone, Copy)]
pub enum StatsOrRandom {
    Random,
    Stats(Stats),
}

impl Default for StatsOrRandom {
    /// Random stats.
    fn default() -> (s: Self)
        ensures
            s is Random,
    {
        StatsOrRandom::Random
    }
}

impl StatsOrRandom {
    /// The given stats, or those that `random_selection` picks.
    pub fn unwrap_or_else<F: FnOnce() -> Stats>(self, random_selection: F) -> (s: Stats)
        requires
            self is Random ==> random_selection.requires(()),
        ensures
            self matches StatsOrRandom::Stats(stats) ==> s == stats,
            self is Random ==> random_selection.ensures((), s),
    {
        match self {
            StatsOrRandom::Random => random_selection(),
            StatsOrRandom::Stats(stats) => stats,
        }
    }
}

/// Traits given in place, or to be picked at random.
#[derive(Debug, Clone)]
pub enum TraitsOrRandom {
    Random,
    Traits(Traits),
}

impl Default for TraitsOrRandom {
    /// Random traits.
    fn default() -> (t: Self)
        ensures
            t is Random,
    {
        TraitsOrRandom::Random
    }
}

impl TraitsOrRandom {
    /// The given traits, or those that `random_selection` picks.
    pub fn unwrap_or_else<F: FnOnce() -> Traits>(self, random_selection: F) -> (t: Traits)
        requires
            self is Random ==> random_selection.requires(()),
        ensures
            self matches TraitsOrRandom::Traits(traits) ==> t == traits,
            self is Random ==> random_selection.ensures((), t),
    {
        match self {
            TraitsOrRandom::Random => random_selection(),
            TraitsOrRandom::Traits(traits) => traits,
        }
    }
}

/// Who a character is: species, name, coloring, stats and traits.
pub struct CharacterProfile {
    pub species: SpeciesId,
    pub name: String,
    pub color: SpeciesColorId,
    pub stats: StatsOrRandom,
    pub traits: TraitsOrRandom,
}

/// A character given in place, or one of a species to be made up at random.
pub enum ProfileOrRandom {
    Random { species: SpeciesId },
    Profile(CharacterProfile),
}

/// Whether the color is among the used ones.
pub open spec fn is_used(used: Seq<SpeciesColorId>, color: Seq<char>) -> bool {
    exists|i: int| 0 <= i < used.len() && (#[trigger] used[i]).0@ == color
}

fn color_used(used: &Vec<SpeciesColorId>, color: &SpeciesColorId) -> (r: bool)
    ensures
        r == is_used(used@, color.0@),
{
    let mut i: usize = 0;
    while i < used.len()
        invariant
            i <= used.len(),
            forall|k: int| 0 <= k < i ==> (#[trigger] used@[k]).0@ != color.0@,
        decreases used.len() - i,
    {
        if str_eq(used[i].0.as_str(), color.0.as_str()) {
            assert(used@[i as int].0@ == color.0@);
            return true;
        }
        i = i + 1;
    }
    false
}

/// Whether an aftik color can be picked: it is not used and has names left.
pub open spec fn aftik_color_open(entry: (SpeciesColorId, Vec<String>), used: Seq<SpeciesColorId>) -> bool {
    !is_used(used, entry.0.0@) && entry.1.len() > 0
}

/// Whether `after` is `before` with one name taken out of entry `k` by swapping the last name
/// into its place, `name` being the name taken out.
pub open spec fn took_name(
    before: Seq<(SpeciesColorId, Vec<String>)>,
    after: Seq<(SpeciesColorId, Vec<String>)>,
    k: int,
    name: String,
) -> bool {
    &&& after.len() == before.len()
    &&& forall|j: int| 0 <= j < before.len() && j != k ==> #[trigger] after[j] == before[j]
    &&& after[k].0 == before[k].0
    &&& exists|n: int|
        0 <= n < before[k].1.len() && before[k].1@[n] == name && after[k].1@ == before[k].1@.update(
            n,
            before[k].1@.last(),
        ).drop_last()
}

/// Picks an aftik's name and color at random: a color that is not used and has names left,
/// and one of its names, which is taken out of the list. None where no color can be picked.
pub fn random_aftik_profile(
    aftik_color_names: &mut Vec<(SpeciesColorId, Vec<String>)>,
    rng: &mut ThreadRng,
    used_aftik_colors: &Vec<SpeciesColorId>,
) -> (r: Option<(String, SpeciesColorId)>)
    ensures
        r is None <==> forall|k: int|
            0 <= k < old(aftik_color_names).len() ==> !aftik_color_open(
                #[trigger] old(aftik_color_names)@[k],
                used_aftik_colors@,
            ),
        r is None ==> final(aftik_color_names)@ == old(aftik_color_names)@,
        r matches Some(pick) ==> exists|k: int|
            0 <= k < old(aftik_color_names).len() && aftik_color_open(
                #[trigger] old(aftik_color_names)@[k],
                used_aftik_colors@,
            ) && pick.1.0@ == old(aftik_color_names)@[k].0.0@ && took_name(
                old(aftik_color_names)@,
                final(aftik_color_names)@,
                k,
                pick.0,
            ),
{
    let mut candidates: Vec<usize> = Vec::new();
    let mut i: usize = 0;
    while i < aftik_color_names.len()
        invariant
            i <= aftik_color_names.len(),
            aftik_color_names@ == old(aftik_color_names)@,
            forall|c: int| 0 <= c < candidates.len() ==> (#[trigger] candidates@[c]) < i,
            forall|c: int|
                0 <= c < candidates.len() ==> aftik_color_open(
                    old(aftik_color_names)@[#[trigger] candidates@[c] as int],
                    used_aftik_colors@,
                ),
            forall|k: int|
                0 <= k < i && aftik_color_open(#[trigger] old(aftik_color_names)@[k], used_aftik_colors@)
                    ==> candidates@.contains(k as usize),
        decreases aftik_color_names.len() - i,
    {
        let ghost before = candidates@;
        if !color_used(used_aftik_colors, &aftik_color_names[i].0) && aftik_color_names[i].1.len() > 0 {
            candidates.push(i);
            assert(candidates@[candidates.len() - 1] == i);
        }
        assert forall|k: int|
            0 <= k < i + 1 && aftik_color_open(#[trigger] old(aftik_color_names)@[k], used_aftik_colors@)
                implies candidates@.contains(k as usize) by {
            if k < i {
                let w = choose|w: int| 0 <= w < before.len() && before[w] == k as usize;
                assert(candidates@[w] == k as usize);
            } else {
                assert(candidates@[candidates.len() - 1] == i);
            }
        }
        i = i + 1;
    }
    if candidates.len() == 0 {
        proof {
            assert forall|k: int| 0 <= k < old(aftik_color_names).len() implies !aftik_color_open(
                #[trigger] old(aftik_color_names)@[k],
                used_aftik_colors@,
            ) by {
                if aftik_color_open(old(aftik_color_names)@[k], used_aftik_colors@) {
                    assert(candidates@.contains(k as usize));
                }
            }
        }
        return None;
    }
    let c = random_below(rng, candidates.len());
    let k = candidates[c];
    assert(aftik_color_open(old(aftik_color_names)@[k as int], used_aftik_colors@));
    let mut entry = aftik_color_names.remove(k);
    let n = random_below(rng, entry.1.len());
    let name = entry.1.swap_remove(n);
    let color = SpeciesColorId(entry.0.0.clone());
    aftik_color_names.insert(k, entry);
    proof {
        assert forall|j: int|
            0 <= j < old(aftik_color_names).len() && j != k implies #[trigger] aftik_color_names@[j] == old(
                aftik_color_names,
            )@[j] by {
            if j < k {
            } else {
            }
        }
        assert(took_name(old(aftik_color_names)@, aftik_color_names@, k as int, name));
    }
    Some((name, color))
}

/// The color ids of the species that are not used, in order.
pub open spec fn open_colors(ids: Seq<SpeciesColorId>, used: Seq<SpeciesColorId>) -> Seq<Seq<char>>
    decreases ids.len(),
{
    if ids.len() == 0 {
        Seq::empty()
    } else if is_used(used, ids.last().0@) {
        open_colors(ids.drop_last(), used)
    } else {
        open_colors(ids.drop_last(), used).push(ids.last().0@)
    }
}

/// The color ids of a species in the color map.
pub open spec fn species_color_ids(color_map: SpeciesColorMap, species: Seq<char>) -> Seq<SpeciesColorId> {
    match color_map.colors_of(species) {
        Some(colors) => colors.map_values(|e: (SpeciesColorId, crate::asset::color::SpeciesColorEntry)| e.0),
        None => Seq::empty(),
    }
}

/// Makes up a character of the species at random: for an aftik, a name and color as
/// `random_aftik_profile` picks them; for another species, a color of the species that is not
/// used and a name taken out of `character_names`. None where either runs out.
pub fn random_profile(
    species_id: SpeciesId,
    used_colors: &Vec<SpeciesColorId>,
    character_names: &mut Vec<String>,
    aftik_color_names: &mut Vec<(SpeciesColorId, Vec<String>)>,
    color_map: &SpeciesColorMap,
    rng: &mut ThreadRng,
) -> (r: Option<CharacterProfile>)
    ensures
        r matches Some(p) ==> p.species == species_id && p.stats is Random && p.traits is Random,
        species_id.0@ == "aftik"@ ==> final(character_names)@ == old(character_names)@,
        species_id.0@ == "aftik"@ ==> (r is None <==> forall|k: int|
            0 <= k < old(aftik_color_names).len() ==> !aftik_color_open(
                #[trigger] old(aftik_color_names)@[k],
                used_colors@,
            )),
        species_id.0@ == "aftik"@ ==> (r matches Some(p) ==> exists|k: int|
            0 <= k < old(aftik_color_names).len() && aftik_color_open(
                #[trigger] old(aftik_color_names)@[k],
                used_colors@,
            ) && p.color.0@ == old(aftik_color_names)@[k].0.0@ && took_name(
                old(aftik_color_names)@,
                final(aftik_color_names)@,
                k,
                p.name,
            )),
        species_id.0@ != "aftik"@ ==> final(aftik_color_names)@ == old(aftik_color_names)@,
        species_id.0@ != "aftik"@ ==> (r is None <==> (open_colors(
            species_color_ids(*color_map, species_id.0@),
            used_colors@,
        ).len() == 0 || old(character_names).len() == 0)),
        species_id.0@ != "aftik"@ ==> (r matches Some(p) ==> open_colors(
            species_color_ids(*color_map, species_id.0@),
            used_colors@,
        ).contains(p.color.0@) && exists|n: int|
            0 <= n < old(character_names).len() && old(character_names)@[n] == p.name && final(character_names)@
                == old(character_names)@.update(n, old(character_names)@.last()).drop_last()),
        species_id.0@ != "aftik"@ && r is None ==> final(character_names)@ == old(character_names)@,
{
    if species_id.is_aftik() {
        return match random_aftik_profile(aftik_color_names, rng, used_colors) {
            Some((name, color)) => Some(
                CharacterProfile {
                    species: species_id,
                    name,
                    color,
                    stats: StatsOrRandom::Random,
                    traits: TraitsOrRandom::Random,
                },
            ),
            None => None,
        };
    }
    let ids = color_map.available_ids(&species_id);
    let mut open: Vec<SpeciesColorId> = Vec::new();
    let mut i: usize = 0;
    while i < ids.len()
        invariant
            i <= ids.len(),
            open@.map_values(|c: SpeciesColorId| c.0@) == open_colors(ids@.take(i as int), used_colors@),
        decreases ids.len() - i,
    {
        assert(ids@.take(i + 1).drop_last() =~= ids@.take(i as int));
        let ghost before = open@;
        if !color_used(used_colors, &ids[i]) {
            open.push(SpeciesColorId(ids[i].0.clone()));
            assert(open@.map_values(|c: SpeciesColorId| c.0@) =~= before.map_values(|c: SpeciesColorId| c.0@).push(
                ids@[i as int].0@,
            ));
        }
        i = i + 1;
    }
    assert(ids@.take(ids.len() as int) =~= ids@);
    assert(ids@ == species_color_ids(*color_map, species_id.0@));
    if open.len() == 0 {
        return None;
    }
    if character_names.len() == 0 {
        return None;
    }
    let c = random_below(rng, open.len());
    let color = SpeciesColorId(open[c].0.clone());
    assert(open@.map_values(|x: SpeciesColorId| x.0@)[c as int] == color.0@);
    let n = random_below(rng, character_names.len());
    let name = character_names.swap_remove(n);
    Some(
        CharacterProfile {
            species: species_id,
            name,
            color,
            stats: StatsOrRandom::Random,
            traits: TraitsOrRandom::Random,
        },
    )
}

impl ProfileOrRandom {
    /// The given character, or one made up at random by `random_profile` for the species,
    /// given the colors already used by characters of it.
    pub fn unwrap(
        self,
        character_names: &mut Vec<String>,
        aftik_color_names: &mut Vec<(SpeciesColorId, Vec<String>)>,
        color_map: &SpeciesColorMap,
        rng: &mut ThreadRng,
        used_colors: &Vec<SpeciesColorId>,
    ) -> (r: Option<CharacterProfile>)
        ensures
            self matches ProfileOrRandom::Profile(p) ==> r == Some(p) && final(character_names)@ == old(
                character_names,
            )@ && final(aftik_color_names)@ == old(aftik_color_names)@,
            self matches ProfileOrRandom::Random { species } ==> (r matches Some(p) ==> p.species == species),
    {
        match self {
            ProfileOrRandom::Random { species } => random_profile(
                species,
                used_colors,
                character_names,
                aftik_color_names,
                color_map,
                rng,
            ),
            ProfileOrRandom::Profile(profile) => Some(profile),
        }
    }
}

} // verus!
