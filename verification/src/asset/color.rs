use crate::base::SpeciesId;
use crate::base::display::SpeciesColorId;
use crate::base::name::Adjective;
use crate::text::str_eq;
use vstd::prelude::*;

verus! {

/// A color by its red, green and blue parts.
#[derive(Clone, Copy, Debug, PartialEq, Eq, Structural)]
pub struct RGBColor {
    pub r: u8,
    pub g: u8,
    pub b: u8,
}

impl RGBColor {
    /// The color of the parts.
    pub fn new(r: u8, g: u8, b: u8) -> (c: Self)
        ensures
            c.r == r && c.g == g && c.b == b,
    {
        RGBColor { r, g, b }
    }
}

/// The two colors of a creature's coloring.
#[derive(Clone, Copy, Debug, PartialEq, Eq, Structural)]
pub struct SpeciesColorData {
    pub primary_color: RGBColor,
    pub secondary_color: RGBColor,
}

/// The coloring used where none is given: white on black.
pub open spec fn default_color() -> SpeciesColorData {
    SpeciesColorData {
        primary_color: RGBColor { r: 255, g: 255, b: 255 },
        secondary_color: RGBColor { r: 0, g: 0, b: 0 },
    }
}

impl Default for SpeciesColorData {
    /// White on black.
    fn default() -> (c: Self)
        ensures
            c == default_color(),
    {
        SpeciesColorData { primary_color: RGBColor::new(255, 255, 255), secondary_color: RGBColor::new(0, 0, 0) }
    }
}

/// A coloring of a species, with the adjective that names it.
pub struct SpeciesColorEntry {
    pub adjective: Option<Adjective>,
    pub color_data: SpeciesColorData,
}

impl Default for SpeciesColorEntry {
    /// The default coloring without an adjective.
    fn default() -> (e: Self)
        ensures
            e.adjective is None,
            e.color_data == default_color(),
    {
        SpeciesColorEntry { adjective: None, color_data: SpeciesColorData::default() }
    }
}

/// The position of the first entry with the key, if any.
pub open spec fn first_key_index<V>(entries: Seq<(Seq<char>, V)>, key: Seq<char>) -> Option<int> {
    if exists|i: int| 0 <= i < entries.len() && entries[i].0 == key {
        Some(
            choose|i: int|
                0 <= i < entries.len() && entries[i].0 == key && forall|j: int| 0 <= j < i ==> entries[j].0 != key,
        )
    } else {
        None
    }
}

/// The first entry of a key is unique.
pub proof fn lemma_first_key_index<V>(entries: Seq<(Seq<char>, V)>, key: Seq<char>, i: int)
    requires
        0 <= i < entries.len(),
        entries[i].0 == key,
        forall|j: int| 0 <= j < i ==> entries[j].0 != key,
    ensures
        first_key_index(entries, key) == Some(i),
{
    let k = choose|k: int|
        0 <= k < entries.len() && entries[k].0 == key && forall|j: int| 0 <= j < k ==> entries[j].0 != key;
    if k < i {
        assert(entries[k].0 != key);
    }
    if k > i {
        assert(entries[i].0 != key);
    }
}

/// The colorings of each species, by the ids of species and colorings. Like the maps it is
/// read from, it holds each species id once, and each coloring id once within a species.
pub struct SpeciesColorMap(Vec<(SpeciesId, Vec<(SpeciesColorId, SpeciesColorEntry)>)>);

/// Whether no key occurs twice.
pub open spec fn keys_unique<V>(entries: Seq<(Seq<char>, V)>) -> bool {
    forall|i: int, j: int| 0 <= i < j < entries.len() ==> entries[i].0 != entries[j].0
}

/// The species with their colorings, keyed by their ids.
pub open spec fn species_entry_keys(
    entries: Seq<(SpeciesId, Vec<(SpeciesColorId, SpeciesColorEntry)>)>,
) -> Seq<(Seq<char>, Seq<(SpeciesColorId, SpeciesColorEntry)>)> {
    entries.map_values(|e: (SpeciesId, Vec<(SpeciesColorId, SpeciesColorEntry)>)| (e.0.0@, e.1@))
}

/// Whether each species id occurs once, and each coloring id once within its species.
pub open spec fn color_entries_unique(entries: Seq<(SpeciesId, Vec<(SpeciesColorId, SpeciesColorEntry)>)>) -> bool {
    &&& keys_unique(species_entry_keys(entries))
    &&& forall|i: int| 0 <= i < entries.len() ==> keys_unique(color_keys(#[trigger] entries[i].1@))
}

/// The colorings of a species keyed by their ids.
pub open spec fn color_keys(colors: Seq<(SpeciesColorId, SpeciesColorEntry)>) -> Seq<(Seq<char>, SpeciesColorEntry)> {
    colors.map_values(|e: (SpeciesColorId, SpeciesColorEntry)| (e.0.0@, e.1))
}

impl SpeciesColorMap {
    /// The species keyed by their ids.
    pub closed spec fn species_keys(&self) -> Seq<(Seq<char>, Seq<(SpeciesColorId, SpeciesColorEntry)>)> {
        species_entry_keys(self.0@)
    }

    /// No species id occurs twice, and no coloring id twice within a species.
    pub closed spec fn wf(&self) -> bool {
        color_entries_unique(self.0@)
    }

    /// Every map keeps its ids unique.
    #[verifier::type_invariant]
    spec fn keeps_ids_unique(self) -> bool {
        color_entries_unique(self.0@)
    }

    /// The map of these entries, which hold each species id once, and each coloring id once
    /// within its species.
    pub fn new(entries: Vec<(SpeciesId, Vec<(SpeciesColorId, SpeciesColorEntry)>)>) -> (m: Self)
        requires
            color_entries_unique(entries@),
        ensures
            m.wf(),
            m.species_keys() == species_entry_keys(entries@),
    {
        SpeciesColorMap(entries)
    }

    /// The coloring of the species with the color id: that of the first entry of each.
    pub open spec fn color_of(&self, species: Seq<char>, color: Seq<char>) -> Option<SpeciesColorEntry> {
        match self.colors_of(species) {
            None => None,
            Some(colors) => match first_key_index(color_keys(colors), color) {
                None => None,
                Some(k) => Some(colors[k].1),
            },
        }
    }

    /// The colorings of the species (the first entry of the id), if it has any.
    pub open spec fn colors_of(&self, species: Seq<char>) -> Option<Seq<(SpeciesColorId, SpeciesColorEntry)>> {
        match first_key_index(self.species_keys(), species) {
            Some(i) => Some(self.species_keys()[i].1),
            None => None,
        }
    }

    fn find_species(&self, species_id: &SpeciesId) -> (r: Option<usize>)
        ensures
            r is None ==> first_key_index(self.species_keys(), species_id.0@) is None,
            r matches Some(i) ==> i < self.0.len() && first_key_index(self.species_keys(), species_id.0@) == Some(
                i as int,
            ),
    {
        let mut i: usize = 0;
        while i < self.0.len()
            invariant
                i <= self.0.len(),
                forall|j: int| 0 <= j < i ==> self.species_keys()[j].0 != species_id.0@,
            decreases self.0.len() - i,
        {
            if str_eq(self.0[i].0.0.as_str(), species_id.0.as_str()) {
                proof {
                    lemma_first_key_index(self.species_keys(), species_id.0@, i as int);
                }
                return Some(i);
            }
            i = i + 1;
        }
        None
    }

    /// The coloring of the species with the color id, if the species has one.
    pub fn get(&self, species_id: &SpeciesId, color_id: &SpeciesColorId) -> (r: Option<&SpeciesColorEntry>)
        ensures
            self.wf(),
            r matches Some(e) ==> self.color_of(species_id.0@, color_id.0@) == Some(*e),
            r is None ==> self.color_of(species_id.0@, color_id.0@) is None,
            match self.colors_of(species_id.0@) {
                None => r is None,
                Some(colors) => match first_key_index(color_keys(colors), color_id.0@) {
                    None => r is None,
                    Some(k) => r == Some(&colors[k].1),
                },
            },
    {
        proof {
            use_type_invariant(self);
        }
        let index = match self.find_species(species_id) {
            Some(i) => i,
            None => return None,
        };
        let colors = &self.0[index].1;
        assert(self.colors_of(species_id.0@) == Some(colors@));
        let mut k: usize = 0;
        while k < colors.len()
            invariant
                k <= colors.len(),
                self.colors_of(species_id.0@) == Some(colors@),
                self.wf(),
                forall|j: int| 0 <= j < k ==> color_keys(colors@)[j].0 != color_id.0@,
            decreases colors.len() - k,
        {
            if str_eq(colors[k].0.0.as_str(), color_id.0.as_str()) {
                proof {
                    lemma_first_key_index(color_keys(colors@), color_id.0@, k as int);
                }
                return Some(&colors[k].1);
            }
            k = k + 1;
        }
        None
    }

    /// The ids of the species' colorings, in order; none for a species without colorings.
    pub fn available_ids(&self, species_id: &SpeciesId) -> (r: Vec<SpeciesColorId>)
        ensures
            self.wf(),
            match self.colors_of(species_id.0@) {
                None => r@.len() == 0,
                Some(colors) => r@ == colors.map_values(|e: (SpeciesColorId, SpeciesColorEntry)| e.0),
            },
    {
        proof {
            use_type_invariant(self);
        }
        let mut r: Vec<SpeciesColorId> = Vec::new();
        let index = match self.find_species(species_id) {
            Some(i) => i,
            None => return r,
        };
        let colors = &self.0[index].1;
        let mut k: usize = 0;
        while k < colors.len()
            invariant
                k <= colors.len(),
                r@ == colors@.take(k as int).map_values(|e: (SpeciesColorId, SpeciesColorEntry)| e.0),
            decreases colors.len() - k,
        {
            r.push(SpeciesColorId(colors[k].0.0.clone()));
            k = k + 1;
            assert(r@ =~= colors@.take(k as int).map_values(|e: (SpeciesColorId, SpeciesColorEntry)| e.0));
        }
        assert(colors@.take(colors.len() as int) =~= colors@);
        r
    }
}

/// In a map (each keeps its ids unique, which `get` and `available_ids` state), the coloring of a species and color id is the one entry that has both
/// ids, and there is one exactly where the species lists the color id among its ids; a species
/// that the map does not hold has no colorings.
pub proof fn law_color_map_lookup(m: SpeciesColorMap, species: Seq<char>, color: Seq<char>, e: SpeciesColorEntry)
    requires
        m.wf(),
    ensures
        (m.color_of(species, color) == Some(e)) <==> exists|i: int, k: int|
            0 <= i < m.species_keys().len() && m.species_keys()[i].0 == species && 0 <= k < m.species_keys()[i].1.len()
                && #[trigger] m.species_keys()[i].1[k].0.0@ == color && m.species_keys()[i].1[k].1 == e,
        (m.color_of(species, color) is Some) <==> (m.colors_of(species) matches Some(colors) && exists|k: int|
            0 <= k < colors.len() && #[trigger] colors[k].0.0@ == color),
        m.colors_of(species) is None ==> m.color_of(species, color) is None,
{
    let keys = m.species_keys();
    assert forall|i: int| 0 <= i < keys.len() implies keys_unique(color_keys(#[trigger] keys[i].1)) by {
        assert(keys[i].1 == m.0@[i].1@);
    }
    if exists|i: int, k: int|
        0 <= i < keys.len() && keys[i].0 == species && 0 <= k < keys[i].1.len() && #[trigger] keys[i].1[k].0.0@
            == color && keys[i].1[k].1 == e {
        let (i, k) = choose|i: int, k: int|
            0 <= i < keys.len() && keys[i].0 == species && 0 <= k < keys[i].1.len() && #[trigger] keys[i].1[k].0.0@
                == color && keys[i].1[k].1 == e;
        assert forall|j: int| 0 <= j < i implies keys[j].0 != species by {}
        lemma_first_key_index(keys, species, i);
        let ck = color_keys(keys[i].1);
        assert(ck[k].0 == color);
        assert forall|j: int| 0 <= j < k implies ck[j].0 != color by {}
        lemma_first_key_index(ck, color, k);
    }
    if m.color_of(species, color) is Some {
        let i = first_key_index(keys, species)->0;
        let ck = color_keys(keys[i].1);
        let k = first_key_index(ck, color)->0;
        assert(keys[i].1[k].0.0@ == ck[k].0);
    }
    if m.colors_of(species) is Some {
        let colors = m.colors_of(species)->0;
        if exists|k: int| 0 <= k < colors.len() && #[trigger] colors[k].0.0@ == color {
            let k = choose|k: int| 0 <= k < colors.len() && #[trigger] colors[k].0.0@ == color;
            assert(color_keys(colors)[k].0 == color);
        }
    }
}

/// Which color of a coloring a part of a model takes.
#[derive(Debug, Copy, Clone, PartialEq, Eq, Structural)]
pub enum ColorSource {
    Uncolored,
    Primary,
    Secondary,
}

impl Default for ColorSource {
    /// Uncolored.
    fn default() -> (c: Self)
        ensures
            c == ColorSource::Uncolored,
    {
        ColorSource::Uncolored
    }
}

impl ColorSource {
    /// The color that the source takes from the coloring: white where uncolored.
    pub fn get_color(self, color_data: &SpeciesColorData) -> (c: RGBColor)
        ensures
            c == (match self {
                ColorSource::Uncolored => RGBColor { r: 255, g: 255, b: 255 },
                ColorSource::Primary => color_data.primary_color,
                ColorSource::Secondary => color_data.secondary_color,
            }),
    {
        match self {
            ColorSource::Uncolored => RGBColor::new(255, 255, 255),
            ColorSource::Primary => color_data.primary_color,
            ColorSource::Secondary => color_data.secondary_color,
        }
    }
}

} // verus!
