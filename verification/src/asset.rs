pub mod access;
pub mod background;
pub mod color;
pub mod dialogue;
pub mod location;
pub mod loot;
pub mod model;
pub mod placement;
pub mod profile;
pub mod species;

use crate::base::name::{NounData, NounId};
use crate::text::str_eq;
use vstd::prelude::*;

verus! {

/// Loads textures by name for a front end.
pub trait TextureLoader<T, E> {
    /// The texture of the name, or the loader's failure.
    fn load_texture(&mut self, name: String) -> Result<T, E>;
}

/// The forms of each noun, with a fallback for nouns that are missing.
pub struct NounDataMap {
    map: Vec<(NounId, NounData)>,
    fallback: NounData,
}

impl NounDataMap {
    /// The entries, in order.
    pub closed spec fn entries(&self) -> Seq<(NounId, NounData)> {
        self.map@
    }

    /// The noun that stands in for a missing one.
    pub closed spec fn fallback_view(&self) -> NounData {
        self.fallback
    }

    /// The noun that `lookup` gives for `id`: the first entry with that id, or the fallback.
    pub open spec fn lookup_spec(&self, id: Seq<char>) -> NounData {
        lookup_in(self.entries(), id, self.fallback_view())
    }

    /// No noun id occurs twice, as in the map that the nouns are read into.
    pub closed spec fn wf(&self) -> bool {
        noun_ids_unique(self.map@)
    }

    /// A map of these entries, which hold each noun id once, with the "???" noun as fallback.
    pub fn new(map: Vec<(NounId, NounData)>) -> (m: Self)
        requires
            noun_ids_unique(map@),
        ensures
            m.wf(),
            m.entries() == map@,
            m.fallback_view().singular_view() == "???"@,
            m.fallback_view().plural_view() == "???"@,
    {
        NounDataMap { map, fallback: NounData::unknown() }
    }

    /// The noun for `noun_id`, or the fallback where there is no entry for it.
    pub fn lookup(&self, noun_id: &NounId) -> (n: &NounData)
        ensures
            *n == self.lookup_spec(noun_id.0@),
    {
        let mut i: usize = 0;
        assert(self.map@.skip(0) == self.map@);
        while i < self.map.len()
            invariant
                i <= self.map.len(),
                lookup_in(self.map@, noun_id.0@, self.fallback) == lookup_in(self.map@.skip(i as int), noun_id.0@, self.fallback),
            decreases self.map.len() - i,
        {
            assert(self.map@.skip(i as int)[0] == self.map@[i as int]);
            assert(self.map@.skip(i as int).drop_first() == self.map@.skip(i + 1));
            if str_eq(self.map[i].0.0.as_str(), noun_id.0.as_str()) {
                return &self.map[i].1;
            }
            i = i + 1;
        }
        &self.fallback
    }
}

/// Whether no noun id occurs twice.
pub open spec fn noun_ids_unique(entries: Seq<(NounId, NounData)>) -> bool {
    forall|i: int, j: int| 0 <= i < j < entries.len() ==> entries[i].0.0@ != entries[j].0.0@
}

/// The noun of the first entry with id `id`, or `fallback`.
pub open spec fn lookup_in(entries: Seq<(NounId, NounData)>, id: Seq<char>, fallback: NounData) -> NounData
    decreases entries.len(),
{
    if entries.len() == 0 {
        fallback
    } else if entries[0].0.0@ == id {
        entries[0].1
    } else {
        lookup_in(entries.drop_first(), id, fallback)
    }
}

} // verus!
