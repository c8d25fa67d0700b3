use crate::base::item::ItemTypeId;
use crate::random::{pick_weighted_index, weight_sum, weights_usable};
use rand::rngs::ThreadRng;
use vstd::prelude::*;

verus! {

/// The id of a loot table.
#[derive(Debug, Clone, PartialEq, Eq, Hash)]
pub struct LootTableId(pub String);

impl LootTableId {
    /// The id as text.
    pub fn to_text(&self) -> (s: String)
        ensures
            s@ == self.0@,
    {
        self.0.clone()
    }
}

/// An item of a loot table, with how often it is picked.
#[derive(Debug)]
pub struct LootEntry {
    pub item: ItemTypeId,
    pub weight: u16,
}

/// The weights of the entries.
pub open spec fn entry_weights(entries: Seq<LootEntry>) -> Seq<u16> {
    entries.map_values(|e: LootEntry| e.weight)
}

/// A loot table that items are picked from: entries whose weights can be sampled.
pub struct LootTable {
    entries: Vec<LootEntry>,
}

impl LootTable {
    /// The entries.
    pub closed spec fn entries_view(&self) -> Seq<LootEntry> {
        self.entries@
    }

    /// The table of the entries, where their weights can be sampled: there is at least one, and
    /// the sum of the weights is neither zero nor more than fits in a `u16`.
    pub fn new(entries: Vec<LootEntry>) -> (r: Option<Self>)
        ensures
            r is Some <==> weights_usable(entry_weights(entries@)),
            r matches Some(t) ==> t.entries_view() == entries@,
    {
        let weights = Self::weights_of(&entries);
        if weights.len() == 0 {
            return None;
        }
        let mut sum: u32 = 0;
        let mut i: usize = 0;
        while i < weights.len()
            invariant
                i <= weights.len(),
                weights@ == entry_weights(entries@),
                sum == weight_sum(weights@.take(i as int)),
                sum <= u16::MAX,
                weights.len() > 0,
            decreases weights.len() - i,
        {
            assert(weights@.take(i + 1).drop_last() =~= weights@.take(i as int));
            let next: u32 = sum + weights[i] as u32;
            i = i + 1;
            if next > 65535 {
                proof {
                    crate::random::lemma_weight_sum_grows(weights@, i as int);
                }
                return None;
            }
            sum = next;
        }
        assert(weights@.take(weights.len() as int) =~= weights@);
        if sum == 0 {
            None
        } else {
            Some(LootTable { entries })
        }
    }

    fn weights_of(entries: &Vec<LootEntry>) -> (w: Vec<u16>)
        ensures
            w@ == entry_weights(entries@),
    {
        let mut w: Vec<u16> = Vec::new();
        let mut i: usize = 0;
        while i < entries.len()
            invariant
                i <= entries.len(),
                w@ == entry_weights(entries@.take(i as int)),
            decreases entries.len() - i,
        {
            w.push(entries[i].weight);
            i = i + 1;
            assert(w@ =~= entry_weights(entries@.take(i as int)));
        }
        assert(entries@.take(entries.len() as int) =~= entries@);
        w
    }

    /// Picks an item of the table by the weights: one whose weight is not zero.
    pub fn pick_loot_item(&self, rng: &mut ThreadRng) -> (item: &ItemTypeId)
        requires
            weights_usable(entry_weights(self.entries_view())),
        ensures
            exists|i: int|
                0 <= i < self.entries_view().len() && self.entries_view()[i].weight > 0 && #[trigger] self.entries_view()[i].item
                    == *item,
    {
        let weights = Self::weights_of(&self.entries);
        let index = pick_weighted_index(rng, &weights).unwrap();
        assert(self.entries_view()[index as int].weight > 0);
        &self.entries[index].item
    }
}

} // verus!
