use crate::random::pick_weighted_index;
use crate::text::{concat, str_eq};
use rand::rngs::ThreadRng;
use vstd::prelude::*;

verus! {

/// The id of a model: a path under the object texture directory.
#[derive(Clone, Debug, Eq, PartialEq, Hash)]
pub struct ModelId(pub String);

impl ModelId {
    /// The model of unknown objects.
    pub fn unknown() -> (m: Self)
        ensures
            m.0@ == "unknown"@,
    {
        Self::new("unknown")
    }

    /// The small model of unknown objects.
    pub fn small_unknown() -> (m: Self)
        ensures
            m.0@ == "small_unknown"@,
    {
        Self::new("small_unknown")
    }

    /// The model of the fortuna chest.
    pub fn fortuna_chest() -> (m: Self)
        ensures
            m.0@ == "container/fortuna_chest"@,
    {
        Self::new("container/fortuna_chest")
    }

    /// The model of the ship.
    pub fn ship() -> (m: Self)
        ensures
            m.0@ == "ship"@,
    {
        Self::new("ship")
    }

    /// The model of the ship controls.
    pub fn ship_controls() -> (m: Self)
        ensures
            m.0@ == "ship_controls"@,
    {
        Self::new("ship_controls")
    }

    /// The model with this path.
    pub fn new(name: &str) -> (m: Self)
        ensures
            m.0@ == name@,
    {
        Self(name.to_owned())
    }

    /// The model of the item `name`: `item/{name}`.
    pub fn item(name: &str) -> (m: Self)
        ensures
            m.0@ == "item/"@ + name@,
    {
        Self(concat("item/", name))
    }

    /// The model's path.
    pub fn path(&self) -> (p: &str)
        ensures
            p@ == self.0@,
    {
        self.0.as_str()
    }

    /// The file of the model: `assets/texture/object/{path}.json`.
    pub fn file_path(&self) -> (p: String)
        ensures
            p@ == "assets/texture/object/"@ + self.0@ + ".json"@,
    {
        crate::text::concat3("assets/texture/object/", self.0.as_str(), ".json")
    }

    /// The text of the id (as its `Display`).
    pub fn to_text(&self) -> (s: String)
        ensures
            s@ == self.0@,
    {
        self.0.clone()
    }
}

impl Default for ModelId {
    fn default() -> (m: Self)
        ensures
            m.0@ == "unknown"@,
    {
        Self::unknown()
    }
}

/// The id of a color scheme of a species.
#[derive(Clone, Debug, PartialEq, Eq, Hash)]
pub struct SpeciesColorId(pub String);

impl SpeciesColorId {
    /// The color scheme with this name.
    pub fn new(name: &str) -> (c: Self)
        ensures
            c.0@ == name@,
    {
        SpeciesColorId(name.to_owned())
    }
}

/// The expression of a character's portrait in dialogue.
#[derive(Clone, Copy, Debug, PartialEq, Eq, Structural)]
pub enum DialogueExpression {
    Neutral,
    Excited,
    Sad,
}

impl DialogueExpression {
    /// All expressions, in declaration order.
    pub fn variants() -> (v: Vec<Self>)
        ensures
            v@ == seq![DialogueExpression::Neutral, DialogueExpression::Excited, DialogueExpression::Sad],
    {
        vec![DialogueExpression::Neutral, DialogueExpression::Excited, DialogueExpression::Sad]
    }
}

impl Default for DialogueExpression {
    fn default() -> (e: Self)
        ensures
            e == DialogueExpression::Neutral,
    {
        DialogueExpression::Neutral
    }
}

/// A variant of a creature's looks, such as "female" or "male".
#[derive(Clone, Debug, PartialEq, Eq, Hash)]
pub struct CreatureVariant(pub String);

impl CreatureVariant {
    /// The "female" variant.
    pub fn female() -> (v: Self)
        ensures
            v.0@ == "female"@,
    {
        Self("female".to_owned())
    }

    /// The "male" variant.
    pub fn male() -> (v: Self)
        ensures
            v.0@ == "male"@,
    {
        Self("male".to_owned())
    }

    /// The text of the variant (as its `Display`).
    pub fn to_text(&self) -> (s: String)
        ensures
            s@ == self.0@,
    {
        self.0.clone()
    }

    /// A copy of the variant.
    pub fn duplicate(&self) -> (v: Self)
        ensures
            v.0@ == self.0@,
    {
        CreatureVariant(self.0.clone())
    }
}

/// One variant of a group, with the weight by which it is picked.
pub struct WeightedVariant {
    pub variant: CreatureVariant,
    pub weight: u16,
}

/// The weights of a group, in order.
pub open spec fn group_weights(group: Seq<WeightedVariant>) -> Seq<u16> {
    group.map_values(|entry: WeightedVariant| entry.weight)
}

/// The variants that a creature has. No variant occurs twice.
#[derive(Clone, Debug)]
pub struct CreatureVariantSet(pub Vec<CreatureVariant>);

impl CreatureVariantSet {
    /// The texts of the variants.
    pub open spec fn texts(&self) -> Seq<Seq<char>> {
        self.0@.map_values(|v: CreatureVariant| v.0@)
    }

    /// No variant occurs twice.
    pub open spec fn wf(&self) -> bool {
        forall|i: int, j: int|
            0 <= i < j < self.0.len() ==> #[trigger] self.0[i].0@ != #[trigger] self.0[j].0@
    }

    /// Whether the set holds a variant with the text of `variant`.
    pub fn contains(&self, variant: &CreatureVariant) -> (r: bool)
        ensures
            r == self.texts().contains(variant.0@),
    {
        let mut i: usize = 0;
        while i < self.0.len()
            invariant
                i <= self.0.len(),
                forall|k: int| 0 <= k < i ==> self.0[k].0@ != variant.0@,
            decreases self.0.len() - i,
        {
            if str_eq(self.0[i].0.as_str(), variant.0.as_str()) {
                assert(self.texts()[i as int] == variant.0@);
                return true;
            }
            i = i + 1;
        }
        proof {
            if self.texts().contains(variant.0@) {
                let k = choose|k: int| 0 <= k < self.texts().len() && self.texts()[k] == variant.0@;
                assert(self.0[k].0@ == variant.0@);
            }
        }
        false
    }

    /// Adds `variant` unless a variant with its text is there already.
    pub fn insert(&mut self, variant: CreatureVariant)
        requires
            old(self).wf(),
        ensures
            final(self).wf(),
            old(self).texts().contains(variant.0@) ==> final(self).0@ == old(self).0@,
            !old(self).texts().contains(variant.0@) ==> final(self).0@ == old(self).0@.push(variant),
    {
        if !self.contains(&variant) {
            let ghost before = self.texts();
            self.0.push(variant);
            assert forall|i: int, j: int|
                0 <= i < j < self.0.len() implies #[trigger] self.0[i].0@ != #[trigger] self.0[j].0@ by {
                if j == self.0.len() - 1 {
                    assert(before[i] == self.0[i].0@);
                }
            }
        }
    }

    /// For each variant group of a species, one variant picked by weight, where the group's
    /// weights allow a pick: each group whose weights allow a pick has a variant of weight
    /// above zero in the set, and each variant in the set is such a pick of such a group.
    pub fn random_for_species(variant_groups: &Vec<Vec<WeightedVariant>>, rng: &mut ThreadRng) -> (s: Self)
        ensures
            s.wf(),
            from_groups(s.0@, variant_groups@),
            s.0.len() <= variant_groups.len(),
            forall|g: int|
                0 <= g < variant_groups.len() && group_usable(#[trigger] variant_groups@[g]@) ==> holds_pick_of(
                    s.texts(),
                    variant_groups@[g]@,
                ),
            forall|k: int| 0 <= k < s.0.len() ==> picked_from_usable(#[trigger] s.0@[k].0@, variant_groups@),
    {
        let mut variant_set = CreatureVariantSet(Vec::new());
        let mut g: usize = 0;
        while g < variant_groups.len()
            invariant
                g <= variant_groups.len(),
                variant_set.wf(),
                from_groups(variant_set.0@, variant_groups@),
                variant_set.0.len() <= g,
                forall|h: int|
                    0 <= h < g && group_usable(#[trigger] variant_groups@[h]@) ==> holds_pick_of(
                        variant_set.texts(),
                        variant_groups@[h]@,
                    ),
                forall|k: int|
                    0 <= k < variant_set.0.len() ==> picked_from_usable(#[trigger] variant_set.0@[k].0@, variant_groups@),
            decreases variant_groups.len() - g,
        {
            match pick_creature_variant(&variant_groups[g], rng) {
                Some(i) => {
                    let variant = variant_groups[g][i].variant.duplicate();
                    proof {
                        lemma_push_from_groups(variant_set.0@, variant, variant_groups@, g as int, i as int);
                    }
                    let ghost before = variant_set.0@;
                    variant_set.insert(variant);
                    proof {
                        let group = variant_groups@[g as int]@;
                        assert(group[i as int].weight > 0);
                        lemma_texts_grow(before, variant_set.0@);
                        assert(variant_set.texts().contains(variant.0@)) by {
                            if variant_set.0@ == before {
                                assert(texts_of(before).contains(variant.0@));
                            } else {
                                assert(variant_set.texts()[before.len() as int] == variant.0@);
                            }
                        }
                        assert(holds_pick_of(variant_set.texts(), group)) by {
                            assert(group[i as int].variant.0@ == variant.0@);
                        }
                        assert forall|h: int|
                            0 <= h < g + 1 && group_usable(#[trigger] variant_groups@[h]@) implies holds_pick_of(
                            variant_set.texts(),
                            variant_groups@[h]@,
                        ) by {
                            if h < g {
                                lemma_holds_grow(before, variant_set.0@, variant_groups@[h]@);
                            }
                        }
                        assert forall|k: int| 0 <= k < variant_set.0.len() implies picked_from_usable(
                            #[trigger] variant_set.0@[k].0@,
                            variant_groups@,
                        ) by {
                            if k < before.len() {
                                assert(variant_set.0@[k] == before[k]);
                            } else {
                                assert(variant_set.0@[k] == variant);
                                assert(group_usable(variant_groups@[g as int]@));
                                assert(picked_from(variant.0@, group)) by {
                                    assert(group[i as int].variant.0@ == variant.0@);
                                }
                                assert(variant_groups@[g as int] == variant_groups@[g as int]);
                            }
                        }
                    }
                },
                None => {},
            }
            g = g + 1;
        }
        variant_set
    }

    /// For each variant group of which the set holds no variant, adds one picked by weight,
    /// where the group's weights allow a pick. Afterwards each group whose weights allow a pick
    /// has a variant in the set; what was there stays first, and each variant added is a pick
    /// of such a group of which the set held no variant before.
    pub fn insert_missing_variants(&mut self, variant_groups: &Vec<Vec<WeightedVariant>>, rng: &mut ThreadRng)
        requires
            old(self).wf(),
        ensures
            final(self).wf(),
            final(self).0.len() >= old(self).0.len(),
            final(self).0@.take(old(self).0.len() as int) == old(self).0@,
            from_groups(final(self).0@.skip(old(self).0.len() as int), variant_groups@),
            forall|g: int|
                0 <= g < variant_groups.len() && group_usable(#[trigger] variant_groups@[g]@) ==> holds_variant_of(
                    final(self).texts(),
                    variant_groups@[g]@,
                ),
            forall|k: int|
                old(self).0.len() <= k < final(self).0.len() ==> picked_for_missing(
                    #[trigger] final(self).0@[k].0@,
                    old(self).texts(),
                    variant_groups@,
                ),
    {
        let ghost start = self.0@;
        let mut g: usize = 0;
        assert(self.0@.skip(start.len() as int).len() == 0);
        while g < variant_groups.len()
            invariant
                g <= variant_groups.len(),
                self.wf(),
                self.0.len() >= start.len(),
                self.0@.take(start.len() as int) == start,
                from_groups(self.0@.skip(start.len() as int), variant_groups@),
                forall|h: int|
                    0 <= h < g && group_usable(#[trigger] variant_groups@[h]@) ==> holds_variant_of(
                        self.texts(),
                        variant_groups@[h]@,
                    ),
                forall|k: int|
                    start.len() <= k < self.0.len() ==> picked_for_missing(
                        #[trigger] self.0@[k].0@,
                        texts_of(start),
                        variant_groups@,
                    ),
            decreases variant_groups.len() - g,
        {
            let group = &variant_groups[g];
            let mut any_present = false;
            let mut j: usize = 0;
            while j < group.len()
                invariant
                    j <= group.len(),
                    any_present == exists|m: int| 0 <= m < j && self.texts().contains(#[trigger] group@[m].variant.0@),
                decreases group.len() - j,
            {
                if self.contains(&group[j].variant) {
                    any_present = true;
                }
                j = j + 1;
            }
            assert(any_present == holds_variant_of(self.texts(), group@));
            if !any_present {
                match pick_creature_variant(group, rng) {
                    Some(i) => {
                        let variant = group[i].variant.duplicate();
                        let ghost before = self.0@;
                        proof {
                            lemma_push_from_groups(before.skip(start.len() as int), variant, variant_groups@, g as int, i as int);
                            lemma_texts_grow(start, before);
                            lemma_holds_grow(start, before, group@);
                        }
                        self.insert(variant);
                        assert(self.0@.take(start.len() as int) =~= start);
                        proof {
                            if self.0@.len() > before.len() {
                                assert(self.0@.skip(start.len() as int) =~= before.skip(start.len() as int).push(variant));
                            }
                            lemma_texts_grow(before, self.0@);
                            assert(self.texts().contains(variant.0@)) by {
                                if self.0@ == before {
                                    assert(texts_of(before).contains(variant.0@));
                                } else {
                                    assert(self.texts()[before.len() as int] == variant.0@);
                                }
                            }
                            assert(holds_variant_of(self.texts(), group@)) by {
                                assert(group@[i as int].variant.0@ == variant.0@);
                            }
                            assert forall|h: int|
                                0 <= h < g + 1 && group_usable(#[trigger] variant_groups@[h]@) implies holds_variant_of(
                                self.texts(),
                                variant_groups@[h]@,
                            ) by {
                                if h < g {
                                    lemma_holds_grow(before, self.0@, variant_groups@[h]@);
                                }
                            }
                            assert forall|k: int| start.len() <= k < self.0.len() implies picked_for_missing(
                                #[trigger] self.0@[k].0@,
                                texts_of(start),
                                variant_groups@,
                            ) by {
                                if k < before.len() {
                                    assert(self.0@[k] == before[k]);
                                } else {
                                    assert(self.0@[k] == variant);
                                    assert(group_usable(variant_groups@[g as int]@));
                                    assert(picked_from(variant.0@, group@)) by {
                                        assert(group@[i as int].variant.0@ == variant.0@);
                                    }
                                }
                            }
                        }
                    },
                    None => {},
                }
            }
            g = g + 1;
        }
        assert(texts_of(start) == old(self).texts());
    }
}

/// The texts of the variants.
pub open spec fn texts_of(variants: Seq<CreatureVariant>) -> Seq<Seq<char>> {
    variants.map_values(|v: CreatureVariant| v.0@)
}

/// Whether the group's weights allow a pick.
pub open spec fn group_usable(group: Seq<WeightedVariant>) -> bool {
    crate::random::weights_usable(group_weights(group))
}

/// Whether the text is that of a variant of the group with a weight above zero.
pub open spec fn picked_from(text: Seq<char>, group: Seq<WeightedVariant>) -> bool {
    exists|i: int| #![trigger group[i]] 0 <= i < group.len() && group[i].weight > 0 && text == group[i].variant.0@
}

/// Whether the text is that of a variant of weight above zero of a group whose weights allow
/// a pick.
pub open spec fn picked_from_usable(text: Seq<char>, groups: Seq<Vec<WeightedVariant>>) -> bool {
    exists|g: int|
        #![trigger groups[g]]
        0 <= g < groups.len() && group_usable(groups[g]@) && picked_from(text, groups[g]@)
}

/// Whether the text is that of a variant of weight above zero of a group whose weights allow
/// a pick and of which `texts` hold no variant.
pub open spec fn picked_for_missing(text: Seq<char>, texts: Seq<Seq<char>>, groups: Seq<Vec<WeightedVariant>>) -> bool {
    exists|g: int|
        #![trigger groups[g]]
        0 <= g < groups.len() && group_usable(groups[g]@) && !holds_variant_of(texts, groups[g]@) && picked_from(
            text,
            groups[g]@,
        )
}

/// Whether the texts hold some variant of the group.
pub open spec fn holds_variant_of(texts: Seq<Seq<char>>, group: Seq<WeightedVariant>) -> bool {
    exists|i: int| #![trigger group[i]] 0 <= i < group.len() && texts.contains(group[i].variant.0@)
}

/// Whether the texts hold a variant of the group with a weight above zero.
pub open spec fn holds_pick_of(texts: Seq<Seq<char>>, group: Seq<WeightedVariant>) -> bool {
    exists|i: int| #![trigger group[i]] 0 <= i < group.len() && group[i].weight > 0 && texts.contains(group[i].variant.0@)
}

/// A set that keeps its variants in place and may add more holds every text it held.
proof fn lemma_texts_grow(a: Seq<CreatureVariant>, b: Seq<CreatureVariant>)
    requires
        a.len() <= b.len(),
        forall|m: int| 0 <= m < a.len() ==> b[m] == a[m],
    ensures
        forall|x: Seq<char>| texts_of(a).contains(x) ==> #[trigger] texts_of(b).contains(x),
{
    assert forall|x: Seq<char>| texts_of(a).contains(x) implies #[trigger] texts_of(b).contains(x) by {
        let m = choose|m: int| 0 <= m < texts_of(a).len() && texts_of(a)[m] == x;
        assert(texts_of(b)[m] == x);
    }
}

/// What a set holds of a group, it still holds once it has grown.
proof fn lemma_holds_grow(a: Seq<CreatureVariant>, b: Seq<CreatureVariant>, group: Seq<WeightedVariant>)
    requires
        a.len() <= b.len(),
        forall|m: int| 0 <= m < a.len() ==> b[m] == a[m],
    ensures
        holds_variant_of(texts_of(a), group) ==> holds_variant_of(texts_of(b), group),
        holds_pick_of(texts_of(a), group) ==> holds_pick_of(texts_of(b), group),
{
    lemma_texts_grow(a, b);
    if holds_variant_of(texts_of(a), group) {
        let i = choose|i: int| #![trigger group[i]] 0 <= i < group.len() && texts_of(a).contains(group[i].variant.0@);
        assert(texts_of(b).contains(group[i].variant.0@));
    }
    if holds_pick_of(texts_of(a), group) {
        let i = choose|i: int|
            #![trigger group[i]]
            0 <= i < group.len() && group[i].weight > 0 && texts_of(a).contains(group[i].variant.0@);
        assert(texts_of(b).contains(group[i].variant.0@));
    }
}

/// Each variant has the text of some variant of some group.
pub open spec fn from_groups(variants: Seq<CreatureVariant>, groups: Seq<Vec<WeightedVariant>>) -> bool {
    forall|k: int|
        #![trigger variants[k]]
        0 <= k < variants.len() ==> exists|g: int, i: int|
            #![trigger groups[g]@[i]]
            0 <= g < groups.len() && 0 <= i < groups[g]@.len() && variants[k].0@ == groups[g]@[i].variant.0@
}

pub proof fn lemma_push_from_groups(
    variants: Seq<CreatureVariant>,
    v: CreatureVariant,
    groups: Seq<Vec<WeightedVariant>>,
    g: int,
    i: int,
)
    requires
        from_groups(variants, groups),
        0 <= g < groups.len(),
        0 <= i < groups[g]@.len(),
        v.0@ == groups[g]@[i].variant.0@,
    ensures
        from_groups(variants.push(v), groups),
{
    let s = variants.push(v);
    assert forall|k: int| #![trigger s[k]] 0 <= k < s.len() implies exists|g2: int, i2: int|
        #![trigger groups[g2]@[i2]]
        0 <= g2 < groups.len() && 0 <= i2 < groups[g2]@.len() && s[k].0@ == groups[g2]@[i2].variant.0@ by {
        if k < variants.len() {
            assert(s[k] == variants[k]);
        } else {
            assert(groups[g]@[i] == groups[g]@[i]);
        }
    }
}

/// Picks the position of one variant of the group by weight; none where the group's weights
/// allow no pick.
fn pick_creature_variant(variant_group: &Vec<WeightedVariant>, rng: &mut ThreadRng) -> (r: Option<usize>)
    ensures
        r is Some <==> crate::random::weights_usable(group_weights(variant_group@)),
        r matches Some(i) ==> i < variant_group.len() && variant_group[i as int].weight > 0,
{
    let mut weights: Vec<u16> = Vec::new();
    let mut i: usize = 0;
    while i < variant_group.len()
        invariant
            i <= variant_group.len(),
            weights@ == group_weights(variant_group@.take(i as int)),
        decreases variant_group.len() - i,
    {
        weights.push(variant_group[i].weight);
        assert(group_weights(variant_group@.take(i + 1)) == group_weights(variant_group@.take(i as int)).push(variant_group@[i as int].weight));
        i = i + 1;
    }
    assert(variant_group@.take(variant_group.len() as int) == variant_group@);
    pick_weighted_index(rng, &weights)
}

} // verus!
