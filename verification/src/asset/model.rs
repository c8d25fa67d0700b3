use super::color::ColorSource;
use crate::base::display::{CreatureVariant, DialogueExpression};
use crate::game::view::ObjectProperties;
use crate::text::concat;
use indexmap::IndexMap;
use vstd::prelude::*;

verus! {

/// The path of a texture: `object/{texture}`.
pub fn texture_path(texture: &str) -> (p: String)
    ensures
        p@ == "object/"@ + texture@,
{
    concat("object/", texture)
}

/// The textures of a layer, each with the color it takes. There is at least one.
pub struct ColoredTextures<T>(Vec<(ColorSource, T)>);

impl<T> ColoredTextures<T> {
    #[verifier::type_invariant]
    spec fn non_empty(self) -> bool {
        self.0.len() > 0
    }

    /// The textures with their colors.
    pub closed spec fn entries(&self) -> Seq<(ColorSource, T)> {
        self.0@
    }

    /// One uncolored texture.
    pub fn from_texture(texture: T) -> (c: Self)
        ensures
            c.entries() == seq![(ColorSource::Uncolored, texture)],
    {
        ColoredTextures(vec![(ColorSource::Uncolored, texture)])
    }

    /// The textures of the list, which must not be empty.
    pub fn try_from_list(list: Vec<(ColorSource, T)>) -> (r: Result<Self, &'static str>)
        ensures
            list.len() == 0 ==> (r matches Err(m) && m@ == "Texture list must not be empty"@),
            list.len() > 0 ==> (r matches Ok(c) && c.entries() == list@),
    {
        if list.len() == 0 {
            Err("Texture list must not be empty")
        } else {
            Ok(ColoredTextures(list))
        }
    }

    /// The first texture.
    pub fn primary_texture(&self) -> (t: &T)
        ensures
            *t == self.entries()[0].1,
    {
        proof {
            use_type_invariant(self);
        }
        &self.0[0].1
    }

    /// The textures with their colors, in order.
    pub fn iter(&self) -> (v: Vec<(ColorSource, &T)>)
        ensures
            v.len() == self.entries().len(),
            forall|i: int| 0 <= i < v.len() ==> v[i].0 == self.entries()[i].0 && *v[i].1 == self.entries()[i].1,
    {
        let mut v: Vec<(ColorSource, &T)> = Vec::new();
        let mut i: usize = 0;
        while i < self.0.len()
            invariant
                i <= self.0.len(),
                v.len() == i,
                forall|k: int| 0 <= k < i ==> v[k].0 == self.0@[k].0 && *v[k].1 == self.0@[k].1,
            decreases self.0.len() - i,
        {
            v.push((self.0[i].0, &self.0[i].1));
            i = i + 1;
        }
        v
    }
}

/// A condition on how an object is drawn that decides whether a layer is drawn.
pub enum LayerCondition {
    Cut(bool),
    Alive(bool),
    Hurt(bool),
    Expression(DialogueExpression),
    Variant(CreatureVariant),
}

impl LayerCondition {
    /// Whether the condition holds of the object.
    pub open spec fn holds(&self, properties: ObjectProperties) -> bool {
        match self {
            LayerCondition::Cut(b) => *b == properties.is_cut,
            LayerCondition::Alive(b) => *b == properties.is_alive,
            LayerCondition::Hurt(b) => *b == properties.is_badly_hurt,
            LayerCondition::Expression(e) => *e == properties.expression,
            LayerCondition::Variant(v) => properties.creature_variant_set.texts().contains(v.0@),
        }
    }

    /// Whether the condition holds of the object.
    pub fn test(&self, properties: &ObjectProperties) -> (r: bool)
        ensures
            r == self.holds(*properties),
    {
        match self {
            LayerCondition::Cut(b) => *b == properties.is_cut,
            LayerCondition::Alive(b) => *b == properties.is_alive,
            LayerCondition::Hurt(b) => *b == properties.is_badly_hurt,
            LayerCondition::Expression(e) => *e == properties.expression,
            LayerCondition::Variant(v) => properties.creature_variant_set.contains(v),
        }
    }
}

/// Conditions that must all hold for a layer to be drawn.
pub struct LayerConditionList(pub Vec<LayerCondition>);

impl LayerConditionList {
    /// Whether every condition holds of the object.
    pub open spec fn holds(&self, properties: ObjectProperties) -> bool {
        forall|i: int| 0 <= i < self.0.len() ==> (#[trigger] self.0@[i]).holds(properties)
    }

    /// Whether every condition holds of the object.
    pub fn test(&self, properties: &ObjectProperties) -> (r: bool)
        ensures
            r == self.holds(*properties),
    {
        let mut i: usize = 0;
        while i < self.0.len()
            invariant
                i <= self.0.len(),
                forall|k: int| 0 <= k < i ==> (#[trigger] self.0@[k]).holds(*properties),
            decreases self.0.len() - i,
        {
            if !self.0[i].test(properties) {
                return false;
            }
            i = i + 1;
        }
        true
    }

    /// Whether there are no conditions.
    pub fn is_empty(&self) -> (r: bool)
        ensures
            r == (self.0.len() == 0),
    {
        self.0.len() == 0
    }
}

/// `indexmap::IndexMap`, an insertion-ordered hash map.
#[verifier::external_type_specification]
#[verifier::external_body]
#[verifier::reject_recursive_types(K)]
#[verifier::reject_recursive_types(V)]
#[verifier::reject_recursive_types(S)]
pub struct ExIndexMap<K, V, S>(IndexMap<K, V, S>);

/// The entries of a map of position groups, in their order: each group size with its offsets.
pub uninterp spec fn group_entries(m: IndexMap<u16, Vec<(i16, i16)>>) -> Seq<(u16, Seq<(i16, i16)>)>;

/// `IndexMap::new` (indexmap): an empty map.
#[verifier::external_body]
fn group_map_new() -> (m: IndexMap<u16, Vec<(i16, i16)>>)
    ensures
        group_entries(m) == Seq::<(u16, Seq<(i16, i16)>)>::empty(),
{
    IndexMap::new()
}

/// The position of the entry with the key, if any.
pub open spec fn key_index(entries: Seq<(u16, Seq<(i16, i16)>)>, key: u16) -> Option<int> {
    if exists|i: int| 0 <= i < entries.len() && entries[i].0 == key {
        Some(choose|i: int| 0 <= i < entries.len() && entries[i].0 == key)
    } else {
        None
    }
}

/// `IndexMap::insert` (indexmap): where the key is in the map, its value is replaced in place;
/// otherwise the entry is added last. The old value is returned where there was one.
#[verifier::external_body]
fn group_map_insert(m: &mut IndexMap<u16, Vec<(i16, i16)>>, key: u16, value: Vec<(i16, i16)>) -> (r: Option<
    Vec<(i16, i16)>,
>)
    ensures
        key_index(group_entries(*old(m)), key) matches Some(i) ==> group_entries(*final(m)) == group_entries(
            *old(m),
        ).update(i, (key, value@)),
        key_index(group_entries(*old(m)), key) matches Some(i) ==> (r matches Some(v) && v@ == group_entries(
            *old(m),
        )[i].1),
        key_index(group_entries(*old(m)), key) is None ==> group_entries(*final(m)) == group_entries(*old(m)).push(
            (key, value@),
        ),
        key_index(group_entries(*old(m)), key) is None ==> r is None,
{
    m.insert(key, value)
}

/// `IndexMap::len` (indexmap): the number of entries.
#[verifier::external_body]
fn group_map_len(m: &IndexMap<u16, Vec<(i16, i16)>>) -> (n: usize)
    ensures
        n == group_entries(*m).len(),
{
    m.len()
}

/// `IndexMap::get_index` (indexmap): the entry at a position in the order, copied out.
#[verifier::external_body]
fn group_map_get_index(m: &IndexMap<u16, Vec<(i16, i16)>>, index: usize) -> (r: Option<(u16, Vec<(i16, i16)>)>)
    ensures
        r is Some <==> index < group_entries(*m).len(),
        r matches Some(e) ==> (e.0 == group_entries(*m)[index as int].0 && e.1@ == group_entries(*m)[index as int].1),
{
    m.get_index(index).map(|(k, v)| (*k, v.clone()))
}

/// The first group size, from position `from` on, that has another number of offsets.
pub open spec fn first_bad_group(entries: Seq<(u16, Seq<(i16, i16)>)>, from: int) -> Option<int>
    decreases entries.len() - from,
{
    if from < 0 || from >= entries.len() {
        None
    } else if entries[from].1.len() != entries[from].0 {
        Some(from)
    } else {
        first_bad_group(entries, from + 1)
    }
}

/// What is wrong with a map of groups: a size 0; else no size 1; else the first size with
/// another number of offsets, with that number. None where nothing is.
pub open spec fn placement_error(entries: Seq<(u16, Seq<(i16, i16)>)>) -> Option<Seq<char>> {
    if exists|k: int| 0 <= k < entries.len() && (#[trigger] entries[k]).0 == 0 {
        Some("May not contain position group 0"@)
    } else if key_index(entries, 1) is None {
        Some("Must contain at least position group 1"@)
    } else {
        match first_bad_group(entries, 0) {
            Some(k) => Some(
                "Position group "@ + crate::text::decimal(entries[k].0 as nat) + " has wrong number of positions: "@
                    + crate::text::decimal(entries[k].1.len()),
            ),
            None => None,
        }
    }
}

proof fn lemma_first_bad_none(entries: Seq<(u16, Seq<(i16, i16)>)>, from: int)
    requires
        0 <= from <= entries.len(),
        first_bad_group(entries, from) is None,
    ensures
        forall|k: int| from <= k < entries.len() ==> (#[trigger] entries[k]).1.len() == entries[k].0,
    decreases entries.len() - from,
{
    if from < entries.len() {
        lemma_first_bad_none(entries, from + 1);
    }
}

/// How a group of objects of one kind stands at one place: for each group size, the offsets of
/// its members. Sizes are positive, size 1 is there, and each size has that many offsets.
pub struct GroupPlacement(IndexMap<u16, Vec<(i16, i16)>>);

/// Whether the entries make a valid placement: no size 0, size 1 present, and each size with
/// that many offsets.
pub open spec fn placement_valid(entries: Seq<(u16, Seq<(i16, i16)>)>) -> bool {
    &&& forall|i: int| 0 <= i < entries.len() ==> (#[trigger] entries[i]).0 != 0
    &&& key_index(entries, 1) is Some
    &&& forall|i: int| 0 <= i < entries.len() ==> (#[trigger] entries[i]).1.len() == entries[i].0
}

/// The largest size among the entries that is at most `count`.
pub open spec fn floor_size(entries: Seq<(u16, Seq<(i16, i16)>)>, count: u16) -> u16
    decreases entries.len(),
{
    if entries.len() == 0 {
        0
    } else {
        let rest = floor_size(entries.drop_last(), count);
        let k = entries.last().0;
        if k <= count && k > rest {
            k
        } else {
            rest
        }
    }
}

/// The sizes of the groups that `count` objects are split into: each time the largest size
/// that fits what is left.
pub open spec fn group_sizes(entries: Seq<(u16, Seq<(i16, i16)>)>, count: u16) -> Seq<u16>
    decreases count,
{
    let size = floor_size(entries, count);
    if count == 0 || size == 0 {
        Seq::empty()
    } else {
        proof {
            lemma_floor_size(entries, count);
        }
        seq![size] + group_sizes(entries, (count - size) as u16)
    }
}

/// The offsets of the first entry of the size.
pub open spec fn offsets_of(entries: Seq<(u16, Seq<(i16, i16)>)>, size: u16) -> Seq<(i16, i16)> {
    match key_index(entries, size) {
        Some(i) => entries[i].1,
        None => Seq::empty(),
    }
}

/// Whether the offsets are those of an entry of the size.
pub open spec fn group_matches(entries: Seq<(u16, Seq<(i16, i16)>)>, size: u16, offsets: Seq<(i16, i16)>) -> bool {
    exists|k: int| 0 <= k < entries.len() && entries[k].0 == size && offsets == entries[k].1
}

/// The sum of the sizes.
pub open spec fn size_sum(sizes: Seq<u16>) -> int
    decreases sizes.len(),
{
    if sizes.len() == 0 {
        0
    } else {
        sizes[0] + size_sum(sizes.drop_first())
    }
}

/// The largest fitting size is one of the sizes, at most the count, and at least 1 where size 1
/// is there and the count is positive.
pub proof fn lemma_floor_size(entries: Seq<(u16, Seq<(i16, i16)>)>, count: u16)
    ensures
        floor_size(entries, count) <= count,
        floor_size(entries, count) != 0 ==> key_index(entries, floor_size(entries, count)) is Some,
        count >= 1 && key_index(entries, 1) is Some ==> floor_size(entries, count) >= 1,
    decreases entries.len(),
{
    if entries.len() > 0 {
        let rest = entries.drop_last();
        lemma_floor_size(rest, count);
        let f = floor_size(entries, count);
        if f != 0 {
            if f == entries.last().0 && (f > floor_size(rest, count)) {
                assert(entries[entries.len() - 1].0 == f);
            } else {
                let i = choose|i: int| 0 <= i < rest.len() && rest[i].0 == f;
                assert(entries[i].0 == f);
            }
        }
        if count >= 1 && key_index(entries, 1) is Some {
            let i = choose|i: int| 0 <= i < entries.len() && entries[i].0 == 1u16;
            if i < entries.len() - 1 {
                assert(rest[i].0 == 1u16);
            }
        }
    }
}

/// Every group size is at least 1 where the placement is valid.
pub proof fn lemma_group_sizes_positive(entries: Seq<(u16, Seq<(i16, i16)>)>, count: u16)
    requires
        placement_valid(entries),
    ensures
        forall|i: int| 0 <= i < group_sizes(entries, count).len() ==> #[trigger] group_sizes(entries, count)[i] >= 1,
    decreases count,
{
    lemma_floor_size(entries, count);
    let size = floor_size(entries, count);
    if count > 0 {
        lemma_group_sizes_positive(entries, (count - size) as u16);
        let sizes = group_sizes(entries, count);
        assert forall|i: int| 0 <= i < sizes.len() implies #[trigger] sizes[i] >= 1 by {
            if i > 0 {
                assert(sizes[i] == group_sizes(entries, (count - size) as u16)[i - 1]);
            }
        }
    }
}

/// In a valid placement, the groups of `count` objects have `count` members in all.
pub proof fn law_groups_place_every_object(entries: Seq<(u16, Seq<(i16, i16)>)>, count: u16)
    requires
        placement_valid(entries),
    ensures
        size_sum(group_sizes(entries, count)) == count,
        forall|i: int|
            0 <= i < group_sizes(entries, count).len() ==> offsets_of(entries, #[trigger] group_sizes(entries, count)[i]).len()
                == group_sizes(entries, count)[i],
    decreases count,
{
    lemma_floor_size(entries, count);
    let size = floor_size(entries, count);
    if count > 0 {
        law_groups_place_every_object(entries, (count - size) as u16);
        let sizes = group_sizes(entries, count);
        assert(sizes.drop_first() == group_sizes(entries, (count - size) as u16));
        assert forall|i: int| 0 <= i < sizes.len() implies offsets_of(entries, #[trigger] sizes[i]).len() == sizes[i] by {
            if i == 0 {
                let k = key_index(entries, size)->0;
                assert(entries[k].1.len() == entries[k].0);
            } else {
                assert(sizes[i] == sizes.drop_first()[i - 1]);
            }
        }
    }
}

impl GroupPlacement {
    /// The entries of the placement, in order.
    pub closed spec fn entries(&self) -> Seq<(u16, Seq<(i16, i16)>)> {
        group_entries(self.0)
    }

    #[verifier::type_invariant]
    spec fn valid(self) -> bool {
        placement_valid(group_entries(self.0))
    }

    /// The placement of a map of groups, where it is valid; otherwise the message of the first
    /// check that fails, as [`placement_error`] gives it.
    pub fn try_from_map(value: IndexMap<u16, Vec<(i16, i16)>>) -> (r: Result<Self, String>)
        ensures
            r is Ok <==> placement_valid(group_entries(value)),
            r matches Ok(p) ==> p.entries() == group_entries(value),
            r is Ok <==> placement_error(group_entries(value)) is None,
            r matches Err(e) ==> Some(e@) == placement_error(group_entries(value)),
    {
        let ghost entries = group_entries(value);
        let n = group_map_len(&value);
        let mut has_zero = false;
        let mut has_one = false;
        let mut i: usize = 0;
        while i < n
            invariant
                i <= n,
                n == entries.len(),
                entries == group_entries(value),
                has_zero == exists|k: int| 0 <= k < i && (#[trigger] entries[k]).0 == 0,
                has_one == exists|k: int| 0 <= k < i && (#[trigger] entries[k]).0 == 1,
            decreases n - i,
        {
            let (key, _) = group_map_get_index(&value, i).unwrap();
            if key == 0 {
                has_zero = true;
            }
            if key == 1 {
                has_one = true;
            }
            i = i + 1;
        }
        if has_zero {
            proof {
                reveal_strlit("May not contain position group 0");
            }
            return Err("May not contain position group 0".to_owned());
        }
        if !has_one {
            proof {
                reveal_strlit("Must contain at least position group 1");
                if key_index(entries, 1) is Some {
                    let k = key_index(entries, 1)->0;
                    assert(entries[k].0 == 1);
                }
            }
            return Err("Must contain at least position group 1".to_owned());
        }
        assert(key_index(entries, 1) is Some);
        let mut i: usize = 0;
        while i < n
            invariant
                i <= n,
                n == entries.len(),
                entries == group_entries(value),
                forall|k: int| 0 <= k < i ==> (#[trigger] entries[k]).1.len() == entries[k].0,
                first_bad_group(entries, 0) == first_bad_group(entries, i as int),
                !(exists|k: int| 0 <= k < entries.len() && (#[trigger] entries[k]).0 == 0),
                key_index(entries, 1) is Some,
            decreases n - i,
        {
            let (key, positions) = group_map_get_index(&value, i).unwrap();
            if positions.len() != key as usize {
                let head = crate::text::concat3("Position group ", crate::text::decimal_u16(key).as_str(), " has wrong number of positions: ");
                let count = crate::text::string_of(&crate::text::decimal_chars(positions.len() as u64));
                let message = crate::text::concat(head.as_str(), count.as_str());
                proof {
                    reveal_strlit("Position group ");
                    reveal_strlit(" has wrong number of positions: ");
                    assert(first_bad_group(entries, i as int) == Some(i as int));
                    assert(!(exists|k: int| 0 <= k < entries.len() && (#[trigger] entries[k]).0 == 0));
                    assert(entries[i as int].0 == key && entries[i as int].1.len() == positions@.len());
                }
                assert(message@ =~= placement_error(entries)->0);
                return Err(message);
            }
            i = i + 1;
        }
        proof {
            lemma_first_bad_none(entries, n as int);
        }
        Ok(GroupPlacement(value))
    }

    /// The placement of single objects only: size 1 at no offset.
    pub fn single() -> (p: Self)
        ensures
            p.entries() == seq![(1u16, seq![(0i16, 0i16)])],
    {
        let mut map = group_map_new();
        let offsets: Vec<(i16, i16)> = vec![(0, 0)];
        assert(offsets@ =~= seq![(0i16, 0i16)]);
        group_map_insert(&mut map, 1, offsets);
        assert(group_entries(map) =~= seq![(1u16, seq![(0i16, 0i16)])]);
        assert(key_index(group_entries(map), 1) is Some) by {
            assert(group_entries(map)[0].0 == 1u16);
        }
        GroupPlacement(map)
    }

    fn floor_index(&self, count: u16) -> (k: u16)
        ensures
            k == floor_size(self.entries(), count),
    {
        let n = group_map_len(&self.0);
        let mut best: u16 = 0;
        let mut i: usize = 0;
        while i < n
            invariant
                i <= n,
                n == self.entries().len(),
                best == floor_size(self.entries().take(i as int), count),
            decreases n - i,
        {
            assert(self.entries().take(i + 1).drop_last() =~= self.entries().take(i as int));
            let (key, _) = group_map_get_index(&self.0, i).unwrap();
            if key <= count && key > best {
                best = key;
            }
            i = i + 1;
        }
        assert(self.entries().take(n as int) =~= self.entries());
        best
    }

    fn offsets_for(&self, size: u16) -> (r: Vec<(i16, i16)>)
        requires
            key_index(self.entries(), size) is Some,
        ensures
            group_matches(self.entries(), size, r@),
    {
        let n = group_map_len(&self.0);
        let mut i: usize = 0;
        while i < n
            invariant
                i <= n,
                n == self.entries().len(),
                key_index(self.entries(), size) is Some,
                forall|k: int| 0 <= k < i ==> self.entries()[k].0 != size,
            decreases n - i,
        {
            let (key, positions) = group_map_get_index(&self.0, i).unwrap();
            if key == size {
                assert(self.entries()[i as int].0 == size && positions@ == self.entries()[i as int].1);
                return positions;
            }
            i = i + 1;
        }
        proof {
            let k = choose|k: int| 0 <= k < self.entries().len() && self.entries()[k].0 == size;
            assert(self.entries()[k].0 != size);
        }
        Vec::new()
    }

    /// The offsets of each group that `count` objects are split into: each time the largest
    /// size that fits what is left.
    pub fn position(&self, count: u16) -> (groups: Vec<Vec<(i16, i16)>>)
        ensures
            groups.len() == group_sizes(self.entries(), count).len(),
            forall|i: int|
                0 <= i < groups.len() ==> group_matches(
                    self.entries(),
                    group_sizes(self.entries(), count)[i],
                    (#[trigger] groups[i])@,
                ),
            forall|i: int|
                0 <= i < groups.len() ==> (#[trigger] groups[i])@.len() == group_sizes(self.entries(), count)[i]
                    && group_sizes(self.entries(), count)[i] >= 1,
            size_sum(group_sizes(self.entries(), count)) == count,
    {
        proof {
            use_type_invariant(self);
            law_groups_place_every_object(self.entries(), count);
            lemma_group_sizes_positive(self.entries(), count);
        }
        let mut groups: Vec<Vec<(i16, i16)>> = Vec::new();
        let mut remaining: u16 = count;
        let ghost mut done: Seq<u16> = Seq::empty();
        while remaining > 0
            invariant
                placement_valid(self.entries()),
                done + group_sizes(self.entries(), remaining) == group_sizes(self.entries(), count),
                groups.len() == done.len(),
                forall|i: int| 0 <= i < groups.len() ==> group_matches(self.entries(), done[i], (#[trigger] groups[i])@),
            decreases remaining,
        {
            proof {
                lemma_floor_size(self.entries(), remaining);
            }
            let size = self.floor_index(remaining);
            let offsets = self.offsets_for(size);
            let ghost before = groups@;
            groups.push(offsets);
            proof {
                assert forall|i: int|
                    0 <= i < groups.len() implies group_matches(
                        self.entries(),
                        done.push(size)[i],
                        (#[trigger] groups[i])@,
                    ) by {
                    if i < before.len() {
                        assert(groups[i] == before[i]);
                        assert(done.push(size)[i] == done[i]);
                    } else {
                        assert(groups[i] == offsets);
                    }
                }
                assert(group_sizes(self.entries(), remaining) == seq![size] + group_sizes(
                    self.entries(),
                    (remaining - size) as u16,
                ));
                assert(done.push(size) + group_sizes(self.entries(), (remaining - size) as u16) =~= done + group_sizes(
                    self.entries(),
                    remaining,
                ));
                done = done.push(size);
            }
            remaining = remaining - size;
        }
        assert(group_sizes(self.entries(), 0) =~= Seq::<u16>::empty());
        assert(done =~= group_sizes(self.entries(), count));
        assert forall|i: int| 0 <= i < groups.len() implies (#[trigger] groups[i])@.len() == group_sizes(
            self.entries(),
            count,
        )[i] && group_sizes(self.entries(), count)[i] >= 1 by {
            let k = choose|k: int|
                0 <= k < self.entries().len() && self.entries()[k].0 == done[i] && groups[i]@ == self.entries()[k].1;
            assert(self.entries()[k].1.len() == self.entries()[k].0);
        }
        groups
    }
}

} // verus!
