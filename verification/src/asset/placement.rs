use super::model::{GroupPlacement, group_sizes, size_sum};
use crate::base::position::{Coord, Direction, checked_add_signed};
use crate::sorting::{goes_before, is_stable_order, lemma_stable_order_covers, lists_index, stable_order};
use std::collections::HashMap;
use vstd::prelude::*;

verus! {

/// How far objects at a coordinate have been pushed aside so far: how many have been moved
/// sideways, and how far back the next one goes.
pub open spec fn count_at(counts: Map<Coord, (u16, i16)>, coord: Coord) -> (u16, i16) {
    if counts.contains_key(coord) {
        counts[coord]
    } else {
        (0, 0)
    }
}

/// The largest sideways count and the largest depth among the coordinates (both at least 0).
pub open spec fn range_max(counts: Map<Coord, (u16, i16)>, range: Seq<Coord>) -> (int, int)
    decreases range.len(),
{
    if range.len() == 0 {
        (0, 0)
    } else {
        let rest = range_max(counts, range.drop_last());
        let c = count_at(counts, range.last());
        (
            if c.0 > rest.0 { c.0 as int } else { rest.0 },
            if c.1 > rest.1 { c.1 as int } else { rest.1 },
        )
    }
}

/// The bounds of the largest values are those of the values.
proof fn lemma_range_max_bounds(counts: Map<Coord, (u16, i16)>, range: Seq<Coord>)
    ensures
        0 <= range_max(counts, range).0 <= u16::MAX,
        0 <= range_max(counts, range).1 <= i16::MAX,
        range_max(counts, range).0 == 0 || exists|i: int|
            0 <= i < range.len() && range_max(counts, range).0 == count_at(counts, #[trigger] range[i]).0,
        range_max(counts, range).1 == 0 || exists|i: int|
            0 <= i < range.len() && range_max(counts, range).1 == count_at(counts, #[trigger] range[i]).1,
    decreases range.len(),
{
    if range.len() > 0 {
        lemma_range_max_bounds(counts, range.drop_last());
        let rest = range_max(counts, range.drop_last());
        let c = count_at(counts, range.last());
        if c.0 > rest.0 {
            assert(range_max(counts, range).0 == count_at(counts, range[range.len() - 1]).0);
        } else if rest.0 != 0 {
            let i = choose|i: int|
                0 <= i < range.len() - 1 && rest.0 == count_at(counts, #[trigger] range.drop_last()[i]).0;
            assert(range.drop_last()[i] == range[i]);
        }
        if c.1 > rest.1 {
            assert(range_max(counts, range).1 == count_at(counts, range[range.len() - 1]).1);
        } else if rest.1 != 0 {
            let i = choose|i: int|
                0 <= i < range.len() - 1 && rest.1 == count_at(counts, #[trigger] range.drop_last()[i]).1;
            assert(range.drop_last()[i] == range[i]);
        }
    }
}

/// Keeps track of how objects at each coordinate are pushed aside, so that objects at one
/// place do not cover each other.
pub struct Positioner {
    pub coord_counts: HashMap<Coord, (u16, i16)>,
}

impl Default for Positioner {
    /// Nothing placed yet.
    fn default() -> (p: Self)
        ensures
            p.coord_counts@ == Map::<Coord, (u16, i16)>::empty(),
    {
        Positioner { coord_counts: HashMap::new() }
    }
}

/// The coordinates that an object takes: its own, and for one with large displacement the one
/// behind it where there is one.
pub fn displacement_range(coord: Coord, large_displacement: bool, direction: Direction) -> (r: Vec<Coord>)
    ensures
        large_displacement && 0 <= coord - direction.offset() <= u32::MAX ==> r@ == seq![
            coord,
            (coord - direction.offset()) as Coord,
        ],
        !(large_displacement && 0 <= coord - direction.offset() <= u32::MAX) ==> r@ == seq![coord],
{
    if large_displacement {
        match checked_add_signed(coord, direction.opposite().to_i32()) {
            Some(coord2) => {
                let r = vec![coord, coord2];
                assert(r@ =~= seq![coord, coord2]);
                return r;
            },
            None => {},
        }
    }
    let r = vec![coord];
    assert(r@ =~= seq![coord]);
    r
}

impl Positioner {
    /// Places an object over the coordinates of `range`: gives back the largest sideways count
    /// and depth among them, and records for each of them that count plus one (where the object
    /// is moved sideways) and that depth plus the object's own.
    pub fn calculate_displacement(&mut self, range: &Vec<Coord>, has_x_displacement: bool, z_displacement: i16) -> (r:
        (u16, i16))
        requires
            forall|i: int| 0 <= i < range.len() ==> count_at(old(self).coord_counts@, #[trigger] range@[i]).0 < u16::MAX,
            forall|i: int|
                0 <= i < range.len() ==> i16::MIN <= count_at(old(self).coord_counts@, #[trigger] range@[i]).1
                    + z_displacement <= i16::MAX,
            0 + z_displacement <= i16::MAX,
        ensures
            r.0 == range_max(old(self).coord_counts@, range@).0,
            r.1 == range_max(old(self).coord_counts@, range@).1,
            forall|c: Coord|
                range@.contains(c) ==> #[trigger] final(self).coord_counts@.contains_key(c) && final(self).coord_counts@[c]
                    == ((r.0 + (if has_x_displacement { 1int } else { 0int })) as u16, (r.1 + z_displacement) as i16),
            forall|c: Coord|
                !range@.contains(c) ==> count_at(final(self).coord_counts@, c) == count_at(
                    old(self).coord_counts@,
                    c,
                ),
    {
        broadcast use vstd::std_specs::hash::group_hash_axioms;

        let mut x_count: u16 = 0;
        let mut z: i16 = 0;
        let mut i: usize = 0;
        while i < range.len()
            invariant
                i <= range.len(),
                self.coord_counts@ == old(self).coord_counts@,
                x_count == range_max(self.coord_counts@, range@.take(i as int)).0,
                z == range_max(self.coord_counts@, range@.take(i as int)).1,
            decreases range.len() - i,
        {
            assert(range@.take(i + 1).drop_last() =~= range@.take(i as int));
            let (x2, z2) = match self.coord_counts.get(&range[i]) {
                Some(counts) => *counts,
                None => (0, 0),
            };
            if x2 > x_count {
                x_count = x2;
            }
            if z2 > z {
                z = z2;
            }
            i = i + 1;
        }
        assert(range@.take(range.len() as int) =~= range@);
        proof {
            lemma_range_max_bounds(self.coord_counts@, range@);
        }
        let updated_x: u16 = x_count + if has_x_displacement { 1 } else { 0 };
        let updated_z: i16 = z + z_displacement;
        let mut j: usize = 0;
        while j < range.len()
            invariant
                j <= range.len(),
                forall|k: int|
                    0 <= k < j ==> #[trigger] self.coord_counts@.contains_key(range@[k]) && self.coord_counts@[range@[k]]
                        == (updated_x, updated_z),
                forall|c: Coord|
                    (forall|k: int| 0 <= k < j ==> range@[k] != c) ==> #[trigger] count_at(self.coord_counts@, c)
                        == count_at(old(self).coord_counts@, c),
            decreases range.len() - j,
        {
            let ghost prev = self.coord_counts@;
            self.coord_counts.insert(range[j], (updated_x, updated_z));
            assert(self.coord_counts@ == prev.insert(range@[j as int], (updated_x, updated_z)));
            assert forall|k: int| 0 <= k < j + 1 implies #[trigger] self.coord_counts@.contains_key(range@[k])
                && self.coord_counts@[range@[k]] == (updated_x, updated_z) by {
                if k < j && range@[k] != range@[j as int] {
                    assert(prev.contains_key(range@[k]));
                }
            }
            assert forall|c: Coord| (forall|k: int| 0 <= k < j + 1 ==> range@[k] != c) implies #[trigger] count_at(
                self.coord_counts@,
                c,
            ) == count_at(old(self).coord_counts@, c) by {
                assert(range@[j as int] != c);
                assert(count_at(prev, c) == count_at(old(self).coord_counts@, c));
            }
            j = j + 1;
        }
        let r = (x_count, z);
        assert(updated_x == ((r.0 + (if has_x_displacement { 1int } else { 0int })) as u16));
        assert(updated_z == ((r.1 + z_displacement) as i16));
        assert forall|c: Coord|
            #![trigger self.coord_counts@.contains_key(c)]
            #![trigger self.coord_counts@[c]]
            range@.contains(c) implies self.coord_counts@.contains_key(c) && self.coord_counts@[c] == (
                (r.0 + (if has_x_displacement { 1int } else { 0int })) as u16,
                (r.1 + z_displacement) as i16,
            ) by {
            let k = choose|k: int| 0 <= k < range.len() && range@[k] == c;
            assert(self.coord_counts@.contains_key(range@[k]));
        }
        assert forall|c: Coord| !range@.contains(c) implies #[trigger] count_at(self.coord_counts@, c) == count_at(
            old(self).coord_counts@,
            c,
        ) by {
            assert forall|k: int| 0 <= k < range.len() implies range@[k] != c by {
                if range@[k] == c {
                    assert(range@.contains(c));
                }
            }
        }
        r
    }
}


/// What placing objects reads of a model: its order among objects at one place, how far it is
/// drawn back, whether it pushes others sideways and back, whether it takes the place behind it
/// too, and how a group of its kind stands.
pub struct ModelLayout {
    pub order_weight: i16,
    pub z_offset: i16,
    pub has_x_displacement: bool,
    pub z_displacement: i16,
    pub large_displacement: bool,
    pub group_placement: GroupPlacement,
}

/// The size of a number.
pub open spec fn magnitude(v: int) -> int {
    if v < 0 {
        -v
    } else {
        v
    }
}

/// The largest size of a model's depth step.
pub open spec fn depth_step_bound(models: Seq<ModelLayout>) -> int
    decreases models.len(),
{
    if models.len() == 0 {
        0
    } else {
        let rest = depth_step_bound(models.drop_last());
        let d = magnitude(models.last().z_displacement as int);
        if d > rest {
            d
        } else {
            rest
        }
    }
}

/// Every model's depth step is within the bound.
pub proof fn lemma_depth_step_bound(models: Seq<ModelLayout>)
    ensures
        depth_step_bound(models) >= 0,
        forall|m: int| 0 <= m < models.len() ==> magnitude(#[trigger] models[m].z_displacement as int) <= depth_step_bound(models),
    decreases models.len(),
{
    if models.len() > 0 {
        lemma_depth_step_bound(models.drop_last());
        assert forall|m: int| 0 <= m < models.len() implies magnitude(#[trigger] models[m].z_displacement as int)
            <= depth_step_bound(models) by {
            if m < models.len() - 1 {
                assert(models[m] == models.drop_last()[m]);
            }
        }
    }
}

/// Whether the recorded pushes stay within what `placements` placements can make: at most one
/// sideways step and one depth step (of at most `step`) each.
pub open spec fn counts_within(counts: Map<Coord, (u16, i16)>, placements: int, depth: int) -> bool {
    forall|c: Coord|
        #[trigger] counts.contains_key(c) ==> counts[c].0 <= placements && -depth <= counts[c].1 <= depth
}

/// Whether `x` is the center of coordinate `coord` moved left 15 pixels for each of `pushed`
/// objects: the center of coordinate 0 is at 40, and each coordinate is 120 wide.
pub open spec fn pushed_aside(x: int, coord: int, pushed: int) -> bool {
    x == 40 + 120 * coord - 15 * pushed
}

impl Positioner {
    /// Places one object of the model at `coord`: the position of its center in pixels (the
    /// coordinate's center, moved left 15 for each object pushed aside there, and 190 down,
    /// raised by the depth there and the model's offset) and its depth, which is the height
    /// negated.
    pub fn position_object(&mut self, coord: Coord, direction: Direction, model: &ModelLayout, Ghost(placements): Ghost<int>, Ghost(step): Ghost<int>) -> (r: (i64, i32, i16))
        requires
            counts_within(old(self).coord_counts@, placements, placements * step),
            0 <= placements,
            placements + 1 <= 4368,
            magnitude(model.z_displacement as int) <= step,
            (placements + 1) * step + magnitude(model.z_offset as int) + 190 <= 32766,
        ensures
            counts_within(final(self).coord_counts@, placements + 1, (placements + 1) * step),
            pushed_aside(r.0 as int, coord as int, (40 + 120 * coord - r.0) / 15),
            0 <= 40 + 120 * coord - r.0 <= 15 * placements,
            r.1 <= 190 - model.z_offset,
            r.2 == -r.1,
    {
        proof {
            assert((placements + 1) * step == placements * step + step) by (nonlinear_arith);
            assert(step >= 0);
            assert(placements * step >= 0) by (nonlinear_arith)
                requires
                    placements >= 0,
                    step >= 0,
            ;
        }
        let range = displacement_range(coord, model.large_displacement, direction);
        let ghost before = self.coord_counts@;
        proof {
            assert forall|i: int| 0 <= i < range.len() implies count_at(before, #[trigger] range@[i]).0 < u16::MAX
                && i16::MIN <= count_at(before, range@[i]).1 + model.z_displacement <= i16::MAX by {
                if before.contains_key(range@[i]) {
                    assert(before[range@[i]].0 <= placements);
                }
            }
        }
        let (pushed, depth) = self.calculate_displacement(&range, model.has_x_displacement, model.z_displacement);
        proof {
            lemma_range_max_bounds(before, range@);
            if pushed != 0 {
                let i = choose|i: int| 0 <= i < range.len() && pushed == count_at(before, #[trigger] range@[i]).0;
                if before.contains_key(range@[i]) {
                    assert(before[range@[i]].0 <= placements);
                } else {
                    assert(count_at(before, range@[i]).0 == 0);
                }
            }
            assert(pushed <= placements);
            if depth != 0 {
                let i = choose|i: int| 0 <= i < range.len() && depth == count_at(before, #[trigger] range@[i]).1;
                if before.contains_key(range@[i]) {
                    assert(before[range@[i]].1 <= placements * step);
                }
            }
            assert forall|c: Coord| #[trigger] self.coord_counts@.contains_key(c) implies self.coord_counts@[c].0
                <= placements + 1 && -((placements + 1) * step) <= self.coord_counts@[c].1 <= (placements + 1) * step by {
                if range@.contains(c) {
                } else {
                    assert(count_at(self.coord_counts@, c) == count_at(before, c));
                    if before.contains_key(c) {
                    } else {
                        assert(self.coord_counts@[c] == count_at(self.coord_counts@, c));
                    }
                }
            }
        }
        let x: i64 = 40 + 120 * (coord as i64) - (pushed as i64) * 15;
        let y: i16 = 190 - depth - model.z_offset;
        assert(40 + 120 * coord - x == 15 * pushed);
        assert((40 + 120 * coord - x) / 15 == pushed as int);
        (x, y as i32, -y)
    }
}


/// What an object becomes when placed: its index among the objects, the position of its center
/// in pixels, and its depth (objects of smaller depth are drawn first).
#[derive(Clone, Copy, Debug, PartialEq, Eq)]
pub struct PlacedObject {
    pub object: usize,
    pub x: i64,
    pub y: i32,
    pub z: i16,
}

/// What placing reads of an object: where it stands, which way it faces, whether it is the
/// controlled character, and the index of its model.
#[derive(Clone, Copy, Debug)]
pub struct ObjectLayout {
    pub coord: Coord,
    pub direction: Direction,
    pub is_controlled: bool,
    pub model: usize,
}

proof fn lemma_size_sum_push(s: Seq<u16>, x: u16)
    ensures
        size_sum(s.push(x)) == size_sum(s) + x,
    decreases s.len(),
{
    if s.len() > 0 {
        lemma_size_sum_push(s.drop_first(), x);
        assert(s.push(x).drop_first() =~= s.drop_first().push(x));
        assert(s.push(x)[0] == s[0]);
        assert(size_sum(s) == s[0] + size_sum(s.drop_first()));
        assert(size_sum(s.push(x)) == s.push(x)[0] + size_sum(s.push(x).drop_first()));
    } else {
        assert(s.push(x).drop_first() =~= Seq::<u16>::empty());
        assert(s.push(x)[0] == x);
        assert(size_sum(Seq::<u16>::empty()) == 0);
        assert(size_sum(s.push(x)) == s.push(x)[0] + size_sum(s.push(x).drop_first()));
    }
}

/// The sums of the first sizes grow with each size, which is at least 1, up to the sum of all.
proof fn lemma_size_prefix(s: Seq<u16>, k: int)
    requires
        0 <= k <= s.len(),
        forall|i: int| 0 <= i < s.len() ==> #[trigger] s[i] >= 1,
    ensures
        k <= size_sum(s.take(k)) <= size_sum(s),
        k < s.len() ==> size_sum(s.take(k + 1)) == size_sum(s.take(k)) + s[k],
    decreases s.len() - k,
{
    if k < s.len() {
        assert(s.take(k + 1) =~= s.take(k).push(s[k]));
        lemma_size_sum_push(s.take(k), s[k]);
        lemma_size_prefix(s, k + 1);
    } else {
        assert(s.take(k) =~= s);
    }
    if k > 0 {
        assert(s.take(k) =~= s.take(k - 1).push(s[k - 1]));
        lemma_size_sum_push(s.take(k - 1), s[k - 1]);
        lemma_size_prefix_low(s, k - 1);
    }
}

proof fn lemma_size_prefix_low(s: Seq<u16>, k: int)
    requires
        0 <= k <= s.len(),
        forall|i: int| 0 <= i < s.len() ==> #[trigger] s[i] >= 1,
    ensures
        k <= size_sum(s.take(k)),
    decreases k,
{
    if k > 0 {
        assert(s.take(k) =~= s.take(k - 1).push(s[k - 1]));
        lemma_size_sum_push(s.take(k - 1), s[k - 1]);
        lemma_size_prefix_low(s, k - 1);
    } else {
        assert(s.take(0) =~= Seq::<u16>::empty());
    }
}

proof fn lemma_scale_monotonic(a: int, b: int, step: int)
    requires
        a <= b,
        step >= 0,
    ensures
        a * step <= b * step,
{
    assert(a * step <= b * step) by (nonlinear_arith)
        requires
            a <= b,
            step >= 0,
    ;
}

/// Bounds for `placements` placements stay bounds for more.
proof fn lemma_counts_within_more(counts: Map<Coord, (u16, i16)>, a: int, b: int, step: int)
    requires
        counts_within(counts, a, a * step),
        a <= b,
        step >= 0,
    ensures
        counts_within(counts, b, b * step),
{
    lemma_scale_monotonic(a, b, step);
}

/// Whether every model's depth step is within `step`, and `placements` more placements keep
/// every height within an `i16`.
pub open spec fn depth_fits(models: Seq<ModelLayout>, placements: int, step: int) -> bool {
    &&& step >= 0
    &&& forall|m: int| 0 <= m < models.len() ==> magnitude(#[trigger] models[m].z_displacement as int) <= step
    &&& forall|m: int| 0 <= m < models.len() ==> placements * step + magnitude(#[trigger] models[m].z_offset as int) + 190 <= 32766
}

impl Positioner {
    /// Places a group of objects of one kind at one place: the group is split by the model's
    /// group placement, each part placed once and its members set apart by the part's offsets.
    /// Gives each member of the group, in order, with its position.
    fn place_group(
        &mut self,
        group: &Vec<usize>,
        objects: &Vec<ObjectLayout>,
        models: &Vec<ModelLayout>,
        Ghost(placed): Ghost<int>,
        Ghost(step): Ghost<int>,
    ) -> (r: Vec<PlacedObject>)
        requires
            forall|m: int| 0 <= m < group.len() ==> #[trigger] group@[m] < objects.len(),
            forall|o: int| 0 <= o < objects.len() ==> (#[trigger] objects@[o]).model < models.len(),
            0 <= placed,
            placed + group.len() <= 4368,
            depth_fits(models@, placed + group.len(), step),
            counts_within(old(self).coord_counts@, placed, placed * step),
        ensures
            r.len() == group.len(),
            forall|m: int| 0 <= m < r.len() ==> (#[trigger] r@[m]).object == group@[m],
            counts_within(final(self).coord_counts@, placed + group.len(), (placed + group.len()) * step),
    {
        let mut r: Vec<PlacedObject> = Vec::new();
        if group.len() == 0 {
            proof {
                lemma_counts_within_more(self.coord_counts@, placed, placed + group.len(), step);
            }
            return r;
        }
        let first = objects[group[0]];
        let model = &models[first.model];
        let offset_groups = model.group_placement.position(group.len() as u16);
        let ghost sizes = group_sizes(model.group_placement.entries(), group.len() as u16);
        proof {
            assert(forall|i: int| 0 <= i < sizes.len() ==> #[trigger] sizes[i] >= 1) by {
                assert forall|i: int| 0 <= i < sizes.len() implies #[trigger] sizes[i] >= 1 by {
                    assert(offset_groups@[i]@.len() == sizes[i] && sizes[i] >= 1);
                }
            }
            assert(magnitude(model.z_displacement as int) <= step);
        }
        let mut gi: usize = 0;
        while gi < offset_groups.len()
            invariant
                gi <= offset_groups.len() == sizes.len(),
                forall|i: int| 0 <= i < sizes.len() ==> #[trigger] sizes[i] >= 1,
                forall|i: int| 0 <= i < offset_groups.len() ==> (#[trigger] offset_groups@[i])@.len() == sizes[i],
                size_sum(sizes) == group.len(),
                r.len() == size_sum(sizes.take(gi as int)),
                forall|m: int| 0 <= m < r.len() ==> (#[trigger] r@[m]).object == group@[m],
                counts_within(self.coord_counts@, placed + gi, (placed + gi) * step),
                0 <= placed,
                placed + group.len() <= 4368,
                depth_fits(models@, placed + group.len(), step),
                first.model < models.len(),
                magnitude(model.z_displacement as int) <= step,
                magnitude(model.z_offset as int) + (placed + group.len()) * step + 190 <= 32766,
            decreases offset_groups.len() - gi,
        {
            proof {
                lemma_size_prefix(sizes, gi as int);
                lemma_size_prefix(sizes, gi + 1);
                lemma_scale_monotonic(placed + gi + 1, placed + group.len(), step);
            }
            let (x, y, z) = self.position_object(first.coord, first.direction, model, Ghost(placed + gi), Ghost(step));
            let offsets = &offset_groups[gi];
            let ghost start = r.len();
            let mut oi: usize = 0;
            while oi < offsets.len()
                invariant
                    oi <= offsets.len() == sizes[gi as int],
                    gi < sizes.len(),
                    r.len() == start + oi,
                    start + sizes[gi as int] <= group.len(),
                    forall|m: int| 0 <= m < r.len() ==> (#[trigger] r@[m]).object == group@[m],
                    x <= 40 + 120 * (u32::MAX as int),
                    x >= 40 - 15 * 4368,
                    -32767 <= y <= 32767,
                decreases offsets.len() - oi,
            {
                let idx = r.len();
                let (ox, oy) = offsets[oi];
                r.push(PlacedObject { object: group[idx], x: x + ox as i64, y: y + oy as i32, z });
                oi = oi + 1;
            }
            gi = gi + 1;
            proof {
                lemma_size_prefix(sizes, (gi - 1) as int);
            }
        }
        proof {
            assert(sizes.take(sizes.len() as int) =~= sizes);
            lemma_size_prefix(sizes, sizes.len() as int);
            lemma_counts_within_more(self.coord_counts@, placed + gi, placed + group.len(), step);
        }
        r
    }
}


/// The number of objects waiting in the groups.
pub open spec fn waiting_count(groups: Seq<Vec<usize>>) -> int
    decreases groups.len(),
{
    if groups.len() == 0 {
        0
    } else {
        waiting_count(groups.drop_last()) + groups.last().len()
    }
}

proof fn lemma_waiting_count_update(groups: Seq<Vec<usize>>, c: int, v: Vec<usize>)
    requires
        0 <= c < groups.len(),
    ensures
        waiting_count(groups.update(c, v)) == waiting_count(groups) - groups[c].len() + v.len(),
        groups[c].len() <= waiting_count(groups),
        waiting_count(groups) >= 0,
    decreases groups.len(),
{
    let u = groups.update(c, v);
    lemma_waiting_count_nonneg(groups.drop_last());
    if c == groups.len() - 1 {
        assert(u.drop_last() =~= groups.drop_last());
    } else {
        lemma_waiting_count_update(groups.drop_last(), c, v);
        assert(u.drop_last() =~= groups.drop_last().update(c, v));
    }
}

proof fn lemma_waiting_count_nonneg(groups: Seq<Vec<usize>>)
    ensures
        waiting_count(groups) >= 0,
    decreases groups.len(),
{
    if groups.len() > 0 {
        lemma_waiting_count_nonneg(groups.drop_last());
    }
}

proof fn lemma_waiting_count_empty(groups: Seq<Vec<usize>>)
    requires
        forall|c: int| 0 <= c < groups.len() ==> (#[trigger] groups[c]).len() == 0,
    ensures
        waiting_count(groups) == 0,
    decreases groups.len(),
{
    if groups.len() > 0 {
        lemma_waiting_count_empty(groups.drop_last());
    }
}

/// Whether a placed object is the object `o`.
pub open spec fn is_placed(out: Seq<PlacedObject>, o: usize) -> bool {
    exists|k: int| 0 <= k < out.len() && (#[trigger] out[k]).object == o
}

/// Whether object `o` waits in one of the groups.
pub open spec fn is_waiting(groups: Seq<Vec<usize>>, o: usize) -> bool {
    exists|c: int, m: int| 0 <= c < groups.len() && 0 <= m < groups[c].len() && (#[trigger] groups[c]@[m]) == o
}

/// Places the objects that wait at coordinate `c` and adds them to `out`.
fn flush_group(
    positioner: &mut Positioner,
    groups: &mut Vec<Vec<usize>>,
    c: usize,
    out: &mut Vec<PlacedObject>,
    objects: &Vec<ObjectLayout>,
    models: &Vec<ModelLayout>,
    Ghost(step): Ghost<int>,
)
    requires
        c < old(groups).len(),
        forall|g: int, m: int|
            0 <= g < old(groups).len() && 0 <= m < old(groups)@[g].len() ==> #[trigger] old(groups)@[g]@[m] < objects.len(),
        forall|o: int| 0 <= o < objects.len() ==> (#[trigger] objects@[o]).model < models.len(),
        forall|k: int| 0 <= k < old(out).len() ==> (#[trigger] old(out)@[k]).object < objects.len(),
        old(out).len() + waiting_count(old(groups)@) <= 4368,
        depth_fits(models@, old(out).len() + waiting_count(old(groups)@), step),
        counts_within(old(positioner).coord_counts@, old(out).len() as int, old(out).len() * step),
    ensures
        final(groups)@ == old(groups)@.update(c as int, final(groups)@[c as int]),
        final(groups)@[c as int].len() == 0,
        final(out).len() + waiting_count(final(groups)@) == old(out).len() + waiting_count(old(groups)@),
        final(out)@.take(old(out).len() as int) == old(out)@,
        forall|m: int| 0 <= m < old(groups)@[c as int].len() ==> (#[trigger] final(out)@[old(out).len() + m]).object == old(groups)@[c as int]@[m],
        forall|k: int| 0 <= k < final(out).len() ==> (#[trigger] final(out)@[k]).object < objects.len(),
        forall|k: int| 0 <= k < old(out).len() ==> #[trigger] final(out)@[k] == old(out)@[k],
        counts_within(final(positioner).coord_counts@, final(out).len() as int, final(out).len() * step),
        forall|o: usize| is_placed(old(out)@, o) || is_waiting(old(groups)@, o) ==> is_placed(final(out)@, o) || is_waiting(final(groups)@, o),
{
    let group = copy_indices(&groups[c]);
    let ghost before_groups = groups@;
    let ghost before = out@;
    proof {
        lemma_waiting_count_update(groups@, c as int, groups@[c as int]);
    }
    proof {
        lemma_depth_fits_fewer(models@, out.len() + group.len(), out.len() + waiting_count(groups@), step);
    }
    let placed = positioner.place_group(&group, objects, models, Ghost(out.len() as int), Ghost(step));
    let empty: Vec<usize> = Vec::new();
    proof {
        lemma_waiting_count_update(groups@, c as int, empty);
    }
    groups.set(c, empty);
    let mut k: usize = 0;
    while k < placed.len()
        invariant
            k <= placed.len() == group.len(),
            out@.len() == before.len() + k,
            out@.take(before.len() as int) == before,
            forall|m: int| 0 <= m < k ==> #[trigger] out@[before.len() + m] == placed@[m],
        decreases placed.len() - k,
    {
        let ghost prev = out@;
        out.push(placed[k]);
        assert(out@.take(before.len() as int) =~= prev.take(before.len() as int));
        k = k + 1;
    }
    proof {
        assert forall|k: int| 0 <= k < before.len() implies #[trigger] out@[k] == before[k] by {
            assert(out@.take(before.len() as int)[k] == before[k]);
        }
        assert forall|k: int| 0 <= k < out.len() implies (#[trigger] out@[k]).object < objects.len() by {
            if k >= before.len() {
                assert(out@[before.len() + (k - before.len())] == placed@[k - before.len()]);
                assert(before_groups[c as int]@[k - before.len()] < objects.len());
            } else {
                assert(out@[k] == before[k]);
            }
        }
        assert forall|o: usize| is_placed(before, o) || is_waiting(before_groups, o) implies is_placed(out@, o) || is_waiting(groups@, o) by {
            if is_placed(before, o) {
                let k = choose|k: int| 0 <= k < before.len() && (#[trigger] before[k]).object == o;
                assert(out@.take(before.len() as int)[k] == before[k]);
                assert(out@[k].object == o);
            } else {
                let (g, m) = choose|g: int, m: int| 0 <= g < before_groups.len() && 0 <= m < before_groups[g].len() && (#[trigger] before_groups[g]@[m]) == o;
                if g == c {
                    assert(out@[before.len() + m] == placed@[m]);
                    assert(out@[before.len() + m].object == o);
                } else {
                    assert(groups@[g] == before_groups[g]);
                    assert(groups@[g]@[m] == o);
                }
            }
        }
    }
}

proof fn lemma_depth_fits_fewer(models: Seq<ModelLayout>, a: int, b: int, step: int)
    requires
        0 <= a <= b,
        depth_fits(models, b, step),
    ensures
        depth_fits(models, a, step),
{
    lemma_scale_monotonic(a, b, step);
}

/// A copy of the indices.
fn copy_indices(v: &Vec<usize>) -> (r: Vec<usize>)
    ensures
        r@ == v@,
{
    let mut r: Vec<usize> = Vec::new();
    let mut i: usize = 0;
    while i < v.len()
        invariant
            i <= v.len(),
            r@ == v@.take(i as int),
        decreases v.len() - i,
    {
        r.push(v[i]);
        i = i + 1;
        assert(r@ =~= v@.take(i as int));
    }
    assert(v@.take(v.len() as int) =~= v@);
    r
}


/// The key by which objects take their turn to be placed: models of higher order weight first,
/// and the controlled character after the others.
pub open spec fn turn_key(o: ObjectLayout, models: Seq<ModelLayout>) -> u128 {
    ((32767 - models[o.model as int].order_weight) * 2 + (if o.is_controlled { 1int } else { 0int })) as u128
}

/// The key by which placed objects are drawn: by depth, then models of higher order weight
/// first, then the controlled character after the others, then by coordinate.
pub open spec fn draw_key(p: PlacedObject, objects: Seq<ObjectLayout>, models: Seq<ModelLayout>) -> u128 {
    let o = objects[p.object as int];
    ((((p.z + 32768) * 65536 + (32767 - models[o.model as int].order_weight)) * 2 + (if o.is_controlled {
        1int
    } else {
        0int
    })) * 4294967296 + o.coord) as u128
}

fn turn_key_of(o: ObjectLayout, models: &Vec<ModelLayout>) -> (k: u128)
    requires
        o.model < models.len(),
    ensures
        k == turn_key(o, models@),
{
    let weight = (32767 - models[o.model].order_weight as i32) as u128;
    weight * 2 + if o.is_controlled { 1 } else { 0 }
}

fn draw_key_of(p: PlacedObject, objects: &Vec<ObjectLayout>, models: &Vec<ModelLayout>) -> (k: u128)
    requires
        p.object < objects.len(),
        objects@[p.object as int].model < models.len(),
    ensures
        k == draw_key(p, objects@, models@),
{
    let o = objects[p.object];
    let depth = (p.z as i32 + 32768) as u128;
    let weight = (32767 - models[o.model].order_weight as i32) as u128;
    let controlled: u128 = if o.is_controlled { 1 } else { 0 };
    ((depth * 65536 + weight) * 2 + controlled) * 4294967296 + o.coord as u128
}

/// Places the objects of an area for drawing. Objects take turns, models of higher order weight
/// first and the controlled character after the others; objects of one model that stand
/// together at a coordinate wait there as a group, and are placed together, spread by their
/// model's group placement, when an object of another model comes to that coordinate, when an
/// object that takes more room comes to it (or to the one behind), or at the end. Objects that
/// take more room are placed one at a time. Each object is placed once, and the placed objects
/// come in drawing order: by depth, then order weight (higher first), then the controlled
/// character last, then coordinate, and otherwise in the order they were placed.
pub fn position_objects(objects: &Vec<ObjectLayout>, models: &Vec<ModelLayout>) -> (r: Vec<PlacedObject>)
    requires
        forall|o: int| 0 <= o < objects.len() ==> (#[trigger] objects@[o]).model < models.len() && objects@[o].coord < u32::MAX,
        objects.len() <= 4368,
        forall|m: int|
            0 <= m < models.len() ==> objects.len() * depth_step_bound(models@) + magnitude(
                #[trigger] models@[m].z_offset as int,
            ) + 190 <= 32766,
    ensures
        r.len() == objects.len(),
        forall|k: int| 0 <= k < r.len() ==> (#[trigger] r@[k]).object < objects.len(),
        forall|o: usize| o < objects.len() ==> #[trigger] is_placed(r@, o),
        forall|i: int, j: int|
            0 <= i < j < r.len() ==> draw_key(#[trigger] r@[i], objects@, models@) <= draw_key(#[trigger] r@[j], objects@, models@),
{
    let n = objects.len();
    let ghost step = depth_step_bound(models@);
    proof {
        lemma_depth_step_bound(models@);
        assert(depth_fits(models@, n as int, step));
    }
    let mut turn_keys: Vec<u128> = Vec::new();
    let mut max_coord: u32 = 0;
    let mut i: usize = 0;
    while i < n
        invariant
            i <= n == objects.len(),
            turn_keys.len() == i,
            forall|k: int| 0 <= k < i ==> #[trigger] turn_keys@[k] == turn_key(objects@[k], models@),
            forall|k: int| 0 <= k < i ==> (#[trigger] objects@[k]).coord <= max_coord,
            forall|o: int| 0 <= o < objects.len() ==> (#[trigger] objects@[o]).model < models.len() && objects@[o].coord < u32::MAX,
            max_coord < u32::MAX,
        decreases n - i,
    {
        turn_keys.push(turn_key_of(objects[i], models));
        if objects[i].coord > max_coord {
            max_coord = objects[i].coord;
        }
        i = i + 1;
    }
    let turn = stable_order(&turn_keys);
    let size: usize = (max_coord + 1) as usize;
    let mut groups: Vec<Vec<usize>> = Vec::new();
    while groups.len() < size
        invariant
            groups.len() <= size,
            forall|g: int| 0 <= g < groups.len() ==> (#[trigger] groups@[g]).len() == 0,
        decreases size - groups.len(),
    {
        groups.push(Vec::new());
    }
    proof {
        lemma_waiting_count_empty(groups@);
    }
    let mut positioner = Positioner::default();
    let mut out: Vec<PlacedObject> = Vec::new();
    let mut i: usize = 0;
    while i < n
        invariant
            i <= n == objects.len(),
            n <= 4368,
            turn.len() == n,
            forall|k: int| 0 <= k < n ==> #[trigger] turn@[k] < n,
            forall|o: int| 0 <= o < objects.len() ==> (#[trigger] objects@[o]).model < models.len() && objects@[o].coord < size,
            depth_fits(models@, n as int, step),
            groups.len() == size,
            out.len() + waiting_count(groups@) == i,
            forall|k: int| 0 <= k < i ==> is_placed(out@, #[trigger] turn@[k]) || is_waiting(groups@, turn@[k]),
            forall|g: int, m: int| 0 <= g < groups.len() && 0 <= m < groups@[g].len() ==> #[trigger] groups@[g]@[m] < n,
            forall|k: int| 0 <= k < out.len() ==> (#[trigger] out@[k]).object < n,
            counts_within(positioner.coord_counts@, out.len() as int, out.len() * step),
        decreases n - i,
    {
        proof {
            lemma_waiting_count_nonneg(groups@);
            lemma_depth_fits_fewer(models@, i as int, n as int, step);
        }
        let o = turn[i];
        let object = objects[o];
        let model = &models[object.model];
        let c = object.coord as usize;
        let ghost seen = turn@.take(i as int);
        if model.large_displacement {
            flush_group(&mut positioner, &mut groups, c, &mut out, objects, models, Ghost(step));
            match checked_add_signed(object.coord, object.direction.opposite().to_i32()) {
                Some(c2) => {
                    if (c2 as usize) < groups.len() {
                        proof {
                            lemma_waiting_count_nonneg(groups@);
                        }
                        flush_group(&mut positioner, &mut groups, c2 as usize, &mut out, objects, models, Ghost(step));
                    }
                },
                None => {},
            }
            proof {
                lemma_waiting_count_nonneg(groups@);
                lemma_depth_fits_fewer(models@, out.len() + 1, n as int, step);
                assert(magnitude(model.z_displacement as int) <= step);
                assert(magnitude(model.z_offset as int) + (out.len() + 1) * step + 190 <= 32766);
            }
            let (x, y, z) = positioner.position_object(object.coord, object.direction, model, Ghost(out.len() as int), Ghost(step));
            let ghost before = out@;
            out.push(PlacedObject { object: o, x, y, z });
            proof {
                assert(out@[before.len() as int].object == o);
                assert forall|k: int| 0 <= k < i + 1 implies is_placed(out@, #[trigger] turn@[k]) || is_waiting(groups@, turn@[k]) by {
                    if k < i {
                        if is_placed(before, turn@[k]) {
                            let q = choose|q: int| 0 <= q < before.len() && (#[trigger] before[q]).object == turn@[k];
                            assert(out@[q] == before[q]);
                        }
                    }
                }
            }
        } else {
            if groups[c].len() > 0 && objects[groups[c][0]].model != object.model {
                flush_group(&mut positioner, &mut groups, c, &mut out, objects, models, Ghost(step));
            }
            let mut g = copy_indices(&groups[c]);
            g.push(o);
            let ghost before_groups = groups@;
            proof {
                lemma_waiting_count_update(groups@, c as int, g);
            }
            groups.set(c, g);
            proof {
                assert(groups@[c as int]@[groups@[c as int].len() - 1] == o);
                assert forall|k: int| 0 <= k < i + 1 implies is_placed(out@, #[trigger] turn@[k]) || is_waiting(groups@, turn@[k]) by {
                    if k == i {
                        assert(is_waiting(groups@, turn@[k]));
                    } else if !is_placed(out@, turn@[k]) {
                        let (gg, m) = choose|gg: int, m: int| 0 <= gg < before_groups.len() && 0 <= m < before_groups[gg].len() && (#[trigger] before_groups[gg]@[m]) == turn@[k];
                        if gg == c {
                            assert(groups@[gg]@[m] == turn@[k]);
                        } else {
                            assert(groups@[gg] == before_groups[gg]);
                        }
                    }
                }
                assert forall|gg: int, m: int| 0 <= gg < groups.len() && 0 <= m < groups@[gg].len() implies #[trigger] groups@[gg]@[m] < n by {
                    if gg != c {
                        assert(groups@[gg] == before_groups[gg]);
                    } else if m < before_groups[gg].len() {
                        assert(groups@[gg]@[m] == before_groups[gg]@[m]);
                    }
                }
            }
        }
        i = i + 1;
    }
    let mut c: usize = 0;
    while c < groups.len()
        invariant
            c <= groups.len() == size,
            n == objects.len(),
            n <= 4368,
            turn.len() == n,
            forall|k: int| 0 <= k < n ==> #[trigger] turn@[k] < n,
            forall|o: int| 0 <= o < objects.len() ==> (#[trigger] objects@[o]).model < models.len(),
            depth_fits(models@, n as int, step),
            out.len() + waiting_count(groups@) == n,
            forall|k: int| 0 <= k < n ==> is_placed(out@, #[trigger] turn@[k]) || is_waiting(groups@, turn@[k]),
            forall|g: int, m: int| 0 <= g < groups.len() && 0 <= m < groups@[g].len() ==> #[trigger] groups@[g]@[m] < n,
            forall|k: int| 0 <= k < out.len() ==> (#[trigger] out@[k]).object < n,
            forall|g: int| 0 <= g < c ==> (#[trigger] groups@[g]).len() == 0,
            counts_within(positioner.coord_counts@, out.len() as int, out.len() * step),
        decreases groups.len() - c,
    {
        proof {
            lemma_waiting_count_nonneg(groups@);
        }
        let ghost before_groups = groups@;
        flush_group(&mut positioner, &mut groups, c, &mut out, objects, models, Ghost(step));
        proof {
            assert forall|g: int| 0 <= g < c + 1 implies (#[trigger] groups@[g]).len() == 0 by {
                if g < c {
                    assert(groups@[g] == before_groups[g]);
                }
            }
        }
        c = c + 1;
    }
    proof {
        lemma_waiting_count_empty(groups@);
        lemma_stable_order_covers(turn_keys@, turn@);
        assert forall|o: usize| o < n implies #[trigger] is_placed(out@, o) by {
            assert(lists_index(turn@, o as int));
            let k = choose|k: int| 0 <= k < turn.len() && #[trigger] turn@[k] as int == o as int;
            if is_waiting(groups@, turn@[k]) {
                let (g, m) = choose|g: int, m: int| 0 <= g < groups.len() && 0 <= m < groups@[g].len() && (#[trigger] groups@[g]@[m]) == turn@[k];
                assert(groups@[g].len() == 0);
            }
        }
    }
    let mut draw_keys: Vec<u128> = Vec::new();
    let mut k: usize = 0;
    while k < out.len()
        invariant
            k <= out.len(),
            draw_keys.len() == k,
            forall|q: int| 0 <= q < out.len() ==> (#[trigger] out@[q]).object < objects.len(),
            forall|o: int| 0 <= o < objects.len() ==> (#[trigger] objects@[o]).model < models.len(),
            forall|q: int| 0 <= q < k ==> #[trigger] draw_keys@[q] == draw_key(out@[q], objects@, models@),
        decreases out.len() - k,
    {
        draw_keys.push(draw_key_of(out[k], objects, models));
        k = k + 1;
    }
    let order = stable_order(&draw_keys);
    let mut r: Vec<PlacedObject> = Vec::new();
    let mut k: usize = 0;
    while k < order.len()
        invariant
            k <= order.len() == out.len(),
            r.len() == k,
            forall|q: int| 0 <= q < order.len() ==> #[trigger] order@[q] < out.len(),
            forall|q: int| 0 <= q < k ==> #[trigger] r@[q] == out@[order@[q] as int],
        decreases order.len() - k,
    {
        r.push(out[order[k]]);
        k = k + 1;
    }
    proof {
        lemma_stable_order_covers(draw_keys@, order@);
        assert forall|o: usize| o < n implies #[trigger] is_placed(r@, o) by {
            assert(is_placed(out@, o));
            let q = choose|q: int| 0 <= q < out.len() && (#[trigger] out@[q]).object == o;
            assert(lists_index(order@, q));
            let k = choose|k: int| 0 <= k < order.len() && #[trigger] order@[k] as int == q;
            assert(r@[k].object == o);
        }
        assert forall|a: int, b: int| 0 <= a < b < r.len() implies draw_key(#[trigger] r@[a], objects@, models@) <= draw_key(
            #[trigger] r@[b],
            objects@,
            models@,
        ) by {
            assert(goes_before(draw_keys@, order@[a] as int, order@[b] as int));
        }
    }
    r
}

} // verus!
