use crate::base::EntityId;
use crate::base::behavior::{BadlyHurtBehavior, Intention, RepeatingAction};
use crate::base::combat::AttackKind;
use crate::base::position::{Pos, blocked_spec, check_is_blocked};
use crate::command::game::{Mover, Obstacles};
use crate::random::{chance, random_below};
use rand::rngs::ThreadRng;
use vstd::prelude::*;

verus! {

/// A door or path: the entity, the area it stands in, and the area it leads to.
#[derive(Clone, Copy, Debug, PartialEq, Eq, Structural)]
pub struct PathLink {
    pub door: EntityId,
    pub area: EntityId,
    pub destination: EntityId,
}

/// Whether `to` can be reached from `from` through at most `n` doors.
pub open spec fn reachable_within(doors: Seq<PathLink>, from: EntityId, to: EntityId, n: nat) -> bool
    decreases n,
{
    from == to || (n > 0 && exists|i: int|
        0 <= i < doors.len() && (#[trigger] doors[i]).area == from && reachable_within(
            doors,
            doors[i].destination,
            to,
            (n - 1) as nat,
        ))
}

/// Whether `to` can be reached from `from` through the doors.
pub open spec fn reachable(doors: Seq<PathLink>, from: EntityId, to: EntityId) -> bool {
    exists|n: nat| reachable_within(doors, from, to, n)
}

/// A path from `from` to `mid` followed by a door from `mid` reaches the door's destination.
pub proof fn lemma_reach_step(doors: Seq<PathLink>, from: EntityId, mid: EntityId, n: nat, i: int)
    requires
        reachable_within(doors, from, mid, n),
        0 <= i < doors.len(),
        doors[i].area == mid,
    ensures
        reachable_within(doors, from, doors[i].destination, n + 1),
    decreases n,
{
    if from == mid {
        assert(reachable_within(doors, doors[i].destination, doors[i].destination, n));
        assert(doors[i].area == from && reachable_within(doors, doors[i].destination, doors[i].destination, n));
    } else {
        let j = choose|j: int|
            0 <= j < doors.len() && (#[trigger] doors[j]).area == from && reachable_within(
                doors,
                doors[j].destination,
                mid,
                (n - 1) as nat,
            );
        lemma_reach_step(doors, doors[j].destination, mid, (n - 1) as nat, i);
        assert(doors[j].area == from && reachable_within(doors, doors[j].destination, doors[i].destination, n));
    }
}

/// Areas that are closed under the doors hold everything reachable from them.
pub proof fn lemma_closed_holds_reachable(doors: Seq<PathLink>, closed: Seq<EntityId>, from: EntityId, to: EntityId, n: nat)
    requires
        closed.contains(from),
        forall|i: int|
            0 <= i < doors.len() && closed.contains((#[trigger] doors[i]).area) ==> closed.contains(
                doors[i].destination,
            ),
        reachable_within(doors, from, to, n),
    ensures
        closed.contains(to),
    decreases n,
{
    if from != to {
        let j = choose|j: int|
            0 <= j < doors.len() && (#[trigger] doors[j]).area == from && reachable_within(
                doors,
                doors[j].destination,
                to,
                (n - 1) as nat,
            );
        lemma_closed_holds_reachable(doors, closed, doors[j].destination, to, (n - 1) as nat);
    }
}

/// A sequence without duplicates drawn from a universe is no longer than the universe.
proof fn lemma_distinct_bound(s: Seq<EntityId>, universe: Seq<EntityId>)
    requires
        s.no_duplicates(),
        forall|k: int| 0 <= k < s.len() ==> universe.contains(#[trigger] s[k]),
    ensures
        s.len() <= universe.len(),
{
    s.unique_seq_to_set();
    universe.lemma_cardinality_of_set();
    assert(s.to_set().subset_of(universe.to_set())) by {
        assert forall|x: EntityId| s.to_set().contains(x) implies universe.to_set().contains(x) by {
            let k = choose|k: int| 0 <= k < s.len() && s[k] == x;
            assert(universe.contains(s[k]));
        }
    }
    vstd::set_lib::lemma_len_subset(s.to_set(), universe.to_set());
}

fn contains_area(areas: &Vec<EntityId>, area: EntityId) -> (r: bool)
    ensures
        r == areas@.contains(area),
{
    let mut i: usize = 0;
    while i < areas.len()
        invariant
            i <= areas.len(),
            forall|k: int| 0 <= k < i ==> areas@[k] != area,
        decreases areas.len() - i,
    {
        if areas[i] == area {
            assert(areas@[i as int] == area);
            return true;
        }
        i = i + 1;
    }
    false
}

/// The areas that the door search may visit: the start and every destination.
pub open spec fn area_universe(doors: Seq<PathLink>, start: EntityId) -> Seq<EntityId> {
    seq![start] + doors.map_values(|d: PathLink| d.destination)
}

/// Whether a search entry reaches its area within `m` doors after its first door, which stands
/// in `area`; the area is one that the search may visit.
pub open spec fn entry_within(doors: Seq<PathLink>, area: EntityId, entry: (usize, EntityId), m: nat) -> bool {
    &&& entry.0 < doors.len()
    &&& doors[entry.0 as int].area == area
    &&& area_universe(doors, area).contains(entry.1)
    &&& reachable_within(doors, doors[entry.0 as int].destination, entry.1, m)
}

/// Whether some entry of the queue reached the area.
pub open spec fn queued(queue: Seq<(usize, EntityId)>, a: EntityId) -> bool {
    exists|k: int| 0 <= k < queue.len() && (#[trigger] queue[k]).1 == a
}

/// What is reached within one more door is reached within as many doors, or through a last
/// door from somewhere reached within as many.
proof fn lemma_last_step(doors: Seq<PathLink>, from: EntityId, to: EntityId, n: nat)
    requires
        reachable_within(doors, from, to, n + 1),
    ensures
        reachable_within(doors, from, to, n) || exists|j: int|
            0 <= j < doors.len() && reachable_within(doors, from, (#[trigger] doors[j]).area, n)
                && doors[j].destination == to,
    decreases n,
{
    if from != to {
        let k = choose|k: int|
            0 <= k < doors.len() && (#[trigger] doors[k]).area == from && reachable_within(
                doors,
                doors[k].destination,
                to,
                n,
            );
        if n == 0 {
            assert(reachable_within(doors, from, doors[k].area, 0));
        } else {
            lemma_last_step(doors, doors[k].destination, to, (n - 1) as nat);
            if reachable_within(doors, doors[k].destination, to, (n - 1) as nat) {
                assert(doors[k].area == from && reachable_within(doors, doors[k].destination, to, (n - 1) as nat));
            } else {
                let j = choose|j: int|
                    0 <= j < doors.len() && reachable_within(
                        doors,
                        doors[k].destination,
                        (#[trigger] doors[j]).area,
                        (n - 1) as nat,
                    ) && doors[j].destination == to;
                assert(doors[k].area == from && reachable_within(
                    doors,
                    doors[k].destination,
                    doors[j].area,
                    (n - 1) as nat,
                ));
                assert(reachable_within(doors, from, doors[j].area, n));
            }
        }
    }
}

/// Reaching within `n` doors is reaching within `n + 1`.
proof fn lemma_within_more(doors: Seq<PathLink>, from: EntityId, to: EntityId, n: nat)
    requires
        reachable_within(doors, from, to, n),
    ensures
        reachable_within(doors, from, to, n + 1),
    decreases n,
{
    if from != to {
        let k = choose|k: int|
            0 <= k < doors.len() && (#[trigger] doors[k]).area == from && reachable_within(
                doors,
                doors[k].destination,
                to,
                (n - 1) as nat,
            );
        lemma_within_more(doors, doors[k].destination, to, (n - 1) as nat);
        assert(doors[k].area == from && reachable_within(doors, doors[k].destination, to, n));
    }
}

/// Adds an entry for each door of `reached`, keeping the first door of the way.
fn push_doors_from(
    doors: &Vec<PathLink>,
    area: EntityId,
    queue: &mut Vec<(usize, EntityId)>,
    first: usize,
    reached: EntityId,
    Ghost(m): Ghost<nat>,
)
    requires
        first < doors.len(),
        doors@[first as int].area == area,
        reachable_within(doors@, doors@[first as int].destination, reached, m),
        forall|k: int| 0 <= k < old(queue).len() ==> entry_within(doors@, area, #[trigger] old(queue)@[k], m + 1),
    ensures
        final(queue).len() >= old(queue).len(),
        forall|k: int| 0 <= k < old(queue).len() ==> #[trigger] final(queue)@[k] == old(queue)@[k],
        forall|k: int| 0 <= k < final(queue).len() ==> entry_within(doors@, area, #[trigger] final(queue)@[k], m + 1),
        forall|l: int|
            0 <= l < doors.len() && (#[trigger] doors@[l]).area == reached ==> queued(final(queue)@, doors@[l].destination),
{
    let ghost start = queue@;
    let mut j: usize = 0;
    while j < doors.len()
        invariant
            j <= doors.len(),
            first < doors.len(),
            doors@[first as int].area == area,
            reachable_within(doors@, doors@[first as int].destination, reached, m),
            queue.len() >= start.len(),
            forall|k: int| 0 <= k < start.len() ==> #[trigger] queue@[k] == start[k],
            forall|k: int| 0 <= k < queue.len() ==> entry_within(doors@, area, #[trigger] queue@[k], m + 1),
            forall|l: int| 0 <= l < j && (#[trigger] doors@[l]).area == reached ==> queued(queue@, doors@[l].destination),
        decreases doors.len() - j,
    {
        if doors[j].area == reached {
            proof {
                lemma_reach_step(doors@, doors@[first as int].destination, reached, m, j as int);
                assert(area_universe(doors@, area)[j + 1] == doors@[j as int].destination);
            }
            let ghost before = queue@;
            queue.push((first, doors[j].destination));
            proof {
                assert(entry_within(doors@, area, queue@[queue.len() - 1], m + 1));
                assert forall|l: int| 0 <= l < j + 1 && (#[trigger] doors@[l]).area == reached implies queued(
                    queue@,
                    doors@[l].destination,
                ) by {
                    if l < j {
                        let k = choose|k: int| 0 <= k < before.len() && (#[trigger] before[k]).1 == doors@[l].destination;
                        assert(queue@[k] == before[k]);
                    } else {
                        assert(queue@[queue.len() - 1].1 == doors@[l].destination);
                    }
                }
            }
        }
        j = j + 1;
    }
}

/// The first door on a shortest way from `area` to one of `targets` other than `area` itself:
/// the way through the door takes `m + 1` doors, and no such target lies within `m` doors of
/// `area`. The search goes out one door at a time, trying doors in their order; none where no
/// such area can be reached.
pub fn find_path_towards(doors: &Vec<PathLink>, area: EntityId, targets: &Vec<EntityId>) -> (r: Option<EntityId>)
    ensures
        r matches Some(d) ==> exists|i: int, t: EntityId, m: nat|
            #![trigger doors@[i], targets@.contains(t), reachable_within(doors@, doors@[i].destination, t, m)]
            0 <= i < doors.len() && doors@[i].door == d && doors@[i].area == area && targets@.contains(t) && t
                != area && reachable_within(doors@, doors@[i].destination, t, m) && forall|u: EntityId|
                #![trigger reachable_within(doors@, area, u, m)]
                targets@.contains(u) && u != area ==> !reachable_within(doors@, area, u, m),
        r is None ==> forall|t: EntityId|
            reachable(doors@, area, t) && t != area ==> !(#[trigger] targets@.contains(t)),
{
    let ghost universe = area_universe(doors@, area);
    // Each entry: the index of the first door of the way, and the area reached.
    let mut layer: Vec<(usize, EntityId)> = Vec::new();
    let mut i: usize = 0;
    while i < doors.len()
        invariant
            i <= doors.len(),
            universe == area_universe(doors@, area),
            forall|k: int| 0 <= k < layer.len() ==> entry_within(doors@, area, #[trigger] layer@[k], 0),
            forall|j: int| 0 <= j < i && (#[trigger] doors@[j]).area == area ==> queued(layer@, doors@[j].destination),
        decreases doors.len() - i,
    {
        if doors[i].area == area {
            let ghost before = layer@;
            proof {
                assert(universe[i + 1] == doors@[i as int].destination);
            }
            layer.push((i, doors[i].destination));
            proof {
                assert(entry_within(doors@, area, layer@[layer.len() - 1], 0));
                assert forall|j: int| 0 <= j < i + 1 && (#[trigger] doors@[j]).area == area implies queued(
                    layer@,
                    doors@[j].destination,
                ) by {
                    if j < i {
                        let k = choose|k: int| 0 <= k < before.len() && (#[trigger] before[k]).1 == doors@[j].destination;
                        assert(layer@[k] == before[k]);
                    } else {
                        assert(layer@[layer.len() - 1].1 == doors@[j].destination);
                    }
                }
            }
        }
        i = i + 1;
    }
    let mut checked: Vec<EntityId> = vec![area];
    assert(checked@ == seq![area]);
    assert(universe[0] == area);
    proof {
        assert forall|a: EntityId| #[trigger] reachable_within(doors@, area, a, 1) implies checked@.contains(a)
            || queued(layer@, a) by {
            if a != area {
                let j = choose|j: int|
                    0 <= j < doors.len() && (#[trigger] doors@[j]).area == area && reachable_within(
                        doors@,
                        doors@[j].destination,
                        a,
                        0,
                    );
            } else {
                assert(checked@[0] == a);
            }
        }
        assert forall|a: EntityId| #[trigger] reachable_within(doors@, area, a, 0) implies checked@.contains(a) by {
            assert(checked@[0] == a);
        }
    }
    // Every entry of the layer reaches its area through at most `n` doors.
    let ghost mut n: nat = 1;
    while layer.len() > 0
        invariant
            n >= 1,
            universe == area_universe(doors@, area),
            checked@.no_duplicates(),
            checked.len() > 0,
            checked@[0] == area,
            checked.len() <= universe.len(),
            forall|k: int| 0 <= k < checked.len() ==> universe.contains(#[trigger] checked@[k]),
            forall|k: int| 1 <= k < checked.len() ==> !targets@.contains(#[trigger] checked@[k]),
            forall|k: int| 0 <= k < layer.len() ==> entry_within(doors@, area, #[trigger] layer@[k], (n - 1) as nat),
            forall|a: EntityId| #[trigger] reachable_within(doors@, area, a, (n - 1) as nat) ==> checked@.contains(a),
            forall|a: EntityId| #[trigger] reachable_within(doors@, area, a, n) ==> checked@.contains(a) || queued(
                layer@,
                a,
            ),
            forall|k: int| 0 <= k < checked.len() ==> reachable_within(doors@, area, #[trigger] checked@[k], (n - 1) as nat),
        decreases universe.len() - checked.len(), layer.len(),
    {
        let ghost checked0 = checked@;
        let mut next: Vec<(usize, EntityId)> = Vec::new();
        let mut h: usize = 0;
        while h < layer.len()
            invariant
                n >= 1,
                h <= layer.len(),
                universe == area_universe(doors@, area),
                checked@.no_duplicates(),
                checked@[0] == area,
                checked.len() <= universe.len(),
                checked.len() >= checked0.len(),
                checked0.len() > 0,
                forall|k: int| 0 <= k < checked0.len() ==> #[trigger] checked@[k] == checked0[k],
                forall|k: int| 0 <= k < checked.len() ==> universe.contains(#[trigger] checked@[k]),
                forall|k: int| 1 <= k < checked.len() ==> !targets@.contains(#[trigger] checked@[k]),
                forall|k: int| 0 <= k < layer.len() ==> entry_within(doors@, area, #[trigger] layer@[k], (n - 1) as nat),
                forall|a: EntityId| #[trigger] reachable_within(doors@, area, a, (n - 1) as nat) ==> checked0.contains(a),
                forall|a: EntityId| #[trigger] reachable_within(doors@, area, a, n) ==> checked0.contains(a) || queued(
                    layer@,
                    a,
                ),
                forall|k: int| 0 <= k < checked0.len() ==> reachable_within(doors@, area, #[trigger] checked0[k], (n - 1) as nat),
                forall|k: int| checked0.len() <= k < checked.len() ==> reachable_within(doors@, area, #[trigger] checked@[k], n),
                forall|k: int| 0 <= k < h ==> checked@.contains((#[trigger] layer@[k]).1),
                forall|k: int| 0 <= k < next.len() ==> entry_within(doors@, area, #[trigger] next@[k], n),
                forall|l: int|
                    0 <= l < doors.len() && checked@.contains((#[trigger] doors@[l]).area) && !checked0.contains(
                        doors@[l].area,
                    ) ==> queued(next@, doors@[l].destination),
                next.len() > 0 ==> checked.len() > checked0.len(),
            decreases layer.len() - h,
        {
            let (first, reached) = layer[h];
            assert(entry_within(doors@, area, layer@[h as int], (n - 1) as nat));
            let ghost old_checked = checked@;
            let ghost old_next = next@;
            if contains_area(&checked, reached) {
                h = h + 1;
                continue;
            }
            if contains_area(targets, reached) {
                proof {
                    assert(reached != area);
                    assert forall|u: EntityId| targets@.contains(u) && u != area implies !reachable_within(
                        doors@,
                        area,
                        u,
                        (n - 1) as nat,
                    ) by {
                        if reachable_within(doors@, area, u, (n - 1) as nat) {
                            let k = choose|k: int| 0 <= k < checked0.len() && checked0[k] == u;
                            assert(checked@[k] == u);
                        }
                    }
                    assert(reachable_within(doors@, doors@[first as int].destination, reached, (n - 1) as nat));
                }
                return Some(doors[first].door);
            }
            proof {
                lemma_distinct_bound(checked@.push(reached), universe);
                assert(doors@[first as int].area == area && reachable_within(
                    doors@,
                    doors@[first as int].destination,
                    reached,
                    (n - 1) as nat,
                ));
                assert(reachable_within(doors@, area, reached, n));
            }
            checked.push(reached);
            push_doors_from(doors, area, &mut next, first, reached, Ghost((n - 1) as nat));
            h = h + 1;
            proof {
                assert(n - 1 + 1 == n);
                assert forall|l: int|
                    0 <= l < doors.len() && checked@.contains((#[trigger] doors@[l]).area) && !checked0.contains(
                        doors@[l].area,
                    ) implies queued(next@, doors@[l].destination) by {
                    if doors@[l].area != reached {
                        let q = choose|q: int| 0 <= q < checked.len() && checked@[q] == doors@[l].area;
                        assert(old_checked[q] == checked@[q]);
                        let k = choose|k: int| 0 <= k < old_next.len() && (#[trigger] old_next[k]).1 == doors@[l].destination;
                        assert(next@[k] == old_next[k]);
                    }
                }
                assert forall|k: int| 0 <= k < h implies checked@.contains((#[trigger] layer@[k]).1) by {
                    if k < h - 1 {
                        let q = choose|q: int| 0 <= q < old_checked.len() && old_checked[q] == layer@[k].1;
                        assert(checked@[q] == old_checked[q]);
                    } else {
                        assert(checked@[checked.len() - 1] == reached);
                    }
                }
            }
        }
        proof {
            assert forall|a: EntityId| #[trigger] reachable_within(doors@, area, a, n) implies checked@.contains(a) by {
                if checked0.contains(a) {
                    let q = choose|q: int| 0 <= q < checked0.len() && checked0[q] == a;
                    assert(checked@[q] == a);
                } else {
                    let k = choose|k: int| 0 <= k < layer.len() && (#[trigger] layer@[k]).1 == a;
                    assert(checked@.contains(layer@[k].1));
                }
            }
            assert forall|a: EntityId| #[trigger] reachable_within(doors@, area, a, n + 1) implies checked@.contains(a)
                || queued(next@, a) by {
                lemma_last_step(doors@, area, a, n);
                if !reachable_within(doors@, area, a, n) {
                    let j = choose|j: int|
                        0 <= j < doors.len() && reachable_within(doors@, area, (#[trigger] doors@[j]).area, n)
                            && doors@[j].destination == a;
                    let p = doors@[j].area;
                    assert(checked@.contains(p));
                    if checked0.contains(p) {
                        let q = choose|q: int| 0 <= q < checked0.len() && checked0[q] == p;
                        assert(reachable_within(doors@, area, checked0[q], (n - 1) as nat));
                        lemma_reach_step(doors@, area, p, (n - 1) as nat, j);
                        assert(reachable_within(doors@, area, a, n));
                    }
                }
            }
            assert forall|k: int| 0 <= k < checked.len() implies reachable_within(
                doors@,
                area,
                #[trigger] checked@[k],
                n,
            ) by {
                if k < checked0.len() {
                    assert(reachable_within(doors@, area, checked0[k], (n - 1) as nat));
                    lemma_within_more(doors@, area, checked0[k], (n - 1) as nat);
                }
            }
        }
        layer = next;
        proof {
            n = n + 1;
        }
    }
    proof {
        assert forall|j: int|
            0 <= j < doors.len() && checked@.contains((#[trigger] doors@[j]).area) implies checked@.contains(
                doors@[j].destination,
            ) by {
            let q = choose|q: int| 0 <= q < checked.len() && checked@[q] == doors@[j].area;
            assert(reachable_within(doors@, area, checked@[q], (n - 1) as nat));
            lemma_reach_step(doors@, area, doors@[j].area, (n - 1) as nat, j);
            assert(reachable_within(doors@, area, doors@[j].destination, n));
        }
        assert forall|t: EntityId| reachable(doors@, area, t) && t != area implies !(#[trigger] targets@.contains(t)) by {
            let m = choose|m: nat| reachable_within(doors@, area, t, m);
            assert(checked@.contains(area)) by {
                assert(checked@[0] == area);
            }
            lemma_closed_holds_reachable(doors@, checked@, area, t, m);
            let q = choose|q: int| 0 <= q < checked.len() && checked@[q] == t;
            assert(q != 0);
        }
    }
    None
}
/// Whether a creature acts on the behavior: it is badly hurt and its species has it.
pub fn has_behavior(is_badly_hurt: bool, species_behavior: Option<BadlyHurtBehavior>, behavior: BadlyHurtBehavior) -> (r:
    bool)
    ensures
        r == (is_badly_hurt && species_behavior == Some(behavior)),
{
    is_badly_hurt && match species_behavior {
        Some(b) => b == behavior,
        None => false,
    }
}

/// The kind of an attack: a rash one where the attacker is determined and can attack rashly,
/// otherwise one of the available kinds at random (a light one where none is available).
pub fn pick_attack_kind(rng: &mut ThreadRng, available_kinds: &Vec<AttackKind>, is_determined: bool) -> (k: AttackKind)
    ensures
        is_determined && available_kinds@.contains(AttackKind::Rash) ==> k == AttackKind::Rash,
        !(is_determined && available_kinds@.contains(AttackKind::Rash)) && available_kinds.len() > 0
            ==> available_kinds@.contains(k),
        !(is_determined && available_kinds@.contains(AttackKind::Rash)) && available_kinds.len() == 0 ==> k
            == AttackKind::Light,
{
    let mut has_rash = false;
    let mut i: usize = 0;
    while i < available_kinds.len()
        invariant
            i <= available_kinds.len(),
            has_rash == exists|k: int| 0 <= k < i && available_kinds@[k] == AttackKind::Rash,
        decreases available_kinds.len() - i,
    {
        if available_kinds[i] == AttackKind::Rash {
            has_rash = true;
        }
        i = i + 1;
    }
    if is_determined && has_rash {
        return AttackKind::Rash;
    }
    if available_kinds.len() == 0 {
        return AttackKind::Light;
    }
    let index = random_below(rng, available_kinds.len());
    assert(available_kinds@.contains(available_kinds@[index as int]));
    available_kinds[index]
}

/// What a crew member's turn is spent on when no one tells it what to do.
pub enum CrewChoice {
    EnterDoor(EntityId),
    UseMedkit(EntityId),
    Attack(Vec<EntityId>),
    Wield(EntityId),
    ForceDoor { door: EntityId, assisted: EntityId },
    Refuel,
}

/// What the game knows about a crew member that decides what it does on its own.
pub struct CrewFacts {
    /// Whether it is badly hurt and of a fearful species.
    pub is_fearful: bool,
    /// Whether it is in the ship, in a safe area.
    pub safe_in_ship: bool,
    /// The first door towards the ship, where there is one and it is not blocked.
    pub unblocked_path_to_ship: Option<EntityId>,
    /// A door picked at random among those that are not blocked, if any.
    pub random_unblocked_path: Option<EntityId>,
    pub intention: Option<Intention>,
    /// Whether it waits at the ship, is not in it, and has a way there that is not blocked.
    pub waits_at_ship_away: bool,
    /// The aggressive foes in its area that are alive.
    pub foes: Vec<EntityId>,
}

/// What a crew member does on its own: a fearful one that is not safe in the ship flees towards
/// the ship, or else anywhere; then it uses a medkit it means to use; then it heads back to the
/// ship it waits at; then it attacks the foes around it; then it does what it means to do.
pub open spec fn crew_choice_spec(f: CrewFacts) -> Option<CrewChoice> {
    if f.is_fearful && !f.safe_in_ship && f.unblocked_path_to_ship is Some {
        Some(CrewChoice::EnterDoor(f.unblocked_path_to_ship->0))
    } else if f.is_fearful && !f.safe_in_ship && f.random_unblocked_path is Some {
        Some(CrewChoice::EnterDoor(f.random_unblocked_path->0))
    } else if let Some(Intention::UseMedkit(item)) = f.intention {
        Some(CrewChoice::UseMedkit(item))
    } else if f.waits_at_ship_away && f.unblocked_path_to_ship is Some {
        Some(CrewChoice::EnterDoor(f.unblocked_path_to_ship->0))
    } else if f.foes.len() > 0 {
        Some(CrewChoice::Attack(f.foes))
    } else {
        match f.intention {
            Some(Intention::Wield(item)) => Some(CrewChoice::Wield(item)),
            Some(Intention::Force { door, assisted }) => Some(CrewChoice::ForceDoor { door, assisted }),
            Some(Intention::Refuel) => Some(CrewChoice::Refuel),
            _ => None,
        }
    }
}

/// A crew member that waits at the ship heads back to it: where it is not fleeing, means to use
/// no medkit, waits at the ship while away from it, and has a way there, it goes through the
/// first door of that way. And the door drawn at random matters only to one that flees: two
/// crew members alike but for that door, neither fleeing, do the same.
pub proof fn law_waiting_crew_heads_to_ship(f: CrewFacts, g: CrewFacts)
    ensures
        !(f.is_fearful && !f.safe_in_ship) && !(f.intention matches Some(Intention::UseMedkit(_)))
            && f.waits_at_ship_away && f.unblocked_path_to_ship is Some ==> crew_choice_spec(f) == Some(
            CrewChoice::EnterDoor(f.unblocked_path_to_ship->0),
        ),
        !(f.is_fearful && !f.safe_in_ship) && g == (CrewFacts { random_unblocked_path: g.random_unblocked_path, ..f })
            ==> crew_choice_spec(f) == crew_choice_spec(g),
{
}

/// What a crew member does on its own, if anything.
pub fn pick_crew_action(f: CrewFacts) -> (r: Option<CrewChoice>)
    ensures
        r == crew_choice_spec(f),
{
    let fleeing = f.is_fearful && !f.safe_in_ship;
    if fleeing {
        if let Some(path) = f.unblocked_path_to_ship {
            return Some(CrewChoice::EnterDoor(path));
        }
        if let Some(path) = f.random_unblocked_path {
            return Some(CrewChoice::EnterDoor(path));
        }
    }
    if let Some(Intention::UseMedkit(item)) = f.intention {
        return Some(CrewChoice::UseMedkit(item));
    }
    if f.waits_at_ship_away {
        if let Some(path) = f.unblocked_path_to_ship {
            return Some(CrewChoice::EnterDoor(path));
        }
    }
    if f.foes.len() > 0 {
        return Some(CrewChoice::Attack(f.foes));
    }
    match f.intention {
        Some(Intention::Wield(item)) => Some(CrewChoice::Wield(item)),
        Some(Intention::Force { door, assisted }) => Some(CrewChoice::ForceDoor { door, assisted }),
        Some(Intention::Refuel) => Some(CrewChoice::Refuel),
        _ => None,
    }
}

/// What a foe does on its own.
pub enum FoeChoice {
    EnterDoor(EntityId),
    Attack(Vec<EntityId>),
    Examine(EntityId),
}

/// What the game knows about a foe that decides what it does.
pub struct FoeFacts {
    /// Whether it is badly hurt and of a fearful species.
    pub is_fearful: bool,
    /// A door picked at random among those that are not blocked, if any.
    pub random_unblocked_path: Option<EntityId>,
    pub aggressive: bool,
    /// The crew members in its area that are alive.
    pub targets: Vec<EntityId>,
    pub is_wandering: bool,
    /// The things that wanderers look at in its area.
    pub observation_targets: Vec<EntityId>,
    /// A door picked at random among those that are not blocked and lead where the wanderer
    /// may go, if any.
    pub random_wander_path: Option<EntityId>,
}

/// What a foe does, given the draws: `index`, the thing it would look at; `examines`, whether
/// the four-in-five roll to look came out; `leaves`, whether the one-in-two roll to leave came
/// out. A fearful one flees through a door; an aggressive one attacks the crew members around
/// it; a wanderer looks at the drawn thing where there is something and the roll to look came
/// out, and otherwise leaves through its door where the roll to leave came out and it has one.
pub open spec fn foe_choice_spec(f: FoeFacts, index: int, examines: bool, leaves: bool) -> Option<FoeChoice> {
    if f.is_fearful && f.random_unblocked_path is Some {
        Some(FoeChoice::EnterDoor(f.random_unblocked_path->0))
    } else if f.aggressive && f.targets.len() > 0 {
        Some(FoeChoice::Attack(f.targets))
    } else if !f.is_wandering {
        None
    } else if f.observation_targets.len() > 0 && examines {
        Some(FoeChoice::Examine(f.observation_targets@[index]))
    } else if leaves && f.random_wander_path is Some {
        Some(FoeChoice::EnterDoor(f.random_wander_path->0))
    } else {
        None
    }
}

/// What a foe does, given the draws, as [`foe_choice_spec`] says.
pub fn foe_wander_choice(f: FoeFacts, index: usize, examines: bool, leaves: bool) -> (r: Option<FoeChoice>)
    requires
        f.observation_targets.len() > 0 ==> index < f.observation_targets.len(),
    ensures
        r == foe_choice_spec(f, index as int, examines, leaves),
{
    if f.is_fearful {
        if let Some(path) = f.random_unblocked_path {
            return Some(FoeChoice::EnterDoor(path));
        }
    }
    if f.aggressive && f.targets.len() > 0 {
        return Some(FoeChoice::Attack(f.targets));
    }
    if !f.is_wandering {
        return None;
    }
    if f.observation_targets.len() > 0 && examines {
        return Some(FoeChoice::Examine(f.observation_targets[index]));
    }
    if leaves {
        if let Some(door) = f.random_wander_path {
            return Some(FoeChoice::EnterDoor(door));
        }
    }
    None
}

/// What a foe does on its own: a fearful one flees through a door; an aggressive one attacks the
/// crew members around it; a wanderer looks at something around it, drawn at random (four times
/// in five, where there is something) or else leaves through a door (one time in two, where
/// there is one). The result is [`foe_choice_spec`] for some draws.
pub fn pick_foe_action(rng: &mut ThreadRng, f: FoeFacts) -> (r: Option<FoeChoice>)
    ensures
        exists|index: int, examines: bool, leaves: bool|
            (f.observation_targets.len() > 0 ==> 0 <= index < f.observation_targets.len()) && r
                == #[trigger] foe_choice_spec(f, index, examines, leaves),
        f.is_fearful && f.random_unblocked_path is Some ==> r == Some(FoeChoice::EnterDoor(f.random_unblocked_path->0)),
        !(f.is_fearful && f.random_unblocked_path is Some) && f.aggressive && f.targets.len() > 0 ==> r == Some(
            FoeChoice::Attack(f.targets),
        ),
        !(f.is_fearful && f.random_unblocked_path is Some) && !(f.aggressive && f.targets.len() > 0) ==> (
        match r {
            None => true,
            Some(FoeChoice::Examine(e)) => f.is_wandering && f.observation_targets@.contains(e),
            Some(FoeChoice::EnterDoor(d)) => f.is_wandering && f.random_wander_path == Some(d),
            Some(FoeChoice::Attack(_)) => false,
        }),
{
    let ghost gf = f;
    let wanders = f.is_wandering && !(f.is_fearful && f.random_unblocked_path.is_some()) && !(f.aggressive
        && f.targets.len() > 0);
    let mut index: usize = 0;
    let mut examines = false;
    let mut leaves = false;
    if wanders {
        if f.observation_targets.len() > 0 {
            index = random_below(rng, f.observation_targets.len());
            examines = chance(rng, 8, 10);
        }
        if !examines {
            leaves = chance(rng, 1, 2);
        }
    }
    let r = foe_wander_choice(f, index, examines, leaves);
    proof {
        if gf.observation_targets.len() > 0 && examines {
            assert(gf.observation_targets@.contains(gf.observation_targets@[index as int]));
        }
        assert(r == foe_choice_spec(gf, index as int, examines, leaves));
    }
    r
}

/// What the game knows about a crew member that decides what it means to do next.
pub struct IntentionFacts {
    /// Whether it is badly hurt in a safe area.
    pub hurt_and_safe: bool,
    /// The items in its inventory, each with whether it is a medkit and whether it is a weapon
    /// better than the one it fights with now.
    pub inventory: Vec<(EntityId, bool, bool)>,
    /// Whether it is at the ship while the ship needs fuel, holds a fuel can, and the ship's
    /// controls are in its area.
    pub can_refuel: bool,
}

/// The first item with the property (medkit or better weapon), if any.
pub open spec fn first_item(inventory: Seq<(EntityId, bool, bool)>, medkit: bool) -> Option<EntityId>
    decreases inventory.len(),
{
    if inventory.len() == 0 {
        None
    } else if (if medkit { inventory[0].1 } else { inventory[0].2 }) {
        Some(inventory[0].0)
    } else {
        first_item(inventory.drop_first(), medkit)
    }
}

fn find_item(inventory: &Vec<(EntityId, bool, bool)>, medkit: bool) -> (r: Option<EntityId>)
    ensures
        r == first_item(inventory@, medkit),
{
    let mut i: usize = 0;
    assert(inventory@.skip(0) =~= inventory@);
    while i < inventory.len()
        invariant
            i <= inventory.len(),
            first_item(inventory@, medkit) == first_item(inventory@.skip(i as int), medkit),
        decreases inventory.len() - i,
    {
        assert(inventory@.skip(i as int)[0] == inventory@[i as int]);
        assert(inventory@.skip(i as int).drop_first() =~= inventory@.skip(i + 1));
        let (item, is_medkit, is_better) = inventory[i];
        if (medkit && is_medkit) || (!medkit && is_better) {
            return Some(item);
        }
        i = i + 1;
    }
    None
}

/// What a crew member means to do next: use its first medkit where it is badly hurt in a safe
/// area, else wield its first better weapon, else refuel where it can.
pub fn pick_intention(f: &IntentionFacts) -> (r: Option<Intention>)
    ensures
        f.hurt_and_safe && first_item(f.inventory@, true) is Some ==> r == Some(
            Intention::UseMedkit(first_item(f.inventory@, true)->0),
        ),
        !(f.hurt_and_safe && first_item(f.inventory@, true) is Some) && first_item(f.inventory@, false) is Some
            ==> r == Some(Intention::Wield(first_item(f.inventory@, false)->0)),
        !(f.hurt_and_safe && first_item(f.inventory@, true) is Some) && first_item(f.inventory@, false) is None
            ==> r == (if f.can_refuel {
            Some(Intention::Refuel)
        } else {
            None
        }),
{
    if f.hurt_and_safe {
        if let Some(item) = find_item(&f.inventory, true) {
            return Some(Intention::UseMedkit(item));
        }
    }
    if let Some(item) = find_item(&f.inventory, false) {
        return Some(Intention::Wield(item));
    }
    if f.can_refuel {
        Some(Intention::Refuel)
    } else {
        None
    }
}

/// Whether a crew member asks the controlled one to wait: it means to do something, repeats an
/// action, or is stunned.
pub fn is_requesting_wait(has_intention: bool, has_repeating_action: bool, is_stunned: bool) -> (r: bool)
    ensures
        r == (has_intention || has_repeating_action || is_stunned),
{
    has_intention || has_repeating_action || is_stunned
}

/// What the controlled character does without the player's input, in a safe area and without
/// an action that repeats: hand in a fulfilled hunt task that was presented to a character in
/// its area, or wait where a crew member in its area asks for it.
pub fn controlled_character_action(
    repeating_or_unsafe: bool,
    fulfilled_hunt_giver: Option<EntityId>,
    wait_requested: bool,
) -> (r: Option<Option<EntityId>>)
    ensures
        repeating_or_unsafe ==> r is None,
        !repeating_or_unsafe && fulfilled_hunt_giver is Some ==> r == Some(fulfilled_hunt_giver),
        !repeating_or_unsafe && fulfilled_hunt_giver is None ==> (r is Some <==> wait_requested) && (r matches Some(
            x,
        ) ==> x is None),
{
    if repeating_or_unsafe {
        return None;
    }
    match fulfilled_hunt_giver {
        Some(target) => Some(Some(target)),
        None => if wait_requested {
            Some(None)
        } else {
            None
        },
    }
}


/// A door that a character might leave through: where it stands, and whether the area it leads
/// to is one that the character accepts.
#[derive(Clone, Copy)]
pub struct PathOption {
    pub door: EntityId,
    pub pos: Pos,
    pub destination_accepted: bool,
}

/// Whether the character can leave through the door: the door is in its area, nothing blocks
/// the way to it, and its destination is accepted.
pub open spec fn path_usable(mover: Mover, obstacles: Obstacles, p: PathOption) -> bool {
    &&& mover.pos matches Some(pos)
    &&& p.pos.area_view() == pos.area_view()
    &&& p.destination_accepted
    &&& blocked_spec(
        mover.entity,
        mover.is_crew_member,
        mover.is_hostile,
        pos,
        p.pos,
        obstacles.hostiles@,
        obstacles.crew@,
        obstacles.occupants@,
    ) is Ok
}

/// A door chosen at random among those the character can leave through; none where there is none.
pub fn find_random_unblocked_path(rng: &mut ThreadRng, mover: &Mover, obstacles: &Obstacles, paths: &Vec<PathOption>) -> (r:
    Option<EntityId>)
    ensures
        r is None <==> forall|i: int| 0 <= i < paths.len() ==> !path_usable(*mover, *obstacles, #[trigger] paths@[i]),
        r matches Some(d) ==> exists|i: int|
            0 <= i < paths.len() && path_usable(*mover, *obstacles, #[trigger] paths@[i]) && paths@[i].door == d,
{
    let pos = match mover.pos {
        Some(p) => p,
        None => return None,
    };
    let mut usable: Vec<EntityId> = Vec::new();
    let ghost mut from: Seq<int> = Seq::empty();
    let mut i: usize = 0;
    while i < paths.len()
        invariant
            i <= paths.len(),
            mover.pos == Some(pos),
            usable.len() == from.len(),
            forall|k: int| 0 <= k < from.len() ==> 0 <= #[trigger] from[k] < paths.len() && path_usable(
                *mover,
                *obstacles,
                paths@[from[k]],
            ) && paths@[from[k]].door == usable@[k],
            usable.len() == 0 ==> forall|j: int| 0 <= j < i ==> !path_usable(*mover, *obstacles, #[trigger] paths@[j]),
        decreases paths.len() - i,
    {
        let p = paths[i];
        if p.pos.is_in(pos.get_area()) && p.destination_accepted {
            let blocked = check_is_blocked(
                mover.entity,
                mover.is_crew_member,
                mover.is_hostile,
                pos,
                p.pos,
                &obstacles.hostiles,
                &obstacles.crew,
                &obstacles.occupants,
            );
            if blocked.is_ok() {
                usable.push(p.door);
                proof {
                    from = from.push(i as int);
                }
            }
        }
        i = i + 1;
    }
    if usable.len() == 0 {
        return None;
    }
    let k = random_below(rng, usable.len());
    proof {
        let j = from[k as int];
        assert(path_usable(*mover, *obstacles, paths@[j]) && paths@[j].door == usable@[k as int]);
    }
    Some(usable[k])
}


/// Whether a creature blocks its opponents this turn: not while it is badly hurt and of a
/// fearful species.
pub fn blocks_opponents(is_badly_hurt: bool, species_behavior: Option<BadlyHurtBehavior>) -> (r: bool)
    ensures
        r == !(is_badly_hurt && species_behavior == Some(BadlyHurtBehavior::Fearful)),
{
    !has_behavior(is_badly_hurt, species_behavior, BadlyHurtBehavior::Fearful)
}

/// Whether a crew member keeps repeating its action: an action that danger breaks off ends in
/// an area that is not safe.
pub fn keeps_repeating(action: RepeatingAction, area_is_safe: bool) -> (r: bool)
    ensures
        r == !(!(action is ChargedAttack || action is UseItem) && !area_is_safe),
{
    !(action.cancel_if_unsafe() && !area_is_safe)
}

/// What a creature does this turn where no action was chosen for it: the action it repeats,
/// else the one picked for it, else waiting (none stands for waiting).
pub fn next_action<A>(repeating: Option<A>, picked: Option<A>) -> (r: Option<A>)
    ensures
        repeating is Some ==> r == repeating,
        repeating is None ==> r == picked,
{
    match repeating {
        Some(a) => Some(a),
        None => picked,
    }
}

} // verus!
