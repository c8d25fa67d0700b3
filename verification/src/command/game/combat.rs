use super::{advance_at, done_err};
use crate::base::EntityId;
use crate::base::position::Pos;
use crate::text::str_eq;
use crate::command::parse::Parse;
use crate::text::concat3;
use vstd::prelude::*;

verus! {

/// An attack command as read: on any foe, or on the foes of a name.
pub enum AttackCommand {
    AttackAny,
    Attack(Vec<EntityId>),
}

/// What `attack` reads: nothing more attacks any foe; otherwise the first name of
/// `hostile_targets` that the input goes on with picks its foes, which must end the input.
pub open spec fn attack_command_spec(input: Seq<char>, hostile_targets: Seq<(Seq<char>, Seq<EntityId>)>) -> Option<
    Result<Option<Seq<EntityId>>, Seq<char>>,
> {
    match advance_at(input, 0, "attack"@) {
        None => None,
        Some(s) => Some(
            if s == input.len() {
                Ok(None)
            } else {
                match first_group(input, s, hostile_targets) {
                    Some((s2, targets)) => if s2 == input.len() {
                        Ok(Some(targets))
                    } else {
                        Err(done_err(input, s2))
                    },
                    None => Err("There is no such target here."@),
                }
            },
        ),
    }
}

/// The first group whose name the input goes on with, and where the input goes on.
pub open spec fn first_group(input: Seq<char>, start: nat, names: Seq<(Seq<char>, Seq<EntityId>)>) -> Option<
    (nat, Seq<EntityId>),
>
    decreases names.len(),
{
    if names.len() == 0 {
        None
    } else {
        match advance_at(input, start, names[0].0) {
            Some(s) => Some((s, names[0].1)),
            None => first_group(input, start, names.drop_first()),
        }
    }
}

/// The groups of foes by name, as text and entities.
pub open spec fn groups_view(v: Seq<(String, Vec<EntityId>)>) -> Seq<(Seq<char>, Seq<EntityId>)> {
    v.map_values(|e: (String, Vec<EntityId>)| (e.0@, e.1@))
}

/// Reads an attack command: "attack" alone attacks any foe, and "attack" with a name attacks
/// the foes of that name; none where the input does not start with "attack".
pub fn parse_attack_command(input: &str, hostile_targets: &Vec<(String, Vec<EntityId>)>) -> (r: Option<
    Result<AttackCommand, String>,
>)
    ensures
        match attack_command_spec(input@, groups_view(hostile_targets@)) {
            None => r is None,
            Some(Ok(None)) => r matches Some(Ok(AttackCommand::AttackAny)),
            Some(Ok(Some(targets))) => r matches Some(Ok(AttackCommand::Attack(v))) && v@ == targets,
            Some(Err(m)) => r matches Some(Err(e)) && e@ == m,
        },
{
    proof {
        reveal_strlit("attack");
    }
    let p = Parse::new(input);
    let q = match p.try_advance("attack") {
        Some(q) => q,
        None => return None,
    };
    if q.active_len() == 0 {
        return Some(Ok(AttackCommand::AttackAny));
    }
    let ghost all = groups_view(hostile_targets@);
    let mut i: usize = 0;
    assert(all.skip(0) =~= all);
    while i < hostile_targets.len()
        invariant
            i <= hostile_targets.len(),
            all == groups_view(hostile_targets@),
            q.input_view() == input@,
            q.start_view() < input@.len(),
            first_group(input@, q.start_view(), all) == first_group(input@, q.start_view(), all.skip(i as int)),
            attack_command_spec(input@, all) == Some(
                match first_group(input@, q.start_view(), all) {
                    Some((s2, targets)) => if s2 == input@.len() {
                        Ok(Some(targets))
                    } else {
                        Err(done_err(input@, s2))
                    },
                    None => Err("There is no such target here."@),
                },
            ),
        decreases hostile_targets.len() - i,
    {
        assert(all.skip(i as int)[0] == (hostile_targets@[i as int].0@, hostile_targets@[i as int].1@));
        assert(all.skip(i as int).drop_first() =~= all.skip(i + 1));
        match q.try_advance(hostile_targets[i].0.as_str()) {
            Some(q2) => {
                if q2.active_len() == 0 {
                    let mut targets: Vec<EntityId> = Vec::new();
                    let group = &hostile_targets[i].1;
                    let mut k: usize = 0;
                    while k < group.len()
                        invariant
                            k <= group.len(),
                            targets@ == group@.take(k as int),
                        decreases group.len() - k,
                    {
                        targets.push(group[k]);
                        k = k + 1;
                        assert(targets@ =~= group@.take(k as int));
                    }
                    assert(group@.take(k as int) =~= group@);
                    return Some(Ok(AttackCommand::Attack(targets)));
                } else {
                    let consumed = q2.consumed_input();
                    return Some(Err(concat3("Unexpected argument after \"", consumed.as_str(), "\"")));
                }
            },
            None => {},
        }
        i = i + 1;
    }
    Some(Err("There is no such target here.".to_owned()))
}


/// The values, each once, in the order in which they first occur.
pub open spec fn first_occurrences<A>(s: Seq<A>) -> Seq<A>
    decreases s.len(),
{
    if s.len() == 0 {
        Seq::empty()
    } else {
        let earlier = first_occurrences(s.drop_last());
        if earlier.contains(s.last()) {
            earlier
        } else {
            earlier.push(s.last())
        }
    }
}

/// A value occurs among the first occurrences exactly where it occurs at all.
pub proof fn lemma_first_occurrences_contains<A>(s: Seq<A>, x: A)
    ensures
        first_occurrences(s).contains(x) <==> s.contains(x),
    decreases s.len(),
{
    if s.len() > 0 {
        let rest = s.drop_last();
        lemma_first_occurrences_contains(rest, x);
        let earlier = first_occurrences(rest);
        if s.contains(x) && x != s.last() {
            let i = choose|i: int| 0 <= i < s.len() && s[i] == x;
            assert(rest[i] == x);
        }
        if rest.contains(x) {
            let i = choose|i: int| 0 <= i < rest.len() && rest[i] == x;
            assert(s[i] == x);
        }
        assert(s[s.len() - 1] == s.last());
        if !earlier.contains(s.last()) {
            if earlier.push(s.last()).contains(x) && x != s.last() {
                let i = choose|i: int| 0 <= i < earlier.len() + 1 && earlier.push(s.last())[i] == x;
                assert(earlier[i] == x);
            }
            if earlier.contains(x) {
                let i = choose|i: int| 0 <= i < earlier.len() && earlier[i] == x;
                assert(earlier.push(s.last())[i] == x);
            }
            assert(earlier.push(s.last())[earlier.len() as int] == s.last());
        }
    }
}

/// The names of the pairs, as text.
pub open spec fn pair_names(pairs: Seq<(String, EntityId)>) -> Seq<Seq<char>> {
    pairs.map_values(|p: (String, EntityId)| p.0@)
}

/// The entities of the pairs with the name, in order.
pub open spec fn named_entities(pairs: Seq<(String, EntityId)>, name: Seq<char>) -> Seq<EntityId> {
    pairs.filter(|p: (String, EntityId)| p.0@ == name).map_values(|p: (String, EntityId)| p.1)
}

/// A copy of the entities.
fn copy_entities(v: &Vec<EntityId>) -> (r: Vec<EntityId>)
    ensures
        r@ == v@,
{
    let mut r: Vec<EntityId> = Vec::new();
    let mut i: usize = 0;
    while i < v.len()
        invariant
            i <= v.len(),
            r@ == v@.take(i as int),
        decreases v.len() - i,
    {
        r.push(v[i]);
        i = i + 1;
        assert(r@ =~= v@.take(i as int));
    }
    assert(v@.take(v.len() as int) =~= v@);
    r
}

/// The entities grouped by name: each name once, in the order in which it first occurs, with
/// the entities of that name in order.
pub fn group_by_name(pairs: &Vec<(String, EntityId)>) -> (r: Vec<(String, Vec<EntityId>)>)
    ensures
        r@.map_values(|g: (String, Vec<EntityId>)| g.0@) == first_occurrences(pair_names(pairs@)),
        forall|i: int| 0 <= i < r.len() ==> (#[trigger] r@[i]).1@ == named_entities(pairs@, r@[i].0@),
{
    let mut names: Vec<String> = Vec::new();
    let mut groups: Vec<Vec<EntityId>> = Vec::new();
    let mut i: usize = 0;
    while i < pairs.len()
        invariant
            i <= pairs.len(),
            names.len() == groups.len(),
            names@.map_values(|n: String| n@) == first_occurrences(pair_names(pairs@.take(i as int))),
            forall|a: int, b: int| 0 <= a < b < names.len() ==> #[trigger] names@[a]@ != #[trigger] names@[b]@,
            forall|k: int| 0 <= k < groups.len() ==> (#[trigger] groups@[k])@ == named_entities(pairs@.take(i as int), names@[k]@),
        decreases pairs.len() - i,
    {
        let ghost before = pairs@.take(i as int);
        let ghost after = pairs@.take(i + 1);
        let ghost p = pairs@[i as int];
        assert(after =~= before.push(p));
        assert(pair_names(after) =~= pair_names(before).push(p.0@));
        assert(pair_names(after).drop_last() =~= pair_names(before));
        assert(pair_names(after).last() == p.0@);
        assert(after.drop_last() =~= before);
        let name = &pairs[i].0;
        let entity = pairs[i].1;
        let mut j: usize = 0;
        let mut found = false;
        while j < names.len()
            invariant_except_break
                j <= names.len(),
                !found,
                forall|k: int| 0 <= k < j ==> names@[k]@ != name@,
            ensures
                found ==> j < names.len() && names@[j as int]@ == name@,
                !found ==> forall|k: int| 0 <= k < names.len() ==> names@[k]@ != name@,
            decreases names.len() - j,
        {
            if str_eq(names[j].as_str(), name.as_str()) {
                found = true;
                break;
            }
            j = j + 1;
        }
        proof {
            reveal(Seq::filter);
        }
        if found {
            let mut g = copy_entities(&groups[j]);
            g.push(entity);
            let ghost old_names = names@;
            let ghost old_groups = groups@;
            groups.set(j, g);
            proof {
                assert(first_occurrences(pair_names(before)).contains(p.0@)) by {
                    assert(old_names.map_values(|n: String| n@)[j as int] == p.0@);
                }
                assert forall|k: int| 0 <= k < groups.len() implies (#[trigger] groups@[k])@ == named_entities(
                    after,
                    names@[k]@,
                ) by {
                    let f = |q: (String, EntityId)| q.0@ == names@[k]@;
                    assert(after.filter(f) =~= (if f(p) { before.filter(f).push(p) } else { before.filter(f) }));
                    if k != j {
                        assert(names@[k]@ != names@[j as int]@);
                        assert(groups@[k] == old_groups[k]);
                    }
                }
            }
        } else {
            proof {
                lemma_first_occurrences_contains(pair_names(before), p.0@);
                assert(!first_occurrences(pair_names(before)).contains(p.0@)) by {
                    if first_occurrences(pair_names(before)).contains(p.0@) {
                        let k = choose|k: int|
                            0 <= k < first_occurrences(pair_names(before)).len() && first_occurrences(pair_names(before))[k]
                                == p.0@;
                        assert(names@.map_values(|n: String| n@)[k] == names@[k]@);
                    }
                }
            }
            let ghost old_names = names@;
            let ghost old_groups = groups@;
            names.push(name.clone());
            groups.push(vec![entity]);
            proof {
                assert(names@.map_values(|n: String| n@) =~= old_names.map_values(|n: String| n@).push(p.0@));
                assert forall|k: int| 0 <= k < groups.len() implies (#[trigger] groups@[k])@ == named_entities(
                    after,
                    names@[k]@,
                ) by {
                    let f = |q: (String, EntityId)| q.0@ == names@[k]@;
                    assert(after.filter(f) =~= (if f(p) { before.filter(f).push(p) } else { before.filter(f) }));
                    if k == groups.len() - 1 {
                        assert(!pair_names(before).contains(p.0@));
                        assert(before.filter(f).len() == 0) by {
                            if before.filter(f).len() > 0 {
                                let q = before.filter(f)[0];
                                before.lemma_filter_pred(f, 0);
                                assert(before.filter(f).contains(q));
                                before.lemma_filter_contains_rev(f, q);
                                let m = choose|m: int| 0 <= m < before.len() && before[m] == q;
                                assert(pair_names(before)[m] == p.0@);
                            }
                        }
                        assert(groups@[k]@ =~= seq![entity]);
                    } else {
                        assert(groups@[k] == old_groups[k]);
                        assert(names@[k] == old_names[k]);
                        assert(names@[k]@ != p.0@);
                    }
                }
            }
        }
        i = i + 1;
    }
    assert(pairs@.take(pairs.len() as int) =~= pairs@);
    let mut r: Vec<(String, Vec<EntityId>)> = Vec::new();
    let mut k: usize = 0;
    while k < names.len()
        invariant
            k <= names.len(),
            names.len() == groups.len(),
            r.len() == k,
            forall|m: int| 0 <= m < k ==> (#[trigger] r@[m]).0@ == names@[m]@ && r@[m].1@ == groups@[m]@,
        decreases names.len() - k,
    {
        r.push((names[k].clone(), copy_entities(&groups[k])));
        k = k + 1;
    }
    assert(r@.map_values(|g: (String, Vec<EntityId>)| g.0@) =~= names@.map_values(|n: String| n@));
    r
}


/// A hostile creature that might be attacked: where it is, whether it lives, and its names.
pub struct HostileCandidate {
    pub entity: EntityId,
    pub pos: Pos,
    pub alive: bool,
    pub names: Vec<String>,
}

/// Each name of each living hostile in the area, with the hostile, in order.
pub open spec fn hostile_pairs(candidates: Seq<HostileCandidate>, area: EntityId) -> Seq<(String, EntityId)>
    decreases candidates.len(),
{
    if candidates.len() == 0 {
        Seq::empty()
    } else {
        let rest = hostile_pairs(candidates.drop_last(), area);
        let c = candidates.last();
        if c.pos.area_view() == area && c.alive {
            rest + c.names@.map_values(|n: String| (n, c.entity))
        } else {
            rest
        }
    }
}

/// The living hostiles in the area by name: each name once, in the order in which it first
/// occurs, with the hostiles of that name in order.
pub fn hostile_targets(area: EntityId, candidates: &Vec<HostileCandidate>) -> (r: Vec<(String, Vec<EntityId>)>)
    ensures
        r@.map_values(|g: (String, Vec<EntityId>)| g.0@) == first_occurrences(
            pair_names(hostile_pairs(candidates@, area)),
        ),
        forall|i: int|
            0 <= i < r.len() ==> (#[trigger] r@[i]).1@ == named_entities(hostile_pairs(candidates@, area), r@[i].0@),
{
    let mut pairs: Vec<(String, EntityId)> = Vec::new();
    let mut i: usize = 0;
    while i < candidates.len()
        invariant
            i <= candidates.len(),
            pairs@ == hostile_pairs(candidates@.take(i as int), area),
        decreases candidates.len() - i,
    {
        let c = &candidates[i];
        assert(candidates@.take(i + 1).drop_last() =~= candidates@.take(i as int));
        if c.pos.is_in(area) && c.alive {
            let ghost start = pairs@;
            let mut k: usize = 0;
            while k < c.names.len()
                invariant
                    k <= c.names.len(),
                    pairs@ == start + c.names@.take(k as int).map_values(|n: String| (n, c.entity)),
                decreases c.names.len() - k,
            {
                pairs.push((c.names[k].clone(), c.entity));
                k = k + 1;
                assert(c.names@.take(k as int).map_values(|n: String| (n, c.entity)) =~= c.names@.take(
                    (k - 1) as int,
                ).map_values(|n: String| (n, c.entity)).push((c.names@[k - 1], c.entity)));
                assert(pairs@ =~= start + c.names@.take(k as int).map_values(|n: String| (n, c.entity)));
            }
            assert(c.names@.take(c.names.len() as int) =~= c.names@);
        }
        i = i + 1;
    }
    assert(candidates@.take(candidates.len() as int) =~= candidates@);
    group_by_name(&pairs)
}

} // verus!
