use crate::random::random_below;
use rand::rngs::ThreadRng;
use vstd::prelude::*;

verus! {

/// A creature's four stats.
#[derive(Debug, Clone, Copy, PartialEq, Eq, Structural)]
pub struct Stats {
    pub strength: i16,
    pub endurance: i16,
    pub agility: i16,
    pub luck: i16,
}

/// The result of a change of stats that stayed in bounds.
pub struct ChangedStats;

/// The result of a change of stats that would leave them out of bounds.
pub struct OutsideBounds;

/// A change to each of the four stats.
#[derive(Debug, Clone, Copy, Default, PartialEq, Eq, Structural)]
pub struct StatChanges {
    pub strength: i16,
    pub endurance: i16,
    pub agility: i16,
    pub luck: i16,
}

/// Whether a changed stat lands in `low..=10`; an unchanged stat is never out of bounds.
pub open spec fn change_in_bounds(value: i16, change: i16, low: int) -> bool {
    change != 0 ==> low <= value + change <= 10
}

/// Whether every changed stat lands in its bounds: 1 to 10, and 0 to 10 for luck.
pub open spec fn changes_in_bounds(stats: Stats, changes: StatChanges) -> bool {
    &&& change_in_bounds(stats.strength, changes.strength, 1)
    &&& change_in_bounds(stats.endurance, changes.endurance, 1)
    &&& change_in_bounds(stats.agility, changes.agility, 1)
    &&& change_in_bounds(stats.luck, changes.luck, 0)
}

/// Whether the sums that the bounds check computes fit in an `i16`.
pub open spec fn changes_computable(stats: Stats, changes: StatChanges) -> bool {
    &&& (changes.strength != 0 ==> i16::MIN <= stats.strength + changes.strength <= i16::MAX)
    &&& (changes.endurance != 0 ==> i16::MIN <= stats.endurance + changes.endurance <= i16::MAX)
    &&& (changes.agility != 0 ==> i16::MIN <= stats.agility + changes.agility <= i16::MAX)
    &&& (changes.luck != 0 ==> i16::MIN <= stats.luck + changes.luck <= i16::MAX)
}

/// The stats with the changes added.
pub open spec fn applied(stats: Stats, changes: StatChanges) -> Stats {
    Stats {
        strength: (stats.strength + changes.strength) as i16,
        endurance: (stats.endurance + changes.endurance) as i16,
        agility: (stats.agility + changes.agility) as i16,
        luck: (stats.luck + changes.luck) as i16,
    }
}

/// The opposite change.
pub open spec fn negated(changes: StatChanges) -> StatChanges {
    StatChanges {
        strength: (-changes.strength) as i16,
        endurance: (-changes.endurance) as i16,
        agility: (-changes.agility) as i16,
        luck: (-changes.luck) as i16,
    }
}

fn stat_in_bounds(value: i16, change: i16, low: i16) -> (r: bool)
    requires
        change != 0 ==> i16::MIN <= value + change <= i16::MAX,
    ensures
        r == change_in_bounds(value, change, low as int),
{
    change == 0 || (low <= value + change && value + change <= 10)
}

impl Stats {
    /// Stats with these values.
    pub fn new(strength: i16, endurance: i16, agility: i16, luck: i16) -> (s: Stats)
        ensures
            s == (Stats { strength, endurance, agility, luck }),
    {
        Stats { strength, endurance, agility, luck }
    }

    /// Applies the changes if every changed stat stays in its bounds (1 to 10, and 0 to 10 for
    /// luck), and otherwise leaves the stats as they are.
    pub fn try_change_in_bounds(&mut self, changes: StatChanges) -> (r: Result<ChangedStats, OutsideBounds>)
        requires
            changes_computable(*old(self), changes),
        ensures
            r is Ok <==> changes_in_bounds(*old(self), changes),
            r is Ok ==> *final(self) == applied(*old(self), changes),
            r is Err ==> *final(self) == *old(self),
    {
        if !stat_in_bounds(self.strength, changes.strength, 1) || !stat_in_bounds(
            self.endurance,
            changes.endurance,
            1,
        ) || !stat_in_bounds(self.agility, changes.agility, 1) || !stat_in_bounds(
            self.luck,
            changes.luck,
            0,
        ) {
            return Err(OutsideBounds);
        }
        self.strength = self.strength + changes.strength;
        self.endurance = self.endurance + changes.endurance;
        self.agility = self.agility + changes.agility;
        self.luck = self.luck + changes.luck;
        Ok(ChangedStats)
    }
}

/// Whether each stat lies in its bounds: 1 to 10, and 0 to 10 for luck.
pub open spec fn stats_in_bounds(stats: Stats) -> bool {
    &&& 1 <= stats.strength <= 10
    &&& 1 <= stats.endurance <= 10
    &&& 1 <= stats.agility <= 10
    &&& 0 <= stats.luck <= 10
}

/// The sum of the four stats.
pub open spec fn stats_sum(stats: Stats) -> int {
    stats.strength + stats.endurance + stats.agility + stats.luck
}

/// Whether `after` is `before` with exactly one stat moved by `change`.
pub open spec fn moved_one_stat(before: Stats, after: Stats, change: i16) -> bool {
    ||| after == Stats { strength: (before.strength + change) as i16, ..before }
    ||| after == Stats { endurance: (before.endurance + change) as i16, ..before }
    ||| after == Stats { agility: (before.agility + change) as i16, ..before }
    ||| after == Stats { luck: (before.luck + change) as i16, ..before }
}

impl Stats {
    /// Moves one stat by `change` (one up or one down), chosen at random among the stats that
    /// stay in their bounds so; fails, changing nothing, where no stat can move.
    pub fn adjust_random_in_bounds(&mut self, change: i16, rng: &mut ThreadRng) -> (r: Result<ChangedStats, OutsideBounds>)
        requires
            stats_in_bounds(*old(self)),
            change == 1 || change == -1,
        ensures
            r is Err <==> (if change == 1 {
                stats_sum(*old(self)) == 40
            } else {
                stats_sum(*old(self)) == 3
            }),
            r is Err ==> *final(self) == *old(self),
            r is Ok ==> stats_in_bounds(*final(self)) && moved_one_stat(*old(self), *final(self), change)
                && stats_sum(*final(self)) == stats_sum(*old(self)) + change,
    {
        let mut movable: Vec<u8> = Vec::new();
        if 1 <= self.strength + change && self.strength + change <= 10 {
            movable.push(0);
        }
        if 1 <= self.endurance + change && self.endurance + change <= 10 {
            movable.push(1);
        }
        if 1 <= self.agility + change && self.agility + change <= 10 {
            movable.push(2);
        }
        if 0 <= self.luck + change && self.luck + change <= 10 {
            movable.push(3);
        }
        if movable.len() == 0 {
            return Err(OutsideBounds);
        }
        let k = movable[random_below(rng, movable.len())];
        if k == 0 {
            self.strength = self.strength + change;
        } else if k == 1 {
            self.endurance = self.endurance + change;
        } else if k == 2 {
            self.agility = self.agility + change;
        } else {
            self.luck = self.luck + change;
        }
        Ok(ChangedStats)
    }
}

/// New random stats with the given sum: each stat drawn in its bounds, then stats chosen at
/// random moved one at a time towards the sum. None where no stats in bounds have that sum.
pub fn reroll_stats(rng: &mut ThreadRng, target_sum: i16) -> (r: Option<Stats>)
    ensures
        r is Some <==> 3 <= target_sum <= 40,
        r matches Some(s) ==> stats_in_bounds(s) && stats_sum(s) == target_sum,
{
    let mut stats = Stats {
        strength: 1 + random_below(rng, 10) as i16,
        endurance: 1 + random_below(rng, 10) as i16,
        agility: 1 + random_below(rng, 10) as i16,
        luck: random_below(rng, 11) as i16,
    };
    while stats.strength + stats.endurance + stats.agility + stats.luck < target_sum
        invariant
            stats_in_bounds(stats),
        decreases target_sum - stats_sum(stats),
    {
        if stats.adjust_random_in_bounds(1, rng).is_err() {
            return None;
        }
    }
    while stats.strength + stats.endurance + stats.agility + stats.luck > target_sum
        invariant
            stats_in_bounds(stats),
            stats_sum(stats) >= target_sum,
        decreases stats_sum(stats) - target_sum,
    {
        if stats.adjust_random_in_bounds(-1, rng).is_err() {
            return None;
        }
    }
    Some(stats)
}

/// A change that was made in bounds can be taken back: from stats in bounds, the opposite
/// change is accepted too and restores the stats.
pub proof fn law_change_round_trip(stats: Stats, changes: StatChanges)
    requires
        stats_in_bounds(stats),
        changes_computable(stats, changes),
        changes_in_bounds(stats, changes),
    ensures
        changes_computable(applied(stats, changes), negated(changes)),
        changes_in_bounds(applied(stats, changes), negated(changes)),
        applied(applied(stats, changes), negated(changes)) == stats,
{
}

/// A change that was refused changes nothing, and a change that was accepted leaves every
/// changed stat in its bounds.
pub proof fn law_change_keeps_bounds(stats: Stats, changes: StatChanges)
    requires
        changes_in_bounds(stats, changes),
        stats_in_bounds(stats),
    ensures
        stats_in_bounds(applied(stats, changes)),
{
}

/// A body type, which adjusts a creature's stats.
#[derive(Debug, Clone, Copy, PartialEq, Eq, Structural)]
pub enum CreatureAttribute {
    Muscular,
    Bulky,
    Agile,
}

impl CreatureAttribute {
    /// All attributes, in declaration order.
    pub fn variants() -> (v: Vec<Self>)
        ensures
            v@ == seq![CreatureAttribute::Muscular, CreatureAttribute::Bulky, CreatureAttribute::Agile],
    {
        vec![CreatureAttribute::Muscular, CreatureAttribute::Bulky, CreatureAttribute::Agile]
    }

    /// The stats with the attribute's adjustment.
    pub open spec fn adjusted(self, stats: Stats) -> Stats {
        match self {
            CreatureAttribute::Muscular => Stats {
                strength: (stats.strength + 3) as i16,
                luck: (stats.luck - 1) as i16,
                ..stats
            },
            CreatureAttribute::Bulky => Stats {
                endurance: (stats.endurance + 3) as i16,
                agility: (stats.agility - 1) as i16,
                ..stats
            },
            CreatureAttribute::Agile => Stats {
                agility: (stats.agility + 3) as i16,
                endurance: (stats.endurance - 1) as i16,
                ..stats
            },
        }
    }

    /// Whether the adjusted stats stay within an `i16`.
    pub open spec fn adjustment_fits(self, stats: Stats) -> bool {
        match self {
            CreatureAttribute::Muscular => stats.strength + 3 <= i16::MAX && stats.luck - 1 >= i16::MIN,
            CreatureAttribute::Bulky => stats.endurance + 3 <= i16::MAX && stats.agility - 1 >= i16::MIN,
            CreatureAttribute::Agile => stats.agility + 3 <= i16::MAX && stats.endurance - 1 >= i16::MIN,
        }
    }

    /// Muscular: strength +3, luck -1. Bulky: endurance +3, agility -1. Agile: agility +3,
    /// endurance -1.
    pub fn adjust_stats(self, stats: &mut Stats)
        requires
            self.adjustment_fits(*old(stats)),
        ensures
            *final(stats) == self.adjusted(*old(stats)),
            stats_sum(*final(stats)) == stats_sum(*old(stats)) + 2,
    {
        match self {
            CreatureAttribute::Muscular => {
                stats.strength = stats.strength + 3;
                stats.luck = stats.luck - 1;
            },
            CreatureAttribute::Bulky => {
                stats.endurance = stats.endurance + 3;
                stats.agility = stats.agility - 1;
            },
            CreatureAttribute::Agile => {
                stats.agility = stats.agility + 3;
                stats.endurance = stats.endurance - 1;
            },
        }
    }

    /// The attribute's adjective.
    pub open spec fn adjective(self) -> Seq<char> {
        match self {
            CreatureAttribute::Muscular => "muscular"@,
            CreatureAttribute::Bulky => "bulky"@,
            CreatureAttribute::Agile => "agile"@,
        }
    }

    /// The attribute's adjective (also its `Display`).
    pub fn as_adjective(self) -> (s: &'static str)
        ensures
            s@ == self.adjective(),
    {
        match self {
            CreatureAttribute::Muscular => "muscular",
            CreatureAttribute::Bulky => "bulky",
            CreatureAttribute::Agile => "agile",
        }
    }
}

/// A personality trait.
#[derive(Debug, Clone, Copy, PartialEq, Eq, PartialOrd, Ord, Hash, Structural)]
pub enum Trait {
    GoodDodger,
    FastHealer,
    Fragile,
    BigEater,
}

impl Trait {
    /// The position of the trait in the order that `Ord` derives from the declaration.
    pub open spec fn rank(self) -> int {
        match self {
            Trait::GoodDodger => 0,
            Trait::FastHealer => 1,
            Trait::Fragile => 2,
            Trait::BigEater => 3,
        }
    }

    /// The trait's display name.
    pub fn name(self) -> (s: &'static str)
        ensures
            self == Trait::BigEater ==> s@ == "[Big Eater]"@,
            self == Trait::FastHealer ==> s@ == "[Fast Healer]"@,
            self == Trait::Fragile ==> s@ == "[Fragile]"@,
            self == Trait::GoodDodger ==> s@ == "[Good Dodger]"@,
    {
        match self {
            Trait::BigEater => "[Big Eater]",
            Trait::FastHealer => "[Fast Healer]",
            Trait::Fragile => "[Fragile]",
            Trait::GoodDodger => "[Good Dodger]",
        }
    }
}

/// A character's set of traits.
#[derive(Debug, Clone)]
pub struct Traits(pub Vec<Trait>);

impl Traits {
    /// The traits as a set.
    pub open spec fn trait_set(&self) -> Set<Trait> {
        self.0@.to_set()
    }

    /// Whether there are no traits.
    pub fn is_empty(&self) -> (r: bool)
        ensures
            r == (self.trait_set() == Set::<Trait>::empty()),
    {
        proof {
            if self.0.len() > 0 {
                assert(self.trait_set().contains(self.0[0]));
            } else {
                assert(self.trait_set() =~= Set::<Trait>::empty());
            }
        }
        self.0.len() == 0
    }

    /// Whether there is any trait.
    pub fn has_traits(&self) -> (r: bool)
        ensures
            r == (self.trait_set() != Set::<Trait>::empty()),
    {
        !self.is_empty()
    }

    /// Each trait once, in the order that `Ord` derives.
    pub fn sorted_iter(&self) -> (v: Vec<Trait>)
        ensures
            v@.to_set() == self.trait_set(),
            forall|i: int, j: int| 0 <= i < j < v.len() ==> v[i].rank() < v[j].rank(),
    {
        let all = vec![Trait::GoodDodger, Trait::FastHealer, Trait::Fragile, Trait::BigEater];
        let mut v: Vec<Trait> = Vec::new();
        let mut k: usize = 0;
        while k < 4
            invariant
                k <= 4,
                all@ == seq![Trait::GoodDodger, Trait::FastHealer, Trait::Fragile, Trait::BigEater],
                forall|i: int, j: int| 0 <= i < j < v.len() ==> v[i].rank() < v[j].rank(),
                forall|i: int| 0 <= i < v.len() ==> v[i].rank() < k,
                forall|t: Trait| t.rank() < k ==> (v@.contains(t) <==> self.0@.contains(t)),
                forall|t: Trait| v@.contains(t) ==> t.rank() < k,
            decreases 4 - k,
        {
            let t = all[k];
            assert(t.rank() == k);
            let ghost before = v@;
            if self.contains(t) {
                v.push(t);
                assert(v@[v.len() - 1] == t);
            }
            proof {
                assert forall|u: Trait| u.rank() < k + 1 implies (v@.contains(u) <==> self.0@.contains(u)) by {
                    if u.rank() == k {
                        assert(u == t);
                    } else {
                        if v@.contains(u) {
                            let i = choose|i: int| 0 <= i < v.len() && v@[i] == u;
                            if i < before.len() {
                                assert(before[i] == u);
                            }
                        }
                        if before.contains(u) {
                            let i = choose|i: int| 0 <= i < before.len() && before[i] == u;
                            assert(v@[i] == u);
                        }
                    }
                }
                assert forall|u: Trait| v@.contains(u) implies u.rank() < k + 1 by {
                    let i = choose|i: int| 0 <= i < v.len() && v@[i] == u;
                    if i < before.len() {
                        assert(before[i] == u);
                    }
                }
            }
            k = k + 1;
        }
        proof {
            assert forall|t: Trait| v@.to_set().contains(t) == self.trait_set().contains(t) by {
                assert(t.rank() < 4);
            }
            assert(v@.to_set() =~= self.trait_set());
        }
        v
    }

    /// Whether the set holds `t`.
    pub fn contains(&self, t: Trait) -> (r: bool)
        ensures
            r == self.0@.contains(t),
    {
        let mut i: usize = 0;
        while i < self.0.len()
            invariant
                i <= self.0.len(),
                forall|k: int| 0 <= k < i ==> self.0[k] != t,
            decreases self.0.len() - i,
        {
            if self.0[i] == t {
                return true;
            }
            i = i + 1;
        }
        false
    }
}

/// Stamina for dodging attacks.
#[derive(Debug)]
pub struct Stamina {
    dodge_stamina: i16,
    max: i16,
}

impl Stamina {
    /// The stamina left for dodging.
    pub closed spec fn current(&self) -> i16 {
        self.dodge_stamina
    }

    /// The most stamina there can be.
    pub closed spec fn maximum(&self) -> i16 {
        self.max
    }

    /// Full stamina for the stats: the maximum is 6 plus three times the endurance.
    pub fn with_max(stats: &Stats) -> (s: Stamina)
        requires
            i16::MIN <= stats.endurance * 3,
            6 + stats.endurance * 3 <= i16::MAX,
        ensures
            s.maximum() == 6 + stats.endurance * 3,
            s.current() == s.maximum(),
    {
        let max = 6 + stats.endurance * 3;
        Stamina { max, dodge_stamina: max }
    }

    /// Regains one point, up to the maximum.
    pub fn tick(&mut self)
        requires
            old(self).current() < i16::MAX,
        ensures
            final(self).maximum() == old(self).maximum(),
            final(self).current() == (if old(self).current() + 1 < old(self).maximum() {
                old(self).current() + 1
            } else {
                old(self).maximum() as int
            }),
    {
        let next = self.dodge_stamina + 1;
        self.dodge_stamina = if next < self.max { next } else { self.max };
    }

    /// Whether the stamina is below the maximum.
    pub fn need_rest(&self) -> (r: bool)
        ensures
            r == (self.current() < self.maximum()),
    {
        self.dodge_stamina < self.max
    }

    /// Whether the stamina is more than one point below the maximum.
    pub fn need_more_rest(&self) -> (r: bool)
        requires
            self.current() < i16::MAX,
        ensures
            r == (self.current() + 1 < self.maximum()),
    {
        self.dodge_stamina + 1 < self.max
    }

    /// Spends three points on an attempt to dodge.
    pub fn on_dodge_attempt(&mut self)
        requires
            old(self).current() >= i16::MIN + 3,
        ensures
            final(self).maximum() == old(self).maximum(),
            final(self).current() == old(self).current() - 3,
    {
        self.dodge_stamina = self.dodge_stamina - 3;
    }

    /// Spends one point on a move.
    pub fn on_move(&mut self)
        requires
            old(self).current() > i16::MIN,
        ensures
            final(self).maximum() == old(self).maximum(),
            final(self).current() == old(self).current() - 1,
    {
        self.dodge_stamina = self.dodge_stamina - 1;
    }
}

/// Resting restores what moving spends: after a move, one tick brings back the stamina of
/// before the move.
pub proof fn law_tick_undoes_move(current: i16, maximum: i16)
    requires
        current <= maximum,
        current > i16::MIN,
    ensures
        ({
            let moved = current - 1;
            (if moved + 1 < maximum { moved + 1 } else { maximum as int }) == current
        }),
{
}

/// How a character feels, from worst to best.
#[derive(Debug, Clone, Copy, PartialEq, Eq, PartialOrd, Ord, Structural)]
pub enum MoraleState {
    Devastated,
    Poor,
    Neutral,
    Good,
    Excellent,
}

impl MoraleState {
    /// The position of the state from worst to best.
    pub open spec fn rank(self) -> int {
        match self {
            MoraleState::Devastated => 0,
            MoraleState::Poor => 1,
            MoraleState::Neutral => 2,
            MoraleState::Good => 3,
            MoraleState::Excellent => 4,
        }
    }

    /// The position of the state from worst to best.
    pub fn rank_value(self) -> (r: u8)
        ensures
            r == self.rank(),
    {
        match self {
            MoraleState::Devastated => 0,
            MoraleState::Poor => 1,
            MoraleState::Neutral => 2,
            MoraleState::Good => 3,
            MoraleState::Excellent => 4,
        }
    }
}

impl Default for MoraleState {
    fn default() -> (m: Self)
        ensures
            m == MoraleState::Neutral,
    {
        MoraleState::Neutral
    }
}

/// Marks a creature that has been seen badly hurt.
pub struct SeenWithLowHealth;

/// Marks a creature that has been seen exhausted.
pub struct SeenWithLowStamina;

/// Marks a stunned creature.
#[derive(Debug, Default)]
pub struct IsStunned;

} // verus!
