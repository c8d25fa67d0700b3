use crate::base::EntityId;
use crate::base::combat::{AttackKind, UnarmedType};
use crate::base::position::{Placement, Pos};
use crate::random::{random_below, roll_d20};
use super::Error;
use crate::text::{concat, concat3, concat4, concat5};
use rand::rngs::ThreadRng;
use vstd::prelude::*;

verus! {

/// What a hit did to its target besides the damage.
#[derive(Debug, Clone, Copy, PartialEq, Eq, Structural)]
pub enum AttackEffect {
    Stunned,
    Killed,
}

impl AttackEffect {
    /// The word for the effect in an attack message.
    pub open spec fn verb_spec(self) -> Seq<char> {
        match self {
            AttackEffect::Stunned => "stunning"@,
            AttackEffect::Killed => "killing"@,
        }
    }

    /// The word for the effect in an attack message: "stunning" or "killing".
    pub fn verb(self) -> (s: &'static str)
        ensures
            s@ == self.verb_spec(),
    {
        proof {
            reveal_strlit("stunning");
            reveal_strlit("killing");
        }
        match self {
            AttackEffect::Stunned => "stunning",
            AttackEffect::Killed => "killing",
        }
    }
}

/// Marks that damage killed its target.
pub struct Killed;

/// How well an attack landed.
#[derive(Debug, Clone, Copy, PartialEq, Eq, Structural)]
pub enum HitType {
    DirectHit,
    GrazingHit,
    Dodge,
}

/// How a d20 roll against a hit difficulty turns out: a dodge more than five below the
/// difficulty, a grazing hit below it, and a direct hit at or above it.
pub open spec fn hit_type_of(roll: int, difficulty: int) -> HitType {
    if roll < difficulty - 5 {
        HitType::Dodge
    } else if roll < difficulty {
        HitType::GrazingHit
    } else {
        HitType::DirectHit
    }
}

/// How a d20 roll against a hit difficulty turns out.
pub fn classify_hit(roll: i16, difficulty: i16) -> (h: HitType)
    ensures
        h == hit_type_of(roll as int, difficulty as int),
{
    let difficulty = difficulty as i32;
    let roll = roll as i32;
    if roll < difficulty - 5 {
        HitType::Dodge
    } else if roll < difficulty {
        HitType::GrazingHit
    } else {
        HitType::DirectHit
    }
}

/// The hit difficulty after the attack kind's modifier: `base` less the modifier.
pub open spec fn modified_hit_difficulty(base: int, kind: AttackKind) -> int {
    base - kind.hit_modifier_spec()
}

/// Rolls a d20 for an attack of the given kind against the target's hit difficulty `base`
/// (before the attack kind's modifier). The result is what some d20 roll gives.
pub fn roll_hit(rng: &mut ThreadRng, base: i16, kind: AttackKind) -> (h: HitType)
    requires
        i16::MIN <= modified_hit_difficulty(base as int, kind) <= i16::MAX,
    ensures
        exists|roll: int| 1 <= roll <= 20 && h == hit_type_of(roll, modified_hit_difficulty(base as int, kind)),
{
    let difficulty: i16 = base - kind.hit_modifier();
    let roll = roll_d20(rng);
    let h = classify_hit(roll, difficulty);
    assert(1 <= roll as int <= 20 && h == hit_type_of(roll as int, difficulty as int));
    h
}

/// The d20 roll that a stun needs: 15, plus twice what the target's endurance exceeds the
/// attacker's strength by, less the attack kind's stun modifier.
pub open spec fn stun_difficulty_spec(attacker_strength: int, target_endurance: int, kind: AttackKind) -> int {
    15 + 2 * (target_endurance - attacker_strength) - kind.stun_modifier_spec()
}

/// Whether a d20 roll reaches the stun difficulty.
pub open spec fn stun_roll_succeeds(roll: int, difficulty: int) -> bool {
    roll >= difficulty
}

/// The d20 roll that a stun needs.
pub fn stun_difficulty(attacker_strength: i16, target_endurance: i16, kind: AttackKind) -> (d: i16)
    requires
        i16::MIN <= target_endurance - attacker_strength <= i16::MAX,
        i16::MIN <= stun_difficulty_spec(attacker_strength as int, target_endurance as int, kind) <= i16::MAX,
    ensures
        d == stun_difficulty_spec(attacker_strength as int, target_endurance as int, kind),
{
    let difference: i16 = target_endurance - attacker_strength;
    let modifier: i16 = kind.stun_modifier();
    let total: i32 = 15 + 2 * (difference as i32) - (modifier as i32);
    total as i16
}

/// Whether a stun succeeds with the d20 roll: where the roll reaches the difficulty.
pub fn stun_from_roll(roll: i16, difficulty: i16) -> (r: bool)
    ensures
        r == stun_roll_succeeds(roll as int, difficulty as int),
{
    roll >= difficulty
}

/// Rolls a d20 for a stun: it succeeds where the roll reaches the stun difficulty. The result is
/// what some d20 roll gives.
pub fn roll_stun(rng: &mut ThreadRng, attacker_strength: i16, target_endurance: i16, kind: AttackKind) -> (r: bool)
    requires
        i16::MIN <= target_endurance - attacker_strength <= i16::MAX,
        i16::MIN <= stun_difficulty_spec(attacker_strength as int, target_endurance as int, kind) <= i16::MAX,
    ensures
        exists|roll: int|
            1 <= roll <= 20 && r == #[trigger] stun_roll_succeeds(
                roll,
                stun_difficulty_spec(attacker_strength as int, target_endurance as int, kind),
            ),
{
    let difficulty = stun_difficulty(attacker_strength, target_endurance, kind);
    let roll = roll_d20(rng);
    let r = stun_from_roll(roll, difficulty);
    assert(1 <= roll as int <= 20 && r == stun_roll_succeeds(roll as int, difficulty as int));
    r
}

/// Whether a hit that did not kill can stun: a direct hit with a weapon that stuns, on a target
/// that is not stunned already.
pub open spec fn can_stun(is_direct_hit: bool, target_is_stunned: bool, weapon_stuns: bool) -> bool {
    is_direct_hit && !target_is_stunned && weapon_stuns
}

/// What a hit does besides its damage, given the d20 roll for a stun: a killing hit is
/// reported as such; else a hit that can stun stuns where the roll reaches the difficulty;
/// else nothing.
pub open spec fn hit_effect_spec(
    killed: bool,
    is_direct_hit: bool,
    target_is_stunned: bool,
    weapon_stuns: bool,
    roll: int,
    difficulty: int,
) -> Option<AttackEffect> {
    if killed {
        Some(AttackEffect::Killed)
    } else if can_stun(is_direct_hit, target_is_stunned, weapon_stuns) && stun_roll_succeeds(roll, difficulty) {
        Some(AttackEffect::Stunned)
    } else {
        None
    }
}

/// What a hit does besides its damage, given the d20 roll for a stun, as [`hit_effect_spec`]
/// says.
pub fn hit_effect_from_roll(
    killed: bool,
    is_direct_hit: bool,
    target_is_stunned: bool,
    weapon_stuns: bool,
    roll: i16,
    difficulty: i16,
) -> (e: Option<AttackEffect>)
    ensures
        e == hit_effect_spec(killed, is_direct_hit, target_is_stunned, weapon_stuns, roll as int, difficulty as int),
{
    if killed {
        Some(AttackEffect::Killed)
    } else if is_direct_hit && !target_is_stunned && weapon_stuns && stun_from_roll(roll, difficulty) {
        Some(AttackEffect::Stunned)
    } else {
        None
    }
}

/// What a hit that did not kill does besides its damage: only a direct hit with a weapon that
/// stuns, on a target that is not stunned already, can stun, and then only where the stun roll
/// succeeds. A killing hit is reported as such. The stun roll is made only where it matters.
/// The result is what [`hit_effect_spec`] gives for some d20 roll.
pub fn attack_hit_effect(
    rng: &mut ThreadRng,
    killed: bool,
    is_direct_hit: bool,
    target_is_stunned: bool,
    weapon_stuns: bool,
    attacker_strength: i16,
    target_endurance: i16,
    kind: AttackKind,
) -> (e: Option<AttackEffect>)
    requires
        i16::MIN <= target_endurance - attacker_strength <= i16::MAX,
        i16::MIN <= stun_difficulty_spec(attacker_strength as int, target_endurance as int, kind) <= i16::MAX,
    ensures
        killed ==> e == Some(AttackEffect::Killed),
        !killed && !can_stun(is_direct_hit, target_is_stunned, weapon_stuns) ==> e is None,
        exists|roll: int|
            1 <= roll <= 20 && e == #[trigger] hit_effect_spec(
                killed,
                is_direct_hit,
                target_is_stunned,
                weapon_stuns,
                roll,
                stun_difficulty_spec(attacker_strength as int, target_endurance as int, kind),
            ),
        !killed && can_stun(is_direct_hit, target_is_stunned, weapon_stuns) ==> exists|roll: int|
            1 <= roll <= 20 && ((e == Some(AttackEffect::Stunned)) == #[trigger] stun_roll_succeeds(
                roll,
                stun_difficulty_spec(attacker_strength as int, target_endurance as int, kind),
            )),
{
    if killed {
        proof {
            assert(hit_effect_spec(killed, is_direct_hit, target_is_stunned, weapon_stuns, 1, stun_difficulty_spec(
                attacker_strength as int,
                target_endurance as int,
                kind,
            )) == Some(AttackEffect::Killed));
        }
        return Some(AttackEffect::Killed);
    }
    if is_direct_hit && !target_is_stunned && weapon_stuns {
        let difficulty = stun_difficulty(attacker_strength, target_endurance, kind);
        let roll = roll_d20(rng);
        let e = hit_effect_from_roll(killed, is_direct_hit, target_is_stunned, weapon_stuns, roll, difficulty);
        assert(stun_roll_succeeds(roll as int, difficulty as int) == (e == Some(AttackEffect::Stunned)));
        return e;
    }
    proof {
        assert(hit_effect_spec(killed, is_direct_hit, target_is_stunned, weapon_stuns, 1, stun_difficulty_spec(
            attacker_strength as int,
            target_endurance as int,
            kind,
        )) is None);
    }
    None
}

/// How the attack kind opens the attack message.
pub open spec fn attack_kind_text_spec(kind: AttackKind) -> Seq<char> {
    match kind {
        AttackKind::Light => ""@,
        AttackKind::Rash => "With uncontrolled force, "@,
        AttackKind::Charged => "With power, "@,
    }
}

/// How the attack kind opens the attack message.
pub fn attack_kind_text(kind: AttackKind) -> (s: &'static str)
    ensures
        s@ == attack_kind_text_spec(kind),
{
    proof {
        reveal_strlit("");
        reveal_strlit("With uncontrolled force, ");
        reveal_strlit("With power, ");
    }
    match kind {
        AttackKind::Light => "",
        AttackKind::Rash => "With uncontrolled force, ",
        AttackKind::Charged => "With power, ",
    }
}

/// What the attacker attacks with.
pub enum AttackMeans {
    /// A wielded weapon, by its name.
    Weapon(String),
    /// The attacker's own way of fighting without a weapon.
    Unarmed(UnarmedType),
    /// Neither is known.
    Plain,
}

/// The opening of an attack message, and the verb for a hit.
pub open spec fn attack_text_spec(
    kind: AttackKind,
    attacker: Seq<char>,
    means: AttackMeans,
    target: Seq<char>,
) -> (Seq<char>, Seq<char>) {
    let opening = attack_kind_text_spec(kind) + attacker;
    match means {
        AttackMeans::Weapon(weapon) => (opening + " swings their "@ + weapon@ + " at "@ + target, "hits"@),
        AttackMeans::Unarmed(unarmed) => (
            opening + " "@ + unarmed_attack_verb(unarmed) + " "@ + target,
            unarmed_hit_verb(unarmed),
        ),
        AttackMeans::Plain => (opening + " attacks "@ + target, "hits"@),
    }
}

/// The verb of an unarmed attack.
pub open spec fn unarmed_attack_verb(unarmed: UnarmedType) -> Seq<char> {
    match unarmed {
        UnarmedType::Bite | UnarmedType::Pounce => "jumps at"@,
        UnarmedType::Scratch => "scratches at"@,
        UnarmedType::Punch => "launches a punch at"@,
        UnarmedType::Slash => "slashes at"@,
    }
}

/// The verb of an unarmed hit.
pub open spec fn unarmed_hit_verb(unarmed: UnarmedType) -> Seq<char> {
    match unarmed {
        UnarmedType::Bite => "bites"@,
        UnarmedType::Pounce => "pounces"@,
        _ => "hits"@,
    }
}

/// The opening of an attack message ("With power, the goblin swings their sword at the
/// mercenary"), and the verb to use for a hit.
pub fn attack_text(kind: AttackKind, attacker: &str, means: &AttackMeans, target: &str) -> (r: (
    String,
    &'static str,
))
    ensures
        (r.0@, r.1@) == attack_text_spec(kind, attacker@, *means, target@),
{
    let kind_text = attack_kind_text(kind);
    proof {
        reveal_strlit(" swings their ");
        reveal_strlit(" at ");
        reveal_strlit(" ");
        reveal_strlit(" attacks ");
        reveal_strlit("hits");
    }
    match means {
        AttackMeans::Weapon(weapon) => {
            let opening = concat(kind_text, attacker);
            let text = concat5(opening.as_str(), " swings their ", weapon.as_str(), " at ", target);
            (text, "hits")
        },
        AttackMeans::Unarmed(unarmed) => {
            let opening = concat(kind_text, attacker);
            let verb = unarmed.attack_verb();
            let text = concat5(opening.as_str(), " ", verb, " ", target);
            (text, unarmed.hit_verb())
        },
        AttackMeans::Plain => {
            let text = concat5(kind_text, attacker, " attacks ", target, "");
            proof {
                reveal_strlit("");
                assert(text@ =~= attack_kind_text_spec(kind) + attacker@ + " attacks "@ + target@);
            }
            (text, "hits")
        },
    }
}

/// The end of a hit message that names the effect: ", stunning the goblin", or nothing.
pub open spec fn effect_text_spec(effect: Option<AttackEffect>, target: Seq<char>) -> Seq<char> {
    match effect {
        Some(e) => ", "@ + e.verb_spec() + " "@ + target,
        None => ""@,
    }
}

/// The message that tells how an attack went.
pub open spec fn hit_message_spec(
    attack: Seq<char>,
    hit: HitType,
    target: Seq<char>,
    hit_verb: Seq<char>,
    effect: Option<AttackEffect>,
) -> Seq<char> {
    match hit {
        HitType::Dodge => attack + ", but "@ + target + " dodges the attack."@,
        HitType::GrazingHit => attack + " and narrowly "@ + hit_verb + " them"@ + effect_text_spec(effect, target)
            + "."@,
        HitType::DirectHit => attack + " and directly "@ + hit_verb + " them"@ + effect_text_spec(effect, target)
            + "."@,
    }
}

/// The message that tells how an attack went, after its opening `attack`.
pub fn hit_message(
    attack: &str,
    hit: HitType,
    target: &str,
    hit_verb: &str,
    effect: Option<AttackEffect>,
) -> (s: String)
    ensures
        s@ == hit_message_spec(attack@, hit, target@, hit_verb@, effect),
{
    proof {
        reveal_strlit(", but ");
        reveal_strlit(" dodges the attack.");
        reveal_strlit(" and narrowly ");
        reveal_strlit(" and directly ");
        reveal_strlit(" them");
        reveal_strlit(".");
        reveal_strlit(", ");
        reveal_strlit(" ");
        reveal_strlit("");
    }
    let effect_text = match effect {
        Some(e) => concat3(", ", e.verb(), " ").as_str().to_owned(),
        None => "".to_owned(),
    };
    let effect_text = match effect {
        Some(_) => concat(effect_text.as_str(), target),
        None => effect_text,
    };
    assert(effect_text@ =~= effect_text_spec(effect, target@));
    match hit {
        HitType::Dodge => concat5(attack, ", but ", target, " dodges the attack.", ""),
        HitType::GrazingHit => {
            let head = concat3(attack, " and narrowly ", hit_verb);
            concat5(head.as_str(), " them", effect_text.as_str(), ".", "")
        },
        HitType::DirectHit => {
            let head = concat3(attack, " and directly ", hit_verb);
            concat5(head.as_str(), " them", effect_text.as_str(), ".", "")
        },
    }
}

/// A possible target of an attack: the entity, where it stands, and whether it is alive.
#[derive(Clone, Copy)]
pub struct TargetCandidate {
    pub entity: EntityId,
    pub placement: Placement,
    pub is_alive: bool,
}

/// Whether the candidate can be attacked from `pos`: it is alive and in the same area.
pub open spec fn reachable(pos: Pos, c: TargetCandidate) -> bool {
    c.is_alive && c.placement.pos.area_view() == pos.area_view()
}

/// The distance from the candidate to `pos`.
pub open spec fn candidate_distance(pos: Pos, c: TargetCandidate) -> int {
    let closest = c.placement.closest_coord_spec(pos);
    if closest > pos.coord_view() {
        closest - pos.coord_view()
    } else {
        pos.coord_view() - closest
    }
}

/// The smallest distance of a reachable candidate (`u32::MAX` where there is none).
pub open spec fn closest_distance(pos: Pos, cands: Seq<TargetCandidate>) -> int
    decreases cands.len(),
{
    if cands.len() == 0 {
        u32::MAX as int
    } else {
        let rest = closest_distance(pos, cands.drop_last());
        let c = cands.last();
        if reachable(pos, c) && candidate_distance(pos, c) < rest {
            candidate_distance(pos, c)
        } else {
            rest
        }
    }
}

/// The reachable candidates at distance `d`, in order.
pub open spec fn targets_at(pos: Pos, cands: Seq<TargetCandidate>, d: int) -> Seq<EntityId>
    decreases cands.len(),
{
    if cands.len() == 0 {
        Seq::empty()
    } else {
        let rest = targets_at(pos, cands.drop_last(), d);
        let c = cands.last();
        if reachable(pos, c) && candidate_distance(pos, c) == d {
            rest.push(c.entity)
        } else {
            rest
        }
    }
}

/// The reachable candidates that are closest to `pos`, in order.
pub open spec fn closest_targets_spec(pos: Pos, cands: Seq<TargetCandidate>) -> Seq<EntityId> {
    targets_at(pos, cands, closest_distance(pos, cands))
}

/// Every reachable candidate is at least the closest distance away.
pub proof fn lemma_closest_distance_bound(pos: Pos, cands: Seq<TargetCandidate>)
    ensures
        closest_distance(pos, cands) <= u32::MAX,
        forall|i: int|
            0 <= i < cands.len() && reachable(pos, cands[i]) ==> closest_distance(pos, cands) <= candidate_distance(
                pos,
                #[trigger] cands[i],
            ),
    decreases cands.len(),
{
    if cands.len() > 0 {
        lemma_closest_distance_bound(pos, cands.drop_last());
        assert forall|i: int|
            0 <= i < cands.len() && reachable(pos, cands[i]) implies closest_distance(pos, cands)
            <= candidate_distance(pos, #[trigger] cands[i]) by {
            if i < cands.len() - 1 {
                assert(cands[i] == cands.drop_last()[i]);
            }
        }
    }
}

/// No candidate is closer than a distance below the closest one.
pub proof fn lemma_targets_below(pos: Pos, cands: Seq<TargetCandidate>, d: int)
    requires
        d < closest_distance(pos, cands),
    ensures
        targets_at(pos, cands, d) == Seq::<EntityId>::empty(),
    decreases cands.len(),
{
    if cands.len() > 0 {
        lemma_targets_below(pos, cands.drop_last(), d);
    }
}

/// The entities of the reachable candidates that are closest to `pos`, in their order.
pub fn closest_targets(pos: Pos, cands: &Vec<TargetCandidate>) -> (r: Vec<EntityId>)
    ensures
        r@ == closest_targets_spec(pos, cands@),
{
    let mut best: u32 = u32::MAX;
    let mut found: Vec<EntityId> = Vec::new();
    let mut i: usize = 0;
    while i < cands.len()
        invariant
            i <= cands.len(),
            best == closest_distance(pos, cands@.take(i as int)),
            found@ == targets_at(pos, cands@.take(i as int), best as int),
        decreases cands.len() - i,
    {
        let c = cands[i];
        let prefix = Ghost(cands@.take(i as int));
        assert(cands@.take(i + 1).drop_last() =~= prefix@);
        assert(cands@.take(i + 1).last() == c);
        if c.is_alive && pos.is_in(c.placement.area()) {
            let distance = c.placement.distance_to(pos);
            if distance < best {
                proof {
                    lemma_targets_below(pos, prefix@, distance as int);
                }
                best = distance;
                found = Vec::new();
                found.push(c.entity);
                assert(found@ =~= seq![c.entity]);
            } else if distance == best {
                found.push(c.entity);
            } else {
                proof {
                    lemma_closest_distance_bound(pos, prefix@);
                }
            }
        }
        i = i + 1;
    }
    assert(cands@.take(cands.len() as int) == cands@);
    found
}

/// Picks the target of an attack on `candidates`: the only one where there is one, and
/// otherwise one chosen at random among the reachable candidates closest to `pos`; none where no
/// candidate is reachable.
pub fn select_attack_target(rng: &mut ThreadRng, pos: Pos, candidates: &Vec<TargetCandidate>) -> (r: Option<
    EntityId,
>)
    ensures
        candidates.len() == 1 ==> r == Some(candidates[0].entity),
        candidates.len() != 1 ==> (r is None <==> closest_targets_spec(pos, candidates@).len() == 0),
        candidates.len() != 1 ==> (r matches Some(e) ==> closest_targets_spec(pos, candidates@).contains(e)),
{
    if candidates.len() == 1 {
        return Some(candidates[0].entity);
    }
    let targets = closest_targets(pos, candidates);
    if targets.len() == 0 {
        None
    } else {
        let index = random_below(rng, targets.len());
        assert(targets@.contains(targets@[index as int]));
        Some(targets[index])
    }
}


/// Before an attack lands: a dead target ends the attack quietly (false); one that is no longer
/// placed, or is in another area, makes it fail; otherwise the attack goes on (true).
pub fn check_attack_target(
    attacker_name: &str,
    target_name: &str,
    target_alive: bool,
    target_area: Option<EntityId>,
    attacker_area: EntityId,
) -> (r: Result<bool, Error>)
    ensures
        !target_alive ==> r == Ok::<bool, Error>(false),
        target_alive && target_area is None ==> (r matches Err(e) && !e.visible && e.message@ == target_name@
            + " disappeared before "@ + attacker_name@ + " could attack."@),
        target_alive && target_area is Some && target_area != Some(attacker_area) ==> (r matches Err(e)
            && !e.visible && e.message@ == target_name@ + " left before "@ + attacker_name@ + " could attack."@),
        target_alive && target_area == Some(attacker_area) ==> r == Ok::<bool, Error>(true),
{
    if !target_alive {
        return Ok(false);
    }
    let area = match target_area {
        Some(a) => a,
        None => {
            return Err(Error::private(concat4(target_name, " disappeared before ", attacker_name, " could attack.")));
        },
    };
    if area != attacker_area {
        return Err(Error::private(concat4(target_name, " left before ", attacker_name, " could attack.")));
    }
    Ok(true)
}

/// The message of an attacker that starts a charged attack.
pub fn readies_attack_message(attacker_name: &str) -> (s: String)
    ensures
        s@ == attacker_name@ + " readies a powerful attack."@,
{
    concat(attacker_name, " readies a powerful attack.")
}

/// Whether the attacker is stunned by its own attack: after a rash attack.
pub fn stuns_attacker(kind: AttackKind) -> (r: bool)
    ensures
        r == (kind == AttackKind::Rash),
{
    match kind {
        AttackKind::Rash => true,
        _ => false,
    }
}

/// The message of a cursed nail that was used for a direct hit.
pub fn nail_breaks_message() -> (s: String)
    ensures
        s@ == "The used nail breaks in two."@,
{
    "The used nail breaks in two.".to_owned()
}


/// What an attack comes to once its hit is rolled and its effect known: the messages in the
/// attacker's area, whether the attacker stuns itself, and whether a wielded cursed nail was
/// used up (it then puts its effect on the target's health and breaks).
pub struct AttackReport {
    pub messages: Vec<String>,
    pub attacker_stunned: bool,
    pub nail_used: bool,
}

/// The report of an attack: the hit message; a rash attack stuns the attacker; a direct hit
/// with a cursed nail uses the nail up, which adds the message that it breaks.
pub fn attack_report(
    kind: AttackKind,
    attacker: &str,
    means: &AttackMeans,
    target: &str,
    hit: HitType,
    effect: Option<AttackEffect>,
    wields_cursed_nail: bool,
) -> (r: AttackReport)
    ensures
        r.attacker_stunned == (kind == AttackKind::Rash),
        r.nail_used == (wields_cursed_nail && hit == HitType::DirectHit),
        r.messages@.len() == (if r.nail_used { 2int } else { 1int }),
        r.messages@[0]@ == hit_message_spec(
            attack_text_spec(kind, attacker@, *means, target@).0,
            hit,
            target@,
            attack_text_spec(kind, attacker@, *means, target@).1,
            effect,
        ),
        r.nail_used ==> r.messages@[1]@ == "The used nail breaks in two."@,
{
    let (text, hit_verb) = attack_text(kind, attacker, means, target);
    let mut messages: Vec<String> = Vec::new();
    messages.push(hit_message(text.as_str(), hit, target, hit_verb, effect));
    let nail_used = wields_cursed_nail && hit == HitType::DirectHit;
    if nail_used {
        messages.push(nail_breaks_message());
    }
    AttackReport { messages, attacker_stunned: stuns_attacker(kind), nail_used }
}

} // verus!
