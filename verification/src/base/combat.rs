use vstd::prelude::*;

verus! {

/// How an attack is made.
#[derive(Debug, Clone, Copy, PartialEq, Eq, Structural)]
pub enum AttackKind {
    Light,
    Rash,
    Charged,
}

impl AttackKind {
    /// Value modifier to the d20 roll for the attack hit accuracy.
    pub open spec fn hit_modifier_spec(self) -> int {
        match self {
            AttackKind::Light => 0,
            AttackKind::Rash => -2,
            AttackKind::Charged => 2,
        }
    }

    /// Value modifier to the d20 roll to apply the stun effect.
    pub open spec fn stun_modifier_spec(self) -> int {
        match self {
            AttackKind::Light => -3,
            AttackKind::Rash => 3,
            AttackKind::Charged => 6,
        }
    }

    /// Value modifier to the d20 roll for the attack hit accuracy.
    pub fn hit_modifier(self) -> (m: i16)
        ensures
            m == self.hit_modifier_spec(),
    {
        match self {
            AttackKind::Light => 0,
            AttackKind::Rash => -2,
            AttackKind::Charged => 2,
        }
    }

    /// Value modifier to the d20 roll to apply the stun effect.
    pub fn stun_modifier(self) -> (m: i16)
        ensures
            m == self.stun_modifier_spec(),
    {
        match self {
            AttackKind::Light => -3,
            AttackKind::Rash => 3,
            AttackKind::Charged => 6,
        }
    }
}

/// How a creature fights without a weapon.
#[derive(Clone, Copy, Debug, PartialEq, Eq, Structural)]
pub enum UnarmedType {
    Bite,
    Scratch,
    Punch,
    Pounce,
    Slash,
}

impl UnarmedType {
    /// The verb of the attack: "jumps at", "scratches at", "launches a punch at" or "slashes at".
    pub fn attack_verb(self) -> (s: &'static str)
        ensures
            (self == UnarmedType::Bite || self == UnarmedType::Pounce) ==> s@ == "jumps at"@,
            self == UnarmedType::Scratch ==> s@ == "scratches at"@,
            self == UnarmedType::Punch ==> s@ == "launches a punch at"@,
            self == UnarmedType::Slash ==> s@ == "slashes at"@,
    {
        match self {
            UnarmedType::Bite | UnarmedType::Pounce => "jumps at",
            UnarmedType::Scratch => "scratches at",
            UnarmedType::Punch => "launches a punch at",
            UnarmedType::Slash => "slashes at",
        }
    }

    /// The verb of a hit: "bites", "hits" or "pounces".
    pub fn hit_verb(self) -> (s: &'static str)
        ensures
            self == UnarmedType::Bite ==> s@ == "bites"@,
            (self == UnarmedType::Scratch || self == UnarmedType::Punch || self == UnarmedType::Slash)
                ==> s@ == "hits"@,
            self == UnarmedType::Pounce ==> s@ == "pounces"@,
    {
        match self {
            UnarmedType::Bite => "bites",
            UnarmedType::Scratch | UnarmedType::Punch | UnarmedType::Slash => "hits",
            UnarmedType::Pounce => "pounces",
        }
    }
}

/// Which kinds of attack a weapon allows.
#[derive(Debug, Clone, Copy, PartialEq, Eq, Structural)]
pub enum AttackSet {
    Light,
    Quick,
    Slow,
    Intense,
    Varied,
}

impl AttackSet {
    /// The kinds of attack in the set.
    pub open spec fn kinds(self) -> Seq<AttackKind> {
        match self {
            AttackSet::Light => seq![AttackKind::Light],
            AttackSet::Quick => seq![AttackKind::Light, AttackKind::Rash],
            AttackSet::Slow => seq![AttackKind::Light, AttackKind::Charged],
            AttackSet::Intense => seq![AttackKind::Rash, AttackKind::Charged],
            AttackSet::Varied => seq![AttackKind::Light, AttackKind::Rash, AttackKind::Charged],
        }
    }

    /// The kinds of attack in the set, in order.
    pub fn available_kinds(self) -> (v: Vec<AttackKind>)
        ensures
            v@ == self.kinds(),
    {
        match self {
            AttackSet::Light => vec![AttackKind::Light],
            AttackSet::Quick => vec![AttackKind::Light, AttackKind::Rash],
            AttackSet::Slow => vec![AttackKind::Light, AttackKind::Charged],
            AttackSet::Intense => vec![AttackKind::Rash, AttackKind::Charged],
            AttackSet::Varied => vec![AttackKind::Light, AttackKind::Rash, AttackKind::Charged],
        }
    }
}

/// Every attack set allows at least one kind of attack, and never the same kind twice.
pub proof fn law_attack_sets_nonempty(set: AttackSet)
    ensures
        set.kinds().len() > 0,
        forall|i: int, j: int| 0 <= i < j < set.kinds().len() ==> set.kinds()[i] != set.kinds()[j],
{
}

} // verus!
