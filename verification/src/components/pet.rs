//! Pet kinds, their roles and unlock identifiers.
use vstd::prelude::*;

verus! {

/// Kinds of pets.
#[derive(Debug, Clone, Copy, PartialEq, Eq, Structural)]
pub enum PetType {
    /// Melee pet that circles the player.
    GuardDog,
    /// Ranged pet with piercing shots.
    FireSprite,
    /// Melee pet that slows enemies.
    SlimeCompanion,
    /// Ranged pet that flies over obstacles.
    CrowScout,
    /// Collects experience gems and does not attack.
    XpCollector,
}

/// Combat roles of pets.
#[derive(Debug, Clone, Copy, PartialEq, Eq, Structural, Hash)]
pub enum PetRole {
    Melee,
    Ranged,
    Support,
    Collector,
}

/// High-level states of the pet behaviour.
#[derive(Debug, Clone, Copy, PartialEq, Eq, Structural)]
pub enum PetState {
    Follow,
    Engage,
    Regroup,
    Retreat,
    Assist,
}

/// Actions the pet behaviour chooses from.
#[derive(Debug, Clone, Copy, PartialEq, Eq, Structural)]
pub enum PetAction {
    FollowFormation,
    Regroup,
    EngageTarget,
    PeelThreat,
    KeepRange,
    Fallback,
    HoldPosition,
    CollectXp,
}

/// The role of each pet kind.
pub open spec fn spec_role(t: PetType) -> PetRole {
    match t {
        PetType::GuardDog => PetRole::Melee,
        PetType::SlimeCompanion => PetRole::Melee,
        PetType::FireSprite => PetRole::Ranged,
        PetType::CrowScout => PetRole::Ranged,
        PetType::XpCollector => PetRole::Collector,
    }
}

/// The unlock identifier of each pet kind.
pub open spec fn spec_unlock_id(t: PetType) -> Seq<char> {
    match t {
        PetType::GuardDog => "guard_dog"@,
        PetType::FireSprite => "fire_sprite"@,
        PetType::SlimeCompanion => "slime"@,
        PetType::CrowScout => "crow_scout"@,
        PetType::XpCollector => "xp_dog"@,
    }
}

impl PetType {
    /// Display name of the pet.
    pub fn get_name(&self) -> (r: &'static str)
        ensures
            r@ == match *self {
                PetType::GuardDog => "Сторожевой пёс"@,
                PetType::FireSprite => "Огненная фея"@,
                PetType::SlimeCompanion => "Слизень-спутник"@,
                PetType::CrowScout => "Ворон-разведчик"@,
                PetType::XpCollector => "Пёс-собиратель опыта"@,
            },
    {
        match self {
            PetType::GuardDog => "Сторожевой пёс",
            PetType::FireSprite => "Огненная фея",
            PetType::SlimeCompanion => "Слизень-спутник",
            PetType::CrowScout => "Ворон-разведчик",
            PetType::XpCollector => "Пёс-собиратель опыта",
        }
    }

    /// Combat role of the pet.
    pub fn get_role(&self) -> (r: PetRole)
        ensures
            r == spec_role(*self),
    {
        match self {
            PetType::GuardDog => PetRole::Melee,
            PetType::SlimeCompanion => PetRole::Melee,
            PetType::FireSprite => PetRole::Ranged,
            PetType::CrowScout => PetRole::Ranged,
            PetType::XpCollector => PetRole::Collector,
        }
    }

    /// Identifier of the pet in the unlock list of the save data.
    pub fn to_string(&self) -> (r: String)
        ensures
            r@ == spec_unlock_id(*self),
    {
        match self {
            PetType::GuardDog => "guard_dog".to_owned(),
            PetType::FireSprite => "fire_sprite".to_owned(),
            PetType::SlimeCompanion => "slime".to_owned(),
            PetType::CrowScout => "crow_scout".to_owned(),
            PetType::XpCollector => "xp_dog".to_owned(),
        }
    }
}

/// Different pet kinds have different unlock identifiers, so unlocking one
/// never unlocks another.
pub proof fn lemma_unlock_ids_distinct(a: PetType, b: PetType)
    requires
        a != b,
    ensures
        spec_unlock_id(a) != spec_unlock_id(b),
{
    reveal_strlit("guard_dog");
    reveal_strlit("fire_sprite");
    reveal_strlit("slime");
    reveal_strlit("crow_scout");
    reveal_strlit("xp_dog");
    let sa = spec_unlock_id(a);
    let sb = spec_unlock_id(b);
    if sa.len() == sb.len() {
        assert(sa[0] != sb[0]);
    }
}

} // verus!
