//! Enemy and boss kinds and their integer attributes.
use vstd::prelude::*;

verus! {

/// Kinds of regular enemies.
#[derive(Debug, Clone, Copy, PartialEq, Eq, Structural)]
pub enum EnemyType {
    /// Basic enemy.
    Bandit,
    /// Fast, fragile enemy.
    Thief,
    /// Slow, sturdy enemy.
    Brute,
}

impl EnemyType {
    /// Gold dropped when the enemy dies.
    pub fn get_gold_reward(&self) -> (r: u32)
        ensures
            r == match *self {
                EnemyType::Bandit => 5u32,
                EnemyType::Thief => 8u32,
                EnemyType::Brute => 15u32,
            },
    {
        match self {
            EnemyType::Bandit => 5,
            EnemyType::Thief => 8,
            EnemyType::Brute => 15,
        }
    }
}

/// States of the enemy behaviour machine.
#[derive(Debug, Clone, Copy, PartialEq, Eq, Structural)]
pub enum EnemyState {
    Idle,
    Alert,
    Combat,
    Search,
    Flee,
}

/// Actions the enemy behaviour chooses from.
#[derive(Debug, Clone, Copy, PartialEq, Eq, Structural)]
pub enum EnemyAction {
    Idle,
    ApproachTarget,
    KeepDistance,
    BasicAttack,
    HeavyAttack,
    Retreat,
    SearchLastSeen,
}

/// Kinds of bosses.
#[derive(Debug, Clone, Copy, PartialEq, Eq, Structural)]
pub enum BossType {
    /// Appears at five minutes.
    BanditLeader,
    /// Appears at ten minutes.
    ThiefKing,
    /// Appears at fifteen minutes.
    BruteChieftain,
}

impl BossType {
    /// Gold dropped when the boss dies.
    pub fn get_gold_reward(&self) -> (r: u32)
        ensures
            r == match *self {
                BossType::BanditLeader => 50u32,
                BossType::ThiefKing => 100u32,
                BossType::BruteChieftain => 200u32,
            },
    {
        match self {
            BossType::BanditLeader => 50,
            BossType::ThiefKing => 100,
            BossType::BruteChieftain => 200,
        }
    }

    /// Display name of the boss.
    pub fn get_name(&self) -> (r: &'static str)
        ensures
            r@ == match *self {
                BossType::BanditLeader => "Лидер Бандитов"@,
                BossType::ThiefKing => "Король Воров"@,
                BossType::BruteChieftain => "Вождь Громил"@,
            },
    {
        match self {
            BossType::BanditLeader => "Лидер Бандитов",
            BossType::ThiefKing => "Король Воров",
            BossType::BruteChieftain => "Вождь Громил",
        }
    }
}

} // verus!
