//! Full world snapshots and spawn descriptions.
use vstd::prelude::*;
use crate::protocol::quantization::Vec2i16;

verus! {

/// Network identifier of a replicated entity.
pub type NetId = u32;

/// Complete world state, sent when a client joins.
#[derive(Debug, Clone)]
pub struct Snapshot {
    pub players: Vec<PlayerStateNet>,
    pub pets: Vec<PetStateNet>,
    pub enemies: Vec<EnemyStateNet>,
    pub projectiles: Vec<ProjectileStateNet>,
    pub xp_gems: Vec<XpGemStateNet>,
    pub gold: Vec<GoldStateNet>,
}

impl Snapshot {
    /// A snapshot with no entity of any kind.
    pub fn empty() -> (r: Self)
        ensures
            r.players@.len() == 0,
            r.pets@.len() == 0,
            r.enemies@.len() == 0,
            r.projectiles@.len() == 0,
            r.xp_gems@.len() == 0,
            r.gold@.len() == 0,
    {
        Snapshot {
            players: Vec::new(),
            pets: Vec::new(),
            enemies: Vec::new(),
            projectiles: Vec::new(),
            xp_gems: Vec::new(),
            gold: Vec::new(),
        }
    }
}

impl Default for Snapshot {
    fn default() -> (r: Self)
        ensures
            r.players@.len() == 0,
            r.pets@.len() == 0,
            r.enemies@.len() == 0,
            r.projectiles@.len() == 0,
            r.xp_gems@.len() == 0,
            r.gold@.len() == 0,
    {
        Snapshot::empty()
    }
}

/// Quantised player state.
#[derive(Debug, Clone, Copy, PartialEq, Eq)]
pub struct PlayerStateNet {
    pub id: NetId,
    pub player_id: u8,
    pub pos: Vec2i16,
    pub vel: Vec2i16,
    pub hp: u16,
    pub hp_max: u16,
    /// Movement speed times ten.
    pub move_speed: u16,
    pub level: u32,
    pub xp: u32,
    pub xp_next: u32,
    pub gold: u32,
}

/// Quantised pet state.
#[derive(Debug, Clone, Copy, PartialEq, Eq)]
pub struct PetStateNet {
    pub id: NetId,
    pub owner_id: u8,
    pub pet_type: u8,
    pub pos: Vec2i16,
    pub vel: Vec2i16,
}

/// Quantised enemy state.
#[derive(Debug, Clone, Copy, PartialEq, Eq)]
pub struct EnemyStateNet {
    pub id: NetId,
    pub enemy_type: u8,
    pub boss_type: Option<u8>,
    pub pos: Vec2i16,
    pub vel: Vec2i16,
    pub hp: u16,
    pub hp_max: u16,
}

/// Quantised projectile state.
#[derive(Debug, Clone, Copy, PartialEq, Eq)]
pub struct ProjectileStateNet {
    pub id: NetId,
    pub pos: Vec2i16,
    pub vel: Vec2i16,
}

/// Quantised experience gem state.
#[derive(Debug, Clone, Copy, PartialEq, Eq)]
pub struct XpGemStateNet {
    pub id: NetId,
    pub pos: Vec2i16,
    pub value: u32,
}

/// Quantised gold pickup state.
#[derive(Debug, Clone, Copy, PartialEq, Eq)]
pub struct GoldStateNet {
    pub id: NetId,
    pub pos: Vec2i16,
    pub value: u32,
}

/// Creation of a newly visible entity inside a delta.
#[derive(Debug, Clone, Copy, PartialEq, Eq)]
pub struct SpawnNet {
    pub id: NetId,
    pub kind: EntityKind,
    pub pos: Vec2i16,
    pub vel: Vec2i16,
    pub hp: Option<u16>,
    pub hp_max: Option<u16>,
}

/// What kind of entity a spawn creates.
#[derive(Debug, Clone, Copy, PartialEq, Eq)]
pub enum EntityKind {
    Player { player_id: u8 },
    Pet { pet_type: u8, owner_id: u8 },
    Enemy { enemy_type: u8, boss_type: Option<u8> },
    Projectile,
    XpGem { value: u32 },
    Gold { value: u32 },
}

} // verus!
