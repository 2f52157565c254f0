pub mod delta;
pub mod framing;
pub mod messages;
pub mod quantization;
pub mod snapshots;

pub use delta::{UpdateNet, WorldDelta, WorldDeltaBuilder};
pub use messages::{C2S, InputCmd, ItemUpdate, MAX_MESSAGE_SIZE, PROTOCOL_VERSION};
pub use quantization::Vec2i16;
pub use snapshots::{
    EnemyStateNet, EntityKind, GoldStateNet, NetId, PetStateNet, PlayerStateNet,
    ProjectileStateNet, Snapshot, SpawnNet, XpGemStateNet,
};
