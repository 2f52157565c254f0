pub mod collision;
pub mod economy;
pub mod enemy;
pub mod pet;

pub use collision::CollisionLayer;
pub use economy::{Experience, Gold};
pub use enemy::{BossType, EnemyAction, EnemyState, EnemyType};
pub use pet::{PetAction, PetRole, PetState, PetType};
