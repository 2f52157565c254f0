pub mod meta_progression;

pub use meta_progression::{MetaProgression, PermanentUpgrades, SaveData, Statistics};
