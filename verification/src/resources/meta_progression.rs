//! Persistent progression between runs: permanent upgrades, statistics,
//! unlocks and the gold bank.
use vstd::prelude::*;
use crate::components::pet::{lemma_unlock_ids_distinct, spec_unlock_id, PetType};

verus! {

/// Permanent upgrade levels bought in the shop.
#[derive(Debug, Clone, Copy, PartialEq, Eq, Structural)]
pub struct PermanentUpgrades {
    /// +10 max HP per level.
    pub max_hp_level: u32,
    /// +5% movement speed per level.
    pub movement_speed_level: u32,
    /// Extra starting levels.
    pub starting_xp_level: u32,
    /// Extra pet slots beyond the first.
    pub pet_slots: u32,
    /// +10% gold per level.
    pub gold_multiplier_level: u32,
    /// +5% choice quality per level.
    pub luck_level: u32,
    /// +50 starting gold per level.
    pub starting_gold_level: u32,
}

impl Default for PermanentUpgrades {
    fn default() -> (r: Self)
        ensures
            r.max_hp_level == 0,
            r.movement_speed_level == 0,
            r.starting_xp_level == 0,
            r.pet_slots == 0,
            r.gold_multiplier_level == 0,
            r.luck_level == 0,
            r.starting_gold_level == 0,
    {
        PermanentUpgrades {
            max_hp_level: 0,
            movement_speed_level: 0,
            starting_xp_level: 0,
            pet_slots: 0,
            gold_multiplier_level: 0,
            luck_level: 0,
            starting_gold_level: 0,
        }
    }
}

impl PermanentUpgrades {
    /// Level a run starts at.
    pub fn get_starting_level(&self) -> (r: u32)
        requires
            self.starting_xp_level < u32::MAX,
        ensures
            r == 1 + self.starting_xp_level,
    {
        1 + self.starting_xp_level
    }

    /// Gold a run starts with.
    pub fn get_starting_gold(&self) -> (r: u32)
        requires
            self.starting_gold_level * 50 <= u32::MAX,
        ensures
            r == self.starting_gold_level * 50,
    {
        self.starting_gold_level * 50
    }

    /// Number of active pet slots.
    pub fn get_total_pet_slots(&self) -> (r: u32)
        requires
            self.pet_slots < u32::MAX,
        ensures
            r == 1 + self.pet_slots,
    {
        1 + self.pet_slots
    }
}

/// Lifetime statistics of the player.
#[derive(Debug, Clone, Copy, PartialEq, Eq, Structural)]
pub struct Statistics {
    pub total_kills: u32,
    pub total_gold_earned: u32,
    pub total_xp_earned: u32,
    pub total_damage_dealt: u32,
    pub total_damage_taken: u32,
}

impl Default for Statistics {
    fn default() -> (r: Self)
        ensures
            r.total_kills == 0,
            r.total_gold_earned == 0,
            r.total_xp_earned == 0,
            r.total_damage_dealt == 0,
            r.total_damage_taken == 0,
    {
        Statistics { total_kills: 0, total_gold_earned: 0, total_xp_earned: 0, total_damage_dealt: 0, total_damage_taken: 0 }
    }
}

/// No upgrade bought.
pub open spec fn no_upgrades() -> PermanentUpgrades {
    PermanentUpgrades {
        max_hp_level: 0,
        movement_speed_level: 0,
        starting_xp_level: 0,
        pet_slots: 0,
        gold_multiplier_level: 0,
        luck_level: 0,
        starting_gold_level: 0,
    }
}

/// All statistics at zero.
pub open spec fn no_statistics() -> Statistics {
    Statistics { total_kills: 0, total_gold_earned: 0, total_xp_earned: 0, total_damage_dealt: 0, total_damage_taken: 0 }
}

/// Persistent save data.
#[derive(Debug, Clone)]
pub struct SaveData {
    pub version: String,
    pub total_gold: u32,
    pub total_runs: u32,
    /// Best survival time, in seconds.
    pub best_time: u32,
    pub unlocked_pets: Vec<String>,
    pub permanent_upgrades: PermanentUpgrades,
    pub achievements: Vec<String>,
    pub statistics: Statistics,
}

/// The texts of a list of strings.
pub open spec fn texts(v: Seq<String>) -> Seq<Seq<char>> {
    v.map_values(|s: String| s@)
}

/// `list` after adding `id` unless it is already there.
pub open spec fn add_unique(list: Seq<Seq<char>>, id: Seq<char>) -> Seq<Seq<char>> {
    if list.contains(id) {
        list
    } else {
        list.push(id)
    }
}

/// Whether `id` occurs in `v`.
fn contains_text(v: &Vec<String>, id: &str) -> (r: bool)
    ensures
        r == texts(v@).contains(id@),
{
    let target = id.to_owned();
    let mut i: usize = 0;
    while i < v.len()
        invariant
            i <= v@.len(),
            target@ == id@,
            forall|j: int| 0 <= j < i ==> v@[j]@ != id@,
        decreases v@.len() - i,
    {
        if v[i] == target {
            assert(texts(v@)[i as int] == id@);
            return true;
        }
        i = i + 1;
    }
    proof {
        if texts(v@).contains(id@) {
            let j = choose|j: int| 0 <= j < texts(v@).len() && texts(v@)[j] == id@;
            assert(v@[j]@ == id@);
        }
    }
    false
}

/// Adds `id` to `v` unless it is already there.
fn push_unique(v: &mut Vec<String>, id: &str)
    ensures
        texts(final(v)@) == add_unique(texts(old(v)@), id@),
{
    if !contains_text(v, id) {
        let s = id.to_owned();
        v.push(s);
        assert(texts(final(v)@) =~= texts(old(v)@).push(id@));
    }
}

impl Default for SaveData {
    fn default() -> (r: Self)
        ensures
            r.version@ == "0.1.0"@,
            r.total_gold == 0,
            r.total_runs == 0,
            r.best_time == 0,
            texts(r.unlocked_pets@) == seq!["guard_dog"@, "fire_sprite"@],
            forall|t: PetType| #[trigger] texts(r.unlocked_pets@).contains(spec_unlock_id(t))
                <==> (t == PetType::GuardDog || t == PetType::FireSprite),
            r.permanent_upgrades == no_upgrades(),
            r.achievements@.len() == 0,
            r.statistics == no_statistics(),
    {
        let mut unlocked_pets: Vec<String> = Vec::new();
        unlocked_pets.push("guard_dog".to_owned());
        unlocked_pets.push("fire_sprite".to_owned());
        assert(texts(unlocked_pets@) =~= seq!["guard_dog"@, "fire_sprite"@]);
        proof {
            assert forall|t: PetType| #[trigger] texts(unlocked_pets@).contains(spec_unlock_id(t))
                <==> (t == PetType::GuardDog || t == PetType::FireSprite) by {
                lemma_default_save_unlocks_starting_pets(t);
            }
        }
        SaveData {
            version: "0.1.0".to_owned(),
            total_gold: 0,
            total_runs: 0,
            best_time: 0,
            unlocked_pets,
            permanent_upgrades: PermanentUpgrades::default(),
            achievements: Vec::new(),
            statistics: Statistics::default(),
        }
    }
}

impl SaveData {
    /// Banks `amount` gold and counts it as earned.
    pub fn add_gold(&mut self, amount: u32)
        requires
            old(self).total_gold + amount <= u32::MAX,
            old(self).statistics.total_gold_earned + amount <= u32::MAX,
        ensures
            final(self).total_gold == old(self).total_gold + amount,
            final(self).statistics.total_gold_earned == old(self).statistics.total_gold_earned + amount,
            final(self).statistics.total_kills == old(self).statistics.total_kills,
            final(self).statistics.total_xp_earned == old(self).statistics.total_xp_earned,
            final(self).statistics.total_damage_dealt == old(self).statistics.total_damage_dealt,
            final(self).statistics.total_damage_taken == old(self).statistics.total_damage_taken,
            final(self).unlocked_pets@ == old(self).unlocked_pets@,
            final(self).achievements@ == old(self).achievements@,
            final(self).permanent_upgrades == old(self).permanent_upgrades,
            final(self).version@ == old(self).version@,
            final(self).total_runs == old(self).total_runs,
            final(self).best_time == old(self).best_time,
    {
        self.total_gold = self.total_gold + amount;
        self.statistics.total_gold_earned = self.statistics.total_gold_earned + amount;
    }

    /// Spends `amount` gold when the bank holds enough; returns whether it
    /// did.
    pub fn spend_gold(&mut self, amount: u32) -> (r: bool)
        ensures
            r == (old(self).total_gold >= amount),
            r ==> final(self).total_gold == old(self).total_gold - amount,
            !r ==> final(self).total_gold == old(self).total_gold,
            final(self).statistics == old(self).statistics,
            final(self).unlocked_pets@ == old(self).unlocked_pets@,
            final(self).achievements@ == old(self).achievements@,
            final(self).permanent_upgrades == old(self).permanent_upgrades,
            final(self).version@ == old(self).version@,
            final(self).total_runs == old(self).total_runs,
            final(self).best_time == old(self).best_time,
    {
        if self.total_gold >= amount {
            self.total_gold = self.total_gold - amount;
            true
        } else {
            false
        }
    }

    /// Unlocks a pet, once.
    pub fn unlock_pet(&mut self, pet_id: &str)
        ensures
            texts(final(self).unlocked_pets@) == add_unique(texts(old(self).unlocked_pets@), pet_id@),
            final(self).achievements@ == old(self).achievements@,
            final(self).total_gold == old(self).total_gold,
            final(self).version@ == old(self).version@,
            final(self).total_runs == old(self).total_runs,
            final(self).best_time == old(self).best_time,
            final(self).permanent_upgrades == old(self).permanent_upgrades,
            final(self).statistics == old(self).statistics,
    {
        push_unique(&mut self.unlocked_pets, pet_id);
    }

    /// Whether a pet is unlocked.
    pub fn is_pet_unlocked(&self, pet_id: &str) -> (r: bool)
        ensures
            r == texts(self.unlocked_pets@).contains(pet_id@),
    {
        contains_text(&self.unlocked_pets, pet_id)
    }

    /// Unlocks an achievement, once.
    pub fn unlock_achievement(&mut self, achievement_id: &str)
        ensures
            texts(final(self).achievements@) == add_unique(texts(old(self).achievements@), achievement_id@),
            final(self).unlocked_pets@ == old(self).unlocked_pets@,
            final(self).total_gold == old(self).total_gold,
            final(self).version@ == old(self).version@,
            final(self).total_runs == old(self).total_runs,
            final(self).best_time == old(self).best_time,
            final(self).permanent_upgrades == old(self).permanent_upgrades,
            final(self).statistics == old(self).statistics,
    {
        push_unique(&mut self.achievements, achievement_id);
    }
}

/// A fresh save unlocks exactly the starting pets, the guard dog and the
/// fire sprite: the unlock id of a pet kind is in its list exactly for
/// those two kinds.
pub proof fn lemma_default_save_unlocks_starting_pets(t: PetType)
    ensures
        seq!["guard_dog"@, "fire_sprite"@].contains(spec_unlock_id(t)) <==> (t == PetType::GuardDog
            || t == PetType::FireSprite),
{
    let list = seq!["guard_dog"@, "fire_sprite"@];
    assert(list[0] == spec_unlock_id(PetType::GuardDog));
    assert(list[1] == spec_unlock_id(PetType::FireSprite));
    if t != PetType::GuardDog && t != PetType::FireSprite {
        lemma_unlock_ids_distinct(t, PetType::GuardDog);
        lemma_unlock_ids_distinct(t, PetType::FireSprite);
        if list.contains(spec_unlock_id(t)) {
            let k = choose|k: int| 0 <= k < list.len() && list[k] == spec_unlock_id(t);
            assert(k == 0 || k == 1);
        }
    }
}

/// Unlocking is idempotent and leaves the id unlocked.
pub proof fn lemma_unlock_idempotent(list: Seq<Seq<char>>, id: Seq<char>)
    ensures
        add_unique(add_unique(list, id), id) == add_unique(list, id),
        add_unique(list, id).contains(id),
{
    if !list.contains(id) {
        assert(list.push(id)[list.len() as int] == id);
    }
}

/// Persistent progression and whether it still has to be written out.
#[derive(Debug, Clone)]
pub struct MetaProgression {
    pub save_data: SaveData,
    /// Set when the save data changed since the last successful save.
    pub should_save: bool,
}

impl MetaProgression {
    /// Progression around loaded save data, with nothing to write yet.
    pub fn new(save_data: SaveData) -> (r: Self)
        ensures
            r.save_data == save_data,
            !r.should_save,
    {
        MetaProgression { save_data, should_save: false }
    }

    /// Marks the save data as changed.
    pub fn mark_dirty(&mut self)
        ensures
            final(self).should_save,
            final(self).save_data == old(self).save_data,
    {
        self.should_save = true;
    }

    /// Records the outcome of an attempt to write out the save data: only a
    /// successful write clears the mark.
    pub fn save_completed(&mut self, succeeded: bool)
        ensures
            final(self).should_save == (old(self).should_save && !succeeded),
            final(self).save_data == old(self).save_data,
    {
        if succeeded {
            self.should_save = false;
        }
    }
}

} // verus!
