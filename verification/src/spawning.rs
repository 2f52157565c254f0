//! Wave decisions: which bosses are due, which enemy type spawns, and how
//! many enemies a wave brings. Time is counted in whole seconds of play.
use vstd::prelude::*;
use rand::Rng;
use crate::components::enemy::{BossType, EnemyType};

verus! {

/// Play time after which each boss appears once, in seconds.
pub const FIRST_BOSS_SECS: u32 = 300;

pub const SECOND_BOSS_SECS: u32 = 600;

pub const THIRD_BOSS_SECS: u32 = 900;

/// Which of the three bosses have already appeared in this run.
#[derive(Debug, Clone, Copy, PartialEq, Eq, Structural)]
pub struct BossSpawnFlags {
    pub boss_5min_spawned: bool,
    pub boss_10min_spawned: bool,
    pub boss_15min_spawned: bool,
}

impl Default for BossSpawnFlags {
    fn default() -> (r: Self)
        ensures
            !r.boss_5min_spawned,
            !r.boss_10min_spawned,
            !r.boss_15min_spawned,
    {
        BossSpawnFlags { boss_5min_spawned: false, boss_10min_spawned: false, boss_15min_spawned: false }
    }
}

/// The bosses that become due at `game_secs`, in order of their milestones.
pub open spec fn due_bosses(game_secs: u32, flags: BossSpawnFlags) -> Seq<BossType> {
    let a = if game_secs >= FIRST_BOSS_SECS && !flags.boss_5min_spawned {
        seq![BossType::BanditLeader]
    } else {
        Seq::empty()
    };
    let b = if game_secs >= SECOND_BOSS_SECS && !flags.boss_10min_spawned {
        seq![BossType::ThiefKing]
    } else {
        Seq::empty()
    };
    let c = if game_secs >= THIRD_BOSS_SECS && !flags.boss_15min_spawned {
        seq![BossType::BruteChieftain]
    } else {
        Seq::empty()
    };
    a + b + c
}

/// Decides which bosses to spawn at `game_secs` and marks them as spawned.
pub fn check_boss_spawn(game_secs: u32, flags: &mut BossSpawnFlags) -> (r: Vec<BossType>)
    ensures
        r@ == due_bosses(game_secs, *old(flags)),
        final(flags).boss_5min_spawned == (old(flags).boss_5min_spawned || game_secs >= FIRST_BOSS_SECS),
        final(flags).boss_10min_spawned == (old(flags).boss_10min_spawned || game_secs >= SECOND_BOSS_SECS),
        final(flags).boss_15min_spawned == (old(flags).boss_15min_spawned || game_secs >= THIRD_BOSS_SECS),
        r@.contains(BossType::BanditLeader) <==> (game_secs >= FIRST_BOSS_SECS && !old(flags).boss_5min_spawned),
        r@.contains(BossType::ThiefKing) <==> (game_secs >= SECOND_BOSS_SECS && !old(flags).boss_10min_spawned),
        r@.contains(BossType::BruteChieftain) <==> (game_secs >= THIRD_BOSS_SECS && !old(flags).boss_15min_spawned),
{
    let mut due: Vec<BossType> = Vec::new();
    if game_secs >= FIRST_BOSS_SECS && !flags.boss_5min_spawned {
        flags.boss_5min_spawned = true;
        due.push(BossType::BanditLeader);
    }
    if game_secs >= SECOND_BOSS_SECS && !flags.boss_10min_spawned {
        flags.boss_10min_spawned = true;
        due.push(BossType::ThiefKing);
    }
    if game_secs >= THIRD_BOSS_SECS && !flags.boss_15min_spawned {
        flags.boss_15min_spawned = true;
        due.push(BossType::BruteChieftain);
    }
    assert(due@ =~= due_bosses(game_secs, *old(flags)));
    proof {
        lemma_boss_due_by_milestone(game_secs, *old(flags));
    }
    due
}

/// Each boss is due exactly when its milestone is reached and it has not
/// appeared yet, independently of the other bosses.
pub proof fn lemma_boss_due_by_milestone(game_secs: u32, flags: BossSpawnFlags)
    ensures
        due_bosses(game_secs, flags).contains(BossType::BanditLeader) <==> (game_secs >= 300
            && !flags.boss_5min_spawned),
        due_bosses(game_secs, flags).contains(BossType::ThiefKing) <==> (game_secs >= 600
            && !flags.boss_10min_spawned),
        due_bosses(game_secs, flags).contains(BossType::BruteChieftain) <==> (game_secs >= 900
            && !flags.boss_15min_spawned),
        due_bosses(game_secs, flags).no_duplicates(),
{
    let s = due_bosses(game_secs, flags);
    let a = game_secs >= 300 && !flags.boss_5min_spawned;
    let b = game_secs >= 600 && !flags.boss_10min_spawned;
    let c = game_secs >= 900 && !flags.boss_15min_spawned;
    let mut expect: Seq<BossType> = Seq::empty();
    if a {
        expect = expect.push(BossType::BanditLeader);
    }
    if b {
        expect = expect.push(BossType::ThiefKing);
    }
    if c {
        expect = expect.push(BossType::BruteChieftain);
    }
    assert(s =~= expect);
    if a {
        assert(s[0] == BossType::BanditLeader);
    }
    if b {
        assert(s[if a { 1int } else { 0int }] == BossType::ThiefKing);
    }
    if c {
        assert(s[s.len() - 1] == BossType::BruteChieftain);
    }
}

/// Each boss appears at most once per run: after a check, a second check
/// at any later time brings no boss that the first one brought.
pub proof fn lemma_bosses_spawn_once(t1: u32, t2: u32, flags: BossSpawnFlags, after: BossSpawnFlags)
    requires
        after.boss_5min_spawned == (flags.boss_5min_spawned || t1 >= FIRST_BOSS_SECS),
        after.boss_10min_spawned == (flags.boss_10min_spawned || t1 >= SECOND_BOSS_SECS),
        after.boss_15min_spawned == (flags.boss_15min_spawned || t1 >= THIRD_BOSS_SECS),
    ensures
        forall|b: BossType| #[trigger] due_bosses(t1, flags).contains(b) ==> !due_bosses(t2, after).contains(b),
{
    assert forall|b: BossType| #[trigger] due_bosses(t1, flags).contains(b) implies !due_bosses(t2, after).contains(b) by {
        let s1 = due_bosses(t1, flags);
        let s2 = due_bosses(t2, after);
        let k = choose|k: int| 0 <= k < s1.len() && s1[k] == b;
        if s2.contains(b) {
            let m = choose|m: int| 0 <= m < s2.len() && s2[m] == b;
            assert(s2[m] == b);
        }
    }
}

/// The enemy type for play time `game_secs` and a roll in `0..100`:
/// bandits only in the first minute, then thieves join (30%), after two
/// minutes brutes too (20% brutes, 30% thieves), and after four minutes
/// 30% brutes and 30% thieves.
pub open spec fn enemy_type_for(game_secs: u32, roll_percent: u32) -> EnemyType {
    if game_secs < 60 {
        EnemyType::Bandit
    } else if game_secs < 120 {
        if roll_percent < 30 {
            EnemyType::Thief
        } else {
            EnemyType::Bandit
        }
    } else if game_secs < 240 {
        if roll_percent < 20 {
            EnemyType::Brute
        } else if roll_percent < 50 {
            EnemyType::Thief
        } else {
            EnemyType::Bandit
        }
    } else {
        if roll_percent < 30 {
            EnemyType::Brute
        } else if roll_percent < 60 {
            EnemyType::Thief
        } else {
            EnemyType::Bandit
        }
    }
}

/// The enemy type for a given roll.
pub fn enemy_type_for_roll(game_secs: u32, roll_percent: u32) -> (r: EnemyType)
    requires
        roll_percent < 100,
    ensures
        r == enemy_type_for(game_secs, roll_percent),
{
    if game_secs < 60 {
        EnemyType::Bandit
    } else if game_secs < 120 {
        if roll_percent < 30 {
            EnemyType::Thief
        } else {
            EnemyType::Bandit
        }
    } else if game_secs < 240 {
        if roll_percent < 20 {
            EnemyType::Brute
        } else if roll_percent < 50 {
            EnemyType::Thief
        } else {
            EnemyType::Bandit
        }
    } else {
        if roll_percent < 30 {
            EnemyType::Brute
        } else if roll_percent < 60 {
            EnemyType::Thief
        } else {
            EnemyType::Bandit
        }
    }
}

/// A uniformly random percentage.
///
/// Calls `rand::Rng::gen_range(0..100)` on the thread-local generator; the
/// contract claims only that the result lies in the range, which is what
/// `gen_range` documents for a non-empty half-open range.
#[verifier::external_body]
fn random_percent() -> (r: u32)
    ensures
        r < 100,
{
    rand::thread_rng().gen_range(0..100u32)
}

/// Picks the type of the next enemy for play time `game_secs`, rolling the
/// thread-local random generator.
pub fn choose_enemy_type(game_secs: u32) -> (r: EnemyType)
    ensures
        exists|roll: u32| roll < 100 && r == enemy_type_for(game_secs, roll),
        game_secs < 60 ==> r == EnemyType::Bandit,
{
    let roll = random_percent();
    enemy_type_for_roll(game_secs, roll)
}

/// Enemies per wave: one more for every full minute of play.
pub fn enemies_per_spawn(game_secs: u32) -> (r: u32)
    ensures
        r == 1 + game_secs / 60,
{
    1 + game_secs / 60
}

/// Free enemy slots, as the wave logic counts them.
pub open spec fn free_slots(current_enemies: usize, max_active_enemies: usize) -> u32 {
    (if max_active_enemies > current_enemies { max_active_enemies - current_enemies } else { 0 }) as u32
}

/// How many enemies the wave spawns: the wave size, capped by the free
/// enemy slots.
pub fn spawn_count(per_spawn: u32, current_enemies: usize, max_active_enemies: usize) -> (r: u32)
    ensures
        r == (if per_spawn <= free_slots(current_enemies, max_active_enemies) {
            per_spawn
        } else {
            free_slots(current_enemies, max_active_enemies)
        }),
{
    let available = max_active_enemies.saturating_sub(current_enemies) as u32;
    if per_spawn <= available {
        per_spawn
    } else {
        available
    }
}

} // verus!
