//! Experience and gold of the player.
use vstd::prelude::*;

verus! {

/// Experience of the player.
#[derive(Debug, Clone, Copy, PartialEq, Eq, Structural)]
pub struct Experience {
    /// Experience collected towards the next level.
    pub current: u32,
    /// Experience the next level needs.
    pub to_next_level: u32,
    /// Current level.
    pub level: u32,
}

impl Default for Experience {
    fn default() -> (r: Self)
        ensures
            r.current == 0,
            r.to_next_level == 100,
            r.level == 1,
    {
        Experience { current: 0, to_next_level: 100, level: 1 }
    }
}

impl Experience {
    /// Adds `amount` experience and levels up once when the requirement is
    /// met: the requirement is paid from the collected experience and the
    /// next one becomes `grown_requirement` (the caller's growth of the
    /// current requirement). Returns whether a level was gained.
    pub fn add_xp(&mut self, amount: u32, grown_requirement: u32) -> (r: bool)
        requires
            old(self).current + amount <= u32::MAX,
            old(self).current + amount >= old(self).to_next_level ==> old(self).level < u32::MAX,
        ensures
            r == (old(self).current + amount >= old(self).to_next_level),
            r ==> *final(self) == (Experience {
                current: (old(self).current + amount - old(self).to_next_level) as u32,
                to_next_level: grown_requirement,
                level: (old(self).level + 1) as u32,
            }),
            !r ==> *final(self) == (Experience {
                current: (old(self).current + amount) as u32,
                to_next_level: old(self).to_next_level,
                level: old(self).level,
            }),
    {
        self.current = self.current + amount;
        if self.current >= self.to_next_level {
            self.level_up(grown_requirement);
            return true;
        }
        false
    }

    /// Pays the requirement and moves to the next level.
    fn level_up(&mut self, grown_requirement: u32)
        requires
            old(self).current >= old(self).to_next_level,
            old(self).level < u32::MAX,
        ensures
            *final(self) == (Experience {
                current: (old(self).current - old(self).to_next_level) as u32,
                to_next_level: grown_requirement,
                level: (old(self).level + 1) as u32,
            }),
    {
        self.current = self.current - self.to_next_level;
        self.level = self.level + 1;
        self.to_next_level = grown_requirement;
    }
}

/// Gold carried by the player during a run.
#[derive(Debug, Clone, Copy, PartialEq, Eq, Structural)]
pub struct Gold {
    pub amount: u32,
}

impl Default for Gold {
    fn default() -> (r: Self)
        ensures
            r.amount == 0,
    {
        Gold { amount: 0 }
    }
}

impl Gold {
    /// Gold holding `amount`.
    pub fn new(amount: u32) -> (r: Self)
        ensures
            r.amount == amount,
    {
        Gold { amount }
    }

    /// Adds `amount` gold.
    pub fn add(&mut self, amount: u32)
        requires
            old(self).amount + amount <= u32::MAX,
        ensures
            final(self).amount == old(self).amount + amount,
    {
        self.amount = self.amount + amount;
    }
}

} // verus!
