use vstd::prelude::*;

verus! {

/// Heat of an active particle.
pub const HOT: u8 = 255;

/// One cell of the grid.
#[derive(Clone, Copy, Debug, PartialEq, Eq, Structural)]
pub struct Particle {
    /// True when the cell holds sand.
    pub active: bool,
    /// Set only while a tick runs, on a cell that sand has just fallen into.
    pub already_updated: bool,
    /// Trail intensity used for drawing; 255 while active, fading afterwards.
    pub heat: u8,
}

/// Heat after one change of the active flag.
pub open spec fn heat_after(heat: u8, active: bool) -> u8 {
    if active {
        HOT
    } else if heat == 0 {
        0
    } else {
        (heat - 1) as u8
    }
}

/// Heat after cooling an inactive particle by the factor `num / den`,
/// truncated and capped at 255.
pub open spec fn cooled_heat(heat: u8, num: u32, den: u32) -> u8
    recommends
        den > 0,
{
    let h = (heat as int * num as int) / den as int;
    if h > 255 {
        255
    } else {
        h as u8
    }
}

impl Particle {
    /// The particle with its active flag set to `active`, and its heat kept
    /// coupled to it.
    pub open spec fn with_active(self, active: bool) -> Particle {
        Particle {
            active,
            already_updated: self.already_updated,
            heat: heat_after(self.heat, active),
        }
    }

    /// A particle with the given flags and no heat.
    pub fn new(active: bool, already_updated: bool) -> (r: Particle)
        ensures
            r == (Particle { active, already_updated, heat: 0 }),
    {
        Particle { active, already_updated, heat: 0 }
    }

    /// Returns the particle after it becomes `active` (heat 255) or inactive
    /// (heat one lower, stopping at 0).
    #[must_use]
    pub fn next_state(self, active: bool) -> (r: Particle)
        ensures
            r == self.with_active(active),
    {
        let mut p = self;
        p.active = active;
        if active {
            p.heat = HOT;
        } else {
            p.heat = self.heat.saturating_sub(1);
        }
        p
    }

    /// Sets the active flag in place, keeping heat coupled to it.
    pub fn set_active(&mut self, active: bool)
        ensures
            *final(self) == old(self).with_active(active),
            active ==> final(self).heat == HOT,
            !active ==> final(self).heat as int == if old(self).heat == 0 {
                0
            } else {
                old(self).heat - 1
            },
    {
        *self = self.next_state(active);
    }

    /// Multiplies the heat of an inactive particle by `num / den`, truncating
    /// and capping at 255. An active particle is left as it is.
    pub fn cool_off(&mut self, num: u32, den: u32)
        requires
            den > 0,
        ensures
            old(self).active ==> *final(self) == *old(self),
            !old(self).active ==> *final(self) == (Particle {
                heat: cooled_heat(old(self).heat, num, den),
                ..*old(self)
            }),
    {
        if !self.active {
            assert((self.heat as u64) * (num as u64) <= 255 * 0xffff_ffffu64) by (nonlinear_arith)
                requires
                    self.heat <= 255,
                    num <= 0xffff_ffffu32,
            ;
            let scaled: u64 = (self.heat as u64) * (num as u64);
            let h: u64 = scaled / (den as u64);
            if h > 255 {
                self.heat = 255;
            } else {
                self.heat = h as u8;
            }
        }
    }
}

} // verus!
