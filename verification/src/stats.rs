use vstd::prelude::*;

use crate::morphology::{traits_of_type, Morphology};
use crate::traits::{PolyminiTrait, TraitTag};

verus! {

/// The vital statistics of an individual, worked out from its body.
pub struct Stats {
    pub max_hp: i32,
    pub current_hp: i32,
    pub max_energy: i32,
    pub current_energy: i32,
    /// One for every speed trait the body carries.
    pub speed: usize,
    pub total_cells: usize,
}

impl Stats {
    /// The statistics of a fresh individual with this body: as fast as its speed
    /// traits, with half as many hit points as it has cells, and no energy.
    pub fn new(morph: &Morphology) -> (r: Stats)
        ensures
            r.speed == traits_of_type(
                morph@.rep.cells,
                PolyminiTrait::PolyminiSimpleTrait(TraitTag::SpeedTrait),
            ).len(),
            r.total_cells == morph@.rep.cells.len(),
            r.max_hp == (r.total_cells / 2) as i32,
            r.current_hp == r.max_hp,
            r.max_energy == 0,
            r.current_energy == 0,
    {
        let speed = morph.get_traits_of_type(PolyminiTrait::PolyminiSimpleTrait(TraitTag::SpeedTrait)).len();
        let size = morph.get_total_cells();
        let hp = (size / 2) as i32;
        Stats { max_hp: hp, current_hp: hp, max_energy: 0, current_energy: 0, speed, total_cells: size }
    }

    /// An individual loses a hit point for being out of its temperature range, and
    /// another for being out of its pH range.
    pub fn take_exposure(&mut self, temperature_in_range: bool, ph_in_range: bool)
        requires
            old(self).current_hp >= i32::MIN + 2,
        ensures
            final(self).current_hp == old(self).current_hp - (if temperature_in_range { 0int } else { 1int })
                - (if ph_in_range { 0int } else { 1int }),
            final(self).max_hp == old(self).max_hp,
            final(self).max_energy == old(self).max_energy,
            final(self).current_energy == old(self).current_energy,
            final(self).speed == old(self).speed,
            final(self).total_cells == old(self).total_cells,
    {
        if !temperature_in_range {
            self.current_hp = self.current_hp - 1;
        }
        if !ph_in_range {
            self.current_hp = self.current_hp - 1;
        }
    }
}

} // verus!
