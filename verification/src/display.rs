//! A discrete eight-LED display that renders one byte, most significant bit
//! on the leftmost LED.
//!
//! The LED levels are modelled as booleans; driving the physical pins from
//! these levels is the embedding program's concern.

use vstd::prelude::*;

verus! {

/// Number of LEDs on the display.
pub const DISPLAY_WIDTH: usize = 8;

/// Eight LED levels, stored left to right: `levels[0]` is the leftmost
/// (most significant) LED.
pub struct Display {
    levels: Vec<bool>,
}

/// The bit of `x` rendered on LED `i`: LED 0 shows the most significant bit.
pub open spec fn bit_of(x: u8, i: int) -> bool {
    (x >> (7 - i) as u8) & 1 == 1
}

impl Display {
    /// True when the display holds exactly eight LED levels.
    pub closed spec fn wf(self) -> bool {
        self.levels.len() == DISPLAY_WIDTH
    }

    /// The level of LED `i`.
    pub closed spec fn level(self, i: int) -> bool {
        self.levels[i]
    }

    /// Creates a new display from the initial level of each LED, given in
    /// wiring order: sign, exponent (high to low), then mantissa (high to
    /// low); the stored order is leftmost LED first.
    pub fn new(
        sgn: bool,
        exp2: bool,
        exp1: bool,
        exp0: bool,
        man1: bool,
        man2: bool,
        man3: bool,
        man4: bool,
    ) -> (d: Display)
        ensures
            d.wf(),
            d.level(0) == man4,
            d.level(1) == man3,
            d.level(2) == man2,
            d.level(3) == man1,
            d.level(4) == exp0,
            d.level(5) == exp1,
            d.level(6) == exp2,
            d.level(7) == sgn,
    {
        let mut levels: Vec<bool> = Vec::new();
        levels.push(man4);
        levels.push(man3);
        levels.push(man2);
        levels.push(man1);
        levels.push(exp0);
        levels.push(exp1);
        levels.push(exp2);
        levels.push(sgn);
        Display { levels }
    }

    /// Turns every LED on.
    pub fn enable_all(&mut self)
        requires
            old(self).wf(),
        ensures
            final(self).wf(),
            forall|i: int| 0 <= i < DISPLAY_WIDTH ==> final(self).level(i) == true,
    {
        let mut i: usize = 0;
        while i < DISPLAY_WIDTH
            invariant
                self.levels.len() == DISPLAY_WIDTH,
                forall|j: int| 0 <= j < i ==> self.levels[j] == true,
            decreases DISPLAY_WIDTH - i,
        {
            self.levels.set(i, true);
            i = i + 1;
        }
    }

    /// Turns every LED off.
    pub fn disable_all(&mut self)
        requires
            old(self).wf(),
        ensures
            final(self).wf(),
            forall|i: int| 0 <= i < DISPLAY_WIDTH ==> final(self).level(i) == false,
    {
        let mut i: usize = 0;
        while i < DISPLAY_WIDTH
            invariant
                self.levels.len() == DISPLAY_WIDTH,
                forall|j: int| 0 <= j < i ==> self.levels[j] == false,
            decreases DISPLAY_WIDTH - i,
        {
            self.levels.set(i, false);
            i = i + 1;
        }
    }

    /// Renders `x` in binary: LED `i` shows bit `7 - i` of `x`, so the
    /// leftmost LED carries the most significant bit.
    pub fn display_u8(&mut self, x: u8)
        requires
            old(self).wf(),
        ensures
            final(self).wf(),
            forall|i: int| 0 <= i < DISPLAY_WIDTH ==> final(self).level(i) == bit_of(x, i),
    {
        let mut i: usize = 0;
        while i < DISPLAY_WIDTH
            invariant
                self.levels.len() == DISPLAY_WIDTH,
                forall|j: int| 0 <= j < i ==> self.levels[j] == bit_of(x, j),
            decreases DISPLAY_WIDTH - i,
        {
            let shift: u8 = 7 - (i as u8);
            let level: bool = (x >> shift) & 1 == 1;
            self.levels.set(i, level);
            i = i + 1;
        }
    }

    /// The current LED levels, leftmost LED first.
    pub fn levels(&self) -> (r: &Vec<bool>)
        requires
            self.wf(),
        ensures
            r@.len() == DISPLAY_WIDTH,
            forall|i: int| 0 <= i < r@.len() ==> r@[i] == self.level(i),
    {
        &self.levels
    }
}

} // verus!
