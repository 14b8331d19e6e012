//! The mathematical model of the machine: what contracts speak of.

use vstd::prelude::*;
use crate::font::{FONT, FONT_BASE};

verus! {

/// Number of bytes of memory.
pub const MEMORY_SIZE: usize = 4096;

/// Address at which a loaded program starts, and the first value of the
/// program counter.
pub const PROGRAM_START: u16 = 0x200;

/// Number of pixels in one row of the display.
pub const DISPLAY_WIDTH: usize = 64;

/// Number of rows of the display.
pub const DISPLAY_HEIGHT: usize = 32;

/// Number of general registers.
pub const REGISTER_COUNT: usize = 16;

/// Number of keys.
pub const KEY_COUNT: usize = 16;

/// Index of the flag register VF.
pub const FLAG: usize = 15;

/// The state of a machine, as plain mathematical values.
///
/// `display[y][x]` is the pixel in column `x` of row `y`, with the origin at
/// the top left. `stack` grows at its end.
#[verifier::ext_equal]
pub struct MachineState {
    pub memory: Seq<u8>,
    pub registers: Seq<u8>,
    pub index: u16,
    pub pc: u16,
    pub stack: Seq<u16>,
    pub delay_timer: u8,
    pub sound_timer: u8,
    pub display: Seq<Seq<bool>>,
    pub keys: Seq<bool>,
}

impl MachineState {
    /// The sizes that every machine has.
    pub open spec fn wf(self) -> bool {
        &&& self.memory.len() == MEMORY_SIZE
        &&& self.registers.len() == REGISTER_COUNT
        &&& self.keys.len() == KEY_COUNT
        &&& self.display.len() == DISPLAY_HEIGHT
        &&& forall|y: int| 0 <= y < DISPLAY_HEIGHT ==> (#[trigger] self.display[y]).len() == DISPLAY_WIDTH
    }

    /// Whether the pixel in column `x` of row `y` is lit.
    pub open spec fn pixel(self, x: int, y: int) -> bool {
        self.display[y][x]
    }

    /// Whether no pixel is lit.
    pub open spec fn is_blank(self) -> bool {
        forall|x: int, y: int|
            0 <= x < DISPLAY_WIDTH && 0 <= y < DISPLAY_HEIGHT ==> !#[trigger] self.pixel(x, y)
    }

    /// Whether some key is held.
    pub open spec fn any_key_held(self) -> bool {
        exists|k: int| 0 <= k < KEY_COUNT && #[trigger] self.keys[k]
    }
}

/// A display with no pixel lit.
pub open spec fn blank_display() -> Seq<Seq<bool>> {
    Seq::new(DISPLAY_HEIGHT as nat, |y: int| Seq::new(DISPLAY_WIDTH as nat, |x: int| false))
}

/// The state of a machine that was just made: the font in place, everything
/// else zero, the program counter at the start of the program area.
pub open spec fn initial_state() -> MachineState {
    MachineState {
        memory: Seq::new(
            MEMORY_SIZE as nat,
            |a: int|
                if FONT_BASE <= a < FONT_BASE + 80 {
                    FONT[a - FONT_BASE]
                } else {
                    0u8
                },
        ),
        registers: Seq::new(REGISTER_COUNT as nat, |i: int| 0u8),
        index: 0,
        pc: PROGRAM_START,
        stack: Seq::empty(),
        delay_timer: 0,
        sound_timer: 0,
        display: blank_display(),
        keys: Seq::new(KEY_COUNT as nat, |k: int| false),
    }
}

} // verus!
