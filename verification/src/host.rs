//! What the machine's host needs besides the machine: the command line and
//! the display turned into the pixels of a window.

use vstd::prelude::*;
use crate::state::{DISPLAY_HEIGHT, DISPLAY_WIDTH};

verus! {

/// Number of pixels of the display, and of entries of a window buffer.
pub const PIXEL_COUNT: usize = 2048;

/// The colour of a lit pixel in a window buffer.
pub const LIT: u32 = 0xFFFF_FFFF;

/// The colour of an unlit pixel in a window buffer.
pub const UNLIT: u32 = 0x0000_0000;

/// What is said when the command line names no program.
pub const NO_ROM_PATH: &'static str = "Error: no ROM path specified";

/// What the command line asks for.
#[derive(Debug)]
pub struct Config {
    /// The file of the program to run, as the second argument gave it.
    pub rom_path: String,
}

/// The colour of a pixel in a window buffer.
pub open spec fn colour(lit: bool) -> u32 {
    if lit {
        LIT
    } else {
        UNLIT
    }
}

/// The display as a window buffer: one colour per pixel, row after row from
/// the top, each row from the left.
pub fn translate_display(chip8_buffer: &[[bool; DISPLAY_WIDTH]; DISPLAY_HEIGHT]) -> (window_buffer:
    [u32; PIXEL_COUNT])
    ensures
        forall|x: int, y: int|
            0 <= x < DISPLAY_WIDTH && 0 <= y < DISPLAY_HEIGHT ==> #[trigger] window_buffer[x + y
                * DISPLAY_WIDTH] == colour(chip8_buffer[y][x]),
{
    let mut window_buffer: [u32; PIXEL_COUNT] = [0; PIXEL_COUNT];
    let mut i: usize = 0;
    while i < DISPLAY_HEIGHT
        invariant
            i <= DISPLAY_HEIGHT,
            forall|x: int, y: int|
                0 <= x < DISPLAY_WIDTH && 0 <= y < i ==> #[trigger] window_buffer[x + y
                    * DISPLAY_WIDTH] == colour(chip8_buffer[y][x]),
        decreases DISPLAY_HEIGHT - i,
    {
        let mut j: usize = 0;
        while j < DISPLAY_WIDTH
            invariant
                i < DISPLAY_HEIGHT,
                j <= DISPLAY_WIDTH,
                forall|x: int, y: int|
                    0 <= x < DISPLAY_WIDTH && 0 <= y < i ==> #[trigger] window_buffer[x + y
                        * DISPLAY_WIDTH] == colour(chip8_buffer[y][x]),
                forall|x: int|
                    0 <= x < j ==> #[trigger] window_buffer[x + i * DISPLAY_WIDTH] == colour(
                        chip8_buffer[i as int][x],
                    ),
            decreases DISPLAY_WIDTH - j,
        {
            window_buffer[j + (i * DISPLAY_WIDTH)] = if chip8_buffer[i][j] {
                LIT
            } else {
                UNLIT
            };
            j += 1;
        }
        i += 1;
    }
    window_buffer
}

/// Reads the command line: the program's file is the argument after the
/// name of the executable; later arguments are ignored. Without it the
/// command line is refused with `NO_ROM_PATH`.
pub fn parse_arguments(args: &[String]) -> (parsed: Result<Config, &'static str>)
    ensures
        args.len() < 2 ==> (parsed matches Err(message) && message@ == NO_ROM_PATH@),
        args.len() >= 2 ==> (parsed matches Ok(config) && config.rom_path@ == args[1]@),
{
    if args.len() < 2 {
        return Err(NO_ROM_PATH);
    }
    let rom_path = args[1].clone();
    Ok(Config { rom_path })
}

} // verus!
