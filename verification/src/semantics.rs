//! The meaning of the machine's operations, as functions on the model.
//!
//! Every function here is total. An operation that the machine refuses is an
//! `Err` with the reason; the executable machine then leaves its state as it
//! was.

use vstd::prelude::*;
use crate::decode::fields;
use crate::fault::Fault;
use crate::font::glyph_address;
use crate::state::{
    blank_display, MachineState, DISPLAY_HEIGHT, DISPLAY_WIDTH, FLAG, KEY_COUNT, MEMORY_SIZE,
};

verus! {

/// One step of a timer: down by one, never below zero.
pub open spec fn count_down(timer: u8) -> u8 {
    if timer > 0 {
        (timer - 1) as u8
    } else {
        0
    }
}

/// One frame tick: both timers take one step, nothing else changes.
pub open spec fn tick(s: MachineState) -> MachineState {
    MachineState {
        delay_timer: count_down(s.delay_timer),
        sound_timer: count_down(s.sound_timer),
        ..s
    }
}

/// `n` frame ticks in a row.
pub open spec fn ticks(s: MachineState, n: nat) -> MachineState
    decreases n,
{
    if n == 0 {
        s
    } else {
        ticks(tick(s), (n - 1) as nat)
    }
}

/// Memory after `data` was copied to `start` and the addresses that follow.
pub open spec fn load(s: MachineState, data: Seq<u8>, start: int) -> MachineState {
    MachineState {
        memory: Seq::new(
            s.memory.len(),
            |a: int|
                if start <= a < start + data.len() {
                    data[a - start]
                } else {
                    s.memory[a]
                },
        ),
        ..s
    }
}

/// The latch after key `key` was set to `held`.
pub open spec fn set_key(s: MachineState, key: int, held: bool) -> MachineState {
    MachineState { keys: s.keys.update(key, held), ..s }
}

/// The big-endian word made of the bytes at `addr` and `addr + 1`.
pub open spec fn word_at(s: MachineState, addr: int) -> u16 {
    (s.memory[addr] * 256 + s.memory[addr + 1]) as u16
}

/// The fetch of one instruction: the word at the program counter, and the
/// state with the program counter moved past it. Refused when either byte
/// of the word lies outside memory.
pub open spec fn fetch(s: MachineState) -> Result<(u16, MachineState), Fault> {
    if s.pc + 1 >= MEMORY_SIZE {
        Err(Fault::MemoryOutOfBounds)
    } else {
        Ok((word_at(s, s.pc as int), MachineState { pc: (s.pc + 2) as u16, ..s }))
    }
}

/// The program counter moved past one instruction. Refused when it would no
/// longer fit in sixteen bits.
pub open spec fn advance(s: MachineState) -> Result<MachineState, Fault> {
    if s.pc + 2 > u16::MAX {
        Err(Fault::AddressOverflow)
    } else {
        Ok(MachineState { pc: (s.pc + 2) as u16, ..s })
    }
}

/// The next instruction skipped if `condition` holds.
pub open spec fn skip_if(s: MachineState, condition: bool) -> Result<MachineState, Fault> {
    if condition {
        advance(s)
    } else {
        Ok(s)
    }
}

/// `00E0` clears the display, `00EE` returns from a subroutine; every other
/// word that begins with the nibble 0 does nothing.
pub open spec fn system(s: MachineState, word: u16) -> Result<MachineState, Fault> {
    if word == 0x00E0 {
        Ok(MachineState { display: blank_display(), ..s })
    } else if word == 0x00EE {
        if s.stack.len() == 0 {
            Err(Fault::StackUnderflow)
        } else {
            Ok(MachineState { pc: s.stack.last(), stack: s.stack.drop_last(), ..s })
        }
    } else {
        Ok(s)
    }
}

/// `1` for true and `0` for false, as the flag register holds them.
pub open spec fn flag(b: bool) -> u8 {
    if b {
        1
    } else {
        0
    }
}

/// The registers after `8XYN`, for registers `x` and `y` and last nibble `n`.
///
/// Sums, differences and flags are worked out from what VX and VY held
/// before the instruction. `8XY4` writes the flag and then the sum, `8XY5`
/// and `8XY7` the difference and then the flag, so where the result goes to
/// VF itself the later of the two stays. The two shifts write the flag and
/// then shift what VX holds by then, which is the flag where VX is VF.
/// `8XY7` puts its difference in VY. A nibble that names no operation
/// changes nothing.
pub open spec fn arithmetic(r: Seq<u8>, x: int, y: int, n: u8) -> Seq<u8> {
    let vx = r[x];
    let vy = r[y];
    if n == 0x0 {
        r.update(x, vy)
    } else if n == 0x1 {
        r.update(x, vx | vy)
    } else if n == 0x2 {
        r.update(x, vx & vy)
    } else if n == 0x3 {
        r.update(x, vx ^ vy)
    } else if n == 0x4 {
        r.update(FLAG as int, flag(vx + vy > 255)).update(x, ((vx + vy) % 256) as u8)
    } else if n == 0x5 {
        r.update(x, ((vx - vy) % 256) as u8).update(FLAG as int, flag(vx >= vy))
    } else if n == 0x6 {
        let flagged = r.update(FLAG as int, vx % 2);
        flagged.update(x, flagged[x] / 2)
    } else if n == 0x7 {
        r.update(y, ((vy - vx) % 256) as u8).update(FLAG as int, flag(vy >= vx))
    } else if n == 0xE {
        let flagged = r.update(FLAG as int, vx / 128);
        flagged.update(x, ((flagged[x] * 2) % 256) as u8)
    } else {
        r
    }
}

/// Whether the pixel in column `col` of a sprite row is set; column 0 is the
/// most significant bit of the row's byte.
pub open spec fn sprite_bit(row: u8, col: u8) -> bool {
    (row >> ((7 - col) as u8)) & 1 == 1
}

/// Whether the sprite of `height` rows that starts at the index register,
/// placed with its top left corner at `(ox, oy)`, has a set pixel at `(x, y)`.
pub open spec fn sprite_covers(
    s: MachineState,
    ox: int,
    oy: int,
    height: int,
    x: int,
    y: int,
) -> bool {
    &&& ox <= x < ox + 8
    &&& oy <= y < oy + height
    &&& sprite_bit(s.memory[s.index + (y - oy)], (x - ox) as u8)
}

/// Whether the sprite placed at `(ox, oy)` has a set pixel on a lit pixel of
/// the display.
pub open spec fn collides(s: MachineState, ox: int, oy: int, height: int) -> bool {
    exists|x: int, y: int|
        0 <= x < DISPLAY_WIDTH && 0 <= y < DISPLAY_HEIGHT && s.pixel(x, y) && #[trigger] sprite_covers(
            s,
            ox,
            oy,
            height,
            x,
            y,
        )
}

/// The sprite placed at `(ox, oy)`: every pixel of the display under a set
/// pixel of the sprite is flipped, VF tells whether a lit pixel went dark.
/// What falls beyond the right or the bottom edge is not drawn.
pub open spec fn blit(s: MachineState, ox: int, oy: int, height: int) -> MachineState {
    MachineState {
        display: Seq::new(
            DISPLAY_HEIGHT as nat,
            |y: int|
                Seq::new(
                    DISPLAY_WIDTH as nat,
                    |x: int| s.display[y][x] != sprite_covers(s, ox, oy, height, x, y),
                ),
        ),
        registers: s.registers.update(FLAG as int, flag(collides(s, ox, oy, height))),
        ..s
    }
}

/// `DXYN`: the sprite of `n` rows drawn with its corner at VX modulo the
/// width and VY modulo the height. Refused when one of its `n` bytes lies
/// outside memory.
pub open spec fn draw(s: MachineState, x: int, y: int, n: u8) -> Result<MachineState, Fault> {
    if s.index + n > MEMORY_SIZE {
        Err(Fault::MemoryOutOfBounds)
    } else {
        Ok(
            blit(
                s,
                s.registers[x] as int % DISPLAY_WIDTH as int,
                s.registers[y] as int % DISPLAY_HEIGHT as int,
                n as int,
            ),
        )
    }
}

/// `EX9E` skips if key VX is held, `EXA1` if it is not; both are refused
/// when VX names no key. Every other low byte does nothing.
pub open spec fn keypad(s: MachineState, x: int, nn: u8) -> Result<MachineState, Fault> {
    let key = s.registers[x];
    if nn == 0x9E || nn == 0xA1 {
        if key >= KEY_COUNT {
            Err(Fault::KeyOutOfRange)
        } else {
            skip_if(s, s.keys[key as int] == (nn == 0x9E))
        }
    } else {
        Ok(s)
    }
}

/// `FX0A`: while no key is held the program counter goes back to the
/// instruction, so that the next cycle executes it again; once a key is held
/// nothing happens.
pub open spec fn wait_for_key(s: MachineState) -> Result<MachineState, Fault> {
    if s.any_key_held() {
        Ok(s)
    } else if s.pc < 2 {
        Err(Fault::AddressOverflow)
    } else {
        Ok(MachineState { pc: (s.pc - 2) as u16, ..s })
    }
}

/// `FX1E`: VX added to the index register. Refused when the sum would no
/// longer fit in sixteen bits.
pub open spec fn add_to_index(s: MachineState, x: int) -> Result<MachineState, Fault> {
    if s.index + s.registers[x] > u16::MAX {
        Err(Fault::AddressOverflow)
    } else {
        Ok(MachineState { index: (s.index + s.registers[x]) as u16, ..s })
    }
}

/// `FX33`: the hundreds, tens and ones of VX stored at the index register
/// and the two addresses after it.
pub open spec fn store_decimal(s: MachineState, x: int) -> Result<MachineState, Fault> {
    let v = s.registers[x];
    let i = s.index as int;
    if i + 2 >= MEMORY_SIZE {
        Err(Fault::MemoryOutOfBounds)
    } else {
        Ok(
            MachineState {
                memory: s.memory.update(i, v / 100).update(i + 1, v / 10 % 10).update(
                    i + 2,
                    v % 10,
                ),
                ..s
            },
        )
    }
}

/// `FX55`: the registers V0 to VX copied to memory from the index register
/// on.
pub open spec fn store_registers(s: MachineState, x: int) -> Result<MachineState, Fault> {
    let i = s.index as int;
    if i + x >= MEMORY_SIZE {
        Err(Fault::MemoryOutOfBounds)
    } else {
        Ok(
            MachineState {
                memory: Seq::new(
                    s.memory.len(),
                    |a: int|
                        if i <= a <= i + x {
                            s.registers[a - i]
                        } else {
                            s.memory[a]
                        },
                ),
                ..s
            },
        )
    }
}

/// `FX65`: the registers V0 to VX filled from memory from the index register
/// on.
pub open spec fn load_registers(s: MachineState, x: int) -> Result<MachineState, Fault> {
    let i = s.index as int;
    if i + x >= MEMORY_SIZE {
        Err(Fault::MemoryOutOfBounds)
    } else {
        Ok(
            MachineState {
                registers: Seq::new(
                    s.registers.len(),
                    |k: int|
                        if k <= x {
                            s.memory[i + k]
                        } else {
                            s.registers[k]
                        },
                ),
                ..s
            },
        )
    }
}

/// The instructions `FXNN`, told apart by their low byte; a low byte that
/// names none of them does nothing.
pub open spec fn miscellany(s: MachineState, x: int, nn: u8) -> Result<MachineState, Fault> {
    let vx = s.registers[x];
    if nn == 0x07 {
        Ok(MachineState { registers: s.registers.update(x, s.delay_timer), ..s })
    } else if nn == 0x15 {
        Ok(MachineState { delay_timer: vx, ..s })
    } else if nn == 0x18 {
        Ok(MachineState { sound_timer: vx, ..s })
    } else if nn == 0x1E {
        add_to_index(s, x)
    } else if nn == 0x0A {
        wait_for_key(s)
    } else if nn == 0x29 {
        Ok(MachineState { index: glyph_address(vx as int % 16) as u16, ..s })
    } else if nn == 0x33 {
        store_decimal(s, x)
    } else if nn == 0x55 {
        store_registers(s, x)
    } else if nn == 0x65 {
        load_registers(s, x)
    } else {
        Ok(s)
    }
}

/// The state after the instruction `word` was executed, the program counter
/// standing behind the instruction already. `random` is the number that the
/// random source gave; only `CXNN` looks at it, and only at its four lowest
/// bits. The register skips `5XYN` and `9XYN` are told by their first nibble
/// alone, whatever their last one.
pub open spec fn execute(s: MachineState, word: u16, random: u32) -> Result<MachineState, Fault> {
    let f = fields(word);
    let x = f.n2 as int;
    let y = f.n3 as int;
    let vx = s.registers[x];
    let vy = s.registers[y];
    if f.n1 == 0x0 {
        system(s, word)
    } else if f.n1 == 0x1 {
        Ok(MachineState { pc: f.nnn, ..s })
    } else if f.n1 == 0x2 {
        Ok(MachineState { pc: f.nnn, stack: s.stack.push(s.pc), ..s })
    } else if f.n1 == 0x3 {
        skip_if(s, vx == f.nn)
    } else if f.n1 == 0x4 {
        skip_if(s, vx != f.nn)
    } else if f.n1 == 0x5 {
        skip_if(s, vx == vy)
    } else if f.n1 == 0x6 {
        Ok(MachineState { registers: s.registers.update(x, f.nn), ..s })
    } else if f.n1 == 0x7 {
        Ok(MachineState { registers: s.registers.update(x, ((vx + f.nn) % 256) as u8), ..s })
    } else if f.n1 == 0x8 {
        Ok(MachineState { registers: arithmetic(s.registers, x, y, f.n4), ..s })
    } else if f.n1 == 0x9 {
        skip_if(s, vx != vy)
    } else if f.n1 == 0xA {
        Ok(MachineState { index: f.nnn, ..s })
    } else if f.n1 == 0xB {
        Ok(MachineState { pc: (f.nnn + s.registers[0]) as u16, ..s })
    } else if f.n1 == 0xC {
        Ok(MachineState { registers: s.registers.update(x, ((random % 16) as u8) & f.nn), ..s })
    } else if f.n1 == 0xD {
        draw(s, x, y, f.n4)
    } else if f.n1 == 0xE {
        keypad(s, x, f.nn)
    } else {
        miscellany(s, x, f.nn)
    }
}

/// One cycle: an instruction fetched and executed.
pub open spec fn cycle(s: MachineState, random: u32) -> Result<MachineState, Fault> {
    match fetch(s) {
        Ok((word, fetched)) => execute(fetched, word, random),
        Err(fault) => Err(fault),
    }
}

/// How an operation's result and the machine after it follow from what the
/// model says: on `Ok` the machine is in the new state, on `Err` it reports
/// the same fault and is as it was before.
pub open spec fn follows(
    before: MachineState,
    after: MachineState,
    result: Result<(), Fault>,
    model: Result<MachineState, Fault>,
) -> bool {
    match model {
        Ok(next) => result == Ok::<(), Fault>(()) && after == next,
        Err(fault) => result == Err::<(), Fault>(fault) && after == before,
    }
}

} // verus!
