//! The executable machine.

use vstd::prelude::*;
use rand::rngs::SmallRng;
use crate::entropy::{next_random, seed_from_os};
use crate::fault::Fault;
use crate::decode::{decode, fields, lemma_fields_recompose};
use crate::font::{FONT, FONT_BASE, GLYPH_BYTES};
use crate::semantics;
use crate::semantics::{cycle, execute, fetch, follows, load, sprite_covers, tick};
use crate::state::{
    blank_display, initial_state, MachineState, DISPLAY_HEIGHT, DISPLAY_WIDTH, FLAG, KEY_COUNT,
    MEMORY_SIZE, PROGRAM_START, REGISTER_COUNT,
};

verus! {

/// A CHIP-8 machine: memory, registers, call stack, timers, display, key
/// latch and random source, owned by one value.
pub struct Chip8 {
    display: [[bool; DISPLAY_WIDTH]; DISPLAY_HEIGHT],
    memory: [u8; MEMORY_SIZE],
    stack: Vec<u16>,
    pc: u16,
    registers: [u8; REGISTER_COUNT],
    index_register: u16,
    delay_timer: u8,
    sound_timer: u8,
    rng: SmallRng,
    input: [bool; KEY_COUNT],
}

impl View for Chip8 {
    type V = MachineState;

    /// The machine as the model sees it: everything but the random source.
    closed spec fn view(&self) -> MachineState {
        MachineState {
            memory: self.memory@,
            registers: self.registers@,
            index: self.index_register,
            pc: self.pc,
            stack: self.stack@,
            delay_timer: self.delay_timer,
            sound_timer: self.sound_timer,
            display: Seq::new(DISPLAY_HEIGHT as nat, |y: int| self.display[y]@),
            keys: self.input@,
        }
    }
}

impl Chip8 {
    /// The model of every machine has the sizes of a machine.
    pub proof fn lemma_view_wf(&self)
        ensures
            self@.wf(),
    {
    }

    /// A machine in its initial state, its random source seeded by the
    /// operating system. Fails only where the system supplies no seed.
    pub fn new() -> (made: Result<Chip8, Fault>)
        ensures
            made matches Ok(chip8) ==> chip8@ == initial_state(),
            made matches Err(fault) ==> fault == Fault::EntropyUnavailable,
    {
        match seed_from_os() {
            Ok(rng) => Ok(Chip8::with_rng(rng)),
            Err(_) => Err(Fault::EntropyUnavailable),
        }
    }

    /// A machine in its initial state that draws its random numbers from
    /// `rng`.
    pub fn with_rng(rng: SmallRng) -> (chip8: Chip8)
        ensures
            chip8@ == initial_state(),
    {
        let mut chip8 = Chip8 {
            display: [[false; DISPLAY_WIDTH]; DISPLAY_HEIGHT],
            memory: [0; MEMORY_SIZE],
            stack: Vec::new(),
            pc: PROGRAM_START,
            registers: [0; REGISTER_COUNT],
            index_register: 0,
            delay_timer: 0,
            sound_timer: 0,
            rng,
            input: [false; KEY_COUNT],
        };
        chip8.load_to_memory(&FONT, FONT_BASE as usize);
        assert(chip8@.memory =~= initial_state().memory);
        assert(chip8@.display =~~= initial_state().display);
        assert(chip8@.registers =~= initial_state().registers);
        assert(chip8@.keys =~= initial_state().keys);
        chip8
    }

    /// One frame tick: each timer goes down by one unless it is zero.
    pub fn draw(&mut self)
        ensures
            final(self)@ == tick(old(self)@),
    {
        if self.delay_timer > 0 {
            self.delay_timer -= 1;
        }
        if self.sound_timer > 0 {
            self.sound_timer -= 1;
        }
    }

    /// Copies `data` into memory, its first byte to `start_pos`.
    pub fn load_to_memory(&mut self, data: &[u8], start_pos: usize)
        requires
            start_pos + data.len() <= MEMORY_SIZE,
        ensures
            final(self)@ == load(old(self)@, data@, start_pos as int),
    {
        let mut i: usize = 0;
        while i < data.len()
            invariant
                i <= data.len(),
                start_pos + data.len() <= MEMORY_SIZE,
                self@ == load(old(self)@, data@.take(i as int), start_pos as int),
            decreases data.len() - i,
        {
            self.memory[start_pos + i] = data[i];
            i += 1;
            assert(self@.memory =~= load(old(self)@, data@.take(i as int), start_pos as int).memory);
        }
        assert(data@.take(i as int) =~= data@);
    }

    /// The display, row by row from the top, each row from the left.
    pub fn get_display(&self) -> (grid: &[[bool; DISPLAY_WIDTH]; DISPLAY_HEIGHT])
        ensures
            forall|x: int, y: int|
                0 <= x < DISPLAY_WIDTH && 0 <= y < DISPLAY_HEIGHT ==> grid[y][x] == #[trigger] self@.pixel(x, y),
    {
        &self.display
    }

    /// The sound timer; the host sounds its tone while this is above zero.
    pub fn get_sound_timer(&self) -> (timer: u8)
        ensures
            timer == self@.sound_timer,
    {
        self.sound_timer
    }

    /// The delay timer.
    pub fn get_delay_timer(&self) -> (timer: u8)
        ensures
            timer == self@.delay_timer,
    {
        self.delay_timer
    }

    /// The program counter.
    pub fn get_pc(&self) -> (pc: u16)
        ensures
            pc == self@.pc,
    {
        self.pc
    }

    /// The index register.
    pub fn get_index_register(&self) -> (index: u16)
        ensures
            index == self@.index,
    {
        self.index_register
    }

    /// The general registers V0 to VF.
    pub fn get_registers(&self) -> (registers: &[u8; REGISTER_COUNT])
        ensures
            registers@ == self@.registers,
    {
        &self.registers
    }

    /// The whole of memory.
    pub fn get_memory(&self) -> (memory: &[u8; MEMORY_SIZE])
        ensures
            memory@ == self@.memory,
    {
        &self.memory
    }

    /// The call stack, the most recent return address last.
    pub fn get_stack(&self) -> (stack: &Vec<u16>)
        ensures
            stack@ == self@.stack,
    {
        &self.stack
    }

    /// Whether the pixel in column `x` of row `y` is lit; `None` outside
    /// the display.
    pub fn get_pixel(&self, x: usize, y: usize) -> (lit: Option<bool>)
        ensures
            lit == if x < DISPLAY_WIDTH && y < DISPLAY_HEIGHT {
                Some(self@.pixel(x as int, y as int))
            } else {
                None
            },
    {
        if x < DISPLAY_WIDTH && y < DISPLAY_HEIGHT {
            Some(self.display[y][x])
        } else {
            None
        }
    }

    /// Records whether key `key` is held.
    pub fn set_key(&mut self, key: usize, value: bool)
        requires
            key < KEY_COUNT,
        ensures
            final(self)@ == semantics::set_key(old(self)@, key as int, value),
    {
        self.input[key] = value;
    }

    /// Reads the instruction word at the program counter and moves the
    /// program counter past it.
    pub fn fetch_instruction(&mut self) -> (fetched: Result<u16, Fault>)
        ensures
            match fetch(old(self)@) {
                Ok((word, next)) => fetched == Ok::<u16, Fault>(word) && final(self)@ == next,
                Err(fault) => fetched == Err::<u16, Fault>(fault) && final(self)@ == old(self)@,
            },
    {
        let pc: usize = self.pc as usize;
        if pc + 1 >= MEMORY_SIZE {
            return Err(Fault::MemoryOutOfBounds);
        }
        let b1: u16 = self.memory[pc] as u16;
        let b2: u16 = self.memory[pc + 1] as u16;
        assert(b1 << 8 == b1 * 256) by (bit_vector)
            requires
                b1 < 256,
        ;
        let instruction: u16 = (b1 << 8) + b2;
        self.pc += 2;
        Ok(instruction)
    }
}

impl Chip8 {
    /// Sets the pixel in column `x` of row `y`; does nothing outside the
    /// display.
    fn set_pixel(&mut self, x: usize, y: usize, value: bool)
        ensures
            final(self)@ == if x < DISPLAY_WIDTH && y < DISPLAY_HEIGHT {
                MachineState {
                    display: old(self)@.display.update(
                        y as int,
                        old(self)@.display[y as int].update(x as int, value),
                    ),
                    ..old(self)@
                }
            } else {
                old(self)@
            },
            forall|px: int, py: int|
                0 <= px < DISPLAY_WIDTH && 0 <= py < DISPLAY_HEIGHT ==> #[trigger] final(self)@.pixel(
                    px,
                    py,
                ) == if px == x && py == y {
                    value
                } else {
                    old(self)@.pixel(px, py)
                },
    {
        if x < DISPLAY_WIDTH && y < DISPLAY_HEIGHT {
            self.display[y][x] = value;
            assert(self@.display =~~= old(self)@.display.update(
                y as int,
                old(self)@.display[y as int].update(x as int, value),
            ));
        }
    }

    /// Turns every pixel off.
    fn clear_screen(&mut self)
        ensures
            final(self)@ == (MachineState { display: blank_display(), ..old(self)@ }),
    {
        let mut i: usize = 0;
        while i < DISPLAY_HEIGHT
            invariant
                i <= DISPLAY_HEIGHT,
                self@ == (MachineState { display: self@.display, ..old(self)@ }),
                forall|x: int, y: int|
                    0 <= x < DISPLAY_WIDTH && 0 <= y < DISPLAY_HEIGHT ==> #[trigger] self@.pixel(
                        x,
                        y,
                    ) == (y >= i && old(self)@.pixel(x, y)),
            decreases DISPLAY_HEIGHT - i,
        {
            let mut j: usize = 0;
            while j < DISPLAY_WIDTH
                invariant
                    i < DISPLAY_HEIGHT,
                    j <= DISPLAY_WIDTH,
                    self@ == (MachineState { display: self@.display, ..old(self)@ }),
                    forall|x: int, y: int|
                        0 <= x < DISPLAY_WIDTH && 0 <= y < DISPLAY_HEIGHT
                            ==> #[trigger] self@.pixel(x, y) == ((y > i || (y == i && x >= j))
                            && old(self)@.pixel(x, y)),
                decreases DISPLAY_WIDTH - j,
            {
                self.set_pixel(j, i, false);
                j += 1;
            }
            i += 1;
        }
        proof {
            self.lemma_view_wf();
            assert forall|y: int| 0 <= y < DISPLAY_HEIGHT implies #[trigger] self@.display[y]
                =~= blank_display()[y] by {
                assert forall|x: int| 0 <= x < DISPLAY_WIDTH implies self@.display[y][x]
                    == blank_display()[y][x] by {
                    assert(!self@.pixel(x, y));
                }
            }
            assert(self@.display =~= blank_display());
        }
    }

    /// Moves the program counter past the next instruction if `condition`
    /// holds.
    fn skip_if(&mut self, condition: bool) -> (result: Result<(), Fault>)
        ensures
            follows(old(self)@, final(self)@, result, semantics::skip_if(old(self)@, condition)),
    {
        if condition {
            if self.pc > u16::MAX - 2 {
                return Err(Fault::AddressOverflow);
            }
            self.pc += 2;
        }
        Ok(())
    }

    /// The register instructions `8XYN`.
    fn arithmetic(&mut self, x: usize, y: usize, n: u8)
        requires
            x < REGISTER_COUNT,
            y < REGISTER_COUNT,
        ensures
            final(self)@ == (MachineState {
                registers: semantics::arithmetic(old(self)@.registers, x as int, y as int, n),
                ..old(self)@
            }),
    {
        let vx: u8 = self.registers[x];
        let vy: u8 = self.registers[y];
        match n {
            0x0 => {
                self.registers[x] = vy;
            },
            0x1 => {
                self.registers[x] = vx | vy;
            },
            0x2 => {
                self.registers[x] = vx & vy;
            },
            0x3 => {
                self.registers[x] = vx ^ vy;
            },
            0x4 => {
                let sum: u16 = vx as u16 + vy as u16;
                self.registers[FLAG] = if sum > 255 {
                    1
                } else {
                    0
                };
                self.registers[x] = (sum % 256) as u8;
            },
            0x5 => {
                if vx >= vy {
                    self.registers[x] = vx - vy;
                    self.registers[FLAG] = 1;
                } else {
                    self.registers[x] = 255 - (vy - vx) + 1;
                    self.registers[FLAG] = 0;
                }
            },
            0x6 => {
                assert(vx & 1 == vx % 2) by (bit_vector);
                self.registers[FLAG] = vx & 1;
                let shifted: u8 = self.registers[x];
                assert(shifted >> 1 == shifted / 2) by (bit_vector);
                self.registers[x] = shifted >> 1;
            },
            0x7 => {
                if vy >= vx {
                    self.registers[y] = vy - vx;
                    self.registers[FLAG] = 1;
                } else {
                    self.registers[y] = 255 - (vx - vy) + 1;
                    self.registers[FLAG] = 0;
                }
            },
            0xe => {
                assert((vx >> 7) & 1 == vx / 128) by (bit_vector);
                self.registers[FLAG] = (vx >> 7) & 1;
                let shifted: u8 = self.registers[x];
                assert(shifted << 1 == ((shifted * 2) % 256) as u8) by (bit_vector);
                self.registers[x] = shifted << 1;
            },
            _ => {},
        }
        assert(self@.registers =~= semantics::arithmetic(
            old(self)@.registers,
            x as int,
            y as int,
            n,
        ));
    }
}

/// Whether the drawing loops, having finished `rows` rows of the sprite and
/// `cols` pixels of the next one, have reached the sprite's pixel at
/// `(x, y)`.
spec fn drawn(
    s: MachineState,
    ox: int,
    oy: int,
    height: int,
    rows: int,
    cols: int,
    x: int,
    y: int,
) -> bool {
    sprite_covers(s, ox, oy, height, x, y) && (y - oy < rows || (y - oy == rows && x - ox < cols))
}

/// Whether a pixel that the loops have reached was lit before the drawing.
spec fn collided(s: MachineState, ox: int, oy: int, height: int, rows: int, cols: int) -> bool {
    exists|x: int, y: int|
        0 <= x < DISPLAY_WIDTH && 0 <= y < DISPLAY_HEIGHT && s.pixel(x, y) && #[trigger] drawn(
            s,
            ox,
            oy,
            height,
            rows,
            cols,
            x,
            y,
        )
}

/// One more pixel reached adds a collision exactly if that pixel is on the
/// display, set in the sprite and was lit.
proof fn lemma_collided_step(s: MachineState, ox: int, oy: int, height: int, rows: int, cols: int)
    ensures
        collided(s, ox, oy, height, rows, cols + 1) == (collided(s, ox, oy, height, rows, cols) || (
        0 <= ox + cols < DISPLAY_WIDTH && 0 <= oy + rows < DISPLAY_HEIGHT && s.pixel(
            ox + cols,
            oy + rows,
        ) && sprite_covers(s, ox, oy, height, ox + cols, oy + rows))),
{
    let hit = 0 <= ox + cols < DISPLAY_WIDTH && 0 <= oy + rows < DISPLAY_HEIGHT && s.pixel(
        ox + cols,
        oy + rows,
    ) && sprite_covers(s, ox, oy, height, ox + cols, oy + rows);
    if collided(s, ox, oy, height, rows, cols + 1) {
        let (px, py) = choose|px: int, py: int|
            0 <= px < DISPLAY_WIDTH && 0 <= py < DISPLAY_HEIGHT && s.pixel(px, py) && #[trigger] drawn(
                s,
                ox,
                oy,
                height,
                rows,
                cols + 1,
                px,
                py,
            );
        if drawn(s, ox, oy, height, rows, cols, px, py) {
            assert(collided(s, ox, oy, height, rows, cols));
        } else {
            assert(px == ox + cols && py == oy + rows);
            assert(hit);
        }
    }
    if collided(s, ox, oy, height, rows, cols) {
        let (px, py) = choose|px: int, py: int|
            0 <= px < DISPLAY_WIDTH && 0 <= py < DISPLAY_HEIGHT && s.pixel(px, py) && #[trigger] drawn(
                s,
                ox,
                oy,
                height,
                rows,
                cols,
                px,
                py,
            );
        assert(drawn(s, ox, oy, height, rows, cols + 1, px, py));
    }
    if hit {
        assert(drawn(s, ox, oy, height, rows, cols + 1, ox + cols, oy + rows));
    }
}

/// A finished row is the start of the next one.
proof fn lemma_collided_row(s: MachineState, ox: int, oy: int, height: int, rows: int)
    ensures
        collided(s, ox, oy, height, rows, 8) == collided(s, ox, oy, height, rows + 1, 0),
{
    if collided(s, ox, oy, height, rows, 8) {
        let (px, py) = choose|px: int, py: int|
            0 <= px < DISPLAY_WIDTH && 0 <= py < DISPLAY_HEIGHT && s.pixel(px, py) && #[trigger] drawn(
                s,
                ox,
                oy,
                height,
                rows,
                8,
                px,
                py,
            );
        assert(drawn(s, ox, oy, height, rows + 1, 0, px, py));
    }
    if collided(s, ox, oy, height, rows + 1, 0) {
        let (px, py) = choose|px: int, py: int|
            0 <= px < DISPLAY_WIDTH && 0 <= py < DISPLAY_HEIGHT && s.pixel(px, py) && #[trigger] drawn(
                s,
                ox,
                oy,
                height,
                rows + 1,
                0,
                px,
                py,
            );
        assert(drawn(s, ox, oy, height, rows, 8, px, py));
    }
}

/// With every row finished the loops have reached the whole sprite.
proof fn lemma_collided_all(s: MachineState, ox: int, oy: int, height: int)
    ensures
        collided(s, ox, oy, height, height, 0) == semantics::collides(s, ox, oy, height),
{
    if collided(s, ox, oy, height, height, 0) {
        let (px, py) = choose|px: int, py: int|
            0 <= px < DISPLAY_WIDTH && 0 <= py < DISPLAY_HEIGHT && s.pixel(px, py) && #[trigger] drawn(
                s,
                ox,
                oy,
                height,
                height,
                0,
                px,
                py,
            );
        assert(sprite_covers(s, ox, oy, height, px, py));
    }
    if semantics::collides(s, ox, oy, height) {
        let (px, py) = choose|px: int, py: int|
            0 <= px < DISPLAY_WIDTH && 0 <= py < DISPLAY_HEIGHT && s.pixel(px, py)
                && #[trigger] sprite_covers(s, ox, oy, height, px, py);
        assert(drawn(s, ox, oy, height, height, 0, px, py));
    }
}

/// Whether the pixel in column `col` of a sprite row is set.
fn sprite_bit(row: u8, col: u8) -> (set: bool)
    requires
        col < 8,
    ensures
        set == semantics::sprite_bit(row, col),
{
    ((row >> (7 - col)) & 1) == 1
}

impl Chip8 {
    /// Draws the sprite of `height` rows that starts at the index register
    /// with its top left corner at `(x, y)`.
    fn draw_sprite(&mut self, x: u8, y: u8, height: u8) -> (result: Result<(), Fault>)
        requires
            x < DISPLAY_WIDTH,
            y < DISPLAY_HEIGHT,
        ensures
            follows(
                old(self)@,
                final(self)@,
                result,
                if old(self)@.index + height > MEMORY_SIZE {
                    Err(Fault::MemoryOutOfBounds)
                } else {
                    Ok(semantics::blit(old(self)@, x as int, y as int, height as int))
                },
            ),
    {
        let base: usize = self.index_register as usize;
        if base + height as usize > MEMORY_SIZE {
            return Err(Fault::MemoryOutOfBounds);
        }
        let ghost s0 = self@;
        proof {
            self.lemma_view_wf();
        }
        let ghost ox = x as int;
        let ghost oy = y as int;
        let ghost h = height as int;
        self.registers[FLAG] = 0;
        let mut i: u8 = 0;
        while i < height
            invariant
                i <= height,
                x < DISPLAY_WIDTH,
                y < DISPLAY_HEIGHT,
                ox == x,
                oy == y,
                h == height,
                s0.wf(),
                base == s0.index,
                base + height <= MEMORY_SIZE,
                self@ == (MachineState {
                    display: self@.display,
                    registers: self@.registers,
                    ..s0
                }),
                self@.registers == s0.registers.update(
                    FLAG as int,
                    semantics::flag(collided(s0, ox, oy, h, i as int, 0)),
                ),
                forall|px: int, py: int|
                    0 <= px < DISPLAY_WIDTH && 0 <= py < DISPLAY_HEIGHT ==> #[trigger] self@.pixel(
                        px,
                        py,
                    ) == (s0.pixel(px, py) != drawn(s0, ox, oy, h, i as int, 0, px, py)),
            decreases height - i,
        {
            let byte: u8 = self.memory[base + i as usize];
            let row: usize = y as usize + i as usize;
            let mut j: u8 = 0;
            while j < 8
                invariant
                    i < height,
                    j <= 8,
                    x < DISPLAY_WIDTH,
                    y < DISPLAY_HEIGHT,
                    ox == x,
                    oy == y,
                    h == height,
                    row == y + i,
                    s0.wf(),
                    base == s0.index,
                    base + height <= MEMORY_SIZE,
                    byte == s0.memory[s0.index + i],
                    self@ == (MachineState {
                        display: self@.display,
                        registers: self@.registers,
                        ..s0
                    }),
                    self@.registers == s0.registers.update(
                        FLAG as int,
                        semantics::flag(collided(s0, ox, oy, h, i as int, j as int)),
                    ),
                    forall|px: int, py: int|
                        0 <= px < DISPLAY_WIDTH && 0 <= py < DISPLAY_HEIGHT
                            ==> #[trigger] self@.pixel(px, py) == (s0.pixel(px, py) != drawn(
                            s0,
                            ox,
                            oy,
                            h,
                            i as int,
                            j as int,
                            px,
                            py,
                        )),
                decreases 8 - j,
            {
                let col: usize = x as usize + j as usize;
                let ghost before = self@;
                proof {
                    lemma_collided_step(s0, ox, oy, h, i as int, j as int);
                    assert(sprite_covers(s0, ox, oy, h, col as int, row as int)
                        == semantics::sprite_bit(byte, j));
                }
                if sprite_bit(byte, j) {
                    if let Some(lit) = self.get_pixel(col, row) {
                        assert(lit == s0.pixel(col as int, row as int));
                        self.set_pixel(col, row, !lit);
                        if lit {
                            self.registers[FLAG] = 1;
                        }
                    }
                }
                assert forall|px: int, py: int|
                    0 <= px < DISPLAY_WIDTH && 0 <= py < DISPLAY_HEIGHT implies #[trigger] self@.pixel(
                    px,
                    py,
                ) == (s0.pixel(px, py) != drawn(s0, ox, oy, h, i as int, j + 1, px, py)) by {
                    assert(before.pixel(px, py) == (s0.pixel(px, py) != drawn(
                        s0,
                        ox,
                        oy,
                        h,
                        i as int,
                        j as int,
                        px,
                        py,
                    )));
                    if px == col && py == row {
                        assert(!drawn(s0, ox, oy, h, i as int, j as int, px, py));
                        assert(drawn(s0, ox, oy, h, i as int, j + 1, px, py)
                            == semantics::sprite_bit(byte, j));
                    } else {
                        assert(drawn(s0, ox, oy, h, i as int, j + 1, px, py) == drawn(
                            s0,
                            ox,
                            oy,
                            h,
                            i as int,
                            j as int,
                            px,
                            py,
                        ));
                        assert(self@.pixel(px, py) == before.pixel(px, py));
                    }
                }
                j += 1;
                assert(self@.registers =~= s0.registers.update(
                    FLAG as int,
                    semantics::flag(collided(s0, ox, oy, h, i as int, j as int)),
                ));
            }
            proof {
                lemma_collided_row(s0, ox, oy, h, i as int);
            }
            i += 1;
        }
        proof {
            lemma_collided_all(s0, ox, oy, h);
            self.lemma_view_wf();
            let goal = semantics::blit(s0, ox, oy, h);
            assert forall|py: int| 0 <= py < DISPLAY_HEIGHT implies #[trigger] self@.display[py]
                =~= goal.display[py] by {
                assert forall|px: int| 0 <= px < DISPLAY_WIDTH implies self@.display[py][px]
                    == goal.display[py][px] by {
                    assert(self@.pixel(px, py) == (s0.pixel(px, py) != drawn(
                        s0,
                        ox,
                        oy,
                        h,
                        h,
                        0,
                        px,
                        py,
                    )));
                }
            }
            assert(self@.display =~= goal.display);
            assert(self@.registers =~= goal.registers);
        }
        Ok(())
    }
}

impl Chip8 {
    /// Whether some key is held.
    fn any_key_held(&self) -> (held: bool)
        ensures
            held == self@.any_key_held(),
    {
        let mut k: usize = 0;
        while k < KEY_COUNT
            invariant
                k <= KEY_COUNT,
                forall|q: int| 0 <= q < k ==> !#[trigger] self@.keys[q],
            decreases KEY_COUNT - k,
        {
            if self.input[k] {
                assert(self@.keys[k as int]);
                return true;
            }
            k += 1;
        }
        false
    }

    /// The key wait: the program counter goes back to the instruction
    /// unless a key is held.
    fn wait_for_key(&mut self) -> (result: Result<(), Fault>)
        ensures
            follows(old(self)@, final(self)@, result, semantics::wait_for_key(old(self)@)),
    {
        if self.any_key_held() {
            return Ok(());
        }
        if self.pc < 2 {
            return Err(Fault::AddressOverflow);
        }
        self.pc -= 2;
        Ok(())
    }

    /// Stores the decimal digits of register `x` at the index register.
    fn store_decimal(&mut self, x: usize) -> (result: Result<(), Fault>)
        requires
            x < REGISTER_COUNT,
        ensures
            follows(
                old(self)@,
                final(self)@,
                result,
                semantics::store_decimal(old(self)@, x as int),
            ),
    {
        let num: u8 = self.registers[x];
        let index: usize = self.index_register as usize;
        if index + 2 >= MEMORY_SIZE {
            return Err(Fault::MemoryOutOfBounds);
        }
        self.memory[index] = (num / 100) % 10;
        self.memory[index + 1] = (num / 10) % 10;
        self.memory[index + 2] = num % 10;
        Ok(())
    }

    /// Copies the registers up to `x` to memory at the index register.
    fn store_registers(&mut self, x: usize) -> (result: Result<(), Fault>)
        requires
            x < REGISTER_COUNT,
        ensures
            follows(
                old(self)@,
                final(self)@,
                result,
                semantics::store_registers(old(self)@, x as int),
            ),
    {
        let base: usize = self.index_register as usize;
        if base + x >= MEMORY_SIZE {
            return Err(Fault::MemoryOutOfBounds);
        }
        let mut i: usize = 0;
        while i <= x
            invariant
                i <= x + 1,
                x < REGISTER_COUNT,
                base + x < MEMORY_SIZE,
                base == old(self)@.index,
                self@ == (MachineState { memory: self@.memory, ..old(self)@ }),
                self@.memory =~= Seq::new(
                    MEMORY_SIZE as nat,
                    |a: int|
                        if base <= a < base + i {
                            old(self)@.registers[a - base]
                        } else {
                            old(self)@.memory[a]
                        },
                ),
            decreases x + 1 - i,
        {
            self.memory[base + i] = self.registers[i];
            i += 1;
        }
        assert(self@.memory =~= semantics::store_registers(old(self)@, x as int).unwrap().memory);
        Ok(())
    }

    /// Fills the registers up to `x` from memory at the index register.
    fn load_registers(&mut self, x: usize) -> (result: Result<(), Fault>)
        requires
            x < REGISTER_COUNT,
        ensures
            follows(
                old(self)@,
                final(self)@,
                result,
                semantics::load_registers(old(self)@, x as int),
            ),
    {
        let base: usize = self.index_register as usize;
        if base + x >= MEMORY_SIZE {
            return Err(Fault::MemoryOutOfBounds);
        }
        let mut i: usize = 0;
        while i <= x
            invariant
                i <= x + 1,
                x < REGISTER_COUNT,
                base + x < MEMORY_SIZE,
                base == old(self)@.index,
                self@ == (MachineState { registers: self@.registers, ..old(self)@ }),
                self@.registers =~= Seq::new(
                    REGISTER_COUNT as nat,
                    |k: int|
                        if k < i {
                            old(self)@.memory[base + k]
                        } else {
                            old(self)@.registers[k]
                        },
                ),
            decreases x + 1 - i,
        {
            self.registers[i] = self.memory[base + i];
            i += 1;
        }
        assert(self@.registers =~= semantics::load_registers(
            old(self)@,
            x as int,
        ).unwrap().registers);
        Ok(())
    }

    /// The instructions `FXNN`.
    fn miscellany(&mut self, x: usize, nn: u8) -> (result: Result<(), Fault>)
        requires
            x < REGISTER_COUNT,
        ensures
            follows(
                old(self)@,
                final(self)@,
                result,
                semantics::miscellany(old(self)@, x as int, nn),
            ),
    {
        let vx: u8 = self.registers[x];
        match nn {
            0x07 => {
                self.registers[x] = self.delay_timer;
                Ok(())
            },
            0x15 => {
                self.delay_timer = vx;
                Ok(())
            },
            0x18 => {
                self.sound_timer = vx;
                Ok(())
            },
            0x1e => {
                if self.index_register > u16::MAX - vx as u16 {
                    Err(Fault::AddressOverflow)
                } else {
                    self.index_register += vx as u16;
                    Ok(())
                }
            },
            0x0a => self.wait_for_key(),
            0x29 => {
                let digit: u8 = vx & 0b1111;
                assert(vx & 0b1111 == vx % 16) by (bit_vector);
                self.index_register = FONT_BASE + GLYPH_BYTES * digit as u16;
                Ok(())
            },
            0x33 => self.store_decimal(x),
            0x55 => self.store_registers(x),
            0x65 => self.load_registers(x),
            _ => Ok(()),
        }
    }

    /// The key instructions `EXNN`.
    fn keypad(&mut self, x: usize, nn: u8) -> (result: Result<(), Fault>)
        requires
            x < REGISTER_COUNT,
        ensures
            follows(old(self)@, final(self)@, result, semantics::keypad(old(self)@, x as int, nn)),
    {
        if nn == 0x9e || nn == 0xa1 {
            let key: usize = self.registers[x] as usize;
            if key >= KEY_COUNT {
                return Err(Fault::KeyOutOfRange);
            }
            let held: bool = self.input[key];
            self.skip_if(held == (nn == 0x9e))
        } else {
            Ok(())
        }
    }

    /// Executes `instruction` with `random` as the number that the random
    /// source gave. The program counter is taken to stand behind the
    /// instruction already, as it does after a fetch.
    pub fn execute_with(&mut self, instruction: u16, random: u32) -> (result: Result<(), Fault>)
        ensures
            follows(old(self)@, final(self)@, result, execute(old(self)@, instruction, random)),
    {
        let f = decode(instruction);
        proof {
            lemma_fields_recompose(instruction);
            self.lemma_view_wf();
        }
        let x: usize = f.n2 as usize;
        let y: usize = f.n3 as usize;
        match f.n1 {
            0x0 => {
                if instruction == 0x00e0 {
                    self.clear_screen();
                    Ok(())
                } else if instruction == 0x00ee {
                    match self.stack.pop() {
                        Some(address) => {
                            self.pc = address;
                            Ok(())
                        },
                        None => Err(Fault::StackUnderflow),
                    }
                } else {
                    Ok(())
                }
            },
            0x1 => {
                self.pc = f.nnn;
                Ok(())
            },
            0x2 => {
                self.stack.push(self.pc);
                self.pc = f.nnn;
                Ok(())
            },
            0x3 => self.skip_if(self.registers[x] == f.nn),
            0x4 => self.skip_if(self.registers[x] != f.nn),
            0x5 => self.skip_if(self.registers[x] == self.registers[y]),
            0x6 => {
                self.registers[x] = f.nn;
                Ok(())
            },
            0x7 => {
                let sum: u16 = self.registers[x] as u16 + f.nn as u16;
                self.registers[x] = (sum % 256) as u8;
                Ok(())
            },
            0x8 => {
                self.arithmetic(x, y, f.n4);
                Ok(())
            },
            0x9 => self.skip_if(self.registers[x] != self.registers[y]),
            0xa => {
                self.index_register = f.nnn;
                Ok(())
            },
            0xb => {
                self.pc = f.nnn + self.registers[0] as u16;
                Ok(())
            },
            0xc => {
                let nibble: u8 = (random & 0b1111) as u8;
                assert((random & 0b1111) as u8 == (random % 16) as u8) by (bit_vector);
                self.registers[x] = nibble & f.nn;
                Ok(())
            },
            0xd => {
                let sx: u8 = self.registers[x] % (DISPLAY_WIDTH as u8);
                let sy: u8 = self.registers[y] % (DISPLAY_HEIGHT as u8);
                self.draw_sprite(sx, sy, f.n4)
            },
            0xe => self.keypad(x, f.nn),
            _ => self.miscellany(x, f.nn),
        }
    }

    /// Executes `instruction`, taking a number from the random source where
    /// the instruction asks for one. The program counter is taken to stand
    /// behind the instruction already, as it does after a fetch.
    pub fn execute_instruction(&mut self, instruction: u16) -> (result: Result<(), Fault>)
        ensures
            exists|random: u32|
                follows(
                    old(self)@,
                    final(self)@,
                    result,
                    #[trigger] execute(old(self)@, instruction, random),
                ),
            fields(instruction).n1 != 0xC ==> follows(
                old(self)@,
                final(self)@,
                result,
                execute(old(self)@, instruction, 0),
            ),
    {
        let random: u32 = if decode(instruction).n1 == 0xc {
            next_random(&mut self.rng)
        } else {
            0
        };
        self.execute_with(instruction, random)
    }

    /// One cycle: fetches the instruction at the program counter and
    /// executes it.
    pub fn update(&mut self) -> (result: Result<(), Fault>)
        ensures
            exists|random: u32|
                follows(old(self)@, final(self)@, result, #[trigger] cycle(old(self)@, random)),
            (fetch(old(self)@) matches Ok((word, _)) && fields(word).n1 == 0xC) || follows(
                old(self)@,
                final(self)@,
                result,
                cycle(old(self)@, 0),
            ),
    {
        let pc: u16 = self.pc;
        match self.fetch_instruction() {
            Ok(instruction) => {
                let ghost fetched = self@;
                let result = self.execute_instruction(instruction);
                let ghost random = choose|random: u32|
                    follows(
                        fetched,
                        self@,
                        result,
                        #[trigger] execute(fetched, instruction, random),
                    );
                if result.is_err() {
                    self.pc = pc;
                }
                assert(follows(old(self)@, self@, result, cycle(old(self)@, random)));
                result
            },
            Err(fault) => {
                assert(follows(old(self)@, self@, Err::<(), Fault>(fault), cycle(old(self)@, 0)));
                Err(fault)
            },
        }
    }
}

} // verus!
