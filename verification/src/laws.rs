//! Laws of the machine, proved of the model that the executable machine is
//! proved to follow.

use vstd::prelude::*;
use crate::decode::{
    encode, encode_address, encode_byte, fields, lemma_fields_of_encode,
    lemma_fields_of_encode_address, lemma_fields_of_encode_byte, lemma_fields_recompose,
};
use crate::fault::Fault;
use crate::semantics::{
    collides, cycle, execute, fetch, flag, sprite_covers, tick, ticks, word_at,
};
use crate::state::{
    MachineState, DISPLAY_HEIGHT, DISPLAY_WIDTH, FLAG, MEMORY_SIZE, REGISTER_COUNT,
};

verus! {

/// Executing an instruction keeps the sizes of the machine.
pub proof fn law_execute_keeps_sizes(s: MachineState, word: u16, random: u32)
    requires
        s.wf(),
    ensures
        execute(s, word, random) matches Ok(next) ==> next.wf(),
{
    lemma_fields_recompose(word);
}

/// A cycle keeps the sizes of the machine.
pub proof fn law_cycle_keeps_sizes(s: MachineState, random: u32)
    requires
        s.wf(),
    ensures
        cycle(s, random) matches Ok(next) ==> next.wf(),
{
    if let Ok((word, fetched)) = fetch(s) {
        law_execute_keeps_sizes(fetched, word, random);
    }
}

/// What an instruction leaves alone. No instruction touches the keys. Only
/// `00E0` and `DXYN` change the display, only `FX33` and `FX55` memory, only
/// `2NNN` and `00EE` the call stack, only `FX15` the delay timer and only
/// `FX18` the sound timer.
pub proof fn law_execute_frame(s: MachineState, word: u16, random: u32)
    requires
        s.wf(),
    ensures
        execute(s, word, random) matches Ok(next) ==> {
            let f = fields(word);
            &&& next.keys == s.keys
            &&& word != 0x00E0 && f.n1 != 0xD ==> next.display == s.display
            &&& !(f.n1 == 0xF && (f.nn == 0x33 || f.nn == 0x55)) ==> next.memory == s.memory
            &&& word != 0x00EE && f.n1 != 0x2 ==> next.stack == s.stack
            &&& !(f.n1 == 0xF && f.nn == 0x15) ==> next.delay_timer == s.delay_timer
            &&& !(f.n1 == 0xF && f.nn == 0x18) ==> next.sound_timer == s.sound_timer
        },
{
    lemma_fields_recompose(word);
    assert(0x00EEu16 / 0x1000 == 0 && 0x00E0u16 / 0x1000 == 0) by (bit_vector);
}

/// A frame tick raises neither timer.
pub proof fn law_tick_never_raises(s: MachineState)
    ensures
        tick(s).delay_timer <= s.delay_timer,
        tick(s).sound_timer <= s.sound_timer,
{
}

/// Only the instructions `CXNN` look at the number of the random source.
pub proof fn law_random_only_in_cxnn(s: MachineState, word: u16, r1: u32, r2: u32)
    requires
        fields(word).n1 != 0xC,
    ensures
        execute(s, word, r1) == execute(s, word, r2),
{
}

/// `CXNN` puts in VX a number below sixteen that has no bit outside `NN`.
pub proof fn law_random_is_masked(s: MachineState, x: u8, nn: u8, random: u32)
    requires
        s.wf(),
        x < 16,
    ensures
        execute(s, encode_byte(0xC, x, nn), random) matches Ok(next) && next.registers[x as int]
            < 16 && next.registers[x as int] & nn == next.registers[x as int],
{
    lemma_fields_of_encode_byte(0xC, x, nn);
    let nibble = (random % 16) as u8;
    assert((nibble & nn) < 16 && (nibble & nn) & nn == nibble & nn) by (bit_vector)
        requires
            nibble < 16,
    ;
}

/// `1NNN` moves the program counter to `NNN` and changes nothing else.
pub proof fn law_jump(s: MachineState, nnn: u16, random: u32)
    requires
        nnn < 0x1000,
    ensures
        execute(s, encode_address(0x1, nnn), random) == Ok::<MachineState, Fault>(
            MachineState { pc: nnn, ..s },
        ),
{
    lemma_fields_of_encode_address(0x1, nnn);
}

/// A call followed by a return is back where it started: `2NNN` puts the
/// program counter on the stack and goes to `NNN`, and `00EE` after it
/// takes that address off the stack again, so that the machine is as it
/// was before the call.
pub proof fn law_call_then_return(s: MachineState, nnn: u16, r1: u32, r2: u32)
    requires
        nnn < 0x1000,
    ensures
        execute(s, encode_address(0x2, nnn), r1) matches Ok(called) && called.pc == nnn
            && called.stack == s.stack.push(s.pc) && execute(called, 0x00EE, r2) == Ok::<
            MachineState,
            Fault,
        >(s),
{
    lemma_fields_of_encode_address(0x2, nnn);
    assert(0x00EEu16 / 0x1000 == 0) by (bit_vector);
    assert(s.stack.push(s.pc).drop_last() =~= s.stack);
}

/// A return with nothing on the stack is refused.
pub proof fn law_return_needs_a_call(s: MachineState, random: u32)
    ensures
        execute(s, 0x00EE, random) is Err <==> s.stack.len() == 0,
        execute(s, 0x00EE, random) is Err ==> execute(s, 0x00EE, random) == Err::<
            MachineState,
            Fault,
        >(Fault::StackUnderflow),
{
    assert(0x00EEu16 / 0x1000 == 0) by (bit_vector);
}

/// After `6XNN` register VX holds `NN`, and nothing else has changed.
pub proof fn law_load_immediate(s: MachineState, x: u8, nn: u8, random: u32)
    requires
        s.wf(),
        x < 16,
    ensures
        execute(s, encode_byte(0x6, x, nn), random) matches Ok(next) && next.registers[x as int]
            == nn && next == (MachineState { registers: s.registers.update(x as int, nn), ..s }),
{
    lemma_fields_of_encode_byte(0x6, x, nn);
}

/// After `7XNN` register VX holds the sum of VX and `NN` modulo 256, and no
/// other register, VF included, has changed.
pub proof fn law_add_immediate_wraps(s: MachineState, x: u8, nn: u8, random: u32)
    requires
        s.wf(),
        x < 16,
    ensures
        execute(s, encode_byte(0x7, x, nn), random) matches Ok(next) && next.registers[x as int]
            == (s.registers[x as int] + nn) % 256 && (forall|k: int|
            0 <= k < REGISTER_COUNT && k != x ==> next.registers[k] == s.registers[k]),
{
    lemma_fields_of_encode_byte(0x7, x, nn);
}

/// After `8XY4`, with VX not the flag register, VX holds the sum of VX and
/// VY modulo 256 and VF tells whether the sum went beyond 255.
pub proof fn law_add_registers_carries(s: MachineState, x: u8, y: u8, random: u32)
    requires
        s.wf(),
        x < 15,
        y < 16,
    ensures
        execute(s, encode(0x8, x, y, 0x4), random) matches Ok(next) && next.registers[x as int]
            == (s.registers[x as int] + s.registers[y as int]) % 256 && next.registers[FLAG as int]
            == flag(s.registers[x as int] + s.registers[y as int] > 255),
{
    lemma_fields_of_encode(0x8, x, y, 0x4);
}

/// After `8XY5` VF tells whether VX was at least VY, and VX, unless it is
/// the flag register, holds VX less VY modulo 256.
pub proof fn law_subtract_borrows(s: MachineState, x: u8, y: u8, random: u32)
    requires
        s.wf(),
        x < 16,
        y < 16,
    ensures
        execute(s, encode(0x8, x, y, 0x5), random) matches Ok(next) && next.registers[FLAG as int]
            == flag(s.registers[x as int] >= s.registers[y as int]) && (x != FLAG
            ==> next.registers[x as int] == (s.registers[x as int] - s.registers[y as int]) % 256),
{
    lemma_fields_of_encode(0x8, x, y, 0x5);
}

/// After `8XY7` VF tells whether VY was at least VX, and VY, unless it is
/// the flag register, holds VY less VX modulo 256; VX is as it was unless
/// it is VY or the flag register.
pub proof fn law_reverse_subtract_writes_vy(s: MachineState, x: u8, y: u8, random: u32)
    requires
        s.wf(),
        x < 16,
        y < 16,
    ensures
        execute(s, encode(0x8, x, y, 0x7), random) matches Ok(next) && next.registers[FLAG as int]
            == flag(s.registers[y as int] >= s.registers[x as int]) && (y != FLAG
            ==> next.registers[y as int] == (s.registers[y as int] - s.registers[x as int]) % 256)
            && (x != y && x != FLAG ==> next.registers[x as int] == s.registers[x as int]),
{
    lemma_fields_of_encode(0x8, x, y, 0x7);
}

/// After `00E0` no pixel is lit, whatever was drawn before, and nothing
/// but the display has changed.
pub proof fn law_clear_blanks_display(s: MachineState, random: u32)
    requires
        s.wf(),
    ensures
        execute(s, 0x00E0, random) matches Ok(next) && next.is_blank() && next == (MachineState {
            display: next.display,
            ..s
        }),
{
    assert(0x00E0u16 / 0x1000 == 0) by (bit_vector);
}

/// A sprite drawn on a blank display lights exactly the pixels that are set
/// in it, and leaves VF at zero.
pub proof fn law_draw_on_blank(s: MachineState, x: u8, y: u8, n: u8, random: u32)
    requires
        s.wf(),
        s.is_blank(),
        x < 16,
        y < 16,
        n < 16,
        s.index + n <= MEMORY_SIZE,
    ensures
        execute(s, encode(0xD, x, y, n), random) matches Ok(next) && next.registers[FLAG as int]
            == 0 && (forall|px: int, py: int|
            0 <= px < DISPLAY_WIDTH && 0 <= py < DISPLAY_HEIGHT ==> #[trigger] next.pixel(px, py)
                == sprite_covers(
                s,
                s.registers[x as int] as int % 64,
                s.registers[y as int] as int % 32,
                n as int,
                px,
                py,
            )),
{
    lemma_fields_of_encode(0xD, x, y, n);
    let ox = s.registers[x as int] as int % 64;
    let oy = s.registers[y as int] as int % 32;
    assert(!collides(s, ox, oy, n as int)) by {
        assert forall|px: int, py: int|
            0 <= px < DISPLAY_WIDTH && 0 <= py < DISPLAY_HEIGHT implies !(s.pixel(px, py)
            && #[trigger] sprite_covers(s, ox, oy, n as int, px, py)) by {
            assert(!s.pixel(px, py));
        }
    }
    let next = execute(s, encode(0xD, x, y, n), random).unwrap();
    assert forall|px: int, py: int|
        0 <= px < DISPLAY_WIDTH && 0 <= py < DISPLAY_HEIGHT implies #[trigger] next.pixel(px, py)
        == sprite_covers(s, ox, oy, n as int, px, py) by {
        assert(!s.pixel(px, py));
    }
}

/// Whether the sprite placed at `(ox, oy)` has a set pixel on an unlit
/// pixel of the display.
pub open spec fn lights(s: MachineState, ox: int, oy: int, height: int) -> bool {
    exists|x: int, y: int|
        0 <= x < DISPLAY_WIDTH && 0 <= y < DISPLAY_HEIGHT && !s.pixel(x, y) && #[trigger] sprite_covers(
            s,
            ox,
            oy,
            height,
            x,
            y,
        )
}

/// The same sprite drawn twice at the same place leaves the display as it
/// was before the first drawing. The second drawing sets VF exactly if the
/// first one lit a pixel, that is if the sprite has a set pixel on the
/// display where none was lit. The registers that place the sprite must not
/// be the flag register, which the first drawing writes.
pub proof fn law_draw_twice_restores(s: MachineState, x: u8, y: u8, n: u8, r1: u32, r2: u32)
    requires
        s.wf(),
        x < 15,
        y < 15,
        n < 16,
        s.index + n <= MEMORY_SIZE,
    ensures
        execute(s, encode(0xD, x, y, n), r1) matches Ok(once) && execute(
            once,
            encode(0xD, x, y, n),
            r2,
        ) matches Ok(twice) && twice.display == s.display && twice.registers[FLAG as int] == flag(
            lights(
                s,
                s.registers[x as int] as int % 64,
                s.registers[y as int] as int % 32,
                n as int,
            ),
        ),
{
    lemma_fields_of_encode(0xD, x, y, n);
    let word = encode(0xD, x, y, n);
    let ox = s.registers[x as int] as int % 64;
    let oy = s.registers[y as int] as int % 32;
    let h = n as int;
    let once = execute(s, word, r1).unwrap();
    let twice = execute(once, word, r2).unwrap();
    assert forall|px: int, py: int| #[trigger]
        sprite_covers(once, ox, oy, h, px, py) == sprite_covers(s, ox, oy, h, px, py) by {}
    assert forall|py: int| 0 <= py < DISPLAY_HEIGHT implies #[trigger] twice.display[py]
        =~= s.display[py] by {
        assert forall|px: int| 0 <= px < DISPLAY_WIDTH implies twice.display[py][px]
            == s.display[py][px] by {
            assert(once.display[py][px] == (s.display[py][px] != sprite_covers(
                s,
                ox,
                oy,
                h,
                px,
                py,
            )));
        }
    }
    assert(twice.display =~= s.display);
    if collides(once, ox, oy, h) {
        let (px, py) = choose|px: int, py: int|
            0 <= px < DISPLAY_WIDTH && 0 <= py < DISPLAY_HEIGHT && once.pixel(px, py)
                && #[trigger] sprite_covers(once, ox, oy, h, px, py);
        assert(sprite_covers(s, ox, oy, h, px, py));
        assert(!s.pixel(px, py));
    }
    if lights(s, ox, oy, h) {
        let (px, py) = choose|px: int, py: int|
            0 <= px < DISPLAY_WIDTH && 0 <= py < DISPLAY_HEIGHT && !s.pixel(px, py)
                && #[trigger] sprite_covers(s, ox, oy, h, px, py);
        assert(sprite_covers(once, ox, oy, h, px, py));
        assert(once.pixel(px, py));
    }
}

/// After `FX33` the three bytes at the index register are decimal digits
/// that spell VX: hundreds, tens, ones. No other byte has changed.
pub proof fn law_decimal_digits(s: MachineState, x: u8, random: u32)
    requires
        s.wf(),
        x < 16,
        s.index + 2 < MEMORY_SIZE,
    ensures
        execute(s, encode_byte(0xF, x, 0x33), random) matches Ok(next) && ({
            let a = s.index as int;
            let v = s.registers[x as int];
            &&& next.memory[a] == v / 100
            &&& next.memory[a + 1] == v / 10 % 10
            &&& next.memory[a + 2] == v % 10
            &&& next.memory[a] < 10 && next.memory[a + 1] < 10 && next.memory[a + 2] < 10
            &&& 100 * next.memory[a] + 10 * next.memory[a + 1] + next.memory[a + 2] == v
            &&& forall|b: int|
                0 <= b < MEMORY_SIZE && !(a <= b <= a + 2) ==> next.memory[b] == s.memory[b]
        }),
{
    lemma_fields_of_encode_byte(0xF, x, 0x33);
    let v = s.registers[x as int];
    assert(v / 100 < 10 && v / 10 % 10 < 10 && v % 10 < 10 && 100 * (v / 100) + 10 * (v / 10 % 10)
        + v % 10 == v) by (bit_vector);
}

/// A timer that stands at `timer` stands, `n` frame ticks later, at `timer`
/// less `n`, or at zero where that would be less than zero.
pub open spec fn counted_down(timer: u8, n: nat) -> u8 {
    if timer >= n {
        (timer - n) as u8
    } else {
        0
    }
}

/// `n` frame ticks take `n` from each timer and stop at zero; they change
/// nothing else.
pub proof fn law_timers_stop_at_zero(s: MachineState, n: nat)
    ensures
        ticks(s, n) == (MachineState {
            delay_timer: counted_down(s.delay_timer, n),
            sound_timer: counted_down(s.sound_timer, n),
            ..s
        }),
    decreases n,
{
    if n > 0 {
        law_timers_stop_at_zero(tick(s), (n - 1) as nat);
    }
}

/// While no key is held, a cycle on the key wait `FX0A` leaves the whole
/// machine as it was, the program counter included. Once a key is held, the
/// cycle moves the program counter to the next instruction and changes
/// nothing else.
pub proof fn law_key_wait_holds_program_counter(s: MachineState, random: u32)
    requires
        s.wf(),
        s.pc + 1 < MEMORY_SIZE,
        fields(word_at(s, s.pc as int)).n1 == 0xF,
        fields(word_at(s, s.pc as int)).nn == 0x0A,
    ensures
        !s.any_key_held() ==> cycle(s, random) == Ok::<MachineState, Fault>(s),
        s.any_key_held() ==> cycle(s, random) == Ok::<MachineState, Fault>(
            MachineState { pc: (s.pc + 2) as u16, ..s },
        ),
{
    let fetched = MachineState { pc: (s.pc + 2) as u16, ..s };
    assert(fetched.any_key_held() == s.any_key_held());
    if !s.any_key_held() {
        assert((MachineState { pc: (fetched.pc - 2) as u16, ..fetched }) == s);
    }
}

/// What `FX55` stored, `FX65` with the same index register reads back:
/// whatever the registers hold in between, afterwards V0 to VX are as they
/// were when they were stored.
pub proof fn law_store_then_load(s: MachineState, between: MachineState, x: u8, r1: u32, r2: u32)
    requires
        s.wf(),
        between.wf(),
        x < 16,
        s.index + x < MEMORY_SIZE,
        execute(s, encode_byte(0xF, x, 0x55), r1) matches Ok(stored) && between.memory
            == stored.memory && between.index == stored.index,
    ensures
        execute(between, encode_byte(0xF, x, 0x65), r2) matches Ok(loaded) && (forall|k: int|
            0 <= k <= x ==> loaded.registers[k] == s.registers[k]),
{
    lemma_fields_of_encode_byte(0xF, x, 0x55);
    lemma_fields_of_encode_byte(0xF, x, 0x65);
}

} // verus!
