use chip8::{Chip8, Fault};
use rand::rngs::SmallRng;
use rand::SeedableRng;

fn machine() -> Chip8 {
    Chip8::with_rng(SmallRng::seed_from_u64(0x5EED))
}

fn run(chip8: &mut Chip8, words: &[u16]) {
    for word in words {
        assert_eq!(chip8.execute_with(*word, 0), Ok(()));
    }
}

#[test]
fn load_immediate_sets_the_register() {
    for x in 0..16u16 {
        let mut chip8 = machine();
        run(&mut chip8, &[0x6000 | (x << 8) | 0x42]);
        assert_eq!(chip8.get_registers()[x as usize], 0x42);
        for other in 0..16usize {
            if other != x as usize {
                assert_eq!(chip8.get_registers()[other], 0);
            }
        }
    }
}

#[test]
fn load_immediate_leaves_the_rest_alone() {
    let mut chip8 = machine();
    run(&mut chip8, &[0x6AFF]);
    assert_eq!(chip8.get_pc(), 0x200);
    assert_eq!(chip8.get_index_register(), 0);
    assert!(chip8.get_stack().is_empty());
}

#[test]
fn add_immediate_wraps_without_a_flag() {
    let mut chip8 = machine();
    run(&mut chip8, &[0x63FA, 0x730A]);
    assert_eq!(chip8.get_registers()[3], 4);
    assert_eq!(chip8.get_registers()[15], 0);
}

#[test]
fn add_immediate_without_wrap() {
    let mut chip8 = machine();
    run(&mut chip8, &[0x6005, 0x7007]);
    assert_eq!(chip8.get_registers()[0], 12);
}

#[test]
fn copy_register() {
    let mut chip8 = machine();
    run(&mut chip8, &[0x6133, 0x8210]);
    assert_eq!(chip8.get_registers()[2], 0x33);
    assert_eq!(chip8.get_registers()[1], 0x33);
}

#[test]
fn bitwise_or_and_xor() {
    let mut chip8 = machine();
    run(&mut chip8, &[0x60F0, 0x613C, 0x8011]);
    assert_eq!(chip8.get_registers()[0], 0xFC);
    run(&mut chip8, &[0x60F0, 0x8012]);
    assert_eq!(chip8.get_registers()[0], 0x30);
    run(&mut chip8, &[0x60F0, 0x8013]);
    assert_eq!(chip8.get_registers()[0], 0xCC);
    assert_eq!(chip8.get_registers()[1], 0x3C);
}

#[test]
fn add_registers_with_carry() {
    let mut chip8 = machine();
    run(&mut chip8, &[0x61C8, 0x6264, 0x8124]);
    assert_eq!(chip8.get_registers()[1], 44);
    assert_eq!(chip8.get_registers()[15], 1);
}

#[test]
fn add_registers_without_carry() {
    let mut chip8 = machine();
    run(&mut chip8, &[0x6F01, 0x610A, 0x6205, 0x8124]);
    assert_eq!(chip8.get_registers()[1], 15);
    assert_eq!(chip8.get_registers()[15], 0);
}

#[test]
fn add_into_the_flag_register_keeps_the_sum() {
    let mut chip8 = machine();
    run(&mut chip8, &[0x6FC8, 0x6164, 0x8F14]);
    assert_eq!(chip8.get_registers()[15], 44);
}

#[test]
fn subtract_with_borrow() {
    let mut chip8 = machine();
    run(&mut chip8, &[0x6F01, 0x6105, 0x620A, 0x8125]);
    assert_eq!(chip8.get_registers()[15], 0);
    assert_eq!(chip8.get_registers()[1], 251);
    assert_eq!(chip8.get_registers()[2], 10);
}

#[test]
fn subtract_without_borrow() {
    let mut chip8 = machine();
    run(&mut chip8, &[0x610A, 0x6205, 0x8125]);
    assert_eq!(chip8.get_registers()[15], 1);
    assert_eq!(chip8.get_registers()[1], 5);
}

#[test]
fn subtract_equal_values_sets_the_flag() {
    let mut chip8 = machine();
    run(&mut chip8, &[0x6107, 0x6207, 0x8125]);
    assert_eq!(chip8.get_registers()[15], 1);
    assert_eq!(chip8.get_registers()[1], 0);
}

#[test]
fn subtract_into_the_flag_register_keeps_the_flag() {
    let mut chip8 = machine();
    run(&mut chip8, &[0x6F05, 0x610A, 0x8F15]);
    assert_eq!(chip8.get_registers()[15], 0);
    run(&mut chip8, &[0x6F0A, 0x6105, 0x8F15]);
    assert_eq!(chip8.get_registers()[15], 1);
}

#[test]
fn reverse_subtract_writes_the_second_register() {
    let mut chip8 = machine();
    run(&mut chip8, &[0x6105, 0x620A, 0x8127]);
    assert_eq!(chip8.get_registers()[1], 5);
    assert_eq!(chip8.get_registers()[2], 5);
    assert_eq!(chip8.get_registers()[15], 1);
}

#[test]
fn reverse_subtract_with_borrow() {
    let mut chip8 = machine();
    run(&mut chip8, &[0x610A, 0x6205, 0x8127]);
    assert_eq!(chip8.get_registers()[1], 10);
    assert_eq!(chip8.get_registers()[2], 251);
    assert_eq!(chip8.get_registers()[15], 0);
}

#[test]
fn shift_right_moves_bit_zero_to_the_flag() {
    let mut chip8 = machine();
    run(&mut chip8, &[0x6105, 0x62FF, 0x8126]);
    assert_eq!(chip8.get_registers()[1], 2);
    assert_eq!(chip8.get_registers()[2], 0xFF);
    assert_eq!(chip8.get_registers()[15], 1);
    run(&mut chip8, &[0x8126]);
    assert_eq!(chip8.get_registers()[1], 1);
    assert_eq!(chip8.get_registers()[15], 0);
}

#[test]
fn shift_right_of_the_flag_register() {
    let mut chip8 = machine();
    run(&mut chip8, &[0x6F07, 0x8F06]);
    assert_eq!(chip8.get_registers()[15], 0);
}

#[test]
fn shift_left_moves_bit_seven_to_the_flag() {
    let mut chip8 = machine();
    run(&mut chip8, &[0x6181, 0x812E]);
    assert_eq!(chip8.get_registers()[1], 0x02);
    assert_eq!(chip8.get_registers()[15], 1);
    run(&mut chip8, &[0x812E]);
    assert_eq!(chip8.get_registers()[1], 0x04);
    assert_eq!(chip8.get_registers()[15], 0);
}

#[test]
fn shift_left_of_the_flag_register() {
    let mut chip8 = machine();
    run(&mut chip8, &[0x6F81, 0x8F0E]);
    assert_eq!(chip8.get_registers()[15], 2);
}

#[test]
fn unknown_register_operation_does_nothing() {
    let mut chip8 = machine();
    run(&mut chip8, &[0x6111, 0x6222, 0x6F33, 0x8128, 0x812F, 0x8129]);
    assert_eq!(chip8.get_registers()[1], 0x11);
    assert_eq!(chip8.get_registers()[2], 0x22);
    assert_eq!(chip8.get_registers()[15], 0x33);
}

#[test]
fn jump_sets_the_program_counter() {
    let mut chip8 = machine();
    run(&mut chip8, &[0x1ABC]);
    assert_eq!(chip8.get_pc(), 0xABC);
    assert!(chip8.get_stack().is_empty());
}

#[test]
fn jump_with_offset_adds_v0() {
    let mut chip8 = machine();
    run(&mut chip8, &[0x60FF, 0xBFFF]);
    assert_eq!(chip8.get_pc(), 0xFFF + 0xFF);
}

#[test]
fn call_pushes_and_return_pops() {
    let mut chip8 = machine();
    run(&mut chip8, &[0x2300]);
    assert_eq!(chip8.get_pc(), 0x300);
    assert_eq!(chip8.get_stack().as_slice(), &[0x200]);
    run(&mut chip8, &[0x2400]);
    assert_eq!(chip8.get_stack().as_slice(), &[0x200, 0x300]);
    run(&mut chip8, &[0x00EE]);
    assert_eq!(chip8.get_pc(), 0x300);
    assert_eq!(chip8.get_stack().as_slice(), &[0x200]);
    run(&mut chip8, &[0x00EE]);
    assert_eq!(chip8.get_pc(), 0x200);
    assert!(chip8.get_stack().is_empty());
}

#[test]
fn call_stack_has_no_sixteen_level_limit() {
    let mut chip8 = machine();
    for _ in 0..40 {
        run(&mut chip8, &[0x2300]);
    }
    assert_eq!(chip8.get_stack().len(), 40);
}

#[test]
fn return_with_an_empty_stack_is_a_fault() {
    let mut chip8 = machine();
    run(&mut chip8, &[0x6155]);
    assert_eq!(chip8.execute_instruction(0x00EE), Err(Fault::StackUnderflow));
    assert_eq!(chip8.get_pc(), 0x200);
    assert_eq!(chip8.get_registers()[1], 0x55);
    assert!(chip8.get_stack().is_empty());
}

#[test]
fn other_system_words_do_nothing() {
    let mut chip8 = machine();
    run(&mut chip8, &[0x0000, 0x0123, 0x00E1, 0x0FFF]);
    assert_eq!(chip8.get_pc(), 0x200);
    assert!(chip8.get_stack().is_empty());
}

#[test]
fn skip_if_register_equals_byte() {
    let mut chip8 = machine();
    run(&mut chip8, &[0x6142, 0x3142]);
    assert_eq!(chip8.get_pc(), 0x202);
    run(&mut chip8, &[0x3143]);
    assert_eq!(chip8.get_pc(), 0x202);
}

#[test]
fn skip_if_register_differs_from_byte() {
    let mut chip8 = machine();
    run(&mut chip8, &[0x6142, 0x4142]);
    assert_eq!(chip8.get_pc(), 0x200);
    run(&mut chip8, &[0x4143]);
    assert_eq!(chip8.get_pc(), 0x202);
}

#[test]
fn skip_if_registers_equal() {
    let mut chip8 = machine();
    run(&mut chip8, &[0x6107, 0x6207, 0x6308, 0x5120]);
    assert_eq!(chip8.get_pc(), 0x202);
    run(&mut chip8, &[0x5130]);
    assert_eq!(chip8.get_pc(), 0x202);
}

#[test]
fn skip_if_registers_differ() {
    let mut chip8 = machine();
    run(&mut chip8, &[0x6107, 0x6207, 0x6308, 0x9120]);
    assert_eq!(chip8.get_pc(), 0x200);
    run(&mut chip8, &[0x9130]);
    assert_eq!(chip8.get_pc(), 0x202);
}

#[test]
fn register_skips_dispatch_on_the_first_nibble_alone() {
    let mut chip8 = machine();
    run(&mut chip8, &[0x6107, 0x6207, 0x512F]);
    assert_eq!(chip8.get_pc(), 0x202);
    run(&mut chip8, &[0x6308, 0x913A]);
    assert_eq!(chip8.get_pc(), 0x204);
}

#[test]
fn skip_past_the_end_of_the_address_range_is_a_fault() {
    let mut chip8 = machine();
    run(&mut chip8, &[0x1FFE]);
    let mut expected: u32 = 0xFFE;
    while expected + 2 <= 0xFFFF {
        assert_eq!(chip8.execute_with(0x3000, 0), Ok(()));
        expected += 2;
        assert_eq!(chip8.get_pc() as u32, expected);
    }
    assert_eq!(chip8.get_pc(), 0xFFFE);
    assert_eq!(chip8.execute_with(0x3000, 0), Err(Fault::AddressOverflow));
    assert_eq!(chip8.get_pc(), 0xFFFE);
    assert_eq!(chip8.execute_with(0x3001, 0), Ok(()));
    assert_eq!(chip8.get_pc(), 0xFFFE);
}

#[test]
fn set_index_register() {
    let mut chip8 = machine();
    run(&mut chip8, &[0xA123]);
    assert_eq!(chip8.get_index_register(), 0x123);
}

#[test]
fn add_to_index_register() {
    let mut chip8 = machine();
    run(&mut chip8, &[0xAFFF, 0x61FF, 0xF11E]);
    assert_eq!(chip8.get_index_register(), 0xFFF + 0xFF);
}

#[test]
fn add_to_index_register_beyond_sixteen_bits_is_a_fault() {
    let mut chip8 = machine();
    run(&mut chip8, &[0xA000, 0x61FF]);
    for _ in 0..257 {
        run(&mut chip8, &[0xF11E]);
    }
    assert_eq!(chip8.get_index_register(), 0xFFFF);
    run(&mut chip8, &[0x6100, 0xF11E]);
    assert_eq!(chip8.get_index_register(), 0xFFFF);
    run(&mut chip8, &[0x6101]);
    assert_eq!(chip8.execute_instruction(0xF11E), Err(Fault::AddressOverflow));
    assert_eq!(chip8.get_index_register(), 0xFFFF);
    assert_eq!(chip8.get_registers()[1], 1);
}

#[test]
fn random_is_four_bits_masked_by_the_byte() {
    let mut chip8 = machine();
    assert_eq!(chip8.execute_with(0xC1FF, 0xFFFF_FFFB), Ok(()));
    assert_eq!(chip8.get_registers()[1], 0x0B);
    assert_eq!(chip8.execute_with(0xC209, 0xFFFF_FFFB), Ok(()));
    assert_eq!(chip8.get_registers()[2], 0x09);
    assert_eq!(chip8.execute_with(0xC3F0, 0x0000_00FF), Ok(()));
    assert_eq!(chip8.get_registers()[3], 0x00);
    assert_eq!(chip8.execute_with(0xC4FF, 0x1234_5670), Ok(()));
    assert_eq!(chip8.get_registers()[4], 0x00);
}

#[test]
fn random_from_the_machines_own_source_stays_in_range() {
    let mut chip8 = machine();
    let mut seen = [false; 16];
    for _ in 0..2000 {
        assert_eq!(chip8.execute_instruction(0xC5FF), Ok(()));
        let value = chip8.get_registers()[5];
        assert!(value < 16);
        seen[value as usize] = true;
        assert_eq!(chip8.execute_instruction(0xC606), Ok(()));
        assert_eq!(chip8.get_registers()[6] & !0x06, 0);
    }
    assert!(seen.iter().filter(|s| **s).count() > 1);
}

#[test]
fn other_instructions_draw_no_random_number() {
    let mut first = machine();
    let mut second = machine();
    run(&mut first, &[0xC1FF]);
    assert_eq!(second.execute_instruction(0x6A01), Ok(()));
    assert_eq!(second.execute_instruction(0x7A01), Ok(()));
    assert_eq!(second.execute_instruction(0xC1FF), Ok(()));
    let mut third = machine();
    assert_eq!(third.execute_instruction(0xC1FF), Ok(()));
    assert_eq!(second.get_registers()[1], third.get_registers()[1]);
    assert_eq!(first.get_registers()[1], 0);
}

#[test]
fn skip_if_key_held() {
    let mut chip8 = machine();
    chip8.set_key(0xA, true);
    run(&mut chip8, &[0x610A, 0xE19E]);
    assert_eq!(chip8.get_pc(), 0x202);
    run(&mut chip8, &[0x610B, 0xE19E]);
    assert_eq!(chip8.get_pc(), 0x202);
}

#[test]
fn skip_if_key_released() {
    let mut chip8 = machine();
    chip8.set_key(0xA, true);
    run(&mut chip8, &[0x610A, 0xE1A1]);
    assert_eq!(chip8.get_pc(), 0x200);
    run(&mut chip8, &[0x610B, 0xE1A1]);
    assert_eq!(chip8.get_pc(), 0x202);
    chip8.set_key(0xA, false);
    run(&mut chip8, &[0x610A, 0xE1A1]);
    assert_eq!(chip8.get_pc(), 0x204);
}

#[test]
fn key_instructions_refuse_a_key_above_fifteen() {
    let mut chip8 = machine();
    run(&mut chip8, &[0x6110]);
    assert_eq!(chip8.execute_instruction(0xE19E), Err(Fault::KeyOutOfRange));
    assert_eq!(chip8.execute_instruction(0xE1A1), Err(Fault::KeyOutOfRange));
    assert_eq!(chip8.get_pc(), 0x200);
    assert_eq!(chip8.execute_instruction(0xE100), Ok(()));
    assert_eq!(chip8.get_pc(), 0x200);
}

#[test]
fn delay_timer_moves_to_and_from_a_register() {
    let mut chip8 = machine();
    run(&mut chip8, &[0x6133, 0xF115]);
    assert_eq!(chip8.get_delay_timer(), 0x33);
    assert_eq!(chip8.get_sound_timer(), 0);
    run(&mut chip8, &[0xF207]);
    assert_eq!(chip8.get_registers()[2], 0x33);
}

#[test]
fn sound_timer_is_set_from_a_register() {
    let mut chip8 = machine();
    run(&mut chip8, &[0x6144, 0xF118]);
    assert_eq!(chip8.get_sound_timer(), 0x44);
    assert_eq!(chip8.get_delay_timer(), 0);
}

#[test]
fn font_address_of_a_digit() {
    for digit in 0..16u16 {
        let mut chip8 = machine();
        run(&mut chip8, &[0x6100 | digit, 0xF129]);
        assert_eq!(chip8.get_index_register(), 0x050 + 5 * digit);
    }
}

#[test]
fn font_address_uses_the_low_nibble_only() {
    let mut chip8 = machine();
    run(&mut chip8, &[0x61A7, 0xF129]);
    assert_eq!(chip8.get_index_register(), 0x050 + 5 * 7);
}

#[test]
fn decimal_digits_of_157() {
    let mut chip8 = machine();
    run(&mut chip8, &[0x619D, 0xA300, 0xF133]);
    assert_eq!(chip8.get_memory()[0x300], 1);
    assert_eq!(chip8.get_memory()[0x301], 5);
    assert_eq!(chip8.get_memory()[0x302], 7);
    assert_eq!(chip8.get_memory()[0x2FF], 0);
    assert_eq!(chip8.get_memory()[0x303], 0);
}

#[test]
fn decimal_digits_at_other_addresses_and_values() {
    let mut chip8 = machine();
    run(&mut chip8, &[0x61FF, 0xAFFD, 0xF133]);
    assert_eq!(&chip8.get_memory()[0xFFD..], &[2, 5, 5]);
    run(&mut chip8, &[0x6107, 0xA400, 0xF133]);
    assert_eq!(&chip8.get_memory()[0x400..0x403], &[0, 0, 7]);
}

#[test]
fn decimal_digits_beyond_memory_are_a_fault() {
    let mut chip8 = machine();
    run(&mut chip8, &[0x619D, 0xAFFE]);
    assert_eq!(chip8.execute_instruction(0xF133), Err(Fault::MemoryOutOfBounds));
    assert_eq!(chip8.get_memory()[0xFFE], 0);
    assert_eq!(chip8.get_memory()[0xFFF], 0);
}

#[test]
fn store_then_load_registers_round_trip() {
    let mut chip8 = machine();
    run(&mut chip8, &[0x6011, 0x6122, 0x6233, 0x6344, 0x6455, 0xA300, 0xF355]);
    assert_eq!(&chip8.get_memory()[0x300..0x305], &[0x11, 0x22, 0x33, 0x44, 0]);
    assert_eq!(chip8.get_index_register(), 0x300);
    run(&mut chip8, &[0x6000, 0x6100, 0x6200, 0x6300, 0x6400, 0xF365]);
    assert_eq!(&chip8.get_registers()[0..5], &[0x11, 0x22, 0x33, 0x44, 0]);
    assert_eq!(chip8.get_index_register(), 0x300);
}

#[test]
fn store_and_load_all_sixteen_registers() {
    let mut chip8 = machine();
    for x in 0..16u16 {
        run(&mut chip8, &[0x6000 | (x << 8) | (0xF0 + x)]);
    }
    run(&mut chip8, &[0xAFF0, 0xFF55]);
    for x in 0..16usize {
        assert_eq!(chip8.get_memory()[0xFF0 + x], 0xF0 + x as u8);
    }
    for x in 0..16u16 {
        run(&mut chip8, &[0x6000 | (x << 8)]);
    }
    run(&mut chip8, &[0xFF65]);
    for x in 0..16usize {
        assert_eq!(chip8.get_registers()[x], 0xF0 + x as u8);
    }
}

#[test]
fn store_only_the_first_register() {
    let mut chip8 = machine();
    run(&mut chip8, &[0x6011, 0x6122, 0xA300, 0xF055]);
    assert_eq!(&chip8.get_memory()[0x300..0x302], &[0x11, 0]);
}

#[test]
fn store_and_load_beyond_memory_are_faults() {
    let mut chip8 = machine();
    run(&mut chip8, &[0x6011, 0x6122, 0xAFFF]);
    assert_eq!(chip8.execute_instruction(0xF155), Err(Fault::MemoryOutOfBounds));
    assert_eq!(chip8.get_memory()[0xFFF], 0);
    assert_eq!(chip8.execute_instruction(0xF165), Err(Fault::MemoryOutOfBounds));
    assert_eq!(&chip8.get_registers()[0..2], &[0x11, 0x22]);
    assert_eq!(chip8.execute_instruction(0xF055), Ok(()));
    assert_eq!(chip8.get_memory()[0xFFF], 0x11);
}

#[test]
fn unknown_miscellany_does_nothing() {
    let mut chip8 = machine();
    run(&mut chip8, &[0x6111, 0xA123, 0xF1FF, 0xF100, 0xF134]);
    assert_eq!(chip8.get_registers()[1], 0x11);
    assert_eq!(chip8.get_index_register(), 0x123);
    assert_eq!(chip8.get_pc(), 0x200);
}

#[test]
fn key_wait_below_address_two_is_a_fault() {
    let mut chip8 = machine();
    run(&mut chip8, &[0x1001]);
    assert_eq!(chip8.execute_instruction(0xF00A), Err(Fault::AddressOverflow));
    assert_eq!(chip8.get_pc(), 1);
    chip8.set_key(3, true);
    assert_eq!(chip8.execute_instruction(0xF00A), Ok(()));
    assert_eq!(chip8.get_pc(), 1);
}

#[test]
fn key_wait_rewinds_once_per_execution() {
    let mut chip8 = machine();
    run(&mut chip8, &[0x1300, 0xF00A]);
    assert_eq!(chip8.get_pc(), 0x2FE);
    chip8.set_key(15, true);
    run(&mut chip8, &[0xF00A]);
    assert_eq!(chip8.get_pc(), 0x2FE);
    assert_eq!(chip8.get_registers()[0], 0);
}

#[test]
fn only_the_store_instructions_write_memory() {
    let mut chip8 = machine();
    chip8.load_to_memory(&[0xAA, 0xBB, 0xCC], 0x300);
    let before = *chip8.get_memory();
    run(
        &mut chip8,
        &[
            0x61FF, 0x6203, 0xA300, 0x8124, 0x8125, 0x8126, 0x812E, 0xD123, 0x00E0, 0x2400, 0x00EE,
            0xF115, 0xF118, 0xF207, 0xF11E, 0xF129, 0xF165, 0xC3FF, 0xB000,
        ],
    );
    assert_eq!(chip8.get_memory(), &before);
    run(&mut chip8, &[0xA300, 0xF033]);
    assert_ne!(chip8.get_memory(), &before);
}

#[test]
fn only_clear_and_draw_change_the_display() {
    let mut chip8 = machine();
    run(&mut chip8, &[0xA050, 0xD005]);
    let before = *chip8.get_display();
    run(
        &mut chip8,
        &[
            0x61FF, 0x6203, 0xA300, 0x8124, 0x8127, 0x2400, 0x00EE, 0xF115, 0xF207, 0xF11E, 0xF133,
            0xF255, 0xF265, 0xF129, 0xC3FF, 0x3000, 0x1200, 0x0123,
        ],
    );
    assert_eq!(chip8.get_display(), &before);
}

#[test]
fn a_call_then_a_return_is_back_where_it_started() {
    let mut chip8 = machine();
    run(&mut chip8, &[0x1ABC, 0x2DEF]);
    assert_eq!(chip8.get_pc(), 0xDEF);
    run(&mut chip8, &[0x00EE]);
    assert_eq!(chip8.get_pc(), 0xABC);
    assert!(chip8.get_stack().is_empty());
}
