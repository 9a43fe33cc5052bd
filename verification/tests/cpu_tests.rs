use chip8::EmuError;
use chip8::cpu::Cpu;
use chip8::cpu::Instruction;

fn ready_cpu(program: &[u8]) -> Cpu {
    let mut cpu = Cpu::new();
    cpu.init().unwrap();
    cpu.load_rom(&program.to_vec()).unwrap();
    cpu
}

#[test]
fn init_loads_the_font_and_sets_the_program_counter() {
    let mut cpu = Cpu::new();
    cpu.init().unwrap();
    assert_eq!(cpu.program_counter, 0x200);
    // glyph 0 starts with 0xF0, glyph F ends with 0x80
    assert_eq!(cpu.mem.read_byte(0x100), Ok(0xF0));
    assert_eq!(cpu.mem.read_byte(0x14F), Ok(0x80));
    assert_eq!(cpu.mem.read(0x100, 5), Ok(vec![0xF0, 0x90, 0x90, 0x90, 0xF0]));
}

#[test]
fn load_rom_too_large_reports_capacity() {
    let mut cpu = Cpu::new();
    cpu.init().unwrap();
    let r = cpu.load_rom(&vec![0u8; 4096 - 0x200 + 1]);
    assert_eq!(r, Err(EmuError::Capacity));
    assert_eq!(cpu.load_rom(&vec![0u8; 4096 - 0x200]), Ok(()));
}

#[test]
fn get_instruction_matches_the_table_in_order() {
    assert_eq!(Instruction::get_instruction(0x00E0), Some(Instruction::Cls));
    assert_eq!(Instruction::get_instruction(0x00EE), Some(Instruction::Ret));
    assert_eq!(Instruction::get_instruction(0x1ABC), Some(Instruction::Jump));
    assert_eq!(Instruction::get_instruction(0x2ABC), Some(Instruction::Call));
    assert_eq!(Instruction::get_instruction(0x3A12), Some(Instruction::SkipEqImm));
    assert_eq!(Instruction::get_instruction(0x6A12), Some(Instruction::LoadImm));
    assert_eq!(Instruction::get_instruction(0x7A12), Some(Instruction::AddImm));
    assert_eq!(Instruction::get_instruction(0x8AB0), Some(Instruction::Copy));
    assert_eq!(Instruction::get_instruction(0xA123), Some(Instruction::LoadI));
    assert_eq!(Instruction::get_instruction(0xD125), Some(Instruction::Draw));
    assert_eq!(Instruction::get_instruction(0xF329), Some(Instruction::FontAddr));
    assert_eq!(Instruction::get_instruction(0xF333), Some(Instruction::StoreBcd));
    assert_eq!(Instruction::get_instruction(0xF355), Some(Instruction::RegDump));
    assert_eq!(Instruction::get_instruction(0xF365), Some(Instruction::RegLoad));
    assert_eq!(Instruction::get_instruction(0x0000), None);
    assert_eq!(Instruction::get_instruction(0xF000), None);
    assert_eq!(Instruction::get_instruction(0x5123), None);
}

#[test]
fn operand_helpers_extract_nibbles_and_bytes() {
    assert_eq!(Instruction::get_nibble(0xABCD, 0), 0xD);
    assert_eq!(Instruction::get_nibble(0xABCD, 1), 0xC);
    assert_eq!(Instruction::get_nibble(0xABCD, 2), 0xB);
    assert_eq!(Instruction::get_nibble(0xABCD, 3), 0xA);
    assert_eq!(Instruction::get_u8(0xABCD, 0), 0xCD);
    assert_eq!(Instruction::get_u8(0xABCD, 1), 0xAB);
}

#[test]
fn load_copy_scenario_ends_in_a_decode_error() {
    // set r0 = 0x0A; set r1 = 0x05; copy r1 into r0; then an unmatched word
    let mut cpu = ready_cpu(&[0x60, 0x0A, 0x61, 0x05, 0x80, 0x10, 0x00, 0x00]);
    cpu.step().unwrap();
    assert_eq!(cpu.register[0], 0x0A);
    cpu.step().unwrap();
    assert_eq!(cpu.register[1], 0x05);
    cpu.step().unwrap();
    assert_eq!(cpu.register[0], 0x05);
    assert_eq!(cpu.program_counter, 0x206);
    assert_eq!(cpu.step(), Err(EmuError::Decode));
    // a failed step leaves the machine unchanged
    assert_eq!(cpu.program_counter, 0x206);
}

#[test]
fn drawing_a_zero_row_sprite_changes_nothing() {
    // I = 0x100; draw a zero-row sprite at (r0, r1)
    let mut cpu = ready_cpu(&[0xA1, 0x00, 0xD0, 0x00]);
    cpu.step().unwrap();
    assert_eq!(cpu.reg_i, 0x100);
    cpu.step().unwrap();
    assert_eq!(cpu.register[15], 0);
    for y in 0..32 {
        for x in 0..64 {
            assert!(!cpu.display.pixel(x, y));
        }
    }
}

#[test]
fn draw_renders_the_font_glyph_and_sets_no_flag_on_a_blank_screen() {
    // I = 0x100 (glyph 0); draw 5 rows at (r0, r1) = (0, 0)
    let mut cpu = ready_cpu(&[0xA1, 0x00, 0xD0, 0x15]);
    cpu.step().unwrap();
    cpu.step().unwrap();
    assert_eq!(cpu.register[15], 0);
    // glyph 0 row 0 is 0xF0: pixels at x 0..4
    assert!(cpu.display.pixel(0, 0));
    assert!(cpu.display.pixel(3, 0));
    assert!(!cpu.display.pixel(4, 0));
    // row 1 is 0x90
    assert!(cpu.display.pixel(0, 1));
    assert!(!cpu.display.pixel(1, 1));
    assert!(cpu.display.pixel(3, 1));
}

#[test]
fn call_then_return_restores_the_program_counter() {
    let mut program = vec![0x22, 0x10];
    program.resize(0x10, 0);
    program.extend_from_slice(&[0x00, 0xEE]);
    let mut cpu = ready_cpu(&program);
    cpu.step().unwrap();
    assert_eq!(cpu.stack_pointer, 1);
    assert_eq!(cpu.program_counter, 0x210);
    cpu.step().unwrap();
    assert_eq!(cpu.stack_pointer, 0);
    assert_eq!(cpu.program_counter, 0x202);
}

#[test]
fn delay_timer_counts_down_to_zero_and_stays_there() {
    let mut cpu = ready_cpu(&[0x60, 0x00, 0x60, 0x00, 0x60, 0x00, 0x60, 0x00]);
    cpu.delay_timer = 2;
    cpu.sound_timer = 1;
    cpu.step().unwrap();
    assert_eq!(cpu.delay_timer, 1);
    assert_eq!(cpu.sound_timer, 0);
    cpu.step().unwrap();
    assert_eq!(cpu.delay_timer, 0);
    assert_eq!(cpu.sound_timer, 0);
    cpu.step().unwrap();
    assert_eq!(cpu.delay_timer, 0);
    assert_eq!(cpu.sound_timer, 0);
}

#[test]
fn return_with_an_empty_stack_is_a_stack_underflow() {
    let mut cpu = ready_cpu(&[0x00, 0xEE]);
    assert_eq!(cpu.step(), Err(EmuError::StackUnderflow));
    assert_eq!(cpu.program_counter, 0x200);
}

#[test]
fn call_at_full_depth_is_a_stack_overflow() {
    let mut cpu = ready_cpu(&[0x22, 0x00]);
    cpu.stack_pointer = 16;
    assert_eq!(cpu.step(), Err(EmuError::StackOverflow));
    assert_eq!(cpu.stack_pointer, 16);
    assert_eq!(cpu.program_counter, 0x200);
}

#[test]
fn skip_if_equal_advances_four_on_match_and_two_otherwise() {
    let mut cpu = ready_cpu(&[0x60, 0x0A, 0x30, 0x0A, 0x30, 0x0B]);
    cpu.step().unwrap();
    cpu.step().unwrap();
    // r0 == 0x0A: skipped past 0x300B to 0x206
    assert_eq!(cpu.program_counter, 0x206);
    let mut other = ready_cpu(&[0x30, 0x01]);
    other.step().unwrap();
    assert_eq!(other.program_counter, 0x202);
}

#[test]
fn add_immediate_wraps_at_eight_bits_without_a_flag() {
    let mut cpu = ready_cpu(&[0x60, 0xFF, 0x70, 0x03]);
    cpu.step().unwrap();
    cpu.step().unwrap();
    assert_eq!(cpu.register[0], 0x02);
    assert_eq!(cpu.register[15], 0);
}

#[test]
fn jump_sets_the_program_counter_without_advancing() {
    let mut cpu = ready_cpu(&[0x12, 0x34]);
    cpu.step().unwrap();
    assert_eq!(cpu.program_counter, 0x234);
}

#[test]
fn load_i_immediate_sets_the_address_register() {
    let mut cpu = ready_cpu(&[0xA1, 0x23]);
    cpu.step().unwrap();
    assert_eq!(cpu.reg_i, 0x123);
    assert_eq!(cpu.program_counter, 0x202);
}

#[test]
fn font_address_points_i_at_the_digit_glyph() {
    let mut cpu = ready_cpu(&[0x60, 0x03, 0xF0, 0x29]);
    cpu.step().unwrap();
    cpu.step().unwrap();
    assert_eq!(cpu.reg_i, 0x100 + 5 * 3);
}

#[test]
fn font_address_of_a_digit_above_f_is_an_error() {
    let mut cpu = ready_cpu(&[0x60, 0x10, 0xF0, 0x29]);
    cpu.step().unwrap();
    assert_eq!(cpu.step(), Err(EmuError::BadDigit));
    assert_eq!(cpu.program_counter, 0x202);
}

#[test]
fn store_bcd_writes_the_three_decimal_digits() {
    let mut cpu = ready_cpu(&[0x60, 0xEA, 0xA3, 0x00, 0xF0, 0x33]);
    cpu.step().unwrap();
    cpu.step().unwrap();
    cpu.step().unwrap();
    // 0xEA is 234
    assert_eq!(cpu.mem.read(0x300, 3), Ok(vec![2, 3, 4]));
}

#[test]
fn register_dump_and_load_round_trip_through_memory() {
    let mut cpu = ready_cpu(&[0x60, 0x11, 0x61, 0x22, 0x62, 0x33, 0xA3, 0x00, 0xF2, 0x55]);
    for _ in 0..5 {
        cpu.step().unwrap();
    }
    // registers 0..=2 written at 0x300; register 3 untouched
    assert_eq!(cpu.mem.read(0x300, 4), Ok(vec![0x11, 0x22, 0x33, 0x00]));

    let mut other = ready_cpu(&[0xA3, 0x00, 0xF1, 0x65]);
    other.mem.write_byte(0x44, 0x300).unwrap();
    other.mem.write_byte(0x55, 0x301).unwrap();
    other.mem.write_byte(0x66, 0x302).unwrap();
    other.step().unwrap();
    other.step().unwrap();
    assert_eq!(other.register[0], 0x44);
    assert_eq!(other.register[1], 0x55);
    // only registers 0..=1 are loaded
    assert_eq!(other.register[2], 0x00);
}

#[test]
fn draw_with_i_past_the_end_is_a_capacity_error() {
    let mut cpu = ready_cpu(&[0xAF, 0xFF, 0xD0, 0x05]);
    cpu.step().unwrap();
    assert_eq!(cpu.step(), Err(EmuError::Capacity));
    assert_eq!(cpu.program_counter, 0x202);
}

#[test]
fn fetch_past_the_end_is_a_capacity_error() {
    let mut cpu = Cpu::new();
    cpu.init().unwrap();
    cpu.program_counter = 4095;
    assert_eq!(cpu.step(), Err(EmuError::Capacity));
}

#[test]
fn clear_screen_instruction_blanks_the_display() {
    let mut cpu = ready_cpu(&[0x00, 0xE0]);
    cpu.display.draw(&[0xFF], 10, 10);
    cpu.step().unwrap();
    for y in 0..32 {
        for x in 0..64 {
            assert!(!cpu.display.pixel(x, y));
        }
    }
    assert_eq!(cpu.program_counter, 0x202);
}

#[test]
fn draw_sets_the_flag_exactly_on_overlap() {
    // draw glyph 0 twice at the same spot: the second draw collides and erases
    let mut cpu = ready_cpu(&[0xA1, 0x00, 0xD0, 0x15, 0xD0, 0x15]);
    cpu.step().unwrap();
    cpu.step().unwrap();
    assert_eq!(cpu.register[15], 0);
    cpu.step().unwrap();
    assert_eq!(cpu.register[15], 1);
    for y in 0..32 {
        for x in 0..64 {
            assert!(!cpu.display.pixel(x, y));
        }
    }
}
