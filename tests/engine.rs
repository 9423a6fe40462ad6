use chip8::cpu::{CPU, MAX_ROM_SIZE};
use chip8::display::Display;
use chip8::model::Chip8Error;
use chip8::opcode::{decode, decode_instruction, Instruction};

fn machine_with(words: &[u16]) -> CPU {
    let mut rom = Vec::new();
    for w in words {
        rom.push((w >> 8) as u8);
        rom.push((w & 0xFF) as u8);
    }
    CPU::new(&rom)
}

#[test]
fn add_sets_carry_exactly_on_overflow() {
    for (a, b) in [(0u8, 0u8), (200, 55), (200, 56), (255, 255), (1, 254), (128, 128)] {
        let mut cpu = CPU::new(&[]);
        cpu.v_reg[3] = a;
        cpu.v_reg[4] = b;
        cpu.add_vx_vy(3, 4);
        let sum = a as u16 + b as u16;
        assert_eq!(cpu.v_reg[3], (sum % 256) as u8);
        assert_eq!(cpu.v_reg[0xF], if sum > 255 { 1 } else { 0 });
    }
}

#[test]
fn sub_sets_flag_when_no_borrow() {
    for (a, b) in [(5u8, 5u8), (5, 6), (0, 0), (255, 0), (0, 255), (10, 3)] {
        let mut cpu = CPU::new(&[]);
        cpu.v_reg[1] = a;
        cpu.v_reg[2] = b;
        cpu.sub_vx_vy(1, 2);
        assert_eq!(cpu.v_reg[1], a.wrapping_sub(b));
        assert_eq!(cpu.v_reg[0xF], if a >= b { 1 } else { 0 });
    }
}

#[test]
fn flag_wins_when_vx_is_vf() {
    let mut cpu = machine_with(&[0x8FF4, 0x8FE5]);
    cpu.v_reg[0xF] = 0xFF;
    assert_eq!(cpu.run(), Ok(Instruction::AddReg { x: 0xF, y: 0xF }));
    assert_eq!(cpu.v_reg[0xF], 1);
    cpu.v_reg[0xE] = 2;
    assert_eq!(cpu.run(), Ok(Instruction::SubReg { x: 0xF, y: 0xE }));
    assert_eq!(cpu.v_reg[0xF], 0);
}

#[test]
fn call_then_return_restores_pc_and_stack_pointer() {
    let mut cpu = CPU::new(&[]);
    assert_eq!(cpu.execute(0x2345, 0), Ok(Instruction::Call { addr: 0x345 }));
    assert_eq!(cpu.prog_counter, 0x345);
    assert_eq!(cpu.stack_ptr, 1);
    assert_eq!(cpu.execute(0x00EE, 0), Ok(Instruction::Return));
    assert_eq!(cpu.prog_counter, 0x200);
    assert_eq!(cpu.stack_ptr, 0);
}

#[test]
fn draw_twice_restores_framebuffer() {
    let mut cpu = CPU::new(&[]);
    cpu.display.set_pixel(61, 31, 1);
    let before = cpu.display.pixels.clone();
    cpu.i_reg = 0x50; // glyph 0: F0 90 90 90 F0
    cpu.v_reg[0] = 60;
    cpu.v_reg[1] = 30;
    assert_eq!(cpu.execute(0xD015, 0), Ok(Instruction::Draw { x: 0, y: 1, n: 5 }));
    // Row 0 of the glyph lands on row 30, columns 60..64; row 2 wraps to row 0.
    assert_eq!(cpu.display.get_pixel(60, 30), 1);
    assert_eq!(cpu.display.get_pixel(63, 30), 1);
    assert_eq!(cpu.display.get_pixel(60, 0), 1);
    assert_eq!(cpu.display.get_pixel(61, 0), 0);
    // Bits 4..8 of 0xF0 are clear, but they wrap to columns 0..4.
    assert_eq!(cpu.display.get_pixel(0, 30), 0);
    // Row 1 (0x90) has bit 1 clear, so the pixel set at (61, 31) stays on.
    assert_eq!(cpu.display.get_pixel(61, 31), 1);
    assert_eq!(cpu.v_reg[0xF], 0);
    assert_eq!(cpu.execute(0xD015, 0), Ok(Instruction::Draw { x: 0, y: 1, n: 5 }));
    assert_eq!(cpu.display.pixels, before);
    assert_eq!(cpu.v_reg[0xF], 1);
    assert_eq!(cpu.prog_counter, 0x204);
}

#[test]
fn draw_reports_collision() {
    let mut cpu = CPU::new(&[]);
    cpu.i_reg = 0x50;
    cpu.display.set_pixel(3, 0, 1);
    cpu.display_sprite(0, 0, 1);
    assert_eq!(cpu.v_reg[0xF], 1);
    assert_eq!(cpu.display.get_pixel(3, 0), 0);
    assert_eq!(cpu.display.get_pixel(2, 0), 1);
    assert_eq!(cpu.display.get_pixel(4, 0), 0);
}

#[test]
fn decode_splits_every_field() {
    let f = decode(0xABCD);
    assert_eq!((f.op0, f.op1, f.op2, f.op3), (0xA, 0xB, 0xC, 0xD));
    assert_eq!(f.nnn, 0xBCD);
    assert_eq!(f.nn, 0xCD);
    assert_eq!(f.n, 0xD);
    assert_eq!((f.vx, f.vy), (0xB, 0xC));
}

#[test]
fn decode_is_total() {
    for w in 0..=0xFFFFu16 {
        let f = decode(w);
        assert!(f.op0 < 16 && f.op1 < 16 && f.op2 < 16 && f.op3 < 16);
        assert_eq!(f.nnn, w & 0x0FFF);
        let _ = decode_instruction(w);
    }
}

#[test]
fn decode_recognises_instructions() {
    assert_eq!(decode_instruction(0x00E0), Instruction::ClearScreen);
    assert_eq!(decode_instruction(0xA22A), Instruction::SetIndex { addr: 0x22A });
    assert_eq!(decode_instruction(0x600C), Instruction::LoadImm { x: 0, nn: 0x0C });
    assert_eq!(decode_instruction(0xD01F), Instruction::Draw { x: 0, y: 1, n: 0xF });
    assert_eq!(decode_instruction(0xF365), Instruction::LoadRegs { x: 3 });
    assert_eq!(decode_instruction(0x8AB6), Instruction::ShiftRight { x: 0xA });
    assert_eq!(decode_instruction(0x0123), Instruction::Unknown { opcode: 0x0123 });
    assert_eq!(decode_instruction(0xE0FF), Instruction::Unknown { opcode: 0xE0FF });
}

#[test]
fn bcd_of_edge_values() {
    for (v, digits) in [(143u8, [1u8, 4, 3]), (0, [0, 0, 0]), (255, [2, 5, 5]), (7, [0, 0, 7])] {
        let mut cpu = CPU::new(&[]);
        cpu.i_reg = 0x300;
        cpu.v_reg[5] = v;
        cpu.store_bcd_vx_in_ind_reg(5);
        assert_eq!(cpu.memory[0x300..0x303], digits);
    }
}

#[test]
fn end_to_end_first_step_clears_screen() {
    let words = [0x00E0, 0xA22A, 0x600C, 0x6108, 0xD01F, 0x7009];
    let mut cpu = machine_with(&words);
    assert_eq!(cpu.opcodes, words.to_vec());
    cpu.display.set_pixel(10, 10, 1);
    assert_eq!(cpu.fetch_current_instruction(), Ok(0x00E0));
    assert_eq!(cpu.run(), Ok(Instruction::ClearScreen));
    assert!(cpu.display.pixels.iter().all(|p| *p == 0));
    assert_eq!(cpu.prog_counter, 0x202);
    assert_eq!(cpu.fetch_current_instruction(), Ok(0xA22A));
}

#[test]
fn rom_conversion_drops_odd_byte() {
    assert_eq!(CPU::convert_rom_to_opcodes(&[0x12, 0x34, 0x56]), vec![0x1234]);
    assert_eq!(CPU::convert_rom_to_opcodes(&[]), Vec::<u16>::new());
}

#[test]
fn new_loads_fonts_and_rom() {
    let cpu = CPU::new(&[0xAB, 0xCD]);
    assert_eq!(cpu.memory[0x50], 0xF0);
    assert_eq!(cpu.memory[0x55], 0x20);
    assert_eq!(cpu.memory[0x9F], 0x80);
    assert_eq!(cpu.memory[0xA0], 0);
    assert_eq!(cpu.memory[0x200], 0xAB);
    assert_eq!(cpu.memory[0x201], 0xCD);
    assert_eq!(cpu.memory[0x202], 0);
    assert_eq!(cpu.prog_counter, 0x200);
    assert_eq!(cpu.stack_ptr, 0);
    assert_eq!(cpu.display.pixels.len(), 2048);
}

#[test]
fn random_is_masked() {
    let mut cpu = CPU::new(&[]);
    for _ in 0..200 {
        cpu.set_vx_to_rnd_and_nn(4, 0x0F);
        assert_eq!(cpu.v_reg[4] & 0xF0, 0);
    }
    assert_eq!(cpu.execute(0xC40F, 0xFF), Ok(Instruction::Random { x: 4, nn: 0x0F }));
    assert_eq!(cpu.v_reg[4], 0x0F);
    cpu.set_vx_to_byte_and_nn(4, 0xA5, 0xF0);
    assert_eq!(cpu.v_reg[4], 0xA0);
}

#[test]
fn shifts_set_flag_from_lost_bit() {
    let mut cpu = CPU::new(&[]);
    cpu.v_reg[2] = 0x03;
    cpu.shift_vx_right(2);
    assert_eq!(cpu.v_reg[2], 0x01);
    assert_eq!(cpu.v_reg[0xF], 1);
    cpu.v_reg[2] = 0xFF;
    cpu.shift_vx_left(2);
    assert_eq!(cpu.v_reg[2], 0xFE);
    assert_eq!(cpu.v_reg[0xF], 1);
    cpu.v_reg[2] = 0x02;
    cpu.shift_vx_right(2);
    assert_eq!(cpu.v_reg[0xF], 0);
}

#[test]
fn rom_too_large_is_refused() {
    let big = vec![0u8; MAX_ROM_SIZE + 1];
    assert_eq!(CPU::from_rom(&big).err(), Some(Chip8Error::RomTooLarge { len: 3585 }));
    let fits = vec![0x11u8; MAX_ROM_SIZE];
    let cpu = CPU::from_rom(&fits).unwrap();
    assert_eq!(cpu.memory[0xFFF], 0x11);
}

#[test]
fn stack_underflow_and_overflow_are_fatal() {
    let mut cpu = CPU::new(&[]);
    assert_eq!(cpu.execute(0x00EE, 0), Err(Chip8Error::StackUnderflow { opcode: 0x00EE, pc: 0x200 }));
    assert_eq!(cpu.prog_counter, 0x200);
    for _ in 0..16 {
        assert!(cpu.execute(0x2200, 0).is_ok());
    }
    assert_eq!(cpu.stack_ptr, 16);
    assert_eq!(cpu.execute(0x2200, 0), Err(Chip8Error::StackOverflow { opcode: 0x2200, pc: 0x200 }));
    assert_eq!(cpu.stack_ptr, 16);
}

#[test]
fn memory_past_the_end_is_fatal() {
    let mut cpu = CPU::new(&[]);
    cpu.i_reg = 0xFFE;
    assert_eq!(cpu.execute(0xF033, 0), Err(Chip8Error::MemoryOutOfBounds { opcode: 0xF033, pc: 0x200 }));
    assert_eq!(cpu.execute(0xF255, 0), Err(Chip8Error::MemoryOutOfBounds { opcode: 0xF255, pc: 0x200 }));
    assert_eq!(cpu.execute(0xF265, 0), Err(Chip8Error::MemoryOutOfBounds { opcode: 0xF265, pc: 0x200 }));
    assert_eq!(cpu.execute(0xD003, 0), Err(Chip8Error::MemoryOutOfBounds { opcode: 0xD003, pc: 0x200 }));
    assert_eq!(cpu.execute(0xF155, 0), Ok(Instruction::StoreRegs { x: 1 }));
    cpu.prog_counter = 0xFFF;
    assert_eq!(cpu.run(), Err(Chip8Error::PcOutOfBounds { pc: 0xFFF }));
}

#[test]
fn unknown_opcode_only_advances() {
    let mut cpu = CPU::new(&[]);
    cpu.v_reg[3] = 9;
    assert_eq!(cpu.execute(0x0123, 0), Ok(Instruction::Unknown { opcode: 0x0123 }));
    assert_eq!(cpu.prog_counter, 0x202);
    assert_eq!(cpu.v_reg[3], 9);
}

#[test]
fn execute_advances_and_skips() {
    let mut cpu = CPU::new(&[]);
    cpu.v_reg[1] = 0x42;
    cpu.execute(0x3142, 0).unwrap();
    assert_eq!(cpu.prog_counter, 0x204);
    cpu.execute(0x3143, 0).unwrap();
    assert_eq!(cpu.prog_counter, 0x206);
    cpu.execute(0x1ABC, 0).unwrap();
    assert_eq!(cpu.prog_counter, 0xABC);
    cpu.v_reg[0] = 4;
    cpu.execute(0xB100, 0).unwrap();
    assert_eq!(cpu.prog_counter, 0x104);
    cpu.execute(0x7105, 0).unwrap();
    assert_eq!(cpu.v_reg[1], 0x47);
    assert_eq!(cpu.prog_counter, 0x106);
}

#[test]
fn timers_count_down_to_zero() {
    let mut cpu = CPU::new(&[]);
    cpu.delay_reg = 2;
    cpu.sound_reg = 1;
    cpu.tick_timers();
    assert_eq!((cpu.delay_reg, cpu.sound_reg), (1, 0));
    cpu.tick_timers();
    assert_eq!((cpu.delay_reg, cpu.sound_reg), (0, 0));
    cpu.tick_timers();
    assert_eq!((cpu.delay_reg, cpu.sound_reg), (0, 0));
}

#[test]
fn key_skips_follow_key_state() {
    let mut cpu = CPU::new(&[]);
    cpu.v_reg[0] = 7;
    cpu.skip_if_key_eq_vx_pressed(0);
    assert_eq!(cpu.prog_counter, 0x200);
    cpu.skip_if_key_eq_vx_not_pressed(0);
    assert_eq!(cpu.prog_counter, 0x202);
    cpu.keys[7] = true;
    cpu.skip_if_key_eq_vx_pressed(0);
    assert_eq!(cpu.prog_counter, 0x204);
    cpu.skip_if_key_eq_vx_not_pressed(0);
    assert_eq!(cpu.prog_counter, 0x204);
    cpu.v_reg[0] = 0x17;
    cpu.skip_if_key_eq_vx_pressed(0);
    assert_eq!(cpu.prog_counter, 0x204);
}

#[test]
fn wait_key_blocks_until_a_key_is_down() {
    let mut cpu = CPU::new(&[]);
    assert_eq!(cpu.execute(0xF30A, 0), Ok(Instruction::WaitKey { x: 3 }));
    assert_eq!(cpu.prog_counter, 0x200);
    cpu.keys[9] = true;
    cpu.keys[5] = true;
    cpu.execute(0xF30A, 0).unwrap();
    assert_eq!(cpu.v_reg[3], 5);
    assert_eq!(cpu.prog_counter, 0x202);
}

#[test]
fn font_digit_and_index_arithmetic() {
    let mut cpu = CPU::new(&[]);
    cpu.v_reg[2] = 0xA;
    cpu.set_ind_reg_to_loc_of_sprite_for_digit_vx(2);
    assert_eq!(cpu.i_reg, 50);
    cpu.i_reg = 0xFFFF;
    cpu.add_ind_reg_vx(2);
    assert_eq!(cpu.i_reg, 9);
}

#[test]
fn display_get_set_clear() {
    let mut d = Display::new();
    assert_eq!(d.pixels.len(), 2048);
    d.set_pixel(63, 31, 1);
    d.set_pixel(0, 1, 1);
    assert_eq!(d.get_pixel(63, 31), 1);
    assert_eq!(d.pixels[2047], 1);
    assert_eq!(d.pixels[64], 1);
    d.clear();
    assert!(d.pixels.iter().all(|p| *p == 0));
}

#[test]
fn step_uses_given_random_byte() {
    let mut cpu = machine_with(&[0xC6F0]);
    assert_eq!(cpu.step(0x5A), Ok(Instruction::Random { x: 6, nn: 0xF0 }));
    assert_eq!(cpu.v_reg[6], 0x50);
    assert_eq!(cpu.prog_counter, 0x202);
}
