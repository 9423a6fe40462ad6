use chip8::cpu::CPU;

#[test]
fn cpu_jumps_to_address() {
    let mut cpu = CPU::new(&[]);
    let addr = 0x300;
    cpu.jump_to_address(addr);
    assert_eq!(cpu.prog_counter, addr);
}

#[test]
fn cpu_calls_and_returns_from_subroutine() {
    let mut cpu = CPU::new(&[]);
    let addr = 0x300;
    cpu.call_subroutine_at_address(addr);
    assert_eq!(cpu.prog_counter, addr);
    cpu.return_from_subroutine();
    assert_eq!(cpu.prog_counter, 0x200);
}

#[test]
fn cpu_skips_if_vx_eq_nn() {
    let mut cpu = CPU::new(&[]);
    let val = 0xCC;
    cpu.v_reg[0] = val;
    // Doesn't skip
    cpu.skip_if_vx_eq_nn(0, 0xCD);
    assert_eq!(cpu.prog_counter, 0x200);
    // Skip
    cpu.skip_if_vx_eq_nn(0, val);
    assert_eq!(cpu.prog_counter, 0x202);
}

#[test]
fn cpu_skips_if_vx_neq_nn() {
    let mut cpu = CPU::new(&[]);
    let val = 0xCC;
    cpu.v_reg[0] = val;
    // Doesn't skip
    cpu.skip_if_vx_neq_nn(0, val);
    assert_eq!(cpu.prog_counter, 0x200);
    // Skip
    cpu.skip_if_vx_neq_nn(0, 0xCD);
    assert_eq!(cpu.prog_counter, 0x202);
}

#[test]
fn cpu_skips_if_vx_eq_vy() {
    let mut cpu = CPU::new(&[]);
    let val = 0xCC;
    let vx: u8 = 0;
    let vy: u8 = 1;
    // Doesn't skip
    cpu.v_reg[vx as usize] = val;
    cpu.skip_if_vx_eq_vy(vx, vy);
    assert_eq!(cpu.prog_counter, 0x200);
    // Skip
    cpu.v_reg[vy as usize] = val;
    cpu.skip_if_vx_eq_vy(vx, vy);
    assert_eq!(cpu.prog_counter, 0x202);
}

#[test]
fn cpu_sets_vx_to_nn() {
    let mut cpu = CPU::new(&[]);
    let val = 0xFF;
    cpu.set_vx_to_nn(0, val);
    assert_eq!(cpu.v_reg[0], val);
}

#[test]
fn cpu_adds_vx_nn() {
    let mut cpu = CPU::new(&[]);
    let val = 0x01;
    cpu.v_reg[0] = 0x02;
    cpu.add_vx_nn(0, val);
    assert_eq!(cpu.v_reg[0], 0x03);
}

#[test]
fn cpu_sets_vx_to_vy() {
    let mut cpu = CPU::new(&[]);
    cpu.v_reg[0] = 0x02;
    cpu.v_reg[1] = 0x03;
    cpu.set_vx_to_vy(0, 1);
    assert_eq!(cpu.v_reg[0], cpu.v_reg[1]);
}

#[test]
fn cpu_sets_vx_to_vx_or_vy() {
    let mut cpu = CPU::new(&[]);
    cpu.v_reg[0] = 0x02;
    cpu.v_reg[1] = 0x03;
    cpu.set_vx_to_vx_or_vy(0, 1);
    assert_eq!(cpu.v_reg[0], 0x02 | 0x03);
}

#[test]
fn cpu_sets_vx_to_vx_and_vy() {
    let mut cpu = CPU::new(&[]);
    cpu.v_reg[0] = 0x02;
    cpu.v_reg[1] = 0x03;
    cpu.set_vx_to_vx_and_vy(0, 1);
    assert_eq!(cpu.v_reg[0], 0x02 & 0x03);
}

#[test]
fn cpu_sets_vx_to_vx_xor_vy() {
    let mut cpu = CPU::new(&[]);
    cpu.v_reg[0] = 0x02;
    cpu.v_reg[1] = 0x03;
    cpu.set_vx_to_vx_xor_vy(0, 1);
    assert_eq!(cpu.v_reg[0], 0x02 ^ 0x03);
}

#[test]
fn cpu_adds_vx_vy() {
    let mut cpu = CPU::new(&[]);
    cpu.v_reg[0] = 0x02;
    cpu.v_reg[1] = 0x03;
    cpu.add_vx_vy(0, 1);
    assert_eq!(cpu.v_reg[0], 0x05);
    assert_eq!(cpu.v_reg[0xF], 0);
    cpu.v_reg[0] = 0xFF;
    cpu.v_reg[1] = 0x01;
    cpu.add_vx_vy(0, 1);
    assert_eq!(cpu.v_reg[0], 0);
    assert_eq!(cpu.v_reg[0xF], 1);
}

// VF is 1 when no borrow occurs and 0 when one does.
#[test]
fn cpu_subs_vx_vy() {
    let mut cpu = CPU::new(&[]);
    cpu.v_reg[0] = 0x03;
    cpu.v_reg[1] = 0x02;
    cpu.sub_vx_vy(0, 1);
    assert_eq!(cpu.v_reg[0], 0x01);
    assert_eq!(cpu.v_reg[0xF], 1);
    cpu.v_reg[0] = 0x00;
    cpu.v_reg[1] = 0x01;
    cpu.sub_vx_vy(0, 1);
    assert_eq!(cpu.v_reg[0], 0xFF);
    assert_eq!(cpu.v_reg[0xF], 0);
}

#[test]
fn cpu_shifts_vx_right() {
    let mut cpu = CPU::new(&[]);
    cpu.v_reg[0] = 0x03;
    cpu.shift_vx_right(0);
    assert_eq!(cpu.v_reg[0], 1);
    assert_eq!(cpu.v_reg[0xF], 1);
}

// VF is 1 when no borrow occurs and 0 when one does.
#[test]
fn cpu_subs_vy_vx() {
    let mut cpu = CPU::new(&[]);
    cpu.v_reg[0] = 0x02;
    cpu.v_reg[1] = 0x04;
    cpu.sub_vy_vx(0, 1);
    assert_eq!(cpu.v_reg[0], 0x02);
    assert_eq!(cpu.v_reg[0xF], 1);
    cpu.v_reg[0] = 0x01;
    cpu.v_reg[1] = 0x00;
    cpu.sub_vy_vx(0, 1);
    assert_eq!(cpu.v_reg[0], 0xFF);
    assert_eq!(cpu.v_reg[0xF], 0);
}

#[test]
fn cpu_shifts_vx_left() {
    let mut cpu = CPU::new(&[]);
    cpu.v_reg[0] = 0x0F;
    cpu.shift_vx_left(0);
    assert_eq!(cpu.v_reg[0], 0x1E);
    assert_eq!(cpu.v_reg[0xF], 0);
    cpu.v_reg[0] = 0xFF;
    cpu.shift_vx_left(0);
    assert_eq!(cpu.v_reg[0xF], 1);
}

#[test]
fn cpu_skips_if_vx_neq_vy() {
    let mut cpu = CPU::new(&[]);
    let val = 0xCC;
    cpu.v_reg[0] = val;
    cpu.v_reg[1] = val;
    // Doesn't skip
    cpu.skip_if_vx_neq_vy(0, 1);
    assert_eq!(cpu.prog_counter, 0x200);
    // Skip
    cpu.v_reg[1] = val + 1;
    cpu.skip_if_vx_neq_vy(0, 1);
    assert_eq!(cpu.prog_counter, 0x202);
}

#[test]
fn cpu_sets_ind_reg_to_address() {
    let mut cpu = CPU::new(&[]);
    let address = 0x0ABC;
    cpu.set_ind_reg_to_address(address);
    assert_eq!(cpu.i_reg, address);
}

#[test]
fn cpu_jumps_to_v0_plus_address() {
    let mut cpu = CPU::new(&[]);
    cpu.v_reg[0] = 0xFF;
    let address = 0xABC;
    cpu.jump_to_v0_plus_address(address);
    assert_eq!(cpu.prog_counter, 0xFF + address);
}

#[test]
fn cpu_sets_vx_to_rnd_and_nn() {
    let mut cpu = CPU::new(&[]);
    cpu.set_vx_to_rnd_and_nn(0, 0x0F);
    assert_eq!(cpu.v_reg[0] & 0xF0, 0);
}
