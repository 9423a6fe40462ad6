use vstd::prelude::*;

use crate::display::Display;
use crate::model::{
    Chip8Error, CpuModel, drawn_before, effect, error_of, fetch_spec, initial_byte, initial_model,
    lemma_cell_decompose, lemma_target_inverse, opcodes_of, outcome, sets_pc, sprite_bit, target,
};
use crate::opcode::{Instruction, decode_instruction, operands_in_range};

verus! {

/// Bytes of addressable memory.
pub const MEMORY_SIZE: usize = 4096;

/// Where programs are loaded, and where the program counter starts.
pub const PROGRAM_START: u16 = 0x200;

/// The largest ROM that fits between `PROGRAM_START` and the end of memory.
pub const MAX_ROM_SIZE: usize = 3584;

/// Where the font table starts in memory.
pub const FONT_MEM_START: usize = 0x050;

/// The sixteen hexadecimal digit glyphs, five bytes each.
pub const FONTS: [u8; 80] = [
    0xF0, 0x90, 0x90, 0x90, 0xF0, // 0
    0x20, 0x60, 0x20, 0x20, 0x70, // 1
    0xF0, 0x10, 0xF0, 0x80, 0xF0, // 2
    0xF0, 0x10, 0xF0, 0x10, 0xF0, // 3
    0x90, 0x90, 0xF0, 0x10, 0x10, // 4
    0xF0, 0x80, 0xF0, 0x10, 0xF0, // 5
    0xF0, 0x80, 0xF0, 0x90, 0xF0, // 6
    0xF0, 0x10, 0x20, 0x40, 0x40, // 7
    0xF0, 0x90, 0xF0, 0x90, 0xF0, // 8
    0xF0, 0x90, 0xF0, 0x10, 0xF0, // 9
    0xF0, 0x90, 0xF0, 0x90, 0x90, // A
    0xE0, 0x90, 0xE0, 0x90, 0xE0, // B
    0xF0, 0x80, 0x80, 0x80, 0xF0, // C
    0xE0, 0x90, 0x90, 0x90, 0xE0, // D
    0xF0, 0x80, 0xF0, 0x80, 0xF0, // E
    0xF0, 0x80, 0xF0, 0x80, 0x80, // F
];

/// A CHIP-8 machine: memory, registers, call stack, timers, framebuffer and
/// the state of the sixteen keys.
#[derive(Debug)]
pub struct CPU {
    pub memory: [u8; 4096],
    pub v_reg: [u8; 16],
    pub i_reg: u16,
    pub delay_reg: u8,
    pub sound_reg: u8,
    pub prog_counter: u16,
    pub stack_ptr: u8,
    pub stack: [u16; 16],
    /// The ROM's instruction words, kept for diagnostics.
    pub opcodes: Vec<u16>,
    pub display: Display,
    /// Which keys are held down; the host sets them.
    pub keys: [bool; 16],
}

impl View for CPU {
    type V = CpuModel;

    open spec fn view(&self) -> CpuModel {
        CpuModel {
            memory: self.memory@,
            v: self.v_reg@,
            i: self.i_reg,
            delay: self.delay_reg,
            sound: self.sound_reg,
            pc: self.prog_counter,
            sp: self.stack_ptr,
            stack: self.stack@,
            pixels: self.display.pixels@,
            keys: self.keys@,
            opcodes: self.opcodes@,
        }
    }
}

impl CPU {
    /// The machine's state is well formed (see `CpuModel::wf`).
    pub open spec fn wf(&self) -> bool {
        self@.wf()
    }

    /// A machine with `rom_buf` loaded at `PROGRAM_START`, the font table in
    /// place, every register, timer and pixel zero, and no key down.
    pub fn new(rom_buf: &[u8]) -> (cpu: CPU)
        requires
            rom_buf@.len() <= MAX_ROM_SIZE,
        ensures
            cpu.wf(),
            cpu@ == initial_model(rom_buf@),
    {
        let opcodes = CPU::convert_rom_to_opcodes(rom_buf);
        let mut cpu = CPU {
            memory: [0u8; 4096],
            v_reg: [0u8; 16],
            i_reg: 0,
            delay_reg: 0,
            sound_reg: 0,
            prog_counter: PROGRAM_START,
            stack_ptr: 0,
            stack: [0u16; 16],
            opcodes,
            display: Display::new(),
            keys: [false; 16],
        };
        cpu.init_fonts();
        cpu.load_rom_into_memory(rom_buf);
        proof {
            assert(cpu.v_reg@ =~= Seq::new(16, |k: int| 0u8));
            assert(cpu.stack@ =~= Seq::new(16, |k: int| 0u16));
            assert(cpu.keys@ =~= Seq::new(16, |k: int| false));
            assert(cpu.memory@ =~= Seq::new(4096, |a: int| initial_byte(rom_buf@, a)));
        }
        cpu
    }

    /// 00E0: turns every pixel off.
    pub fn clear_display(&mut self)
        requires
            old(self).wf(),
        ensures
            final(self).wf(),
            final(self)@ == effect(old(self)@, Instruction::ClearScreen, 0),
    {
        self.display.clear();
    }

    /// 00EE: pops the top of the stack into the program counter.
    pub fn return_from_subroutine(&mut self)
        requires
            old(self).wf(),
            old(self).stack_ptr > 0,
        ensures
            final(self).wf(),
            final(self)@ == effect(old(self)@, Instruction::Return, 0),
    {
        self.stack_ptr = self.stack_ptr - 1;
        self.prog_counter = self.stack[self.stack_ptr as usize];
    }

    /// 1NNN: sets the program counter to `address`.
    pub fn jump_to_address(&mut self, address: u16)
        requires
            old(self).wf(),
        ensures
            final(self).wf(),
            final(self)@ == effect(old(self)@, Instruction::Jump { addr: address }, 0),
    {
        self.prog_counter = address;
    }

    /// 2NNN: pushes the program counter and sets it to `address`.
    pub fn call_subroutine_at_address(&mut self, address: u16)
        requires
            old(self).wf(),
            old(self).stack_ptr < 16,
        ensures
            final(self).wf(),
            final(self)@ == effect(old(self)@, Instruction::Call { addr: address }, 0),
    {
        self.stack[self.stack_ptr as usize] = self.prog_counter;
        self.stack_ptr = self.stack_ptr + 1;
        self.prog_counter = address;
    }

    /// 3XNN: skips the next instruction when V[vx] equals `nn`.
    pub fn skip_if_vx_eq_nn(&mut self, vx: u8, nn: u8)
        requires
            old(self).wf(),
            vx < 16,
        ensures
            final(self).wf(),
            final(self)@ == effect(old(self)@, Instruction::SkipEqImm { x: vx, nn }, 0),
    {
        if self.v_reg[vx as usize] == nn {
            self.prog_counter = self.prog_counter.wrapping_add(2);
        }
    }

    /// 4XNN: skips the next instruction when V[vx] differs from `nn`.
    pub fn skip_if_vx_neq_nn(&mut self, vx: u8, nn: u8)
        requires
            old(self).wf(),
            vx < 16,
        ensures
            final(self).wf(),
            final(self)@ == effect(old(self)@, Instruction::SkipNeImm { x: vx, nn }, 0),
    {
        if self.v_reg[vx as usize] != nn {
            self.prog_counter = self.prog_counter.wrapping_add(2);
        }
    }

    /// 5XY0: skips the next instruction when V[vx] equals V[vy].
    pub fn skip_if_vx_eq_vy(&mut self, vx: u8, vy: u8)
        requires
            old(self).wf(),
            vx < 16,
            vy < 16,
        ensures
            final(self).wf(),
            final(self)@ == effect(old(self)@, Instruction::SkipEqReg { x: vx, y: vy }, 0),
    {
        if self.v_reg[vx as usize] == self.v_reg[vy as usize] {
            self.prog_counter = self.prog_counter.wrapping_add(2);
        }
    }

    /// 6XNN: V[vx] := nn.
    pub fn set_vx_to_nn(&mut self, vx: u8, nn: u8)
        requires
            old(self).wf(),
            vx < 16,
        ensures
            final(self).wf(),
            final(self)@ == effect(old(self)@, Instruction::LoadImm { x: vx, nn }, 0),
    {
        self.v_reg[vx as usize] = nn;
    }

    /// 7XNN: V[vx] := V[vx] + nn, wrapping; VF is left alone.
    pub fn add_vx_nn(&mut self, vx: u8, nn: u8)
        requires
            old(self).wf(),
            vx < 16,
        ensures
            final(self).wf(),
            final(self)@ == effect(old(self)@, Instruction::AddImm { x: vx, nn }, 0),
    {
        self.v_reg[vx as usize] = self.v_reg[vx as usize].wrapping_add(nn);
    }

    /// 8XY0: V[vx] := V[vy].
    pub fn set_vx_to_vy(&mut self, vx: u8, vy: u8)
        requires
            old(self).wf(),
            vx < 16,
            vy < 16,
        ensures
            final(self).wf(),
            final(self)@ == effect(old(self)@, Instruction::Move { x: vx, y: vy }, 0),
    {
        self.v_reg[vx as usize] = self.v_reg[vy as usize];
    }

    /// 8XY1: V[vx] := V[vx] | V[vy].
    pub fn set_vx_to_vx_or_vy(&mut self, vx: u8, vy: u8)
        requires
            old(self).wf(),
            vx < 16,
            vy < 16,
        ensures
            final(self).wf(),
            final(self)@ == effect(old(self)@, Instruction::Or { x: vx, y: vy }, 0),
    {
        self.v_reg[vx as usize] = self.v_reg[vx as usize] | self.v_reg[vy as usize];
    }

    /// 8XY2: V[vx] := V[vx] & V[vy].
    pub fn set_vx_to_vx_and_vy(&mut self, vx: u8, vy: u8)
        requires
            old(self).wf(),
            vx < 16,
            vy < 16,
        ensures
            final(self).wf(),
            final(self)@ == effect(old(self)@, Instruction::And { x: vx, y: vy }, 0),
    {
        self.v_reg[vx as usize] = self.v_reg[vx as usize] & self.v_reg[vy as usize];
    }

    /// 8XY3: V[vx] := V[vx] ^ V[vy].
    pub fn set_vx_to_vx_xor_vy(&mut self, vx: u8, vy: u8)
        requires
            old(self).wf(),
            vx < 16,
            vy < 16,
        ensures
            final(self).wf(),
            final(self)@ == effect(old(self)@, Instruction::Xor { x: vx, y: vy }, 0),
    {
        self.v_reg[vx as usize] = self.v_reg[vx as usize] ^ self.v_reg[vy as usize];
    }

    /// 8XY4: V[vx] := V[vx] + V[vy], wrapping; then VF := 1 on a carry, 0
    /// otherwise. When `vx` is VF, the flag is what remains.
    pub fn add_vx_vy(&mut self, vx: u8, vy: u8)
        requires
            old(self).wf(),
            vx < 16,
            vy < 16,
        ensures
            final(self).wf(),
            final(self)@ == effect(old(self)@, Instruction::AddReg { x: vx, y: vy }, 0),
            ({
                let (a, b) = (old(self).v_reg[vx as int], old(self).v_reg[vy as int]);
                &&& final(self).v_reg[15] == (if a + b > 255 { 1u8 } else { 0u8 })
                &&& vx != 15 ==> final(self).v_reg[vx as int] == (a + b) % 256
            }),
    {
        let val_x = self.v_reg[vx as usize];
        let val_y = self.v_reg[vy as usize];
        let sum = val_x.wrapping_add(val_y);
        let carry: u8 = if (val_x as u16) + (val_y as u16) > 255 { 1 } else { 0 };
        self.v_reg[vx as usize] = sum;
        self.v_reg[15] = carry;
    }

    /// 8XY5: V[vx] := V[vx] - V[vy], wrapping; then VF := 1 when no borrow
    /// occurred (V[vx] >= V[vy]), 0 otherwise. When `vx` is VF, the flag is
    /// what remains.
    pub fn sub_vx_vy(&mut self, vx: u8, vy: u8)
        requires
            old(self).wf(),
            vx < 16,
            vy < 16,
        ensures
            final(self).wf(),
            final(self)@ == effect(old(self)@, Instruction::SubReg { x: vx, y: vy }, 0),
            ({
                let (a, b) = (old(self).v_reg[vx as int], old(self).v_reg[vy as int]);
                &&& final(self).v_reg[15] == (if a >= b { 1u8 } else { 0u8 })
                &&& vx != 15 ==> final(self).v_reg[vx as int] == (a - b) % 256
            }),
    {
        let val_x = self.v_reg[vx as usize];
        let val_y = self.v_reg[vy as usize];
        let diff = val_x.wrapping_sub(val_y);
        let no_borrow: u8 = if val_x >= val_y { 1 } else { 0 };
        self.v_reg[vx as usize] = diff;
        self.v_reg[15] = no_borrow;
    }

    /// 8XY6: V[vx] := V[vx] >> 1; then VF := the bit shifted out.
    pub fn shift_vx_right(&mut self, vx: u8)
        requires
            old(self).wf(),
            vx < 16,
        ensures
            final(self).wf(),
            final(self)@ == effect(old(self)@, Instruction::ShiftRight { x: vx }, 0),
    {
        let val_x = self.v_reg[vx as usize];
        assert(val_x >> 1 == val_x / 2 && val_x & 1 == val_x % 2) by (bit_vector);
        self.v_reg[vx as usize] = val_x >> 1;
        self.v_reg[15] = val_x & 1;
    }

    /// 8XY7: V[vx] := V[vy] - V[vx], wrapping; then VF := 1 when no borrow
    /// occurred (V[vy] >= V[vx]), 0 otherwise.
    pub fn sub_vy_vx(&mut self, vx: u8, vy: u8)
        requires
            old(self).wf(),
            vx < 16,
            vy < 16,
        ensures
            final(self).wf(),
            final(self)@ == effect(old(self)@, Instruction::SubReverse { x: vx, y: vy }, 0),
    {
        let val_x = self.v_reg[vx as usize];
        let val_y = self.v_reg[vy as usize];
        let diff = val_y.wrapping_sub(val_x);
        let no_borrow: u8 = if val_y >= val_x { 1 } else { 0 };
        self.v_reg[vx as usize] = diff;
        self.v_reg[15] = no_borrow;
    }

    /// 8XYE: V[vx] := V[vx] << 1, truncated to 8 bits; then VF := the bit
    /// shifted out.
    pub fn shift_vx_left(&mut self, vx: u8)
        requires
            old(self).wf(),
            vx < 16,
        ensures
            final(self).wf(),
            final(self)@ == effect(old(self)@, Instruction::ShiftLeft { x: vx }, 0),
    {
        let val_x = self.v_reg[vx as usize];
        assert(val_x << 1 == ((val_x * 2) % 256) as u8 && (val_x >> 7) & 1 == val_x / 128)
            by (bit_vector);
        self.v_reg[vx as usize] = val_x << 1;
        self.v_reg[15] = (val_x >> 7) & 1;
    }

    /// 9XY0: skips the next instruction when V[vx] differs from V[vy].
    pub fn skip_if_vx_neq_vy(&mut self, vx: u8, vy: u8)
        requires
            old(self).wf(),
            vx < 16,
            vy < 16,
        ensures
            final(self).wf(),
            final(self)@ == effect(old(self)@, Instruction::SkipNeReg { x: vx, y: vy }, 0),
    {
        if self.v_reg[vx as usize] != self.v_reg[vy as usize] {
            self.prog_counter = self.prog_counter.wrapping_add(2);
        }
    }

    /// ANNN: I := address.
    pub fn set_ind_reg_to_address(&mut self, address: u16)
        requires
            old(self).wf(),
        ensures
            final(self).wf(),
            final(self)@ == effect(old(self)@, Instruction::SetIndex { addr: address }, 0),
    {
        self.i_reg = address;
    }

    /// BNNN: sets the program counter to V0 + address, wrapping.
    pub fn jump_to_v0_plus_address(&mut self, address: u16)
        requires
            old(self).wf(),
        ensures
            final(self).wf(),
            final(self)@ == effect(old(self)@, Instruction::JumpOffset { addr: address }, 0),
    {
        self.prog_counter = (self.v_reg[0] as u16).wrapping_add(address);
    }

    /// CXNN with the random byte given: V[vx] := rnd & nn.
    pub fn set_vx_to_byte_and_nn(&mut self, vx: u8, rnd: u8, nn: u8)
        requires
            old(self).wf(),
            vx < 16,
        ensures
            final(self).wf(),
            final(self)@ == effect(old(self)@, Instruction::Random { x: vx, nn }, rnd),
    {
        self.v_reg[vx as usize] = rnd & nn;
    }

    /// CXNN: V[vx] := a random byte & nn. Whatever byte is drawn, no bit
    /// outside `nn` is set in V[vx].
    pub fn set_vx_to_rnd_and_nn(&mut self, vx: u8, nn: u8)
        requires
            old(self).wf(),
            vx < 16,
        ensures
            final(self).wf(),
            exists|rnd: u8|
                final(self)@ == effect(old(self)@, Instruction::Random { x: vx, nn }, rnd),
            final(self).v_reg[vx as int] & !nn == 0,
    {
        let rnd = random_byte();
        self.set_vx_to_byte_and_nn(vx, rnd, nn);
        assert((rnd & nn) & !nn == 0) by (bit_vector);
    }

    /// DXYN: XORs the `n`-row sprite at I onto the framebuffer at
    /// (V[vx], V[vy]), wrapping on both axes, and sets VF to 1 when a set
    /// sprite bit lands on a pixel that was on, to 0 otherwise.
    pub fn display_sprite(&mut self, vx: u8, vy: u8, n: u8)
        requires
            old(self).wf(),
            vx < 16,
            vy < 16,
            n < 16,
            old(self).i_reg + n <= MEMORY_SIZE,
        ensures
            final(self).wf(),
            final(self)@ == effect(old(self)@, Instruction::Draw { x: vx, y: vy, n }, 0),
    {
        let ghost m = self@;
        let x0 = self.v_reg[vx as usize];
        let y0 = self.v_reg[vy as usize];
        let i = self.i_reg as usize;
        let mut collision = false;
        let mut row: u8 = 0;
        while row < n
            invariant
                self.wf(),
                m == old(self)@,
                m.wf(),
                vx < 16,
                vy < 16,
                x0 == m.v[vx as int],
                y0 == m.v[vy as int],
                i == m.i,
                i + n <= 4096,
                n < 16,
                row <= n,
                self.memory == old(self).memory,
                self.v_reg == old(self).v_reg,
                self.i_reg == old(self).i_reg,
                self.delay_reg == old(self).delay_reg,
                self.sound_reg == old(self).sound_reg,
                self.prog_counter == old(self).prog_counter,
                self.stack_ptr == old(self).stack_ptr,
                self.stack == old(self).stack,
                self.opcodes == old(self).opcodes,
                self.keys == old(self).keys,
                forall|k: int|
                    0 <= k < 2048 ==> #[trigger] self.display.pixels@[k] == if drawn_before(
                        x0,
                        y0,
                        n,
                        k,
                        row as int,
                        0,
                    ) {
                        m.pixels[k] ^ m.draw_bit(x0, y0, n, k)
                    } else {
                        m.pixels[k]
                    },
                collision == exists|r: int, b: int|
                    0 <= r < row && 0 <= b < 8 && #[trigger] m.collides(x0, y0, r, b),
            decreases n - row,
        {
            let sprite = self.memory[i + row as usize];
            let y: u32 = ((y0 as u32) + (row as u32)) % 32;
            let mut bit: u8 = 0;
            while bit < 8
                invariant
                    self.wf(),
                    m == old(self)@,
                    m.wf(),
                    vx < 16,
                    vy < 16,
                    x0 == m.v[vx as int],
                    y0 == m.v[vy as int],
                    i == m.i,
                    i + n <= 4096,
                    n < 16,
                    row < n,
                    bit <= 8,
                    sprite == m.memory[i + row],
                    y == (y0 + row) % 32,
                    self.memory == old(self).memory,
                    self.v_reg == old(self).v_reg,
                    self.i_reg == old(self).i_reg,
                    self.delay_reg == old(self).delay_reg,
                    self.sound_reg == old(self).sound_reg,
                    self.prog_counter == old(self).prog_counter,
                    self.stack_ptr == old(self).stack_ptr,
                    self.stack == old(self).stack,
                    self.opcodes == old(self).opcodes,
                    self.keys == old(self).keys,
                    forall|k: int|
                        0 <= k < 2048 ==> #[trigger] self.display.pixels@[k] == if drawn_before(
                            x0,
                            y0,
                            n,
                            k,
                            row as int,
                            bit as int,
                        ) {
                            m.pixels[k] ^ m.draw_bit(x0, y0, n, k)
                        } else {
                            m.pixels[k]
                        },
                    collision == exists|r: int, b: int|
                        0 <= r && 0 <= b < 8 && (r < row || (r == row && b < bit))
                            && #[trigger] m.collides(x0, y0, r, b),
                decreases 8 - bit,
            {
                let x: u32 = ((x0 as u32) + (bit as u32)) % 64;
                let ghost kt = target(x0, y0, row as int, bit as int);
                proof {
                    lemma_target_inverse(x0, y0, row as int, bit as int);
                    assert(kt == y * 64 + x);
                }
                let pixel = self.display.get_pixel(x, y);
                let shift: u8 = 7 - bit;
                let sb: u8 = (sprite >> shift) & 1;
                proof {
                    assert(!drawn_before(x0, y0, n, kt, row as int, bit as int));
                    assert(pixel == m.pixels[kt]);
                    assert(sb == sprite_bit(sprite, bit as int));
                    assert(sb == m.draw_bit(x0, y0, n, kt));
                    assert(sb <= 1) by (bit_vector)
                        requires
                            sb == (sprite >> shift) & 1,
                    ;
                    assert(pixel <= 1);
                    assert((pixel & sb == 1) == (pixel == 1 && sb == 1) && pixel ^ sb <= 1)
                        by (bit_vector)
                        requires
                            pixel <= 1,
                            sb <= 1,
                    ;
                }
                let hit = pixel & sb == 1;
                if hit {
                    collision = true;
                }
                self.display.set_pixel(x, y, pixel ^ sb);
                proof {
                    assert(hit == m.collides(x0, y0, row as int, bit as int));
                    assert forall|k: int| 0 <= k < 2048 implies #[trigger] self.display.pixels@[k]
                        == if drawn_before(x0, y0, n, k, row as int, bit + 1) {
                        m.pixels[k] ^ m.draw_bit(x0, y0, n, k)
                    } else {
                        m.pixels[k]
                    } by {
                        lemma_cell_decompose(x0, y0, k);
                    }
                    if hit {
                        assert(m.collides(x0, y0, row as int, bit as int));
                    } else if collision {
                        let (r0, b0) = choose|r: int, b: int|
                            0 <= r && 0 <= b < 8 && (r < row || (r == row && b < bit))
                                && #[trigger] m.collides(x0, y0, r, b);
                        assert(m.collides(x0, y0, r0, b0));
                    } else {
                        assert forall|r: int, b: int|
                            0 <= r && 0 <= b < 8 && (r < row || (r == row && b < bit + 1))
                                implies !#[trigger] m.collides(x0, y0, r, b) by {
                            if r == row && b == bit {
                            } else {
                                assert(r < row || (r == row && b < bit));
                            }
                        }
                    }
                }
                bit = bit + 1;
            }
            row = row + 1;
        }
        proof {
            assert forall|p: u8| #[trigger] (p ^ 0u8) == p by {
                assert(p ^ 0u8 == p) by (bit_vector);
            }
            assert(self.display.pixels@ =~= Seq::new(
                2048,
                |k: int| m.pixels[k] ^ m.draw_bit(x0, y0, n, k),
            ));
        }
        self.v_reg[15] = if collision {
            1
        } else {
            0
        };
    }

    /// EX9E: skips the next instruction when the key numbered V[vx] is down.
    pub fn skip_if_key_eq_vx_pressed(&mut self, vx: u8)
        requires
            old(self).wf(),
            vx < 16,
        ensures
            final(self).wf(),
            final(self)@ == effect(old(self)@, Instruction::SkipKeyDown { x: vx }, 0),
    {
        let key = self.v_reg[vx as usize];
        if key < 16 && self.keys[key as usize] {
            self.prog_counter = self.prog_counter.wrapping_add(2);
        }
    }

    /// EXA1: skips the next instruction when the key numbered V[vx] is up.
    pub fn skip_if_key_eq_vx_not_pressed(&mut self, vx: u8)
        requires
            old(self).wf(),
            vx < 16,
        ensures
            final(self).wf(),
            final(self)@ == effect(old(self)@, Instruction::SkipKeyUp { x: vx }, 0),
    {
        let key = self.v_reg[vx as usize];
        if !(key < 16 && self.keys[key as usize]) {
            self.prog_counter = self.prog_counter.wrapping_add(2);
        }
    }

    /// FX07: V[vx] := delay timer.
    pub fn set_vx_to_delay_timer(&mut self, vx: u8)
        requires
            old(self).wf(),
            vx < 16,
        ensures
            final(self).wf(),
            final(self)@ == effect(old(self)@, Instruction::LoadDelay { x: vx }, 0),
    {
        self.v_reg[vx as usize] = self.delay_reg;
    }

    /// FX0A: waits for a key. With a key down, V[vx] := the lowest such key;
    /// with none, the program counter steps back by one instruction, so that
    /// the step past it leaves the machine on this instruction.
    pub fn set_vx_to_key_press(&mut self, vx: u8)
        requires
            old(self).wf(),
            vx < 16,
        ensures
            final(self).wf(),
            final(self)@ == effect(old(self)@, Instruction::WaitKey { x: vx }, 0),
    {
        let mut k: usize = 0;
        while k < 16
            invariant
                self == old(self),
                self.wf(),
                vx < 16,
                k <= 16,
                forall|j: int| 0 <= j < k ==> !#[trigger] self.keys[j],
            decreases 16 - k,
        {
            if self.keys[k] {
                proof {
                    let m = self@;
                    assert(m.keys[k as int]);
                    assert(m.any_key_down());
                    let c = m.lowest_key();
                    assert(0 <= c < 16 && m.keys[c] && forall|j: int|
                        0 <= j < c ==> !#[trigger] m.keys[j]);
                    if c < k {
                        assert(!self.keys[c]);
                    }
                    if k < c {
                        assert(!m.keys[k as int]);
                    }
                    assert(c == k);
                }
                self.v_reg[vx as usize] = k as u8;
                return;
            }
            k = k + 1;
        }
        proof {
            assert(!self@.any_key_down());
        }
        self.prog_counter = self.prog_counter.wrapping_sub(2);
    }

    /// FX15: delay timer := V[vx].
    pub fn set_delay_timer_to_vx(&mut self, vx: u8)
        requires
            old(self).wf(),
            vx < 16,
        ensures
            final(self).wf(),
            final(self)@ == effect(old(self)@, Instruction::SetDelay { x: vx }, 0),
    {
        self.delay_reg = self.v_reg[vx as usize];
    }

    /// FX18: sound timer := V[vx].
    pub fn set_sound_timer_to_vx(&mut self, vx: u8)
        requires
            old(self).wf(),
            vx < 16,
        ensures
            final(self).wf(),
            final(self)@ == effect(old(self)@, Instruction::SetSound { x: vx }, 0),
    {
        self.sound_reg = self.v_reg[vx as usize];
    }

    /// FX1E: I := I + V[vx], wrapping; no flag is set.
    pub fn add_ind_reg_vx(&mut self, vx: u8)
        requires
            old(self).wf(),
            vx < 16,
        ensures
            final(self).wf(),
            final(self)@ == effect(old(self)@, Instruction::AddIndex { x: vx }, 0),
    {
        self.i_reg = self.i_reg.wrapping_add(self.v_reg[vx as usize] as u16);
    }

    /// FX29: I := V[vx] * 5, the offset of digit V[vx] in the font table.
    pub fn set_ind_reg_to_loc_of_sprite_for_digit_vx(&mut self, vx: u8)
        requires
            old(self).wf(),
            vx < 16,
        ensures
            final(self).wf(),
            final(self)@ == effect(old(self)@, Instruction::FontDigit { x: vx }, 0),
    {
        let x = self.v_reg[vx as usize];
        self.i_reg = (x as u16) * 5;
    }

    /// FX33: stores the hundreds, tens and ones digits of V[vx] at I, I + 1
    /// and I + 2.
    pub fn store_bcd_vx_in_ind_reg(&mut self, vx: u8)
        requires
            old(self).wf(),
            vx < 16,
            old(self).i_reg + 3 <= MEMORY_SIZE,
        ensures
            final(self).wf(),
            final(self)@ == effect(old(self)@, Instruction::StoreBcd { x: vx }, 0),
    {
        let val = self.v_reg[vx as usize];
        let i = self.i_reg as usize;
        self.memory[i] = val / 100;
        self.memory[i + 1] = (val / 10) % 10;
        self.memory[i + 2] = val % 10;
    }

    /// FX55: stores V0 to V[vx], inclusive, in memory from I on.
    pub fn store_v_reg_in_memory_from_ind_reg(&mut self, vx: u8)
        requires
            old(self).wf(),
            vx < 16,
            old(self).i_reg + vx + 1 <= MEMORY_SIZE,
        ensures
            final(self).wf(),
            final(self)@ == effect(old(self)@, Instruction::StoreRegs { x: vx }, 0),
    {
        let i = self.i_reg as usize;
        let mut ind: usize = 0;
        while ind <= vx as usize
            invariant
                old(self).wf(),
                i == old(self).i_reg,
                i + vx + 1 <= 4096,
                vx < 16,
                ind <= vx + 1,
                forall|a: int|
                    0 <= a < 4096 ==> #[trigger] self.memory@[a] == if i <= a < i + ind {
                        old(self).v_reg@[a - i]
                    } else {
                        old(self).memory@[a]
                    },
                self.v_reg == old(self).v_reg,
                self.i_reg == old(self).i_reg,
                self.delay_reg == old(self).delay_reg,
                self.sound_reg == old(self).sound_reg,
                self.prog_counter == old(self).prog_counter,
                self.stack_ptr == old(self).stack_ptr,
                self.stack == old(self).stack,
                self.opcodes == old(self).opcodes,
                self.display == old(self).display,
                self.keys == old(self).keys,
            decreases vx + 1 - ind,
        {
            self.memory[i + ind] = self.v_reg[ind];
            ind = ind + 1;
        }
        assert(self.memory@ =~= effect(old(self)@, Instruction::StoreRegs { x: vx }, 0).memory);
    }

    /// FX65: loads V0 to V[vx], inclusive, from memory from I on.
    pub fn read_v_reg_from_ind_reg(&mut self, vx: u8)
        requires
            old(self).wf(),
            vx < 16,
            old(self).i_reg + vx + 1 <= MEMORY_SIZE,
        ensures
            final(self).wf(),
            final(self)@ == effect(old(self)@, Instruction::LoadRegs { x: vx }, 0),
    {
        let i = self.i_reg as usize;
        let mut ind: usize = 0;
        while ind <= vx as usize
            invariant
                old(self).wf(),
                i == old(self).i_reg,
                i + vx + 1 <= 4096,
                vx < 16,
                ind <= vx + 1,
                forall|k: int|
                    0 <= k < 16 ==> #[trigger] self.v_reg@[k] == if k < ind {
                        old(self).memory@[i + k]
                    } else {
                        old(self).v_reg@[k]
                    },
                self.memory == old(self).memory,
                self.i_reg == old(self).i_reg,
                self.delay_reg == old(self).delay_reg,
                self.sound_reg == old(self).sound_reg,
                self.prog_counter == old(self).prog_counter,
                self.stack_ptr == old(self).stack_ptr,
                self.stack == old(self).stack,
                self.opcodes == old(self).opcodes,
                self.display == old(self).display,
                self.keys == old(self).keys,
            decreases vx + 1 - ind,
        {
            self.v_reg[ind] = self.memory[i + ind];
            ind = ind + 1;
        }
        assert(self.v_reg@ =~= effect(old(self)@, Instruction::LoadRegs { x: vx }, 0).v);
    }

    /// One timer tick: the delay and sound timers each count down by one,
    /// stopping at zero.
    pub fn tick_timers(&mut self)
        requires
            old(self).wf(),
        ensures
            final(self).wf(),
            final(self)@ == old(self)@.ticked(),
    {
        if self.delay_reg > 0 {
            self.delay_reg = self.delay_reg - 1;
        }
        if self.sound_reg > 0 {
            self.sound_reg = self.sound_reg - 1;
        }
    }

    /// Loads `rom_buf` as `new` does, or refuses a ROM that does not fit
    /// between `PROGRAM_START` and the end of memory.
    pub fn from_rom(rom_buf: &[u8]) -> (r: Result<CPU, Chip8Error>)
        ensures
            match r {
                Ok(cpu) => rom_buf@.len() <= MAX_ROM_SIZE && cpu.wf() && cpu@ == initial_model(
                    rom_buf@,
                ),
                Err(e) => rom_buf@.len() > MAX_ROM_SIZE && e == Chip8Error::RomTooLarge {
                    len: rom_buf@.len() as usize,
                },
            },
    {
        if rom_buf.len() > MAX_ROM_SIZE {
            Err(Chip8Error::RomTooLarge { len: rom_buf.len() })
        } else {
            Ok(CPU::new(rom_buf))
        }
    }

    /// The big-endian word at the program counter, or `PcOutOfBounds` when
    /// the word does not lie wholly in memory.
    pub fn fetch_current_instruction(&self) -> (r: Result<u16, Chip8Error>)
        requires
            self.wf(),
        ensures
            r == fetch_spec(self@),
    {
        let pc = self.prog_counter as usize;
        if pc + 1 >= MEMORY_SIZE {
            return Err(Chip8Error::PcOutOfBounds { pc: self.prog_counter });
        }
        let hi = self.memory[pc];
        let lo = self.memory[pc + 1];
        assert(((hi as u16) << 8) | (lo as u16) == (hi * 256 + lo) as u16) by (bit_vector);
        Ok(((hi as u16) << 8) | (lo as u16))
    }

    /// Executes one instruction word, with `rnd` as the random byte that
    /// CXNN uses: applies the instruction, then steps past it unless it set
    /// the program counter itself. A word that matches no instruction only
    /// steps past; the `Unknown` that comes back reports it. On a fatal error
    /// nothing changes.
    pub fn execute(&mut self, opcode: u16, rnd: u8) -> (r: Result<Instruction, Chip8Error>)
        requires
            old(self).wf(),
        ensures
            final(self).wf(),
            outcome(old(self)@, opcode, rnd, final(self)@, r),
    {
        let ins = decode_instruction(opcode);
        let applied = match group_of(ins) {
            InstructionGroup::Flow => self.apply_flow(ins, opcode),
            InstructionGroup::Registers => self.apply_registers(ins, rnd),
            InstructionGroup::Memory => self.apply_memory(ins, opcode),
        };
        if let Err(e) = applied {
            return Err(e);
        }
        if !sets_program_counter(ins) {
            self.prog_counter = self.prog_counter.wrapping_add(2);
        }
        Ok(ins)
    }

    /// Applies a control-flow instruction, or reports its fatal error.
    fn apply_flow(&mut self, ins: Instruction, opcode: u16) -> (r: Result<(), Chip8Error>)
        requires
            old(self).wf(),
            operands_in_range(ins),
            group(ins) == InstructionGroup::Flow,
        ensures
            final(self).wf(),
            match error_of(old(self)@, ins, opcode) {
                Some(e) => r == Err::<(), Chip8Error>(e) && final(self)@ == old(self)@,
                None => r == Ok::<(), Chip8Error>(()) && final(self)@ == effect(old(self)@, ins, 0),
            },
    {
        let pc = self.prog_counter;
        match ins {
            Instruction::ClearScreen => self.clear_display(),
            Instruction::Return => {
                if self.stack_ptr == 0 {
                    return Err(Chip8Error::StackUnderflow { opcode, pc });
                }
                self.return_from_subroutine();
            },
            Instruction::Jump { addr } => self.jump_to_address(addr),
            Instruction::Call { addr } => {
                if self.stack_ptr >= 16 {
                    return Err(Chip8Error::StackOverflow { opcode, pc });
                }
                self.call_subroutine_at_address(addr);
            },
            Instruction::SkipEqImm { x, nn } => self.skip_if_vx_eq_nn(x, nn),
            Instruction::SkipNeImm { x, nn } => self.skip_if_vx_neq_nn(x, nn),
            Instruction::SkipEqReg { x, y } => self.skip_if_vx_eq_vy(x, y),
            Instruction::SkipNeReg { x, y } => self.skip_if_vx_neq_vy(x, y),
            Instruction::JumpOffset { addr } => self.jump_to_v0_plus_address(addr),
            Instruction::SkipKeyDown { x } => self.skip_if_key_eq_vx_pressed(x),
            Instruction::SkipKeyUp { x } => self.skip_if_key_eq_vx_not_pressed(x),
            Instruction::WaitKey { x } => self.set_vx_to_key_press(x),
            _ => {},
        }
        Ok(())
    }

    /// Applies an instruction on registers and timers; none of them fails.
    fn apply_registers(&mut self, ins: Instruction, rnd: u8) -> (r: Result<(), Chip8Error>)
        requires
            old(self).wf(),
            operands_in_range(ins),
            group(ins) == InstructionGroup::Registers,
        ensures
            final(self).wf(),
            r == Ok::<(), Chip8Error>(()),
            final(self)@ == effect(old(self)@, ins, rnd),
    {
        match ins {
            Instruction::LoadImm { x, nn } => self.set_vx_to_nn(x, nn),
            Instruction::AddImm { x, nn } => self.add_vx_nn(x, nn),
            Instruction::Move { x, y } => self.set_vx_to_vy(x, y),
            Instruction::Or { x, y } => self.set_vx_to_vx_or_vy(x, y),
            Instruction::And { x, y } => self.set_vx_to_vx_and_vy(x, y),
            Instruction::Xor { x, y } => self.set_vx_to_vx_xor_vy(x, y),
            Instruction::AddReg { x, y } => self.add_vx_vy(x, y),
            Instruction::SubReg { x, y } => self.sub_vx_vy(x, y),
            Instruction::ShiftRight { x } => self.shift_vx_right(x),
            Instruction::SubReverse { x, y } => self.sub_vy_vx(x, y),
            Instruction::ShiftLeft { x } => self.shift_vx_left(x),
            Instruction::Random { x, nn } => self.set_vx_to_byte_and_nn(x, rnd, nn),
            Instruction::LoadDelay { x } => self.set_vx_to_delay_timer(x),
            Instruction::SetDelay { x } => self.set_delay_timer_to_vx(x),
            Instruction::SetSound { x } => self.set_sound_timer_to_vx(x),
            _ => {},
        }
        Ok(())
    }

    /// Applies an instruction on I, memory or the framebuffer, or reports an
    /// access past the end of memory.
    fn apply_memory(&mut self, ins: Instruction, opcode: u16) -> (r: Result<(), Chip8Error>)
        requires
            old(self).wf(),
            operands_in_range(ins),
            group(ins) == InstructionGroup::Memory,
        ensures
            final(self).wf(),
            match error_of(old(self)@, ins, opcode) {
                Some(e) => r == Err::<(), Chip8Error>(e) && final(self)@ == old(self)@,
                None => r == Ok::<(), Chip8Error>(()) && final(self)@ == effect(old(self)@, ins, 0),
            },
    {
        let pc = self.prog_counter;
        let i = self.i_reg as usize;
        match ins {
            Instruction::SetIndex { addr } => self.set_ind_reg_to_address(addr),
            Instruction::AddIndex { x } => self.add_ind_reg_vx(x),
            Instruction::FontDigit { x } => self.set_ind_reg_to_loc_of_sprite_for_digit_vx(x),
            Instruction::Draw { x, y, n } => {
                if i + n as usize > MEMORY_SIZE {
                    return Err(Chip8Error::MemoryOutOfBounds { opcode, pc });
                }
                self.display_sprite(x, y, n);
            },
            Instruction::StoreBcd { x } => {
                if i + 3 > MEMORY_SIZE {
                    return Err(Chip8Error::MemoryOutOfBounds { opcode, pc });
                }
                self.store_bcd_vx_in_ind_reg(x);
            },
            Instruction::StoreRegs { x } => {
                if i + x as usize + 1 > MEMORY_SIZE {
                    return Err(Chip8Error::MemoryOutOfBounds { opcode, pc });
                }
                self.store_v_reg_in_memory_from_ind_reg(x);
            },
            Instruction::LoadRegs { x } => {
                if i + x as usize + 1 > MEMORY_SIZE {
                    return Err(Chip8Error::MemoryOutOfBounds { opcode, pc });
                }
                self.read_v_reg_from_ind_reg(x);
            },
            _ => {},
        }
        Ok(())
    }

    /// Executes one instruction word with a freshly drawn random byte.
    pub fn run_instruction(&mut self, opcode: u16) -> (r: Result<Instruction, Chip8Error>)
        requires
            old(self).wf(),
        ensures
            final(self).wf(),
            exists|rnd: u8| outcome(old(self)@, opcode, rnd, final(self)@, r),
    {
        let rnd = random_byte();
        let r = self.execute(opcode, rnd);
        assert(outcome(old(self)@, opcode, rnd, self@, r));
        r
    }

    /// One machine cycle with `rnd` as the random byte: fetches the word at
    /// the program counter and executes it.
    pub fn step(&mut self, rnd: u8) -> (r: Result<Instruction, Chip8Error>)
        requires
            old(self).wf(),
        ensures
            final(self).wf(),
            match fetch_spec(old(self)@) {
                Ok(opcode) => outcome(old(self)@, opcode, rnd, final(self)@, r),
                Err(e) => r == Err::<Instruction, Chip8Error>(e) && final(self)@ == old(self)@,
            },
    {
        match self.fetch_current_instruction() {
            Ok(opcode) => self.execute(opcode, rnd),
            Err(e) => Err(e),
        }
    }

    /// One machine cycle with a freshly drawn random byte.
    pub fn run(&mut self) -> (r: Result<Instruction, Chip8Error>)
        requires
            old(self).wf(),
        ensures
            final(self).wf(),
            match fetch_spec(old(self)@) {
                Ok(opcode) => exists|rnd: u8| outcome(old(self)@, opcode, rnd, final(self)@, r),
                Err(e) => r == Err::<Instruction, Chip8Error>(e) && final(self)@ == old(self)@,
            },
    {
        let rnd = random_byte();
        let r = self.step(rnd);
        proof {
            if let Ok(opcode) = fetch_spec(old(self)@) {
                assert(outcome(old(self)@, opcode, rnd, self@, r));
            }
        }
        r
    }

    /// Copies the font table into memory at `FONT_MEM_START`.
    fn init_fonts(&mut self)
        ensures
            final(self).memory@ == Seq::new(
                4096,
                |a: int|
                    if 0x50 <= a < 0xA0 {
                        FONTS@[a - 0x50]
                    } else {
                        old(self).memory@[a]
                    },
            ),
            final(self).v_reg == old(self).v_reg,
            final(self).i_reg == old(self).i_reg,
            final(self).delay_reg == old(self).delay_reg,
            final(self).sound_reg == old(self).sound_reg,
            final(self).prog_counter == old(self).prog_counter,
            final(self).stack_ptr == old(self).stack_ptr,
            final(self).stack == old(self).stack,
            final(self).opcodes == old(self).opcodes,
            final(self).display == old(self).display,
            final(self).keys == old(self).keys,
    {
        let mut ind: usize = 0;
        while ind < 80
            invariant
                ind <= 80,
                forall|a: int|
                    0 <= a < 4096 ==> #[trigger] self.memory@[a] == if 0x50 <= a < 0x50 + ind {
                        FONTS@[a - 0x50]
                    } else {
                        old(self).memory@[a]
                    },
                self.v_reg == old(self).v_reg,
                self.i_reg == old(self).i_reg,
                self.delay_reg == old(self).delay_reg,
                self.sound_reg == old(self).sound_reg,
                self.prog_counter == old(self).prog_counter,
                self.stack_ptr == old(self).stack_ptr,
                self.stack == old(self).stack,
                self.opcodes == old(self).opcodes,
                self.display == old(self).display,
                self.keys == old(self).keys,
            decreases 80 - ind,
        {
            self.memory[FONT_MEM_START + ind] = FONTS[ind];
            ind = ind + 1;
        }
        assert(self.memory@ =~= Seq::new(
            4096,
            |a: int|
                if 0x50 <= a < 0xA0 {
                    FONTS@[a - 0x50]
                } else {
                    old(self).memory@[a]
                },
        ));
    }

    /// Copies `rom_buf` into memory at the program counter.
    fn load_rom_into_memory(&mut self, rom_buf: &[u8])
        requires
            old(self).prog_counter + rom_buf@.len() <= 4096,
        ensures
            final(self).memory@ == Seq::new(
                4096,
                |a: int|
                    if old(self).prog_counter <= a < old(self).prog_counter + rom_buf@.len() {
                        rom_buf@[a - old(self).prog_counter]
                    } else {
                        old(self).memory@[a]
                    },
            ),
            final(self).v_reg == old(self).v_reg,
            final(self).i_reg == old(self).i_reg,
            final(self).delay_reg == old(self).delay_reg,
            final(self).sound_reg == old(self).sound_reg,
            final(self).prog_counter == old(self).prog_counter,
            final(self).stack_ptr == old(self).stack_ptr,
            final(self).stack == old(self).stack,
            final(self).opcodes == old(self).opcodes,
            final(self).display == old(self).display,
            final(self).keys == old(self).keys,
    {
        let start = self.prog_counter as usize;
        let mut ind: usize = 0;
        while ind < rom_buf.len()
            invariant
                start == old(self).prog_counter,
                start + rom_buf@.len() <= 4096,
                ind <= rom_buf@.len(),
                forall|a: int|
                    0 <= a < 4096 ==> #[trigger] self.memory@[a] == if start <= a < start + ind {
                        rom_buf@[a - start]
                    } else {
                        old(self).memory@[a]
                    },
                self.v_reg == old(self).v_reg,
                self.i_reg == old(self).i_reg,
                self.delay_reg == old(self).delay_reg,
                self.sound_reg == old(self).sound_reg,
                self.prog_counter == old(self).prog_counter,
                self.stack_ptr == old(self).stack_ptr,
                self.stack == old(self).stack,
                self.opcodes == old(self).opcodes,
                self.display == old(self).display,
                self.keys == old(self).keys,
            decreases rom_buf@.len() - ind,
        {
            self.memory[start + ind] = rom_buf[ind];
            ind = ind + 1;
        }
        assert(self.memory@ =~= Seq::new(
            4096,
            |a: int|
                if start <= a < start + rom_buf@.len() {
                    rom_buf@[a - start]
                } else {
                    old(self).memory@[a]
                },
        ));
    }

    /// Splits a ROM image into big-endian instruction words.
    pub fn convert_rom_to_opcodes(rom_buf: &[u8]) -> (opcodes: Vec<u16>)
        ensures
            opcodes@ == opcodes_of(rom_buf@),
    {
        let mut opcodes: Vec<u16> = Vec::new();
        let count: usize = rom_buf.len() / 2;
        let mut index: usize = 0;
        while index < count
            invariant
                count == rom_buf@.len() / 2,
                rom_buf@.len() <= usize::MAX,
                index <= count,
                opcodes@ == opcodes_of(rom_buf@).take(index as int),
            decreases count - index,
        {
            let val0 = rom_buf[2 * index];
            let val1 = rom_buf[2 * index + 1];
            let opcode: u16 = ((val0 as u16) << 8) | val1 as u16;
            assert(((val0 as u16) << 8) | (val1 as u16) == (val0 * 256 + val1) as u16)
                by (bit_vector);
            opcodes.push(opcode);
            index = index + 1;
            assert(opcodes@ =~= opcodes_of(rom_buf@).take(index as int));
        }
        assert(opcodes@ =~= opcodes_of(rom_buf@));
        opcodes
    }
}

/// Which part of the machine an instruction works on.
#[derive(PartialEq, Eq, Structural)]
enum InstructionGroup {
    Flow,
    Registers,
    Memory,
}

spec fn group(ins: Instruction) -> InstructionGroup {
    match ins {
        Instruction::ClearScreen => InstructionGroup::Flow,
        Instruction::Return => InstructionGroup::Flow,
        Instruction::Jump { .. } => InstructionGroup::Flow,
        Instruction::Call { .. } => InstructionGroup::Flow,
        Instruction::SkipEqImm { .. } => InstructionGroup::Flow,
        Instruction::SkipNeImm { .. } => InstructionGroup::Flow,
        Instruction::SkipEqReg { .. } => InstructionGroup::Flow,
        Instruction::SkipNeReg { .. } => InstructionGroup::Flow,
        Instruction::JumpOffset { .. } => InstructionGroup::Flow,
        Instruction::SkipKeyDown { .. } => InstructionGroup::Flow,
        Instruction::SkipKeyUp { .. } => InstructionGroup::Flow,
        Instruction::WaitKey { .. } => InstructionGroup::Flow,
        Instruction::LoadImm { .. } => InstructionGroup::Registers,
        Instruction::AddImm { .. } => InstructionGroup::Registers,
        Instruction::Move { .. } => InstructionGroup::Registers,
        Instruction::Or { .. } => InstructionGroup::Registers,
        Instruction::And { .. } => InstructionGroup::Registers,
        Instruction::Xor { .. } => InstructionGroup::Registers,
        Instruction::AddReg { .. } => InstructionGroup::Registers,
        Instruction::SubReg { .. } => InstructionGroup::Registers,
        Instruction::ShiftRight { .. } => InstructionGroup::Registers,
        Instruction::SubReverse { .. } => InstructionGroup::Registers,
        Instruction::ShiftLeft { .. } => InstructionGroup::Registers,
        Instruction::Random { .. } => InstructionGroup::Registers,
        Instruction::LoadDelay { .. } => InstructionGroup::Registers,
        Instruction::SetDelay { .. } => InstructionGroup::Registers,
        Instruction::SetSound { .. } => InstructionGroup::Registers,
        _ => InstructionGroup::Memory,
    }
}

fn group_of(ins: Instruction) -> (g: InstructionGroup)
    ensures
        g == group(ins),
{
    match ins {
        Instruction::ClearScreen => InstructionGroup::Flow,
        Instruction::Return => InstructionGroup::Flow,
        Instruction::Jump { .. } => InstructionGroup::Flow,
        Instruction::Call { .. } => InstructionGroup::Flow,
        Instruction::SkipEqImm { .. } => InstructionGroup::Flow,
        Instruction::SkipNeImm { .. } => InstructionGroup::Flow,
        Instruction::SkipEqReg { .. } => InstructionGroup::Flow,
        Instruction::SkipNeReg { .. } => InstructionGroup::Flow,
        Instruction::JumpOffset { .. } => InstructionGroup::Flow,
        Instruction::SkipKeyDown { .. } => InstructionGroup::Flow,
        Instruction::SkipKeyUp { .. } => InstructionGroup::Flow,
        Instruction::WaitKey { .. } => InstructionGroup::Flow,
        Instruction::LoadImm { .. } => InstructionGroup::Registers,
        Instruction::AddImm { .. } => InstructionGroup::Registers,
        Instruction::Move { .. } => InstructionGroup::Registers,
        Instruction::Or { .. } => InstructionGroup::Registers,
        Instruction::And { .. } => InstructionGroup::Registers,
        Instruction::Xor { .. } => InstructionGroup::Registers,
        Instruction::AddReg { .. } => InstructionGroup::Registers,
        Instruction::SubReg { .. } => InstructionGroup::Registers,
        Instruction::ShiftRight { .. } => InstructionGroup::Registers,
        Instruction::SubReverse { .. } => InstructionGroup::Registers,
        Instruction::ShiftLeft { .. } => InstructionGroup::Registers,
        Instruction::Random { .. } => InstructionGroup::Registers,
        Instruction::LoadDelay { .. } => InstructionGroup::Registers,
        Instruction::SetDelay { .. } => InstructionGroup::Registers,
        Instruction::SetSound { .. } => InstructionGroup::Registers,
        _ => InstructionGroup::Memory,
    }
}

/// The instruction leaves the program counter to the step past it.
fn sets_program_counter(ins: Instruction) -> (r: bool)
    ensures
        r == sets_pc(ins),
{
    match ins {
        Instruction::Return => true,
        Instruction::Jump { .. } => true,
        Instruction::Call { .. } => true,
        Instruction::JumpOffset { .. } => true,
        _ => false,
    }
}

/// Relies on rand::random (rand 0.8: `thread_rng().gen()`): one byte drawn
/// from the thread-local generator. Nothing is known of its value. It panics
/// only when the operating system cannot seed that generator, whatever the
/// caller passes.
#[verifier::external_body]
fn random_byte() -> (r: u8) {
    rand::random::<u8>()
}

} // verus!
