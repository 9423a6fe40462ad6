use vstd::prelude::*;

use crate::cpu::FONTS;
use crate::display::cell;
use crate::opcode::{Instruction, instruction_of};

verus! {

/// The big-endian word stored in `bytes` at `a` and `a + 1`.
pub open spec fn word_at(bytes: Seq<u8>, a: int) -> u16 {
    (bytes[a] * 256 + bytes[a + 1]) as u16
}

/// The instruction words of a ROM image, two bytes each; an odd last byte is
/// left out.
pub open spec fn opcodes_of(rom: Seq<u8>) -> Seq<u16> {
    Seq::new(rom.len() / 2, |k: int| word_at(rom, 2 * k))
}

/// The byte at address `a` of freshly initialised memory holding `rom`: the
/// font table at `FONT_MEM_START`, the ROM at `PROGRAM_START`, zero elsewhere.
pub open spec fn initial_byte(rom: Seq<u8>, a: int) -> u8 {
    if 0x50 <= a < 0xA0 {
        FONTS@[a - 0x50]
    } else if 0x200 <= a < 0x200 + rom.len() {
        rom[a - 0x200]
    } else {
        0
    }
}

/// The state of the machine as values.
pub struct CpuModel {
    pub memory: Seq<u8>,
    pub v: Seq<u8>,
    pub i: u16,
    pub delay: u8,
    pub sound: u8,
    pub pc: u16,
    pub sp: u8,
    pub stack: Seq<u16>,
    pub pixels: Seq<u8>,
    pub keys: Seq<bool>,
    pub opcodes: Seq<u16>,
}

impl CpuModel {
    /// Sizes are fixed, pixels are bits, and the stack pointer stays within
    /// the stack.
    pub open spec fn wf(self) -> bool {
        &&& self.memory.len() == 4096
        &&& self.v.len() == 16
        &&& self.stack.len() == 16
        &&& self.keys.len() == 16
        &&& self.pixels.len() == 2048
        &&& forall|k: int| 0 <= k < 2048 ==> #[trigger] self.pixels[k] <= 1
        &&& self.sp <= 16
    }
}

/// The machine right after loading `rom`.
pub open spec fn initial_model(rom: Seq<u8>) -> CpuModel {
    CpuModel {
        memory: Seq::new(4096, |a: int| initial_byte(rom, a)),
        v: Seq::new(16, |k: int| 0u8),
        i: 0,
        delay: 0,
        sound: 0,
        pc: 0x200,
        sp: 0,
        stack: Seq::new(16, |k: int| 0u16),
        pixels: Seq::new(2048, |k: int| 0u8),
        keys: Seq::new(16, |k: int| false),
        opcodes: opcodes_of(rom),
    }
}

/// `x` reduced to 16 bits, as wrapping arithmetic does.
pub open spec fn wrap16(x: int) -> u16 {
    (x % 0x10000) as u16
}

/// `x` reduced to 8 bits, as wrapping arithmetic does.
pub open spec fn wrap8(x: int) -> u8 {
    (x % 0x100) as u8
}

/// Bit `b` of a sprite byte, counting from the most significant bit.
pub open spec fn sprite_bit(byte: u8, b: int) -> u8 {
    (byte >> ((7 - b) as u8)) & 1
}

/// The cell that row `r`, bit `b` of a sprite drawn at `(x0, y0)` lands on;
/// both axes wrap around.
pub open spec fn target(x0: u8, y0: u8, r: int, b: int) -> int {
    cell((x0 + b) % 64, (y0 + r) % 32)
}

/// The sprite row that would land on cell `k` for a sprite drawn at row `y0`.
pub open spec fn row_of(y0: u8, k: int) -> int {
    (k / 64 - y0) % 32
}

/// The sprite bit that would land on cell `k` for a sprite drawn at column `x0`.
pub open spec fn col_of(x0: u8, k: int) -> int {
    (k % 64 - x0) % 64
}

/// Cell `k` is one that a sprite of `n` rows at `(x0, y0)` reaches, and it
/// comes before row `row`, bit `bit` in drawing order.
pub open spec fn drawn_before(x0: u8, y0: u8, n: u8, k: int, row: int, bit: int) -> bool {
    let r = row_of(y0, k);
    let b = col_of(x0, k);
    &&& r < n
    &&& b < 8
    &&& (r < row || (r == row && b < bit))
}

/// Row `r`, bit `b` of a sprite lands on a cell from which `row_of` and
/// `col_of` give back `r` and `b`.
pub proof fn lemma_target_inverse(x0: u8, y0: u8, r: int, b: int)
    requires
        0 <= r < 32,
        0 <= b < 64,
    ensures
        0 <= target(x0, y0, r, b) < 2048,
        target(x0, y0, r, b) % 64 == (x0 + b) % 64,
        target(x0, y0, r, b) / 64 == (y0 + r) % 32,
        row_of(y0, target(x0, y0, r, b)) == r,
        col_of(x0, target(x0, y0, r, b)) == b,
{
    let cx = (x0 + b) % 64;
    let cy = (y0 + r) % 32;
    let k = cy * 64 + cx;
    assert(0 <= cx < 64 && 0 <= cy < 32);
    assert(k % 64 == cx && k / 64 == cy) by (nonlinear_arith)
        requires
            k == cy * 64 + cx,
            0 <= cx < 64,
            0 <= cy < 32,
    ;
    assert((cy - y0) % 32 == r) by (nonlinear_arith)
        requires
            cy == (y0 + r) % 32,
            0 <= r < 32,
            0 <= y0,
    ;
    assert((cx - x0) % 64 == b) by (nonlinear_arith)
        requires
            cx == (x0 + b) % 64,
            0 <= b < 64,
            0 <= x0,
    ;
}

/// Every cell is where some row and bit of a sprite at `(x0, y0)` would land.
pub proof fn lemma_cell_decompose(x0: u8, y0: u8, k: int)
    requires
        0 <= k < 2048,
    ensures
        0 <= row_of(y0, k) < 32,
        0 <= col_of(x0, k) < 64,
        target(x0, y0, row_of(y0, k), col_of(x0, k)) == k,
{
    let r = row_of(y0, k);
    let b = col_of(x0, k);
    let cx = k % 64;
    let cy = k / 64;
    assert(0 <= cy < 32 && k == cy * 64 + cx) by (nonlinear_arith)
        requires
            0 <= k < 2048,
            cx == k % 64,
            cy == k / 64,
    ;
    assert((y0 + r) % 32 == cy) by (nonlinear_arith)
        requires
            r == (cy - y0) % 32,
            0 <= cy < 32,
            0 <= y0,
    ;
    assert((x0 + b) % 64 == cx) by (nonlinear_arith)
        requires
            b == (cx - x0) % 64,
            0 <= cx < 64,
            0 <= x0,
    ;
}

/// Errors that stop the machine.
#[derive(Clone, Copy, Debug, PartialEq, Eq, Structural)]
pub enum Chip8Error {
    /// The ROM does not fit in memory above `PROGRAM_START`.
    RomTooLarge { len: usize },
    /// The program counter points where no whole instruction can be fetched.
    PcOutOfBounds { pc: u16 },
    /// A call with all sixteen stack slots in use.
    StackOverflow { opcode: u16, pc: u16 },
    /// A return with an empty stack.
    StackUnderflow { opcode: u16, pc: u16 },
    /// An instruction that would read or write past the end of memory.
    MemoryOutOfBounds { opcode: u16, pc: u16 },
}

impl CpuModel {
    /// The program counter moved on by one instruction.
    pub open spec fn advanced(self) -> CpuModel {
        CpuModel { pc: wrap16(self.pc + 2), ..self }
    }

    /// One instruction skipped when `c` holds.
    pub open spec fn skip_if(self, c: bool) -> CpuModel {
        if c {
            self.advanced()
        } else {
            self
        }
    }

    /// Register `x` set to `val`.
    pub open spec fn set_v(self, x: int, val: u8) -> CpuModel {
        CpuModel { v: self.v.update(x, val), ..self }
    }

    /// Register `x` set to `val`, then VF set to `flag`.
    pub open spec fn set_v_flag(self, x: int, val: u8, flag: u8) -> CpuModel {
        CpuModel { v: self.v.update(x, val).update(15, flag), ..self }
    }

    /// Key `k` exists and is held down.
    pub open spec fn key_down(self, k: u8) -> bool {
        k < 16 && self.keys[k as int]
    }

    /// Some key is held down.
    pub open spec fn any_key_down(self) -> bool {
        exists|k: int| 0 <= k < 16 && #[trigger] self.keys[k]
    }

    /// The lowest key that is held down, when there is one.
    pub open spec fn lowest_key(self) -> int {
        choose|k: int|
            0 <= k < 16 && self.keys[k] && forall|j: int| 0 <= j < k ==> !#[trigger] self.keys[j]
    }

    /// The bit that a sprite of `n` rows at `(x0, y0)`, read from memory at
    /// I, puts on cell `k`: zero where the sprite does not reach.
    pub open spec fn draw_bit(self, x0: u8, y0: u8, n: u8, k: int) -> u8 {
        let r = row_of(y0, k);
        let b = col_of(x0, k);
        if r < n && b < 8 {
            sprite_bit(self.memory[self.i + r], b)
        } else {
            0
        }
    }

    /// Bit `b` of sprite row `r` is set and lands on a pixel that is on.
    pub open spec fn collides(self, x0: u8, y0: u8, r: int, b: int) -> bool {
        &&& self.pixels[target(x0, y0, r, b)] == 1
        &&& sprite_bit(self.memory[self.i + r], b) == 1
    }

    /// Some set bit of the sprite lands on a pixel that is on.
    pub open spec fn collision(self, x0: u8, y0: u8, n: u8) -> bool {
        exists|r: int, b: int| 0 <= r < n && 0 <= b < 8 && #[trigger] self.collides(x0, y0, r, b)
    }

    /// The sprite of `n` rows at I XORed onto the framebuffer at
    /// `(V[x], V[y])`, with VF set to 1 on a collision and 0 otherwise.
    pub open spec fn drawn(self, x: u8, y: u8, n: u8) -> CpuModel {
        let x0 = self.v[x as int];
        let y0 = self.v[y as int];
        CpuModel {
            pixels: Seq::new(2048, |k: int| self.pixels[k] ^ self.draw_bit(x0, y0, n, k)),
            v: self.v.update(15, if self.collision(x0, y0, n) { 1 } else { 0 }),
            ..self
        }
    }

    /// Timers after one tick: each counts down by one and stops at zero.
    pub open spec fn ticked(self) -> CpuModel {
        CpuModel {
            delay: if self.delay > 0 { (self.delay - 1) as u8 } else { 0 },
            sound: if self.sound > 0 { (self.sound - 1) as u8 } else { 0 },
            ..self
        }
    }
}

/// What an instruction does to the machine, apart from the step past it.
/// `rnd` is the random byte that `Random` uses.
pub open spec fn effect(m: CpuModel, ins: Instruction, rnd: u8) -> CpuModel {
    match ins {
        Instruction::ClearScreen => CpuModel { pixels: Seq::new(2048, |k: int| 0u8), ..m },
        Instruction::Return => CpuModel { sp: (m.sp - 1) as u8, pc: m.stack[m.sp - 1], ..m },
        Instruction::Jump { addr } => CpuModel { pc: addr, ..m },
        Instruction::Call { addr } => CpuModel {
            stack: m.stack.update(m.sp as int, m.pc),
            sp: (m.sp + 1) as u8,
            pc: addr,
            ..m
        },
        Instruction::SkipEqImm { x, nn } => m.skip_if(m.v[x as int] == nn),
        Instruction::SkipNeImm { x, nn } => m.skip_if(m.v[x as int] != nn),
        Instruction::SkipEqReg { x, y } => m.skip_if(m.v[x as int] == m.v[y as int]),
        Instruction::LoadImm { x, nn } => m.set_v(x as int, nn),
        Instruction::AddImm { x, nn } => m.set_v(x as int, wrap8(m.v[x as int] + nn)),
        Instruction::Move { x, y } => m.set_v(x as int, m.v[y as int]),
        Instruction::Or { x, y } => m.set_v(x as int, m.v[x as int] | m.v[y as int]),
        Instruction::And { x, y } => m.set_v(x as int, m.v[x as int] & m.v[y as int]),
        Instruction::Xor { x, y } => m.set_v(x as int, m.v[x as int] ^ m.v[y as int]),
        Instruction::AddReg { x, y } => {
            let (a, b) = (m.v[x as int], m.v[y as int]);
            m.set_v_flag(x as int, wrap8(a + b), if a + b > 255 { 1 } else { 0 })
        },
        Instruction::SubReg { x, y } => {
            let (a, b) = (m.v[x as int], m.v[y as int]);
            m.set_v_flag(x as int, wrap8(a - b), if a >= b { 1 } else { 0 })
        },
        Instruction::ShiftRight { x } => {
            let a = m.v[x as int];
            m.set_v_flag(x as int, a / 2, a % 2)
        },
        Instruction::SubReverse { x, y } => {
            let (a, b) = (m.v[x as int], m.v[y as int]);
            m.set_v_flag(x as int, wrap8(b - a), if b >= a { 1 } else { 0 })
        },
        Instruction::ShiftLeft { x } => {
            let a = m.v[x as int];
            m.set_v_flag(x as int, wrap8(a * 2), a / 128)
        },
        Instruction::SkipNeReg { x, y } => m.skip_if(m.v[x as int] != m.v[y as int]),
        Instruction::SetIndex { addr } => CpuModel { i: addr, ..m },
        Instruction::JumpOffset { addr } => CpuModel { pc: wrap16(m.v[0] + addr), ..m },
        Instruction::Random { x, nn } => m.set_v(x as int, rnd & nn),
        Instruction::Draw { x, y, n } => m.drawn(x, y, n),
        Instruction::SkipKeyDown { x } => m.skip_if(m.key_down(m.v[x as int])),
        Instruction::SkipKeyUp { x } => m.skip_if(!m.key_down(m.v[x as int])),
        Instruction::LoadDelay { x } => m.set_v(x as int, m.delay),
        Instruction::WaitKey { x } => {
            if m.any_key_down() {
                m.set_v(x as int, m.lowest_key() as u8)
            } else {
                CpuModel { pc: wrap16(m.pc - 2), ..m }
            }
        },
        Instruction::SetDelay { x } => CpuModel { delay: m.v[x as int], ..m },
        Instruction::SetSound { x } => CpuModel { sound: m.v[x as int], ..m },
        Instruction::AddIndex { x } => CpuModel { i: wrap16(m.i + m.v[x as int]), ..m },
        Instruction::FontDigit { x } => CpuModel { i: (m.v[x as int] * 5) as u16, ..m },
        Instruction::StoreBcd { x } => {
            let a = m.v[x as int];
            CpuModel {
                memory: m.memory.update(m.i as int, a / 100).update(m.i + 1, (a / 10) % 10).update(
                    m.i + 2,
                    a % 10,
                ),
                ..m
            }
        },
        Instruction::StoreRegs { x } => CpuModel {
            memory: Seq::new(
                4096,
                |a: int|
                    if m.i <= a <= m.i + x {
                        m.v[a - m.i]
                    } else {
                        m.memory[a]
                    },
            ),
            ..m
        },
        Instruction::LoadRegs { x } => CpuModel {
            v: Seq::new(
                16,
                |k: int|
                    if k <= x {
                        m.memory[m.i + k]
                    } else {
                        m.v[k]
                    },
            ),
            ..m
        },
        Instruction::Unknown { opcode } => m,
    }
}

/// The instruction sets the program counter itself, so no step follows it.
pub open spec fn sets_pc(ins: Instruction) -> bool {
    match ins {
        Instruction::Return => true,
        Instruction::Jump { .. } => true,
        Instruction::Call { .. } => true,
        Instruction::JumpOffset { .. } => true,
        _ => false,
    }
}

/// The fatal error that executing `ins`, decoded from `opcode`, in state `m`
/// raises, if any.
pub open spec fn error_of(m: CpuModel, ins: Instruction, opcode: u16) -> Option<Chip8Error> {
    match ins {
        Instruction::Return => if m.sp == 0 {
            Some(Chip8Error::StackUnderflow { opcode, pc: m.pc })
        } else {
            None
        },
        Instruction::Call { .. } => if m.sp >= 16 {
            Some(Chip8Error::StackOverflow { opcode, pc: m.pc })
        } else {
            None
        },
        Instruction::Draw { n, .. } => if m.i + n > 4096 {
            Some(Chip8Error::MemoryOutOfBounds { opcode, pc: m.pc })
        } else {
            None
        },
        Instruction::StoreBcd { .. } => if m.i + 3 > 4096 {
            Some(Chip8Error::MemoryOutOfBounds { opcode, pc: m.pc })
        } else {
            None
        },
        Instruction::StoreRegs { x } => if m.i + x + 1 > 4096 {
            Some(Chip8Error::MemoryOutOfBounds { opcode, pc: m.pc })
        } else {
            None
        },
        Instruction::LoadRegs { x } => if m.i + x + 1 > 4096 {
            Some(Chip8Error::MemoryOutOfBounds { opcode, pc: m.pc })
        } else {
            None
        },
        _ => None,
    }
}

/// The state after executing `ins`: its effect, then the step past it unless
/// it set the program counter itself.
pub open spec fn next_state(m: CpuModel, ins: Instruction, rnd: u8) -> CpuModel {
    if sets_pc(ins) {
        effect(m, ins, rnd)
    } else {
        effect(m, ins, rnd).advanced()
    }
}

/// Executing `opcode` in state `m`: the next state, or the fatal error.
pub open spec fn execute_spec(m: CpuModel, opcode: u16, rnd: u8) -> Result<CpuModel, Chip8Error> {
    let ins = instruction_of(opcode);
    match error_of(m, ins, opcode) {
        Some(e) => Err(e),
        None => Ok(next_state(m, ins, rnd)),
    }
}

/// `r` and `post` are what executing `opcode` in state `pre` with random byte
/// `rnd` gives: the decoded instruction and the next state, or the fatal
/// error with the state untouched.
pub open spec fn outcome(
    pre: CpuModel,
    opcode: u16,
    rnd: u8,
    post: CpuModel,
    r: Result<Instruction, Chip8Error>,
) -> bool {
    match execute_spec(pre, opcode, rnd) {
        Ok(m) => r == Ok::<Instruction, Chip8Error>(instruction_of(opcode)) && post == m,
        Err(e) => r == Err::<Instruction, Chip8Error>(e) && post == pre,
    }
}

/// Fetching the word at the program counter, or the error when it does not
/// fit in memory.
pub open spec fn fetch_spec(m: CpuModel) -> Result<u16, Chip8Error> {
    if m.pc + 1 < 4096 {
        Ok(word_at(m.memory, m.pc as int))
    } else {
        Err(Chip8Error::PcOutOfBounds { pc: m.pc })
    }
}

} // verus!
