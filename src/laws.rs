use vstd::prelude::*;

use crate::model::{Chip8Error, CpuModel, effect, execute_spec};
use crate::opcode::{Instruction, instruction_of};

verus! {

/// A call followed by a return puts the program counter back where it was
/// before the call, and leaves the stack pointer where it was: for the two
/// handlers, and for the two instruction words executed in turn.
pub proof fn lemma_call_then_return(m: CpuModel, addr: u16, rnd1: u8, rnd2: u8)
    requires
        m.wf(),
        m.sp < 16,
        addr < 0x1000,
    ensures
        ({
            let after = effect(effect(m, Instruction::Call { addr }, 0), Instruction::Return, 0);
            after.pc == m.pc && after.sp == m.sp
        }),
        ({
            let first = execute_spec(m, (0x2000 + addr) as u16, rnd1);
            &&& first is Ok
            &&& execute_spec(first->Ok_0, 0x00EE, rnd2) is Ok
            &&& execute_spec(first->Ok_0, 0x00EE, rnd2)->Ok_0.pc == m.pc
            &&& execute_spec(first->Ok_0, 0x00EE, rnd2)->Ok_0.sp == m.sp
        }),
{
    reveal(instruction_of);
    let op = (0x2000 + addr) as u16;
    assert(op / 0x1000 == 2);
    assert(op % 0x1000 == addr);
    assert(instruction_of(op) == Instruction::Call { addr });
    assert(instruction_of(0x00EE) == Instruction::Return);
}

/// Drawing the same sprite at the same place twice gives back the
/// framebuffer it started from, provided neither coordinate register is VF
/// (the first draw rewrites VF, and with it the place of the second).
pub proof fn lemma_draw_twice(m: CpuModel, x: u8, y: u8, n: u8)
    requires
        m.wf(),
        x < 15,
        y < 15,
        n < 16,
    ensures
        m.drawn(x, y, n).drawn(x, y, n).pixels == m.pixels,
{
    let m1 = m.drawn(x, y, n);
    let m2 = m1.drawn(x, y, n);
    let x0 = m.v[x as int];
    let y0 = m.v[y as int];
    assert(m1.v[x as int] == x0 && m1.v[y as int] == y0);
    assert forall|k: int| 0 <= k < 2048 implies m2.pixels[k] == m.pixels[k] by {
        let p = m.pixels[k];
        let d = m.draw_bit(x0, y0, n, k);
        assert(m1.draw_bit(x0, y0, n, k) == d);
        assert((p ^ d) ^ d == p) by (bit_vector);
    }
    assert(m2.pixels =~= m.pixels);
}

/// Executing the same draw instruction twice gives back the framebuffer it
/// started from, provided neither coordinate register is VF.
pub proof fn lemma_execute_draw_twice(m: CpuModel, opcode: u16, rnd1: u8, rnd2: u8)
    requires
        m.wf(),
        instruction_of(opcode) is Draw,
        instruction_of(opcode)->Draw_x < 15,
        instruction_of(opcode)->Draw_y < 15,
        m.i + instruction_of(opcode)->Draw_n <= 4096,
    ensures
        execute_spec(m, opcode, rnd1) is Ok,
        execute_spec(execute_spec(m, opcode, rnd1)->Ok_0, opcode, rnd2) is Ok,
        execute_spec(execute_spec(m, opcode, rnd1)->Ok_0, opcode, rnd2)->Ok_0.pixels == m.pixels,
{
    crate::opcode::lemma_decode_total(opcode);
    let ins = instruction_of(opcode);
    let (x, y, n) = (ins->Draw_x, ins->Draw_y, ins->Draw_n);
    let m1 = m.drawn(x, y, n);
    lemma_draw_twice(m, x, y, n);
    assert(execute_spec(m, opcode, rnd1) == Ok::<CpuModel, Chip8Error>(
        m1.advanced(),
    ));
    assert(m1.advanced().drawn(x, y, n).pixels == m1.drawn(x, y, n).pixels);
}

} // verus!
