use vstd::prelude::*;

verus! {

/// The fields of a 16-bit instruction word: its four nibbles, most significant
/// first, and the values derived from them.
#[derive(Clone, Copy, Debug, PartialEq, Eq, Structural)]
pub struct Fields {
    pub op0: u8,
    pub op1: u8,
    pub op2: u8,
    pub op3: u8,
    /// 12-bit address: nibbles 1 to 3.
    pub nnn: u16,
    /// 8-bit immediate: nibbles 2 and 3.
    pub nn: u8,
    /// 4-bit immediate: nibble 3.
    pub n: u8,
    /// First register index: nibble 1.
    pub vx: u8,
    /// Second register index: nibble 2.
    pub vy: u8,
}

/// What each field of `opcode` is, as arithmetic on the word.
pub open spec fn fields_of(opcode: u16) -> Fields {
    Fields {
        op0: (opcode / 0x1000) as u8,
        op1: ((opcode / 0x100) % 0x10) as u8,
        op2: ((opcode / 0x10) % 0x10) as u8,
        op3: (opcode % 0x10) as u8,
        nnn: opcode % 0x1000,
        nn: (opcode % 0x100) as u8,
        n: (opcode % 0x10) as u8,
        vx: ((opcode / 0x100) % 0x10) as u8,
        vy: ((opcode / 0x10) % 0x10) as u8,
    }
}

/// Every field is in range: nibbles and register indices below 16, `nnn`
/// below 4096.
pub open spec fn fields_in_range(f: Fields) -> bool {
    &&& f.op0 < 16
    &&& f.op1 < 16
    &&& f.op2 < 16
    &&& f.op3 < 16
    &&& f.n < 16
    &&& f.vx < 16
    &&& f.vy < 16
    &&& f.nnn < 0x1000
}

/// Splits an instruction word into its fields. Defined on every word.
pub fn decode(opcode: u16) -> (f: Fields)
    ensures
        f == fields_of(opcode),
        fields_in_range(f),
{
    let op0 = ((opcode & 0xF000) >> 12) as u8;
    let op1 = ((opcode & 0x0F00) >> 8) as u8;
    let op2 = ((opcode & 0x00F0) >> 4) as u8;
    let op3 = (opcode & 0x000F) as u8;
    let nnn: u16 = opcode & 0x0FFF;
    let nn: u8 = (opcode & 0x00FF) as u8;
    assert(((opcode & 0xF000) >> 12) == opcode / 0x1000) by (bit_vector);
    assert(((opcode & 0x0F00) >> 8) == (opcode / 0x100) % 0x10) by (bit_vector);
    assert(((opcode & 0x00F0) >> 4) == (opcode / 0x10) % 0x10) by (bit_vector);
    assert((opcode & 0x000F) == opcode % 0x10) by (bit_vector);
    assert((opcode & 0x0FFF) == opcode % 0x1000) by (bit_vector);
    assert((opcode & 0x00FF) == opcode % 0x100) by (bit_vector);
    Fields { op0, op1, op2, op3, nnn, nn, n: op3, vx: op1, vy: op2 }
}

/// One instruction of the machine, with its operands. `x` and `y` name
/// registers, `nn` and `n` are immediates, `addr` is a 12-bit address.
#[derive(Clone, Copy, Debug, PartialEq, Eq, Structural)]
pub enum Instruction {
    /// 00E0
    ClearScreen,
    /// 00EE
    Return,
    /// 1NNN
    Jump { addr: u16 },
    /// 2NNN
    Call { addr: u16 },
    /// 3XNN
    SkipEqImm { x: u8, nn: u8 },
    /// 4XNN
    SkipNeImm { x: u8, nn: u8 },
    /// 5XY0
    SkipEqReg { x: u8, y: u8 },
    /// 6XNN
    LoadImm { x: u8, nn: u8 },
    /// 7XNN
    AddImm { x: u8, nn: u8 },
    /// 8XY0
    Move { x: u8, y: u8 },
    /// 8XY1
    Or { x: u8, y: u8 },
    /// 8XY2
    And { x: u8, y: u8 },
    /// 8XY3
    Xor { x: u8, y: u8 },
    /// 8XY4
    AddReg { x: u8, y: u8 },
    /// 8XY5
    SubReg { x: u8, y: u8 },
    /// 8XY6
    ShiftRight { x: u8 },
    /// 8XY7
    SubReverse { x: u8, y: u8 },
    /// 8XYE
    ShiftLeft { x: u8 },
    /// 9XY0
    SkipNeReg { x: u8, y: u8 },
    /// ANNN
    SetIndex { addr: u16 },
    /// BNNN
    JumpOffset { addr: u16 },
    /// CXNN
    Random { x: u8, nn: u8 },
    /// DXYN
    Draw { x: u8, y: u8, n: u8 },
    /// EX9E
    SkipKeyDown { x: u8 },
    /// EXA1
    SkipKeyUp { x: u8 },
    /// FX07
    LoadDelay { x: u8 },
    /// FX0A
    WaitKey { x: u8 },
    /// FX15
    SetDelay { x: u8 },
    /// FX18
    SetSound { x: u8 },
    /// FX1E
    AddIndex { x: u8 },
    /// FX29
    FontDigit { x: u8 },
    /// FX33
    StoreBcd { x: u8 },
    /// FX55
    StoreRegs { x: u8 },
    /// FX65
    LoadRegs { x: u8 },
    /// A word that matches no pattern above.
    Unknown { opcode: u16 },
}

/// The instruction that a word encodes, by the patterns of its nibbles.
#[verifier::opaque]
pub open spec fn instruction_of(opcode: u16) -> Instruction {
    let f = fields_of(opcode);
    match (f.op0, f.op1, f.op2, f.op3) {
        (0x0, 0x0, 0xE, 0x0) => Instruction::ClearScreen,
        (0x0, 0x0, 0xE, 0xE) => Instruction::Return,
        (0x1, _, _, _) => Instruction::Jump { addr: f.nnn },
        (0x2, _, _, _) => Instruction::Call { addr: f.nnn },
        (0x3, _, _, _) => Instruction::SkipEqImm { x: f.vx, nn: f.nn },
        (0x4, _, _, _) => Instruction::SkipNeImm { x: f.vx, nn: f.nn },
        (0x5, _, _, _) => Instruction::SkipEqReg { x: f.vx, y: f.vy },
        (0x6, _, _, _) => Instruction::LoadImm { x: f.vx, nn: f.nn },
        (0x7, _, _, _) => Instruction::AddImm { x: f.vx, nn: f.nn },
        (0x8, _, _, 0x0) => Instruction::Move { x: f.vx, y: f.vy },
        (0x8, _, _, 0x1) => Instruction::Or { x: f.vx, y: f.vy },
        (0x8, _, _, 0x2) => Instruction::And { x: f.vx, y: f.vy },
        (0x8, _, _, 0x3) => Instruction::Xor { x: f.vx, y: f.vy },
        (0x8, _, _, 0x4) => Instruction::AddReg { x: f.vx, y: f.vy },
        (0x8, _, _, 0x5) => Instruction::SubReg { x: f.vx, y: f.vy },
        (0x8, _, _, 0x6) => Instruction::ShiftRight { x: f.vx },
        (0x8, _, _, 0x7) => Instruction::SubReverse { x: f.vx, y: f.vy },
        (0x8, _, _, 0xE) => Instruction::ShiftLeft { x: f.vx },
        (0x9, _, _, _) => Instruction::SkipNeReg { x: f.vx, y: f.vy },
        (0xA, _, _, _) => Instruction::SetIndex { addr: f.nnn },
        (0xB, _, _, _) => Instruction::JumpOffset { addr: f.nnn },
        (0xC, _, _, _) => Instruction::Random { x: f.vx, nn: f.nn },
        (0xD, _, _, _) => Instruction::Draw { x: f.vx, y: f.vy, n: f.n },
        (0xE, _, 0x9, 0xE) => Instruction::SkipKeyDown { x: f.vx },
        (0xE, _, 0xA, 0x1) => Instruction::SkipKeyUp { x: f.vx },
        (0xF, _, 0x0, 0x7) => Instruction::LoadDelay { x: f.vx },
        (0xF, _, 0x0, 0xA) => Instruction::WaitKey { x: f.vx },
        (0xF, _, 0x1, 0x5) => Instruction::SetDelay { x: f.vx },
        (0xF, _, 0x1, 0x8) => Instruction::SetSound { x: f.vx },
        (0xF, _, 0x1, 0xE) => Instruction::AddIndex { x: f.vx },
        (0xF, _, 0x2, 0x9) => Instruction::FontDigit { x: f.vx },
        (0xF, _, 0x3, 0x3) => Instruction::StoreBcd { x: f.vx },
        (0xF, _, 0x5, 0x5) => Instruction::StoreRegs { x: f.vx },
        (0xF, _, 0x6, 0x5) => Instruction::LoadRegs { x: f.vx },
        _ => Instruction::Unknown { opcode },
    }
}

/// Register operands name one of the sixteen registers, `Draw` reads at most
/// fifteen rows, and addresses have twelve bits.
pub open spec fn operands_in_range(ins: Instruction) -> bool {
    match ins {
        Instruction::ClearScreen => true,
        Instruction::Return => true,
        Instruction::Jump { addr } => addr < 0x1000,
        Instruction::Call { addr } => addr < 0x1000,
        Instruction::SkipEqImm { x, nn } => x < 16,
        Instruction::SkipNeImm { x, nn } => x < 16,
        Instruction::SkipEqReg { x, y } => x < 16 && y < 16,
        Instruction::LoadImm { x, nn } => x < 16,
        Instruction::AddImm { x, nn } => x < 16,
        Instruction::Move { x, y } => x < 16 && y < 16,
        Instruction::Or { x, y } => x < 16 && y < 16,
        Instruction::And { x, y } => x < 16 && y < 16,
        Instruction::Xor { x, y } => x < 16 && y < 16,
        Instruction::AddReg { x, y } => x < 16 && y < 16,
        Instruction::SubReg { x, y } => x < 16 && y < 16,
        Instruction::ShiftRight { x } => x < 16,
        Instruction::SubReverse { x, y } => x < 16 && y < 16,
        Instruction::ShiftLeft { x } => x < 16,
        Instruction::SkipNeReg { x, y } => x < 16 && y < 16,
        Instruction::SetIndex { addr } => addr < 0x1000,
        Instruction::JumpOffset { addr } => addr < 0x1000,
        Instruction::Random { x, nn } => x < 16,
        Instruction::Draw { x, y, n } => x < 16 && y < 16 && n < 16,
        Instruction::SkipKeyDown { x } => x < 16,
        Instruction::SkipKeyUp { x } => x < 16,
        Instruction::LoadDelay { x } => x < 16,
        Instruction::WaitKey { x } => x < 16,
        Instruction::SetDelay { x } => x < 16,
        Instruction::SetSound { x } => x < 16,
        Instruction::AddIndex { x } => x < 16,
        Instruction::FontDigit { x } => x < 16,
        Instruction::StoreBcd { x } => x < 16,
        Instruction::StoreRegs { x } => x < 16,
        Instruction::LoadRegs { x } => x < 16,
        Instruction::Unknown { .. } => true,
    }
}

/// Decodes a word into the instruction it encodes; a word that matches no
/// pattern comes back as `Unknown`.
pub fn decode_instruction(opcode: u16) -> (r: Instruction)
    ensures
        r == instruction_of(opcode),
        operands_in_range(r),
{
    reveal(instruction_of);
    let f = decode(opcode);
    match (f.op0, f.op1, f.op2, f.op3) {
        (0x0, 0x0, 0xE, 0x0) => Instruction::ClearScreen,
        (0x0, 0x0, 0xE, 0xE) => Instruction::Return,
        (0x1, _, _, _) => Instruction::Jump { addr: f.nnn },
        (0x2, _, _, _) => Instruction::Call { addr: f.nnn },
        (0x3, _, _, _) => Instruction::SkipEqImm { x: f.vx, nn: f.nn },
        (0x4, _, _, _) => Instruction::SkipNeImm { x: f.vx, nn: f.nn },
        (0x5, _, _, _) => Instruction::SkipEqReg { x: f.vx, y: f.vy },
        (0x6, _, _, _) => Instruction::LoadImm { x: f.vx, nn: f.nn },
        (0x7, _, _, _) => Instruction::AddImm { x: f.vx, nn: f.nn },
        (0x8, _, _, 0x0) => Instruction::Move { x: f.vx, y: f.vy },
        (0x8, _, _, 0x1) => Instruction::Or { x: f.vx, y: f.vy },
        (0x8, _, _, 0x2) => Instruction::And { x: f.vx, y: f.vy },
        (0x8, _, _, 0x3) => Instruction::Xor { x: f.vx, y: f.vy },
        (0x8, _, _, 0x4) => Instruction::AddReg { x: f.vx, y: f.vy },
        (0x8, _, _, 0x5) => Instruction::SubReg { x: f.vx, y: f.vy },
        (0x8, _, _, 0x6) => Instruction::ShiftRight { x: f.vx },
        (0x8, _, _, 0x7) => Instruction::SubReverse { x: f.vx, y: f.vy },
        (0x8, _, _, 0xE) => Instruction::ShiftLeft { x: f.vx },
        (0x9, _, _, _) => Instruction::SkipNeReg { x: f.vx, y: f.vy },
        (0xA, _, _, _) => Instruction::SetIndex { addr: f.nnn },
        (0xB, _, _, _) => Instruction::JumpOffset { addr: f.nnn },
        (0xC, _, _, _) => Instruction::Random { x: f.vx, nn: f.nn },
        (0xD, _, _, _) => Instruction::Draw { x: f.vx, y: f.vy, n: f.n },
        (0xE, _, 0x9, 0xE) => Instruction::SkipKeyDown { x: f.vx },
        (0xE, _, 0xA, 0x1) => Instruction::SkipKeyUp { x: f.vx },
        (0xF, _, 0x0, 0x7) => Instruction::LoadDelay { x: f.vx },
        (0xF, _, 0x0, 0xA) => Instruction::WaitKey { x: f.vx },
        (0xF, _, 0x1, 0x5) => Instruction::SetDelay { x: f.vx },
        (0xF, _, 0x1, 0x8) => Instruction::SetSound { x: f.vx },
        (0xF, _, 0x1, 0xE) => Instruction::AddIndex { x: f.vx },
        (0xF, _, 0x2, 0x9) => Instruction::FontDigit { x: f.vx },
        (0xF, _, 0x3, 0x3) => Instruction::StoreBcd { x: f.vx },
        (0xF, _, 0x5, 0x5) => Instruction::StoreRegs { x: f.vx },
        (0xF, _, 0x6, 0x5) => Instruction::LoadRegs { x: f.vx },
        _ => Instruction::Unknown { opcode },
    }
}

/// Decoding is total: every instruction word has fields, all of them in
/// range, and decodes to one instruction whose operands are in range.
pub proof fn lemma_decode_total(opcode: u16)
    ensures
        fields_in_range(fields_of(opcode)),
        operands_in_range(instruction_of(opcode)),
{
    reveal(instruction_of);
    assert((opcode / 0x1000) < 16);
    assert((opcode / 0x100) % 0x10 < 16);
    assert((opcode / 0x10) % 0x10 < 16);
    assert(opcode % 0x10 < 16);
}

} // verus!
