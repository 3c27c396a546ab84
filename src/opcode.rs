use vstd::prelude::*;

verus! {

/// One decoded instruction. Register operands (`x`, `y`) are always below 16,
/// immediates keep the width they have in the opcode.
#[derive(PartialEq, Eq, Structural, Clone, Copy, Debug)]
pub enum Instruction {
    /// `00CN`: scroll the display down by N rows.
    ScrollDown(u8),
    /// `00E0`: clear the display.
    ClearScreen,
    /// `00EE`: return from a subroutine.
    Return,
    /// `00FB`: scroll the display right by four columns.
    ScrollRight,
    /// `00FC`: scroll the display left by four columns.
    ScrollLeft,
    /// `00FD`: leave the interpreter.
    Exit,
    /// `00FE`: switch to the 64x32 display.
    LowRes,
    /// `00FF`: switch to the 128x64 display.
    HighRes,
    /// `1NNN`: jump to NNN.
    Jump(u16),
    /// `2NNN`: call the subroutine at NNN.
    Call(u16),
    /// `3XNN`: skip the next instruction if VX == NN.
    SkipEqImm(u8, u8),
    /// `4XNN`: skip the next instruction if VX != NN.
    SkipNeImm(u8, u8),
    /// `5XY0`: skip the next instruction if VX == VY.
    SkipEqReg(u8, u8),
    /// `6XNN`: VX = NN.
    LoadImm(u8, u8),
    /// `7XNN`: VX = VX + NN, wrapping, flag untouched.
    AddImm(u8, u8),
    /// `8XY0`: VX = VY.
    Move(u8, u8),
    /// `8XY1`: VX = VX | VY.
    Or(u8, u8),
    /// `8XY2`: VX = VX & VY.
    And(u8, u8),
    /// `8XY3`: VX = VX ^ VY.
    Xor(u8, u8),
    /// `8XY4`: VX = VX + VY, VF = carry.
    AddReg(u8, u8),
    /// `8XY5`: VX = |VX - VY|, VF = no borrow.
    Sub(u8, u8),
    /// `8XY6`: VX = VX >> 1, VF = the bit shifted out.
    ShiftRight(u8, u8),
    /// `8XY7`: VX = |VY - VX|, VF = no borrow.
    SubRev(u8, u8),
    /// `8XYE`: VX = VX << 1, VF = the bit shifted out.
    ShiftLeft(u8, u8),
    /// `9XY0`: skip the next instruction if VX != VY.
    SkipNeReg(u8, u8),
    /// `ANNN`: I = NNN.
    LoadI(u16),
    /// `BNNN`: jump to NNN + V0.
    JumpV0(u16),
    /// `CXNN`: VX = a random byte & NN.
    Random(u8, u8),
    /// `DXYN`: draw an N-row sprite from I at (VX, VY).
    Draw(u8, u8, u8),
    /// `EX9E`: skip the next instruction if the key in VX is down.
    SkipKey(u8),
    /// `EXA1`: skip the next instruction if the key in VX is up.
    SkipNotKey(u8),
    /// `FX07`: VX = delay timer.
    GetDelay(u8),
    /// `FX0A`: wait for a key, then store it in VX.
    WaitKey(u8),
    /// `FX15`: delay timer = VX.
    SetDelay(u8),
    /// `FX18`: sound timer = VX.
    SetSound(u8),
    /// `FX1E`: I = I + VX, VF = carry out of twelve bits.
    AddI(u8),
    /// `FX29`: I = address of the small font glyph for VX.
    FontChar(u8),
    /// `FX30`: I = address of the large font glyph for VX.
    BigFontChar(u8),
    /// `FX33`: store the three decimal digits of VX at I, I+1, I+2.
    Bcd(u8),
    /// `FX55`: store V0..=VX at I onwards.
    Store(u8),
    /// `FX65`: load V0..=VX from I onwards.
    Load(u8),
    /// `FX75`: save V0..=VX in the RPL flags (X <= 7).
    SaveFlags(u8),
    /// `FX85`: restore V0..=VX from the RPL flags (X <= 7).
    RestoreFlags(u8),
    /// Any other opcode.
    Unknown(u16),
}

/// The instruction that a 16-bit opcode stands for.
pub open spec fn decoded(op: u16) -> Instruction {
    let a = op / 4096;
    let x = ((op / 256) % 16) as u8;
    let y = ((op / 16) % 16) as u8;
    let n = (op % 16) as u8;
    let nn = (op % 256) as u8;
    let nnn = op % 4096;
    if a == 0 {
        if x == 0 && y == 0xC {
            Instruction::ScrollDown(n)
        } else if op == 0x00E0 {
            Instruction::ClearScreen
        } else if op == 0x00EE {
            Instruction::Return
        } else if op == 0x00FB {
            Instruction::ScrollRight
        } else if op == 0x00FC {
            Instruction::ScrollLeft
        } else if op == 0x00FD {
            Instruction::Exit
        } else if op == 0x00FE {
            Instruction::LowRes
        } else if op == 0x00FF {
            Instruction::HighRes
        } else {
            Instruction::Unknown(op)
        }
    } else if a == 1 {
        Instruction::Jump(nnn)
    } else if a == 2 {
        Instruction::Call(nnn)
    } else if a == 3 {
        Instruction::SkipEqImm(x, nn)
    } else if a == 4 {
        Instruction::SkipNeImm(x, nn)
    } else if a == 5 {
        if n == 0 {
            Instruction::SkipEqReg(x, y)
        } else {
            Instruction::Unknown(op)
        }
    } else if a == 6 {
        Instruction::LoadImm(x, nn)
    } else if a == 7 {
        Instruction::AddImm(x, nn)
    } else if a == 8 {
        if n == 0 {
            Instruction::Move(x, y)
        } else if n == 1 {
            Instruction::Or(x, y)
        } else if n == 2 {
            Instruction::And(x, y)
        } else if n == 3 {
            Instruction::Xor(x, y)
        } else if n == 4 {
            Instruction::AddReg(x, y)
        } else if n == 5 {
            Instruction::Sub(x, y)
        } else if n == 6 {
            Instruction::ShiftRight(x, y)
        } else if n == 7 {
            Instruction::SubRev(x, y)
        } else if n == 0xE {
            Instruction::ShiftLeft(x, y)
        } else {
            Instruction::Unknown(op)
        }
    } else if a == 9 {
        if n == 0 {
            Instruction::SkipNeReg(x, y)
        } else {
            Instruction::Unknown(op)
        }
    } else if a == 0xA {
        Instruction::LoadI(nnn)
    } else if a == 0xB {
        Instruction::JumpV0(nnn)
    } else if a == 0xC {
        Instruction::Random(x, nn)
    } else if a == 0xD {
        Instruction::Draw(x, y, n)
    } else if a == 0xE {
        if nn == 0x9E {
            Instruction::SkipKey(x)
        } else if nn == 0xA1 {
            Instruction::SkipNotKey(x)
        } else {
            Instruction::Unknown(op)
        }
    } else {
        if nn == 0x07 {
            Instruction::GetDelay(x)
        } else if nn == 0x0A {
            Instruction::WaitKey(x)
        } else if nn == 0x15 {
            Instruction::SetDelay(x)
        } else if nn == 0x18 {
            Instruction::SetSound(x)
        } else if nn == 0x1E {
            Instruction::AddI(x)
        } else if nn == 0x29 {
            Instruction::FontChar(x)
        } else if nn == 0x30 {
            Instruction::BigFontChar(x)
        } else if nn == 0x33 {
            Instruction::Bcd(x)
        } else if nn == 0x55 {
            Instruction::Store(x)
        } else if nn == 0x65 {
            Instruction::Load(x)
        } else if nn == 0x75 && x <= 7 {
            Instruction::SaveFlags(x)
        } else if nn == 0x85 && x <= 7 {
            Instruction::RestoreFlags(x)
        } else {
            Instruction::Unknown(op)
        }
    }
}

/// Register operands of a decoded instruction are valid register indices,
/// and address operands fit in twelve bits.
pub open spec fn operands_in_range(i: Instruction) -> bool {
    match i {
        Instruction::ScrollDown(n) => n < 16,
        Instruction::Jump(a) | Instruction::Call(a) | Instruction::LoadI(a)
        | Instruction::JumpV0(a) => a < 4096,
        Instruction::SkipEqImm(x, _) | Instruction::SkipNeImm(x, _) | Instruction::LoadImm(x, _)
        | Instruction::AddImm(x, _) | Instruction::Random(x, _) => x < 16,
        Instruction::SkipEqReg(x, y) | Instruction::Move(x, y) | Instruction::Or(x, y)
        | Instruction::And(x, y) | Instruction::Xor(x, y) | Instruction::AddReg(x, y)
        | Instruction::Sub(x, y) | Instruction::ShiftRight(x, y) | Instruction::SubRev(x, y)
        | Instruction::ShiftLeft(x, y) | Instruction::SkipNeReg(x, y) => x < 16 && y < 16,
        Instruction::Draw(x, y, n) => x < 16 && y < 16 && n < 16,
        Instruction::SkipKey(x) | Instruction::SkipNotKey(x) | Instruction::GetDelay(x)
        | Instruction::WaitKey(x) | Instruction::SetDelay(x) | Instruction::SetSound(x)
        | Instruction::AddI(x) | Instruction::FontChar(x) | Instruction::BigFontChar(x)
        | Instruction::Bcd(x) | Instruction::Store(x) | Instruction::Load(x) => x < 16,
        Instruction::SaveFlags(x) | Instruction::RestoreFlags(x) => x < 8,
        _ => true,
    }
}

/// Decodes a 16-bit opcode.
pub fn decode(op: u16) -> (r: Instruction)
    ensures
        r == decoded(op),
        operands_in_range(r),
{
    let a: u16 = op / 4096;
    let x: u8 = ((op / 256) % 16) as u8;
    let y: u8 = ((op / 16) % 16) as u8;
    let n: u8 = (op % 16) as u8;
    let nn: u8 = (op % 256) as u8;
    let nnn: u16 = op % 4096;
    if a == 0 {
        if x == 0 && y == 0xC {
            Instruction::ScrollDown(n)
        } else if op == 0x00E0 {
            Instruction::ClearScreen
        } else if op == 0x00EE {
            Instruction::Return
        } else if op == 0x00FB {
            Instruction::ScrollRight
        } else if op == 0x00FC {
            Instruction::ScrollLeft
        } else if op == 0x00FD {
            Instruction::Exit
        } else if op == 0x00FE {
            Instruction::LowRes
        } else if op == 0x00FF {
            Instruction::HighRes
        } else {
            Instruction::Unknown(op)
        }
    } else if a == 1 {
        Instruction::Jump(nnn)
    } else if a == 2 {
        Instruction::Call(nnn)
    } else if a == 3 {
        Instruction::SkipEqImm(x, nn)
    } else if a == 4 {
        Instruction::SkipNeImm(x, nn)
    } else if a == 5 {
        if n == 0 {
            Instruction::SkipEqReg(x, y)
        } else {
            Instruction::Unknown(op)
        }
    } else if a == 6 {
        Instruction::LoadImm(x, nn)
    } else if a == 7 {
        Instruction::AddImm(x, nn)
    } else if a == 8 {
        if n == 0 {
            Instruction::Move(x, y)
        } else if n == 1 {
            Instruction::Or(x, y)
        } else if n == 2 {
            Instruction::And(x, y)
        } else if n == 3 {
            Instruction::Xor(x, y)
        } else if n == 4 {
            Instruction::AddReg(x, y)
        } else if n == 5 {
            Instruction::Sub(x, y)
        } else if n == 6 {
            Instruction::ShiftRight(x, y)
        } else if n == 7 {
            Instruction::SubRev(x, y)
        } else if n == 0xE {
            Instruction::ShiftLeft(x, y)
        } else {
            Instruction::Unknown(op)
        }
    } else if a == 9 {
        if n == 0 {
            Instruction::SkipNeReg(x, y)
        } else {
            Instruction::Unknown(op)
        }
    } else if a == 0xA {
        Instruction::LoadI(nnn)
    } else if a == 0xB {
        Instruction::JumpV0(nnn)
    } else if a == 0xC {
        Instruction::Random(x, nn)
    } else if a == 0xD {
        Instruction::Draw(x, y, n)
    } else if a == 0xE {
        if nn == 0x9E {
            Instruction::SkipKey(x)
        } else if nn == 0xA1 {
            Instruction::SkipNotKey(x)
        } else {
            Instruction::Unknown(op)
        }
    } else {
        if nn == 0x07 {
            Instruction::GetDelay(x)
        } else if nn == 0x0A {
            Instruction::WaitKey(x)
        } else if nn == 0x15 {
            Instruction::SetDelay(x)
        } else if nn == 0x18 {
            Instruction::SetSound(x)
        } else if nn == 0x1E {
            Instruction::AddI(x)
        } else if nn == 0x29 {
            Instruction::FontChar(x)
        } else if nn == 0x30 {
            Instruction::BigFontChar(x)
        } else if nn == 0x33 {
            Instruction::Bcd(x)
        } else if nn == 0x55 {
            Instruction::Store(x)
        } else if nn == 0x65 {
            Instruction::Load(x)
        } else if nn == 0x75 && x <= 7 {
            Instruction::SaveFlags(x)
        } else if nn == 0x85 && x <= 7 {
            Instruction::RestoreFlags(x)
        } else {
            Instruction::Unknown(op)
        }
    }
}

/// Whether executing the instruction can change what the display shows.
pub open spec fn touches_display(i: Instruction) -> bool {
    match i {
        Instruction::ScrollDown(_) | Instruction::ClearScreen | Instruction::ScrollRight
        | Instruction::ScrollLeft | Instruction::LowRes | Instruction::HighRes
        | Instruction::Draw(_, _, _) => true,
        _ => false,
    }
}

/// Executable form of [`touches_display`].
pub fn changes_display(i: &Instruction) -> (r: bool)
    ensures
        r == touches_display(*i),
{
    match i {
        Instruction::ScrollDown(_) | Instruction::ClearScreen | Instruction::ScrollRight
        | Instruction::ScrollLeft | Instruction::LowRes | Instruction::HighRes
        | Instruction::Draw(_, _, _) => true,
        _ => false,
    }
}

} // verus!
