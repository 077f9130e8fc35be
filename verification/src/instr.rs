//! Instruction decoding.
//!
//! An opcode is two bytes. Decoding splits them into four 4-bit fields
//! and produces a closed instruction type; executing is then an
//! exhaustive match over the variants, with a single well-defined
//! fallback for anything unmatched.

use vstd::prelude::*;

verus! {

/// One decoded instruction. Register indices are always below 16,
/// addresses below 0x1000; immediates are full bytes.
#[derive(Clone, Copy, PartialEq, Eq, Structural, Debug)]
pub enum Instr {
    /// 00E0: clear the display.
    ClearScreen,
    /// 00EE: return from a subroutine.
    Return,
    /// 00FE: switch to low resolution, clearing the display.
    LowRes,
    /// 00FF: switch to high resolution, clearing the display.
    HighRes,
    /// 00FD: halt execution and reset.
    Exit,
    /// 00FB: scroll the display window 4 pixels right.
    ScrollRight,
    /// 00FC: scroll the display window 4 pixels left.
    ScrollLeft,
    /// 00CN: scroll the display window N pixels down.
    ScrollDown(u8),
    /// 1NNN: jump.
    Jump(u16),
    /// BNNN: jump to NNN + V0.
    JumpV0(u16),
    /// 2NNN: call a subroutine.
    Call(u16),
    /// 3XNN: skip the next instruction if Vx == NN.
    SkipEqImm(u8, u8),
    /// 4XNN: skip the next instruction if Vx != NN.
    SkipNeImm(u8, u8),
    /// 5XY0: skip the next instruction if Vx == Vy.
    SkipEqReg(u8, u8),
    /// 9XY0: skip the next instruction if Vx != Vy.
    SkipNeReg(u8, u8),
    /// 6XNN: Vx = NN.
    LoadImm(u8, u8),
    /// 7XNN: Vx += NN with 8-bit wraparound, no flag.
    AddImm(u8, u8),
    /// 8XY0: Vx = Vy.
    Move(u8, u8),
    /// 8XY1: Vx |= Vy.
    Or(u8, u8),
    /// 8XY2: Vx &= Vy.
    And(u8, u8),
    /// 8XY3: Vx ^= Vy.
    Xor(u8, u8),
    /// 8XY4: Vx += Vy, VF = carry.
    Add(u8, u8),
    /// 8XY5: Vx -= Vy, VF = no-borrow.
    Sub(u8, u8),
    /// 8XY7: Vx = Vy - Vx, VF = no-borrow.
    SubN(u8, u8),
    /// 8XY6: shift right by one, VF = bit shifted out.
    ShiftRight(u8, u8),
    /// 8XYE: shift left by one, VF = bit shifted out.
    ShiftLeft(u8, u8),
    /// ANNN: I = NNN.
    LoadI(u16),
    /// CXNN: Vx = random byte masked with NN.
    Random(u8, u8),
    /// DXYN: draw an 8xN sprite at (Vx, Vy); DXY0 draws 16x16.
    Draw(u8, u8, u8),
    /// EX9E: skip if the key with index Vx is pressed.
    SkipKey(u8),
    /// EXA1: skip if the key with index Vx is not pressed.
    SkipNoKey(u8),
    /// FX07: Vx = delay timer.
    ReadDelay(u8),
    /// FX15: delay timer = Vx.
    SetDelay(u8),
    /// FX18: sound timer = Vx, tone on.
    SetSound(u8),
    /// FX0A: wait for a key press, store its index in Vx.
    WaitKey(u8),
    /// FX1E: I += Vx.
    AddI(u8),
    /// FX29: I = small font glyph address for digit Vx.
    SmallFont(u8),
    /// FX30: I = large font glyph address for digit Vx.
    LargeFont(u8),
    /// FX33: three decimal digits of Vx at I, I+1, I+2.
    StoreBcd(u8),
    /// FX55: store V0..=Vx at I.
    StoreRegs(u8),
    /// FX65: load V0..=Vx from I.
    LoadRegs(u8),
    /// FX75: save the leading registers to the flag register bank.
    SaveFlags(u8),
    /// FX85: restore the leading registers from the flag register bank.
    RestoreFlags(u8),
    /// Anything else: the two raw opcode bytes.
    Unknown(u8, u8),
}

/// What two opcode bytes decode to.
pub open spec fn decode_spec(hi: u8, lo: u8) -> Instr {
    let family = hi / 16;
    let x = hi % 16;
    let y = lo / 16;
    let n = lo % 16;
    let addr = ((hi % 16) * 256 + lo) as u16;
    if family == 0x0 {
        if lo == 0xE0 {
            Instr::ClearScreen
        } else if lo == 0xEE {
            Instr::Return
        } else if lo == 0xFE {
            Instr::LowRes
        } else if lo == 0xFF {
            Instr::HighRes
        } else if lo == 0xFD {
            Instr::Exit
        } else if lo == 0xFB {
            Instr::ScrollRight
        } else if lo == 0xFC {
            Instr::ScrollLeft
        } else if y == 0xC {
            Instr::ScrollDown(n)
        } else {
            Instr::Unknown(hi, lo)
        }
    } else if family == 0x1 {
        Instr::Jump(addr)
    } else if family == 0x2 {
        Instr::Call(addr)
    } else if family == 0x3 {
        Instr::SkipEqImm(x, lo)
    } else if family == 0x4 {
        Instr::SkipNeImm(x, lo)
    } else if family == 0x5 {
        Instr::SkipEqReg(x, y)
    } else if family == 0x6 {
        Instr::LoadImm(x, lo)
    } else if family == 0x7 {
        Instr::AddImm(x, lo)
    } else if family == 0x8 {
        if n == 0x0 {
            Instr::Move(x, y)
        } else if n == 0x1 {
            Instr::Or(x, y)
        } else if n == 0x2 {
            Instr::And(x, y)
        } else if n == 0x3 {
            Instr::Xor(x, y)
        } else if n == 0x4 {
            Instr::Add(x, y)
        } else if n == 0x5 {
            Instr::Sub(x, y)
        } else if n == 0x7 {
            Instr::SubN(x, y)
        } else if n == 0x6 {
            Instr::ShiftRight(x, y)
        } else if n == 0xE {
            Instr::ShiftLeft(x, y)
        } else {
            Instr::Unknown(hi, lo)
        }
    } else if family == 0x9 {
        Instr::SkipNeReg(x, y)
    } else if family == 0xA {
        Instr::LoadI(addr)
    } else if family == 0xB {
        Instr::JumpV0(addr)
    } else if family == 0xC {
        Instr::Random(x, lo)
    } else if family == 0xD {
        Instr::Draw(x, y, n)
    } else if family == 0xE {
        if lo == 0x9E {
            Instr::SkipKey(x)
        } else if lo == 0xA1 {
            Instr::SkipNoKey(x)
        } else {
            Instr::Unknown(hi, lo)
        }
    } else {
        if lo == 0x07 {
            Instr::ReadDelay(x)
        } else if lo == 0x15 {
            Instr::SetDelay(x)
        } else if lo == 0x18 {
            Instr::SetSound(x)
        } else if lo == 0x0A {
            Instr::WaitKey(x)
        } else if lo == 0x1E {
            Instr::AddI(x)
        } else if lo == 0x29 {
            Instr::SmallFont(x)
        } else if lo == 0x30 {
            Instr::LargeFont(x)
        } else if lo == 0x33 {
            Instr::StoreBcd(x)
        } else if lo == 0x55 {
            Instr::StoreRegs(x)
        } else if lo == 0x65 {
            Instr::LoadRegs(x)
        } else if lo == 0x75 {
            Instr::SaveFlags(x)
        } else if lo == 0x85 {
            Instr::RestoreFlags(x)
        } else {
            Instr::Unknown(hi, lo)
        }
    }
}

/// Register indices named by an instruction are nibbles, addresses are
/// 12 bits, and a scroll distance is a nibble.
pub open spec fn decoded_in_range(i: Instr) -> bool {
    match i {
        Instr::ScrollDown(n) => n < 16,
        Instr::Jump(a) => a < 0x1000,
        Instr::JumpV0(a) => a < 0x1000,
        Instr::Call(a) => a < 0x1000,
        Instr::LoadI(a) => a < 0x1000,
        Instr::SkipEqImm(x, _) => x < 16,
        Instr::SkipNeImm(x, _) => x < 16,
        Instr::SkipEqReg(x, y) => x < 16 && y < 16,
        Instr::SkipNeReg(x, y) => x < 16 && y < 16,
        Instr::LoadImm(x, _) => x < 16,
        Instr::AddImm(x, _) => x < 16,
        Instr::Move(x, y) => x < 16 && y < 16,
        Instr::Or(x, y) => x < 16 && y < 16,
        Instr::And(x, y) => x < 16 && y < 16,
        Instr::Xor(x, y) => x < 16 && y < 16,
        Instr::Add(x, y) => x < 16 && y < 16,
        Instr::Sub(x, y) => x < 16 && y < 16,
        Instr::SubN(x, y) => x < 16 && y < 16,
        Instr::ShiftRight(x, y) => x < 16 && y < 16,
        Instr::ShiftLeft(x, y) => x < 16 && y < 16,
        Instr::Random(x, _) => x < 16,
        Instr::Draw(x, y, n) => x < 16 && y < 16 && n < 16,
        Instr::SkipKey(x) => x < 16,
        Instr::SkipNoKey(x) => x < 16,
        Instr::ReadDelay(x) => x < 16,
        Instr::SetDelay(x) => x < 16,
        Instr::SetSound(x) => x < 16,
        Instr::WaitKey(x) => x < 16,
        Instr::AddI(x) => x < 16,
        Instr::SmallFont(x) => x < 16,
        Instr::LargeFont(x) => x < 16,
        Instr::StoreBcd(x) => x < 16,
        Instr::StoreRegs(x) => x < 16,
        Instr::LoadRegs(x) => x < 16,
        Instr::SaveFlags(x) => x < 16,
        Instr::RestoreFlags(x) => x < 16,
        _ => true,
    }
}

/// Everything a decoded instruction names is in range.
pub proof fn lemma_decode_in_range(hi: u8, lo: u8)
    ensures
        decoded_in_range(decode_spec(hi, lo)),
{
}

/// Splits two opcode bytes into an instruction, exactly as
/// `decode_spec` says.
pub fn decode(hi: u8, lo: u8) -> (instr: Instr)
    ensures
        instr == decode_spec(hi, lo),
{
    let family = hi / 16;
    let x = hi % 16;
    let y = lo / 16;
    let n = lo % 16;
    let addr: u16 = (hi % 16) as u16 * 256 + lo as u16;
    match family {
        0x0 => {
            match lo {
                0xE0 => Instr::ClearScreen,
                0xEE => Instr::Return,
                0xFE => Instr::LowRes,
                0xFF => Instr::HighRes,
                0xFD => Instr::Exit,
                0xFB => Instr::ScrollRight,
                0xFC => Instr::ScrollLeft,
                _ => if y == 0xC {
                    Instr::ScrollDown(n)
                } else {
                    Instr::Unknown(hi, lo)
                },
            }
        },
        0x1 => Instr::Jump(addr),
        0x2 => Instr::Call(addr),
        0x3 => Instr::SkipEqImm(x, lo),
        0x4 => Instr::SkipNeImm(x, lo),
        0x5 => Instr::SkipEqReg(x, y),
        0x6 => Instr::LoadImm(x, lo),
        0x7 => Instr::AddImm(x, lo),
        0x8 => {
            match n {
                0x0 => Instr::Move(x, y),
                0x1 => Instr::Or(x, y),
                0x2 => Instr::And(x, y),
                0x3 => Instr::Xor(x, y),
                0x4 => Instr::Add(x, y),
                0x5 => Instr::Sub(x, y),
                0x7 => Instr::SubN(x, y),
                0x6 => Instr::ShiftRight(x, y),
                0xE => Instr::ShiftLeft(x, y),
                _ => Instr::Unknown(hi, lo),
            }
        },
        0x9 => Instr::SkipNeReg(x, y),
        0xA => Instr::LoadI(addr),
        0xB => Instr::JumpV0(addr),
        0xC => Instr::Random(x, lo),
        0xD => Instr::Draw(x, y, n),
        0xE => {
            match lo {
                0x9E => Instr::SkipKey(x),
                0xA1 => Instr::SkipNoKey(x),
                _ => Instr::Unknown(hi, lo),
            }
        },
        _ => {
            match lo {
                0x07 => Instr::ReadDelay(x),
                0x15 => Instr::SetDelay(x),
                0x18 => Instr::SetSound(x),
                0x0A => Instr::WaitKey(x),
                0x1E => Instr::AddI(x),
                0x29 => Instr::SmallFont(x),
                0x30 => Instr::LargeFont(x),
                0x33 => Instr::StoreBcd(x),
                0x55 => Instr::StoreRegs(x),
                0x65 => Instr::LoadRegs(x),
                0x75 => Instr::SaveFlags(x),
                0x85 => Instr::RestoreFlags(x),
                _ => Instr::Unknown(hi, lo),
            }
        },
    }
}

} // verus!
