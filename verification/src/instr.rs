//! Instruction decoding: the 16-bit opcode word is classified by its four
//! 4-bit nibbles into a tagged instruction value with its operands.

use vstd::prelude::*;

verus! {

/// One decoded instruction. Operands: `x` and `y` name general registers
/// (4-bit, below 16), `kk` is an 8-bit immediate, `nnn` a 12-bit address,
/// `n` a 4-bit row count. A word matching no recognized pattern is `Nop`.
#[derive(Clone, Copy, PartialEq, Eq, Structural, Debug)]
pub enum Instr {
    /// 00E0: clear the display.
    Cls,
    /// 00EE: pop the return address into the program counter.
    Ret,
    /// 1nnn: jump.
    Jp(u16),
    /// 2nnn: call; saves the current program counter when a slot is free,
    /// and always deepens the stack pointer, even past the 16 slots.
    Call(u16),
    /// 3xkk: skip next instruction if register x equals kk.
    SeImm(u8, u8),
    /// 4xkk: skip next instruction if register x differs from kk.
    SneImm(u8, u8),
    /// 5xy0: skip next instruction if register x equals register y.
    SeReg(u8, u8),
    /// 6xkk: register x <- kk.
    LdImm(u8, u8),
    /// 7xkk: register x <- x + kk, 8-bit wraparound, flag untouched.
    AddImm(u8, u8),
    /// 8xy0: register x <- register y.
    LdReg(u8, u8),
    /// 8xy1: register x <- x | y.
    OrReg(u8, u8),
    /// 8xy2: register x <- x & y.
    AndReg(u8, u8),
    /// 8xy3: register x <- x ^ y.
    XorReg(u8, u8),
    /// 8xy4: register x <- x + y wrapped; flag <- carry.
    AddReg(u8, u8),
    /// 8xy5: flag <- (x > y); register x <- x - y wrapped.
    SubReg(u8, u8),
    /// 8xy6: flag <- low bit of x; register x <- x >> 1.
    Shr(u8),
    /// 8xy7: flag <- (y > x); register x <- y - x wrapped.
    SubnReg(u8, u8),
    /// 8xyE: flag <- high bit of x; register x <- x << 1 truncated.
    Shl(u8),
    /// 9xy0: skip next instruction if register x differs from register y.
    SneReg(u8, u8),
    /// Annn: index register <- nnn.
    LdI(u16),
    /// Bnnn: program counter <- register 0 + nnn.
    JpV0(u16),
    /// Cxkk: register x <- random byte & kk.
    Rnd(u8, u8),
    /// Dxyn: draw an n-row sprite from memory[index] at (register x, register y).
    Drw(u8, u8, u8),
    /// Ex9E: skip next instruction if key register-x is pressed.
    SkpKey(u8),
    /// ExA1: skip next instruction if key register-x is released.
    SknpKey(u8),
    /// Fx07: register x <- delay timer.
    LdFromDt(u8),
    /// Fx0A: enter the key-wait state targeting register x.
    WaitKey(u8),
    /// Fx15: delay timer <- register x.
    SetDt(u8),
    /// Fx18: sound timer <- register x.
    SetSt(u8),
    /// Fx1E: index register += register x, 16-bit wraparound; flag from the result.
    AddI(u8),
    /// Fx29: index register <- register x * 5, the glyph base address.
    LdFont(u8),
    /// Fx33: store the decimal digits of register x at index, index+1, index+2.
    StoreBcd(u8),
    /// Fx55: store registers 0..=x into memory starting at index.
    StoreRegs(u8),
    /// Fx65: load registers 0..=x from memory starting at index.
    LoadRegs(u8),
    /// Any unrecognized word: no effect.
    Nop,
}

/// Second nibble: the register operand x.
pub open spec fn op_x(op: u16) -> u8 {
    ((op >> 8) & 0xF) as u8
}

/// Third nibble: the register operand y.
pub open spec fn op_y(op: u16) -> u8 {
    ((op >> 4) & 0xF) as u8
}

/// Fourth nibble: the count operand n.
pub open spec fn op_n(op: u16) -> u8 {
    (op & 0xF) as u8
}

/// Low byte: the immediate operand kk.
pub open spec fn op_kk(op: u16) -> u8 {
    (op & 0xFF) as u8
}

/// Low 12 bits: the address operand nnn.
pub open spec fn op_nnn(op: u16) -> u16 {
    op & 0xFFF
}

/// Classification of an opcode word into an instruction.
pub open spec fn decode_spec(op: u16) -> Instr {
    let h = op >> 12;
    let x = op_x(op);
    let y = op_y(op);
    let n = op_n(op);
    let kk = op_kk(op);
    let nnn = op_nnn(op);
    if op == 0x00E0 {
        Instr::Cls
    } else if op == 0x00EE {
        Instr::Ret
    } else if h == 0x1 {
        Instr::Jp(nnn)
    } else if h == 0x2 {
        Instr::Call(nnn)
    } else if h == 0x3 {
        Instr::SeImm(x, kk)
    } else if h == 0x4 {
        Instr::SneImm(x, kk)
    } else if h == 0x5 && n == 0x0 {
        Instr::SeReg(x, y)
    } else if h == 0x6 {
        Instr::LdImm(x, kk)
    } else if h == 0x7 {
        Instr::AddImm(x, kk)
    } else if h == 0x8 && n == 0x0 {
        Instr::LdReg(x, y)
    } else if h == 0x8 && n == 0x1 {
        Instr::OrReg(x, y)
    } else if h == 0x8 && n == 0x2 {
        Instr::AndReg(x, y)
    } else if h == 0x8 && n == 0x3 {
        Instr::XorReg(x, y)
    } else if h == 0x8 && n == 0x4 {
        Instr::AddReg(x, y)
    } else if h == 0x8 && n == 0x5 {
        Instr::SubReg(x, y)
    } else if h == 0x8 && n == 0x6 {
        Instr::Shr(x)
    } else if h == 0x8 && n == 0x7 {
        Instr::SubnReg(x, y)
    } else if h == 0x8 && n == 0xE {
        Instr::Shl(x)
    } else if h == 0x9 && n == 0x0 {
        Instr::SneReg(x, y)
    } else if h == 0xA {
        Instr::LdI(nnn)
    } else if h == 0xB {
        Instr::JpV0(nnn)
    } else if h == 0xC {
        Instr::Rnd(x, kk)
    } else if h == 0xD {
        Instr::Drw(x, y, n)
    } else if h == 0xE && kk == 0x9E {
        Instr::SkpKey(x)
    } else if h == 0xE && kk == 0xA1 {
        Instr::SknpKey(x)
    } else if h == 0xF && kk == 0x07 {
        Instr::LdFromDt(x)
    } else if h == 0xF && kk == 0x0A {
        Instr::WaitKey(x)
    } else if h == 0xF && kk == 0x15 {
        Instr::SetDt(x)
    } else if h == 0xF && kk == 0x18 {
        Instr::SetSt(x)
    } else if h == 0xF && kk == 0x1E {
        Instr::AddI(x)
    } else if h == 0xF && kk == 0x29 {
        Instr::LdFont(x)
    } else if h == 0xF && kk == 0x33 {
        Instr::StoreBcd(x)
    } else if h == 0xF && kk == 0x55 {
        Instr::StoreRegs(x)
    } else if h == 0xF && kk == 0x65 {
        Instr::LoadRegs(x)
    } else {
        Instr::Nop
    }
}

/// Bounds that decoding guarantees of every operand.
pub open spec fn instr_wf(d: Instr) -> bool {
    match d {
        Instr::Jp(nnn) => nnn < 4096,
        Instr::Call(nnn) => nnn < 4096,
        Instr::SeImm(x, _) => x < 16,
        Instr::SneImm(x, _) => x < 16,
        Instr::SeReg(x, y) => x < 16 && y < 16,
        Instr::LdImm(x, _) => x < 16,
        Instr::AddImm(x, _) => x < 16,
        Instr::LdReg(x, y) => x < 16 && y < 16,
        Instr::OrReg(x, y) => x < 16 && y < 16,
        Instr::AndReg(x, y) => x < 16 && y < 16,
        Instr::XorReg(x, y) => x < 16 && y < 16,
        Instr::AddReg(x, y) => x < 16 && y < 16,
        Instr::SubReg(x, y) => x < 16 && y < 16,
        Instr::Shr(x) => x < 16,
        Instr::SubnReg(x, y) => x < 16 && y < 16,
        Instr::Shl(x) => x < 16,
        Instr::SneReg(x, y) => x < 16 && y < 16,
        Instr::LdI(nnn) => nnn < 4096,
        Instr::JpV0(nnn) => nnn < 4096,
        Instr::Rnd(x, _) => x < 16,
        Instr::Drw(x, y, n) => x < 16 && y < 16 && n < 16,
        Instr::SkpKey(x) => x < 16,
        Instr::SknpKey(x) => x < 16,
        Instr::LdFromDt(x) => x < 16,
        Instr::WaitKey(x) => x < 16,
        Instr::SetDt(x) => x < 16,
        Instr::SetSt(x) => x < 16,
        Instr::AddI(x) => x < 16,
        Instr::LdFont(x) => x < 16,
        Instr::StoreBcd(x) => x < 16,
        Instr::StoreRegs(x) => x < 16,
        Instr::LoadRegs(x) => x < 16,
        _ => true,
    }
}

/// Every decoded instruction has in-range operands.
pub proof fn lemma_decode_wf(op: u16)
    ensures
        instr_wf(decode_spec(op)),
{
    assert((op >> 8) & 0xF < 16) by (bit_vector);
    assert((op >> 4) & 0xF < 16) by (bit_vector);
    assert(op & 0xF < 16) by (bit_vector);
    assert(op & 0xFFF < 4096) by (bit_vector);
}

/// Decode one opcode word.
pub fn decode(op: u16) -> (d: Instr)
    ensures
        d == decode_spec(op),
        instr_wf(d),
{
    proof {
        lemma_decode_wf(op);
    }
    let h = op >> 12;
    let x = ((op >> 8) & 0xF) as u8;
    let y = ((op >> 4) & 0xF) as u8;
    let n = (op & 0xF) as u8;
    let kk = (op & 0xFF) as u8;
    let nnn = op & 0xFFF;
    if op == 0x00E0 {
        Instr::Cls
    } else if op == 0x00EE {
        Instr::Ret
    } else if h == 0x1 {
        Instr::Jp(nnn)
    } else if h == 0x2 {
        Instr::Call(nnn)
    } else if h == 0x3 {
        Instr::SeImm(x, kk)
    } else if h == 0x4 {
        Instr::SneImm(x, kk)
    } else if h == 0x5 && n == 0x0 {
        Instr::SeReg(x, y)
    } else if h == 0x6 {
        Instr::LdImm(x, kk)
    } else if h == 0x7 {
        Instr::AddImm(x, kk)
    } else if h == 0x8 && n == 0x0 {
        Instr::LdReg(x, y)
    } else if h == 0x8 && n == 0x1 {
        Instr::OrReg(x, y)
    } else if h == 0x8 && n == 0x2 {
        Instr::AndReg(x, y)
    } else if h == 0x8 && n == 0x3 {
        Instr::XorReg(x, y)
    } else if h == 0x8 && n == 0x4 {
        Instr::AddReg(x, y)
    } else if h == 0x8 && n == 0x5 {
        Instr::SubReg(x, y)
    } else if h == 0x8 && n == 0x6 {
        Instr::Shr(x)
    } else if h == 0x8 && n == 0x7 {
        Instr::SubnReg(x, y)
    } else if h == 0x8 && n == 0xE {
        Instr::Shl(x)
    } else if h == 0x9 && n == 0x0 {
        Instr::SneReg(x, y)
    } else if h == 0xA {
        Instr::LdI(nnn)
    } else if h == 0xB {
        Instr::JpV0(nnn)
    } else if h == 0xC {
        Instr::Rnd(x, kk)
    } else if h == 0xD {
        Instr::Drw(x, y, n)
    } else if h == 0xE && kk == 0x9E {
        Instr::SkpKey(x)
    } else if h == 0xE && kk == 0xA1 {
        Instr::SknpKey(x)
    } else if h == 0xF && kk == 0x07 {
        Instr::LdFromDt(x)
    } else if h == 0xF && kk == 0x0A {
        Instr::WaitKey(x)
    } else if h == 0xF && kk == 0x15 {
        Instr::SetDt(x)
    } else if h == 0xF && kk == 0x18 {
        Instr::SetSt(x)
    } else if h == 0xF && kk == 0x1E {
        Instr::AddI(x)
    } else if h == 0xF && kk == 0x29 {
        Instr::LdFont(x)
    } else if h == 0xF && kk == 0x33 {
        Instr::StoreBcd(x)
    } else if h == 0xF && kk == 0x55 {
        Instr::StoreRegs(x)
    } else if h == 0xF && kk == 0x65 {
        Instr::LoadRegs(x)
    } else {
        Instr::Nop
    }
}

} // verus!
