//! The exact semantics of every instruction, as a function from machine
//! state to machine state. `Machine::run_opcode` is proved against `step`.

use vstd::prelude::*;
use crate::instr::Instr;
use crate::machine::MState;

verus! {

/// 8-bit wraparound sum.
pub open spec fn wrap_add8(a: u8, b: u8) -> u8 {
    ((a + b) % 256) as u8
}

/// 8-bit wraparound difference.
pub open spec fn wrap_sub8(a: u8, b: u8) -> u8 {
    (((a + 256) - b) % 256) as u8
}

/// Bit `t` (0 = leftmost) of sprite row `b`, read from memory at `i + b`.
pub open spec fn sprite_bit(ram: Seq<u8>, i: int, b: int, t: int) -> u8 {
    (ram[i + b] >> ((7 - t) as u8)) & 1
}

/// Row-major index of display cell (r, c).
pub open spec fn cell_index(r: int, c: int) -> int {
    r * 64 + c
}

/// Display cell `k` after drawing an n-row sprite at column vx, row vy:
/// the sprite bit lands at coordinates wrapped modulo 64 and 32 and is
/// XORed into the cell; every other cell keeps its value.
pub open spec fn draw_cell(
    vram: Seq<u8>,
    ram: Seq<u8>,
    i: int,
    vx: int,
    vy: int,
    n: int,
    k: int,
) -> u8 {
    let r = k / 64;
    let c = k % 64;
    let b = (r - vy) % 32;
    let t = (c - vx) % 64;
    if b < n && t < 8 {
        vram[k] ^ sprite_bit(ram, i, b, t)
    } else {
        vram[k]
    }
}

/// The whole display after a draw.
pub open spec fn draw_vram(
    vram: Seq<u8>,
    ram: Seq<u8>,
    i: int,
    vx: int,
    vy: int,
    n: int,
) -> Seq<u8> {
    Seq::new(2048, |k: int| draw_cell(vram, ram, i, vx, vy, n, k))
}

/// Collision flag of a draw: 1 exactly when some set sprite bit lands on a
/// cell that was already set.
pub open spec fn draw_collision(
    vram: Seq<u8>,
    ram: Seq<u8>,
    i: int,
    vx: int,
    vy: int,
    n: int,
) -> u8 {
    if exists|b: int, t: int|
        0 <= b < n && 0 <= t < 8 && sprite_bit(ram, i, b, t) == 1 && vram[cell_index(
            (vy + b) % 32,
            (vx + t) % 64,
        )] == 1 {
        1
    } else {
        0
    }
}

/// Memory after storing registers 0..=x at addresses i..=i+x.
pub open spec fn store_regs_ram(ram: Seq<u8>, v: Seq<u8>, i: int, x: int) -> Seq<u8> {
    Seq::new(4096, |a: int| if i <= a <= i + x { v[a - i] } else { ram[a] })
}

/// Registers after loading 0..=x from addresses i..=i+x.
pub open spec fn load_regs_v(ram: Seq<u8>, v: Seq<u8>, i: int, x: int) -> Seq<u8> {
    Seq::new(16, |j: int| if j <= x { ram[i + j] } else { v[j] })
}

/// The conditions under which executing `d` cannot fault: the stack slot
/// read by a return exists, memory reads and writes through the index
/// register stay inside the 4096 bytes, a skip's key number names one of
/// the 16 keys, and counters do not exceed the machine word.
pub open spec fn step_ok(m: MState, d: Instr) -> bool {
    match d {
        Instr::Ret => 1 <= m.sp <= 16,
        Instr::Call(_) => m.sp < usize::MAX,
        Instr::SeImm(_, _) => m.pc + 2 <= usize::MAX,
        Instr::SneImm(_, _) => m.pc + 2 <= usize::MAX,
        Instr::SeReg(_, _) => m.pc + 2 <= usize::MAX,
        Instr::SneReg(_, _) => m.pc + 2 <= usize::MAX,
        Instr::SkpKey(x) => m.v[x as int] < 16 && m.pc + 2 <= usize::MAX,
        Instr::SknpKey(x) => m.v[x as int] < 16 && m.pc + 2 <= usize::MAX,
        Instr::Drw(_, _, n) => n > 0 ==> m.i + n <= 4096,
        Instr::StoreBcd(_) => m.i + 2 < 4096,
        Instr::StoreRegs(x) => m.i + x < 4096,
        Instr::LoadRegs(x) => m.i + x < 4096,
        _ => true,
    }
}

/// The effect of one instruction on the machine state, executed after the
/// program counter has already advanced past it. `rb` is the random byte a
/// `Rnd` instruction consumes; every other instruction ignores it.
pub open spec fn step(m: MState, d: Instr, rb: u8) -> MState {
    match d {
        Instr::Cls => MState {
            vram: Seq::new(2048, |k: int| 0u8),
            vram_changed: true,
            ..m
        },
        Instr::Ret => MState { sp: m.sp - 1, pc: m.stack[m.sp - 1], ..m },
        Instr::Jp(nnn) => MState { pc: nnn as int, ..m },
        Instr::Call(nnn) => MState {
            stack: if m.sp < 16 {
                m.stack.update(m.sp, m.pc)
            } else {
                m.stack
            },
            sp: m.sp + 1,
            pc: nnn as int,
            ..m
        },
        Instr::SeImm(x, kk) => if m.v[x as int] == kk {
            MState { pc: m.pc + 2, ..m }
        } else {
            m
        },
        Instr::SneImm(x, kk) => if m.v[x as int] != kk {
            MState { pc: m.pc + 2, ..m }
        } else {
            m
        },
        Instr::SeReg(x, y) => if m.v[x as int] == m.v[y as int] {
            MState { pc: m.pc + 2, ..m }
        } else {
            m
        },
        Instr::LdImm(x, kk) => MState { v: m.v.update(x as int, kk), ..m },
        Instr::AddImm(x, kk) => MState {
            v: m.v.update(x as int, wrap_add8(m.v[x as int], kk)),
            ..m
        },
        Instr::LdReg(x, y) => MState { v: m.v.update(x as int, m.v[y as int]), ..m },
        Instr::OrReg(x, y) => MState {
            v: m.v.update(x as int, m.v[x as int] | m.v[y as int]),
            ..m
        },
        Instr::AndReg(x, y) => MState {
            v: m.v.update(x as int, m.v[x as int] & m.v[y as int]),
            ..m
        },
        Instr::XorReg(x, y) => MState {
            v: m.v.update(x as int, m.v[x as int] ^ m.v[y as int]),
            ..m
        },
        Instr::AddReg(x, y) => {
            let s = m.v[x as int] + m.v[y as int];
            let carry: u8 = if s > 255 {
                1
            } else {
                0
            };
            MState { v: m.v.update(x as int, (s % 256) as u8).update(15, carry), ..m }
        },
        Instr::SubReg(x, y) => {
            // The flag is written first; a subtraction aimed at register 15
            // therefore reads the flag it just stored.
            let f: u8 = if m.v[x as int] > m.v[y as int] {
                1
            } else {
                0
            };
            let v1 = m.v.update(15, f);
            MState { v: v1.update(x as int, wrap_sub8(v1[x as int], v1[y as int])), ..m }
        },
        Instr::Shr(x) => {
            let f: u8 = m.v[x as int] & 1;
            let v1 = m.v.update(15, f);
            MState { v: v1.update(x as int, v1[x as int] >> 1u8), ..m }
        },
        Instr::SubnReg(x, y) => {
            let f: u8 = if m.v[y as int] > m.v[x as int] {
                1
            } else {
                0
            };
            let v1 = m.v.update(15, f);
            MState { v: v1.update(x as int, wrap_sub8(v1[y as int], v1[x as int])), ..m }
        },
        Instr::Shl(x) => {
            let f: u8 = (m.v[x as int] & 0x80) >> 7u8;
            let v1 = m.v.update(15, f);
            MState { v: v1.update(x as int, ((v1[x as int] * 2) % 256) as u8), ..m }
        },
        Instr::SneReg(x, y) => if m.v[x as int] != m.v[y as int] {
            MState { pc: m.pc + 2, ..m }
        } else {
            m
        },
        Instr::LdI(nnn) => MState { i: nnn as int, ..m },
        Instr::JpV0(nnn) => MState { pc: m.v[0] + nnn, ..m },
        Instr::Rnd(x, kk) => MState { v: m.v.update(x as int, rb & kk), ..m },
        Instr::Drw(x, y, n) => {
            // The flag is cleared before the coordinates are read, so a draw
            // whose x or y names register 15 draws from coordinate 0.
            let v1 = m.v.update(15, 0u8);
            let vx = v1[x as int] as int;
            let vy = v1[y as int] as int;
            MState {
                vram: draw_vram(m.vram, m.ram, m.i, vx, vy, n as int),
                v: v1.update(15, draw_collision(m.vram, m.ram, m.i, vx, vy, n as int)),
                vram_changed: true,
                ..m
            }
        },
        Instr::SkpKey(x) => if m.input[m.v[x as int] as int] {
            MState { pc: m.pc + 2, ..m }
        } else {
            m
        },
        Instr::SknpKey(x) => if !m.input[m.v[x as int] as int] {
            MState { pc: m.pc + 2, ..m }
        } else {
            m
        },
        Instr::LdFromDt(x) => MState { v: m.v.update(x as int, m.dt), ..m },
        Instr::WaitKey(x) => MState { wait_input: true, input_reg: x as int, ..m },
        Instr::SetDt(x) => MState { dt: m.v[x as int], ..m },
        Instr::SetSt(x) => MState { st: m.v[x as int], ..m },
        Instr::AddI(x) => {
            let ni = (m.i + m.v[x as int]) % 0x10000;
            let f: u8 = if ni > 0x0F00 {
                1
            } else {
                0
            };
            MState { i: ni, v: m.v.update(15, f), ..m }
        },
        Instr::LdFont(x) => MState { i: m.v[x as int] * 5, ..m },
        Instr::StoreBcd(x) => {
            let b = m.v[x as int];
            MState {
                ram: m.ram.update(m.i, b / 100).update(m.i + 1, (b % 100) / 10).update(
                    m.i + 2,
                    b % 10,
                ),
                ..m
            }
        },
        Instr::StoreRegs(x) => MState {
            ram: store_regs_ram(m.ram, m.v, m.i, x as int),
            ..m
        },
        Instr::LoadRegs(x) => MState { v: load_regs_v(m.ram, m.v, m.i, x as int), ..m },
        Instr::Nop => m,
    }
}

} // verus!
