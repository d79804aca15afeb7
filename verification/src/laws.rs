//! Laws of the instruction semantics that relate several operations:
//! proved here once, for every machine state they speak of.

use vstd::prelude::*;
use crate::instr::Instr;
use crate::machine::MState;
use crate::step::{step, sprite_bit, cell_index, draw_vram, draw_collision, wrap_add8};
use crate::arith::{
    lemma_wrap_index, lemma_cell_decompose, lemma_xor_involution, lemma_xor_bit,
};

verus! {

/// 7xkk adds the immediate with 8-bit wraparound and leaves the flag
/// register untouched whenever the target is not the flag register itself
/// (a 7Fkk with kk != 0 changes register 15, which is its target).
pub proof fn lemma_add_imm_flag_untouched(m: MState, x: u8, kk: u8, rb: u8)
    requires
        m.wf(),
        x < 16,
    ensures
        step(m, Instr::AddImm(x, kk), rb).v[x as int] == (m.v[x as int] + kk) % 256,
        x != 15 ==> step(m, Instr::AddImm(x, kk), rb).v[15] == m.v[15],
        step(m, Instr::AddImm(x, kk), rb) == (MState {
            v: m.v.update(x as int, wrap_add8(m.v[x as int], kk)),
            ..m
        }),
{
}

/// A call followed by a return restores the program counter to the
/// instruction after the call and the stack pointer to its old depth, for
/// every starting depth 0 through 15 (stack depths 1 through 16 while the
/// call is outstanding); only the written stack slot differs.
pub proof fn lemma_call_then_ret(m: MState, nnn: u16, rb1: u8, rb2: u8)
    requires
        m.wf(),
        m.sp <= 15,
        nnn < 4096,
    ensures
        ({
            let s1 = step(m, Instr::Call(nnn), rb1);
            let s2 = step(s1, Instr::Ret, rb2);
            &&& s1.pc == nnn
            &&& s1.sp == m.sp + 1
            &&& s1.stack[m.sp] == m.pc
            &&& s2.pc == m.pc
            &&& s2.sp == m.sp
            &&& s2 == (MState { stack: m.stack.update(m.sp, m.pc), ..m })
        }),
{
    let s1 = step(m, Instr::Call(nnn), rb1);
    let s2 = step(s1, Instr::Ret, rb2);
    assert(s2 =~= (MState { stack: m.stack.update(m.sp, m.pc), ..m }));
}

/// 8xy5 and 8xy7 set the flag register from a comparison of the source
/// operands before subtracting: 1 exactly when no borrow occurs. The
/// operands must not be the flag register itself, which both write first.
pub proof fn lemma_sub_flags(m: MState, x: u8, y: u8, rb: u8)
    requires
        m.wf(),
        x < 16,
        y < 16,
        x != 15,
        y != 15,
    ensures
        step(m, Instr::SubReg(x, y), rb).v[15] == (if m.v[x as int] > m.v[y as int] {
            1u8
        } else {
            0u8
        }),
        step(m, Instr::SubReg(x, y), rb).v[x as int] == (((m.v[x as int] + 256) - m.v[y as int])
            % 256),
        step(m, Instr::SubnReg(x, y), rb).v[15] == (if m.v[y as int] > m.v[x as int] {
            1u8
        } else {
            0u8
        }),
        step(m, Instr::SubnReg(x, y), rb).v[x as int] == (((m.v[y as int] + 256) - m.v[x as int])
            % 256),
{
}

/// Cxkk stores a random byte masked by kk: whatever byte chance supplies,
/// the stored value never exceeds the mask.
pub proof fn lemma_rnd_masked(m: MState, x: u8, kk: u8, rb: u8)
    requires
        m.wf(),
        x < 16,
    ensures
        step(m, Instr::Rnd(x, kk), rb).v[x as int] == (rb & kk),
        step(m, Instr::Rnd(x, kk), rb).v[x as int] <= kk,
{
    assert((rb & kk) <= kk) by (bit_vector);
}

/// While the font table is intact in low memory (as construction leaves
/// it), Fx29 points the index register at glyph v[x] * 5, and the five
/// bytes there are exactly that digit's glyph.
pub proof fn lemma_font_lookup(m: MState, x: u8, rb: u8)
    requires
        m.wf(),
        x < 16,
        m.v[x as int] < 16,
        forall|a: int| 0 <= a < 80 ==> m.ram[a] == crate::machine::font_spec()[a],
    ensures
        step(m, Instr::LdFont(x), rb).i == 5 * m.v[x as int],
        forall|j: int|
            0 <= j < 5 ==> #[trigger] step(m, Instr::LdFont(x), rb).ram[step(
                m,
                Instr::LdFont(x),
                rb,
            ).i + j] == crate::machine::font_spec()[5 * m.v[x as int] + j],
{
}

/// Whether the sprite of a Dxyn at the current index register has any set
/// bit at all.
pub open spec fn sprite_visible(m: MState, n: u8) -> bool {
    exists|b: int, t: int| 0 <= b < n && 0 <= t < 8 && sprite_bit(m.ram, m.i, b, t) == 1
}

/// Whether every display cell a Dxyn would touch is currently clear.
pub open spec fn target_clear(m: MState, x: u8, y: u8, n: u8) -> bool {
    forall|b: int, t: int|
        0 <= b < n && 0 <= t < 8 ==> m.vram[#[trigger] cell_index(
            (m.v[y as int] + b) % 32,
            (m.v[x as int] + t) % 64,
        )] == 0
}

/// Drawing the same sprite at the same location twice leaves every display
/// cell exactly as it started (XOR is an involution), and when the first
/// draw started from clear cells and the sprite has any set bit, the
/// second draw reports a collision in the flag register. Registers x and y
/// must not be the flag register, which the draw itself overwrites.
pub proof fn lemma_draw_twice(m: MState, x: u8, y: u8, n: u8, rb1: u8, rb2: u8)
    requires
        m.wf(),
        x < 16,
        y < 16,
        n < 16,
        x != 15,
        y != 15,
        n > 0 ==> m.i + n <= 4096,
    ensures
        ({
            let s1 = step(m, Instr::Drw(x, y, n), rb1);
            let s2 = step(s1, Instr::Drw(x, y, n), rb2);
            &&& s2.vram == m.vram
            &&& (sprite_visible(m, n) && target_clear(m, x, y, n)) ==> s2.v[15] == 1
        }),
{
    let s1 = step(m, Instr::Drw(x, y, n), rb1);
    let s2 = step(s1, Instr::Drw(x, y, n), rb2);
    let vx = m.v.update(15, 0u8)[x as int] as int;
    let vy = m.v.update(15, 0u8)[y as int] as int;
    let ni = n as int;
    assert(s1.vram == draw_vram(m.vram, m.ram, m.i, vx, vy, ni));
    assert(s2.vram == draw_vram(s1.vram, m.ram, m.i, vx, vy, ni));
    assert forall|k: int| 0 <= k < 2048 implies #[trigger] s2.vram[k] == m.vram[k] by {
        vstd::arithmetic::div_mod::lemma_fundamental_div_mod(k, 64);
        vstd::arithmetic::div_mod::lemma_mod_pos_bound(k, 64);
        let bb = (k / 64 - vy) % 32;
        let tt = (k % 64 - vx) % 64;
        if bb < ni && tt < 8 {
            lemma_xor_involution(m.vram[k], sprite_bit(m.ram, m.i, bb, tt));
        }
    }
    assert(s2.vram =~= m.vram);
    if sprite_visible(m, n) && target_clear(m, x, y, n) {
        let (b, t) = choose|b: int, t: int|
            0 <= b < n && 0 <= t < 8 && sprite_bit(m.ram, m.i, b, t) == 1;
        let r = (vy + b) % 32;
        let c = (vx + t) % 64;
        vstd::arithmetic::div_mod::lemma_mod_pos_bound(vy + b, 32);
        vstd::arithmetic::div_mod::lemma_mod_pos_bound(vx + t, 64);
        let k = cell_index(r, c);
        lemma_cell_decompose(r, c);
        lemma_wrap_index(vy, b, 32);
        lemma_wrap_index(vx, t, 64);
        assert(m.vram[k] == 0);
        lemma_xor_bit(m.vram[k], sprite_bit(m.ram, m.i, b, t));
        assert(s1.vram[k] == 1);
        assert(draw_collision(s1.vram, m.ram, m.i, vx, vy, ni) == 1);
        assert(s2.v[15] == 1);
    }
}

} // verus!
