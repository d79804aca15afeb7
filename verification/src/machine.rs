//! The machine state: memory, registers, display, timers and keypad input,
//! with its abstract view and the constructor.

use vstd::prelude::*;
use crate::instr::{Instr, decode, decode_spec};
use crate::step::{
    step, step_ok, sprite_bit, cell_index, draw_vram, draw_collision, store_regs_ram, load_regs_v,
};
use crate::arith::{
    lemma_wrap_index, lemma_wrap_index_unique, lemma_cell_decompose, lemma_extracted_bit,
    lemma_xor_bit, lemma_and_bit, lemma_or_bit,
};

verus! {

/// Size of the addressable memory in bytes.
pub const MEMSIZ: usize = 4096;

/// Columns of the display grid.
pub const VRAM_WIDTH: usize = 64;

/// Rows of the display grid.
pub const VRAM_HEIGHT: usize = 32;

/// Cells of the display grid, stored row-major: cell (r, c) is at r * 64 + c.
pub const VRAM_CELLS: usize = 2048;

/// Largest program that fits between address 0x200 and the end of memory.
pub const ROMSIZE: usize = 3584;

/// Abstract view of the whole machine state.
#[verifier::ext_equal]
pub ghost struct MState {
    /// The 4096 memory bytes.
    pub ram: Seq<u8>,
    /// The 2048 display cells, row-major, each 0 or 1.
    pub vram: Seq<u8>,
    /// Whether a clear or draw instruction executed this tick.
    pub vram_changed: bool,
    /// Program counter.
    pub pc: int,
    /// Stack pointer (call depth; may exceed 16, see `Instr::Call`).
    pub sp: int,
    /// The 16 return-address slots.
    pub stack: Seq<int>,
    /// The 16 general registers; register 15 doubles as the flag register.
    pub v: Seq<u8>,
    /// The 16-bit index register.
    pub i: int,
    /// Delay timer.
    pub dt: u8,
    /// Sound timer.
    pub st: u8,
    /// Keypad state supplied at the last tick.
    pub input: Seq<bool>,
    /// Register targeted by a pending key wait.
    pub input_reg: int,
    /// Whether the machine is blocked waiting for a key press.
    pub wait_input: bool,
}

impl MState {
    /// Structural bounds that every reachable machine state satisfies.
    pub open spec fn wf(self) -> bool {
        &&& self.ram.len() == 4096
        &&& self.vram.len() == 2048
        &&& self.stack.len() == 16
        &&& self.v.len() == 16
        &&& self.input.len() == 16
        &&& 0 <= self.pc
        &&& 0 <= self.sp
        &&& 0 <= self.i < 0x10000
        &&& 0 <= self.input_reg < 16
        &&& forall|j: int| 0 <= j < 16 ==> 0 <= #[trigger] self.stack[j]
        &&& forall|k: int| 0 <= k < 2048 ==> #[trigger] self.vram[k] <= 1
    }
}

/// The interpreter core: all machine state, mutated in place by `tick`.
pub struct Machine {
    ram: [u8; 4096],
    vram: [u8; 2048],
    vram_changed: bool,
    pc: usize,
    sp: usize,
    stack: [usize; 16],
    v: [u8; 16],
    i: u16,
    dt: u8,
    st: u8,
    input: [bool; 16],
    input_reg: usize,
    wait_input: bool,
}

impl View for Machine {
    type V = MState;

    closed spec fn view(&self) -> MState {
        MState {
            ram: self.ram@,
            vram: self.vram@,
            vram_changed: self.vram_changed,
            pc: self.pc as int,
            sp: self.sp as int,
            stack: self.stack@.map_values(|a: usize| a as int),
            v: self.v@,
            i: self.i as int,
            dt: self.dt,
            st: self.st,
            input: self.input@,
            input_reg: self.input_reg as int,
            wait_input: self.wait_input,
        }
    }
}

/// The built-in hexadecimal font: 16 glyphs of 5 bytes each.
pub open spec fn font_spec() -> Seq<u8> {
    seq![
        0xF0u8, 0x90, 0x90, 0x90, 0xF0,
        0x20, 0x60, 0x20, 0x20, 0x70,
        0xF0, 0x10, 0xF0, 0x80, 0xF0,
        0xF0, 0x10, 0xF0, 0x10, 0xF0,
        0x90, 0x90, 0xF0, 0x10, 0x10,
        0xF0, 0x80, 0xF0, 0x10, 0xF0,
        0xF0, 0x80, 0xF0, 0x90, 0xF0,
        0xF0, 0x10, 0x20, 0x40, 0x40,
        0xF0, 0x90, 0xF0, 0x90, 0xF0,
        0xF0, 0x90, 0xF0, 0x10, 0xF0,
        0xF0, 0x90, 0xF0, 0x90, 0x90,
        0xE0, 0x90, 0xE0, 0x90, 0xE0,
        0xF0, 0x80, 0x80, 0x80, 0xF0,
        0xE0, 0x90, 0x90, 0x90, 0xE0,
        0xF0, 0x80, 0xF0, 0x80, 0xF0,
        0xF0, 0x80, 0xF0, 0x80, 0x80,
    ]
}

/// The state of a freshly constructed machine: memory zero except the font,
/// display clear, registers zero, program counter at 0x200.
pub open spec fn init_state() -> MState {
    MState {
        ram: Seq::new(4096, |a: int| if a < 80 { font_spec()[a] } else { 0u8 }),
        vram: Seq::new(2048, |k: int| 0u8),
        vram_changed: false,
        pc: 0x200,
        sp: 0,
        stack: Seq::new(16, |j: int| 0int),
        v: Seq::new(16, |j: int| 0u8),
        i: 0,
        dt: 0,
        st: 0,
        input: Seq::new(16, |j: int| false),
        input_reg: 0,
        wait_input: false,
    }
}

impl Machine {
    /// Construct the machine in its initial state.
    pub fn new() -> (r: Machine)
        ensures
            r@ == init_state(),
            r@.wf(),
    {
        let font: [u8; 80] = [
            0xF0, 0x90, 0x90, 0x90, 0xF0,
            0x20, 0x60, 0x20, 0x20, 0x70,
            0xF0, 0x10, 0xF0, 0x80, 0xF0,
            0xF0, 0x10, 0xF0, 0x10, 0xF0,
            0x90, 0x90, 0xF0, 0x10, 0x10,
            0xF0, 0x80, 0xF0, 0x10, 0xF0,
            0xF0, 0x80, 0xF0, 0x90, 0xF0,
            0xF0, 0x10, 0x20, 0x40, 0x40,
            0xF0, 0x90, 0xF0, 0x90, 0xF0,
            0xF0, 0x90, 0xF0, 0x10, 0xF0,
            0xF0, 0x90, 0xF0, 0x90, 0x90,
            0xE0, 0x90, 0xE0, 0x90, 0xE0,
            0xF0, 0x80, 0x80, 0x80, 0xF0,
            0xE0, 0x90, 0x90, 0x90, 0xE0,
            0xF0, 0x80, 0xF0, 0x80, 0xF0,
            0xF0, 0x80, 0xF0, 0x80, 0x80,
        ];
        proof {
            assert(font@ =~= font_spec());
        }
        let mut ram: [u8; 4096] = [0; 4096];
        let mut j: usize = 0;
        while j < 80
            invariant
                j <= 80,
                font@ == font_spec(),
                ram@.len() == 4096,
                forall|a: int| 0 <= a < j ==> ram@[a] == font_spec()[a],
                forall|a: int| j <= a < 4096 ==> ram@[a] == 0u8,
            decreases 80 - j,
        {
            ram[j] = font[j];
            j += 1;
        }
        let m = Machine {
            ram,
            vram: [0; 2048],
            vram_changed: false,
            pc: 0x200,
            sp: 0,
            stack: [0; 16],
            v: [0; 16],
            i: 0,
            dt: 0,
            st: 0,
            input: [false; 16],
            input_reg: 0,
            wait_input: false,
        };
        proof {
            assert(m@.ram =~= init_state().ram);
            assert(m@.vram =~= init_state().vram);
            assert(m@.stack =~= init_state().stack);
            assert(m@.v =~= init_state().v);
            assert(m@.input =~= init_state().input);
            assert(m@ =~= init_state());
        }
        m
    }
}

/// The 16-bit big-endian instruction word at the program counter.
pub open spec fn fetch(m: MState) -> u16 {
    ((m.ram[m.pc] as u16) << 8u16) | (m.ram[m.pc + 1] as u16)
}

/// Memory after copying a program to address 0x200 onward, silently
/// discarding any byte that would land at or beyond address 4096.
pub open spec fn overlay_rom(ram: Seq<u8>, rom: Seq<u8>) -> Seq<u8> {
    Seq::new(
        4096,
        |a: int|
            if 0x200 <= a < 0x200 + rom.len() {
                rom[a - 0x200]
            } else {
                ram[a]
            },
    )
}

impl Machine {
    /// Read the instruction word at the program counter.
    pub fn get_opcode(&self) -> (op: u16)
        requires
            self@.pc + 1 < 4096,
        ensures
            op == fetch(self@),
    {
        ((self.ram[self.pc] as u16) << 8) | (self.ram[self.pc + 1] as u16)
    }

    /// Advance the program counter past one instruction.
    pub fn increment_pc(&mut self)
        requires
            old(self)@.pc + 2 <= usize::MAX,
        ensures
            final(self)@ == (MState { pc: old(self)@.pc + 2, ..old(self)@ }),
    {
        self.pc = self.pc + 2;
    }

    /// Copy a program into memory at address 0x200, truncating at the end
    /// of memory.
    pub fn rom_to_ram(&mut self, rom: &[u8])
        ensures
            final(self)@ == (MState { ram: overlay_rom(old(self)@.ram, rom@), ..old(self)@ }),
    {
        let ghost pre = self@;
        let mut j: usize = 0;
        while j < rom.len() && j < 3584
            invariant
                j <= rom@.len(),
                (MState { ram: pre.ram, ..self@ }) == pre,
                self@.ram.len() == 4096,
                forall|a: int|
                    0 <= a < 4096 ==> #[trigger] self@.ram[a] == if 0x200 <= a < 0x200 + j {
                        rom@[a - 0x200]
                    } else {
                        pre.ram[a]
                    },
            decreases rom@.len() - j,
        {
            self.ram[0x200 + j] = rom[j];
            j += 1;
        }
        proof {
            assert(self@.ram =~= overlay_rom(pre.ram, rom@));
            assert(self@ =~= (MState { ram: overlay_rom(pre.ram, rom@), ..pre }));
        }
    }

    /// Install a program: it must be non-empty and fit between address
    /// 0x200 and the end of memory, else nothing changes and loading
    /// reports failure.
    pub fn load_rom(&mut self, rom: &[u8]) -> (ok: bool)
        ensures
            ok == (0 < rom@.len() <= 3584),
            ok ==> final(self)@ == (MState {
                ram: overlay_rom(old(self)@.ram, rom@),
                ..old(self)@
            }),
            !ok ==> final(self)@ == old(self)@,
    {
        if rom.len() == 0 || rom.len() > ROMSIZE {
            return false;
        }
        self.rom_to_ram(rom);
        true
    }

    /// The program counter.
    pub fn pc(&self) -> (r: usize)
        ensures
            r == self@.pc,
    {
        self.pc
    }

    /// The stack pointer (call depth).
    pub fn sp(&self) -> (r: usize)
        ensures
            r == self@.sp,
    {
        self.sp
    }

    /// The index register.
    pub fn index_reg(&self) -> (r: u16)
        ensures
            r == self@.i,
    {
        self.i
    }

    /// General register x.
    pub fn reg(&self, x: u8) -> (r: u8)
        requires
            x < 16,
        ensures
            r == self@.v[x as int],
    {
        self.v[x as usize]
    }

    /// The delay timer.
    pub fn delay(&self) -> (r: u8)
        ensures
            r == self@.dt,
    {
        self.dt
    }

    /// The sound timer.
    pub fn sound(&self) -> (r: u8)
        ensures
            r == self@.st,
    {
        self.st
    }

    /// Whether the machine is blocked waiting for a key press.
    pub fn waiting(&self) -> (r: bool)
        ensures
            r == self@.wait_input,
    {
        self.wait_input
    }

    /// The display cell at row r, column c.
    pub fn pixel(&self, r: usize, c: usize) -> (cell: u8)
        requires
            r < 32,
            c < 64,
        ensures
            cell == self@.vram[r * 64 + c],
    {
        self.vram[r * 64 + c]
    }

    /// The memory byte at address a.
    pub fn ram_at(&self, a: usize) -> (b: u8)
        requires
            a < 4096,
        ensures
            b == self@.ram[a as int],
    {
        self.ram[a]
    }

    /// The return-address slot at depth d.
    pub fn stack_at(&self, d: usize) -> (r: usize)
        requires
            d < 16,
        ensures
            r == self@.stack[d as int],
    {
        self.stack[d]
    }
}

impl Machine {
    /// 00E0: clear every display cell and mark the display changed.
    fn exec_cls(&mut self)
        ensures
            final(self)@ == step(old(self)@, Instr::Cls, 0),
    {
        let ghost pre = self@;
        self.vram = [0; 2048];
        self.vram_changed = true;
        proof {
            assert(self@.vram =~= Seq::new(2048, |k: int| 0u8));
            assert(self@ =~= step(pre, Instr::Cls, 0));
        }
    }

    /// Fx55: store registers 0..=x into memory starting at the index register.
    fn exec_store_regs(&mut self, x: u8)
        requires
            x < 16,
            old(self)@.i + x < 4096,
        ensures
            final(self)@ == step(old(self)@, Instr::StoreRegs(x), 0),
    {
        let ghost pre = self@;
        let xi = x as usize;
        let base = self.i as usize;
        let mut j: usize = 0;
        while j <= xi
            invariant
                j <= xi + 1,
                xi < 16,
                base == pre.i,
                base + xi < 4096,
                (MState { ram: pre.ram, ..self@ }) == pre,
                self@.ram.len() == 4096,
                forall|a: int|
                    0 <= a < 4096 ==> #[trigger] self@.ram[a] == if base <= a < base + j {
                        pre.v[a - base]
                    } else {
                        pre.ram[a]
                    },
            decreases xi + 1 - j,
        {
            self.ram[base + j] = self.v[j];
            j += 1;
        }
        proof {
            assert(self@.ram =~= store_regs_ram(pre.ram, pre.v, pre.i, x as int));
            assert(self@ =~= step(pre, Instr::StoreRegs(x), 0));
        }
    }

    /// Fx65: load registers 0..=x from memory starting at the index register.
    fn exec_load_regs(&mut self, x: u8)
        requires
            x < 16,
            old(self)@.i + x < 4096,
        ensures
            final(self)@ == step(old(self)@, Instr::LoadRegs(x), 0),
    {
        let ghost pre = self@;
        let xi = x as usize;
        let base = self.i as usize;
        let mut j: usize = 0;
        while j <= xi
            invariant
                j <= xi + 1,
                xi < 16,
                base == pre.i,
                base + xi < 4096,
                (MState { v: pre.v, ..self@ }) == pre,
                self@.v.len() == 16,
                forall|r: int|
                    0 <= r < 16 ==> #[trigger] self@.v[r] == if r < j {
                        pre.ram[pre.i + r]
                    } else {
                        pre.v[r]
                    },
            decreases xi + 1 - j,
        {
            self.v[j] = self.ram[base + j];
            j += 1;
        }
        proof {
            assert(self@.v =~= load_regs_v(pre.ram, pre.v, pre.i, x as int));
            assert(self@ =~= step(pre, Instr::LoadRegs(x), 0));
        }
    }
}

/// Display cell `k` midway through a draw: sprite rows before `bcur` are
/// fully applied, and of row `bcur` the bits before `tcur`.
spec fn partial_cell(
    vram: Seq<u8>,
    ram: Seq<u8>,
    i: int,
    vx: int,
    vy: int,
    bcur: int,
    tcur: int,
    k: int,
) -> u8 {
    let r = k / 64;
    let c = k % 64;
    let bb = (r - vy) % 32;
    let tt = (c - vx) % 64;
    if tt < 8 && (bb < bcur || (bb == bcur && tt < tcur)) {
        vram[k] ^ sprite_bit(ram, i, bb, tt)
    } else {
        vram[k]
    }
}

/// Whether a collision has occurred midway through a draw, over the same
/// region of sprite bits as `partial_cell`.
spec fn partial_col(
    vram: Seq<u8>,
    ram: Seq<u8>,
    i: int,
    vx: int,
    vy: int,
    bcur: int,
    tcur: int,
) -> bool {
    exists|bb: int, tt: int|
        0 <= bb && 0 <= tt < 8 && (bb < bcur || (bb == bcur && tt < tcur)) && sprite_bit(
            ram,
            i,
            bb,
            tt,
        ) == 1 && vram[cell_index((vy + bb) % 32, (vx + tt) % 64)] == 1
}

impl Machine {
    /// Dxyn: XOR an n-row sprite from memory at the index register into the
    /// display at (register x, register y), coordinates wrapped, collision
    /// into the flag register; mark the display changed.
    fn exec_draw(&mut self, x: u8, y: u8, n: u8)
        requires
            old(self)@.wf(),
            x < 16,
            y < 16,
            n < 16,
            n > 0 ==> old(self)@.i + n <= 4096,
        ensures
            final(self)@ == step(old(self)@, Instr::Drw(x, y, n), 0),
            final(self)@.wf(),
    {
        let ghost pre = self@;
        self.v[15] = 0;
        let vx = self.v[x as usize] as usize;
        let vy = self.v[y as usize] as usize;
        let ghost v1 = pre.v.update(15, 0u8);
        let nn = n as usize;
        let base = self.i as usize;
        let mut b: usize = 0;
        while b < nn
            invariant
                b <= nn,
                nn < 16,
                vx < 256,
                vy < 256,
                base == pre.i,
                nn > 0 ==> base + nn <= 4096,
                pre.wf(),
                v1 == pre.v.update(15, 0u8),
                vx == v1[x as int],
                vy == v1[y as int],
                (MState { vram: pre.vram, v: pre.v, ..self@ }) == pre,
                self@.ram == pre.ram,
                self@.vram.len() == 2048,
                self@.v.len() == 16,
                forall|r: int| 0 <= r < 16 && r != 15 ==> #[trigger] self@.v[r] == v1[r],
                self@.v[15] <= 1,
                forall|k: int|
                    0 <= k < 2048 ==> #[trigger] self@.vram[k] == partial_cell(
                        pre.vram,
                        pre.ram,
                        pre.i,
                        vx as int,
                        vy as int,
                        b as int,
                        0,
                        k,
                    ),
                (self@.v[15] == 1) <==> partial_col(
                    pre.vram,
                    pre.ram,
                    pre.i,
                    vx as int,
                    vy as int,
                    b as int,
                    0,
                ),
            decreases nn - b,
        {
            let row = self.ram[base + b];
            let rr = (vy + b) % 32;
            let mut t: usize = 0;
            proof {
                assert(forall|k: int|
                    0 <= k < 2048 ==> partial_cell(
                        pre.vram,
                        pre.ram,
                        pre.i,
                        vx as int,
                        vy as int,
                        b as int,
                        0,
                        k,
                    ) == partial_cell(
                        pre.vram,
                        pre.ram,
                        pre.i,
                        vx as int,
                        vy as int,
                        b as int,
                        t as int,
                        k,
                    ));
            }
            while t < 8
                invariant
                    t <= 8,
                    b < nn,
                    nn < 16,
                    vx < 256,
                    vy < 256,
                    base == pre.i,
                    base + nn <= 4096,
                    pre.wf(),
                    v1 == pre.v.update(15, 0u8),
                    row == pre.ram[pre.i + b],
                    rr == ((vy + b) as int) % 32,
                    rr < 32,
                    (MState { vram: pre.vram, v: pre.v, ..self@ }) == pre,
                    self@.ram == pre.ram,
                    self@.vram.len() == 2048,
                    self@.v.len() == 16,
                    forall|r: int| 0 <= r < 16 && r != 15 ==> #[trigger] self@.v[r] == v1[r],
                    self@.v[15] <= 1,
                    forall|k: int|
                        0 <= k < 2048 ==> #[trigger] self@.vram[k] == partial_cell(
                            pre.vram,
                            pre.ram,
                            pre.i,
                            vx as int,
                            vy as int,
                            b as int,
                            t as int,
                            k,
                        ),
                    (self@.v[15] == 1) <==> partial_col(
                        pre.vram,
                        pre.ram,
                        pre.i,
                        vx as int,
                        vy as int,
                        b as int,
                        t as int,
                    ),
                decreases 8 - t,
            {
                let ghost vxi = vx as int;
                let ghost vyi = vy as int;
                let ghost bi = b as int;
                let ghost ti = t as int;
                let cc = (vx + t) % 64;
                let sh = (7 - t) as u8;
                let bit = (row >> sh) & 1;
                let k = rr * 64 + cc;
                proof {
                    lemma_cell_decompose(rr as int, cc as int);
                    lemma_wrap_index(vyi, bi, 32);
                    lemma_wrap_index(vxi, ti, 64);
                    lemma_extracted_bit(row, sh);
                    assert(bit == sprite_bit(pre.ram, pre.i, bi, ti));
                }
                let cell = self.vram[k];
                proof {
                    assert(cell == partial_cell(pre.vram, pre.ram, pre.i, vxi, vyi, bi, ti, k as int));
                    assert(cell == pre.vram[k as int]);
                    assert(cell <= 1);
                    lemma_and_bit(bit, cell);
                    lemma_or_bit(self@.v[15], bit & cell);
                    lemma_xor_bit(cell, bit);
                }
                let ghost flag_before: u8 = self@.v[15];
                let fl = self.v[15] | (bit & cell);
                self.v[15] = fl;
                self.vram[k] = cell ^ bit;
                proof {
                    let ghost g = self@;
                    assert forall|k2: int| 0 <= k2 < 2048 implies #[trigger] g.vram[k2]
                        == partial_cell(pre.vram, pre.ram, pre.i, vxi, vyi, bi, ti + 1, k2) by {
                        vstd::arithmetic::div_mod::lemma_fundamental_div_mod(k2, 64);
                        vstd::arithmetic::div_mod::lemma_mod_pos_bound(k2, 64);
                        let r2 = k2 / 64;
                        let c2 = k2 % 64;
                        assert(0 <= r2 < 32);
                        assert(0 <= c2 < 64);
                        if k2 == k as int {
                            assert(g.vram[k2] == (pre.vram[k2] ^ bit));
                        } else {
                            if (r2 - vyi) % 32 == bi && (c2 - vxi) % 64 == ti {
                                lemma_wrap_index_unique(vyi, r2, bi, 32);
                                lemma_wrap_index_unique(vxi, c2, ti, 64);
                                assert(r2 == rr as int && c2 == cc as int);
                                assert(k2 == k as int);
                            }
                            assert(g.vram[k2] == partial_cell(
                                pre.vram,
                                pre.ram,
                                pre.i,
                                vxi,
                                vyi,
                                bi,
                                ti,
                                k2,
                            ));
                        }
                    }
                    // The collision flag tracks the extended region.
                    if fl == 1 {
                        if flag_before == 1 {
                            let (bb, tt) = choose|bb: int, tt: int|
                                0 <= bb && 0 <= tt < 8 && (bb < bi || (bb == bi && tt < ti))
                                    && sprite_bit(pre.ram, pre.i, bb, tt) == 1 && pre.vram[cell_index(
                                    (vyi + bb) % 32,
                                    (vxi + tt) % 64,
                                )] == 1;
                            assert(bb < bi || (bb == bi && tt < ti + 1));
                            assert(partial_col(pre.vram, pre.ram, pre.i, vxi, vyi, bi, ti + 1));
                        } else {
                            assert(bit == 1 && cell == 1);
                            assert(cell_index((vyi + bi) % 32, (vxi + ti) % 64) == k as int);
                            assert(partial_col(pre.vram, pre.ram, pre.i, vxi, vyi, bi, ti + 1));
                        }
                    } else {
                        assert(flag_before == 0);
                        assert(!(bit == 1 && cell == 1));
                        if partial_col(pre.vram, pre.ram, pre.i, vxi, vyi, bi, ti + 1) {
                            let (bb, tt) = choose|bb: int, tt: int|
                                0 <= bb && 0 <= tt < 8 && (bb < bi || (bb == bi && tt < ti + 1))
                                    && sprite_bit(pre.ram, pre.i, bb, tt) == 1 && pre.vram[cell_index(
                                    (vyi + bb) % 32,
                                    (vxi + tt) % 64,
                                )] == 1;
                            if bb < bi || (bb == bi && tt < ti) {
                                assert(partial_col(pre.vram, pre.ram, pre.i, vxi, vyi, bi, ti));
                                assert(false);
                            } else {
                                assert(bb == bi && tt == ti);
                                assert(cell_index((vyi + bi) % 32, (vxi + ti) % 64) == k as int);
                                assert(false);
                            }
                        }
                    }
                }
                t += 1;
            }
            proof {
                assert(forall|k: int|
                    0 <= k < 2048 ==> partial_cell(
                        pre.vram,
                        pre.ram,
                        pre.i,
                        vx as int,
                        vy as int,
                        b as int,
                        8,
                        k,
                    ) == partial_cell(
                        pre.vram,
                        pre.ram,
                        pre.i,
                        vx as int,
                        vy as int,
                        b as int + 1,
                        0,
                        k,
                    ));
                assert(partial_col(pre.vram, pre.ram, pre.i, vx as int, vy as int, b as int, 8)
                    <==> partial_col(
                    pre.vram,
                    pre.ram,
                    pre.i,
                    vx as int,
                    vy as int,
                    b as int + 1,
                    0,
                ));
            }
            b += 1;
        }
        self.vram_changed = true;
        proof {
            let vxi = vx as int;
            let vyi = vy as int;
            let ni = n as int;
            assert(self@.vram =~= draw_vram(pre.vram, pre.ram, pre.i, vxi, vyi, ni));
            if self@.v[15] == 1 {
                assert(partial_col(pre.vram, pre.ram, pre.i, vxi, vyi, ni, 0));
                assert(draw_collision(pre.vram, pre.ram, pre.i, vxi, vyi, ni) == 1);
            } else {
                if draw_collision(pre.vram, pre.ram, pre.i, vxi, vyi, ni) == 1 {
                    let (bb, tt) = choose|bb: int, tt: int|
                        0 <= bb < ni && 0 <= tt < 8 && sprite_bit(pre.ram, pre.i, bb, tt) == 1
                            && pre.vram[cell_index((vyi + bb) % 32, (vxi + tt) % 64)] == 1;
                    assert(partial_col(pre.vram, pre.ram, pre.i, vxi, vyi, ni, 0));
                    assert(false);
                }
            }
            assert(self@.v =~= v1.update(
                15,
                draw_collision(pre.vram, pre.ram, pre.i, vxi, vyi, ni),
            ));
            assert(self@ =~= step(pre, Instr::Drw(x, y, n), 0));
            assert forall|k: int| 0 <= k < 2048 implies #[trigger] self@.vram[k] <= 1 by {
                vstd::arithmetic::div_mod::lemma_fundamental_div_mod(k, 64);
                vstd::arithmetic::div_mod::lemma_mod_pos_bound(k, 64);
                let bb = (k / 64 - vyi) % 32;
                let tt = (k % 64 - vxi) % 64;
                if tt < 8 && bb < ni {
                    lemma_extracted_bit(pre.ram[pre.i + bb], (7 - tt) as u8);
                    lemma_xor_bit(pre.vram[k], sprite_bit(pre.ram, pre.i, bb, tt));
                }
            }
        }
    }
}

impl Machine {
    /// Execute one already-fetched instruction word against current state.
    /// The program counter has already advanced past the word, so jumps,
    /// calls, returns and skips override that default. An unrecognized
    /// word does nothing.
    pub fn run_opcode(&mut self, opcode: u16)
        requires
            old(self)@.wf(),
            step_ok(old(self)@, decode_spec(opcode)),
        ensures
            final(self)@.wf(),
            decode_spec(opcode) is Rnd ==> exists|rb: u8|
                final(self)@ == step(old(self)@, decode_spec(opcode), rb),
            !(decode_spec(opcode) is Rnd) ==> final(self)@ == step(
                old(self)@,
                decode_spec(opcode),
                0,
            ),
    {
        let ghost pre = self@;
        let d = decode(opcode);
        match d {
            Instr::Cls => {
                self.exec_cls();
            },
            Instr::Ret => {
                self.sp = self.sp - 1;
                self.pc = self.stack[self.sp];
                proof {
                    assert(self@ =~= step(pre, d, 0));
                }
            },
            Instr::Jp(nnn) => {
                self.pc = nnn as usize;
                proof {
                    assert(self@ =~= step(pre, d, 0));
                }
            },
            Instr::Call(nnn) => {
                if self.sp < 16 {
                    self.stack[self.sp] = self.pc;
                    proof {
                        assert(self@.stack =~= pre.stack.update(pre.sp, pre.pc));
                    }
                }
                self.sp = self.sp + 1;
                self.pc = nnn as usize;
                proof {
                    assert(self@ =~= step(pre, d, 0));
                }
            },
            Instr::SeImm(x, kk) => {
                if self.v[x as usize] == kk {
                    self.pc = self.pc + 2;
                }
                proof {
                    assert(self@ =~= step(pre, d, 0));
                }
            },
            Instr::SneImm(x, kk) => {
                if self.v[x as usize] != kk {
                    self.pc = self.pc + 2;
                }
                proof {
                    assert(self@ =~= step(pre, d, 0));
                }
            },
            Instr::SeReg(x, y) => {
                if self.v[x as usize] == self.v[y as usize] {
                    self.pc = self.pc + 2;
                }
                proof {
                    assert(self@ =~= step(pre, d, 0));
                }
            },
            Instr::LdImm(x, kk) => {
                self.v[x as usize] = kk;
                proof {
                    assert(self@ =~= step(pre, d, 0));
                }
            },
            Instr::AddImm(x, kk) => {
                let s = self.v[x as usize] as u16 + kk as u16;
                self.v[x as usize] = (s % 256) as u8;
                proof {
                    assert(self@ =~= step(pre, d, 0));
                }
            },
            Instr::LdReg(x, y) => {
                self.v[x as usize] = self.v[y as usize];
                proof {
                    assert(self@ =~= step(pre, d, 0));
                }
            },
            Instr::OrReg(x, y) => {
                self.v[x as usize] = self.v[x as usize] | self.v[y as usize];
                proof {
                    assert(self@ =~= step(pre, d, 0));
                }
            },
            Instr::AndReg(x, y) => {
                self.v[x as usize] = self.v[x as usize] & self.v[y as usize];
                proof {
                    assert(self@ =~= step(pre, d, 0));
                }
            },
            Instr::XorReg(x, y) => {
                self.v[x as usize] = self.v[x as usize] ^ self.v[y as usize];
                proof {
                    assert(self@ =~= step(pre, d, 0));
                }
            },
            Instr::AddReg(x, y) => {
                let s = self.v[x as usize] as u16 + self.v[y as usize] as u16;
                self.v[x as usize] = (s % 256) as u8;
                self.v[15] = if s > 0xFF {
                    1
                } else {
                    0
                };
                proof {
                    assert(self@ =~= step(pre, d, 0));
                }
            },
            Instr::SubReg(x, y) => {
                let f: u8 = if self.v[x as usize] > self.v[y as usize] {
                    1
                } else {
                    0
                };
                self.v[15] = f;
                let a = self.v[x as usize];
                let c = self.v[y as usize];
                self.v[x as usize] = (((a as u16 + 256) - c as u16) % 256) as u8;
                proof {
                    assert(self@ =~= step(pre, d, 0));
                }
            },
            Instr::Shr(x) => {
                let f: u8 = self.v[x as usize] & 1;
                self.v[15] = f;
                let a = self.v[x as usize];
                self.v[x as usize] = a >> 1u8;
                proof {
                    assert(self@ =~= step(pre, d, 0));
                }
            },
            Instr::SubnReg(x, y) => {
                let f: u8 = if self.v[y as usize] > self.v[x as usize] {
                    1
                } else {
                    0
                };
                self.v[15] = f;
                let a = self.v[x as usize];
                let c = self.v[y as usize];
                self.v[x as usize] = (((c as u16 + 256) - a as u16) % 256) as u8;
                proof {
                    assert(self@ =~= step(pre, d, 0));
                }
            },
            Instr::Shl(x) => {
                let f: u8 = (self.v[x as usize] & 0x80) >> 7u8;
                self.v[15] = f;
                let a = self.v[x as usize];
                self.v[x as usize] = (((a as u16) * 2) % 256) as u8;
                proof {
                    assert(self@ =~= step(pre, d, 0));
                }
            },
            Instr::SneReg(x, y) => {
                if self.v[x as usize] != self.v[y as usize] {
                    self.pc = self.pc + 2;
                }
                proof {
                    assert(self@ =~= step(pre, d, 0));
                }
            },
            Instr::LdI(nnn) => {
                self.i = nnn;
                proof {
                    assert(self@ =~= step(pre, d, 0));
                }
            },
            Instr::JpV0(nnn) => {
                self.pc = self.v[0] as usize + nnn as usize;
                proof {
                    assert(self@ =~= step(pre, d, 0));
                }
            },
            Instr::Rnd(x, kk) => {
                let rb = crate::rng::random_byte();
                self.v[x as usize] = rb & kk;
                proof {
                    assert(self@ =~= step(pre, d, rb));
                }
            },
            Instr::Drw(x, y, n) => {
                self.exec_draw(x, y, n);
            },
            Instr::SkpKey(x) => {
                let key = self.v[x as usize] as usize;
                if self.input[key] {
                    self.pc = self.pc + 2;
                }
                proof {
                    assert(self@ =~= step(pre, d, 0));
                }
            },
            Instr::SknpKey(x) => {
                let key = self.v[x as usize] as usize;
                if !self.input[key] {
                    self.pc = self.pc + 2;
                }
                proof {
                    assert(self@ =~= step(pre, d, 0));
                }
            },
            Instr::LdFromDt(x) => {
                self.v[x as usize] = self.dt;
                proof {
                    assert(self@ =~= step(pre, d, 0));
                }
            },
            Instr::WaitKey(x) => {
                self.wait_input = true;
                self.input_reg = x as usize;
                proof {
                    assert(self@ =~= step(pre, d, 0));
                }
            },
            Instr::SetDt(x) => {
                self.dt = self.v[x as usize];
                proof {
                    assert(self@ =~= step(pre, d, 0));
                }
            },
            Instr::SetSt(x) => {
                self.st = self.v[x as usize];
                proof {
                    assert(self@ =~= step(pre, d, 0));
                }
            },
            Instr::AddI(x) => {
                let s = self.i as u32 + self.v[x as usize] as u32;
                self.i = (s % 0x10000) as u16;
                self.v[15] = if self.i > 0x0F00 {
                    1
                } else {
                    0
                };
                proof {
                    assert(self@ =~= step(pre, d, 0));
                }
            },
            Instr::LdFont(x) => {
                self.i = self.v[x as usize] as u16 * 5;
                proof {
                    assert(self@ =~= step(pre, d, 0));
                }
            },
            Instr::StoreBcd(x) => {
                let c = self.v[x as usize];
                let ii = self.i as usize;
                self.ram[ii] = c / 100;
                self.ram[ii + 1] = (c % 100) / 10;
                self.ram[ii + 2] = c % 10;
                proof {
                    assert(self@ =~= step(pre, d, 0));
                }
            },
            Instr::StoreRegs(x) => {
                self.exec_store_regs(x);
            },
            Instr::LoadRegs(x) => {
                self.exec_load_regs(x);
            },
            Instr::Nop => {
                proof {
                    assert(self@ =~= step(pre, d, 0));
                }
            },
        }
        proof {
            assert(self@.wf());
        }
    }
}

/// Per-tick side effects handed to the driver: the display, whether it
/// changed this tick, and whether the tone should sound.
pub struct Output {
    /// A copy of the 2048 display cells, row-major.
    pub vram: [u8; 2048],
    /// Whether a clear or draw instruction executed this tick.
    pub vram_changed: bool,
    /// Whether the sound timer is running.
    pub beep: bool,
}

/// The smallest pressed key index at or after position k, or 16 if none.
pub open spec fn first_key(input: Seq<bool>, k: int) -> int
    decreases 16 - k,
{
    if k < 0 || k >= 16 {
        16
    } else if input[k] {
        k
    } else {
        first_key(input, k + 1)
    }
}

/// Scanning from 0 equals scanning from k when no key before k is pressed.
proof fn lemma_first_key_skip(input: Seq<bool>, k: int)
    requires
        0 <= k <= 16,
        forall|j: int| 0 <= j < k ==> !input[j],
    ensures
        first_key(input, 0) == first_key(input, k),
    decreases k,
{
    if k > 0 {
        lemma_first_key_skip(input, k - 1);
    }
}

/// A waiting machine's tick: the first pressed key, if any, is latched
/// into the recorded target register. The wait flag is set back to true
/// rather than cleared, so the machine never leaves the wait state through
/// this path; this mirrors the source machine's literal behavior.
pub open spec fn wait_step(m: MState) -> MState {
    let k = first_key(m.input, 0);
    if k < 16 {
        MState { wait_input: true, v: m.v.update(m.input_reg, k as u8), ..m }
    } else {
        m
    }
}

/// Each nonzero timer counts down by one.
pub open spec fn timer_step(m: MState) -> MState {
    MState {
        dt: if m.dt > 0 {
            (m.dt - 1) as u8
        } else {
            0
        },
        st: if m.st > 0 {
            (m.st - 1) as u8
        } else {
            0
        },
        ..m
    }
}

/// The whole machine after one tick on keypad state `input`, with `rb` the
/// random byte consumed if the executed instruction is `Rnd`: store the
/// input and clear the display-changed flag; then either scan for a key
/// (when waiting) or count timers down, fetch, advance and execute.
pub open spec fn tick_spec(m: MState, input: Seq<bool>, rb: u8) -> MState {
    let m1 = MState { input: input, vram_changed: false, ..m };
    if m1.wait_input {
        wait_step(m1)
    } else {
        let m2 = timer_step(m1);
        let op = fetch(m2);
        let m3 = MState { pc: m2.pc + 2, ..m2 };
        step(m3, crate::instr::decode_spec(op), rb)
    }
}

/// Whether this tick will consume a random byte.
pub open spec fn tick_is_rand(m: MState) -> bool {
    !m.wait_input && crate::instr::decode_spec(fetch(m)) is Rnd
}

/// The conditions under which a tick cannot fault: nothing when waiting;
/// otherwise the fetch must lie inside memory and the fetched instruction
/// must satisfy `step_ok`.
pub open spec fn tick_ok(m: MState) -> bool {
    !m.wait_input ==> {
        &&& m.pc + 1 < 4096
        &&& step_ok(m, crate::instr::decode_spec(fetch(m)))
    }
}

impl Machine {
    /// Whether `tick` may be called in the current state. A program that
    /// underflows the call stack, returns with the pointer beyond the 16
    /// slots, runs the program counter or the index register out of memory,
    /// or skips on a key number above 15, faulted on the source machine;
    /// here the caller checks first.
    pub fn tick_ready(&self) -> (r: bool)
        ensures
            r == tick_ok(self@),
    {
        if self.wait_input {
            return true;
        }
        if self.pc >= 4095 {
            return false;
        }
        let op = self.get_opcode();
        let d = decode(op);
        match d {
            Instr::Ret => 1 <= self.sp && self.sp <= 16,
            Instr::Call(_) => self.sp < usize::MAX,
            Instr::SeImm(_, _) => self.pc <= usize::MAX - 2,
            Instr::SneImm(_, _) => self.pc <= usize::MAX - 2,
            Instr::SeReg(_, _) => self.pc <= usize::MAX - 2,
            Instr::SneReg(_, _) => self.pc <= usize::MAX - 2,
            Instr::SkpKey(x) => self.v[x as usize] < 16 && self.pc <= usize::MAX - 2,
            Instr::SknpKey(x) => self.v[x as usize] < 16 && self.pc <= usize::MAX - 2,
            Instr::Drw(_, _, n) => n == 0 || self.i as usize + n as usize <= 4096,
            Instr::StoreBcd(_) => (self.i as usize) + 2 < 4096,
            Instr::StoreRegs(x) => (self.i as usize) + (x as usize) < 4096,
            Instr::LoadRegs(x) => (self.i as usize) + (x as usize) < 4096,
            _ => true,
        }
    }

    /// The index of the first pressed key, or 16 when none is pressed.
    fn first_pressed(&self) -> (r: usize)
        ensures
            r == first_key(self@.input, 0),
    {
        let mut k: usize = 0;
        while k < 16 && !self.input[k]
            invariant
                k <= 16,
                forall|j: int| 0 <= j < k ==> !self@.input[j],
            decreases 16 - k,
        {
            k += 1;
        }
        proof {
            lemma_first_key_skip(self@.input, k as int);
        }
        k
    }

    /// Advance the machine by one time step: replace the stored keypad
    /// state, clear the display-changed flag, and either latch a pressed
    /// key (when waiting) or count the timers down and execute exactly one
    /// instruction. Returns the display, its changed flag, and whether the
    /// tone should sound.
    pub fn tick(&mut self, input: [bool; 16]) -> (out: Output)
        requires
            old(self)@.wf(),
            tick_ok(old(self)@),
        ensures
            final(self)@.wf(),
            exists|rb: u8| final(self)@ == tick_spec(old(self)@, input@, rb),
            !tick_is_rand(old(self)@) ==> final(self)@ == tick_spec(old(self)@, input@, 0),
            out.vram@ == final(self)@.vram,
            out.vram_changed == final(self)@.vram_changed,
            out.beep == (final(self)@.st > 0),
    {
        let ghost pre = self@;
        self.input = input;
        self.vram_changed = false;
        let ghost m1 = MState { input: input@, vram_changed: false, ..pre };
        proof {
            assert(self@ =~= m1);
        }
        if self.wait_input {
            let k = self.first_pressed();
            if k < 16 {
                self.wait_input = true;
                self.v[self.input_reg] = k as u8;
            }
            proof {
                assert(self@ =~= tick_spec(pre, input@, 0));
            }
        } else {
            if self.dt > 0 {
                self.dt = self.dt - 1;
            }
            if self.st > 0 {
                self.st = self.st - 1;
            }
            let ghost m2 = timer_step(m1);
            proof {
                assert(self@ =~= m2);
            }
            let op = self.get_opcode();
            self.increment_pc();
            let ghost m3 = MState { pc: m2.pc + 2, ..m2 };
            proof {
                assert(self@ =~= m3);
            }
            self.run_opcode(op);
            proof {
                let d = decode_spec(op);
                assert(fetch(m2) == fetch(pre));
                if d is Rnd {
                    let rb = choose|rb: u8| self@ == step(m3, d, rb);
                    assert(self@ == tick_spec(pre, input@, rb));
                } else {
                    assert(self@ == tick_spec(pre, input@, 0));
                }
            }
        }
        Output { vram: self.vram, vram_changed: self.vram_changed, beep: self.st > 0 }
    }
}

} // verus!
