use emu8::machine::Machine;

const NO_KEYS: [bool; 16] = [false; 16];

const FONT: [u8; 80] = [
    0xF0, 0x90, 0x90, 0x90, 0xF0, 0x20, 0x60, 0x20, 0x20, 0x70, 0xF0, 0x10, 0xF0, 0x80, 0xF0,
    0xF0, 0x10, 0xF0, 0x10, 0xF0, 0x90, 0x90, 0xF0, 0x10, 0x10, 0xF0, 0x80, 0xF0, 0x10, 0xF0,
    0xF0, 0x80, 0xF0, 0x90, 0xF0, 0xF0, 0x10, 0x20, 0x40, 0x40, 0xF0, 0x90, 0xF0, 0x90, 0xF0,
    0xF0, 0x90, 0xF0, 0x10, 0xF0, 0xF0, 0x90, 0xF0, 0x90, 0x90, 0xE0, 0x90, 0xE0, 0x90, 0xE0,
    0xF0, 0x80, 0x80, 0x80, 0xF0, 0xE0, 0x90, 0x90, 0x90, 0xE0, 0xF0, 0x80, 0xF0, 0x80, 0xF0,
    0xF0, 0x80, 0xF0, 0x80, 0x80,
];

#[test]
fn load_full_rom_lands_at_0x200() {
    let mut m = Machine::new();
    let rom: Vec<u8> = (0..3584usize).map(|i| (i % 251) as u8).collect();
    assert!(m.load_rom(&rom));
    for i in 0..3584usize {
        assert_eq!(m.ram_at(0x200 + i), (i % 251) as u8);
    }
}

#[test]
fn load_empty_or_oversized_fails_without_mutation() {
    let mut m = Machine::new();
    assert!(!m.load_rom(&[]));
    let big: Vec<u8> = vec![0xAB; 3585];
    assert!(!m.load_rom(&big));
    for a in 0x200..4096usize {
        assert_eq!(m.ram_at(a), 0);
    }
    assert_eq!(m.ram_at(0), 0xF0);
    assert_eq!(m.pc(), 0x200);
}

#[test]
fn font_table_and_glyph_lookup() {
    let mut m = Machine::new();
    for a in 0..80usize {
        assert_eq!(m.ram_at(a), FONT[a]);
    }
    for a in 80..0x200usize {
        assert_eq!(m.ram_at(a), 0);
    }
    for d in 0..16u8 {
        m.run_opcode(0x6000 | d as u16); // v0 <- d
        m.run_opcode(0xF029); // i <- 5 * d
        assert_eq!(m.index_reg(), 5 * d as u16);
        for j in 0..5usize {
            assert_eq!(m.ram_at(5 * d as usize + j), FONT[5 * d as usize + j]);
        }
    }
}

#[test]
fn add_imm_wraps_and_leaves_flag() {
    let mut m = Machine::new();
    m.run_opcode(0x6F05); // vF <- 5
    m.run_opcode(0x63FA); // v3 <- 250
    m.run_opcode(0x7310); // v3 <- v3 + 16
    assert_eq!(m.reg(3), 10); // (250 + 16) % 256
    assert_eq!(m.reg(15), 5); // flag untouched
    m.run_opcode(0x7300); // v3 += 0
    assert_eq!(m.reg(3), 10);
}

#[test]
fn add_reg_carry() {
    let mut m = Machine::new();
    m.run_opcode(0x60FA); // v0 <- 250
    m.run_opcode(0x610A); // v1 <- 10
    m.run_opcode(0x8014); // v0 <- v0 + v1
    assert_eq!(m.reg(0), 4);
    assert_eq!(m.reg(15), 1);
    m.run_opcode(0x600A); // v0 <- 10
    m.run_opcode(0x6114); // v1 <- 20
    m.run_opcode(0x8014);
    assert_eq!(m.reg(0), 30);
    assert_eq!(m.reg(15), 0);
}

#[test]
fn sub_and_subn_borrow_flags() {
    let mut m = Machine::new();
    m.run_opcode(0x600A); // v0 <- 10
    m.run_opcode(0x6105); // v1 <- 5
    m.run_opcode(0x8015); // v0 <- v0 - v1
    assert_eq!(m.reg(0), 5);
    assert_eq!(m.reg(15), 1); // 10 > 5: no borrow
    m.run_opcode(0x6005); // v0 <- 5
    m.run_opcode(0x610A); // v1 <- 10
    m.run_opcode(0x8015);
    assert_eq!(m.reg(0), 251);
    assert_eq!(m.reg(15), 0); // borrow occurred
    m.run_opcode(0x6005); // v0 <- 5
    m.run_opcode(0x610A); // v1 <- 10
    m.run_opcode(0x8017); // v0 <- v1 - v0
    assert_eq!(m.reg(0), 5);
    assert_eq!(m.reg(15), 1);
    m.run_opcode(0x600A); // v0 <- 10
    m.run_opcode(0x6105); // v1 <- 5
    m.run_opcode(0x8017);
    assert_eq!(m.reg(0), 251);
    assert_eq!(m.reg(15), 0);
}

#[test]
fn draw_twice_cancels_and_collides() {
    let mut m = Machine::new();
    m.run_opcode(0xA000); // i <- 0: glyph of digit 0 (F0 90 90 90 F0)
    m.run_opcode(0x6003); // v0 <- 3: column
    m.run_opcode(0x6105); // v1 <- 5: row
    m.run_opcode(0xD015); // draw 5 rows at (3, 5)
    assert_eq!(m.reg(15), 0); // empty display: no collision
    assert_eq!(m.pixel(5, 3), 1); // top-left of the glyph
    assert_eq!(m.pixel(5, 6), 1);
    assert_eq!(m.pixel(6, 3), 1);
    assert_eq!(m.pixel(6, 4), 0);
    m.run_opcode(0xD015); // same sprite, same place
    assert_eq!(m.reg(15), 1); // every set bit collides
    for r in 0..32usize {
        for c in 0..64usize {
            assert_eq!(m.pixel(r, c), 0); // all cells cancelled back
        }
    }
}

#[test]
fn rnd_masks_to_low_nibble() {
    let mut m = Machine::new();
    for _ in 0..1000 {
        m.run_opcode(0xC00F);
        assert!(m.reg(0) <= 15);
    }
}

#[test]
fn call_then_ret_restores_pc_depths_1_to_16() {
    let mut m = Machine::new();
    let mut pcs: Vec<usize> = Vec::new();
    for d in 0..16usize {
        pcs.push(m.pc());
        let target = 0x300 + 2 * d as u16;
        m.run_opcode(0x2000 | target);
        assert_eq!(m.sp(), d + 1);
        assert_eq!(m.pc(), target as usize);
    }
    for d in (0..16usize).rev() {
        m.run_opcode(0x00EE);
        assert_eq!(m.sp(), d);
        assert_eq!(m.pc(), pcs[d]);
    }
}

#[test]
fn calls_past_full_stack_grow_pointer_without_writing() {
    let mut m = Machine::new();
    let mut rom = vec![0u8; 2];
    rom[0] = 0x00;
    rom[1] = 0xEE; // a return sits at 0x200
    assert!(m.load_rom(&rom));
    for _ in 0..16 {
        m.run_opcode(0x2200);
    }
    let saved: Vec<usize> = (0..16).map(|d| m.stack_at(d)).collect();
    for extra in 0..20usize {
        m.run_opcode(0x2200);
        assert_eq!(m.sp(), 17 + extra); // the pointer keeps growing
    }
    for d in 0..16usize {
        assert_eq!(m.stack_at(d), saved[d]); // the slots stopped updating
    }
    // A subsequent return would read past the 16 slots: the machine
    // reports it is not safe to tick (the source machine faulted here).
    assert_eq!(m.pc(), 0x200);
    assert!(!m.tick_ready());
}

#[test]
fn end_to_end_clear_load_jump() {
    let mut m = Machine::new();
    let rom = [0x00u8, 0xE0, 0x60, 0x12, 0x12, 0x00];
    assert!(m.load_rom(&rom));
    assert!(m.tick_ready());
    let o1 = m.tick(NO_KEYS);
    assert!(o1.vram_changed); // the clear marks the display changed
    assert!(m.tick_ready());
    let o2 = m.tick(NO_KEYS);
    assert!(!o2.vram_changed);
    assert_eq!(m.reg(0), 0x12);
    assert!(m.tick_ready());
    let o3 = m.tick(NO_KEYS);
    assert!(!o3.vram_changed);
    assert_eq!(m.pc(), 0x200);
    assert!(!o3.beep);
}

#[test]
fn wait_key_latches_and_never_leaves_wait() {
    let mut m = Machine::new();
    let rom = [0xF2u8, 0x0A]; // wait for a key into v2
    assert!(m.load_rom(&rom));
    m.tick(NO_KEYS);
    assert!(m.waiting());
    let pc_after = m.pc();
    m.tick(NO_KEYS); // no key: nothing happens
    assert!(m.waiting());
    assert_eq!(m.pc(), pc_after);
    let mut keys = [false; 16];
    keys[7] = true;
    m.tick(keys);
    assert_eq!(m.reg(2), 7); // the pressed key is latched
    // The wait flag is set back to true, never cleared: as literally
    // specified, the machine stays waiting through this path.
    assert!(m.waiting());
    let mut keys2 = [false; 16];
    keys2[3] = true;
    keys2[9] = true;
    m.tick(keys2);
    assert_eq!(m.reg(2), 3); // the lowest pressed key wins, latched again
    assert!(m.waiting());
    assert_eq!(m.pc(), pc_after); // no instruction ever executes again
}

#[test]
fn timers_count_down_and_beep() {
    let mut m = Machine::new();
    // v3 <- 3, sound <- v3, delay <- v3, then spin on a jump.
    let rom = [0x63u8, 0x03, 0xF3, 0x18, 0xF3, 0x15, 0x12, 0x06];
    assert!(m.load_rom(&rom));
    m.tick(NO_KEYS); // v3 <- 3
    m.tick(NO_KEYS); // st <- 3 (set after this tick's decrement)
    m.tick(NO_KEYS); // dt <- 3; st counts 3 -> 2
    assert_eq!(m.sound(), 2);
    assert_eq!(m.delay(), 3);
    let o = m.tick(NO_KEYS); // jump; both count down
    assert_eq!(m.sound(), 1);
    assert_eq!(m.delay(), 2);
    assert!(o.beep);
    let o2 = m.tick(NO_KEYS);
    assert_eq!(m.sound(), 0);
    assert!(!o2.beep);
    m.tick(NO_KEYS);
    m.tick(NO_KEYS);
    assert_eq!(m.delay(), 0); // timers never go negative
    assert_eq!(m.sound(), 0);
}

#[test]
fn skip_instructions_adjust_pc() {
    let mut m = Machine::new();
    m.run_opcode(0x6021); // v0 <- 0x21
    let p0 = m.pc();
    m.run_opcode(0x3021); // skip if v0 == 0x21: taken
    assert_eq!(m.pc(), p0 + 2);
    m.run_opcode(0x3022); // skip if v0 == 0x22: not taken
    assert_eq!(m.pc(), p0 + 2);
    m.run_opcode(0x4022); // skip if v0 != 0x22: taken
    assert_eq!(m.pc(), p0 + 4);
    m.run_opcode(0x6121); // v1 <- 0x21
    m.run_opcode(0x5010); // skip if v0 == v1: taken
    assert_eq!(m.pc(), p0 + 6);
    m.run_opcode(0x9010); // skip if v0 != v1: not taken
    assert_eq!(m.pc(), p0 + 6);
}

#[test]
fn bcd_and_reg_store_load() {
    let mut m = Machine::new();
    m.run_opcode(0x60FE); // v0 <- 254
    m.run_opcode(0xA300); // i <- 0x300
    m.run_opcode(0xF033); // digits of 254
    assert_eq!(m.ram_at(0x300), 2);
    assert_eq!(m.ram_at(0x301), 5);
    assert_eq!(m.ram_at(0x302), 4);
    m.run_opcode(0x6011); // v0 <- 0x11
    m.run_opcode(0x6122); // v1 <- 0x22
    m.run_opcode(0x6233); // v2 <- 0x33
    m.run_opcode(0xA310); // i <- 0x310
    m.run_opcode(0xF155); // store v0..=v1
    assert_eq!(m.ram_at(0x310), 0x11);
    assert_eq!(m.ram_at(0x311), 0x22);
    assert_eq!(m.ram_at(0x312), 0); // v2 not stored
    m.run_opcode(0x6000);
    m.run_opcode(0x6100);
    m.run_opcode(0xF165); // load v0..=v1 back
    assert_eq!(m.reg(0), 0x11);
    assert_eq!(m.reg(1), 0x22);
    assert_eq!(m.reg(2), 0x33);
}

#[test]
fn unsafe_states_are_reported_before_tick() {
    let mut m = Machine::new();
    // An Annn then a draw that would read past the end of memory.
    let rom = [0xAFu8, 0xFF, 0xD0, 0x15];
    assert!(m.load_rom(&rom));
    assert!(m.tick_ready());
    m.tick(NO_KEYS); // i <- 0xFFF
    assert!(!m.tick_ready()); // 0xFFF + 5 rows leaves memory
    let mut m2 = Machine::new();
    let rom2 = [0x00u8, 0xEE];
    assert!(m2.load_rom(&rom2));
    assert!(!m2.tick_ready()); // return with an empty stack
}

#[test]
fn unrecognized_word_is_a_noop() {
    let mut m = Machine::new();
    let before = m.pc();
    m.run_opcode(0x0000); // matches no pattern
    m.run_opcode(0xFFFF);
    m.run_opcode(0x5013); // 5xyk with k != 0
    m.run_opcode(0x8018); // 8xyk with unused k
    assert_eq!(m.pc(), before); // the default advance belongs to the tick
    assert_eq!(m.sp(), 0);
    assert_eq!(m.reg(0), 0);
    // Through a tick, a no-op still advances the program counter by 2.
    let rom = [0xFFu8, 0xFF];
    assert!(m.load_rom(&rom));
    m.tick(NO_KEYS);
    assert_eq!(m.pc(), 0x202);
}

#[test]
fn index_add_and_misc_ops() {
    let mut m = Machine::new();
    m.run_opcode(0x6E0F); // vE <- 0x0F
    m.run_opcode(0xAEFF); // i <- 0xEFF
    m.run_opcode(0xFE1E); // i += vE
    assert_eq!(m.index_reg(), 0xF0E);
    assert_eq!(m.reg(15), 1); // result above 0x0F00
    m.run_opcode(0xA100);
    m.run_opcode(0xFE1E);
    assert_eq!(m.index_reg(), 0x10F);
    assert_eq!(m.reg(15), 0);
    m.run_opcode(0x6005); // v0 <- 5
    m.run_opcode(0x8006); // shr
    assert_eq!(m.reg(0), 2);
    assert_eq!(m.reg(15), 1); // low bit was set
    m.run_opcode(0x60C0); // v0 <- 0xC0
    m.run_opcode(0x800E); // shl
    assert_eq!(m.reg(0), 0x80);
    assert_eq!(m.reg(15), 1); // high bit was set
    m.run_opcode(0x600C); // v0 <- 12
    m.run_opcode(0xB123); // pc <- v0 + 0x123
    assert_eq!(m.pc(), 0x12F);
}
