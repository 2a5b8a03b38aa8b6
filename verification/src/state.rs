//! Mathematical model of the CHIP-8 machine state and of the effect of each
//! instruction on it. Everything here is specification-only: the executable
//! interpreter in `emulator` is proved to follow these functions exactly.
use vstd::prelude::*;

verus! {

/// Number of addressable memory bytes.
pub const MEMORY_SIZE: usize = 4096;
/// Number of general-purpose registers.
pub const REGISTER_COUNT: usize = 16;
/// Width of the monochrome framebuffer in pixels.
pub const DISPLAY_WIDTH: usize = 64;
/// Height of the monochrome framebuffer in pixels.
pub const DISPLAY_HEIGHT: usize = 32;
/// Number of framebuffer pixels.
pub const DISPLAY_SIZE: usize = 2048;
/// Address at which a loaded program starts.
pub const PROGRAM_START: u16 = 0x200;
/// Address of the first byte of the built-in hexadecimal font.
pub const FONT_START: u16 = 0x50;
/// Total size of the font table: 16 glyphs of 5 bytes each.
pub const FONT_SIZE: usize = 80;
/// Largest number of ROM bytes that fit in the program area.
pub const MAX_ROM_SIZE: usize = 3584;

/// The abstract CHIP-8 machine state that the interpreter's contracts are
/// stated over.
#[verifier::ext_equal]
pub ghost struct EmuState {
    /// 4096 bytes of memory; `memory.len() == 4096`.
    pub memory: Seq<u8>,
    /// Return addresses of active subroutine calls, most recent last.
    pub stack: Seq<u16>,
    /// Delay timer register.
    pub delay_timer: u8,
    /// Sound timer register.
    pub sound_timer: u8,
    /// Program counter.
    pub pc: u16,
    /// Index register `I`.
    pub index: u16,
    /// The sixteen registers V0..VF; `regs.len() == 16`.
    pub regs: Seq<u8>,
    /// Currently held keys in press order; distinct values in 0x0..=0xF.
    pub keys: Seq<u8>,
    /// Framebuffer, row-major: pixel (x, y) is `display[y * 64 + x]`.
    pub display: Seq<bool>,
}

impl EmuState {
    /// Well-formedness: the fixed-size parts have their sizes and the keypad
    /// holds a set of logical keys.
    pub open spec fn wf(self) -> bool {
        &&& self.memory.len() == MEMORY_SIZE
        &&& self.regs.len() == REGISTER_COUNT
        &&& self.display.len() == DISPLAY_SIZE
        &&& forall|k: int| 0 <= k < self.keys.len() ==> (#[trigger] self.keys[k]) < 16
        &&& forall|i: int, j: int|
            0 <= i < j < self.keys.len() ==> self.keys[i] != self.keys[j]
    }
}

/// An 8-bit value reduced modulo 256 (wraparound arithmetic of the 8-bit ALU).
pub open spec fn wrap8(v: int) -> u8 {
    (v % 256) as u8
}

/// A 16-bit value reduced modulo 2^16.
pub open spec fn wrap16(v: int) -> u16 {
    (v % 0x10000) as u16
}

/// The program counter advanced by one instruction.
pub open spec fn spec_pc_plus_2(pc: u16) -> u16 {
    if pc + 2 > 0xFFFF {
        (pc + 2 - 0x10000) as u16
    } else {
        (pc + 2) as u16
    }
}

/// The program counter rewound by one instruction.
pub open spec fn spec_pc_minus_2(pc: u16) -> u16 {
    if pc >= 2 {
        (pc - 2) as u16
    } else {
        (pc + 0x10000 - 2) as u16
    }
}

/// A 12-bit address assembled from three nibbles.
pub open spec fn imm_addr(h: u8, m: u8, l: u8) -> u16
    recommends
        h < 16,
        m < 16,
        l < 16,
{
    (h * 256 + m * 16 + l) as u16
}

/// An 8-bit immediate assembled from two nibbles.
pub open spec fn imm_byte(m: u8, l: u8) -> u8
    recommends
        m < 16,
        l < 16,
{
    (m * 16 + l) as u8
}

/// Highest nibble of an instruction word: the instruction family.
pub open spec fn op_nibble(w: u16) -> u8 {
    (w / 4096) as u8
}

/// Second nibble: the X register operand.
pub open spec fn x_nibble(w: u16) -> u8 {
    ((w / 256) % 16) as u8
}

/// Third nibble: the Y register operand.
pub open spec fn y_nibble(w: u16) -> u8 {
    ((w / 16) % 16) as u8
}

/// Lowest nibble.
pub open spec fn n_nibble(w: u16) -> u8 {
    (w % 16) as u8
}

/// The built-in hexadecimal sprite font: 16 glyphs (digits 0-F), 5 bytes each.
pub open spec fn font_data() -> Seq<u8> {
    seq![
        0xF0u8, 0x90u8, 0x90u8, 0x90u8, 0xF0u8,
        0x20u8, 0x60u8, 0x20u8, 0x20u8, 0x70u8,
        0xF0u8, 0x10u8, 0xF0u8, 0x80u8, 0xF0u8,
        0xF0u8, 0x10u8, 0xF0u8, 0x10u8, 0xF0u8,
        0x90u8, 0x90u8, 0xF0u8, 0x10u8, 0x10u8,
        0xF0u8, 0x80u8, 0xF0u8, 0x10u8, 0xF0u8,
        0xF0u8, 0x80u8, 0xF0u8, 0x90u8, 0xF0u8,
        0xF0u8, 0x10u8, 0x20u8, 0x40u8, 0x40u8,
        0xF0u8, 0x90u8, 0xF0u8, 0x90u8, 0xF0u8,
        0xF0u8, 0x90u8, 0xF0u8, 0x10u8, 0xF0u8,
        0xF0u8, 0x90u8, 0xF0u8, 0x90u8, 0x90u8,
        0xE0u8, 0x90u8, 0xE0u8, 0x90u8, 0xE0u8,
        0xF0u8, 0x80u8, 0x80u8, 0x80u8, 0xF0u8,
        0xE0u8, 0x90u8, 0x90u8, 0x90u8, 0xE0u8,
        0xF0u8, 0x80u8, 0xF0u8, 0x80u8, 0xF0u8,
        0xF0u8, 0x80u8, 0xF0u8, 0x80u8, 0x80u8,
    ]
}

/// Memory at construction: all zero but for the font table.
pub open spec fn spec_initial_memory() -> Seq<u8> {
    Seq::new(
        MEMORY_SIZE as nat,
        |i: int|
            if FONT_START <= i < FONT_START + FONT_SIZE {
                font_data()[i - FONT_START]
            } else {
                0u8
            },
    )
}

/// The machine right after construction: zeroed registers and framebuffer,
/// empty stack and keypad, the font in memory, PC at the program start.
pub open spec fn spec_initial() -> EmuState {
    EmuState {
        memory: spec_initial_memory(),
        stack: Seq::empty(),
        delay_timer: 0u8,
        sound_timer: 0u8,
        pc: PROGRAM_START,
        index: 0u16,
        regs: Seq::new(REGISTER_COUNT as nat, |i: int| 0u8),
        keys: Seq::empty(),
        display: Seq::new(DISPLAY_SIZE as nat, |i: int| false),
    }
}

/// Both timers decremented by one, floored at zero; nothing else changes.
pub open spec fn spec_decrement_timers(s: EmuState) -> EmuState {
    EmuState {
        delay_timer: if s.delay_timer > 0 {
            (s.delay_timer - 1) as u8
        } else {
            0u8
        },
        sound_timer: if s.sound_timer > 0 {
            (s.sound_timer - 1) as u8
        } else {
            0u8
        },
        ..s
    }
}

/// A ROM image written to the program area; the rest of memory is kept.
pub open spec fn spec_load_rom(s: EmuState, rom: Seq<u8>) -> EmuState {
    EmuState {
        memory: Seq::new(
            s.memory.len(),
            |j: int|
                if PROGRAM_START <= j < PROGRAM_START + rom.len() {
                    rom[j - PROGRAM_START]
                } else {
                    s.memory[j]
                },
        ),
        ..s
    }
}

/// The program counter may read the two instruction bytes.
pub open spec fn spec_pc_in_bounds(s: EmuState) -> bool {
    s.pc + 1 < MEMORY_SIZE
}

/// The big-endian instruction word at the program counter.
pub open spec fn spec_instruction_word(s: EmuState) -> u16
    recommends
        spec_pc_in_bounds(s),
        s.wf(),
{
    (s.memory[s.pc as int] * 256 + s.memory[s.pc as int + 1]) as u16
}

/// The state after a fetch: the program counter has moved past the word.
pub open spec fn spec_advance_pc(s: EmuState) -> EmuState {
    EmuState { pc: spec_pc_plus_2(s.pc), ..s }
}

// ---------------------------------------------------------------------------
// Effect of each instruction.
// ---------------------------------------------------------------------------

/// CLS: every pixel off.
pub open spec fn spec_clear_display(s: EmuState) -> EmuState {
    EmuState { display: Seq::new(DISPLAY_SIZE as nat, |i: int| false), ..s }
}

/// RET: pop the return address into PC; with an empty stack, PC is unchanged.
pub open spec fn spec_return(s: EmuState) -> EmuState {
    if s.stack.len() > 0 {
        EmuState { pc: s.stack.last(), stack: s.stack.drop_last(), ..s }
    } else {
        s
    }
}

/// JP addr.
pub open spec fn spec_jump(s: EmuState, addr: u16) -> EmuState {
    EmuState { pc: addr, ..s }
}

/// CALL addr: push the current PC, then jump.
pub open spec fn spec_call(s: EmuState, addr: u16) -> EmuState {
    EmuState { stack: s.stack.push(s.pc), pc: addr, ..s }
}

/// Skip the next instruction when the condition holds.
pub open spec fn spec_skip_if(s: EmuState, cond: bool) -> EmuState {
    if cond {
        EmuState { pc: spec_pc_plus_2(s.pc), ..s }
    } else {
        s
    }
}

/// Vx written with a value.
pub open spec fn spec_set_register(s: EmuState, x: u8, v: u8) -> EmuState
    recommends
        x < 16,
{
    EmuState { regs: s.regs.update(x as int, v), ..s }
}

/// ADD Vx,byte: wrapping add, flag untouched.
pub open spec fn spec_add_immediate(s: EmuState, x: u8, v: u8) -> EmuState
    recommends
        x < 16,
        s.wf(),
{
    spec_set_register(s, x, wrap8(s.regs[x as int] + v))
}

/// ADD Vx,Vy: wrapping add; VF is 1 exactly when the true sum overflows a byte.
pub open spec fn spec_add_xy(s: EmuState, x: u8, y: u8) -> EmuState
    recommends
        x < 16,
        y < 16,
        s.wf(),
{
    let sum = s.regs[x as int] + s.regs[y as int];
    EmuState {
        regs: s.regs.update(x as int, wrap8(sum)).update(
            15,
            if sum >= 256 {
                1u8
            } else {
                0u8
            },
        ),
        ..s
    }
}

/// SUB Vx,Vy: wrapping subtract; VF is 1 exactly when there is no borrow.
pub open spec fn spec_sub_xy(s: EmuState, x: u8, y: u8) -> EmuState
    recommends
        x < 16,
        y < 16,
        s.wf(),
{
    let a = s.regs[x as int];
    let b = s.regs[y as int];
    EmuState {
        regs: s.regs.update(x as int, wrap8(a - b)).update(
            15,
            if a >= b {
                1u8
            } else {
                0u8
            },
        ),
        ..s
    }
}

/// SUBN Vx,Vy: Vy minus Vx; VF is 1 exactly when there is no borrow.
pub open spec fn spec_subn_xy(s: EmuState, x: u8, y: u8) -> EmuState
    recommends
        x < 16,
        y < 16,
        s.wf(),
{
    let a = s.regs[x as int];
    let b = s.regs[y as int];
    EmuState {
        regs: s.regs.update(x as int, wrap8(b - a)).update(
            15,
            if b >= a {
                1u8
            } else {
                0u8
            },
        ),
        ..s
    }
}

/// SHR Vx,Vy: Vx becomes Vy shifted right once; VF catches the bit shifted
/// out (the source's low bit, read before the shift).
pub open spec fn spec_shr_xy(s: EmuState, x: u8, y: u8) -> EmuState
    recommends
        x < 16,
        y < 16,
        s.wf(),
{
    let src = s.regs[y as int];
    EmuState {
        regs: s.regs.update(x as int, (src / 2) as u8).update(15, (src % 2) as u8),
        ..s
    }
}

/// SHL Vx,Vy: Vx becomes the low byte of Vy shifted left once; VF catches the
/// source's high bit.
pub open spec fn spec_shl_xy(s: EmuState, x: u8, y: u8) -> EmuState
    recommends
        x < 16,
        y < 16,
        s.wf(),
{
    let src = s.regs[y as int];
    EmuState {
        regs: s.regs.update(x as int, wrap8(2 * src)).update(15, (src / 128) as u8),
        ..s
    }
}

/// JP V0,addr.
pub open spec fn spec_jump_offset(s: EmuState, addr: u16) -> EmuState
    recommends
        addr < 4096,
        s.wf(),
{
    EmuState { pc: (addr + s.regs[0]) as u16, ..s }
}

/// RND Vx,byte: a random byte masked by the immediate.
pub open spec fn spec_rnd(s: EmuState, x: u8, mask: u8, r: u8) -> EmuState
    recommends
        x < 16,
{
    spec_set_register(s, x, r & mask)
}

/// SKP/SKNP Vx: skip when key Vx is (`want == true`) or is not held.
pub open spec fn spec_skip_key(s: EmuState, x: u8, want: bool) -> EmuState
    recommends
        x < 16,
        s.wf(),
{
    spec_skip_if(s, s.keys.contains(s.regs[x as int]) == want)
}

/// LD Vx,DT.
pub open spec fn spec_get_delay(s: EmuState, x: u8) -> EmuState
    recommends
        x < 16,
{
    spec_set_register(s, x, s.delay_timer)
}

/// LD Vx,K: with a key held, the earliest-pressed key lands in Vx; with none,
/// PC rewinds one instruction so the fetch repeats next tick.
pub open spec fn spec_wait_key(s: EmuState, x: u8) -> EmuState
    recommends
        x < 16,
{
    if s.keys.len() > 0 {
        spec_set_register(s, x, s.keys[0])
    } else {
        EmuState { pc: spec_pc_minus_2(s.pc), ..s }
    }
}

/// LD DT,Vx.
pub open spec fn spec_set_delay(s: EmuState, x: u8) -> EmuState
    recommends
        x < 16,
        s.wf(),
{
    EmuState { delay_timer: s.regs[x as int], ..s }
}

/// LD ST,Vx.
pub open spec fn spec_set_sound(s: EmuState, x: u8) -> EmuState
    recommends
        x < 16,
        s.wf(),
{
    EmuState { sound_timer: s.regs[x as int], ..s }
}

/// ADD I,Vx: wrapping 16-bit add. VF is raised when the new I reaches 0x1000
/// and is deliberately left alone otherwise (this interpreter's asymmetry:
/// the non-overflow case never clears the flag).
pub open spec fn spec_add_index(s: EmuState, x: u8) -> EmuState
    recommends
        x < 16,
        s.wf(),
{
    let ni = wrap16(s.index + s.regs[x as int]);
    EmuState {
        index: ni,
        regs: if ni >= 0x1000 {
            s.regs.update(15, 1u8)
        } else {
            s.regs
        },
        ..s
    }
}

/// LD F,Vx: I points at the glyph for the value of Vx.
pub open spec fn spec_font_address(s: EmuState, x: u8) -> EmuState
    recommends
        x < 16,
        s.wf(),
{
    EmuState { index: (FONT_START + s.regs[x as int] * 5) as u16, ..s }
}

/// LD B,Vx: the three decimal digits of Vx written at I, I+1, I+2.
pub open spec fn spec_bcd(s: EmuState, x: u8) -> EmuState
    recommends
        x < 16,
        s.wf(),
        s.index + 2 < s.memory.len(),
{
    let v = s.regs[x as int];
    EmuState {
        memory: s.memory.update(s.index as int, (v / 100) as u8).update(
            s.index + 1,
            ((v / 10) % 10) as u8,
        ).update(s.index + 2, (v % 10) as u8),
        ..s
    }
}

/// LD [I],Vx: V0..Vx stored to memory at I.
pub open spec fn spec_store_registers(s: EmuState, x: u8) -> EmuState
    recommends
        x < 16,
        s.wf(),
        s.index + x < s.memory.len(),
{
    EmuState {
        memory: Seq::new(
            s.memory.len(),
            |j: int|
                if s.index <= j <= s.index + x {
                    s.regs[j - s.index]
                } else {
                    s.memory[j]
                },
        ),
        ..s
    }
}

/// LD Vx,[I]: V0..Vx loaded from memory at I.
pub open spec fn spec_load_registers(s: EmuState, x: u8) -> EmuState
    recommends
        x < 16,
        s.wf(),
        s.index + x < s.memory.len(),
{
    EmuState {
        regs: Seq::new(
            REGISTER_COUNT as nat,
            |r: int|
                if r <= x {
                    s.memory[s.index + r]
                } else {
                    s.regs[r]
                },
        ),
        ..s
    }
}

// ---------------------------------------------------------------------------
// Sprite drawing.
// ---------------------------------------------------------------------------

/// Flat framebuffer index of pixel (px, py).
pub open spec fn pixel_index(px: int, py: int) -> int {
    py * 64 + px
}

/// Whether a sprite row has its bit for column `col` on (most significant
/// bit first).
pub open spec fn sprite_bit(row: u8, col: int) -> bool
    recommends
        0 <= col < 8,
{
    (row >> ((7 - col) as u8)) & 1 == 1
}

/// The sprite bit aimed at screen pixel (px, py) for a sprite drawn at
/// (x0, y0) from memory at I.
pub open spec fn sprite_pixel(s: EmuState, x0: int, y0: int, px: int, py: int) -> bool
    recommends
        x0 <= px < x0 + 8,
        y0 <= py,
{
    sprite_bit(s.memory[s.index + (py - y0)], px - x0)
}

/// Whether (px, py) lies under the n-row sprite window at (x0, y0), in
/// unwrapped screen space.
pub open spec fn in_sprite_window(x0: int, y0: int, rows: int, px: int, py: int) -> bool {
    x0 <= px < x0 + 8 && y0 <= py < y0 + rows
}

/// Whether (px, py) lies under the sprite window and has been visited by a
/// row-major scan that stands at row `i`, column `b`.
pub open spec fn cell_processed(x0: int, y0: int, i: int, b: int, px: int, py: int) -> bool {
    &&& x0 <= px < x0 + 8
    &&& y0 <= py
    &&& (py < y0 + i || (py == y0 + i && px < x0 + b))
}

/// The framebuffer after the scan has processed every cell before row `i`,
/// column `b`: each visited on-screen cell is XORed with its sprite bit;
/// off-screen cells of the window are dropped, not wrapped.
pub open spec fn spec_draw_display_upto(
    s: EmuState,
    x0: int,
    y0: int,
    i: int,
    b: int,
) -> Seq<bool> {
    Seq::new(
        DISPLAY_SIZE as nat,
        |idx: int|
            if cell_processed(x0, y0, i, b, idx % 64, idx / 64) {
                s.display[idx] != sprite_pixel(s, x0, y0, idx % 64, idx / 64)
            } else {
                s.display[idx]
            },
    )
}

/// Whether the on-screen cell (px, py) collides: it lies under the visited
/// part of the sprite window, its pixel is on, and its sprite bit is on.
pub open spec fn draw_collider(
    s: EmuState,
    x0: int,
    y0: int,
    i: int,
    b: int,
    px: int,
    py: int,
) -> bool {
    0 <= px < 64 && 0 <= py < 32 && cell_processed(x0, y0, i, b, px, py) && s.display[pixel_index(
        px,
        py,
    )] && sprite_pixel(s, x0, y0, px, py)
}

/// Whether some visited on-screen cell had its pixel on while its sprite bit
/// was on: the collision condition seen so far.
pub open spec fn spec_draw_collision_upto(s: EmuState, x0: int, y0: int, i: int, b: int) -> bool {
    exists|px: int, py: int| #[trigger] draw_collider(s, x0, y0, i, b, px, py)
}

/// The framebuffer after a whole n-row sprite draw.
pub open spec fn spec_draw_display(s: EmuState, x0: int, y0: int, rows: int) -> Seq<bool> {
    spec_draw_display_upto(s, x0, y0, rows, 0)
}

/// Whether an n-row sprite draw turns any pixel off: the collision flag.
pub open spec fn spec_draw_collision(s: EmuState, x0: int, y0: int, rows: int) -> bool {
    spec_draw_collision_upto(s, x0, y0, rows, 0)
}

/// DRW Vx,Vy,n: the sprite at memory[I..I+n] XORed onto the screen at
/// (Vx mod 64, Vy mod 32); VF reports a collision.
pub open spec fn spec_draw_sprite(s: EmuState, x: u8, y: u8, n: u8) -> EmuState
    recommends
        x < 16,
        y < 16,
        s.wf(),
        n > 0 ==> s.index + n <= s.memory.len(),
{
    let x0 = (s.regs[x as int] as int) % 64;
    let y0 = (s.regs[y as int] as int) % 32;
    EmuState {
        display: spec_draw_display(s, x0, y0, n as int),
        regs: s.regs.update(
            15,
            if spec_draw_collision(s, x0, y0, n as int) {
                1u8
            } else {
                0u8
            },
        ),
        ..s
    }
}

// ---------------------------------------------------------------------------
// Dispatch.
// ---------------------------------------------------------------------------

/// Whether the opcode family draws on a random byte.
pub open spec fn is_random_instruction(op: u8) -> bool {
    op == 0xC
}

/// The memory accesses the instruction makes through I stay in bounds. This
/// is what a caller of `execute` owes beyond decoding; everything else is
/// total.
pub open spec fn spec_instruction_in_bounds(s: EmuState, op: u8, x: u8, y: u8, n: u8) -> bool {
    &&& (op == 0xD && n > 0 ==> s.index + n <= MEMORY_SIZE)
    &&& (op == 0xF && y == 0x3 && n == 0x3 ==> s.index + 2 < MEMORY_SIZE)
    &&& (op == 0xF && (y == 0x5 || y == 0x6) && n == 0x5 ==> s.index + x < MEMORY_SIZE)
}

/// The effect of one decoded instruction `(op, x, y, n)` on the state. `rnd`
/// stands for the byte the random source hands RND; every other instruction
/// ignores it. An unmatched pattern is a defined no-op. Matching follows the
/// most-specific-first order of the dispatch table.
pub open spec fn spec_execute(s: EmuState, op: u8, x: u8, y: u8, n: u8, rnd: u8) -> EmuState
    recommends
        op < 16,
        x < 16,
        y < 16,
        n < 16,
        s.wf(),
        spec_instruction_in_bounds(s, op, x, y, n),
{
    if op == 0x0 && x == 0x0 && y == 0xE && n == 0x0 {
        spec_clear_display(s)
    } else if op == 0x0 && x == 0x0 && y == 0xE && n == 0xE {
        spec_return(s)
    } else if op == 0x1 {
        spec_jump(s, imm_addr(x, y, n))
    } else if op == 0x2 {
        spec_call(s, imm_addr(x, y, n))
    } else if op == 0x3 {
        spec_skip_if(s, s.regs[x as int] == imm_byte(y, n))
    } else if op == 0x4 {
        spec_skip_if(s, s.regs[x as int] != imm_byte(y, n))
    } else if op == 0x5 && n == 0x0 {
        spec_skip_if(s, s.regs[x as int] == s.regs[y as int])
    } else if op == 0x6 {
        spec_set_register(s, x, imm_byte(y, n))
    } else if op == 0x7 {
        spec_add_immediate(s, x, imm_byte(y, n))
    } else if op == 0x8 && n == 0x0 {
        spec_set_register(s, x, s.regs[y as int])
    } else if op == 0x8 && n == 0x1 {
        spec_set_register(s, x, s.regs[x as int] | s.regs[y as int])
    } else if op == 0x8 && n == 0x2 {
        spec_set_register(s, x, s.regs[x as int] & s.regs[y as int])
    } else if op == 0x8 && n == 0x3 {
        spec_set_register(s, x, s.regs[x as int] ^ s.regs[y as int])
    } else if op == 0x8 && n == 0x4 {
        spec_add_xy(s, x, y)
    } else if op == 0x8 && n == 0x5 {
        spec_sub_xy(s, x, y)
    } else if op == 0x8 && n == 0x6 {
        spec_shr_xy(s, x, y)
    } else if op == 0x8 && n == 0x7 {
        spec_subn_xy(s, x, y)
    } else if op == 0x8 && n == 0xE {
        spec_shl_xy(s, x, y)
    } else if op == 0x9 && n == 0x0 {
        spec_skip_if(s, s.regs[x as int] != s.regs[y as int])
    } else if op == 0xA {
        EmuState { index: imm_addr(x, y, n), ..s }
    } else if op == 0xB {
        spec_jump_offset(s, imm_addr(x, y, n))
    } else if op == 0xC {
        spec_rnd(s, x, imm_byte(y, n), rnd)
    } else if op == 0xD {
        spec_draw_sprite(s, x, y, n)
    } else if op == 0xE && y == 0x9 && n == 0xE {
        spec_skip_key(s, x, true)
    } else if op == 0xE && y == 0xA && n == 0x1 {
        spec_skip_key(s, x, false)
    } else if op == 0xF && y == 0x0 && n == 0x7 {
        spec_get_delay(s, x)
    } else if op == 0xF && y == 0x0 && n == 0xA {
        spec_wait_key(s, x)
    } else if op == 0xF && y == 0x1 && n == 0x5 {
        spec_set_delay(s, x)
    } else if op == 0xF && y == 0x1 && n == 0x8 {
        spec_set_sound(s, x)
    } else if op == 0xF && y == 0x1 && n == 0xE {
        spec_add_index(s, x)
    } else if op == 0xF && y == 0x2 && n == 0x9 {
        spec_font_address(s, x)
    } else if op == 0xF && y == 0x3 && n == 0x3 {
        spec_bcd(s, x)
    } else if op == 0xF && y == 0x5 && n == 0x5 {
        spec_store_registers(s, x)
    } else if op == 0xF && y == 0x6 && n == 0x5 {
        spec_load_registers(s, x)
    } else {
        s
    }
}

/// Whether one whole tick can run: the PC can read both instruction bytes and
/// the decoded instruction's memory accesses through I stay in bounds.
pub open spec fn spec_tick_in_bounds(s: EmuState) -> bool {
    &&& spec_pc_in_bounds(s)
    &&& spec_instruction_in_bounds(
        s,
        op_nibble(spec_instruction_word(s)),
        x_nibble(spec_instruction_word(s)),
        y_nibble(spec_instruction_word(s)),
        n_nibble(spec_instruction_word(s)),
    )
}

/// Whether the instruction at PC draws on a random byte.
pub open spec fn spec_tick_is_random(s: EmuState) -> bool
    recommends
        s.wf(),
        spec_pc_in_bounds(s),
{
    is_random_instruction(op_nibble(spec_instruction_word(s)))
}

/// The state after one whole fetch-decode-execute tick; `rnd` stands for the
/// byte the random source would hand RND.
pub open spec fn spec_tick(s: EmuState, rnd: u8) -> EmuState
    recommends
        s.wf(),
        spec_tick_in_bounds(s),
{
    let w = spec_instruction_word(s);
    spec_execute(spec_advance_pc(s), op_nibble(w), x_nibble(w), y_nibble(w), n_nibble(w), rnd)
}

// ---------------------------------------------------------------------------
// Keypad.
// ---------------------------------------------------------------------------

/// The position of the first occurrence of `key` in `keys`.
pub open spec fn key_position(keys: Seq<u8>, key: u8) -> int
    decreases keys.len(),
{
    if keys.len() == 0 {
        0
    } else if keys[0] == key {
        0
    } else {
        1 + key_position(keys.drop_first(), key)
    }
}

/// `key_position` really is the first occurrence.
pub proof fn lemma_key_position(keys: Seq<u8>, key: u8)
    requires
        keys.contains(key),
    ensures
        0 <= key_position(keys, key) < keys.len(),
        keys[key_position(keys, key)] == key,
        forall|j: int| 0 <= j < key_position(keys, key) ==> keys[j] != key,
    decreases keys.len(),
{
    if keys[0] == key {
    } else {
        let i = choose|i: int| 0 <= i < keys.len() && keys[i] == key;
        assert(keys.drop_first()[i - 1] == key);
        assert(keys.drop_first().contains(key));
        lemma_key_position(keys.drop_first(), key);
        assert forall|j: int| 0 <= j < key_position(keys, key) implies keys[j] != key by {
            if j > 0 {
                assert(keys.drop_first()[j - 1] == keys[j]);
            }
        }
    }
}

/// The flat index really is the inverse of (x, y) coordinates.
pub proof fn lemma_pixel_index(px: int, py: int)
    requires
        0 <= px < 64,
        0 <= py < 32,
    ensures
        0 <= pixel_index(px, py) < 2048,
        pixel_index(px, py) % 64 == px,
        pixel_index(px, py) / 64 == py,
{
}

/// Before any cell is visited, the framebuffer is untouched and no collision
/// has been seen.
pub proof fn lemma_draw_start(s: EmuState, x0: int, y0: int)
    requires
        s.wf(),
        0 <= x0 < 64,
        0 <= y0 < 32,
    ensures
        spec_draw_display_upto(s, x0, y0, 0, 0) =~= s.display,
        !spec_draw_collision_upto(s, x0, y0, 0, 0),
{
    if spec_draw_collision_upto(s, x0, y0, 0, 0) {
        let (px, py) = choose|px: int, py: int| #[trigger] draw_collider(s, x0, y0, 0, 0, px, py);
        assert(false);
    }
}

/// Visiting one more cell either XORs one on-screen pixel or, off screen,
/// changes nothing.
pub proof fn lemma_draw_step_display(s: EmuState, x0: int, y0: int, i: int, b: int)
    requires
        s.wf(),
        0 <= x0 < 64,
        0 <= y0 < 32,
        0 <= i,
        0 <= b < 8,
    ensures
        x0 + b < 64 && y0 + i < 32 ==> spec_draw_display_upto(s, x0, y0, i, b + 1)
            =~= spec_draw_display_upto(s, x0, y0, i, b).update(
            pixel_index(x0 + b, y0 + i),
            s.display[pixel_index(x0 + b, y0 + i)] != sprite_pixel(s, x0, y0, x0 + b, y0 + i),
        ),
        !(x0 + b < 64 && y0 + i < 32) ==> spec_draw_display_upto(s, x0, y0, i, b + 1)
            =~= spec_draw_display_upto(s, x0, y0, i, b),
{
    if x0 + b < 64 && y0 + i < 32 {
        lemma_pixel_index(x0 + b, y0 + i);
        let target = pixel_index(x0 + b, y0 + i);
        let updated = spec_draw_display_upto(s, x0, y0, i, b).update(
            target,
            s.display[target] != sprite_pixel(s, x0, y0, x0 + b, y0 + i),
        );
        assert forall|idx: int| 0 <= idx < 2048 implies spec_draw_display_upto(
            s,
            x0,
            y0,
            i,
            b + 1,
        )[idx] == updated[idx] by {
            let px = idx % 64;
            let py = idx / 64;
            assert(0 <= px < 64);
            assert(0 <= py < 32);
            assert(idx == pixel_index(px, py));
            if idx == target {
                assert(px == x0 + b && py == y0 + i);
            }
        }
        assert(spec_draw_display_upto(s, x0, y0, i, b + 1) =~= updated);
    } else {
        assert forall|idx: int| 0 <= idx < 2048 implies spec_draw_display_upto(
            s,
            x0,
            y0,
            i,
            b + 1,
        )[idx] == spec_draw_display_upto(s, x0, y0, i, b)[idx] by {
            let px = idx % 64;
            let py = idx / 64;
            assert(0 <= px < 64);
            assert(0 <= py < 32);
        }
        assert(spec_draw_display_upto(s, x0, y0, i, b + 1) =~= spec_draw_display_upto(
            s,
            x0,
            y0,
            i,
            b,
        ));
    }
}

/// Visiting one more cell sees a collision exactly when one was already seen
/// or the new cell is an on-screen collider.
pub proof fn lemma_draw_step_collision(s: EmuState, x0: int, y0: int, i: int, b: int)
    requires
        s.wf(),
        0 <= x0 < 64,
        0 <= y0 < 32,
        0 <= i,
        0 <= b < 8,
    ensures
        spec_draw_collision_upto(s, x0, y0, i, b + 1) == (spec_draw_collision_upto(s, x0, y0, i, b)
            || (x0 + b < 64 && y0 + i < 32 && s.display[pixel_index(x0 + b, y0 + i)]
            && sprite_pixel(s, x0, y0, x0 + b, y0 + i))),
{
    if spec_draw_collision_upto(s, x0, y0, i, b) {
        let (px, py) = choose|px: int, py: int| #[trigger] draw_collider(s, x0, y0, i, b, px, py);
        assert(draw_collider(s, x0, y0, i, b + 1, px, py));
    }
    if x0 + b < 64 && y0 + i < 32 && s.display[pixel_index(x0 + b, y0 + i)] && sprite_pixel(
        s,
        x0,
        y0,
        x0 + b,
        y0 + i,
    ) {
        lemma_pixel_index(x0 + b, y0 + i);
        assert(draw_collider(s, x0, y0, i, b + 1, x0 + b, y0 + i));
    }
    if spec_draw_collision_upto(s, x0, y0, i, b + 1) {
        let (px, py) = choose|px: int, py: int| #[trigger] draw_collider(s, x0, y0, i, b + 1, px, py);
        if cell_processed(x0, y0, i, b, px, py) {
            assert(draw_collider(s, x0, y0, i, b, px, py));
        } else {
            assert(px == x0 + b && py == y0 + i);
        }
    }
}

/// Standing past the last column of a row is the same as standing at the
/// start of the next row.
pub proof fn lemma_draw_row_end(s: EmuState, x0: int, y0: int, i: int)
    requires
        s.wf(),
        0 <= x0 < 64,
        0 <= y0 < 32,
        0 <= i,
    ensures
        spec_draw_display_upto(s, x0, y0, i, 8) =~= spec_draw_display_upto(s, x0, y0, i + 1, 0),
        spec_draw_collision_upto(s, x0, y0, i, 8) == spec_draw_collision_upto(s, x0, y0, i + 1, 0),
{
    assert forall|idx: int| 0 <= idx < 2048 implies spec_draw_display_upto(s, x0, y0, i, 8)[idx]
        == spec_draw_display_upto(s, x0, y0, i + 1, 0)[idx] by {
        let px = idx % 64;
        let py = idx / 64;
        assert(cell_processed(x0, y0, i, 8, px, py) == cell_processed(x0, y0, i + 1, 0, px, py));
    }
    assert(spec_draw_display_upto(s, x0, y0, i, 8) =~= spec_draw_display_upto(s, x0, y0, i + 1, 0));
    if spec_draw_collision_upto(s, x0, y0, i, 8) {
        let (px, py) = choose|px: int, py: int| #[trigger] draw_collider(s, x0, y0, i, 8, px, py);
        assert(draw_collider(s, x0, y0, i + 1, 0, px, py));
    }
    if spec_draw_collision_upto(s, x0, y0, i + 1, 0) {
        let (px, py) = choose|px: int, py: int| #[trigger] draw_collider(s, x0, y0, i + 1, 0, px, py);
        assert(draw_collider(s, x0, y0, i, 8, px, py));
    }
}

/// A host key event folded into the held set: press is idempotent, release
/// of an absent key is a no-op.
pub open spec fn spec_set_key(s: EmuState, key: u8, pressed: bool) -> EmuState {
    if pressed {
        if s.keys.contains(key) {
            s
        } else {
            EmuState { keys: s.keys.push(key), ..s }
        }
    } else {
        if s.keys.contains(key) {
            EmuState { keys: s.keys.remove(key_position(s.keys, key)), ..s }
        } else {
            s
        }
    }
}

} // verus!
