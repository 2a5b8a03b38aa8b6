//! The executable CHIP-8 interpreter: the machine state container and the
//! fetch-decode-execute cycle, each step proved against the model in `state`.
use vstd::prelude::*;

use crate::state::{
    cell_processed, font_data, imm_addr, is_random_instruction, key_position, lemma_draw_row_end,
    lemma_draw_start, lemma_draw_step_collision, lemma_draw_step_display, lemma_key_position,
    lemma_pixel_index, n_nibble, op_nibble, pixel_index, spec_add_immediate, spec_add_index,
    spec_add_xy, spec_advance_pc, spec_bcd, spec_call, spec_clear_display, spec_decrement_timers,
    spec_draw_collision_upto, spec_draw_display, spec_draw_display_upto, spec_draw_sprite,
    spec_execute, spec_font_address, spec_get_delay, spec_initial, spec_instruction_in_bounds,
    spec_instruction_word, spec_jump, spec_jump_offset, spec_load_registers, spec_load_rom,
    spec_pc_in_bounds, spec_pc_plus_2, spec_return, spec_rnd, spec_set_delay, spec_set_key,
    spec_set_register, spec_set_sound, spec_shl_xy, spec_shr_xy, spec_skip_if, spec_skip_key,
    spec_store_registers, spec_sub_xy, spec_subn_xy, spec_tick, spec_tick_in_bounds,
    spec_tick_is_random, spec_wait_key, sprite_pixel, wrap8, x_nibble, y_nibble, EmuState,
    DISPLAY_HEIGHT, DISPLAY_SIZE, DISPLAY_WIDTH, FONT_SIZE, FONT_START, MAX_ROM_SIZE, MEMORY_SIZE,
    PROGRAM_START, REGISTER_COUNT,
};

verus! {

/// A fault the interpreter reports instead of acting out of bounds.
#[derive(Clone, Copy, Debug, PartialEq, Eq, Structural)]
pub enum Fault {
    /// A ROM image longer than the program area.
    RomTooLarge,
    /// The program counter walked past the end of memory.
    PcOutOfRange,
    /// An instruction would read or write memory past its end through I.
    IndexOutOfRange,
}

/// The CHIP-8 machine: memory, registers, stack, timers, program counter,
/// index register, keypad and framebuffer.
pub struct Emulator {
    memory: Vec<u8>,
    stack: Vec<u16>,
    delay_timer: u8,
    sound_timer: u8,
    program_counter: u16,
    index_register: u16,
    registers: Vec<u8>,
    keys_pressed: Vec<u8>,
    display_buffer: Vec<bool>,
}

impl View for Emulator {
    type V = EmuState;

    closed spec fn view(&self) -> EmuState {
        EmuState {
            memory: self.memory@,
            stack: self.stack@,
            delay_timer: self.delay_timer,
            sound_timer: self.sound_timer,
            pc: self.program_counter,
            index: self.index_register,
            regs: self.registers@,
            keys: self.keys_pressed@,
            display: self.display_buffer@,
        }
    }
}

/// Relies on macroquad::rand::gen_range: a pseudo-random byte drawn from the
/// process-wide generator. Nothing is assumed of its value.
#[verifier::external_body]
fn random_byte() -> u8 {
    macroquad::rand::gen_range(0, 255)
}

/// The font table as bytes, equal to the model's `font_data`.
fn font_bytes() -> (r: Vec<u8>)
    ensures
        r@ == font_data(),
{
    let r: Vec<u8> = vec![
        0xF0, 0x90, 0x90, 0x90, 0xF0,
        0x20, 0x60, 0x20, 0x20, 0x70,
        0xF0, 0x10, 0xF0, 0x80, 0xF0,
        0xF0, 0x10, 0xF0, 0x10, 0xF0,
        0x90, 0x90, 0xF0, 0x10, 0x10,
        0xF0, 0x80, 0xF0, 0x10, 0xF0,
        0xF0, 0x80, 0xF0, 0x90, 0xF0,
        0xF0, 0x10, 0x20, 0x40, 0x40,
        0xF0, 0x90, 0xF0, 0x90, 0xF0,
        0xF0, 0x90, 0xF0, 0x10, 0xF0,
        0xF0, 0x90, 0xF0, 0x90, 0x90,
        0xE0, 0x90, 0xE0, 0x90, 0xE0,
        0xF0, 0x80, 0x80, 0x80, 0xF0,
        0xE0, 0x90, 0x90, 0x90, 0xE0,
        0xF0, 0x80, 0xF0, 0x80, 0xF0,
        0xF0, 0x80, 0xF0, 0x80, 0x80,
    ];
    proof {
        assert(r@ =~= font_data());
    }
    r
}

impl Emulator {
    /// A fresh machine: zeroed state, the font seeded, PC at the program
    /// start.
    pub fn new() -> (e: Emulator)
        ensures
            e@ == spec_initial(),
            e@.wf(),
    {
        let mut memory: Vec<u8> = Vec::new();
        while memory.len() < MEMORY_SIZE
            invariant
                memory@.len() <= MEMORY_SIZE,
                forall|j: int| 0 <= j < memory@.len() ==> memory@[j] == 0u8,
            decreases MEMORY_SIZE - memory@.len(),
        {
            memory.push(0);
        }
        let font = font_bytes();
        let mut i: usize = 0;
        while i < FONT_SIZE
            invariant
                i <= FONT_SIZE,
                memory@.len() == MEMORY_SIZE,
                font@ == font_data(),
                forall|j: int|
                    FONT_START <= j < FONT_START + i ==> memory@[j] == font_data()[j - FONT_START],
                forall|j: int|
                    0 <= j < MEMORY_SIZE && !(FONT_START <= j < FONT_START + i) ==> memory@[j]
                        == 0u8,
            decreases FONT_SIZE - i,
        {
            memory.set(FONT_START as usize + i, font[i]);
            i += 1;
        }
        let mut registers: Vec<u8> = Vec::new();
        while registers.len() < REGISTER_COUNT
            invariant
                registers@.len() <= REGISTER_COUNT,
                forall|j: int| 0 <= j < registers@.len() ==> registers@[j] == 0u8,
            decreases REGISTER_COUNT - registers@.len(),
        {
            registers.push(0);
        }
        let mut display_buffer: Vec<bool> = Vec::new();
        while display_buffer.len() < DISPLAY_SIZE
            invariant
                display_buffer@.len() <= DISPLAY_SIZE,
                forall|j: int| 0 <= j < display_buffer@.len() ==> display_buffer@[j] == false,
            decreases DISPLAY_SIZE - display_buffer@.len(),
        {
            display_buffer.push(false);
        }
        let e = Emulator {
            memory,
            stack: Vec::new(),
            delay_timer: 0,
            sound_timer: 0,
            program_counter: PROGRAM_START,
            index_register: 0,
            registers,
            keys_pressed: Vec::new(),
            display_buffer,
        };
        proof {
            assert(e@.memory =~= spec_initial().memory);
            assert(e@.regs =~= spec_initial().regs);
            assert(e@.display =~= spec_initial().display);
            assert(e@ =~= spec_initial());
        }
        e
    }

    /// Both timers move one step toward zero and never below it.
    pub fn decrement_timers(&mut self)
        ensures
            final(self)@ == spec_decrement_timers(old(self)@),
    {
        if self.delay_timer > 0 {
            self.delay_timer -= 1;
        }
        if self.sound_timer > 0 {
            self.sound_timer -= 1;
        }
        proof {
            assert(self@ =~= spec_decrement_timers(old(self)@));
        }
    }

    /// The value of register Vi.
    pub fn register(&self, i: u8) -> (r: u8)
        requires
            self@.wf(),
            i < 16,
        ensures
            r == self@.regs[i as int],
    {
        self.registers[i as usize]
    }

    /// The byte at a memory address.
    pub fn memory_byte(&self, addr: u16) -> (r: u8)
        requires
            self@.wf(),
            addr < MEMORY_SIZE,
        ensures
            r == self@.memory[addr as int],
    {
        self.memory[addr as usize]
    }

    /// The program counter.
    pub fn pc(&self) -> (r: u16)
        ensures
            r == self@.pc,
    {
        self.program_counter
    }

    /// The index register I.
    pub fn index(&self) -> (r: u16)
        ensures
            r == self@.index,
    {
        self.index_register
    }

    /// The delay timer.
    pub fn delay(&self) -> (r: u8)
        ensures
            r == self@.delay_timer,
    {
        self.delay_timer
    }

    /// The sound timer.
    pub fn sound(&self) -> (r: u8)
        ensures
            r == self@.sound_timer,
    {
        self.sound_timer
    }

    /// How many return addresses the call stack holds.
    pub fn stack_depth(&self) -> (r: usize)
        ensures
            r == self@.stack.len(),
    {
        self.stack.len()
    }

    /// Reads the two bytes at PC as one big-endian instruction word and moves
    /// PC past them.
    pub fn fetch_instruction(&mut self) -> (r: u16)
        requires
            old(self)@.wf(),
            spec_pc_in_bounds(old(self)@),
        ensures
            r == spec_instruction_word(old(self)@),
            final(self)@ == spec_advance_pc(old(self)@),
            final(self)@.wf(),
    {
        let address = self.program_counter as usize;
        self.program_counter += 2;
        let hi = self.memory[address];
        let lo = self.memory[address + 1];
        let word = ((hi as u16) << 8) | (lo as u16);
        proof {
            assert(((hi as u16) << 8u16) | (lo as u16) == hi as u16 * 256 + lo as u16)
                by (bit_vector);
            assert(self@ =~= spec_advance_pc(old(self)@));
        }
        word
    }

    /// Splits an instruction word into its four nibbles.
    pub fn extract_instruction(&self, instruction: u16) -> (r: (u8, u8, u8, u8))
        ensures
            r.0 == op_nibble(instruction),
            r.1 == x_nibble(instruction),
            r.2 == y_nibble(instruction),
            r.3 == n_nibble(instruction),
            r.0 < 16 && r.1 < 16 && r.2 < 16 && r.3 < 16,
    {
        proof {
            assert(((instruction & 0xF000) >> 12u16) as u8 == (instruction / 4096) as u8
                && (instruction / 4096) < 16) by (bit_vector);
            assert(((instruction & 0x0F00) >> 8u16) as u8 == ((instruction / 256) % 16) as u8)
                by (bit_vector);
            assert(((instruction & 0x00F0) >> 4u16) as u8 == ((instruction / 16) % 16) as u8)
                by (bit_vector);
            assert((instruction & 0x000F) as u8 == (instruction % 16) as u8) by (bit_vector);
        }
        (
            ((instruction & 0xF000) >> 12) as u8,
            ((instruction & 0x0F00) >> 8) as u8,
            ((instruction & 0x00F0) >> 4) as u8,
            (instruction & 0x000F) as u8,
        )
    }

    /// Combines three nibbles into a 12-bit value.
    fn to_u16(&self, h: u8, m: u8, l: u8) -> (r: u16)
        requires
            h < 16,
            m < 16,
            l < 16,
        ensures
            r == imm_addr(h, m, l),
            r < 4096,
    {
        proof {
            assert(h < 16 && m < 16 && l < 16 ==> (((h as u16) << 8u16) | ((m as u16) << 4u16) | (
            l as u16)) == (h as u16 * 256 + m as u16 * 16 + l as u16) && (h as u16 * 256 + m as u16
                * 16 + l as u16) < 4096) by (bit_vector);
        }
        ((h as u16) << 8) | ((m as u16) << 4) | (l as u16)
    }

    /// RET.
    fn return_subroutine(&mut self)
        ensures
            final(self)@ == spec_return(old(self)@),
            old(self)@.wf() ==> final(self)@.wf(),
    {
        match self.stack.pop() {
            Some(address) => {
                self.program_counter = address;
                proof {
                    assert(self@.stack =~= old(self)@.stack.drop_last());
                    assert(self@ =~= spec_return(old(self)@));
                }
            },
            None => {
                proof {
                    assert(self@ =~= spec_return(old(self)@));
                }
            },
        }
    }

    /// JP addr.
    fn jump(&mut self, address: u16)
        ensures
            final(self)@ == spec_jump(old(self)@, address),
            old(self)@.wf() ==> final(self)@.wf(),
    {
        self.program_counter = address;
        proof {
            assert(self@ =~= spec_jump(old(self)@, address));
        }
    }

    /// CALL addr.
    fn jump_subroutine(&mut self, address: u16)
        ensures
            final(self)@ == spec_call(old(self)@, address),
            old(self)@.wf() ==> final(self)@.wf(),
    {
        self.stack.push(self.program_counter);
        self.program_counter = address;
        proof {
            assert(self@ =~= spec_call(old(self)@, address));
        }
    }

    /// The program counter moved past the next instruction.
    fn skip_next(&mut self)
        ensures
            final(self)@ == spec_skip_if(old(self)@, true),
            old(self)@.wf() ==> final(self)@.wf(),
    {
        self.program_counter = self.program_counter.wrapping_add(2);
        proof {
            assert(self@.pc == spec_pc_plus_2(old(self)@.pc));
            assert(self@ =~= spec_skip_if(old(self)@, true));
        }
    }

    /// SE Vx,byte.
    fn skip_eq(&mut self, register: u8, val: u16)
        requires
            old(self)@.wf(),
            register < 16,
        ensures
            final(self)@ == spec_skip_if(old(self)@, old(self)@.regs[register as int] == val as u8),
            final(self)@.wf(),
    {
        let value = self.registers[register as usize];
        if value == val as u8 {
            self.skip_next();
        }
    }

    /// SNE Vx,byte.
    fn skip_ne(&mut self, register: u8, val: u16)
        requires
            old(self)@.wf(),
            register < 16,
        ensures
            final(self)@ == spec_skip_if(old(self)@, old(self)@.regs[register as int] != val as u8),
            final(self)@.wf(),
    {
        let value = self.registers[register as usize];
        if value != val as u8 {
            self.skip_next();
        }
    }

    /// SE Vx,Vy.
    fn skip_x_eq_y(&mut self, x_register: u8, y_register: u8)
        requires
            old(self)@.wf(),
            x_register < 16,
            y_register < 16,
        ensures
            final(self)@ == spec_skip_if(
                old(self)@,
                old(self)@.regs[x_register as int] == old(self)@.regs[y_register as int],
            ),
            final(self)@.wf(),
    {
        let x_value = self.registers[x_register as usize];
        let y_value = self.registers[y_register as usize];
        if x_value == y_value {
            self.skip_next();
        }
    }

    /// SNE Vx,Vy.
    fn skip_x_ne_y(&mut self, x_register: u8, y_register: u8)
        requires
            old(self)@.wf(),
            x_register < 16,
            y_register < 16,
        ensures
            final(self)@ == spec_skip_if(
                old(self)@,
                old(self)@.regs[x_register as int] != old(self)@.regs[y_register as int],
            ),
            final(self)@.wf(),
    {
        let x_value = self.registers[x_register as usize];
        let y_value = self.registers[y_register as usize];
        if x_value != y_value {
            self.skip_next();
        }
    }

    /// LD Vx,byte.
    fn set_register(&mut self, register: u8, val: u16)
        requires
            old(self)@.wf(),
            register < 16,
        ensures
            final(self)@ == spec_set_register(old(self)@, register, val as u8),
            final(self)@.wf(),
    {
        self.registers.set(register as usize, val as u8);
        proof {
            assert(self@ =~= spec_set_register(old(self)@, register, val as u8));
        }
    }

    /// LD I,addr.
    fn set_iregister(&mut self, val: u16)
        ensures
            final(self)@ == (EmuState { index: val, ..old(self)@ }),
            old(self)@.wf() ==> final(self)@.wf(),
    {
        self.index_register = val;
        proof {
            assert(self@ =~= (EmuState { index: val, ..old(self)@ }));
        }
    }

    /// ADD Vx,byte: wraps, the flag register is not touched.
    fn add_register(&mut self, register: u8, val: u16)
        requires
            old(self)@.wf(),
            register < 16,
        ensures
            final(self)@ == spec_add_immediate(old(self)@, register, val as u8),
            final(self)@.wf(),
    {
        let sum = self.registers[register as usize].wrapping_add(val as u8);
        self.registers.set(register as usize, sum);
        proof {
            assert(self@ =~= spec_add_immediate(old(self)@, register, val as u8));
        }
    }

    /// LD Vx,Vy.
    fn set_registerx_y(&mut self, x_register: u8, y_register: u8)
        requires
            old(self)@.wf(),
            x_register < 16,
            y_register < 16,
        ensures
            final(self)@ == spec_set_register(
                old(self)@,
                x_register,
                old(self)@.regs[y_register as int],
            ),
            final(self)@.wf(),
    {
        let y_value = self.registers[y_register as usize];
        self.registers.set(x_register as usize, y_value);
        proof {
            assert(self@ =~= spec_set_register(old(self)@, x_register, y_value));
        }
    }

    /// OR Vx,Vy.
    fn or_xy(&mut self, x_register: u8, y_register: u8)
        requires
            old(self)@.wf(),
            x_register < 16,
            y_register < 16,
        ensures
            final(self)@ == spec_set_register(
                old(self)@,
                x_register,
                old(self)@.regs[x_register as int] | old(self)@.regs[y_register as int],
            ),
            final(self)@.wf(),
    {
        let y_value = self.registers[y_register as usize];
        let x_value = self.registers[x_register as usize];
        self.registers.set(x_register as usize, x_value | y_value);
        proof {
            assert(self@ =~= spec_set_register(old(self)@, x_register, x_value | y_value));
        }
    }

    /// AND Vx,Vy.
    fn and_xy(&mut self, x_register: u8, y_register: u8)
        requires
            old(self)@.wf(),
            x_register < 16,
            y_register < 16,
        ensures
            final(self)@ == spec_set_register(
                old(self)@,
                x_register,
                old(self)@.regs[x_register as int] & old(self)@.regs[y_register as int],
            ),
            final(self)@.wf(),
    {
        let y_value = self.registers[y_register as usize];
        let x_value = self.registers[x_register as usize];
        self.registers.set(x_register as usize, x_value & y_value);
        proof {
            assert(self@ =~= spec_set_register(old(self)@, x_register, x_value & y_value));
        }
    }

    /// XOR Vx,Vy.
    fn xor_xy(&mut self, x_register: u8, y_register: u8)
        requires
            old(self)@.wf(),
            x_register < 16,
            y_register < 16,
        ensures
            final(self)@ == spec_set_register(
                old(self)@,
                x_register,
                old(self)@.regs[x_register as int] ^ old(self)@.regs[y_register as int],
            ),
            final(self)@.wf(),
    {
        let y_value = self.registers[y_register as usize];
        let x_value = self.registers[x_register as usize];
        self.registers.set(x_register as usize, x_value ^ y_value);
        proof {
            assert(self@ =~= spec_set_register(old(self)@, x_register, x_value ^ y_value));
        }
    }

    /// ADD Vx,Vy with the carry flag.
    fn add_xy(&mut self, x_register: u8, y_register: u8)
        requires
            old(self)@.wf(),
            x_register < 16,
            y_register < 16,
        ensures
            final(self)@ == spec_add_xy(old(self)@, x_register, y_register),
            final(self)@.wf(),
    {
        let x_value = self.registers[x_register as usize];
        let y_value = self.registers[y_register as usize];
        let sum: u16 = x_value as u16 + y_value as u16;
        self.registers.set(x_register as usize, (sum % 256) as u8);
        self.registers.set(15, if sum >= 256 { 1 } else { 0 });
        proof {
            assert(self@ =~= spec_add_xy(old(self)@, x_register, y_register));
        }
    }

    /// SUB Vx,Vy with the no-borrow flag.
    fn sub_xy(&mut self, x_register: u8, y_register: u8)
        requires
            old(self)@.wf(),
            x_register < 16,
            y_register < 16,
        ensures
            final(self)@ == spec_sub_xy(old(self)@, x_register, y_register),
            final(self)@.wf(),
    {
        let x_value = self.registers[x_register as usize];
        let y_value = self.registers[y_register as usize];
        let difference = x_value.wrapping_sub(y_value);
        self.registers.set(x_register as usize, difference);
        self.registers.set(15, if x_value >= y_value { 1 } else { 0 });
        proof {
            assert(self@ =~= spec_sub_xy(old(self)@, x_register, y_register));
        }
    }

    /// SHR Vx,Vy: the source is Vy (this interpreter's shift quirk); the bit
    /// shifted out lands in VF.
    fn shift_x_right(&mut self, x_register: u8, y_register: u8)
        requires
            old(self)@.wf(),
            x_register < 16,
            y_register < 16,
        ensures
            final(self)@ == spec_shr_xy(old(self)@, x_register, y_register),
            final(self)@.wf(),
    {
        let source = self.registers[y_register as usize];
        proof {
            assert(source >> 1u8 == source / 2 && (source & 1) == source % 2) by (bit_vector);
        }
        self.registers.set(x_register as usize, source >> 1);
        self.registers.set(15, source & 0b00000001);
        proof {
            assert(self@ =~= spec_shr_xy(old(self)@, x_register, y_register));
        }
    }

    /// SUBN Vx,Vy with the no-borrow flag.
    fn sub_yx(&mut self, x_register: u8, y_register: u8)
        requires
            old(self)@.wf(),
            x_register < 16,
            y_register < 16,
        ensures
            final(self)@ == spec_subn_xy(old(self)@, x_register, y_register),
            final(self)@.wf(),
    {
        let x_value = self.registers[x_register as usize];
        let y_value = self.registers[y_register as usize];
        let difference = y_value.wrapping_sub(x_value);
        self.registers.set(x_register as usize, difference);
        self.registers.set(15, if y_value >= x_value { 1 } else { 0 });
        proof {
            assert(self@ =~= spec_subn_xy(old(self)@, x_register, y_register));
        }
    }

    /// SHL Vx,Vy: the source is Vy (this interpreter's shift quirk); the bit
    /// shifted out lands in VF.
    fn shift_x_left(&mut self, x_register: u8, y_register: u8)
        requires
            old(self)@.wf(),
            x_register < 16,
            y_register < 16,
        ensures
            final(self)@ == spec_shl_xy(old(self)@, x_register, y_register),
            final(self)@.wf(),
    {
        let source = self.registers[y_register as usize];
        proof {
            assert(source << 1u8 == wrap8(2 * source) && ((source & 0b10000000) >> 7u8) == source
                / 128) by (bit_vector);
        }
        self.registers.set(x_register as usize, source << 1);
        self.registers.set(15, (source & 0b10000000) >> 7);
        proof {
            assert(self@ =~= spec_shl_xy(old(self)@, x_register, y_register));
        }
    }

    /// JP V0,addr.
    fn jump_offset(&mut self, address: u16)
        requires
            old(self)@.wf(),
            address < 4096,
        ensures
            final(self)@ == spec_jump_offset(old(self)@, address),
            final(self)@.wf(),
    {
        self.program_counter = address + self.registers[0] as u16;
        proof {
            assert(self@ =~= spec_jump_offset(old(self)@, address));
        }
    }

    /// RND Vx,byte: whatever byte the host's random source yields, masked.
    fn generate_random(&mut self, x_register: u8, val: u16)
        requires
            old(self)@.wf(),
            x_register < 16,
        ensures
            exists|r: u8| final(self)@ == #[trigger] spec_rnd(old(self)@, x_register, val as u8, r),
            final(self)@.wf(),
    {
        let r = random_byte();
        self.registers.set(x_register as usize, r & val as u8);
        proof {
            assert(self@ =~= spec_rnd(old(self)@, x_register, val as u8, r));
        }
    }

    /// Whether a key is in the held set.
    fn key_held(&self, key: u8) -> (r: bool)
        ensures
            r == self@.keys.contains(key),
    {
        let mut i: usize = 0;
        while i < self.keys_pressed.len()
            invariant
                i <= self.keys_pressed@.len(),
                forall|j: int| 0 <= j < i ==> self.keys_pressed@[j] != key,
            decreases self.keys_pressed@.len() - i,
        {
            if self.keys_pressed[i] == key {
                return true;
            }
            i += 1;
        }
        false
    }

    /// SKP Vx.
    fn jump_ifkey(&mut self, x_register: u8)
        requires
            old(self)@.wf(),
            x_register < 16,
        ensures
            final(self)@ == spec_skip_key(old(self)@, x_register, true),
            final(self)@.wf(),
    {
        if self.key_held(self.registers[x_register as usize]) {
            self.skip_next();
        }
    }

    /// SKNP Vx.
    fn jump_ifnkey(&mut self, x_register: u8)
        requires
            old(self)@.wf(),
            x_register < 16,
        ensures
            final(self)@ == spec_skip_key(old(self)@, x_register, false),
            final(self)@.wf(),
    {
        if !self.key_held(self.registers[x_register as usize]) {
            self.skip_next();
        }
    }

    /// LD Vx,DT.
    fn get_delay(&mut self, x_register: u8)
        requires
            old(self)@.wf(),
            x_register < 16,
        ensures
            final(self)@ == spec_get_delay(old(self)@, x_register),
            final(self)@.wf(),
    {
        let value = self.delay_timer;
        self.registers.set(x_register as usize, value);
        proof {
            assert(self@ =~= spec_get_delay(old(self)@, x_register));
        }
    }

    /// LD Vx,K: with no key held the PC rewinds so the instruction repeats.
    fn wait_key(&mut self, x_register: u8)
        requires
            old(self)@.wf(),
            x_register < 16,
        ensures
            final(self)@ == spec_wait_key(old(self)@, x_register),
            final(self)@.wf(),
    {
        if self.keys_pressed.len() != 0 {
            let key = self.keys_pressed[0];
            self.registers.set(x_register as usize, key);
        } else {
            self.program_counter = self.program_counter.wrapping_sub(2);
        }
        proof {
            assert(self@ =~= spec_wait_key(old(self)@, x_register));
        }
    }

    /// LD DT,Vx.
    fn set_delay(&mut self, x_register: u8)
        requires
            old(self)@.wf(),
            x_register < 16,
        ensures
            final(self)@ == spec_set_delay(old(self)@, x_register),
            final(self)@.wf(),
    {
        self.delay_timer = self.registers[x_register as usize];
        proof {
            assert(self@ =~= spec_set_delay(old(self)@, x_register));
        }
    }

    /// LD ST,Vx.
    fn set_sound(&mut self, x_register: u8)
        requires
            old(self)@.wf(),
            x_register < 16,
        ensures
            final(self)@ == spec_set_sound(old(self)@, x_register),
            final(self)@.wf(),
    {
        self.sound_timer = self.registers[x_register as usize];
        proof {
            assert(self@ =~= spec_set_sound(old(self)@, x_register));
        }
    }

    /// ADD I,Vx: VF is raised on overflow past 0xFFF and left alone
    /// otherwise.
    fn add_iregister(&mut self, register: u8)
        requires
            old(self)@.wf(),
            register < 16,
        ensures
            final(self)@ == spec_add_index(old(self)@, register),
            final(self)@.wf(),
    {
        self.index_register = self.index_register.wrapping_add(
            self.registers[register as usize] as u16,
        );
        if self.index_register >= 0x1000 {
            self.registers.set(15, 1);
        }
        proof {
            assert(self@ =~= spec_add_index(old(self)@, register));
        }
    }

    /// LD F,Vx: I points at the glyph for the value of Vx.
    fn char_address(&mut self, x_register: u8)
        requires
            old(self)@.wf(),
            x_register < 16,
        ensures
            final(self)@ == spec_font_address(old(self)@, x_register),
            final(self)@.wf(),
    {
        let character = self.registers[x_register as usize];
        self.index_register = FONT_START + character as u16 * 5;
        proof {
            assert(self@ =~= spec_font_address(old(self)@, x_register));
        }
    }

    /// DRW Vx,Vy,n: XORs an n-row sprite from memory at I onto the screen at
    /// (Vx mod 64, Vy mod 32), clipping at the edges; VF reports a collision.
    fn draw_buffer(&mut self, x_register: u8, y_register: u8, height: u8)
        requires
            old(self)@.wf(),
            x_register < 16,
            y_register < 16,
            height < 16,
            height > 0 ==> old(self)@.index + height <= MEMORY_SIZE,
        ensures
            final(self)@ == spec_draw_sprite(old(self)@, x_register, y_register, height),
            final(self)@.wf(),
    {
        let x0 = (self.registers[x_register as usize] % 64) as usize;
        let y0 = (self.registers[y_register as usize] % 32) as usize;
        let ghost gx0 = old(self)@.regs[x_register as int] as int % 64;
        let ghost gy0 = old(self)@.regs[y_register as int] as int % 32;
        self.registers.set(15, 0);
        proof {
            lemma_draw_start(old(self)@, gx0, gy0);
        }
        let mut i: usize = 0;
        while i < height as usize
            invariant
                old(self)@.wf(),
                x_register < 16,
                y_register < 16,
                height < 16,
                height > 0 ==> old(self)@.index + height <= MEMORY_SIZE,
                gx0 == old(self)@.regs[x_register as int] as int % 64,
                gy0 == old(self)@.regs[y_register as int] as int % 32,
                x0 == gx0,
                y0 == gy0,
                0 <= gx0 < 64,
                0 <= gy0 < 32,
                i <= height as usize,
                self@.memory == old(self)@.memory,
                self@.stack == old(self)@.stack,
                self@.delay_timer == old(self)@.delay_timer,
                self@.sound_timer == old(self)@.sound_timer,
                self@.pc == old(self)@.pc,
                self@.index == old(self)@.index,
                self@.keys == old(self)@.keys,
                self@.regs == old(self)@.regs.update(
                    15,
                    if spec_draw_collision_upto(old(self)@, gx0, gy0, i as int, 0) {
                        1u8
                    } else {
                        0u8
                    },
                ),
                self@.display == spec_draw_display_upto(old(self)@, gx0, gy0, i as int, 0),
            decreases height as usize - i,
        {
            let row = self.memory[self.index_register as usize + i];
            let mut b: usize = 0;
            while b < 8
                invariant
                    old(self)@.wf(),
                    x_register < 16,
                    y_register < 16,
                    height < 16,
                    height > 0 ==> old(self)@.index + height <= MEMORY_SIZE,
                    gx0 == old(self)@.regs[x_register as int] as int % 64,
                    gy0 == old(self)@.regs[y_register as int] as int % 32,
                    x0 == gx0,
                    y0 == gy0,
                    0 <= gx0 < 64,
                    0 <= gy0 < 32,
                    i < height as usize,
                    b <= 8,
                    row == old(self)@.memory[old(self)@.index + i],
                    self@.memory == old(self)@.memory,
                    self@.stack == old(self)@.stack,
                    self@.delay_timer == old(self)@.delay_timer,
                    self@.sound_timer == old(self)@.sound_timer,
                    self@.pc == old(self)@.pc,
                    self@.index == old(self)@.index,
                    self@.keys == old(self)@.keys,
                    self@.regs == old(self)@.regs.update(
                        15,
                        if spec_draw_collision_upto(old(self)@, gx0, gy0, i as int, b as int) {
                            1u8
                        } else {
                            0u8
                        },
                    ),
                    self@.display == spec_draw_display_upto(
                        old(self)@,
                        gx0,
                        gy0,
                        i as int,
                        b as int,
                    ),
                decreases 8 - b,
            {
                let shift: u8 = (7 - b) as u8;
                let set_bit = (row >> shift) & 1;
                proof {
                    assert(sprite_pixel(old(self)@, gx0, gy0, gx0 + b as int, gy0 + i as int) == (
                    set_bit == 1));
                }
                if x0 + b < 64 && y0 + i < 32 {
                    let addr = (y0 + i) * 64 + (x0 + b);
                    proof {
                        lemma_pixel_index(gx0 + b as int, gy0 + i as int);
                        assert(addr as int == pixel_index(gx0 + b as int, gy0 + i as int));
                        assert(!cell_processed(
                            gx0,
                            gy0,
                            i as int,
                            b as int,
                            gx0 + b as int,
                            gy0 + i as int,
                        ));
                        assert(self@.display[addr as int] == old(self)@.display[addr as int]);
                    }
                    if set_bit == 1 {
                        let current = self.display_buffer[addr];
                        if current {
                            self.registers.set(15, 1);
                            self.display_buffer.set(addr, false);
                        } else {
                            self.display_buffer.set(addr, true);
                        }
                    }
                }
                proof {
                    lemma_draw_step_display(old(self)@, gx0, gy0, i as int, b as int);
                    lemma_draw_step_collision(old(self)@, gx0, gy0, i as int, b as int);
                    if gx0 + b < 64 && gy0 + i < 32 && set_bit == 1 {
                        assert(self@.display =~= spec_draw_display_upto(
                            old(self)@,
                            gx0,
                            gy0,
                            i as int,
                            b as int + 1,
                        ));
                    } else if gx0 + b < 64 && gy0 + i < 32 {
                        let target = pixel_index(gx0 + b as int, gy0 + i as int);
                        assert(spec_draw_display_upto(old(self)@, gx0, gy0, i as int, b as int)
                            .update(target, old(self)@.display[target] != false)
                            =~= spec_draw_display_upto(old(self)@, gx0, gy0, i as int, b as int));
                        assert(self@.display =~= spec_draw_display_upto(
                            old(self)@,
                            gx0,
                            gy0,
                            i as int,
                            b as int + 1,
                        ));
                    } else {
                        assert(self@.display =~= spec_draw_display_upto(
                            old(self)@,
                            gx0,
                            gy0,
                            i as int,
                            b as int + 1,
                        ));
                    }
                    assert(old(self)@.regs.update(15, 0u8).update(15, 1u8) =~= old(
                        self,
                    )@.regs.update(15, 1u8));
                    assert(old(self)@.regs.update(15, 1u8).update(15, 1u8) =~= old(
                        self,
                    )@.regs.update(15, 1u8));
                    assert(self@.regs =~= old(self)@.regs.update(
                        15,
                        if spec_draw_collision_upto(old(self)@, gx0, gy0, i as int, b as int + 1) {
                            1u8
                        } else {
                            0u8
                        },
                    ));
                }
                b += 1;
            }
            proof {
                lemma_draw_row_end(old(self)@, gx0, gy0, i as int);
            }
            i += 1;
        }
        proof {
            assert(self@.display == spec_draw_display(old(self)@, gx0, gy0, height as int));
            assert(self@ =~= spec_draw_sprite(old(self)@, x_register, y_register, height));
        }
    }

    /// CLS.
    fn clear_display(&mut self)
        requires
            old(self)@.wf(),
        ensures
            final(self)@ == spec_clear_display(old(self)@),
            final(self)@.wf(),
    {
        let mut i: usize = 0;
        while i < DISPLAY_SIZE
            invariant
                i <= DISPLAY_SIZE,
                self@ == (EmuState { display: self@.display, ..old(self)@ }),
                self@.display.len() == DISPLAY_SIZE,
                forall|j: int| 0 <= j < i ==> self@.display[j] == false,
                forall|j: int| i <= j < DISPLAY_SIZE ==> self@.display[j] == old(self)@.display[j],
            decreases DISPLAY_SIZE - i,
        {
            self.display_buffer.set(i, false);
            i += 1;
        }
        proof {
            assert(self@.display =~= spec_clear_display(old(self)@).display);
            assert(self@ =~= spec_clear_display(old(self)@));
        }
    }

    /// LD B,Vx: the decimal digits of Vx written at I, I+1, I+2.
    fn to_bcd(&mut self, x_register: u8)
        requires
            old(self)@.wf(),
            x_register < 16,
            old(self)@.index + 2 < MEMORY_SIZE,
        ensures
            final(self)@ == spec_bcd(old(self)@, x_register),
            final(self)@.wf(),
    {
        let value = self.registers[x_register as usize];
        let index = self.index_register as usize;
        self.memory.set(index, value / 100);
        self.memory.set(index + 1, (value / 10) % 10);
        self.memory.set(index + 2, value % 10);
        proof {
            assert(self@ =~= spec_bcd(old(self)@, x_register));
        }
    }

    /// LD [I],Vx: V0..Vx stored to memory at I.
    fn store_registers(&mut self, x_register: u8)
        requires
            old(self)@.wf(),
            x_register < 16,
            old(self)@.index + x_register < MEMORY_SIZE,
        ensures
            final(self)@ == spec_store_registers(old(self)@, x_register),
            final(self)@.wf(),
    {
        let index = self.index_register as usize;
        let mut r: usize = 0;
        while r <= x_register as usize
            invariant
                old(self)@.wf(),
                x_register < 16,
                old(self)@.index + x_register < MEMORY_SIZE,
                r <= x_register as usize + 1,
                index == old(self)@.index,
                self@ == (EmuState { memory: self@.memory, ..old(self)@ }),
                self@.memory.len() == MEMORY_SIZE,
                forall|j: int|
                    index <= j < index + r ==> self@.memory[j] == old(self)@.regs[j - index],
                forall|j: int|
                    0 <= j < MEMORY_SIZE && !(index <= j < index + r) ==> self@.memory[j] == old(
                        self,
                    )@.memory[j],
            decreases x_register as usize + 1 - r,
        {
            let value = self.registers[r];
            self.memory.set(index + r, value);
            r += 1;
        }

        proof {
            assert(self@.memory =~= spec_store_registers(old(self)@, x_register).memory);
            assert(self@ =~= spec_store_registers(old(self)@, x_register));
        }
    }

    /// LD Vx,[I]: V0..Vx loaded from memory at I.
    fn load_registers(&mut self, x_register: u8)
        requires
            old(self)@.wf(),
            x_register < 16,
            old(self)@.index + x_register < MEMORY_SIZE,
        ensures
            final(self)@ == spec_load_registers(old(self)@, x_register),
            final(self)@.wf(),
    {
        let index = self.index_register as usize;
        let mut r: usize = 0;
        while r <= x_register as usize
            invariant
                old(self)@.wf(),
                x_register < 16,
                old(self)@.index + x_register < MEMORY_SIZE,
                r <= x_register as usize + 1,
                index == old(self)@.index,
                self@ == (EmuState { regs: self@.regs, ..old(self)@ }),
                self@.regs.len() == REGISTER_COUNT,
                forall|j: int| 0 <= j < r ==> self@.regs[j] == old(self)@.memory[index + j],
                forall|j: int| r <= j < REGISTER_COUNT ==> self@.regs[j] == old(self)@.regs[j],
            decreases x_register as usize + 1 - r,
        {
            let value = self.memory[index + r];
            self.registers.set(r, value);
            r += 1;
        }
        proof {
            assert(self@.regs =~= spec_load_registers(old(self)@, x_register).regs);
            assert(self@ =~= spec_load_registers(old(self)@, x_register));
        }
    }

    /// Copies a ROM image into the program area. An image longer than the
    /// space from 0x200 to the end of memory is refused and nothing changes.
    pub fn load_rom(&mut self, rom: &Vec<u8>) -> (r: Result<(), Fault>)
        requires
            old(self)@.wf(),
        ensures
            final(self)@.wf(),
            rom@.len() > MAX_ROM_SIZE ==> r == Err::<(), Fault>(Fault::RomTooLarge) && final(self)@
                == old(self)@,
            rom@.len() <= MAX_ROM_SIZE ==> r == Ok::<(), Fault>(()) && final(self)@
                == spec_load_rom(old(self)@, rom@),
    {
        if rom.len() > MAX_ROM_SIZE {
            return Err(Fault::RomTooLarge);
        }
        let mut i: usize = 0;
        while i < rom.len()
            invariant
                old(self)@.wf(),
                rom@.len() <= MAX_ROM_SIZE,
                i <= rom@.len(),
                self@ == (EmuState { memory: self@.memory, ..old(self)@ }),
                self@.memory.len() == MEMORY_SIZE,
                forall|j: int|
                    PROGRAM_START <= j < PROGRAM_START + i ==> self@.memory[j] == rom@[j
                        - PROGRAM_START],
                forall|j: int|
                    0 <= j < MEMORY_SIZE && !(PROGRAM_START <= j < PROGRAM_START + i)
                        ==> self@.memory[j] == old(self)@.memory[j],
            decreases rom@.len() - i,
        {
            let byte = rom[i];
            self.memory.set(PROGRAM_START as usize + i, byte);
            i += 1;
        }
        proof {
            assert(self@.memory =~= spec_load_rom(old(self)@, rom@).memory);
            assert(self@ =~= spec_load_rom(old(self)@, rom@));
        }
        Ok(())
    }

    /// Folds a host key event into the held set: press is idempotent,
    /// release of an absent key is a no-op.
    pub fn set_key_state(&mut self, key: u8, pressed: bool)
        requires
            old(self)@.wf(),
            key < 16,
        ensures
            final(self)@ == spec_set_key(old(self)@, key, pressed),
            final(self)@.wf(),
    {
        if pressed {
            if !self.key_held(key) {
                self.keys_pressed.push(key);
            }
            proof {
                assert(self@ =~= spec_set_key(old(self)@, key, pressed));
            }
        } else {
            let mut i: usize = 0;
            while i < self.keys_pressed.len()
                invariant
                    old(self)@.wf(),
                    key < 16,
                    !pressed,
                    self@ == old(self)@,
                    i <= self@.keys.len(),
                    forall|j: int| 0 <= j < i ==> self@.keys[j] != key,
                decreases self@.keys.len() - i,
            {
                if self.keys_pressed[i] == key {
                    proof {
                        assert(old(self)@.keys[i as int] == key);
                        assert(old(self)@.keys.contains(key));
                        lemma_key_position(old(self)@.keys, key);
                        assert(key_position(old(self)@.keys, key) == i);
                    }
                    self.keys_pressed.remove(i);
                    proof {
                        let removed = old(self)@.keys.remove(i as int);
                        assert(self@.keys == removed);
                        assert forall|j1: int, j2: int|
                            0 <= j1 < j2 < removed.len() implies removed[j1] != removed[j2] by {
                            assert(old(self)@.keys[if j1 < i { j1 } else { j1 + 1 }] == removed[j1]);
                            assert(old(self)@.keys[if j2 < i { j2 } else { j2 + 1 }] == removed[j2]);
                        }
                        assert forall|k: int| 0 <= k < removed.len() implies removed[k] < 16 by {
                            assert(old(self)@.keys[if k < i { k } else { k + 1 }] == removed[k]);
                        }
                        assert(self@ =~= spec_set_key(old(self)@, key, pressed));
                    }
                    return ;
                }
                i += 1;
            }
            proof {
                assert(!old(self)@.keys.contains(key));
                assert(self@ =~= spec_set_key(old(self)@, key, pressed));
            }
        }
    }

    /// Runs one decoded instruction. An unmatched pattern is a defined no-op.
    /// The caller owes the in-bounds condition for the instructions that go
    /// through I; everything else is total.
    pub fn execute(&mut self, instruction: (u8, u8, u8, u8))
        requires
            old(self)@.wf(),
            instruction.0 < 16,
            instruction.1 < 16,
            instruction.2 < 16,
            instruction.3 < 16,
            spec_instruction_in_bounds(
                old(self)@,
                instruction.0,
                instruction.1,
                instruction.2,
                instruction.3,
            ),
        ensures
            final(self)@.wf(),
            !is_random_instruction(instruction.0) ==> final(self)@ == spec_execute(
                old(self)@,
                instruction.0,
                instruction.1,
                instruction.2,
                instruction.3,
                0,
            ),
            is_random_instruction(instruction.0) ==> exists|r: u8|
                final(self)@ == #[trigger] spec_execute(
                    old(self)@,
                    instruction.0,
                    instruction.1,
                    instruction.2,
                    instruction.3,
                    r,
                ),
    {
        match instruction {
            (0x0, 0x0, 0xE, 0x0) => self.clear_display(),
            (0x0, 0x0, 0xE, 0xE) => self.return_subroutine(),
            (0x1, h, m, l) => {
                let address = self.to_u16(h, m, l);
                self.jump(address);
            },
            (0x2, h, m, l) => {
                let address = self.to_u16(h, m, l);
                self.jump_subroutine(address);
            },
            (0x3, x, m, l) => {
                let value = self.to_u16(0, m, l);
                self.skip_eq(x, value);
            },
            (0x4, x, m, l) => {
                let value = self.to_u16(0, m, l);
                self.skip_ne(x, value);
            },
            (0x5, x, y, 0x0) => self.skip_x_eq_y(x, y),
            (0x6, x, m, l) => {
                let value = self.to_u16(0, m, l);
                self.set_register(x, value);
            },
            (0x7, x, m, l) => {
                let value = self.to_u16(0, m, l);
                self.add_register(x, value);
            },
            (0x8, x, y, 0x0) => self.set_registerx_y(x, y),
            (0x8, x, y, 0x1) => self.or_xy(x, y),
            (0x8, x, y, 0x2) => self.and_xy(x, y),
            (0x8, x, y, 0x3) => self.xor_xy(x, y),
            (0x8, x, y, 0x4) => self.add_xy(x, y),
            (0x8, x, y, 0x5) => self.sub_xy(x, y),
            (0x8, x, y, 0x6) => self.shift_x_right(x, y),
            (0x8, x, y, 0x7) => self.sub_yx(x, y),
            (0x8, x, y, 0xE) => self.shift_x_left(x, y),
            (0x9, x, y, 0x0) => self.skip_x_ne_y(x, y),
            (0xA, h, m, l) => {
                let address = self.to_u16(h, m, l);
                self.set_iregister(address);
            },
            (0xB, h, m, l) => {
                let address = self.to_u16(h, m, l);
                self.jump_offset(address);
            },
            (0xC, x, m, l) => {
                let value = self.to_u16(0, m, l);
                self.generate_random(x, value);
                proof {
                    let r = choose|r: u8|
                        self@ == #[trigger] spec_rnd(old(self)@, x, value as u8, r);
                    assert(self@ == spec_execute(
                        old(self)@,
                        instruction.0,
                        instruction.1,
                        instruction.2,
                        instruction.3,
                        r,
                    ));
                }
            },
            (0xD, x, y, n) => self.draw_buffer(x, y, n),
            (0xE, x, 0x9, 0xE) => self.jump_ifkey(x),
            (0xE, x, 0xA, 0x1) => self.jump_ifnkey(x),
            (0xF, x, 0x0, 0x7) => self.get_delay(x),
            (0xF, x, 0x0, 0xA) => self.wait_key(x),
            (0xF, x, 0x1, 0x5) => self.set_delay(x),
            (0xF, x, 0x1, 0x8) => self.set_sound(x),
            (0xF, x, 0x1, 0xE) => self.add_iregister(x),
            (0xF, x, 0x2, 0x9) => self.char_address(x),
            (0xF, x, 0x3, 0x3) => self.to_bcd(x),
            (0xF, x, 0x5, 0x5) => self.store_registers(x),
            (0xF, x, 0x6, 0x5) => self.load_registers(x),
            _ => (),
        }
    }

    /// One whole instruction tick: fetch, decode, execute. Instead of acting
    /// out of bounds it reports a fault and leaves the machine untouched, so
    /// the host can reset.
    pub fn tick_instruction(&mut self) -> (r: Result<(), Fault>)
        requires
            old(self)@.wf(),
        ensures
            final(self)@.wf(),
            !spec_pc_in_bounds(old(self)@) ==> r == Err::<(), Fault>(Fault::PcOutOfRange)
                && final(self)@ == old(self)@,
            spec_pc_in_bounds(old(self)@) && !spec_tick_in_bounds(old(self)@) ==> r
                == Err::<(), Fault>(Fault::IndexOutOfRange) && final(self)@ == old(self)@,
            spec_tick_in_bounds(old(self)@) ==> r == Ok::<(), Fault>(()),
            spec_tick_in_bounds(old(self)@) && !spec_tick_is_random(old(self)@) ==> final(self)@
                == spec_tick(old(self)@, 0),
            spec_tick_in_bounds(old(self)@) && spec_tick_is_random(old(self)@) ==> exists|rb: u8|
                final(self)@ == #[trigger] spec_tick(old(self)@, rb),
    {
        if self.program_counter as usize + 1 >= MEMORY_SIZE {
            return Err(Fault::PcOutOfRange);
        }
        let hi = self.memory[self.program_counter as usize];
        let lo = self.memory[self.program_counter as usize + 1];
        let word = ((hi as u16) << 8) | (lo as u16);
        proof {
            assert(((hi as u16) << 8u16) | (lo as u16) == hi as u16 * 256 + lo as u16)
                by (bit_vector);
            assert(word == spec_instruction_word(old(self)@));
        }
        let (op, x, y, n) = self.extract_instruction(word);
        let index = self.index_register as usize;
        if op == 0xD && n > 0 && index + n as usize > MEMORY_SIZE {
            return Err(Fault::IndexOutOfRange);
        }
        if op == 0xF && y == 0x3 && n == 0x3 && index + 2 >= MEMORY_SIZE {
            return Err(Fault::IndexOutOfRange);
        }
        if op == 0xF && (y == 0x5 || y == 0x6) && n == 0x5 && index + x as usize >= MEMORY_SIZE {
            return Err(Fault::IndexOutOfRange);
        }
        proof {
            assert(spec_tick_in_bounds(old(self)@));
        }
        let fetched = self.fetch_instruction();
        let ghost mid = self@;
        self.execute((op, x, y, n));
        proof {
            if is_random_instruction(op) {
                let r = choose|r: u8| self@ == #[trigger] spec_execute(mid, op, x, y, n, r);
                assert(self@ == spec_tick(old(self)@, r));
            } else {
                assert(self@ == spec_tick(old(self)@, 0));
            }
        }
        Ok(())
    }

    /// Whether the pixel at (x, y) is on.
    pub fn pixel(&self, x: usize, y: usize) -> (r: bool)
        requires
            self@.wf(),
            x < DISPLAY_WIDTH,
            y < DISPLAY_HEIGHT,
        ensures
            r == self@.display[y * 64 + x],
    {
        self.display_buffer[y * DISPLAY_WIDTH + x]
    }
}

} // verus!
