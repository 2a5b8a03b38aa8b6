use chip8::emulator::{Emulator, Fault};

/// ADD Vx,Vy: wrapping sum with the carry flag raised exactly on overflow.
#[test]
fn add_xy_carry() {
    let mut emu = Emulator::new();
    emu.execute((0x6, 0x1, 0xC, 0x8)); // V1 = 200
    emu.execute((0x6, 0x2, 0x6, 0x4)); // V2 = 100
    emu.execute((0x8, 0x1, 0x2, 0x4)); // ADD V1,V2
    assert_eq!(emu.register(1), 44);
    assert_eq!(emu.register(0xF), 1);
}

#[test]
fn add_xy_no_carry() {
    let mut emu = Emulator::new();
    emu.execute((0x6, 0x1, 0x0, 0x7)); // V1 = 7
    emu.execute((0x6, 0x2, 0x0, 0x8)); // V2 = 8
    emu.execute((0x8, 0x1, 0x2, 0x4)); // ADD V1,V2
    assert_eq!(emu.register(1), 15);
    assert_eq!(emu.register(0xF), 0);
}

/// SUB Vx,Vy: wrapping difference with VF = 1 exactly when no borrow.
#[test]
fn sub_xy_borrow() {
    let mut emu = Emulator::new();
    emu.execute((0x6, 0x1, 0x0, 0xA)); // V1 = 10
    emu.execute((0x6, 0x2, 0x1, 0x4)); // V2 = 20
    emu.execute((0x8, 0x1, 0x2, 0x5)); // SUB V1,V2
    assert_eq!(emu.register(1), 246); // (10 - 20) mod 256
    assert_eq!(emu.register(0xF), 0); // borrow happened
}

#[test]
fn sub_xy_no_borrow() {
    let mut emu = Emulator::new();
    emu.execute((0x6, 0x1, 0x1, 0x4)); // V1 = 20
    emu.execute((0x6, 0x2, 0x0, 0xA)); // V2 = 10
    emu.execute((0x8, 0x1, 0x2, 0x5)); // SUB V1,V2
    assert_eq!(emu.register(1), 10);
    assert_eq!(emu.register(0xF), 1); // no borrow
}

/// SHR Vx,Vy with Vy = 0b11: Vx = 0b01 and VF catches the low bit.
#[test]
fn shr_low_bit() {
    let mut emu = Emulator::new();
    emu.execute((0x6, 0x2, 0x0, 0x3)); // V2 = 0b00000011
    emu.execute((0x8, 0x1, 0x2, 0x6)); // SHR V1,V2
    assert_eq!(emu.register(1), 0b00000001);
    assert_eq!(emu.register(0xF), 1);
}

/// SHL Vx,Vy: doubled low byte with VF catching the high bit.
#[test]
fn shl_high_bit() {
    let mut emu = Emulator::new();
    emu.execute((0x6, 0x2, 0x8, 0x1)); // V2 = 0x81
    emu.execute((0x8, 0x1, 0x2, 0xE)); // SHL V1,V2
    assert_eq!(emu.register(1), 0x02);
    assert_eq!(emu.register(0xF), 1);
}

/// SUBN Vx,Vy: Vy - Vx with the no-borrow flag.
#[test]
fn subn_xy() {
    let mut emu = Emulator::new();
    emu.execute((0x6, 0x1, 0x0, 0x5)); // V1 = 5
    emu.execute((0x6, 0x2, 0x0, 0x9)); // V2 = 9
    emu.execute((0x8, 0x1, 0x2, 0x7)); // SUBN V1,V2
    assert_eq!(emu.register(1), 4);
    assert_eq!(emu.register(0xF), 1);
}

/// ADD Vx,byte wraps and leaves the flag register alone.
#[test]
fn add_immediate_wraps_without_flag() {
    let mut emu = Emulator::new();
    emu.execute((0x6, 0x1, 0xF, 0xA)); // V1 = 250
    emu.execute((0x6, 0xF, 0x0, 0x7)); // VF = 7, a sentinel
    emu.execute((0x7, 0x1, 0x0, 0xA)); // ADD V1, 10
    assert_eq!(emu.register(1), 4); // wrapped
    assert_eq!(emu.register(0xF), 7); // untouched
}

/// LD Vx,Vy copies the source register.
#[test]
fn load_register_from_register() {
    let mut emu = Emulator::new();
    emu.execute((0x6, 0x2, 0x7, 0x7)); // V2 = 0x77
    emu.execute((0x8, 0x1, 0x2, 0x0)); // LD V1,V2
    assert_eq!(emu.register(1), 0x77);
    assert_eq!(emu.register(2), 0x77);
}

/// OR, AND, XOR.
#[test]
fn bitwise_ops() {
    let mut emu = Emulator::new();
    emu.execute((0x6, 0x1, 0xC, 0xC)); // V1 = 0xCC
    emu.execute((0x6, 0x2, 0xA, 0xA)); // V2 = 0xAA
    emu.execute((0x8, 0x1, 0x2, 0x1)); // OR
    assert_eq!(emu.register(1), 0xEE);
    emu.execute((0x6, 0x1, 0xC, 0xC));
    emu.execute((0x8, 0x1, 0x2, 0x2)); // AND
    assert_eq!(emu.register(1), 0x88);
    emu.execute((0x6, 0x1, 0xC, 0xC));
    emu.execute((0x8, 0x1, 0x2, 0x3)); // XOR
    assert_eq!(emu.register(1), 0x66);
}

/// JP, CALL and RET move the program counter and the stack together.
#[test]
fn call_and_return() {
    let mut emu = Emulator::new();
    emu.execute((0x1, 0x3, 0x0, 0x0)); // JP 0x300
    assert_eq!(emu.pc(), 0x300);
    emu.execute((0x2, 0x4, 0x5, 0x6)); // CALL 0x456
    assert_eq!(emu.pc(), 0x456);
    assert_eq!(emu.stack_depth(), 1);
    emu.execute((0x0, 0x0, 0xE, 0xE)); // RET
    assert_eq!(emu.pc(), 0x300);
    assert_eq!(emu.stack_depth(), 0);
}

/// RET with an empty stack leaves the program counter unchanged.
#[test]
fn return_on_empty_stack() {
    let mut emu = Emulator::new();
    emu.execute((0x0, 0x0, 0xE, 0xE));
    assert_eq!(emu.pc(), 0x200);
    assert_eq!(emu.stack_depth(), 0);
}

/// SE/SNE on an immediate and on a register pair.
#[test]
fn skip_instructions() {
    let mut emu = Emulator::new();
    emu.execute((0x6, 0x1, 0x4, 0x2)); // V1 = 0x42
    emu.execute((0x3, 0x1, 0x4, 0x2)); // SE V1, 0x42: skips
    assert_eq!(emu.pc(), 0x202);
    emu.execute((0x3, 0x1, 0x0, 0x0)); // SE V1, 0x00: no skip
    assert_eq!(emu.pc(), 0x202);
    emu.execute((0x4, 0x1, 0x0, 0x0)); // SNE V1, 0x00: skips
    assert_eq!(emu.pc(), 0x204);
    emu.execute((0x6, 0x2, 0x4, 0x2)); // V2 = 0x42
    emu.execute((0x5, 0x1, 0x2, 0x0)); // SE V1,V2: skips
    assert_eq!(emu.pc(), 0x206);
    emu.execute((0x9, 0x1, 0x2, 0x0)); // SNE V1,V2: no skip
    assert_eq!(emu.pc(), 0x206);
}

/// JP V0,addr adds V0 to the target.
#[test]
fn jump_with_offset() {
    let mut emu = Emulator::new();
    emu.execute((0x6, 0x0, 0x1, 0x0)); // V0 = 0x10
    emu.execute((0xB, 0x3, 0x0, 0x0)); // JP V0, 0x300
    assert_eq!(emu.pc(), 0x310);
}

/// RND Vx,byte with mask 0x00 must leave zero whatever byte was drawn.
#[test]
fn random_masked_to_zero() {
    let mut emu = Emulator::new();
    emu.execute((0x6, 0x1, 0xF, 0xF)); // V1 = 0xFF beforehand
    emu.execute((0xC, 0x1, 0x0, 0x0)); // RND V1, 0x00
    assert_eq!(emu.register(1), 0);
}

/// RND Vx,byte stays within the mask bits.
#[test]
fn random_within_mask() {
    let mut emu = Emulator::new();
    emu.execute((0xC, 0x1, 0x0, 0xF)); // RND V1, 0x0F
    assert!(emu.register(1) <= 0x0F);
}

/// LD B,Vx writes the three decimal digits.
#[test]
fn bcd_digits() {
    let mut emu = Emulator::new();
    emu.execute((0x6, 0x1, 0xE, 0xA)); // V1 = 234
    emu.execute((0xA, 0x3, 0x0, 0x0)); // I = 0x300
    emu.execute((0xF, 0x1, 0x3, 0x3)); // LD B,V1
    assert_eq!(emu.memory_byte(0x300), 2);
    assert_eq!(emu.memory_byte(0x301), 3);
    assert_eq!(emu.memory_byte(0x302), 4);
}

/// ADD I,Vx raises VF when I reaches 0x1000 and leaves it alone otherwise.
#[test]
fn add_index_flag_asymmetry() {
    let mut emu = Emulator::new();
    emu.execute((0xA, 0xF, 0xF, 0xF)); // I = 0xFFF
    emu.execute((0x6, 0x1, 0x0, 0x1)); // V1 = 1
    emu.execute((0xF, 0x1, 0x1, 0xE)); // ADD I,V1: I = 0x1000
    assert_eq!(emu.index(), 0x1000);
    assert_eq!(emu.register(0xF), 1);
    emu.execute((0xA, 0x0, 0x1, 0x0)); // I = 0x10
    emu.execute((0xF, 0x1, 0x1, 0xE)); // ADD I,V1: no overflow
    assert_eq!(emu.index(), 0x11);
    assert_eq!(emu.register(0xF), 1); // deliberately left raised
}

/// LD Vx,DT and LD DT/ST,Vx move timer values both ways.
#[test]
fn timer_transfer() {
    let mut emu = Emulator::new();
    emu.execute((0x6, 0x1, 0x0, 0x5)); // V1 = 5
    emu.execute((0xF, 0x1, 0x1, 0x5)); // DT = V1
    emu.execute((0xF, 0x1, 0x1, 0x8)); // ST = V1
    assert_eq!(emu.delay(), 5);
    assert_eq!(emu.sound(), 5);
    emu.execute((0xF, 0x2, 0x0, 0x7)); // V2 = DT
    assert_eq!(emu.register(2), 5);
}

/// An unmatched opcode is a defined no-op.
#[test]
fn unmatched_opcode_is_noop() {
    let mut emu = Emulator::new();
    emu.execute((0x6, 0x1, 0x4, 0x2));
    let pc = emu.pc();
    emu.execute((0x0, 0x1, 0x2, 0x3)); // matches nothing
    emu.execute((0x8, 0x1, 0x2, 0x9)); // matches nothing
    emu.execute((0xE, 0x1, 0x0, 0x0)); // matches nothing
    assert_eq!(emu.pc(), pc);
    assert_eq!(emu.register(1), 0x42);
    assert_eq!(emu.register(0xF), 0);
}

/// SKP/SKNP follow the held-key set.
#[test]
fn key_skips() {
    let mut emu = Emulator::new();
    emu.execute((0x6, 0x1, 0x0, 0x5)); // V1 = key 5
    emu.execute((0xE, 0x1, 0x9, 0xE)); // SKP V1: not held, no skip
    assert_eq!(emu.pc(), 0x200);
    emu.execute((0xE, 0x1, 0xA, 0x1)); // SKNP V1: not held, skips
    assert_eq!(emu.pc(), 0x202);
    emu.set_key_state(5, true);
    emu.execute((0xE, 0x1, 0x9, 0xE)); // SKP V1: held, skips
    assert_eq!(emu.pc(), 0x204);
    emu.set_key_state(5, false);
    emu.execute((0xE, 0x1, 0x9, 0xE)); // SKP V1: released, no skip
    assert_eq!(emu.pc(), 0x204);
}

/// Pressing a key twice then releasing it once leaves it released.
#[test]
fn key_press_is_idempotent() {
    let mut emu = Emulator::new();
    emu.execute((0x6, 0x1, 0x0, 0x7)); // V1 = key 7
    emu.set_key_state(7, true);
    emu.set_key_state(7, true);
    emu.set_key_state(7, false);
    emu.execute((0xE, 0x1, 0xA, 0x1)); // SKNP V1: not held, skips
    assert_eq!(emu.pc(), 0x202);
    emu.set_key_state(7, false); // releasing again is a no-op
    emu.execute((0xE, 0x1, 0xA, 0x1));
    assert_eq!(emu.pc(), 0x204);
}

/// Fault paths: an instruction whose memory window through I leaves the
/// address space is reported, and the machine is untouched.
#[test]
fn tick_reports_index_out_of_range() {
    let mut emu = Emulator::new();
    let rom: Vec<u8> = vec![0xF1, 0x33]; // LD B,V1
    emu.load_rom(&rom).unwrap();
    emu.execute((0xA, 0xF, 0xF, 0xF)); // I = 0xFFF
    assert_eq!(emu.tick_instruction(), Err(Fault::IndexOutOfRange));
    assert_eq!(emu.pc(), 0x200);
    assert_eq!(emu.index(), 0xFFF);
}

/// Fault paths: a program counter past the end of memory is reported.
#[test]
fn tick_reports_pc_out_of_range() {
    let mut emu = Emulator::new();
    emu.execute((0x1, 0xF, 0xF, 0xF)); // JP 0xFFF
    assert_eq!(emu.tick_instruction(), Err(Fault::PcOutOfRange));
    assert_eq!(emu.pc(), 0xFFF);
}
