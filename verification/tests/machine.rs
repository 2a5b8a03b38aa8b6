use chip8::emulator::{Emulator, Fault};

/// A fresh machine: PC at 0x200, everything else zeroed, the font seeded.
#[test]
fn initial_state() {
    let emu = Emulator::new();
    assert_eq!(emu.pc(), 0x200);
    assert_eq!(emu.index(), 0);
    assert_eq!(emu.delay(), 0);
    assert_eq!(emu.sound(), 0);
    assert_eq!(emu.stack_depth(), 0);
    for i in 0..16u8 {
        assert_eq!(emu.register(i), 0);
    }
    for y in 0..32usize {
        for x in 0..64usize {
            assert!(!emu.pixel(x, y));
        }
    }
    assert_eq!(emu.memory_byte(0x050), 0xF0); // first font byte
    assert_eq!(emu.memory_byte(0x09F), 0x80); // last font byte
    assert_eq!(emu.memory_byte(0x000), 0);
    assert_eq!(emu.memory_byte(0x200), 0);
}

/// A ROM lands verbatim at 0x200; fetch reads it big-endian and advances.
#[test]
fn load_and_fetch() {
    let mut emu = Emulator::new();
    let rom: Vec<u8> = vec![0x12, 0x34, 0xAB, 0xCD];
    emu.load_rom(&rom).unwrap();
    assert_eq!(emu.memory_byte(0x200), 0x12);
    assert_eq!(emu.memory_byte(0x203), 0xCD);
    let word = emu.fetch_instruction();
    assert_eq!(word, 0x1234);
    assert_eq!(emu.pc(), 0x202);
    let word = emu.fetch_instruction();
    assert_eq!(word, 0xABCD);
    assert_eq!(emu.pc(), 0x204);
}

/// The largest ROM that fits is accepted; one byte more is refused and the
/// machine is left unmodified.
#[test]
fn load_rom_size_limit() {
    let mut emu = Emulator::new();
    let big: Vec<u8> = vec![7u8; 3585];
    assert_eq!(emu.load_rom(&big), Err(Fault::RomTooLarge));
    assert_eq!(emu.memory_byte(0x200), 0);
    assert_eq!(emu.memory_byte(0xFFF), 0);
    let just_fits: Vec<u8> = vec![7u8; 3584];
    assert_eq!(emu.load_rom(&just_fits), Ok(()));
    assert_eq!(emu.memory_byte(0x200), 7);
    assert_eq!(emu.memory_byte(0xFFF), 7);
}

/// Decoding splits a word into its four nibbles.
#[test]
fn extract_nibbles() {
    let emu = Emulator::new();
    assert_eq!(emu.extract_instruction(0xABCD), (0xA, 0xB, 0xC, 0xD));
    assert_eq!(emu.extract_instruction(0x0000), (0, 0, 0, 0));
    assert_eq!(emu.extract_instruction(0xD015), (0xD, 0x0, 0x1, 0x5));
}

/// Drawing the byte 0xFF at (0,0) twice: on after the first draw with VF = 0,
/// off after the second with VF = 1 (XOR collision).
#[test]
fn draw_twice_toggles() {
    let mut emu = Emulator::new();
    let rom: Vec<u8> = vec![0xFF];
    emu.load_rom(&rom).unwrap();
    emu.execute((0xA, 0x2, 0x0, 0x0)); // I = 0x200, the sprite byte
    emu.execute((0xD, 0x0, 0x1, 0x1)); // DRW V0,V1,1 at (0,0)
    for x in 0..8usize {
        assert!(emu.pixel(x, 0));
    }
    assert!(!emu.pixel(8, 0));
    assert_eq!(emu.register(0xF), 0);
    emu.execute((0xD, 0x0, 0x1, 0x1)); // same draw again
    for x in 0..8usize {
        assert!(!emu.pixel(x, 0));
    }
    assert_eq!(emu.register(0xF), 1);
}

/// Drawing at x = 60: the columns past the right edge are dropped, not
/// wrapped to the left.
#[test]
fn draw_clips_at_right_edge() {
    let mut emu = Emulator::new();
    let rom: Vec<u8> = vec![0xFF];
    emu.load_rom(&rom).unwrap();
    emu.execute((0xA, 0x2, 0x0, 0x0)); // I = 0x200
    emu.execute((0x6, 0x0, 0x3, 0xC)); // V0 = 60
    emu.execute((0xD, 0x0, 0x1, 0x1)); // DRW V0,V1,1 at (60,0)
    for x in 60..64usize {
        assert!(emu.pixel(x, 0));
    }
    for x in 0..4usize {
        assert!(!emu.pixel(x, 0)); // nothing wrapped around
    }
    assert_eq!(emu.register(0xF), 0);
}

/// Sprite coordinates are taken modulo 64 and 32.
#[test]
fn draw_wraps_start_coordinates() {
    let mut emu = Emulator::new();
    let rom: Vec<u8> = vec![0x80];
    emu.load_rom(&rom).unwrap();
    emu.execute((0xA, 0x2, 0x0, 0x0)); // I = 0x200
    emu.execute((0x6, 0x0, 0x4, 0x2)); // V0 = 66 -> column 2
    emu.execute((0x6, 0x1, 0x2, 0x1)); // V1 = 33 -> row 1
    emu.execute((0xD, 0x0, 0x1, 0x1));
    assert!(emu.pixel(2, 1));
    assert_eq!(emu.register(0xF), 0);
}

/// CLS turns every pixel off.
#[test]
fn clear_screen() {
    let mut emu = Emulator::new();
    let rom: Vec<u8> = vec![0xFF];
    emu.load_rom(&rom).unwrap();
    emu.execute((0xA, 0x2, 0x0, 0x0));
    emu.execute((0xD, 0x0, 0x1, 0x1));
    assert!(emu.pixel(0, 0));
    emu.execute((0x0, 0x0, 0xE, 0x0)); // CLS
    for y in 0..32usize {
        for x in 0..64usize {
            assert!(!emu.pixel(x, y));
        }
    }
}

/// LD Vx,K over whole ticks: with no key held PC stands still; once a key is
/// pressed the next tick consumes it and PC advances.
#[test]
fn wait_key_spins_then_consumes() {
    let mut emu = Emulator::new();
    let rom: Vec<u8> = vec![0xF3, 0x0A]; // LD V3,K
    emu.load_rom(&rom).unwrap();
    let pc_before = emu.pc();
    assert_eq!(emu.tick_instruction(), Ok(()));
    assert_eq!(emu.pc(), pc_before); // net zero movement
    assert_eq!(emu.tick_instruction(), Ok(()));
    assert_eq!(emu.pc(), pc_before); // still waiting
    emu.set_key_state(0xB, true);
    assert_eq!(emu.tick_instruction(), Ok(()));
    assert_eq!(emu.pc(), pc_before + 2); // advanced normally
    assert_eq!(emu.register(3), 0xB);
}

/// LD Vx,K consumes the earliest-pressed of several held keys.
#[test]
fn wait_key_takes_first_pressed() {
    let mut emu = Emulator::new();
    let rom: Vec<u8> = vec![0xF3, 0x0A];
    emu.load_rom(&rom).unwrap();
    emu.set_key_state(0x4, true);
    emu.set_key_state(0x9, true);
    assert_eq!(emu.tick_instruction(), Ok(()));
    assert_eq!(emu.register(3), 0x4);
}

/// Storing V0..V3 then loading V0..V3 from the same I reproduces the stored
/// register values exactly.
#[test]
fn store_load_roundtrip() {
    let mut emu = Emulator::new();
    emu.execute((0x6, 0x0, 0x1, 0x1)); // V0 = 0x11
    emu.execute((0x6, 0x1, 0x2, 0x2)); // V1 = 0x22
    emu.execute((0x6, 0x2, 0x3, 0x3)); // V2 = 0x33
    emu.execute((0x6, 0x3, 0x4, 0x4)); // V3 = 0x44
    emu.execute((0xA, 0x3, 0x0, 0x0)); // I = 0x300
    emu.execute((0xF, 0x3, 0x5, 0x5)); // LD [I],V3
    emu.execute((0x6, 0x0, 0x0, 0x0)); // clobber V0..V3
    emu.execute((0x6, 0x1, 0x0, 0x0));
    emu.execute((0x6, 0x2, 0x0, 0x0));
    emu.execute((0x6, 0x3, 0x0, 0x0));
    emu.execute((0xF, 0x3, 0x6, 0x5)); // LD V3,[I]
    assert_eq!(emu.register(0), 0x11);
    assert_eq!(emu.register(1), 0x22);
    assert_eq!(emu.register(2), 0x33);
    assert_eq!(emu.register(3), 0x44);
    assert_eq!(emu.register(4), 0); // untouched past Vx
    assert_eq!(emu.memory_byte(0x300), 0x11);
    assert_eq!(emu.memory_byte(0x303), 0x44);
}

/// LD F,Vx with Vx = 0xA: I = 0x050 + 0xA*5 and the five bytes there are the
/// glyph for the digit A.
#[test]
fn font_lookup() {
    let mut emu = Emulator::new();
    emu.execute((0x6, 0x0, 0x0, 0xA)); // V0 = 0xA
    emu.execute((0xF, 0x0, 0x2, 0x9)); // LD F,V0
    assert_eq!(emu.index(), 0x050 + 0xA * 5);
    let glyph: [u8; 5] = [0xF0, 0x90, 0xF0, 0x90, 0x90];
    for (k, expected) in glyph.iter().enumerate() {
        assert_eq!(emu.memory_byte(emu.index() + k as u16), *expected);
    }
}

/// Repeated timer ticks past zero keep both timers at zero.
#[test]
fn timers_never_underflow() {
    let mut emu = Emulator::new();
    emu.execute((0x6, 0x1, 0x0, 0x3)); // V1 = 3
    emu.execute((0xF, 0x1, 0x1, 0x5)); // DT = 3
    emu.execute((0xF, 0x1, 0x1, 0x8)); // ST = 3
    for expected in [2u8, 1, 0, 0, 0, 0] {
        emu.decrement_timers();
        assert_eq!(emu.delay(), expected);
        assert_eq!(emu.sound(), expected);
    }
}

/// A whole tick runs fetch, decode and execute once.
#[test]
fn tick_runs_one_instruction() {
    let mut emu = Emulator::new();
    let rom: Vec<u8> = vec![0x61, 0x42, 0x71, 0x01]; // LD V1,0x42; ADD V1,1
    emu.load_rom(&rom).unwrap();
    assert_eq!(emu.tick_instruction(), Ok(()));
    assert_eq!(emu.pc(), 0x202);
    assert_eq!(emu.register(1), 0x42);
    assert_eq!(emu.tick_instruction(), Ok(()));
    assert_eq!(emu.pc(), 0x204);
    assert_eq!(emu.register(1), 0x43);
}
