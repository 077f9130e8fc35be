//! Opcode-level behaviour: arithmetic, shifts, skips, decoding.

use chip8::instr::Instr;
use chip8::{decode, Chip8, Status, VmError};

const NO_KEYS: [bool; 16] = [false; 16];

fn boot(rom: &[u8]) -> Chip8 {
    let mut vm = Chip8::new();
    vm.load_rom(&rom.to_vec()).expect("rom fits");
    vm
}

#[test]
fn decode_samples() {
    assert_eq!(decode(0x00, 0xE0), Instr::ClearScreen);
    assert_eq!(decode(0x00, 0xEE), Instr::Return);
    assert_eq!(decode(0x00, 0xFB), Instr::ScrollRight);
    assert_eq!(decode(0x00, 0xFC), Instr::ScrollLeft);
    assert_eq!(decode(0x00, 0xC7), Instr::ScrollDown(7));
    assert_eq!(decode(0x1A, 0xBC), Instr::Jump(0x0ABC));
    assert_eq!(decode(0x2F, 0xFF), Instr::Call(0x0FFF));
    assert_eq!(decode(0x3A, 0x55), Instr::SkipEqImm(0xA, 0x55));
    assert_eq!(decode(0x6B, 0x12), Instr::LoadImm(0xB, 0x12));
    assert_eq!(decode(0x8A, 0xB4), Instr::Add(0xA, 0xB));
    assert_eq!(decode(0x8A, 0xB6), Instr::ShiftRight(0xA, 0xB));
    assert_eq!(decode(0x8A, 0xB8), Instr::Unknown(0x8A, 0xB8));
    assert_eq!(decode(0xD1, 0x20), Instr::Draw(1, 2, 0));
    assert_eq!(decode(0xE3, 0x9E), Instr::SkipKey(3));
    assert_eq!(decode(0xF4, 0x33), Instr::StoreBcd(4));
    assert_eq!(decode(0xF4, 0x99), Instr::Unknown(0xF4, 0x99));
}

#[test]
fn load_then_add_zero_is_identity_for_every_byte() {
    for nn in 0..=255u8 {
        let mut vm = boot(&[0x60, nn, 0x70, 0x00]);
        vm.step(&NO_KEYS);
        vm.step(&NO_KEYS);
        assert_eq!(vm.v[0], nn);
    }
}

#[test]
fn add_immediate_wraps() {
    let mut vm = boot(&[0x60, 0xFF, 0x70, 0x01]);
    vm.step(&NO_KEYS);
    vm.step(&NO_KEYS);
    assert_eq!(vm.v[0], 0x00);
}

#[test]
fn add_sets_carry_iff_sum_exceeds_255() {
    // 200 + 100 = 300: result 44, carry set
    let mut vm = boot(&[0x60, 200, 0x61, 100, 0x80, 0x14]);
    for _ in 0..3 {
        vm.step(&NO_KEYS);
    }
    assert_eq!(vm.v[0], 44);
    assert_eq!(vm.v[15], 1);
    // 1 + 2 = 3: no carry
    let mut vm = boot(&[0x60, 1, 0x61, 2, 0x80, 0x14]);
    for _ in 0..3 {
        vm.step(&NO_KEYS);
    }
    assert_eq!(vm.v[0], 3);
    assert_eq!(vm.v[15], 0);
}

#[test]
fn sub_borrow_cases() {
    // 0x01 - 0x02: borrow, result 0xFF, VF = 0
    let mut vm = boot(&[0x60, 0x01, 0x61, 0x02, 0x80, 0x15]);
    for _ in 0..3 {
        vm.step(&NO_KEYS);
    }
    assert_eq!(vm.v[0], 0xFF);
    assert_eq!(vm.v[15], 0);
    // 0x05 - 0x02: no borrow, result 0x03, VF = 1
    let mut vm = boot(&[0x60, 0x05, 0x61, 0x02, 0x80, 0x15]);
    for _ in 0..3 {
        vm.step(&NO_KEYS);
    }
    assert_eq!(vm.v[0], 0x03);
    assert_eq!(vm.v[15], 1);
}

#[test]
fn subn_is_the_swapped_variant() {
    // v0 = 2, v1 = 5: v0 = v1 - v0 = 3, VF = 1 (no borrow)
    let mut vm = boot(&[0x60, 0x02, 0x61, 0x05, 0x80, 0x17]);
    for _ in 0..3 {
        vm.step(&NO_KEYS);
    }
    assert_eq!(vm.v[0], 0x03);
    assert_eq!(vm.v[15], 1);
}

#[test]
fn shift_right_quirk_enabled_uses_vy() {
    let mut vm = boot(&[0x60, 0x00, 0x61, 0x03, 0x80, 0x16]);
    vm.config.shift_behaviour = true;
    for _ in 0..3 {
        vm.step(&NO_KEYS);
    }
    assert_eq!(vm.v[0], 0x01);
    assert_eq!(vm.v[15], 1);
}

#[test]
fn shift_right_quirk_disabled_ignores_vy() {
    let mut vm = boot(&[0x60, 0x00, 0x61, 0x03, 0x80, 0x16]);
    vm.config.shift_behaviour = false;
    for _ in 0..3 {
        vm.step(&NO_KEYS);
    }
    // Vx is shifted in place: 0 >> 1 = 0, ejected bit 0
    assert_eq!(vm.v[0], 0x00);
    assert_eq!(vm.v[15], 0);
}

#[test]
fn shift_left_reports_high_bit() {
    let mut vm = boot(&[0x60, 0x00, 0x61, 0x81, 0x80, 0x1E]);
    vm.config.shift_behaviour = true;
    for _ in 0..3 {
        vm.step(&NO_KEYS);
    }
    assert_eq!(vm.v[0], 0x02);
    assert_eq!(vm.v[15], 1);
}

#[test]
fn bitwise_ops_leave_vf_alone() {
    // OR, AND, XOR must not touch VF
    let mut vm = boot(&[0x60, 0x0F, 0x61, 0x35, 0x80, 0x11, 0x80, 0x12, 0x80, 0x13]);
    vm.v[15] = 0xAA;
    for _ in 0..5 {
        vm.step(&NO_KEYS);
    }
    assert_eq!(vm.v[15], 0xAA);
    // 0x0F | 0x35 = 0x3F; 0x3F & 0x35 = 0x35; 0x35 ^ 0x35 = 0
    assert_eq!(vm.v[0], 0x00);
}

#[test]
fn skips_take_and_skip_branches() {
    // 3XNN taken: v0 == 7 skips the halt opcode
    let mut vm = boot(&[0x60, 0x07, 0x30, 0x07, 0xFF, 0xFF, 0x61, 0x01]);
    for _ in 0..3 {
        vm.step(&NO_KEYS);
    }
    assert_eq!(vm.status, Status::Running);
    assert_eq!(vm.v[1], 1);
    // 3XNN not taken: the next opcode halts as unknown
    let mut vm = boot(&[0x60, 0x07, 0x30, 0x08, 0xFF, 0xFF]);
    for _ in 0..3 {
        vm.step(&NO_KEYS);
    }
    assert_eq!(vm.status, Status::Halted(VmError::UnknownOpcode(0xFF, 0xFF)));
}

#[test]
fn register_skips_compare_registers() {
    let mut vm = boot(&[0x60, 0x04, 0x61, 0x04, 0x50, 0x10, 0xFF, 0xFF, 0x62, 0x09]);
    for _ in 0..4 {
        vm.step(&NO_KEYS);
    }
    assert_eq!(vm.status, Status::Running);
    assert_eq!(vm.v[2], 9);
}

#[test]
fn jump_and_jump_v0() {
    let mut vm = boot(&[0x12, 0x04, 0x00, 0x00, 0x60, 0x2A]);
    vm.step(&NO_KEYS);
    assert_eq!(vm.pc, 0x204);
    vm.step(&NO_KEYS);
    assert_eq!(vm.v[0], 0x2A);
    // BNNN: jump to NNN + v0
    let mut vm = boot(&[0x60, 0x02, 0xB2, 0x04, 0x00, 0x00, 0x61, 0x07]);
    vm.step(&NO_KEYS);
    vm.step(&NO_KEYS);
    assert_eq!(vm.pc, 0x206);
    vm.step(&NO_KEYS);
    assert_eq!(vm.v[1], 7);
}

#[test]
fn random_is_masked() {
    for _ in 0..32 {
        let mut vm = boot(&[0xC0, 0x0F]);
        vm.step(&NO_KEYS);
        assert_eq!(vm.v[0] & 0xF0, 0);
    }
    let mut vm = boot(&[0xC0, 0x00]);
    vm.step(&NO_KEYS);
    assert_eq!(vm.v[0], 0);
}

#[test]
fn bcd_writes_three_digits() {
    let mut vm = boot(&[0x60, 254, 0xA3, 0x00, 0xF0, 0x33]);
    for _ in 0..3 {
        vm.step(&NO_KEYS);
    }
    assert_eq!(vm.memory[0x300], 2);
    assert_eq!(vm.memory[0x301], 5);
    assert_eq!(vm.memory[0x302], 4);
}

#[test]
fn store_load_round_trip_without_quirk() {
    let mut vm = boot(&[
        0x60, 0x11, 0x61, 0x22, 0x62, 0x33, 0x63, 0x44, // v0..v3
        0xA3, 0x00, // I = 0x300
        0xF3, 0x55, // store v0..=v3
        0x60, 0x00, 0x61, 0x00, 0x62, 0x00, 0x63, 0x00, // clobber
        0xF3, 0x65, // load v0..=v3 back
    ]);
    vm.config.store_behaviour = false;
    for _ in 0..11 {
        vm.step(&NO_KEYS);
    }
    assert_eq!(vm.r_address, 0x300);
    assert_eq!(&vm.v[0..4], &[0x11, 0x22, 0x33, 0x44]);
}

#[test]
fn store_quirk_advances_i_by_count() {
    let mut vm = boot(&[
        0x60, 0x11, 0x61, 0x22, 0x62, 0x33, 0x63, 0x44, 0xA3, 0x00, 0xF3, 0x55, 0xF3, 0x65,
    ]);
    vm.config.store_behaviour = true;
    for _ in 0..6 {
        vm.step(&NO_KEYS);
    }
    assert_eq!(vm.r_address, 0x304);
    vm.step(&NO_KEYS);
    assert_eq!(vm.r_address, 0x308);
}

#[test]
fn flag_registers_save_and_restore() {
    // count is the nibble clamped to 7, exclusive of the end
    let mut vm = boot(&[0x60, 0x0A, 0x61, 0x0B, 0x62, 0x0C, 0xF2, 0x75]);
    for _ in 0..4 {
        vm.step(&NO_KEYS);
    }
    assert_eq!(&vm.flag_registers[0..2], &[0x0A, 0x0B]);
    assert_eq!(vm.flag_registers[2], 0);
    let mut vm2 = boot(&[0xF2, 0x85]);
    vm2.flag_registers[0] = 0x77;
    vm2.flag_registers[1] = 0x88;
    vm2.v[0] = 1;
    vm2.v[1] = 2;
    vm2.v[2] = 3;
    vm2.step(&NO_KEYS);
    assert_eq!(&vm2.v[0..3], &[0x77, 0x88, 3]);
}

#[test]
fn font_addresses_clamp() {
    // FX29: small font, digit clamped to 15
    let mut vm = boot(&[0x60, 0xFF, 0xF0, 0x29]);
    vm.step(&NO_KEYS);
    vm.step(&NO_KEYS);
    assert_eq!(vm.r_address, 75);
    // FX30: large font, digit clamped to 9
    let mut vm = boot(&[0x60, 0xFF, 0xF0, 0x30]);
    vm.step(&NO_KEYS);
    vm.step(&NO_KEYS);
    assert_eq!(vm.r_address, 80 + 90);
    // unclamped digits address their own glyphs
    let mut vm = boot(&[0x60, 0x02, 0xF0, 0x29]);
    vm.step(&NO_KEYS);
    vm.step(&NO_KEYS);
    assert_eq!(vm.r_address, 10);
}

#[test]
fn font_data_sits_in_low_memory() {
    let vm = Chip8::new();
    assert_eq!(vm.memory[0], 0xF0);
    assert_eq!(vm.memory[5], 0x20);
    assert_eq!(vm.memory[79], 0x80);
    assert_eq!(vm.memory[80], 0x3C);
    assert_eq!(vm.memory[179], 0x7C);
    assert_eq!(vm.memory[180], 0x00);
}

#[test]
fn add_i_accumulates() {
    let mut vm = boot(&[0x60, 0x10, 0xA1, 0x00, 0xF0, 0x1E, 0xF0, 0x1E]);
    for _ in 0..4 {
        vm.step(&NO_KEYS);
    }
    assert_eq!(vm.r_address, 0x120);
}

#[test]
fn key_skips_follow_key_state() {
    let mut keys = [false; 16];
    keys[5] = true;
    // EX9E with key 5 down: skip taken
    let mut vm = boot(&[0x60, 0x05, 0xE0, 0x9E, 0xFF, 0xFF, 0x61, 0x01]);
    vm.step(&keys);
    vm.step(&keys);
    vm.step(&keys);
    assert_eq!(vm.status, Status::Running);
    assert_eq!(vm.v[1], 1);
    // EXA1 with key 5 down: skip not taken
    let mut vm = boot(&[0x60, 0x05, 0xE0, 0xA1, 0x61, 0x01]);
    vm.step(&keys);
    vm.step(&keys);
    vm.step(&keys);
    assert_eq!(vm.v[1], 1);
}

#[test]
fn wait_key_blocks_until_key() {
    let mut vm = boot(&[0xF0, 0x0A, 0x61, 0x09]);
    vm.step(&NO_KEYS);
    assert_eq!(vm.waiting_key, Some(0));
    assert!(!vm.can_step());
    // no key: the wait persists across frames
    vm.run_frame(&NO_KEYS);
    assert_eq!(vm.waiting_key, Some(0));
    // a key arrives: the lowest pressed index lands in v0
    let mut keys = [false; 16];
    keys[7] = true;
    keys[11] = true;
    vm.run_frame(&keys);
    assert_eq!(vm.v[0], 7);
    assert_eq!(vm.waiting_key, None);
    assert_eq!(vm.v[1], 9);
}

#[test]
fn delay_timer_read_write() {
    let mut vm = boot(&[0x60, 0x3C, 0xF0, 0x15, 0xF1, 0x07]);
    for _ in 0..3 {
        vm.step(&NO_KEYS);
    }
    assert_eq!(vm.r_delay_timer, 0x3C);
    assert_eq!(vm.v[1], 0x3C);
}
