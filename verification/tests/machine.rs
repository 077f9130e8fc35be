//! Machine-level behaviour: display, scrolling, stack, timers,
//! loading, resets and error states.

use chip8::{Chip8, Color, Status, VmError};

const NO_KEYS: [bool; 16] = [false; 16];

fn boot(rom: &[u8]) -> Chip8 {
    let mut vm = Chip8::new();
    vm.load_rom(&rom.to_vec()).expect("rom fits");
    vm
}

#[test]
fn draw_sets_pixels_and_draw_twice_restores() {
    // I = 0x20A, draw an 8x1 sprite of 0xFF at (0, 0), twice
    let mut rom = vec![0xA2, 0x0A, 0xD0, 0x11, 0xD0, 0x11, 0x00, 0x00, 0x00, 0x00, 0xFF];
    rom.resize(11, 0);
    let mut vm = boot(&rom);
    vm.step(&NO_KEYS);
    vm.step(&NO_KEYS);
    for x in 0..8 {
        assert!(vm.display.pixel(x, 0));
    }
    assert_eq!(vm.v[15], 0, "first draw on a blank screen has no collision");
    vm.step(&NO_KEYS);
    for x in 0..8 {
        assert!(!vm.display.pixel(x, 0), "second draw clears every pixel the first set");
    }
    assert_eq!(vm.v[15], 1, "second draw reports the collision");
}

#[test]
fn draw_clips_or_wraps_per_quirk() {
    let mut rom = vec![0xA2, 0x06, 0xD0, 0x11, 0x00, 0x00, 0xFF];
    rom.resize(7, 0);
    // wrap: drawing at x = 60 sets columns 60..64 and 0..4
    let mut vm = boot(&rom);
    vm.config.draw_behaviour = true;
    vm.v[0] = 60;
    vm.step(&NO_KEYS);
    vm.step(&NO_KEYS);
    for x in 60..64 {
        assert!(vm.display.pixel(x, 0));
    }
    for x in 0..4 {
        assert!(vm.display.pixel(x, 0));
    }
    // clip: the overhang is discarded
    let mut vm = boot(&rom);
    vm.config.draw_behaviour = false;
    vm.v[0] = 60;
    vm.step(&NO_KEYS);
    vm.step(&NO_KEYS);
    for x in 60..64 {
        assert!(vm.display.pixel(x, 0));
    }
    for x in 0..4 {
        assert!(!vm.display.pixel(x, 0));
    }
}

#[test]
fn scroll_right_then_left_restores_all_but_edge() {
    // draw 0xFF at (0,0) and at (56,0) so the rightmost 4 columns hold
    // pixels, then 00FB (scroll right) and 00FC (scroll left)
    let mut rom = vec![
        0xA2, 0x0A, 0xD0, 0x21, 0xD1, 0x21, 0x00, 0xFB, 0x00, 0xFC, 0xFF,
    ];
    rom.resize(11, 0);
    let mut vm = boot(&rom);
    vm.config.draw_behaviour = false;
    vm.v[0] = 0;
    vm.v[1] = 56;
    vm.v[2] = 0;
    vm.step(&NO_KEYS);
    vm.step(&NO_KEYS);
    vm.step(&NO_KEYS);
    let before: Vec<bool> = (0..64).map(|x| vm.display.pixel(x, 0)).collect();
    vm.step(&NO_KEYS);
    // shifted right by 4: column 4 now holds what column 0 held, and
    // the vacated leftmost columns are clear
    assert!(vm.display.pixel(4, 0));
    assert!(!vm.display.pixel(0, 0));
    vm.step(&NO_KEYS);
    for x in 0..60 {
        assert_eq!(vm.display.pixel(x, 0), before[x], "column {} restored", x);
    }
    for x in 60..64 {
        assert!(!vm.display.pixel(x, 0), "column {} was shifted off and comes back clear", x);
    }
    // the columns 60..64 were set before the round trip
    assert!(before[60] && before[63]);
}

#[test]
fn scroll_down_moves_rows() {
    // draw at (0,0), then 00C4: scroll down 4 rows
    let mut rom = vec![0xA2, 0x08, 0xD0, 0x11, 0x00, 0xC4, 0x00, 0x00, 0xFF];
    rom.resize(9, 0);
    let mut vm = boot(&rom);
    vm.step(&NO_KEYS);
    vm.step(&NO_KEYS);
    assert!(vm.display.pixel(0, 0));
    vm.step(&NO_KEYS);
    assert!(!vm.display.pixel(0, 0));
    assert!(vm.display.pixel(0, 4));
}

#[test]
fn seventeen_calls_overflow_the_stack() {
    let mut rom = Vec::new();
    for k in 0..17u16 {
        let target = 0x200 + 2 * (k + 1);
        rom.push(0x20 | (target >> 8) as u8);
        rom.push((target & 0xFF) as u8);
    }
    let mut vm = boot(&rom);
    for k in 0..16 {
        vm.step(&NO_KEYS);
        assert_eq!(vm.status, Status::Running, "call {} fits", k + 1);
    }
    assert_eq!(vm.sp, 16);
    vm.step(&NO_KEYS);
    assert_eq!(vm.status, Status::Halted(VmError::StackOverflow));
}

#[test]
fn return_without_call_underflows() {
    let mut vm = boot(&[0x00, 0xEE]);
    vm.step(&NO_KEYS);
    assert_eq!(vm.status, Status::Halted(VmError::StackUnderflow));
}

#[test]
fn call_and_return_round_trip() {
    let mut vm = boot(&[0x22, 0x04, 0x00, 0x00, 0x00, 0xEE]);
    vm.step(&NO_KEYS);
    assert_eq!(vm.pc, 0x204);
    assert_eq!(vm.sp, 1);
    vm.step(&NO_KEYS);
    assert_eq!(vm.pc, 0x202);
    assert_eq!(vm.sp, 0);
}

#[test]
fn resolution_switch_clears_and_survives_odd_draws() {
    // 00FF, draw at x=100 (valid only in high resolution), 00FE, draw again
    let mut rom = vec![
        0x00, 0xFF, 0xA2, 0x0A, 0xD0, 0x11, 0x00, 0xFE, 0xD0, 0x11, 0xFF,
    ];
    rom.resize(11, 0);
    let mut vm = boot(&rom);
    vm.config.draw_behaviour = false;
    vm.step(&NO_KEYS);
    assert_eq!(vm.display.width, 128);
    assert_eq!(vm.display.height, 64);
    for x in 0..128 {
        for y in 0..64 {
            assert!(!vm.display.pixel(x, y));
        }
    }
    vm.v[0] = 100;
    vm.step(&NO_KEYS);
    vm.step(&NO_KEYS);
    assert!(vm.display.pixel(100, 0));
    vm.step(&NO_KEYS);
    assert_eq!(vm.display.width, 64);
    assert_eq!(vm.display.height, 32);
    assert!(!vm.display.pixel(100, 0), "switching back clears the buffer");
    // the same coordinates are now out of the low-res window: clipped, no crash
    vm.step(&NO_KEYS);
    assert_eq!(vm.status, Status::Running);
    for x in 0..64 {
        assert!(!vm.display.pixel(x, 0));
    }
}

#[test]
fn timer_countdown_is_real_time_bound() {
    // same ROM, wildly different throughput: an idle jump loop
    let rom = [0x12, 0x00];
    let mut fast = boot(&rom);
    let mut slow = boot(&rom);
    fast.cycles_per_frame = 1000;
    slow.cycles_per_frame = 10;
    fast.r_delay_timer = 60;
    slow.r_delay_timer = 60;
    let mut frames_fast = 0;
    let mut frames_slow = 0;
    for _ in 0..200 {
        if fast.r_delay_timer == 0 {
            break;
        }
        fast.run_frame(&NO_KEYS);
        fast.tick_timers(16667);
        frames_fast += 1;
    }
    for _ in 0..200 {
        if slow.r_delay_timer == 0 {
            break;
        }
        slow.run_frame(&NO_KEYS);
        slow.tick_timers(16667);
        frames_slow += 1;
    }
    assert_eq!(fast.r_delay_timer, 0);
    assert_eq!(slow.r_delay_timer, 0);
    assert_eq!(
        frames_fast, frames_slow,
        "the delay timer reaches zero after the same elapsed time, not instruction count"
    );
    assert_eq!(frames_fast, 60);
}

#[test]
fn timers_decrement_once_per_interval() {
    let mut vm = Chip8::new();
    vm.r_delay_timer = 2;
    vm.tick_timers(16000);
    assert_eq!(vm.r_delay_timer, 2, "interval not yet over");
    vm.tick_timers(700);
    assert_eq!(vm.r_delay_timer, 1, "one decrement at the boundary");
    vm.tick_timers(100_000);
    assert_eq!(vm.r_delay_timer, 0, "a long gap still costs at most one decrement");
    vm.tick_timers(100_000);
    assert_eq!(vm.r_delay_timer, 0, "never below zero");
}

#[test]
fn writing_the_delay_timer_rearms_the_tick() {
    let mut vm = boot(&[0x60, 0x05, 0xF0, 0x15]);
    vm.tick_timers(16000);
    vm.step(&NO_KEYS);
    vm.step(&NO_KEYS);
    assert_eq!(vm.r_delay_timer, 5);
    // the write rearmed the accumulator: 16666 more micros do not reach it
    vm.tick_timers(16666);
    assert_eq!(vm.r_delay_timer, 5);
    vm.tick_timers(1);
    assert_eq!(vm.r_delay_timer, 4);
}

#[test]
fn sound_timer_drives_the_tone() {
    let mut vm = boot(&[0x60, 0x01, 0xF0, 0x18]);
    assert!(!vm.sound_on());
    vm.step(&NO_KEYS);
    vm.step(&NO_KEYS);
    assert!(vm.sound_on(), "setting the sound timer above zero starts the tone");
    vm.tick_timers(16667);
    assert_eq!(vm.r_sound_timer, 0);
    assert!(!vm.sound_on(), "the tone stops when the sound timer reaches zero");
}

#[test]
fn rom_too_large_is_rejected_without_touching_memory() {
    let mut vm = Chip8::new();
    let before = vm.memory.clone();
    let huge = vec![0xAB; 3585];
    let r = vm.load_rom(&huge);
    assert_eq!(r, Err(VmError::RomTooLarge));
    assert_eq!(vm.status, Status::Halted(VmError::RomTooLarge));
    assert_eq!(vm.memory, before);
    let exact = vec![0x12; 3584];
    let mut vm = Chip8::new();
    assert_eq!(vm.load_rom(&exact), Ok(()));
    assert_eq!(vm.status, Status::Running);
}

#[test]
fn load_places_rom_at_base_and_zeroes_the_rest() {
    let mut vm = Chip8::new();
    vm.load_rom(&vec![0xDE, 0xAD, 0xBE, 0xEF]).unwrap();
    assert_eq!(&vm.memory[0x200..0x204], &[0xDE, 0xAD, 0xBE, 0xEF]);
    assert_eq!(vm.memory[0x204], 0);
    assert_eq!(vm.memory[0xFFF], 0);
    assert_eq!(vm.memory[0], 0xF0, "fonts survive a load");
    assert_eq!(vm.pc, 0x200);
}

#[test]
fn unknown_opcode_halts_with_its_bytes() {
    let mut vm = boot(&[0xFF, 0xFF]);
    vm.step(&NO_KEYS);
    assert_eq!(vm.status, Status::Halted(VmError::UnknownOpcode(0xFF, 0xFF)));
    assert_eq!(vm.status_message(), "unknown instruction");
}

#[test]
fn sprite_address_out_of_range_halts() {
    // I = 0xFFF, draw 2 rows: 0xFFF + 2 > 4096
    let mut vm = boot(&[0xAF, 0xFF, 0xD0, 0x02]);
    vm.step(&NO_KEYS);
    vm.step(&NO_KEYS);
    assert_eq!(vm.status, Status::Halted(VmError::InvalidSpriteAddress(0xFFF)));
}

#[test]
fn bulk_store_out_of_range_halts() {
    let mut vm = boot(&[0xAF, 0xFF, 0xF2, 0x55]);
    vm.step(&NO_KEYS);
    vm.step(&NO_KEYS);
    assert_eq!(vm.status, Status::Halted(VmError::InvalidAddress(0xFFF)));
}

#[test]
fn bcd_out_of_range_halts() {
    let mut vm = boot(&[0xAF, 0xFE, 0xF0, 0x33]);
    vm.step(&NO_KEYS);
    vm.step(&NO_KEYS);
    assert_eq!(vm.status, Status::Halted(VmError::InvalidAddress(0xFFE)));
}

#[test]
fn exit_resets_to_no_rom() {
    let mut vm = boot(&[0x60, 0x09, 0x00, 0xFD]);
    vm.step(&NO_KEYS);
    vm.step(&NO_KEYS);
    assert_eq!(vm.status, Status::NoRomLoaded);
    assert_eq!(vm.pc, 0x200);
    assert_eq!(vm.v[0], 0);
    assert_eq!(vm.sp, 0);
}

#[test]
fn reset_keeps_flag_registers_and_memory() {
    let mut vm = boot(&[0x60, 0x0A, 0xF1, 0x75]);
    vm.step(&NO_KEYS);
    vm.step(&NO_KEYS);
    assert_eq!(vm.flag_registers[0], 0x0A);
    vm.reset_state();
    assert_eq!(vm.flag_registers[0], 0x0A, "the flag bank survives a reset");
    assert_eq!(vm.memory[0x200], 0x60, "memory survives a reset");
    assert_eq!(vm.v[0], 0);
    assert_eq!(vm.status, Status::NoRomLoaded);
}

#[test]
fn clear_screen_blanks_the_window() {
    let mut rom = vec![0xA2, 0x08, 0xD0, 0x11, 0x00, 0xE0, 0x00, 0x00, 0xFF];
    rom.resize(9, 0);
    let mut vm = boot(&rom);
    vm.step(&NO_KEYS);
    vm.step(&NO_KEYS);
    assert!(vm.display.pixel(0, 0));
    vm.step(&NO_KEYS);
    assert!(!vm.display.pixel(0, 0));
}

#[test]
fn palette_is_a_pure_function_of_state() {
    let mut rom = vec![0xA2, 0x06, 0xD0, 0x11, 0x00, 0x00, 0x80];
    rom.resize(7, 0);
    let mut vm = boot(&rom);
    vm.step(&NO_KEYS);
    vm.step(&NO_KEYS);
    let on = vm.display.color_on;
    let off = vm.display.color_off;
    assert_eq!(vm.display.color_at(0, 0), on);
    assert_eq!(vm.display.color_at(1, 0), off);
    // changing the palette repaints without touching cell state
    let red = Color::new(0xFF, 0x00, 0x00);
    let black = Color::new(0x00, 0x00, 0x00);
    vm.display.set_palette(red, black);
    assert_eq!(vm.display.color_at(0, 0), red);
    assert_eq!(vm.display.color_at(1, 0), black);
    assert!(vm.display.pixel(0, 0));
    assert!(!vm.display.pixel(1, 0));
}

#[test]
fn paused_machine_executes_nothing() {
    let mut vm = boot(&[0x60, 0x2A]);
    vm.cycles_per_frame = 0;
    vm.run_frame(&NO_KEYS);
    assert_eq!(vm.v[0], 0);
    assert_eq!(vm.pc, 0x200);
    vm.cycles_per_frame = 1;
    vm.run_frame(&NO_KEYS);
    assert_eq!(vm.v[0], 0x2A);
}

#[test]
fn run_frame_stops_at_a_halt() {
    let mut vm = boot(&[0xFF, 0xFF, 0x60, 0x01]);
    vm.cycles_per_frame = 60;
    vm.run_frame(&NO_KEYS);
    assert_eq!(vm.status, Status::Halted(VmError::UnknownOpcode(0xFF, 0xFF)));
    assert_eq!(vm.v[0], 0, "nothing executes past the halt");
}

#[test]
fn random_colors_keep_alpha_zero() {
    for _ in 0..8 {
        let c = Color::rand();
        assert_eq!(c.a, 0);
    }
}

#[test]
fn sixteen_by_sixteen_sprite_draws() {
    // DXY0: 16x16 sprite of all ones at (0,0): 32 bytes of 0xFF
    let mut rom = vec![0xA2, 0x04, 0xD0, 0x10];
    rom.resize(4 + 32, 0xFF);
    let mut vm = boot(&rom);
    vm.step(&NO_KEYS);
    vm.step(&NO_KEYS);
    for y in 0..16 {
        for x in 0..16 {
            assert!(vm.display.pixel(x, y));
        }
    }
    assert!(!vm.display.pixel(16, 0));
    assert_eq!(vm.v[15], 0);
}

#[test]
fn small_font_glyph_draws_its_shape() {
    // FX29 for digit 0, then draw the 8x5 glyph at (0, 0)
    let mut vm = boot(&[0x60, 0x00, 0xF0, 0x29, 0xD0, 0x05]);
    vm.step(&NO_KEYS);
    vm.step(&NO_KEYS);
    assert_eq!(vm.r_address, 0);
    vm.step(&NO_KEYS);
    // glyph 0 is F0 90 90 90 F0: a hollow box four pixels wide
    let expect = [
        [true, true, true, true],
        [true, false, false, true],
        [true, false, false, true],
        [true, false, false, true],
        [true, true, true, true],
    ];
    for (y, row) in expect.iter().enumerate() {
        for (x, &on) in row.iter().enumerate() {
            assert_eq!(vm.display.pixel(x, y), on, "glyph pixel ({}, {})", x, y);
        }
        for x in 4..8 {
            assert!(!vm.display.pixel(x, y));
        }
    }
}

#[test]
fn status_messages_name_each_state() {
    let vm = Chip8::new();
    assert_eq!(vm.status_message(), "waiting for a program");
    let mut vm = boot(&[0x12, 0x00]);
    assert_eq!(vm.status_message(), "running");
    vm.halt_with(VmError::RomReadFailure);
    assert_eq!(vm.status_message(), "the rom could not be read");
    vm.halt_with(VmError::StackOverflow);
    assert_eq!(vm.status_message(), "cannot push the stack: stack overflow");
    vm.halt_with(VmError::StackUnderflow);
    assert_eq!(vm.status_message(), "cannot pop the stack before pushing it");
    vm.halt_with(VmError::RomTooLarge);
    assert_eq!(vm.status_message(), "invalid rom: it does not fit in memory");
    vm.halt_with(VmError::InvalidSpriteAddress(0xFFF));
    assert_eq!(vm.status_message(), "cannot draw sprite: invalid address register");
    vm.halt_with(VmError::InvalidAddress(0xFFF));
    assert_eq!(vm.status_message(), "cannot access memory: invalid address register");
}
