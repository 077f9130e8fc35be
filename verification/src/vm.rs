//! The virtual machine: registers, memory, stack, timers and the
//! fetch-decode-execute cycle.

use vstd::prelude::*;
use vstd::arithmetic::div_mod::lemma_mod_add_multiples_vanish;
use crate::color::Color;
use crate::display::{
    blank_grid, scroll_down_spec, scroll_left_spec, scroll_right_spec, Display, GRID_HEIGHT,
    GRID_WIDTH, LOW_HEIGHT, LOW_WIDTH,
};
use crate::font::{font_data, font_table, FONT_BYTES, SMALL_FONT_BYTES};
use crate::instr::{decode, decode_spec, Instr};
use crate::sprite::SpriteDraw;

verus! {

/// Bytes of addressable memory.
pub const MEMORY_SIZE: usize = 4096;

/// Where loaded programs start and where the program counter points
/// after a reset.
pub const ROM_BASE: usize = 512;

/// The most ROM bytes a load accepts.
pub const MAX_ROM_BYTES: usize = 3584;

/// General-purpose registers.
pub const NUM_REGS: usize = 16;

/// Persistent flag registers.
pub const NUM_FLAGS: usize = 8;

/// Return addresses the call stack can hold.
pub const STACK_SLOTS: usize = 16;

/// Default tick interval of both timers, in microseconds (one
/// sixtieth of a second).
pub const DEFAULT_TICK_MICROS: u64 = 16667;

/// Default number of instructions executed per frame.
pub const DEFAULT_CYCLES_PER_FRAME: u32 = 60;

/// A fatal or load-time error. Each fatal one halts the current run;
/// recovery is an explicit reset or reload.
#[derive(Clone, Copy, PartialEq, Eq, Structural, Debug)]
pub enum VmError {
    /// The ROM does not fit between the load base and the end of memory.
    RomTooLarge,
    /// The driver could not read the ROM bytes at all.
    RomReadFailure,
    /// The two bytes at the program counter decode to nothing.
    UnknownOpcode(u8, u8),
    /// A call was made with the stack full.
    StackOverflow,
    /// A return was made with the stack empty.
    StackUnderflow,
    /// A sprite draw would read past the end of memory; carries the
    /// address register.
    InvalidSpriteAddress(u16),
    /// A bulk store, load or digit write would touch memory out of
    /// range; carries the address register.
    InvalidAddress(u16),
}

/// Where the machine stands: waiting for a program, running one, or
/// halted by a fatal error until reset or reload.
#[derive(Clone, Copy, PartialEq, Eq, Structural, Debug)]
pub enum Status {
    /// No program is loaded.
    NoRomLoaded,
    /// A program is loaded and executing.
    Running,
    /// A fatal error stopped the run.
    Halted(VmError),
}

/// The three behavioural quirks that differ between historical
/// interpreters. Each is read, never written, during an instruction.
#[derive(Clone, Copy, PartialEq, Eq, Structural, Debug)]
pub struct Config {
    /// Shift opcodes take their source from Vy when set, from Vx when
    /// clear.
    pub shift_behaviour: bool,
    /// Sprite coordinates wrap around the window when set, clip when
    /// clear.
    pub draw_behaviour: bool,
    /// Bulk store and load advance the address register afterwards
    /// when set.
    pub store_behaviour: bool,
}

/// The machine state as mathematics: every register, byte and pixel as
/// a plain value. All contracts of the machine speak in terms of this.
pub struct VmView {
    /// The sixteen general-purpose registers.
    pub v: Seq<u8>,
    /// The eight persistent flag registers.
    pub flags: Seq<u8>,
    /// The call stack slots.
    pub stack: Seq<u16>,
    /// The memory image.
    pub mem: Seq<u8>,
    /// The stack pointer: how many slots are in use.
    pub sp: int,
    /// The program counter.
    pub pc: u16,
    /// The address register I.
    pub i: u16,
    /// The delay timer register.
    pub dt: u8,
    /// The sound timer register.
    pub st: u8,
    /// Microseconds until the delay timer next decrements.
    pub delay_acc: u64,
    /// Microseconds until the sound timer next decrements.
    pub sound_acc: u64,
    /// Microseconds between delay timer decrements.
    pub dt_interval: u64,
    /// Microseconds between sound timer decrements.
    pub st_interval: u64,
    /// Instructions executed per frame.
    pub cycles_per_frame: u32,
    /// The display cells, row-major with a stride of 128.
    pub grid: Seq<bool>,
    /// Active display window width.
    pub width: int,
    /// Active display window height.
    pub height: int,
    /// Palette color of a set cell.
    pub color_on: Color,
    /// Palette color of a clear cell.
    pub color_off: Color,
    /// Whether the machine is idle, running or halted.
    pub status: Status,
    /// The register an in-progress key wait will fill, if any.
    pub waiting: Option<u8>,
    /// The quirk configuration.
    pub config: Config,
}

/// Sixteen zeroed registers.
pub open spec fn zero_regs() -> Seq<u8> {
    Seq::new(NUM_REGS as nat, |i: int| 0u8)
}

/// Sixteen zeroed stack slots.
pub open spec fn zero_stack() -> Seq<u16> {
    Seq::new(STACK_SLOTS as nat, |i: int| 0u16)
}

/// n zeroed memory bytes.
pub open spec fn zero_bytes(n: nat) -> Seq<u8> {
    Seq::new(n, |i: int| 0u8)
}

/// A well-formed view: every array has its fixed size, the stack
/// pointer is within the stack, the window is one of the two supported
/// resolutions, and a pending key wait names a real register.
pub open spec fn view_wf(s: VmView) -> bool {
    &&& s.v.len() == NUM_REGS
    &&& s.flags.len() == NUM_FLAGS
    &&& s.stack.len() == STACK_SLOTS
    &&& s.mem.len() == MEMORY_SIZE
    &&& 0 <= s.sp <= STACK_SLOTS
    &&& s.grid.len() == 8192
    &&& ((s.width == LOW_WIDTH && s.height == LOW_HEIGHT) || (s.width == GRID_WIDTH && s.height
        == GRID_HEIGHT))
    &&& match s.waiting {
        Option::Some(x) => x < 16,
        Option::None => true,
    }
}

/// The state a reset leaves behind: registers, stack and timers
/// cleared, the program counter back at the load base, low resolution
/// selected. Memory, the flag registers, the pixels, the palette and
/// all configuration survive.
pub open spec fn reset_view(s: VmView) -> VmView {
    VmView {
        v: zero_regs(),
        stack: zero_stack(),
        sp: 0,
        pc: ROM_BASE as u16,
        i: 0,
        dt: 0,
        st: 0,
        delay_acc: s.dt_interval,
        sound_acc: s.st_interval,
        width: LOW_WIDTH as int,
        height: LOW_HEIGHT as int,
        status: Status::NoRomLoaded,
        waiting: Option::None,
        ..s
    }
}

/// The state after a successful load: the ROM bytes sit at the load
/// base with everything after them zeroed, the machine is reset, the
/// display is cleared, and the run begins.
pub open spec fn load_view(s: VmView, rom: Seq<u8>) -> VmView {
    VmView {
        mem: s.mem.subrange(0, ROM_BASE as int) + rom + zero_bytes(
            (MEMORY_SIZE - ROM_BASE - rom.len()) as nat,
        ),
        grid: blank_grid(),
        status: Status::Running,
        ..reset_view(s)
    }
}

/// The lowest pressed key index, scanning from i upward.
pub open spec fn first_key_from(keys: Seq<bool>, i: int) -> Option<u8>
    decreases 16 - i,
{
    if i < 0 || i >= 16 {
        Option::None
    } else if keys[i] {
        Option::Some(i as u8)
    } else {
        first_key_from(keys, i + 1)
    }
}

/// The lowest pressed key index, if any key is pressed.
pub open spec fn first_key(keys: Seq<bool>) -> Option<u8> {
    first_key_from(keys, 0)
}

/// Delivering a key to a pending key wait: the waited-on register
/// receives the lowest pressed key index and the wait ends; with no
/// key pressed, or no wait pending, nothing changes.
pub open spec fn consume_key_view(s: VmView, keys: Seq<bool>) -> VmView {
    match s.waiting {
        Option::Some(x) => match first_key(keys) {
            Option::Some(k) => VmView { v: s.v.update(x as int, k), waiting: Option::None, ..s },
            Option::None => s,
        },
        Option::None => s,
    }
}

/// One sprite draw: from the registers named by the opcode and the
/// address register, or a halt when the sprite bytes would run past
/// the end of memory.
pub open spec fn draw_view(s: VmView, x: u8, y: u8, n: u8) -> VmView {
    let sd = SpriteDraw {
        mem: s.mem,
        i_reg: s.i as int,
        x0: s.v[x as int] as int,
        y0: s.v[y as int] as int,
        n,
        w: s.width,
        h: s.height,
        wrap: s.config.draw_behaviour,
    };
    if s.i + sd.bytes() > MEMORY_SIZE {
        VmView { status: Status::Halted(VmError::InvalidSpriteAddress(s.i)), ..s }
    } else {
        VmView {
            grid: sd.drawn(s.grid),
            v: s.v.update(15, if sd.collides(s.grid) {
                1u8
            } else {
                0u8
            }),
            ..s
        }
    }
}

/// What one instruction does to the machine, after the fetch has
/// already advanced the program counter. This is the authoritative
/// opcode table: `rnd` stands in for the byte the entropy source hands
/// the random opcode, `keys` is the keypad snapshot.
#[verifier::opaque]
pub open spec fn exec_view(s: VmView, instr: Instr, keys: Seq<bool>, rnd: u8) -> VmView {
    match instr {
        Instr::ClearScreen => VmView { grid: blank_grid(), ..s },
        Instr::Return => if s.sp == 0 {
            VmView { status: Status::Halted(VmError::StackUnderflow), ..s }
        } else {
            VmView { sp: s.sp - 1, pc: s.stack[s.sp - 1], ..s }
        },
        Instr::LowRes => VmView {
            grid: blank_grid(),
            width: LOW_WIDTH as int,
            height: LOW_HEIGHT as int,
            ..s
        },
        Instr::HighRes => VmView {
            grid: blank_grid(),
            width: GRID_WIDTH as int,
            height: GRID_HEIGHT as int,
            ..s
        },
        Instr::Exit => reset_view(s),
        Instr::ScrollRight => VmView {
            grid: scroll_right_spec(s.grid, s.width, s.height),
            ..s
        },
        Instr::ScrollLeft => VmView { grid: scroll_left_spec(s.grid, s.width, s.height), ..s },
        Instr::ScrollDown(n) => VmView {
            grid: scroll_down_spec(s.grid, s.width, s.height, n as int),
            ..s
        },
        Instr::Jump(a) => VmView { pc: a, ..s },
        Instr::JumpV0(a) => VmView { pc: (a + s.v[0]) as u16, ..s },
        Instr::Call(a) => if s.sp == STACK_SLOTS {
            VmView { status: Status::Halted(VmError::StackOverflow), pc: a, ..s }
        } else {
            VmView { stack: s.stack.update(s.sp, s.pc), sp: s.sp + 1, pc: a, ..s }
        },
        Instr::SkipEqImm(x, nn) => if s.v[x as int] == nn {
            VmView { pc: (s.pc + 2) as u16, ..s }
        } else {
            s
        },
        Instr::SkipNeImm(x, nn) => if s.v[x as int] != nn {
            VmView { pc: (s.pc + 2) as u16, ..s }
        } else {
            s
        },
        Instr::SkipEqReg(x, y) => if s.v[x as int] == s.v[y as int] {
            VmView { pc: (s.pc + 2) as u16, ..s }
        } else {
            s
        },
        Instr::SkipNeReg(x, y) => if s.v[x as int] != s.v[y as int] {
            VmView { pc: (s.pc + 2) as u16, ..s }
        } else {
            s
        },
        Instr::LoadImm(x, nn) => VmView { v: s.v.update(x as int, nn), ..s },
        Instr::AddImm(x, nn) => VmView {
            v: s.v.update(x as int, ((s.v[x as int] + nn) % 256) as u8),
            ..s
        },
        Instr::Move(x, y) => VmView { v: s.v.update(x as int, s.v[y as int]), ..s },
        Instr::Or(x, y) => VmView { v: s.v.update(x as int, s.v[x as int] | s.v[y as int]), ..s },
        Instr::And(x, y) => VmView { v: s.v.update(x as int, s.v[x as int] & s.v[y as int]), ..s },
        Instr::Xor(x, y) => VmView { v: s.v.update(x as int, s.v[x as int] ^ s.v[y as int]), ..s },
        Instr::Add(x, y) => {
            let sum = s.v[x as int] + s.v[y as int];
            VmView {
                v: s.v.update(x as int, (sum % 256) as u8).update(15, if sum > 255 {
                    1u8
                } else {
                    0u8
                }),
                ..s
            }
        },
        Instr::Sub(x, y) => {
            let vf: u8 = if s.v[x as int] >= s.v[y as int] {
                1
            } else {
                0
            };
            VmView {
                v: s.v.update(x as int, ((s.v[x as int] - s.v[y as int]) % 256) as u8).update(
                    15,
                    vf,
                ),
                ..s
            }
        },
        Instr::SubN(x, y) => {
            let vf: u8 = if s.v[y as int] >= s.v[x as int] {
                1
            } else {
                0
            };
            VmView {
                v: s.v.update(x as int, ((s.v[y as int] - s.v[x as int]) % 256) as u8).update(
                    15,
                    vf,
                ),
                ..s
            }
        },
        Instr::ShiftRight(x, y) => {
            let src = if s.config.shift_behaviour {
                y as int
            } else {
                x as int
            };
            let v1 = s.v.update(15, (s.v[src] % 2) as u8);
            VmView { v: v1.update(x as int, (v1[src] / 2) as u8), ..s }
        },
        Instr::ShiftLeft(x, y) => {
            let src = if s.config.shift_behaviour {
                y as int
            } else {
                x as int
            };
            let v1 = s.v.update(15, (s.v[src] / 128) as u8);
            VmView { v: v1.update(x as int, ((v1[src] * 2) % 256) as u8), ..s }
        },
        Instr::LoadI(a) => VmView { i: a, ..s },
        Instr::Random(x, nn) => VmView { v: s.v.update(x as int, rnd & nn), ..s },
        Instr::Draw(x, y, n) => draw_view(s, x, y, n),
        Instr::SkipKey(x) => if keys[s.v[x as int] as int % 16] {
            VmView { pc: (s.pc + 2) as u16, ..s }
        } else {
            s
        },
        Instr::SkipNoKey(x) => if !keys[s.v[x as int] as int % 16] {
            VmView { pc: (s.pc + 2) as u16, ..s }
        } else {
            s
        },
        Instr::ReadDelay(x) => VmView { v: s.v.update(x as int, s.dt), ..s },
        Instr::SetDelay(x) => VmView { dt: s.v[x as int], delay_acc: s.dt_interval, ..s },
        Instr::SetSound(x) => VmView { st: s.v[x as int], sound_acc: s.st_interval, ..s },
        Instr::WaitKey(x) => VmView { waiting: Option::Some(x), ..s },
        Instr::AddI(x) => VmView { i: ((s.i + s.v[x as int]) % 0x10000) as u16, ..s },
        Instr::SmallFont(x) => {
            let d = if s.v[x as int] < 15 {
                s.v[x as int] as int
            } else {
                15
            };
            VmView { i: (d * 5) as u16, ..s }
        },
        Instr::LargeFont(x) => {
            let d = if s.v[x as int] < 9 {
                s.v[x as int] as int
            } else {
                9
            };
            VmView { i: (SMALL_FONT_BYTES + d * 10) as u16, ..s }
        },
        Instr::StoreBcd(x) => if s.i + 3 > MEMORY_SIZE {
            VmView { status: Status::Halted(VmError::InvalidAddress(s.i)), ..s }
        } else {
            let vx = s.v[x as int];
            VmView {
                mem: s.mem.update(s.i as int, ((vx / 100) % 10) as u8).update(
                    s.i as int + 1,
                    ((vx / 10) % 10) as u8,
                ).update(s.i as int + 2, (vx % 10) as u8),
                ..s
            }
        },
        Instr::StoreRegs(x) => {
            let len = x as int + 1;
            if s.i + len > MEMORY_SIZE {
                VmView { status: Status::Halted(VmError::InvalidAddress(s.i)), ..s }
            } else {
                VmView {
                    mem: s.mem.subrange(0, s.i as int) + s.v.subrange(0, len) + s.mem.subrange(
                        s.i + len,
                        MEMORY_SIZE as int,
                    ),
                    i: if s.config.store_behaviour {
                        (s.i + len) as u16
                    } else {
                        s.i
                    },
                    ..s
                }
            }
        },
        Instr::LoadRegs(x) => {
            let len = x as int + 1;
            if s.i + len > MEMORY_SIZE {
                VmView { status: Status::Halted(VmError::InvalidAddress(s.i)), ..s }
            } else {
                VmView {
                    v: s.mem.subrange(s.i as int, s.i + len) + s.v.subrange(len, NUM_REGS as int),
                    i: if s.config.store_behaviour {
                        (s.i + len) as u16
                    } else {
                        s.i
                    },
                    ..s
                }
            }
        },
        Instr::SaveFlags(x) => {
            let cnt = if x < 7 {
                x as int
            } else {
                7
            };
            VmView { flags: s.v.subrange(0, cnt) + s.flags.subrange(cnt, NUM_FLAGS as int), ..s }
        },
        Instr::RestoreFlags(x) => {
            let cnt = if x < 7 {
                x as int
            } else {
                7
            };
            VmView { v: s.flags.subrange(0, cnt) + s.v.subrange(cnt, NUM_REGS as int), ..s }
        },
        Instr::Unknown(hi, lo) => VmView {
            status: Status::Halted(VmError::UnknownOpcode(hi, lo)),
            ..s
        },
    }
}

/// Whether the machine can execute an instruction: running, not
/// blocked on a key wait, and the program counter inside memory with
/// room for a whole opcode.
pub open spec fn runnable(s: VmView) -> bool {
    &&& s.status is Running
    &&& s.waiting is None
    &&& s.pc as int + 1 < MEMORY_SIZE
}

/// One full cycle: fetch the two bytes at the program counter, advance
/// it past them, decode and execute.
pub open spec fn step_view(s: VmView, keys: Seq<bool>, rnd: u8) -> VmView {
    let hi = s.mem[s.pc as int];
    let lo = s.mem[s.pc as int + 1];
    let fetched = VmView { pc: (s.pc + 2) as u16, ..s };
    exec_view(fetched, decode_spec(hi, lo), keys, rnd)
}

/// Up to n cycles: stepping stops early once the machine is no longer
/// runnable (halted, waiting on a key, or the program counter out of
/// range). One entry of rnds feeds each cycle's random opcode.
pub open spec fn run_steps(s: VmView, keys: Seq<bool>, rnds: Seq<u8>, n: nat) -> VmView
    decreases n,
{
    if n == 0 {
        s
    } else if runnable(s) {
        run_steps(step_view(s, keys, rnds[0]), keys, rnds.skip(1), (n - 1) as nat)
    } else {
        s
    }
}

/// Counting the timers down after `elapsed` microseconds: each timer
/// decrements by at most one when its accumulator runs out (rearming
/// it to the full interval), and never below zero; otherwise the
/// accumulator just shrinks. Instruction throughput plays no part.
pub open spec fn tick_view(s: VmView, elapsed: u64) -> VmView {
    let s1 = if elapsed >= s.delay_acc {
        VmView {
            dt: if s.dt > 0 {
                (s.dt - 1) as u8
            } else {
                0
            },
            delay_acc: s.dt_interval,
            ..s
        }
    } else {
        VmView { delay_acc: (s.delay_acc - elapsed) as u64, ..s }
    };
    if elapsed >= s1.sound_acc {
        VmView {
            st: if s1.st > 0 {
                (s1.st - 1) as u8
            } else {
                0
            },
            sound_acc: s1.st_interval,
            ..s1
        }
    } else {
        VmView { sound_acc: (s1.sound_acc - elapsed) as u64, ..s1 }
    }
}

/// Appending one more cycle to a bounded run: the new cycle steps the
/// final state if it is still runnable and changes nothing otherwise.
pub proof fn lemma_run_steps_snoc(s: VmView, keys: Seq<bool>, rnds: Seq<u8>, b: u8, n: nat)
    requires
        rnds.len() == n,
    ensures
        run_steps(s, keys, rnds.push(b), n + 1) == if runnable(run_steps(s, keys, rnds, n)) {
            step_view(run_steps(s, keys, rnds, n), keys, b)
        } else {
            run_steps(s, keys, rnds, n)
        },
    decreases n,
{
    if n == 0 {
        assert(rnds.push(b)[0] == b);
        assert(run_steps(s, keys, rnds, 0) == s);
        if runnable(s) {
            assert(run_steps(s, keys, rnds.push(b), 1) == run_steps(
                step_view(s, keys, b),
                keys,
                rnds.push(b).skip(1),
                0,
            ));
            assert(run_steps(step_view(s, keys, b), keys, rnds.push(b).skip(1), 0) == step_view(
                s,
                keys,
                b,
            ));
        } else {
            assert(run_steps(s, keys, rnds.push(b), 1) == s);
        }
    } else {
        if runnable(s) {
            assert(rnds.push(b)[0] == rnds[0]);
            assert(rnds.push(b).skip(1) =~= rnds.skip(1).push(b));
            lemma_run_steps_snoc(step_view(s, keys, rnds[0]), keys, rnds.skip(1), b, (n - 1) as nat);
            assert(run_steps(s, keys, rnds.push(b), n + 1) == run_steps(
                step_view(s, keys, rnds[0]),
                keys,
                rnds.push(b).skip(1),
                n,
            ));
            assert(run_steps(s, keys, rnds, n) == run_steps(
                step_view(s, keys, rnds[0]),
                keys,
                rnds.skip(1),
                (n - 1) as nat,
            ));
        } else {
            assert(run_steps(s, keys, rnds.push(b), n + 1) == s);
            assert(run_steps(s, keys, rnds, n) == s);
        }
    }
}

/// The machine. The fields are open for inspection and editing by a
/// debugging driver; every operation requires and preserves `wf`.
pub struct Chip8 {
    /// The sixteen general-purpose registers; v[15] doubles as the
    /// carry, borrow and collision flag.
    pub v: Vec<u8>,
    /// The eight persistent flag registers.
    pub flag_registers: Vec<u8>,
    /// The call stack.
    pub stack: Vec<u16>,
    /// 4096 bytes of memory: fonts low, programs from the load base up.
    pub memory: Vec<u8>,
    /// The stack pointer: slots in use.
    pub sp: usize,
    /// The program counter.
    pub pc: u16,
    /// The address register I.
    pub r_address: u16,
    /// The delay timer register.
    pub r_delay_timer: u8,
    /// The sound timer register.
    pub r_sound_timer: u8,
    /// Microseconds until the delay timer next decrements.
    pub delay_tick: u64,
    /// Microseconds until the sound timer next decrements.
    pub sound_tick: u64,
    /// Microseconds between delay timer decrements.
    pub dt_interval: u64,
    /// Microseconds between sound timer decrements.
    pub st_interval: u64,
    /// Instructions executed per frame; zero pauses.
    pub cycles_per_frame: u32,
    /// The pixel grid with its window and palette.
    pub display: Display,
    /// Whether the machine is idle, running or halted.
    pub status: Status,
    /// The register an in-progress key wait will fill, if any.
    pub waiting_key: Option<u8>,
    /// The quirk configuration.
    pub config: Config,
}

impl View for Chip8 {
    type V = VmView;

    open spec fn view(&self) -> VmView {
        VmView {
            v: self.v@,
            flags: self.flag_registers@,
            stack: self.stack@,
            mem: self.memory@,
            sp: self.sp as int,
            pc: self.pc,
            i: self.r_address,
            dt: self.r_delay_timer,
            st: self.r_sound_timer,
            delay_acc: self.delay_tick,
            sound_acc: self.sound_tick,
            dt_interval: self.dt_interval,
            st_interval: self.st_interval,
            cycles_per_frame: self.cycles_per_frame,
            grid: self.display.cells@,
            width: self.display.width as int,
            height: self.display.height as int,
            color_on: self.display.color_on,
            color_off: self.display.color_off,
            status: self.status,
            waiting: self.waiting_key,
            config: self.config,
        }
    }
}

impl Chip8 {
    /// The concrete machine is well formed exactly when its view is.
    pub open spec fn wf(&self) -> bool {
        view_wf(self@)
    }

    /// A fresh machine: fonts in low memory, everything else zeroed,
    /// low resolution, default palette, timers at a sixtieth of a
    /// second, all three quirks on, no program loaded.
    pub fn new() -> (vm: Chip8)
        ensures
            vm.wf(),
            vm@.v == zero_regs(),
            vm@.flags == zero_bytes(NUM_FLAGS as nat),
            vm@.stack == zero_stack(),
            vm@.mem == font_table() + zero_bytes((MEMORY_SIZE - FONT_BYTES) as nat),
            vm@.sp == 0,
            vm@.pc == ROM_BASE,
            vm@.i == 0,
            vm@.dt == 0,
            vm@.st == 0,
            vm@.delay_acc == DEFAULT_TICK_MICROS,
            vm@.sound_acc == DEFAULT_TICK_MICROS,
            vm@.dt_interval == DEFAULT_TICK_MICROS,
            vm@.st_interval == DEFAULT_TICK_MICROS,
            vm@.cycles_per_frame == DEFAULT_CYCLES_PER_FRAME,
            vm@.grid == blank_grid(),
            vm@.width == LOW_WIDTH,
            vm@.height == LOW_HEIGHT,
            vm@.status == Status::NoRomLoaded,
            vm@.waiting is None,
            vm@.config == (Config {
                shift_behaviour: true,
                draw_behaviour: true,
                store_behaviour: true,
            }),
    {
        let mut memory = font_data();
        while memory.len() < MEMORY_SIZE
            invariant
                FONT_BYTES <= memory@.len() <= MEMORY_SIZE,
                memory@.subrange(0, FONT_BYTES as int) == font_table(),
                forall|j: int| FONT_BYTES <= j < memory@.len() ==> memory@[j] == 0u8,
            decreases MEMORY_SIZE - memory.len(),
        {
            memory.push(0);
        }
        proof {
            assert(memory@ =~= font_table() + zero_bytes((MEMORY_SIZE - FONT_BYTES) as nat));
        }
        let mut v: Vec<u8> = Vec::new();
        while v.len() < NUM_REGS
            invariant
                v@.len() <= NUM_REGS,
                forall|j: int| 0 <= j < v@.len() ==> v@[j] == 0u8,
            decreases NUM_REGS - v.len(),
        {
            v.push(0);
        }
        let mut flag_registers: Vec<u8> = Vec::new();
        while flag_registers.len() < NUM_FLAGS
            invariant
                flag_registers@.len() <= NUM_FLAGS,
                forall|j: int| 0 <= j < flag_registers@.len() ==> flag_registers@[j] == 0u8,
            decreases NUM_FLAGS - flag_registers.len(),
        {
            flag_registers.push(0);
        }
        let mut stack: Vec<u16> = Vec::new();
        while stack.len() < STACK_SLOTS
            invariant
                stack@.len() <= STACK_SLOTS,
                forall|j: int| 0 <= j < stack@.len() ==> stack@[j] == 0u16,
            decreases STACK_SLOTS - stack.len(),
        {
            stack.push(0);
        }
        proof {
            assert(v@ =~= zero_regs());
            assert(flag_registers@ =~= zero_bytes(NUM_FLAGS as nat));
            assert(stack@ =~= zero_stack());
        }
        Chip8 {
            v,
            flag_registers,
            stack,
            memory,
            sp: 0,
            pc: ROM_BASE as u16,
            r_address: 0,
            r_delay_timer: 0,
            r_sound_timer: 0,
            delay_tick: DEFAULT_TICK_MICROS,
            sound_tick: DEFAULT_TICK_MICROS,
            dt_interval: DEFAULT_TICK_MICROS,
            st_interval: DEFAULT_TICK_MICROS,
            cycles_per_frame: DEFAULT_CYCLES_PER_FRAME,
            display: Display::new(),
            status: Status::NoRomLoaded,
            waiting_key: Option::None,
            config: Config { shift_behaviour: true, draw_behaviour: true, store_behaviour: true },
        }
    }

    /// Clears registers, stack, timers and the key wait, puts the
    /// program counter back at the load base and selects low
    /// resolution. Memory, pixels, flag registers, palette and
    /// configuration survive; the machine is left with no program
    /// considered loaded.
    pub fn reset_state(&mut self)
        requires
            old(self).wf(),
        ensures
            final(self).wf(),
            final(self)@ == reset_view(old(self)@),
    {
        let mut v: Vec<u8> = Vec::new();
        while v.len() < NUM_REGS
            invariant
                v@.len() <= NUM_REGS,
                forall|j: int| 0 <= j < v@.len() ==> v@[j] == 0u8,
            decreases NUM_REGS - v.len(),
        {
            v.push(0);
        }
        let mut stack: Vec<u16> = Vec::new();
        while stack.len() < STACK_SLOTS
            invariant
                stack@.len() <= STACK_SLOTS,
                forall|j: int| 0 <= j < stack@.len() ==> stack@[j] == 0u16,
            decreases STACK_SLOTS - stack.len(),
        {
            stack.push(0);
        }
        proof {
            assert(v@ =~= zero_regs());
            assert(stack@ =~= zero_stack());
        }
        self.v = v;
        self.stack = stack;
        self.sp = 0;
        self.pc = ROM_BASE as u16;
        self.r_address = 0;
        self.r_delay_timer = 0;
        self.r_sound_timer = 0;
        self.delay_tick = self.dt_interval;
        self.sound_tick = self.st_interval;
        self.status = Status::NoRomLoaded;
        self.waiting_key = Option::None;
        self.display.set_low_res();
    }

    /// Marks the machine halted with the given error; nothing else
    /// changes. For fatal conditions found by the driver, such as a
    /// ROM that could not be read.
    pub fn halt_with(&mut self, err: VmError)
        requires
            old(self).wf(),
        ensures
            final(self).wf(),
            final(self)@ == (VmView { status: Status::Halted(err), ..old(self)@ }),
    {
        self.status = Status::Halted(err);
    }

    /// Loads a program: rejects one that does not fit (halting with
    /// `RomTooLarge` and touching nothing else), otherwise copies it
    /// to the load base, zeroes the rest of program memory, resets the
    /// machine, clears the display and starts the run.
    pub fn load_rom(&mut self, rom: &Vec<u8>) -> (r: Result<(), VmError>)
        requires
            old(self).wf(),
        ensures
            final(self).wf(),
            rom@.len() > MAX_ROM_BYTES ==> r == Result::<(), VmError>::Err(VmError::RomTooLarge)
                && final(self)@ == (VmView {
                status: Status::Halted(VmError::RomTooLarge),
                ..old(self)@
            }),
            rom@.len() <= MAX_ROM_BYTES ==> r == Result::<(), VmError>::Ok(()) && final(self)@
                == load_view(old(self)@, rom@),
    {
        if rom.len() > MAX_ROM_BYTES {
            self.status = Status::Halted(VmError::RomTooLarge);
            return Result::Err(VmError::RomTooLarge);
        }
        let mut j: usize = 0;
        while j < rom.len()
            invariant
                old(self).wf(),
                self.wf(),
                j <= rom@.len(),
                rom@.len() <= MAX_ROM_BYTES,
                self.memory@.len() == MEMORY_SIZE,
                self.memory@.subrange(0, ROM_BASE as int) == old(self).memory@.subrange(
                    0,
                    ROM_BASE as int,
                ),
                self.memory@.subrange(ROM_BASE as int, ROM_BASE + j) == rom@.subrange(0, j as int),
                *self == (Chip8 { memory: self.memory, ..*old(self) }),
            decreases rom@.len() - j,
        {
            self.memory.set(ROM_BASE + j, rom[j]);
            proof {
                assert(self.memory@.subrange(ROM_BASE as int, ROM_BASE + j + 1) =~= rom@.subrange(
                    0,
                    j as int + 1,
                ));
                assert(self.memory@.subrange(0, ROM_BASE as int) =~= old(self).memory@.subrange(
                    0,
                    ROM_BASE as int,
                ));
            }
            j += 1;
        }
        let mut k: usize = ROM_BASE + rom.len();
        while k < MEMORY_SIZE
            invariant
                old(self).wf(),
                self.wf(),
                rom@.len() <= MAX_ROM_BYTES,
                ROM_BASE + rom@.len() <= k <= MEMORY_SIZE,
                self.memory@.len() == MEMORY_SIZE,
                self.memory@.subrange(0, ROM_BASE as int) == old(self).memory@.subrange(
                    0,
                    ROM_BASE as int,
                ),
                self.memory@.subrange(ROM_BASE as int, ROM_BASE + rom@.len()) == rom@,
                forall|m: int| ROM_BASE + rom@.len() <= m < k ==> self.memory@[m] == 0u8,
                *self == (Chip8 { memory: self.memory, ..*old(self) }),
            decreases MEMORY_SIZE - k,
        {
            self.memory.set(k, 0);
            proof {
                assert(self.memory@.subrange(ROM_BASE as int, ROM_BASE + rom@.len()) =~= rom@);
                assert(self.memory@.subrange(0, ROM_BASE as int) =~= old(self).memory@.subrange(
                    0,
                    ROM_BASE as int,
                ));
            }
            k += 1;
        }
        proof {
            assert(self.memory@ =~= old(self).memory@.subrange(0, ROM_BASE as int) + rom@
                + zero_bytes((MEMORY_SIZE - ROM_BASE - rom@.len()) as nat));
        }
        self.reset_state();
        self.status = Status::Running;
        self.display.clear();
        Result::Ok(())
    }

    /// 00E0: turns every cell of the display off.
    fn op_clear_screen(&mut self)
        requires
            old(self).wf(),
        ensures
            final(self).wf(),
            final(self)@ == (VmView { grid: blank_grid(), ..old(self)@ }),
    {
        self.display.clear();
    }

    /// 00FE: clears the display and selects the low-resolution window.
    fn op_low_res(&mut self)
        requires
            old(self).wf(),
        ensures
            final(self).wf(),
            final(self)@ == (VmView {
                grid: blank_grid(),
                width: LOW_WIDTH as int,
                height: LOW_HEIGHT as int,
                ..old(self)@
            }),
    {
        self.display.clear();
        self.display.set_low_res();
    }

    /// 00FF: clears the display and selects the high-resolution window.
    fn op_high_res(&mut self)
        requires
            old(self).wf(),
        ensures
            final(self).wf(),
            final(self)@ == (VmView {
                grid: blank_grid(),
                width: GRID_WIDTH as int,
                height: GRID_HEIGHT as int,
                ..old(self)@
            }),
    {
        self.display.clear();
        self.display.set_high_res();
    }

    /// 00EE: pops the return address, or halts with a stack underflow
    /// when no call is outstanding.
    fn op_return(&mut self)
        requires
            old(self).wf(),
        ensures
            final(self).wf(),
            final(self)@ == if old(self)@.sp == 0 {
                VmView { status: Status::Halted(VmError::StackUnderflow), ..old(self)@ }
            } else {
                VmView {
                    sp: old(self)@.sp - 1,
                    pc: old(self)@.stack[old(self)@.sp - 1],
                    ..old(self)@
                }
            },
    {
        if self.sp == 0 {
            self.status = Status::Halted(VmError::StackUnderflow);
        } else {
            self.sp = self.sp - 1;
            self.pc = self.stack[self.sp];
        }
    }

    /// 2NNN: pushes the program counter and jumps, or halts with a
    /// stack overflow when all slots are in use (the jump is taken
    /// regardless).
    fn op_call(&mut self, addr: u16)
        requires
            old(self).wf(),
        ensures
            final(self).wf(),
            final(self)@ == if old(self)@.sp == STACK_SLOTS {
                VmView { status: Status::Halted(VmError::StackOverflow), pc: addr, ..old(self)@ }
            } else {
                VmView {
                    stack: old(self)@.stack.update(old(self)@.sp, old(self)@.pc),
                    sp: old(self)@.sp + 1,
                    pc: addr,
                    ..old(self)@
                }
            },
    {
        if self.sp >= STACK_SLOTS {
            self.status = Status::Halted(VmError::StackOverflow);
        } else {
            self.stack.set(self.sp, self.pc);
            self.sp = self.sp + 1;
        }
        self.pc = addr;
    }

    /// 3XNN, 4XNN, 5XY0, 9XY0, EX9E, EXA1: skips the next instruction
    /// when the given condition already evaluated to true.
    fn op_skip_if(&mut self, cond: bool)
        requires
            old(self).wf(),
            old(self).pc <= MEMORY_SIZE,
        ensures
            final(self).wf(),
            final(self)@ == if cond {
                VmView { pc: (old(self)@.pc + 2) as u16, ..old(self)@ }
            } else {
                old(self)@
            },
    {
        if cond {
            self.pc = self.pc + 2;
        }
    }

    /// 8XY4: adds Vy into Vx modulo 256; VF becomes 1 exactly when the
    /// unsigned sum exceeds 255.
    fn op_add(&mut self, x: u8, y: u8)
        requires
            old(self).wf(),
            x < 16,
            y < 16,
        ensures
            final(self).wf(),
            final(self)@ == ({
                let sum = old(self)@.v[x as int] + old(self)@.v[y as int];
                VmView {
                    v: old(self)@.v.update(x as int, (sum % 256) as u8).update(
                        15,
                        if sum > 255 {
                            1u8
                        } else {
                            0u8
                        },
                    ),
                    ..old(self)@
                }
            }),
    {
        let sum: u16 = self.v[x as usize] as u16 + self.v[y as usize] as u16;
        self.v.set(x as usize, (sum % 256) as u8);
        self.v.set(15, if sum > 255 { 1 } else { 0 });
    }

    /// 8XY5 and 8XY7: subtracts one register from the other modulo
    /// 256; VF becomes 1 exactly when no borrow was needed. The
    /// minuend register index comes first.
    fn op_sub_into(&mut self, x: u8, a: u8, b: u8)
        requires
            old(self).wf(),
            x < 16,
            a < 16,
            b < 16,
        ensures
            final(self).wf(),
            final(self)@ == ({
                let vf: u8 = if old(self)@.v[a as int] >= old(self)@.v[b as int] {
                    1
                } else {
                    0
                };
                VmView {
                    v: old(self)@.v.update(
                        x as int,
                        ((old(self)@.v[a as int] - old(self)@.v[b as int]) % 256) as u8,
                    ).update(15, vf),
                    ..old(self)@
                }
            }),
    {
        let av: u16 = self.v[a as usize] as u16;
        let bv: u16 = self.v[b as usize] as u16;
        let vf: u8 = if av >= bv {
            1
        } else {
            0
        };
        proof {
            lemma_mod_add_multiples_vanish(av as int - bv as int, 256);
        }
        self.v.set(x as usize, ((av + 256 - bv) % 256) as u8);
        self.v.set(15, vf);
    }

    /// 8XY6: shifts the source register right by one into Vx; VF takes
    /// the bit shifted out, and is written first, as the original
    /// interpreters did. The shift quirk picks Vy or Vx as the source.
    fn op_shift_right(&mut self, x: u8, y: u8)
        requires
            old(self).wf(),
            x < 16,
            y < 16,
        ensures
            final(self).wf(),
            final(self)@ == ({
                let src = if old(self)@.config.shift_behaviour {
                    y as int
                } else {
                    x as int
                };
                let v1 = old(self)@.v.update(15, (old(self)@.v[src] % 2) as u8);
                VmView { v: v1.update(x as int, (v1[src] / 2) as u8), ..old(self)@ }
            }),
    {
        let src: usize = if self.config.shift_behaviour {
            y as usize
        } else {
            x as usize
        };
        let vf = self.v[src] % 2;
        self.v.set(15, vf);
        let val = self.v[src] / 2;
        self.v.set(x as usize, val);
    }

    /// 8XYE: shifts the source register left by one into Vx modulo
    /// 256; VF takes the bit shifted out and is written first. The
    /// shift quirk picks Vy or Vx as the source.
    fn op_shift_left(&mut self, x: u8, y: u8)
        requires
            old(self).wf(),
            x < 16,
            y < 16,
        ensures
            final(self).wf(),
            final(self)@ == ({
                let src = if old(self)@.config.shift_behaviour {
                    y as int
                } else {
                    x as int
                };
                let v1 = old(self)@.v.update(15, (old(self)@.v[src] / 128) as u8);
                VmView { v: v1.update(x as int, ((v1[src] * 2) % 256) as u8), ..old(self)@ }
            }),
    {
        let src: usize = if self.config.shift_behaviour {
            y as usize
        } else {
            x as usize
        };
        let vf = self.v[src] / 128;
        self.v.set(15, vf);
        let val = ((self.v[src] as u16 * 2) % 256) as u8;
        self.v.set(x as usize, val);
    }

    /// CXNN: loads a fresh random byte masked with NN into Vx. Which
    /// byte the entropy source produced is existentially quantified;
    /// nothing outside the mask ever reaches the register.
    fn op_random(&mut self, x: u8, nn: u8)
        requires
            old(self).wf(),
            x < 16,
        ensures
            final(self).wf(),
            exists|b: u8|
                final(self)@ == (VmView {
                    v: old(self)@.v.update(x as int, #[trigger] (b & nn)),
                    ..old(self)@
                }),
    {
        let b = crate::entropy::random_byte();
        self.v.set(x as usize, b & nn);
        proof {
            assert(self@ == (VmView { v: old(self)@.v.update(x as int, b & nn), ..old(self)@ }));
        }
    }

    /// FX1E: adds Vx into the address register modulo 65536, with no
    /// flag, as the original instruction set prescribes.
    fn op_add_i(&mut self, x: u8)
        requires
            old(self).wf(),
            x < 16,
        ensures
            final(self).wf(),
            final(self)@ == (VmView {
                i: ((old(self)@.i + old(self)@.v[x as int]) % 0x10000) as u16,
                ..old(self)@
            }),
    {
        let sum: u32 = self.r_address as u32 + self.v[x as usize] as u32;
        self.r_address = (sum % 0x10000) as u16;
    }

    /// FX33: writes the three decimal digits of Vx at I, I+1 and I+2,
    /// or halts when those addresses run past the end of memory.
    fn op_store_bcd(&mut self, x: u8)
        requires
            old(self).wf(),
            x < 16,
        ensures
            final(self).wf(),
            final(self)@ == if old(self)@.i + 3 > MEMORY_SIZE {
                VmView {
                    status: Status::Halted(VmError::InvalidAddress(old(self)@.i)),
                    ..old(self)@
                }
            } else {
                let vx = old(self)@.v[x as int];
                VmView {
                    mem: old(self)@.mem.update(old(self)@.i as int, ((vx / 100) % 10) as u8).update(
                        old(self)@.i as int + 1,
                        ((vx / 10) % 10) as u8,
                    ).update(old(self)@.i as int + 2, (vx % 10) as u8),
                    ..old(self)@
                }
            },
    {
        if self.r_address as usize + 3 > MEMORY_SIZE {
            self.status = Status::Halted(VmError::InvalidAddress(self.r_address));
            return;
        }
        let base = self.r_address as usize;
        let vx = self.v[x as usize];
        self.memory.set(base, (vx / 100) % 10);
        self.memory.set(base + 1, (vx / 10) % 10);
        self.memory.set(base + 2, vx % 10);
    }

    /// FX55: stores V0..=Vx at the address register, halting when the
    /// range runs past the end of memory; the store quirk decides
    /// whether I advances past the range afterwards.
    fn op_store_regs(&mut self, x: u8)
        requires
            old(self).wf(),
            x < 16,
        ensures
            final(self).wf(),
            final(self)@ == ({
                let len = x as int + 1;
                if old(self)@.i + len > MEMORY_SIZE {
                    VmView {
                        status: Status::Halted(VmError::InvalidAddress(old(self)@.i)),
                        ..old(self)@
                    }
                } else {
                    VmView {
                        mem: old(self)@.mem.subrange(0, old(self)@.i as int) + old(
                            self,
                        )@.v.subrange(0, len) + old(self)@.mem.subrange(
                            old(self)@.i + len,
                            MEMORY_SIZE as int,
                        ),
                        i: if old(self)@.config.store_behaviour {
                            (old(self)@.i + len) as u16
                        } else {
                            old(self)@.i
                        },
                        ..old(self)@
                    }
                }
            }),
    {
        let len = x as usize + 1;
        if self.r_address as usize + len > MEMORY_SIZE {
            self.status = Status::Halted(VmError::InvalidAddress(self.r_address));
            return;
        }
        let base = self.r_address as usize;
        let mut j: usize = 0;
        while j < len
            invariant
                old(self).wf(),
                self.wf(),
                j <= len,
                len == x as int + 1,
                x < 16,
                base == old(self)@.i,
                base + len <= MEMORY_SIZE,
                self.memory@.len() == MEMORY_SIZE,
                self.memory@.subrange(0, base as int) == old(self).memory@.subrange(
                    0,
                    base as int,
                ),
                self.memory@.subrange(base as int, base + j) == old(self).v@.subrange(0, j as int),
                self.memory@.subrange(base + len, MEMORY_SIZE as int) == old(
                    self,
                ).memory@.subrange(base + len, MEMORY_SIZE as int),
                *self == (Chip8 { memory: self.memory, ..*old(self) }),
            decreases len - j,
        {
            self.memory.set(base + j, self.v[j]);
            proof {
                assert(self.memory@.subrange(0, base as int) =~= old(self).memory@.subrange(
                    0,
                    base as int,
                ));
                assert(self.memory@.subrange(base as int, base + j + 1) =~= old(self).v@.subrange(
                    0,
                    j as int + 1,
                ));
                assert(self.memory@.subrange(base + len, MEMORY_SIZE as int) =~= old(
                    self,
                ).memory@.subrange(base + len, MEMORY_SIZE as int));
            }
            j += 1;
        }
        if self.config.store_behaviour {
            self.r_address = self.r_address + len as u16;
        }
        proof {
            assert(self.memory@ =~= old(self)@.mem.subrange(0, base as int) + old(
                self,
            )@.v.subrange(0, len as int) + old(self)@.mem.subrange(
                base + len,
                MEMORY_SIZE as int,
            ));
        }
    }

    /// FX65: loads V0..=Vx from the address register, halting when the
    /// range runs past the end of memory; the store quirk decides
    /// whether I advances past the range afterwards.
    fn op_load_regs(&mut self, x: u8)
        requires
            old(self).wf(),
            x < 16,
        ensures
            final(self).wf(),
            final(self)@ == ({
                let len = x as int + 1;
                if old(self)@.i + len > MEMORY_SIZE {
                    VmView {
                        status: Status::Halted(VmError::InvalidAddress(old(self)@.i)),
                        ..old(self)@
                    }
                } else {
                    VmView {
                        v: old(self)@.mem.subrange(old(self)@.i as int, old(self)@.i + len) + old(
                            self,
                        )@.v.subrange(len, NUM_REGS as int),
                        i: if old(self)@.config.store_behaviour {
                            (old(self)@.i + len) as u16
                        } else {
                            old(self)@.i
                        },
                        ..old(self)@
                    }
                }
            }),
    {
        let len = x as usize + 1;
        if self.r_address as usize + len > MEMORY_SIZE {
            self.status = Status::Halted(VmError::InvalidAddress(self.r_address));
            return;
        }
        let base = self.r_address as usize;
        let mut j: usize = 0;
        while j < len
            invariant
                old(self).wf(),
                self.wf(),
                j <= len,
                len == x as int + 1,
                x < 16,
                base == old(self)@.i,
                base + len <= MEMORY_SIZE,
                self.v@.len() == NUM_REGS,
                forall|m: int| 0 <= m < j ==> self.v@[m] == old(self).memory@[base + m],
                forall|m: int| j <= m < NUM_REGS ==> self.v@[m] == old(self).v@[m],
                *self == (Chip8 { v: self.v, ..*old(self) }),
            decreases len - j,
        {
            self.v.set(j, self.memory[base + j]);
            j += 1;
        }
        if self.config.store_behaviour {
            self.r_address = self.r_address + len as u16;
        }
        proof {
            assert(self.v@ =~= old(self)@.mem.subrange(base as int, base + len) + old(
                self,
            )@.v.subrange(len as int, NUM_REGS as int));
        }
    }

    /// FX75: saves the leading registers into the flag register bank;
    /// the count is the opcode nibble clamped to the bank size.
    fn op_save_flags(&mut self, x: u8)
        requires
            old(self).wf(),
            x < 16,
        ensures
            final(self).wf(),
            final(self)@ == ({
                let cnt = if x < 7 {
                    x as int
                } else {
                    7
                };
                VmView {
                    flags: old(self)@.v.subrange(0, cnt) + old(self)@.flags.subrange(
                        cnt,
                        NUM_FLAGS as int,
                    ),
                    ..old(self)@
                }
            }),
    {
        let cnt: usize = if x < 7 {
            x as usize
        } else {
            7
        };
        let mut j: usize = 0;
        while j < cnt
            invariant
                old(self).wf(),
                self.wf(),
                j <= cnt,
                cnt <= 7,
                self.flag_registers@.len() == NUM_FLAGS,
                forall|m: int| 0 <= m < j ==> self.flag_registers@[m] == old(self).v@[m],
                forall|m: int|
                    j <= m < NUM_FLAGS ==> self.flag_registers@[m] == old(self).flag_registers@[m],
                *self == (Chip8 { flag_registers: self.flag_registers, ..*old(self) }),
            decreases cnt - j,
        {
            self.flag_registers.set(j, self.v[j]);
            j += 1;
        }
        proof {
            assert(self.flag_registers@ =~= old(self)@.v.subrange(0, cnt as int) + old(
                self,
            )@.flags.subrange(cnt as int, NUM_FLAGS as int));
        }
    }

    /// FX85: restores the leading registers from the flag register
    /// bank; the count is the opcode nibble clamped to the bank size.
    fn op_restore_flags(&mut self, x: u8)
        requires
            old(self).wf(),
            x < 16,
        ensures
            final(self).wf(),
            final(self)@ == ({
                let cnt = if x < 7 {
                    x as int
                } else {
                    7
                };
                VmView {
                    v: old(self)@.flags.subrange(0, cnt) + old(self)@.v.subrange(
                        cnt,
                        NUM_REGS as int,
                    ),
                    ..old(self)@
                }
            }),
    {
        let cnt: usize = if x < 7 {
            x as usize
        } else {
            7
        };
        let mut j: usize = 0;
        while j < cnt
            invariant
                old(self).wf(),
                self.wf(),
                j <= cnt,
                cnt <= 7,
                self.v@.len() == NUM_REGS,
                forall|m: int| 0 <= m < j ==> self.v@[m] == old(self).flag_registers@[m],
                forall|m: int| j <= m < NUM_REGS ==> self.v@[m] == old(self).v@[m],
                *self == (Chip8 { v: self.v, ..*old(self) }),
            decreases cnt - j,
        {
            self.v.set(j, self.flag_registers[j]);
            j += 1;
        }
        proof {
            assert(self.v@ =~= old(self)@.flags.subrange(0, cnt as int) + old(self)@.v.subrange(
                cnt as int,
                NUM_REGS as int,
            ));
        }
    }
    /// DXYN and DXY0: draws the sprite at (Vx, Vy), XORing its bits
    /// onto the window with per-pixel collision detection; VF reports
    /// whether any set cell was cleared. Halts instead when the sprite
    /// bytes would run past the end of memory.
    fn op_draw(&mut self, x: u8, y: u8, n: u8)
        requires
            old(self).wf(),
            x < 16,
            y < 16,
            n < 16,
        ensures
            final(self).wf(),
            final(self)@ == draw_view(old(self)@, x, y, n),
    {
        let sw: usize = if n == 0 {
            16
        } else {
            8
        };
        let sh: usize = if n == 0 {
            16
        } else {
            n as usize
        };
        let bpr: usize = sw / 8;
        let bytes: usize = if n == 0 {
            32
        } else {
            n as usize
        };
        let ghost sd = SpriteDraw {
            mem: self.memory@,
            i_reg: self.r_address as int,
            x0: self.v@[x as int] as int,
            y0: self.v@[y as int] as int,
            n,
            w: self.display.width as int,
            h: self.display.height as int,
            wrap: self.config.draw_behaviour,
        };
        if self.r_address as usize + bytes > MEMORY_SIZE {
            self.status = Status::Halted(VmError::InvalidSpriteAddress(self.r_address));
            return;
        }
        let x0 = self.v[x as usize] as usize;
        let y0 = self.v[y as usize] as usize;
        let wrap = self.config.draw_behaviour;
        let base = self.r_address as usize;
        let ghost g0 = self.display.cells@;
        let mut collision = false;
        proof {
            crate::sprite::lemma_draw_init(sd, g0);
        }
        let mut i: usize = 0;
        while i < sh
            invariant
                old(self).wf(),
                self.wf(),
                i <= sh,
                x < 16,
                y < 16,
                n < 16,
                sw == sd.cols(),
                sh == sd.rows(),
                bpr == sd.cols() / 8,
                bytes == sd.bytes(),
                base == sd.i_reg,
                base + sd.bytes() <= MEMORY_SIZE,
                x0 == sd.x0,
                y0 == sd.y0,
                wrap == sd.wrap,
                sd.wf(),
                sd == (SpriteDraw {
                    mem: old(self).memory@,
                    i_reg: old(self)@.i as int,
                    x0: old(self)@.v[x as int] as int,
                    y0: old(self)@.v[y as int] as int,
                    n,
                    w: old(self)@.width,
                    h: old(self)@.height,
                    wrap: old(self)@.config.draw_behaviour,
                }),
                g0 == old(self).display.cells@,
                self.display.cells@ == sd.drawn_partial(g0, i as int, 0),
                collision == sd.collides_partial(g0, i as int, 0),
                *self == (Chip8 { display: self.display, ..*old(self) }),
                self.display == (Display { cells: self.display.cells, ..old(self).display }),
            decreases sh - i,
        {
            let mut t: usize = 0;
            while t < sw
                invariant
                    old(self).wf(),
                    self.wf(),
                    i < sh,
                    t <= sw,
                    x < 16,
                    y < 16,
                    n < 16,
                    sw == sd.cols(),
                    sh == sd.rows(),
                    bpr == sd.cols() / 8,
                    bytes == sd.bytes(),
                    base == sd.i_reg,
                    base + sd.bytes() <= MEMORY_SIZE,
                    x0 == sd.x0,
                    y0 == sd.y0,
                    wrap == sd.wrap,
                    sd.wf(),
                    sd == (SpriteDraw {
                        mem: old(self).memory@,
                        i_reg: old(self)@.i as int,
                        x0: old(self)@.v[x as int] as int,
                        y0: old(self)@.v[y as int] as int,
                        n,
                        w: old(self)@.width,
                        h: old(self)@.height,
                        wrap: old(self)@.config.draw_behaviour,
                    }),
                    g0 == old(self).display.cells@,
                    self.display.cells@ == sd.drawn_partial(g0, i as int, t as int),
                    collision == sd.collides_partial(g0, i as int, t as int),
                    *self == (Chip8 { display: self.display, ..*old(self) }),
                    self.display == (Display { cells: self.display.cells, ..old(self).display }),
                decreases sw - t,
            {
                proof {
                    assert(i * bpr + t / 8 < bytes) by (nonlinear_arith)
                        requires
                            i < sh,
                            t < sw,
                            ((sw == 16usize && sh == 16usize && bytes == 32usize && bpr == 2usize)
                                || (sw == 8usize && bytes == sh && bpr == 1usize)),
                    ;
                }
                let byte = self.memory[base + i * bpr + t / 8];
                let shift: u8 = 7 - (t % 8) as u8;
                let bit = (byte >> shift) & 1 == 1;
                proof {
                    assert(bit == sd.px(i as int, t as int));
                    crate::sprite::lemma_draw_step(sd, g0, i as int, t as int);
                }
                let col = self.display.set_pixel(x0 + t, y0 + i, bit, wrap);
                collision = collision || col;
                proof {
                    assert(self.display.cells@ == sd.drawn_partial(g0, i as int, t as int + 1));
                    assert(collision == sd.collides_partial(g0, i as int, t as int + 1));
                }
                t += 1;
            }
            proof {
                crate::sprite::lemma_row_step(sd, g0, i as int);
            }
            i += 1;
        }
        proof {
            crate::sprite::lemma_draw_done(sd, g0);
        }
        self.v.set(15, if collision {
            1
        } else {
            0
        });
        proof {
            assert(self@ == draw_view(old(self)@, x, y, n));
        }
    }
    /// Whether a fetch at the current program counter is possible: a
    /// program is running and both opcode bytes lie inside memory.
    pub fn is_pc_valid(&self) -> (r: bool)
        ensures
            r == (self@.status is Running && self@.pc as int + 1 < MEMORY_SIZE),
    {
        let running = match self.status {
            Status::Running => true,
            _ => false,
        };
        running && (self.pc as usize) + 1 < MEMORY_SIZE
    }

    /// Whether the machine can execute an instruction right now: a
    /// fetch is possible and no key wait is pending.
    pub fn can_step(&self) -> (r: bool)
        ensures
            r == runnable(self@),
    {
        self.is_pc_valid() && self.waiting_key.is_none()
    }

    /// Whether the tone should be sounding: exactly while the sound
    /// timer is above zero.
    pub fn sound_on(&self) -> (r: bool)
        ensures
            r == (self@.st > 0),
    {
        self.r_sound_timer > 0
    }

    /// Counts both timers down after `elapsed_micros` microseconds of
    /// real time: each decrements by at most one when its accumulator
    /// runs out, never below zero, and the accumulator is rearmed to
    /// the full interval. Instruction throughput plays no part.
    pub fn tick_timers(&mut self, elapsed_micros: u64)
        requires
            old(self).wf(),
        ensures
            final(self).wf(),
            final(self)@ == tick_view(old(self)@, elapsed_micros),
    {
        if elapsed_micros >= self.delay_tick {
            if self.r_delay_timer > 0 {
                self.r_delay_timer = self.r_delay_timer - 1;
            }
            self.delay_tick = self.dt_interval;
        } else {
            self.delay_tick = self.delay_tick - elapsed_micros;
        }
        if elapsed_micros >= self.sound_tick {
            if self.r_sound_timer > 0 {
                self.r_sound_timer = self.r_sound_timer - 1;
            }
            self.sound_tick = self.st_interval;
        } else {
            self.sound_tick = self.sound_tick - elapsed_micros;
        }
    }

    /// The lowest pressed key, scanning from index i upward.
    fn first_pressed_from(keys: &[bool; 16], i: usize) -> (r: Option<u8>)
        requires
            i <= 16,
        ensures
            r == first_key_from(keys@, i as int),
        decreases 16 - i,
    {
        if i >= 16 {
            Option::None
        } else if keys[i] {
            Option::Some(i as u8)
        } else {
            Self::first_pressed_from(keys, i + 1)
        }
    }

    /// Delivers a key to a pending key wait: the waited-on register
    /// receives the lowest pressed key index and the wait ends. With
    /// no wait pending or no key pressed, nothing changes.
    pub fn try_consume_key(&mut self, keys: &[bool; 16])
        requires
            old(self).wf(),
        ensures
            final(self).wf(),
            final(self)@ == consume_key_view(old(self)@, keys@),
    {
        match self.waiting_key {
            Option::Some(x) => {
                match Self::first_pressed_from(keys, 0) {
                    Option::Some(k) => {
                        self.v.set(x as usize, k);
                        self.waiting_key = Option::None;
                    },
                    Option::None => {},
                }
            },
            Option::None => {},
        }
    }

    /// Executes exactly one instruction: fetches the two bytes at the
    /// program counter, advances it past them, decodes and executes.
    /// The random opcode draws a byte from the entropy source, so the
    /// outcome is pinned down up to that byte; every other instruction
    /// is deterministic in the keypad snapshot.
    pub fn step(&mut self, keys: &[bool; 16])
        requires
            old(self).wf(),
            runnable(old(self)@),
        ensures
            final(self).wf(),
            exists|b: u8| final(self)@ == #[trigger] step_view(old(self)@, keys@, b),
            !(decode_spec(
                old(self)@.mem[old(self)@.pc as int],
                old(self)@.mem[old(self)@.pc as int + 1],
            ) is Random) ==> final(self)@ == step_view(old(self)@, keys@, 0),
    {
        let hi = self.memory[self.pc as usize];
        let lo = self.memory[self.pc as usize + 1];
        self.pc = self.pc + 2;
        let ghost mid = self@;
        let instr = decode(hi, lo);
        let ghost mut rnd_used: u8 = 0;
        proof {
            crate::instr::lemma_decode_in_range(hi, lo);
            reveal(exec_view);
        }
        match instr {
            Instr::ClearScreen => {
                self.op_clear_screen();
            },
            Instr::Return => {
                self.op_return();
            },
            Instr::LowRes => {
                self.op_low_res();
            },
            Instr::HighRes => {
                self.op_high_res();
            },
            Instr::Exit => {
                self.reset_state();
            },
            Instr::ScrollRight => {
                self.display.scroll_right();
            },
            Instr::ScrollLeft => {
                self.display.scroll_left();
            },
            Instr::ScrollDown(n) => {
                self.display.scroll_down(n as usize);
            },
            Instr::Jump(a) => {
                self.pc = a;
            },
            Instr::JumpV0(a) => {
                self.pc = a + self.v[0] as u16;
            },
            Instr::Call(a) => {
                self.op_call(a);
            },
            Instr::SkipEqImm(x, nn) => {
                let cond = self.v[x as usize] == nn;
                self.op_skip_if(cond);
            },
            Instr::SkipNeImm(x, nn) => {
                let cond = self.v[x as usize] != nn;
                self.op_skip_if(cond);
            },
            Instr::SkipEqReg(x, y) => {
                let cond = self.v[x as usize] == self.v[y as usize];
                self.op_skip_if(cond);
            },
            Instr::SkipNeReg(x, y) => {
                let cond = self.v[x as usize] != self.v[y as usize];
                self.op_skip_if(cond);
            },
            Instr::LoadImm(x, nn) => {
                self.v.set(x as usize, nn);
            },
            Instr::AddImm(x, nn) => {
                let sum: u16 = self.v[x as usize] as u16 + nn as u16;
                self.v.set(x as usize, (sum % 256) as u8);
            },
            Instr::Move(x, y) => {
                let val = self.v[y as usize];
                self.v.set(x as usize, val);
            },
            Instr::Or(x, y) => {
                let val = self.v[x as usize] | self.v[y as usize];
                self.v.set(x as usize, val);
            },
            Instr::And(x, y) => {
                let val = self.v[x as usize] & self.v[y as usize];
                self.v.set(x as usize, val);
            },
            Instr::Xor(x, y) => {
                let val = self.v[x as usize] ^ self.v[y as usize];
                self.v.set(x as usize, val);
            },
            Instr::Add(x, y) => {
                self.op_add(x, y);
            },
            Instr::Sub(x, y) => {
                self.op_sub_into(x, x, y);
            },
            Instr::SubN(x, y) => {
                self.op_sub_into(x, y, x);
            },
            Instr::ShiftRight(x, y) => {
                self.op_shift_right(x, y);
            },
            Instr::ShiftLeft(x, y) => {
                self.op_shift_left(x, y);
            },
            Instr::LoadI(a) => {
                self.r_address = a;
            },
            Instr::Random(x, nn) => {
                self.op_random(x, nn);
                proof {
                    let b = choose|b: u8|
                        self@ == (VmView { v: mid.v.update(x as int, #[trigger] (b & nn)), ..mid });
                    rnd_used = b;
                }
            },
            Instr::Draw(x, y, n) => {
                self.op_draw(x, y, n);
            },
            Instr::SkipKey(x) => {
                let cond = keys[(self.v[x as usize] % 16) as usize];
                self.op_skip_if(cond);
            },
            Instr::SkipNoKey(x) => {
                let cond = !keys[(self.v[x as usize] % 16) as usize];
                self.op_skip_if(cond);
            },
            Instr::ReadDelay(x) => {
                let val = self.r_delay_timer;
                self.v.set(x as usize, val);
            },
            Instr::SetDelay(x) => {
                self.r_delay_timer = self.v[x as usize];
                self.delay_tick = self.dt_interval;
            },
            Instr::SetSound(x) => {
                self.r_sound_timer = self.v[x as usize];
                self.sound_tick = self.st_interval;
            },
            Instr::WaitKey(x) => {
                self.waiting_key = Option::Some(x);
            },
            Instr::AddI(x) => {
                self.op_add_i(x);
            },
            Instr::SmallFont(x) => {
                let d = if self.v[x as usize] < 15 {
                    self.v[x as usize]
                } else {
                    15
                };
                self.r_address = d as u16 * 5;
            },
            Instr::LargeFont(x) => {
                let d = if self.v[x as usize] < 9 {
                    self.v[x as usize]
                } else {
                    9
                };
                self.r_address = SMALL_FONT_BYTES as u16 + d as u16 * 10;
            },
            Instr::StoreBcd(x) => {
                self.op_store_bcd(x);
            },
            Instr::StoreRegs(x) => {
                self.op_store_regs(x);
            },
            Instr::LoadRegs(x) => {
                self.op_load_regs(x);
            },
            Instr::SaveFlags(x) => {
                self.op_save_flags(x);
            },
            Instr::RestoreFlags(x) => {
                self.op_restore_flags(x);
            },
            Instr::Unknown(a, b) => {
                self.status = Status::Halted(VmError::UnknownOpcode(a, b));
            },
        }
        proof {
            reveal(exec_view);
            assert(self@ == exec_view(mid, instr, keys@, rnd_used));
            assert(self@ == step_view(old(self)@, keys@, rnd_used));
        }
    }
    /// Runs one frame: delivers a pending key wait if a key is down,
    /// then executes up to `cycles_per_frame` instructions, stopping
    /// early once the machine halts, starts waiting on a key, or runs
    /// its program counter out of range. The entropy bytes drawn by
    /// random opcodes along the way are existentially quantified.
    pub fn run_frame(&mut self, keys: &[bool; 16])
        requires
            old(self).wf(),
        ensures
            final(self).wf(),
            exists|rnds: Seq<u8>|
                rnds.len() == old(self)@.cycles_per_frame && final(self)@ == #[trigger] run_steps(
                    consume_key_view(old(self)@, keys@),
                    keys@,
                    rnds,
                    old(self)@.cycles_per_frame as nat,
                ),
    {
        self.try_consume_key(keys);
        let ghost s0 = self@;
        let n = self.cycles_per_frame;
        let ghost mut rnds: Seq<u8> = Seq::empty();
        let mut c: u32 = 0;
        while c < n
            invariant
                self.wf(),
                c <= n,
                rnds.len() == c,
                self@ == run_steps(s0, keys@, rnds, c as nat),
            decreases n - c,
        {
            let ghost prev = self@;
            let ghost prev_rnds = rnds;
            if self.can_step() {
                self.step(keys);
                proof {
                    let b = choose|b: u8| self@ == #[trigger] step_view(prev, keys@, b);
                    rnds = prev_rnds.push(b);
                    lemma_run_steps_snoc(s0, keys@, prev_rnds, b, c as nat);
                }
            } else {
                proof {
                    rnds = prev_rnds.push(0);
                    lemma_run_steps_snoc(s0, keys@, prev_rnds, 0, c as nat);
                }
            }
            c = c + 1;
        }
    }

    /// A fixed description of the current status, for display to the
    /// user beside whatever detail the driver formats from the error
    /// payload.
    pub fn status_message(&self) -> (r: &'static str)
        ensures
            r@ == status_message_spec(self@.status),
    {
        match self.status {
            Status::NoRomLoaded => "waiting for a program",
            Status::Running => "running",
            Status::Halted(VmError::RomTooLarge) => "invalid rom: it does not fit in memory",
            Status::Halted(VmError::RomReadFailure) => "the rom could not be read",
            Status::Halted(VmError::UnknownOpcode(_, _)) => "unknown instruction",
            Status::Halted(VmError::StackOverflow) => "cannot push the stack: stack overflow",
            Status::Halted(VmError::StackUnderflow) => "cannot pop the stack before pushing it",
            Status::Halted(VmError::InvalidSpriteAddress(_)) => "cannot draw sprite: invalid address register",
            Status::Halted(VmError::InvalidAddress(_)) => "cannot access memory: invalid address register",
        }
    }
}

/// The fixed description `status_message` returns for each status.
pub open spec fn status_message_spec(st: Status) -> Seq<char> {
    match st {
        Status::NoRomLoaded => "waiting for a program"@,
        Status::Running => "running"@,
        Status::Halted(e) => match e {
            VmError::RomTooLarge => "invalid rom: it does not fit in memory"@,
            VmError::RomReadFailure => "the rom could not be read"@,
            VmError::UnknownOpcode(hi, lo) => "unknown instruction"@,
            VmError::StackOverflow => "cannot push the stack: stack overflow"@,
            VmError::StackUnderflow => "cannot pop the stack before pushing it"@,
            VmError::InvalidSpriteAddress(a) => "cannot draw sprite: invalid address register"@,
            VmError::InvalidAddress(a) => "cannot access memory: invalid address register"@,
        },
    }
}

} // verus!
