//! Laws of the instruction set: properties that relate several
//! instructions or several executions, stated over the same spec-level
//! machine that every contract uses, and proved once and for all.

use vstd::prelude::*;
use crate::display::{scroll_left_spec, scroll_right_spec, blank_grid, GRID_HEIGHT, GRID_WIDTH, LOW_HEIGHT, LOW_WIDTH};
use crate::instr::{decode_spec, Instr};
use crate::sprite::SpriteDraw;
use crate::vm::{
    draw_view, exec_view, tick_view, view_wf, Status, VmError, VmView, MEMORY_SIZE,
};

verus! {

/// Loading an immediate and then adding zero to the same register is
/// the identity on the whole machine: for every NN, a load of NN
/// followed by an add of zero leaves the register holding NN and the
/// state exactly as after the load.
pub proof fn lemma_add_zero_identity(s: VmView, keys: Seq<bool>, r: u8, x: u8, nn: u8)
    requires
        view_wf(s),
        x < 16,
    ensures
        decode_spec((0x60 + x) as u8, nn) == Instr::LoadImm(x, nn),
        decode_spec((0x70 + x) as u8, 0) == Instr::AddImm(x, 0),
        ({
            let s1 = exec_view(s, Instr::LoadImm(x, nn), keys, r);
            let s2 = exec_view(s1, Instr::AddImm(x, 0), keys, r);
            s1.v[x as int] == nn && s2 == s1
        }),
{
    reveal(exec_view);
    let s1 = exec_view(s, Instr::LoadImm(x, nn), keys, r);
    let s2 = exec_view(s1, Instr::AddImm(x, 0), keys, r);
    assert(s1.v[x as int] == nn);
    assert(s1.v.update(x as int, ((s1.v[x as int] + 0) % 256) as u8) =~= s1.v);
    assert(s2 == s1);
}

/// The add opcode sets VF to 1 exactly when the unsigned sum of the
/// two registers exceeds 255, and stores the sum modulo 256.
pub proof fn lemma_add_carry(s: VmView, keys: Seq<bool>, r: u8, x: u8, y: u8)
    requires
        view_wf(s),
        x < 16,
        y < 16,
    ensures
        ({
            let s2 = exec_view(s, Instr::Add(x, y), keys, r);
            let sum = s.v[x as int] + s.v[y as int];
            &&& s2.v[15] == (if sum > 255 {
                1u8
            } else {
                0u8
            })
            &&& (x != 15 ==> s2.v[x as int] == sum % 256)
        }),
{
    reveal(exec_view);
}

/// The subtract opcode sets VF to 1 exactly when no borrow is needed
/// (the minuend is at least the subtrahend), and stores the
/// difference modulo 256.
pub proof fn lemma_sub_borrow(s: VmView, keys: Seq<bool>, r: u8, x: u8, y: u8)
    requires
        view_wf(s),
        x < 16,
        y < 16,
    ensures
        ({
            let s2 = exec_view(s, Instr::Sub(x, y), keys, r);
            &&& s2.v[15] == (if s.v[x as int] >= s.v[y as int] {
                1u8
            } else {
                0u8
            })
            &&& (x != 15 ==> s2.v[x as int] == (s.v[x as int] - s.v[y as int]) % 256)
        }),
{
    reveal(exec_view);
}

/// The shift quirk: with it enabled the right shift reads Vy (the
/// shifted value and the ejected bit both come from Vy); with it
/// disabled the opcode ignores Vy entirely and shifts Vx in place, so
/// it acts exactly as if Vx were named twice.
pub proof fn lemma_shift_quirk(s: VmView, keys: Seq<bool>, r: u8, x: u8, y: u8)
    requires
        view_wf(s),
        x < 16,
        y < 16,
    ensures
        s.config.shift_behaviour && x != 15 && y != 15 ==> ({
            let s2 = exec_view(s, Instr::ShiftRight(x, y), keys, r);
            s2.v[x as int] == s.v[y as int] / 2 && s2.v[15] == s.v[y as int] % 2
        }),
        !s.config.shift_behaviour ==> exec_view(s, Instr::ShiftRight(x, y), keys, r) == exec_view(
            s,
            Instr::ShiftRight(x, x),
            keys,
            r,
        ),
        !s.config.shift_behaviour && x != 15 ==> ({
            let s2 = exec_view(s, Instr::ShiftRight(x, y), keys, r);
            s2.v[x as int] == s.v[x as int] / 2 && s2.v[15] == s.v[x as int] % 2
        }),
{
    reveal(exec_view);
}

/// XOR idempotence of sprite drawing: drawing the same sprite twice
/// over the same state restores every cell, and the second draw
/// collides exactly when the first draw set some cell from off to on.
pub proof fn lemma_draw_twice_grid(sd: SpriteDraw, g: Seq<bool>)
    requires
        sd.wf(),
        g.len() == 8192,
    ensures
        sd.drawn(sd.drawn(g)) == g,
        sd.collides(sd.drawn(g)) == exists|k: int| 0 <= k < 8192 && #[trigger] sd.flips(k) && !g[k],
{
    assert(sd.drawn(sd.drawn(g)) =~= g);
    if sd.collides(sd.drawn(g)) {
        let kw = choose|k: int| 0 <= k < 8192 && #[trigger] sd.flips(k) && sd.drawn(g)[k];
        assert(sd.flips(kw) && !g[kw]);
    }
    if exists|k: int| 0 <= k < 8192 && #[trigger] sd.flips(k) && !g[k] {
        let kw = choose|k: int| 0 <= k < 8192 && #[trigger] sd.flips(k) && !g[k];
        assert(sd.drawn(g)[kw]);
        assert(sd.collides(sd.drawn(g)));
    }
}

/// The same, at the machine level: executing the same draw twice (the
/// named registers not being VF, which the draw overwrites) restores
/// the display, and the second VF says whether the first draw set any
/// cell.
pub proof fn lemma_draw_twice(s: VmView, x: u8, y: u8, n: u8)
    requires
        view_wf(s),
        x < 16,
        y < 16,
        n < 16,
        x != 15,
        y != 15,
        s.i + (if n == 0 {
            32int
        } else {
            n as int
        }) <= MEMORY_SIZE,
    ensures
        ({
            let sd = SpriteDraw {
                mem: s.mem,
                i_reg: s.i as int,
                x0: s.v[x as int] as int,
                y0: s.v[y as int] as int,
                n,
                w: s.width,
                h: s.height,
                wrap: s.config.draw_behaviour,
            };
            let s1 = draw_view(s, x, y, n);
            let s2 = draw_view(s1, x, y, n);
            &&& s2.grid == s.grid
            &&& s2.v[15] == (if exists|k: int| 0 <= k < 8192 && #[trigger] sd.flips(k)
                && !s.grid[k] {
                1u8
            } else {
                0u8
            })
        }),
{
    let sd = SpriteDraw {
        mem: s.mem,
        i_reg: s.i as int,
        x0: s.v[x as int] as int,
        y0: s.v[y as int] as int,
        n,
        w: s.width,
        h: s.height,
        wrap: s.config.draw_behaviour,
    };
    let s1 = draw_view(s, x, y, n);
    let sd1 = SpriteDraw {
        mem: s1.mem,
        i_reg: s1.i as int,
        x0: s1.v[x as int] as int,
        y0: s1.v[y as int] as int,
        n,
        w: s1.width,
        h: s1.height,
        wrap: s1.config.draw_behaviour,
    };
    assert(sd1 == sd);
    lemma_draw_twice_grid(sd, s.grid);
}

/// Scrolling right by 4 and then left by 4 restores every window cell
/// except the rightmost four columns, which were shifted off-screen by
/// the first scroll and come back cleared; cells outside the window
/// never change.
pub proof fn lemma_scroll_round_trip(g: Seq<bool>, w: int, h: int)
    requires
        g.len() == 8192,
        (w == LOW_WIDTH && h == LOW_HEIGHT) || (w == GRID_WIDTH && h == GRID_HEIGHT),
    ensures
        scroll_left_spec(scroll_right_spec(g, w, h), w, h) == Seq::new(8192, |k: int| {
            let r = k / 128;
            let c = k % 128;
            if r < h && c < w && c >= w - 4 {
                false
            } else {
                g[k]
            }
        }),
{
    assert(scroll_left_spec(scroll_right_spec(g, w, h), w, h) =~= Seq::new(8192, |k: int| {
        let r = k / 128;
        let c = k % 128;
        if r < h && c < w && c >= w - 4 {
            false
        } else {
            g[k]
        }
    }));
}

/// Bulk store then bulk load from the same address round-trips: with
/// the store quirk off, storing V0..=Vx at I and loading V0..=Vx back
/// leaves every register and the address register as they were.
pub proof fn lemma_store_load_round_trip(s: VmView, keys: Seq<bool>, r: u8, x: u8)
    requires
        view_wf(s),
        x < 16,
        !s.config.store_behaviour,
        s.i + x as int + 1 <= MEMORY_SIZE,
    ensures
        ({
            let s1 = exec_view(s, Instr::StoreRegs(x), keys, r);
            let s2 = exec_view(s1, Instr::LoadRegs(x), keys, r);
            s2.v == s.v && s2.i == s.i
        }),
{
    reveal(exec_view);
    let len = x as int + 1;
    let s1 = exec_view(s, Instr::StoreRegs(x), keys, r);
    let s2 = exec_view(s1, Instr::LoadRegs(x), keys, r);
    assert(s1.mem.subrange(s.i as int, s.i + len) =~= s.v.subrange(0, len));
    assert(s2.v =~= s.v);
}

/// With the store quirk on, each bulk store and each bulk load
/// advances the address register by exactly the number of registers
/// moved.
pub proof fn lemma_store_quirk_advances(s: VmView, keys: Seq<bool>, r: u8, x: u8)
    requires
        view_wf(s),
        x < 16,
        s.config.store_behaviour,
        s.i + x as int + 1 <= MEMORY_SIZE,
    ensures
        exec_view(s, Instr::StoreRegs(x), keys, r).i == s.i + x as int + 1,
        exec_view(s, Instr::LoadRegs(x), keys, r).i == s.i + x as int + 1,
{
    reveal(exec_view);
}

/// Timer countdown is bound to real time alone: two machines that
/// agree on everything but their instruction throughput tick their
/// timers identically over the same elapsed time.
pub proof fn lemma_tick_rate_independent(s1: VmView, s2: VmView, elapsed: u64)
    requires
        s1 == (VmView { cycles_per_frame: s1.cycles_per_frame, ..s2 }),
    ensures
        tick_view(s1, elapsed) == (VmView {
            cycles_per_frame: s1.cycles_per_frame,
            ..tick_view(s2, elapsed)
        }),
{
}

/// Stack discipline: a call with all slots in use halts with a stack
/// overflow, and a return with no call outstanding halts with a stack
/// underflow; no silent wrap ever happens.
pub proof fn lemma_stack_discipline(s: VmView, keys: Seq<bool>, r: u8, a: u16)
    requires
        view_wf(s),
    ensures
        s.sp == 16 ==> exec_view(s, Instr::Call(a), keys, r).status == Status::Halted(
            VmError::StackOverflow,
        ),
        s.sp < 16 ==> exec_view(s, Instr::Call(a), keys, r).status == s.status && exec_view(
            s,
            Instr::Call(a),
            keys,
            r,
        ).sp == s.sp + 1,
        s.sp == 0 ==> exec_view(s, Instr::Return, keys, r).status == Status::Halted(
            VmError::StackUnderflow,
        ),
        s.sp > 0 ==> exec_view(s, Instr::Return, keys, r).status == s.status && exec_view(
            s,
            Instr::Return,
            keys,
            r,
        ).sp == s.sp - 1,
{
    reveal(exec_view);
}

/// Each resolution switch clears the display and sets the window to
/// its own size, so a draw after the switch starts from a blank
/// window of that size.
pub proof fn lemma_resolution_switch_clears(s: VmView, keys: Seq<bool>, r: u8)
    requires
        view_wf(s),
    ensures
        exec_view(s, Instr::HighRes, keys, r) == (VmView {
            grid: blank_grid(),
            width: GRID_WIDTH as int,
            height: GRID_HEIGHT as int,
            ..s
        }),
        exec_view(s, Instr::LowRes, keys, r) == (VmView {
            grid: blank_grid(),
            width: LOW_WIDTH as int,
            height: LOW_HEIGHT as int,
            ..s
        }),
{
    reveal(exec_view);
}

} // verus!
