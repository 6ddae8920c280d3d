//! Machine-checked laws relating the public operations: clearing really
//! darkens every pixel, a call and its return round-trip the program
//! counter, and the timer tick drives the tone exactly one frame behind the
//! sound timer.

use vstd::prelude::*;
use crate::cpu::{Cpu, cpu_wf, spec_execute, spec_tick, wrap_pc, BeepAction};
use crate::decode::{Instr, spec_decode};
use crate::display::screen_get;

verus! {

/// After CLS, every coordinate of the whole grid reads as dark, whatever
/// the screen held before.
pub proof fn lemma_cls_clears(c: Cpu, rnd: u8, x: int, y: int)
    requires
        cpu_wf(c),
    ensures
        spec_execute(c, 0x00E0, rnd) is Ok,
        !screen_get(spec_execute(c, 0x00E0, rnd)->Ok_0.screen, x, y),
{
    assert(spec_decode(0x00E0) == Instr::Cls);
}

/// A CALL followed at once by a RET restores the program counter to the
/// instruction after the CALL and the stack pointer to its old value.
pub proof fn lemma_call_ret_round_trip(c: Cpu, w: u16, rnd1: u8, rnd2: u8)
    requires
        cpu_wf(c),
        c.sp < 15,
        spec_decode(w) is Call,
    ensures
        spec_execute(c, w, rnd1) is Ok,
        spec_execute(c, w, rnd1)->Ok_0.pc == spec_decode(w)->Call_0,
        spec_execute(spec_execute(c, w, rnd1)->Ok_0, 0x00EE, rnd2) is Ok,
        spec_execute(spec_execute(c, w, rnd1)->Ok_0, 0x00EE, rnd2)->Ok_0.pc == wrap_pc(c.pc, 2),
        spec_execute(spec_execute(c, w, rnd1)->Ok_0, 0x00EE, rnd2)->Ok_0.sp == c.sp,
{
    assert(spec_decode(0x00EE) == Instr::Ret);
    let c1 = spec_execute(c, w, rnd1)->Ok_0;
    assert(c1.stack[c1.sp as int] == wrap_pc(c.pc, 2));
}

/// One tick reports `Start` exactly while the sound timer runs, so a timer
/// of one yields one `Start` and, on the following tick, the `Stop` that
/// silences the tone; a timer at zero yields `Stop` on every tick and never
/// a `Start`.
pub proof fn lemma_sound_timer_drives_tone(c: Cpu)
    ensures
        spec_tick(c).1 == BeepAction::Start <==> c.sound > 0,
        c.sound == 1 ==> spec_tick(c).0.sound == 0 && spec_tick(spec_tick(c).0).1
            == BeepAction::Stop,
        c.sound == 0 ==> spec_tick(c).0.sound == 0 && spec_tick(c).1 == BeepAction::Stop,
{
}

} // verus!
