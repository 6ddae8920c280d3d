//! The CHIP-8 CPU: memory image builder, machine state, timer coordinator
//! and the opcode executor, each proved against a specification-level
//! transition function.

use vstd::prelude::*;
use vstd::arithmetic::div_mod::lemma_fundamental_div_mod;
use crate::decode::{Instr, decode, spec_decode, lemma_field_bounds};
use crate::display::Display;
use crate::{ExecutionError, LoadError};

verus! {

/// The built-in font: sixteen glyphs of five bytes each, placed at address 0.
pub open spec fn spec_fontset() -> Seq<u8> {
    seq![
        0xF0u8, 0x90, 0x90, 0x90, 0xF0,
        0x20, 0x60, 0x20, 0x20, 0x70,
        0xF0, 0x10, 0xF0, 0x80, 0xF0,
        0xF0, 0x10, 0xF0, 0x10, 0xF0,
        0x90, 0x90, 0xF0, 0x10, 0x10,
        0xF0, 0x80, 0xF0, 0x10, 0xF0,
        0xF0, 0x80, 0xF0, 0x90, 0xF0,
        0xF0, 0x10, 0x20, 0x40, 0x40,
        0xF0, 0x90, 0xF0, 0x90, 0xF0,
        0xF0, 0x90, 0xF0, 0x10, 0xF0,
        0xF0, 0x90, 0xF0, 0x90, 0x90,
        0xE0, 0x90, 0xE0, 0x90, 0xE0,
        0xF0, 0x80, 0x80, 0x80, 0xF0,
        0xE0, 0x90, 0x90, 0x90, 0xE0,
        0xF0, 0x80, 0xF0, 0x80, 0xF0,
        0xF0, 0x80, 0xF0, 0x80, 0x80,
    ]
}

/// The built-in font as bytes.
pub fn fontset() -> (v: Vec<u8>)
    ensures
        v@ == spec_fontset(),
{
    let v = vec![
        0xF0u8, 0x90, 0x90, 0x90, 0xF0,
        0x20, 0x60, 0x20, 0x20, 0x70,
        0xF0, 0x10, 0xF0, 0x80, 0xF0,
        0xF0, 0x10, 0xF0, 0x10, 0xF0,
        0x90, 0x90, 0xF0, 0x10, 0x10,
        0xF0, 0x80, 0xF0, 0x10, 0xF0,
        0xF0, 0x80, 0xF0, 0x90, 0xF0,
        0xF0, 0x10, 0x20, 0x40, 0x40,
        0xF0, 0x90, 0xF0, 0x90, 0xF0,
        0xF0, 0x90, 0xF0, 0x10, 0xF0,
        0xF0, 0x90, 0xF0, 0x90, 0x90,
        0xE0, 0x90, 0xE0, 0x90, 0xE0,
        0xF0, 0x80, 0x80, 0x80, 0xF0,
        0xE0, 0x90, 0x90, 0x90, 0xE0,
        0xF0, 0x80, 0xF0, 0x80, 0xF0,
        0xF0, 0x80, 0xF0, 0x80, 0x80,
    ];
    proof {
        assert(v@ =~= spec_fontset());
    }
    v
}

/// What the tone generator must do after a timer tick.
#[derive(Debug, Clone, Copy, PartialEq, Eq, Structural)]
pub enum BeepAction {
    /// The sound timer is running: the tone must be playing.
    Start,
    /// The sound timer has reached zero: the tone must be silent.
    Stop,
}

/// The mathematical model of the machine state.
#[verifier::ext_equal]
pub ghost struct Cpu {
    /// The 4096-byte address space.
    pub mem: Seq<u8>,
    /// The 16 stacked return addresses; entries above `sp` are dead.
    pub stack: Seq<u16>,
    /// The 16 general-purpose registers; index 15 is the flag register VF.
    pub v: Seq<u8>,
    /// The index register I.
    pub i: u16,
    /// The sound timer.
    pub sound: u8,
    /// The delay timer.
    pub delay: u8,
    /// The program counter.
    pub pc: u16,
    /// The stack pointer: index of the last pushed entry, 0 when empty.
    pub sp: u8,
    /// The framebuffer, row-major 64x32.
    pub screen: Seq<bool>,
    /// Whether the last executed opcode requires a redraw.
    pub draw: bool,
}

/// Dimensions and stack discipline of a valid machine state.
pub open spec fn cpu_wf(c: Cpu) -> bool {
    &&& c.mem.len() == 4096
    &&& c.stack.len() == 16
    &&& c.v.len() == 16
    &&& c.screen.len() == 2048
    &&& c.sp <= 15
}

/// The CHIP-8 machine state.
pub struct Chip8 {
    /// The 4096-byte address space.
    pub memory: Vec<u8>,
    /// The 16 stacked return addresses.
    pub stack: Vec<u16>,
    /// The 16 general-purpose registers; index 15 is the flag register VF.
    pub v: Vec<u8>,
    /// The index register I.
    pub i: u16,
    /// The sound timer.
    pub sound_reg: u8,
    /// The delay timer.
    pub delay_reg: u8,
    /// The program counter.
    pub pc: u16,
    /// The stack pointer: index of the last pushed entry, 0 when empty.
    pub sp: u8,
    /// The framebuffer.
    pub display: Display,
    /// Whether the last executed opcode requires a redraw.
    pub draw_screen: bool,
}

impl View for Chip8 {
    type V = Cpu;

    open spec fn view(&self) -> Cpu {
        Cpu {
            mem: self.memory@,
            stack: self.stack@,
            v: self.v@,
            i: self.i,
            sound: self.sound_reg,
            delay: self.delay_reg,
            pc: self.pc,
            sp: self.sp,
            screen: self.display.pixels@,
            draw: self.draw_screen,
        }
    }
}

/// The program counter advanced by `k`, wrapping at the 16-bit boundary.
pub open spec fn wrap_pc(pc: u16, k: u16) -> u16 {
    ((pc + k) % 0x10000) as u16
}

/// A nonnegative value reduced to one byte.
pub open spec fn wrap_byte(n: int) -> u8 {
    (n % 256) as u8
}

/// The 16-bit big-endian instruction word at the program counter.
pub open spec fn spec_fetch(c: Cpu) -> u16 {
    (c.mem[c.pc as int] * 256 + c.mem[c.pc as int + 1]) as u16
}

/// The memory image for a program: font at 0, program at 0x200, zero elsewhere.
pub open spec fn spec_mem_image(prog: Seq<u8>) -> Seq<u8> {
    Seq::new(
        4096,
        |a: int|
            if a < 80 {
                spec_fontset()[a]
            } else if a < 512 {
                0u8
            } else if a - 512 < prog.len() {
                prog[a - 512]
            } else {
                0u8
            },
    )
}

/// The machine state right after loading a program.
pub open spec fn spec_boot(prog: Seq<u8>) -> Cpu {
    Cpu {
        mem: spec_mem_image(prog),
        stack: Seq::new(16, |j: int| 0u16),
        v: Seq::new(16, |j: int| 0u8),
        i: 0,
        sound: 0,
        delay: 0,
        pc: 0x200,
        sp: 0,
        screen: Seq::new(2048, |j: int| false),
        draw: false,
    }
}

/// One timer tick: the new state and the action owed to the tone generator.
/// The stop case is decided before the sound timer is decremented, so the
/// tick on which it reaches zero still reports `Start`, and the next one
/// silences the tone.
pub open spec fn spec_tick(c: Cpu) -> (Cpu, BeepAction) {
    let delay = if c.delay > 0 {
        (c.delay - 1) as u8
    } else {
        0u8
    };
    if c.sound == 0 {
        (Cpu { delay, ..c }, BeepAction::Stop)
    } else {
        (Cpu { delay, sound: (c.sound - 1) as u8, ..c }, BeepAction::Start)
    }
}

/// Horizontal sprite offset of a pixel column `px` relative to start `sx`,
/// wrapping at the right edge.
pub open spec fn dx_of(px: int, sx: int) -> int {
    if px >= sx {
        px - sx
    } else {
        px + 64 - sx
    }
}

/// Vertical sprite offset of a pixel row `py` relative to start `sy`,
/// wrapping at the bottom edge.
pub open spec fn dy_of(py: int, sy: int) -> int {
    if py >= sy {
        py - sy
    } else {
        py + 32 - sy
    }
}

/// Bit `b` (0 = leftmost pixel) of one sprite row byte.
pub open spec fn sprite_bit(byte: u8, b: int) -> bool {
    (byte >> ((7 - b) as u8)) & 1u8 == 1u8
}

/// Sprite row `r` read from memory at I + r, wrapping within the address space.
pub open spec fn drw_row_byte(c: Cpu, r: int) -> u8 {
    c.mem[(c.i + r) % 4096]
}

/// Whether pixel `idx` lies under an `n`-row sprite started at (sx, sy).
pub open spec fn drw_covered(sx: int, sy: int, n: int, idx: int) -> bool {
    dy_of(idx / 64, sy) < n && dx_of(idx % 64, sx) < 8
}

/// The sprite bit that falls on pixel `idx`.
pub open spec fn drw_bit(c: Cpu, sx: int, sy: int, idx: int) -> bool {
    sprite_bit(drw_row_byte(c, dy_of(idx / 64, sy)), dx_of(idx % 64, sx))
}

/// Whether pixel `idx` falls before position (rr, bb) in sprite drawing
/// order: all of rows below `rr`, then bits below `bb` of row `rr`.
pub open spec fn drw_done(sx: int, sy: int, rr: int, bb: int, idx: int) -> bool {
    let r = dy_of(idx / 64, sy);
    let b = dx_of(idx % 64, sx);
    r < rr || (r == rr && b < bb)
}

/// Pixel `idx` after the sprite rows up to position (rr, bb) have been
/// XORed onto the screen of `c`.
pub open spec fn drw_partial_pixel(
    c: Cpu,
    sx: int,
    sy: int,
    n: int,
    rr: int,
    bb: int,
    idx: int,
) -> bool {
    if drw_covered(sx, sy, n, idx) && drw_done(sx, sy, rr, bb, idx) && drw_bit(c, sx, sy, idx) {
        !c.screen[idx]
    } else {
        c.screen[idx]
    }
}

/// Whether pixel `idx` is erased by the sprite: covered, lit, and its
/// sprite bit set.
pub open spec fn drw_hit(c: Cpu, sx: int, sy: int, n: int, idx: int) -> bool {
    drw_covered(sx, sy, n, idx) && drw_bit(c, sx, sy, idx) && c.screen[idx]
}

/// Whether any pixel before position (rr, bb) in drawing order is erased.
pub open spec fn drw_partial_collision(
    c: Cpu,
    sx: int,
    sy: int,
    n: int,
    rr: int,
    bb: int,
) -> bool {
    exists|idx: int|
        0 <= idx < 2048 && drw_done(sx, sy, rr, bb, idx) && #[trigger] drw_hit(c, sx, sy, n, idx)
}

/// The screen after an `n`-row sprite at (sx, sy) has been XORed on whole.
pub open spec fn drw_screen(c: Cpu, sx: int, sy: int, n: int) -> Seq<bool> {
    Seq::new(2048, |idx: int| drw_partial_pixel(c, sx, sy, n, n, 0, idx))
}

/// Whether the whole sprite erases any pixel.
pub open spec fn drw_collision(c: Cpu, sx: int, sy: int, n: int) -> bool {
    drw_partial_collision(c, sx, sy, n, n, 0)
}

/// The state after a sprite-draw opcode: the sprite XORed onto the screen
/// starting at (Vx mod 64, Vy mod 32), VF set to the collision flag.
pub open spec fn spec_drw(c: Cpu, x: u16, y: u16, n: u16) -> Cpu {
    let sx = (c.v[x as int] % 64) as int;
    let sy = (c.v[y as int] % 32) as int;
    let vf: u8 = if drw_collision(c, sx, sy, n as int) {
        1
    } else {
        0
    };
    Cpu {
        screen: drw_screen(c, sx, sy, n as int),
        v: c.v.update(15, vf),
        pc: wrap_pc(c.pc, 2),
        draw: true,
        ..c
    }
}

/// The effect of one instruction word on the machine state, or the error
/// that halts execution.  `rnd` is the byte the random source supplies to
/// the Cxkk opcode; every other opcode ignores it.  The `draw` field of the
/// result says whether this very instruction requires a redraw.
pub open spec fn spec_execute(c: Cpu, w: u16, rnd: u8) -> Result<Cpu, ExecutionError> {
    match spec_decode(w) {
        Instr::Cls => Ok(
            Cpu { screen: Seq::new(2048, |j: int| false), pc: wrap_pc(c.pc, 2), draw: true, ..c },
        ),
        Instr::Ret => if c.sp == 0 {
            Err(ExecutionError::StackUnderflow)
        } else {
            Ok(Cpu { pc: c.stack[c.sp as int], sp: (c.sp - 1) as u8, draw: false, ..c })
        },
        Instr::Jp(a) => Ok(Cpu { pc: a, draw: false, ..c }),
        Instr::Call(a) => if c.sp >= 15 {
            Err(ExecutionError::StackOverflow)
        } else {
            Ok(
                Cpu {
                    sp: (c.sp + 1) as u8,
                    stack: c.stack.update(c.sp + 1, wrap_pc(c.pc, 2)),
                    pc: a,
                    draw: false,
                    ..c
                },
            )
        },
        Instr::SeByte(x, k) => Ok(
            Cpu {
                pc: wrap_pc(c.pc, if c.v[x as int] == k { 4 } else { 2 }),
                draw: false,
                ..c
            },
        ),
        Instr::SneByte(x, k) => Ok(
            Cpu {
                pc: wrap_pc(c.pc, if c.v[x as int] != k { 4 } else { 2 }),
                draw: false,
                ..c
            },
        ),
        Instr::SeReg(x, y) => Ok(
            Cpu {
                pc: wrap_pc(c.pc, if c.v[x as int] == c.v[y as int] { 4 } else { 2 }),
                draw: false,
                ..c
            },
        ),
        Instr::LdByte(x, k) => Ok(
            Cpu { v: c.v.update(x as int, k), pc: wrap_pc(c.pc, 2), draw: false, ..c },
        ),
        Instr::AddByte(x, k) => Ok(
            Cpu {
                v: c.v.update(x as int, wrap_byte(c.v[x as int] + k)),
                pc: wrap_pc(c.pc, 2),
                draw: false,
                ..c
            },
        ),
        Instr::LdReg(x, y) => Ok(
            Cpu { v: c.v.update(x as int, c.v[y as int]), pc: wrap_pc(c.pc, 2), draw: false, ..c },
        ),
        Instr::Or(x, y) => Ok(
            Cpu {
                v: c.v.update(x as int, c.v[x as int] | c.v[y as int]),
                pc: wrap_pc(c.pc, 2),
                draw: false,
                ..c
            },
        ),
        Instr::And(x, y) => Ok(
            Cpu {
                v: c.v.update(x as int, c.v[x as int] & c.v[y as int]),
                pc: wrap_pc(c.pc, 2),
                draw: false,
                ..c
            },
        ),
        Instr::Xor(x, y) => Ok(
            Cpu {
                v: c.v.update(x as int, c.v[x as int] ^ c.v[y as int]),
                pc: wrap_pc(c.pc, 2),
                draw: false,
                ..c
            },
        ),
        Instr::AddReg(x, y) => {
            let sum = c.v[x as int] + c.v[y as int];
            let v1 = c.v.update(x as int, wrap_byte(sum));
            let v2 = v1.update(15, if sum > 255 { 1u8 } else { 0u8 });
            Ok(Cpu { v: v2, pc: wrap_pc(c.pc, 2), draw: false, ..c })
        },
        Instr::Sub(x, y) => {
            let v1 = c.v.update(15, if c.v[x as int] > c.v[y as int] { 1u8 } else { 0u8 });
            let v2 = v1.update(x as int, wrap_byte(v1[x as int] - v1[y as int] + 256));
            Ok(Cpu { v: v2, pc: wrap_pc(c.pc, 2), draw: false, ..c })
        },
        Instr::Shr(x) => {
            let v1 = c.v.update(15, if c.v[x as int] % 2 == 1 { 1u8 } else { 0u8 });
            let v2 = v1.update(x as int, (v1[x as int] / 2) as u8);
            Ok(Cpu { v: v2, pc: wrap_pc(c.pc, 2), draw: false, ..c })
        },
        Instr::Subn(x, y) => {
            let v1 = c.v.update(15, if c.v[x as int] >= c.v[y as int] { 0u8 } else { 1u8 });
            let v2 = v1.update(y as int, wrap_byte(v1[y as int] - v1[x as int] + 256));
            Ok(Cpu { v: v2, pc: wrap_pc(c.pc, 2), draw: false, ..c })
        },
        Instr::Shl(x) => {
            let v1 = c.v.update(15, if c.v[x as int] >= 128 { 1u8 } else { 0u8 });
            let v2 = v1.update(x as int, wrap_byte(v1[x as int] * 2));
            Ok(Cpu { v: v2, pc: wrap_pc(c.pc, 2), draw: false, ..c })
        },
        Instr::SneReg(x, y) => Ok(
            Cpu {
                pc: wrap_pc(c.pc, if c.v[x as int] != c.v[y as int] { 4 } else { 2 }),
                draw: false,
                ..c
            },
        ),
        Instr::LdI(a) => Ok(Cpu { i: a, pc: wrap_pc(c.pc, 2), draw: false, ..c }),
        Instr::JpV0(a) => Ok(Cpu { pc: wrap_pc(a, c.v[0] as u16), draw: false, ..c }),
        Instr::Rnd(x, k) => Ok(
            Cpu { v: c.v.update(x as int, rnd & k), pc: wrap_pc(c.pc, 2), draw: false, ..c },
        ),
        Instr::Drw(x, y, n) => Ok(spec_drw(c, x, y, n)),
        Instr::Unknown => Err(ExecutionError::UnknownOpcode(w)),
    }
}

/// How the state after `execute` and its result relate to the state before:
/// on `Ok` the transition was taken, on `Err` nothing moved.
pub open spec fn execute_matches(
    pre: Cpu,
    post: Cpu,
    w: u16,
    rnd: u8,
    r: Result<(), ExecutionError>,
) -> bool {
    match spec_execute(pre, w, rnd) {
        Ok(c) => r is Ok && post == c,
        Err(e) => r == Err::<(), ExecutionError>(e) && post == pre,
    }
}

/// How one frame step relates the states before and after: the tick's
/// action is reported, and some random byte explains the executed
/// instruction's outcome.
pub open spec fn step_matches(
    pre: Cpu,
    post: Cpu,
    action: BeepAction,
    res: Result<(), ExecutionError>,
) -> bool {
    &&& action == spec_tick(pre).1
    &&& exists|b: u8|
        execute_matches(spec_tick(pre).0, post, spec_fetch(spec_tick(pre).0), b, res)
}

/// The random byte never matters except to the Cxkk opcode.
pub proof fn lemma_rnd_irrelevant(c: Cpu, w: u16, r1: u8, r2: u8)
    requires
        !(spec_decode(w) is Rnd),
    ensures
        spec_execute(c, w, r1) == spec_execute(c, w, r2),
{
}

/// Relies on rand::random: one byte drawn from the thread-local generator;
/// nothing is promised of its value.
#[verifier::external_body]
fn random_byte() -> u8 {
    rand::random::<u8>()
}

/// The program counter advanced by `k`, wrapping at the 16-bit boundary.
fn pc_add(pc: u16, k: u16) -> (r: u16)
    ensures
        r == wrap_pc(pc, k),
{
    (((pc as u32) + (k as u32)) % 0x10000) as u16
}

/// Assemble the 4096-byte address space: the built-in font at 0, the
/// program at 0x200, zero elsewhere.  Fails if and only if the program
/// does not fit in the 3584 bytes from 0x200 to the end of memory.
pub fn init_memory(program: &[u8]) -> (r: Result<Vec<u8>, LoadError>)
    ensures
        r is Ok <==> program@.len() <= 3584,
        r is Ok ==> r->Ok_0@ == spec_mem_image(program@),
        r is Err ==> r == Err::<Vec<u8>, LoadError>(LoadError::ProgramTooLarge),
{
    if program.len() > 3584 {
        return Err(LoadError::ProgramTooLarge);
    }
    let font = fontset();
    let mut memory: Vec<u8> = Vec::new();
    let mut a: usize = 0;
    while a < 80
        invariant
            a <= 80,
            memory@.len() == a,
            font@ == spec_fontset(),
            forall|j: int| 0 <= j < a ==> memory@[j] == spec_fontset()[j],
        decreases 80 - a,
    {
        memory.push(font[a]);
        a = a + 1;
    }
    while a < 512
        invariant
            80 <= a <= 512,
            memory@.len() == a,
            forall|j: int| 0 <= j < 80 ==> memory@[j] == spec_fontset()[j],
            forall|j: int| 80 <= j < a ==> memory@[j] == 0u8,
        decreases 512 - a,
    {
        memory.push(0);
        a = a + 1;
    }
    let mut p: usize = 0;
    while p < program.len()
        invariant
            p <= program@.len() <= 3584,
            memory@.len() == 512 + p,
            forall|j: int| 0 <= j < 80 ==> memory@[j] == spec_fontset()[j],
            forall|j: int| 80 <= j < 512 ==> memory@[j] == 0u8,
            forall|j: int| 0 <= j < p ==> memory@[512 + j] == program@[j],
        decreases program@.len() - p,
    {
        memory.push(program[p]);
        p = p + 1;
    }
    while memory.len() < 4096
        invariant
            512 + program@.len() <= memory@.len() <= 4096,
            program@.len() <= 3584,
            forall|j: int| 0 <= j < 80 ==> memory@[j] == spec_fontset()[j],
            forall|j: int| 80 <= j < 512 ==> memory@[j] == 0u8,
            forall|j: int| 0 <= j < program@.len() ==> memory@[512 + j] == program@[j],
            forall|j: int| 512 + program@.len() <= j < memory@.len() ==> memory@[j] == 0u8,
        decreases 4096 - memory@.len(),
    {
        memory.push(0);
    }
    proof {
        assert(memory@ =~= spec_mem_image(program@));
    }
    Ok(memory)
}

impl Chip8 {
    /// The state is well-formed: every fixed-size part has its size and the
    /// stack pointer stays on the stack.
    pub open spec fn wf(self) -> bool {
        cpu_wf(self@)
    }

    /// Build a machine from a program image: memory assembled by
    /// `init_memory`, registers and timers cleared, the program counter at
    /// 0x200, the screen dark.  Fails if and only if the program is larger
    /// than 3584 bytes.
    pub fn new(program: &[u8]) -> (r: Result<Chip8, LoadError>)
        ensures
            r is Ok <==> program@.len() <= 3584,
            r is Ok ==> r->Ok_0.wf() && r->Ok_0@ == spec_boot(program@),
            r is Err ==> r == Err::<Chip8, LoadError>(LoadError::ProgramTooLarge),
    {
        let memory = match init_memory(program) {
            Ok(m) => m,
            Err(e) => {
                return Err(e);
            },
        };
        let stack = vec![0u16, 0, 0, 0, 0, 0, 0, 0, 0, 0, 0, 0, 0, 0, 0, 0];
        let v = vec![0u8, 0, 0, 0, 0, 0, 0, 0, 0, 0, 0, 0, 0, 0, 0, 0];
        let display = Display::new();
        let c = Chip8 {
            memory,
            stack,
            v,
            i: 0,
            sound_reg: 0,
            delay_reg: 0,
            pc: 0x200,
            sp: 0,
            display,
            draw_screen: false,
        };
        proof {
            assert(c@.stack =~= spec_boot(program@).stack);
            assert(c@.v =~= spec_boot(program@).v);
            assert(c@.screen =~= spec_boot(program@).screen);
            assert(c@ =~= spec_boot(program@));
        }
        Ok(c)
    }

    /// Read the big-endian instruction word at the program counter.
    pub fn fetch(&self) -> (r: u16)
        requires
            self.wf(),
            self.pc < 4095,
        ensures
            r == spec_fetch(self@),
    {
        let hi: u16 = self.memory[self.pc as usize] as u16;
        let lo: u16 = self.memory[self.pc as usize + 1] as u16;
        hi * 256 + lo
    }

    /// One 60 Hz timer tick: decrement a running delay timer; report `Stop`
    /// while the sound timer is zero, else report `Start` and decrement it.
    /// The zero test comes before the decrement, so the tick after the sound
    /// timer runs out is the one that silences the tone.
    pub fn handle_timers(&mut self) -> (action: BeepAction)
        requires
            old(self).wf(),
        ensures
            final(self).wf(),
            (final(self)@, action) == spec_tick(old(self)@),
    {
        if self.delay_reg > 0 {
            self.delay_reg = self.delay_reg - 1;
        }
        if self.sound_reg == 0 {
            BeepAction::Stop
        } else {
            self.sound_reg = self.sound_reg - 1;
            BeepAction::Start
        }
    }

    /// XOR an `n`-row sprite read from memory at I onto the screen at
    /// (Vx mod 64, Vy mod 32), wrapping at the edges; set VF to 1 if any lit
    /// pixel was erased, else 0; advance the program counter.
    fn exec_drw(&mut self, x: u16, y: u16, n: u16)
        requires
            old(self).wf(),
            x < 16,
            y < 16,
            n < 16,
        ensures
            final(self).wf(),
            final(self)@ == spec_drw(old(self)@, x, y, n),
    {
        let ghost c0 = self@;
        let sx: usize = (self.v[x as usize] % 64) as usize;
        let sy: usize = (self.v[y as usize] % 32) as usize;
        let ghost sxi = sx as int;
        let ghost syi = sy as int;
        let ghost ni = n as int;
        let nn: usize = n as usize;
        let mut collision: bool = false;
        let mut r: usize = 0;
        while r < nn
            invariant
                cpu_wf(c0),
                x < 16,
                y < 16,
                nn == n < 16,
                sxi == sx as int,
                syi == sy as int,
                ni == n as int,
                sx == c0.v[x as int] % 64,
                sy == c0.v[y as int] % 32,
                sx < 64,
                sy < 32,
                r <= nn,
                self.memory@ == c0.mem,
                self.stack@ == c0.stack,
                self.v@ == c0.v,
                self.i == c0.i,
                self.sound_reg == c0.sound,
                self.delay_reg == c0.delay,
                self.pc == c0.pc,
                self.sp == c0.sp,
                self.draw_screen == c0.draw,
                self.display.pixels@.len() == 2048,
                forall|idx: int|
                    0 <= idx < 2048 ==> self.display.pixels@[idx] == drw_partial_pixel(
                        c0,
                        sxi,
                        syi,
                        ni,
                        r as int,
                        0,
                        idx,
                    ),
                collision == drw_partial_collision(c0, sxi, syi, ni, r as int, 0),
            decreases nn - r,
        {
            let byte: u8 = self.memory[(self.i as usize + r) % 4096];
            proof {
                assert(byte == drw_row_byte(c0, r as int));
            }
            let mut b: usize = 0;
            while b < 8
                invariant
                    cpu_wf(c0),
                    nn == n < 16,
                    sxi == sx as int,
                    syi == sy as int,
                    ni == n as int,
                    sx < 64,
                    sy < 32,
                    r < nn,
                    b <= 8,
                    byte == drw_row_byte(c0, r as int),
                    self.memory@ == c0.mem,
                    self.stack@ == c0.stack,
                    self.v@ == c0.v,
                    self.i == c0.i,
                    self.sound_reg == c0.sound,
                    self.delay_reg == c0.delay,
                    self.pc == c0.pc,
                    self.sp == c0.sp,
                    self.draw_screen == c0.draw,
                    self.display.pixels@.len() == 2048,
                    forall|idx: int|
                        0 <= idx < 2048 ==> self.display.pixels@[idx] == drw_partial_pixel(
                            c0,
                            sxi,
                            syi,
                            ni,
                            r as int,
                            b as int,
                            idx,
                        ),
                    collision == drw_partial_collision(c0, sxi, syi, ni, r as int, b as int),
                decreases 8 - b,
            {
                let px: usize = if sx + b < 64 {
                    sx + b
                } else {
                    sx + b - 64
                };
                let py: usize = if sy + r < 32 {
                    sy + r
                } else {
                    sy + r - 32
                };
                let idx: usize = py * 64 + px;
                let shift: u8 = (7 - b) as u8;
                let bit: bool = ((byte >> shift) & 1u8) == 1u8;
                let ghost idx0 = idx as int;
                let ghost ri = r as int;
                let ghost bi = b as int;
                proof {
                    assert(idx < 2048);
                    lemma_fundamental_div_mod(idx0, 64);
                    assert(idx0 % 64 == px as int && idx0 / 64 == py as int) by (nonlinear_arith)
                        requires
                            idx0 == (py as int) * 64 + px as int,
                            0 <= px < 64,
                            0 <= py < 32,
                    ;
                    assert(dx_of(idx0 % 64, sxi) == bi);
                    assert(dy_of(idx0 / 64, syi) == ri);
                    assert(bit == drw_bit(c0, sxi, syi, idx0));
                    assert(drw_covered(sxi, syi, ni, idx0));
                    assert(!drw_done(sxi, syi, ri, bi, idx0));
                }
                let ghost pixels_before = self.display.pixels@;
                let ghost coll_before = collision;
                if bit {
                    let old_p: bool = self.display.pixels[idx];
                    if old_p {
                        collision = true;
                    }
                    self.display.pixels.set(idx, !old_p);
                }
                proof {
                    // Only pixel idx0 has sprite position (ri, bi); every
                    // other pixel keeps its value and its drawn-before status.
                    assert forall|j: int| 0 <= j < 2048 implies self.display.pixels@[j]
                        == drw_partial_pixel(c0, sxi, syi, ni, ri, bi + 1, j) by {
                        lemma_fundamental_div_mod(j, 64);
                        if j != idx0 {
                            if drw_covered(sxi, syi, ni, j) && dy_of(j / 64, syi) == ri && dx_of(
                                j % 64,
                                sxi,
                            ) == bi {
                                assert(j % 64 == px as int);
                                assert(j / 64 == py as int);
                                assert(j == idx0);
                            }
                            assert(self.display.pixels@[j] == pixels_before[j]);
                        } else {
                            assert(pixels_before[idx0] == c0.screen[idx0]);
                        }
                    }
                    // Collision: the new flag covers exactly the extended region.
                    if collision {
                        if coll_before {
                            let w0 = choose|j: int|
                                0 <= j < 2048 && drw_done(sxi, syi, ri, bi, j) && #[trigger]
                                drw_hit(c0, sxi, syi, ni, j);
                            assert(drw_done(sxi, syi, ri, bi + 1, w0));
                            assert(drw_partial_collision(c0, sxi, syi, ni, ri, bi + 1));
                        } else {
                            assert(pixels_before[idx0] == c0.screen[idx0]);
                            assert(drw_hit(c0, sxi, syi, ni, idx0));
                            assert(drw_done(sxi, syi, ri, bi + 1, idx0));
                            assert(drw_partial_collision(c0, sxi, syi, ni, ri, bi + 1));
                        }
                    } else {
                        assert(pixels_before[idx0] == c0.screen[idx0]);
                        assert forall|j: int|
                            0 <= j < 2048 && drw_done(sxi, syi, ri, bi + 1, j) implies !drw_hit(
                            c0,
                            sxi,
                            syi,
                            ni,
                            j,
                        ) by {
                            lemma_fundamental_div_mod(j, 64);
                            if drw_done(sxi, syi, ri, bi, j) {
                                assert(!drw_hit(c0, sxi, syi, ni, j));
                            } else if drw_hit(c0, sxi, syi, ni, j) {
                                assert(dy_of(j / 64, syi) == ri && dx_of(j % 64, sxi) == bi);
                                assert(j % 64 == px as int);
                                assert(j / 64 == py as int);
                                assert(j == idx0);
                                assert(false);
                            }
                        }
                        assert(!drw_partial_collision(c0, sxi, syi, ni, ri, bi + 1));
                    }
                }
                b = b + 1;
            }
            proof {
                // Finishing row r is the same as standing at the start of row r + 1.
                assert forall|j: int| 0 <= j < 2048 implies drw_partial_pixel(
                    c0,
                    sxi,
                    syi,
                    ni,
                    r as int,
                    8,
                    j,
                ) == drw_partial_pixel(c0, sxi, syi, ni, r as int + 1, 0, j) by {
                    if drw_covered(sxi, syi, ni, j) {
                        assert(dx_of(j % 64, sxi) < 8);
                    }
                }
                if drw_partial_collision(c0, sxi, syi, ni, r as int, 8) {
                    let w0 = choose|j: int|
                        0 <= j < 2048 && drw_done(sxi, syi, r as int, 8, j) && #[trigger] drw_hit(
                            c0,
                            sxi,
                            syi,
                            ni,
                            j,
                        );
                    assert(drw_done(sxi, syi, r as int + 1, 0, w0));
                    assert(drw_partial_collision(c0, sxi, syi, ni, r as int + 1, 0));
                }
                if drw_partial_collision(c0, sxi, syi, ni, r as int + 1, 0) {
                    let w0 = choose|j: int|
                        0 <= j < 2048 && drw_done(sxi, syi, r as int + 1, 0, j) && #[trigger]
                        drw_hit(c0, sxi, syi, ni, j);
                    assert(dx_of(w0 % 64, sxi) < 8);
                    assert(drw_done(sxi, syi, r as int, 8, w0));
                    assert(drw_partial_collision(c0, sxi, syi, ni, r as int, 8));
                }
            }
            r = r + 1;
        }
        let vf: u8 = if collision {
            1
        } else {
            0
        };
        self.v.set(15, vf);
        self.pc = pc_add(self.pc, 2);
        self.draw_screen = true;
        proof {
            assert(self.display.pixels@ =~= drw_screen(c0, sxi, syi, ni));
            assert(self@ =~= spec_drw(c0, x, y, n));
        }
    }

    /// Execute one instruction word, drawing the Cxkk random byte from
    /// `rnd`: the state moves exactly as `spec_execute` says, and on an
    /// error nothing moves.
    pub fn execute_with(&mut self, instruction: u16, rnd: u8) -> (r: Result<(), ExecutionError>)
        requires
            old(self).wf(),
        ensures
            final(self).wf(),
            execute_matches(old(self)@, final(self)@, instruction, rnd, r),
    {
        proof {
            lemma_field_bounds(instruction);
        }
        let instr = decode(instruction);
        match instr {
            Instr::Cls => {
                self.display.clear();
                self.pc = pc_add(self.pc, 2);
                self.draw_screen = true;
                proof {
                    assert(self@.screen =~= Seq::new(2048, |j: int| false));
                    assert(self@ =~= spec_execute(old(self)@, instruction, rnd)->Ok_0);
                }
                Ok(())
            },
            Instr::Ret => {
                if self.sp == 0 {
                    Err(ExecutionError::StackUnderflow)
                } else {
                    self.pc = self.stack[self.sp as usize];
                    self.sp = self.sp - 1;
                    self.draw_screen = false;
                    Ok(())
                }
            },
            Instr::Jp(a) => {
                self.pc = a;
                self.draw_screen = false;
                Ok(())
            },
            Instr::Call(a) => {
                if self.sp >= 15 {
                    Err(ExecutionError::StackOverflow)
                } else {
                    let ret: u16 = pc_add(self.pc, 2);
                    self.sp = self.sp + 1;
                    self.stack.set(self.sp as usize, ret);
                    self.pc = a;
                    self.draw_screen = false;
                    Ok(())
                }
            },
            Instr::SeByte(x, k) => {
                let taken: bool = self.v[x as usize] == k;
                self.pc = pc_add(self.pc, if taken { 4 } else { 2 });
                self.draw_screen = false;
                Ok(())
            },
            Instr::SneByte(x, k) => {
                let taken: bool = self.v[x as usize] != k;
                self.pc = pc_add(self.pc, if taken { 4 } else { 2 });
                self.draw_screen = false;
                Ok(())
            },
            Instr::SeReg(x, y) => {
                let taken: bool = self.v[x as usize] == self.v[y as usize];
                self.pc = pc_add(self.pc, if taken { 4 } else { 2 });
                self.draw_screen = false;
                Ok(())
            },
            Instr::LdByte(x, k) => {
                self.v.set(x as usize, k);
                self.pc = pc_add(self.pc, 2);
                self.draw_screen = false;
                Ok(())
            },
            Instr::AddByte(x, k) => {
                let sum: u16 = self.v[x as usize] as u16 + k as u16;
                self.v.set(x as usize, (sum % 256) as u8);
                self.pc = pc_add(self.pc, 2);
                self.draw_screen = false;
                Ok(())
            },
            Instr::LdReg(x, y) => {
                let vy: u8 = self.v[y as usize];
                self.v.set(x as usize, vy);
                self.pc = pc_add(self.pc, 2);
                self.draw_screen = false;
                Ok(())
            },
            Instr::Or(x, y) => {
                let res: u8 = self.v[x as usize] | self.v[y as usize];
                self.v.set(x as usize, res);
                self.pc = pc_add(self.pc, 2);
                self.draw_screen = false;
                Ok(())
            },
            Instr::And(x, y) => {
                let res: u8 = self.v[x as usize] & self.v[y as usize];
                self.v.set(x as usize, res);
                self.pc = pc_add(self.pc, 2);
                self.draw_screen = false;
                Ok(())
            },
            Instr::Xor(x, y) => {
                let res: u8 = self.v[x as usize] ^ self.v[y as usize];
                self.v.set(x as usize, res);
                self.pc = pc_add(self.pc, 2);
                self.draw_screen = false;
                Ok(())
            },
            Instr::AddReg(x, y) => {
                let sum: u16 = self.v[x as usize] as u16 + self.v[y as usize] as u16;
                self.v.set(x as usize, (sum % 256) as u8);
                self.v.set(15, if sum > 255 { 1 } else { 0 });
                self.pc = pc_add(self.pc, 2);
                self.draw_screen = false;
                Ok(())
            },
            Instr::Sub(x, y) => {
                let flag: u8 = if self.v[x as usize] > self.v[y as usize] {
                    1
                } else {
                    0
                };
                self.v.set(15, flag);
                let diff: u16 = self.v[x as usize] as u16 + 256 - self.v[y as usize] as u16;
                self.v.set(x as usize, (diff % 256) as u8);
                self.pc = pc_add(self.pc, 2);
                self.draw_screen = false;
                Ok(())
            },
            Instr::Shr(x) => {
                let flag: u8 = if self.v[x as usize] % 2 == 1 {
                    1
                } else {
                    0
                };
                self.v.set(15, flag);
                let cur: u8 = self.v[x as usize];
                self.v.set(x as usize, cur / 2);
                self.pc = pc_add(self.pc, 2);
                self.draw_screen = false;
                Ok(())
            },
            Instr::Subn(x, y) => {
                let flag: u8 = if self.v[x as usize] >= self.v[y as usize] {
                    0
                } else {
                    1
                };
                self.v.set(15, flag);
                let diff: u16 = self.v[y as usize] as u16 + 256 - self.v[x as usize] as u16;
                self.v.set(y as usize, (diff % 256) as u8);
                self.pc = pc_add(self.pc, 2);
                self.draw_screen = false;
                Ok(())
            },
            Instr::Shl(x) => {
                let flag: u8 = if self.v[x as usize] >= 128 {
                    1
                } else {
                    0
                };
                self.v.set(15, flag);
                let doubled: u16 = self.v[x as usize] as u16 * 2;
                self.v.set(x as usize, (doubled % 256) as u8);
                self.pc = pc_add(self.pc, 2);
                self.draw_screen = false;
                Ok(())
            },
            Instr::SneReg(x, y) => {
                let taken: bool = self.v[x as usize] != self.v[y as usize];
                self.pc = pc_add(self.pc, if taken { 4 } else { 2 });
                self.draw_screen = false;
                Ok(())
            },
            Instr::LdI(a) => {
                self.i = a;
                self.pc = pc_add(self.pc, 2);
                self.draw_screen = false;
                Ok(())
            },
            Instr::JpV0(a) => {
                self.pc = pc_add(a, self.v[0] as u16);
                self.draw_screen = false;
                Ok(())
            },
            Instr::Rnd(x, k) => {
                self.v.set(x as usize, rnd & k);
                self.pc = pc_add(self.pc, 2);
                self.draw_screen = false;
                Ok(())
            },
            Instr::Drw(x, y, n) => {
                self.exec_drw(x, y, n);
                Ok(())
            },
            Instr::Unknown => Err(ExecutionError::UnknownOpcode(instruction)),
        }
    }

    /// Execute one instruction word, drawing the Cxkk random byte from the
    /// machine's random source.  Some byte makes the transition explain the
    /// outcome, and for every opcode but Cxkk the byte does not matter.
    pub fn execute(&mut self, instruction: u16) -> (r: Result<(), ExecutionError>)
        requires
            old(self).wf(),
        ensures
            final(self).wf(),
            exists|b: u8| execute_matches(old(self)@, final(self)@, instruction, b, r),
            !(spec_decode(instruction) is Rnd) ==> execute_matches(
                old(self)@,
                final(self)@,
                instruction,
                0,
                r,
            ),
    {
        let rnd: u8 = random_byte();
        let r = self.execute_with(instruction, rnd);
        proof {
            assert(execute_matches(old(self)@, self@, instruction, rnd, r));
            if !(spec_decode(instruction) is Rnd) {
                lemma_rnd_irrelevant(old(self)@, instruction, rnd, 0);
            }
        }
        r
    }

    /// One frame's worth of CPU work: a timer tick, then fetch and execute
    /// of the instruction at the program counter.  Returns the action owed
    /// to the tone generator and the execution outcome; the `draw_screen`
    /// flag afterwards says whether the frame must be presented.
    pub fn step(&mut self) -> (r: (BeepAction, Result<(), ExecutionError>))
        requires
            old(self).wf(),
            old(self).pc < 4095,
        ensures
            final(self).wf(),
            step_matches(old(self)@, final(self)@, r.0, r.1),
    {
        let action = self.handle_timers();
        let ghost mid = self@;
        let instruction = self.fetch();
        let outcome = self.execute(instruction);
        proof {
            let b0 = choose|b: u8| execute_matches(mid, self@, instruction, b, outcome);
            assert(execute_matches(
                spec_tick(old(self)@).0,
                self@,
                spec_fetch(spec_tick(old(self)@).0),
                b0,
                outcome,
            ));
            assert(step_matches(old(self)@, self@, action, outcome));
        }
        (action, outcome)
    }
}

} // verus!
