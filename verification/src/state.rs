//! The mathematical model of the machine: a ghost record of every piece of
//! machine state, and the meaning of each instruction and of one full step
//! as functions from state to state.

use vstd::prelude::*;
use crate::decode::Instruction;
use crate::display::{FB_SIZE, FB_WIDTH, blank_fb};
use crate::font::FONT;
use crate::mem::{MEM_SIZE, mem_write};

verus! {

/// A push on a full call stack, or a pop from an empty one: a fatal fault of
/// the loaded program.
#[derive(Clone, Copy, PartialEq, Eq, Structural, Debug)]
pub enum StackFault {
    Overflow,
    Underflow,
}

/// What one `step` reports to the caller.
#[derive(Clone, Copy, PartialEq, Eq, Structural, Debug)]
pub enum StepOutcome {
    /// An instruction ran; `redraw` says whether it changed the display.
    Ran { redraw: bool },
    /// The machine is blocked until a key is pressed; nothing moved.
    AwaitingKey,
    /// The fetched word matches no instruction form; the program counter
    /// still advanced past it.
    DecodeError { word: u16 },
    /// A call or return broke stack discipline; the machine is left as it
    /// was.
    StackError { fault: StackFault },
    /// The program counter points past the end of memory; the machine is
    /// left as it was.
    FetchOutOfRange,
}

/// Everything the machine owns, as one ghost record.
#[verifier::ext_equal]
pub ghost struct MachineView {
    /// The 4096 bytes on the memory bus.
    pub mem: Seq<u8>,
    /// The 64 * 32 framebuffer cells, row by row; `true` is lit.
    pub fb: Seq<bool>,
    /// The sixteen general registers; register 15 is the flag.
    pub regs: Seq<u8>,
    /// The 16-bit index register.
    pub index: u16,
    /// The program counter.
    pub pc: u16,
    /// The stack pointer: how many call frames are live.
    pub sp: usize,
    /// The sixteen call-stack slots.
    pub stack: Seq<u16>,
    /// The delay timer, decremented once per executed step while nonzero.
    pub delay: u8,
    /// The sound timer, decremented once per executed step while nonzero.
    pub sound: u8,
    /// The sixteen key states; `true` is pressed.
    pub keys: Seq<bool>,
    /// `Some(x)` while the machine is blocked waiting for a key to land in
    /// register `x`; `None` while running.
    pub waiting: Option<u8>,
    /// Whether the display changed since the caller last consumed it.
    pub redraw: bool,
}

impl MachineView {
    /// The fixed shape of the machine: every array has its size, the stack
    /// pointer stays within the stack, and a wait targets a real register.
    pub open spec fn wf(self) -> bool {
        &&& self.mem.len() == MEM_SIZE
        &&& self.fb.len() == FB_SIZE
        &&& self.regs.len() == 16
        &&& self.stack.len() == 16
        &&& self.keys.len() == 16
        &&& self.sp <= 16
        &&& match self.waiting {
            Some(x) => x < 16,
            None => true,
        }
    }
}

/// Memory as a fresh machine has it: the font table at the bottom, zeroes
/// everywhere else.
pub open spec fn initial_memory() -> Seq<u8> {
    Seq::new(MEM_SIZE as nat, |a: int| if 0 <= a < 80 { FONT@[a] } else { 0u8 })
}

/// The state of a fresh machine: zeroed registers, font loaded, program
/// counter at 0x200.
pub open spec fn initial_machine() -> MachineView {
    MachineView {
        mem: initial_memory(),
        fb: blank_fb(),
        regs: Seq::new(16, |k: int| 0u8),
        index: 0,
        pc: 0x200,
        sp: 0,
        stack: Seq::new(16, |k: int| 0u16),
        delay: 0,
        sound: 0,
        keys: Seq::new(16, |k: int| false),
        waiting: None,
        redraw: false,
    }
}

/// 8-bit addition with wraparound.
pub open spec fn wrap_add(a: u8, b: u8) -> u8 {
    ((a + b) % 256) as u8
}

/// 8-bit subtraction with wraparound on underflow.
pub open spec fn wrap_sub(a: u8, b: u8) -> u8 {
    if a >= b {
        (a - b) as u8
    } else {
        (a - b + 256) as u8
    }
}

/// The flag register's encoding of a condition.
pub open spec fn flag_val(b: bool) -> u8 {
    if b {
        1u8
    } else {
        0u8
    }
}

/// The program counter moved forward by `k`, wrapping at 16 bits.
pub open spec fn step_pc(pc: u16, k: int) -> u16 {
    ((pc + k) % 0x10000) as u16
}

/// Whether the key a register names is pressed; a register value past the
/// sixteen keys names no key and reads as released.
pub open spec fn key_state(keys: Seq<bool>, idx: u8) -> bool {
    idx < 16 && keys[idx as int]
}

/// The highest pressed key below `n`, if any.
pub open spec fn pressed_below(keys: Seq<bool>, n: int) -> Option<u8>
    decreases n,
{
    if n <= 0 {
        None
    } else if keys[n - 1] {
        Some((n - 1) as u8)
    } else {
        pressed_below(keys, n - 1)
    }
}

/// The key a completed wait hands over: the highest pressed one.
pub open spec fn pressed_key(keys: Seq<bool>) -> Option<u8> {
    pressed_below(keys, 16)
}

/// The sprite row byte at `index + row`; a row past the end of memory
/// contributes nothing.
pub open spec fn sprite_row(mem: Seq<u8>, index: u16, row: int) -> u8 {
    if index + row < mem.len() {
        mem[index + row]
    } else {
        0u8
    }
}

/// Whether bit `col` (leftmost first) of the sprite row is set.
pub open spec fn sprite_bit(mem: Seq<u8>, index: u16, row: int, col: int) -> bool {
    sprite_row(mem, index, row) & (0x80u8 >> (col as u8)) != 0
}

/// The linear framebuffer cell that sprite bit `(row, col)` drawn at
/// `(px, py)` lands on; the draw clips only at the buffer's extent.
pub open spec fn pix_index(px: u8, py: u8, row: int, col: int) -> int {
    px + col + (py + row) * (FB_WIDTH as int)
}

/// Whether some set sprite bit of an `n`-row sprite lands on cell `p`.
pub open spec fn covered(mem: Seq<u8>, index: u16, px: u8, py: u8, n: u8, p: int) -> bool {
    exists|row: int, col: int|
        0 <= row < n && 0 <= col < 8 && sprite_bit(mem, index, row, col) && pix_index(
            px,
            py,
            row,
            col,
        ) == p
}

/// The framebuffer after an `n`-row sprite at `index` is XOR-composited at
/// `(px, py)`: each covered cell flips, every other cell keeps its value.
pub open spec fn spec_draw(
    fb: Seq<bool>,
    mem: Seq<u8>,
    index: u16,
    px: u8,
    py: u8,
    n: u8,
) -> Seq<bool> {
    Seq::new(
        fb.len(),
        |p: int| if covered(mem, index, px, py, n, p) { !fb[p] } else { fb[p] },
    )
}

/// Whether the draw turns some previously-lit cell off: exactly when a set
/// sprite bit lands on a lit cell.
pub open spec fn spec_collision(
    fb: Seq<bool>,
    mem: Seq<u8>,
    index: u16,
    px: u8,
    py: u8,
    n: u8,
) -> bool {
    exists|p: int| 0 <= p < fb.len() && covered(mem, index, px, py, n, p) && fb[p]
}

/// Memory after registers 0 through `x` are stored at `index ..`; cells
/// past the end of memory are dropped, everything else keeps its byte.
pub open spec fn store_span(mem: Seq<u8>, regs: Seq<u8>, index: u16, x: u8) -> Seq<u8> {
    Seq::new(
        mem.len(),
        |a: int| if index <= a <= index + x { regs[a - index] } else { mem[a] },
    )
}

/// Registers after 0 through `x` are loaded from `index ..`; a source cell
/// past the end of memory leaves its register as it was, and registers
/// above `x` keep their values.
pub open spec fn load_span(regs: Seq<u8>, mem: Seq<u8>, index: u16, x: u8) -> Seq<u8> {
    Seq::new(
        regs.len(),
        |k: int| if k <= x && index + k < mem.len() { mem[index + k] } else { regs[k] },
    )
}

/// Both countdown timers decremented once, saturating at zero.
pub open spec fn tick_view(v: MachineView) -> MachineView {
    MachineView {
        delay: if v.delay > 0 { (v.delay - 1) as u8 } else { 0u8 },
        sound: if v.sound > 0 { (v.sound - 1) as u8 } else { 0u8 },
        ..v
    }
}

/// The meaning of one instruction: the machine after it executes, and what
/// the step reports. `rand` stands for the byte the random-number source
/// hands the `Random` instruction; every other instruction ignores it.
/// Timer decrement is not included here; `spec_step` applies it.
pub open spec fn spec_execute(v: MachineView, ins: Instruction, rand: u8) -> (
    MachineView,
    StepOutcome,
) {
    match ins {
        Instruction::Cls => (
            MachineView { fb: blank_fb(), redraw: true, pc: step_pc(v.pc, 2), ..v },
            StepOutcome::Ran { redraw: true },
        ),
        Instruction::Ret => {
            if v.sp == 0 {
                (v, StepOutcome::StackError { fault: StackFault::Underflow })
            } else {
                (
                    MachineView {
                        sp: (v.sp - 1) as usize,
                        pc: step_pc(v.stack[v.sp - 1], 2),
                        ..v
                    },
                    StepOutcome::Ran { redraw: false },
                )
            }
        },
        Instruction::Jump { nnn } => (
            MachineView { pc: nnn, ..v },
            StepOutcome::Ran { redraw: false },
        ),
        Instruction::Call { nnn } => {
            if v.sp >= 16 {
                (v, StepOutcome::StackError { fault: StackFault::Overflow })
            } else {
                (
                    MachineView {
                        stack: v.stack.update(v.sp as int, v.pc),
                        sp: (v.sp + 1) as usize,
                        pc: nnn,
                        ..v
                    },
                    StepOutcome::Ran { redraw: false },
                )
            }
        },
        Instruction::SkipEqImm { x, kk } => (
            MachineView {
                pc: step_pc(v.pc, if v.regs[x as int] == kk { 4 } else { 2 }),
                ..v
            },
            StepOutcome::Ran { redraw: false },
        ),
        Instruction::SkipNeImm { x, kk } => (
            MachineView {
                pc: step_pc(v.pc, if v.regs[x as int] != kk { 4 } else { 2 }),
                ..v
            },
            StepOutcome::Ran { redraw: false },
        ),
        Instruction::SkipEqReg { x, y } => (
            MachineView {
                pc: step_pc(v.pc, if v.regs[x as int] == v.regs[y as int] { 4 } else { 2 }),
                ..v
            },
            StepOutcome::Ran { redraw: false },
        ),
        Instruction::SetImm { x, kk } => (
            MachineView { regs: v.regs.update(x as int, kk), pc: step_pc(v.pc, 2), ..v },
            StepOutcome::Ran { redraw: false },
        ),
        Instruction::AddImm { x, kk } => (
            MachineView {
                regs: v.regs.update(x as int, wrap_add(v.regs[x as int], kk)),
                pc: step_pc(v.pc, 2),
                ..v
            },
            StepOutcome::Ran { redraw: false },
        ),
        Instruction::Copy { x, y } => (
            MachineView {
                regs: v.regs.update(x as int, v.regs[y as int]),
                pc: step_pc(v.pc, 2),
                ..v
            },
            StepOutcome::Ran { redraw: false },
        ),
        Instruction::Or { x, y } => (
            MachineView {
                regs: v.regs.update(x as int, v.regs[x as int] | v.regs[y as int]),
                pc: step_pc(v.pc, 2),
                ..v
            },
            StepOutcome::Ran { redraw: false },
        ),
        Instruction::And { x, y } => (
            MachineView {
                regs: v.regs.update(x as int, v.regs[x as int] & v.regs[y as int]),
                pc: step_pc(v.pc, 2),
                ..v
            },
            StepOutcome::Ran { redraw: false },
        ),
        Instruction::Xor { x, y } => (
            MachineView {
                regs: v.regs.update(x as int, v.regs[x as int] ^ v.regs[y as int]),
                pc: step_pc(v.pc, 2),
                ..v
            },
            StepOutcome::Ran { redraw: false },
        ),
        Instruction::Add { x, y } => {
            let sum = v.regs[x as int] + v.regs[y as int];
            let regs1 = v.regs.update(x as int, (sum % 256) as u8);
            (
                MachineView {
                    regs: regs1.update(15, flag_val(sum > 255)),
                    pc: step_pc(v.pc, 2),
                    ..v
                },
                StepOutcome::Ran { redraw: false },
            )
        },
        Instruction::Sub { x, y } => {
            let regs1 = v.regs.update(15, flag_val(v.regs[x as int] > v.regs[y as int]));
            (
                MachineView {
                    regs: regs1.update(x as int, wrap_sub(regs1[x as int], regs1[y as int])),
                    pc: step_pc(v.pc, 2),
                    ..v
                },
                StepOutcome::Ran { redraw: false },
            )
        },
        Instruction::Shr { x } => {
            let regs1 = v.regs.update(15, (v.regs[x as int] % 2) as u8);
            (
                MachineView {
                    regs: regs1.update(x as int, (regs1[x as int] / 2) as u8),
                    pc: step_pc(v.pc, 2),
                    ..v
                },
                StepOutcome::Ran { redraw: false },
            )
        },
        Instruction::SubRev { x, y } => {
            let regs1 = v.regs.update(15, flag_val(v.regs[y as int] > v.regs[x as int]));
            (
                MachineView {
                    regs: regs1.update(x as int, wrap_sub(regs1[y as int], regs1[x as int])),
                    pc: step_pc(v.pc, 2),
                    ..v
                },
                StepOutcome::Ran { redraw: false },
            )
        },
        Instruction::Shl { x } => {
            let regs1 = v.regs.update(15, (v.regs[x as int] / 128) as u8);
            (
                MachineView {
                    regs: regs1.update(x as int, ((regs1[x as int] * 2) % 256) as u8),
                    pc: step_pc(v.pc, 2),
                    ..v
                },
                StepOutcome::Ran { redraw: false },
            )
        },
        Instruction::SkipNeReg { x, y } => (
            MachineView {
                pc: step_pc(v.pc, if v.regs[x as int] != v.regs[y as int] { 4 } else { 2 }),
                ..v
            },
            StepOutcome::Ran { redraw: false },
        ),
        Instruction::SetIndex { nnn } => (
            MachineView { index: nnn, pc: step_pc(v.pc, 2), ..v },
            StepOutcome::Ran { redraw: false },
        ),
        Instruction::JumpPlus { nnn } => (
            MachineView { pc: ((v.regs[0] + nnn) % 0x10000) as u16, ..v },
            StepOutcome::Ran { redraw: false },
        ),
        Instruction::Random { x, kk } => (
            MachineView {
                regs: v.regs.update(x as int, rand & kk),
                pc: step_pc(v.pc, 2),
                ..v
            },
            StepOutcome::Ran { redraw: false },
        ),
        Instruction::Draw { x, y, n } => {
            let px = v.regs[x as int];
            let py = v.regs[y as int];
            let hit = spec_collision(v.fb, v.mem, v.index, px, py, n);
            (
                MachineView {
                    fb: spec_draw(v.fb, v.mem, v.index, px, py, n),
                    regs: v.regs.update(15, flag_val(hit)),
                    redraw: true,
                    pc: step_pc(v.pc, 2),
                    ..v
                },
                StepOutcome::Ran { redraw: true },
            )
        },
        Instruction::SkipKey { x } => (
            MachineView {
                pc: step_pc(v.pc, if key_state(v.keys, v.regs[x as int]) { 4 } else { 2 }),
                ..v
            },
            StepOutcome::Ran { redraw: false },
        ),
        Instruction::SkipNoKey { x } => (
            MachineView {
                pc: step_pc(v.pc, if !key_state(v.keys, v.regs[x as int]) { 4 } else { 2 }),
                ..v
            },
            StepOutcome::Ran { redraw: false },
        ),
        Instruction::ReadDelay { x } => (
            MachineView {
                regs: v.regs.update(x as int, v.delay),
                pc: step_pc(v.pc, 2),
                ..v
            },
            StepOutcome::Ran { redraw: false },
        ),
        Instruction::WaitKey { x } => {
            match pressed_key(v.keys) {
                Some(k) => (
                    MachineView {
                        regs: v.regs.update(x as int, k),
                        pc: step_pc(v.pc, 2),
                        ..v
                    },
                    StepOutcome::Ran { redraw: false },
                ),
                None => (
                    MachineView { waiting: Some(x), ..v },
                    StepOutcome::AwaitingKey,
                ),
            }
        },
        Instruction::SetDelay { x } => (
            MachineView { delay: v.regs[x as int], pc: step_pc(v.pc, 2), ..v },
            StepOutcome::Ran { redraw: false },
        ),
        Instruction::SetSound { x } => (
            MachineView { sound: v.regs[x as int], pc: step_pc(v.pc, 2), ..v },
            StepOutcome::Ran { redraw: false },
        ),
        Instruction::AddIndex { x } => (
            MachineView {
                index: ((v.index + v.regs[x as int]) % 0x10000) as u16,
                pc: step_pc(v.pc, 2),
                ..v
            },
            StepOutcome::Ran { redraw: false },
        ),
        Instruction::FontIndex { x } => (
            MachineView {
                index: (v.regs[x as int] * 5) as u16,
                pc: step_pc(v.pc, 2),
                ..v
            },
            StepOutcome::Ran { redraw: false },
        ),
        Instruction::StoreBcd { x } => {
            let val = v.regs[x as int];
            let mem1 = mem_write(v.mem, v.index as int, (val / 100) as u8);
            let mem2 = mem_write(mem1, v.index + 1, ((val / 10) % 10) as u8);
            let mem3 = mem_write(mem2, v.index + 2, (val % 10) as u8);
            (
                MachineView { mem: mem3, pc: step_pc(v.pc, 2), ..v },
                StepOutcome::Ran { redraw: false },
            )
        },
        Instruction::StoreRegs { x } => (
            MachineView {
                mem: store_span(v.mem, v.regs, v.index, x),
                pc: step_pc(v.pc, 2),
                ..v
            },
            StepOutcome::Ran { redraw: false },
        ),
        Instruction::LoadRegs { x } => (
            MachineView {
                regs: load_span(v.regs, v.mem, v.index, x),
                pc: step_pc(v.pc, 2),
                ..v
            },
            StepOutcome::Ran { redraw: false },
        ),
        Instruction::Unknown { word } => (
            MachineView { pc: step_pc(v.pc, 2), ..v },
            StepOutcome::DecodeError { word },
        ),
    }
}

/// The 16-bit big-endian instruction word at the program counter.
pub open spec fn fetch_word(v: MachineView) -> u16 {
    (v.mem[v.pc as int] * 256 + v.mem[v.pc as int + 1]) as u16
}

/// One full step. While running: fetch, decode, execute, then decrement the
/// timers — unless the instruction faulted or began a key wait. While
/// waiting: nothing moves until a key is pressed; the step that sees one
/// stores its index, resumes, and ticks the timers.
pub open spec fn spec_step(v: MachineView, rand: u8) -> (MachineView, StepOutcome) {
    match v.waiting {
        Some(x) => {
            match pressed_key(v.keys) {
                Some(k) => (
                    tick_view(
                        MachineView {
                            regs: v.regs.update(x as int, k),
                            pc: step_pc(v.pc, 2),
                            waiting: None,
                            ..v
                        },
                    ),
                    StepOutcome::Ran { redraw: false },
                ),
                None => (v, StepOutcome::AwaitingKey),
            }
        },
        None => {
            if v.pc + 1 >= MEM_SIZE {
                (v, StepOutcome::FetchOutOfRange)
            } else {
                let (v2, out) = spec_execute(v, crate::decode::spec_decode(fetch_word(v)), rand);
                match out {
                    StepOutcome::Ran { .. } => (tick_view(v2), out),
                    StepOutcome::DecodeError { .. } => (tick_view(v2), out),
                    _ => (v2, out),
                }
            }
        },
    }
}

} // verus!
