//! The executable machine. `Chip8` owns every piece of mutable state; each
//! public operation's contract ties it to the ghost model in `state`.

use vstd::prelude::*;
use crate::decode::{Instruction, decode, instr_wf};
use crate::display::{Display, FB_SIZE, FB_WIDTH};
use crate::font::{FONT, FONT_BYTES};
use crate::mem::{MEM_SIZE, MemoryBus, MemoryError};
use crate::state::{
    MachineView, StackFault, StepOutcome, covered, fetch_word, initial_machine, initial_memory,
    load_span, pix_index, pressed_below, pressed_key, spec_collision, spec_draw, spec_execute,
    spec_step, sprite_bit, sprite_row, step_pc, store_span, tick_view,
};

verus! {

/// The machine: registers, memory, call stack, timers, keys, display and
/// wait state, owned exclusively.
pub struct Chip8 {
    /// The memory bus.
    pub bus: MemoryBus,
    /// The framebuffer.
    pub screen: Display,
    /// The sixteen general registers; register 15 is the flag.
    pub regs: Vec<u8>,
    /// The 16-bit index register.
    pub index: u16,
    /// The program counter.
    pub pc: u16,
    /// The stack pointer: the number of live call frames.
    pub sp: usize,
    /// The sixteen call-stack slots.
    pub stack: Vec<u16>,
    /// The delay timer.
    pub delay_timer: u8,
    /// The sound timer.
    pub sound_timer: u8,
    /// The sixteen key states; `true` is pressed.
    pub keys: Vec<bool>,
    /// `Some(x)` while blocked waiting for a key to land in register `x`.
    pub waiting: Option<u8>,
    /// Whether the display changed since the caller last consumed it.
    pub redraw: bool,
}

impl View for Chip8 {
    type V = MachineView;

    open spec fn view(&self) -> MachineView {
        MachineView {
            mem: self.bus@,
            fb: self.screen@,
            regs: self.regs@,
            index: self.index,
            pc: self.pc,
            sp: self.sp,
            stack: self.stack@,
            delay: self.delay_timer,
            sound: self.sound_timer,
            keys: self.keys@,
            waiting: self.waiting,
            redraw: self.redraw,
        }
    }
}

/// A vector of `n` copies of `val`.
fn filled<T: Copy>(n: usize, val: T) -> (r: Vec<T>)
    ensures
        r@ == Seq::new(n as nat, |k: int| val),
{
    let mut r: Vec<T> = Vec::new();
    let mut k: usize = 0;
    while k < n
        invariant
            k <= n,
            r@ == Seq::new(k as nat, |j: int| val),
        decreases n - k,
    {
        r.push(val);
        k += 1;
        proof {
            assert(r@ =~= Seq::new(k as nat, |j: int| val));
        }
    }
    r
}

/// The program counter moved forward by `k`, wrapping at 16 bits; returns
/// exactly `step_pc(pc, k)`.
fn next_pc(pc: u16, k: u16) -> (r: u16)
    ensures
        r == step_pc(pc, k as int),
{
    (((pc as u32) + (k as u32)) % 0x10000) as u16
}

/// The highest pressed key, if any; returns exactly `pressed_key(keys@)`.
fn find_pressed(keys: &Vec<bool>) -> (r: Option<u8>)
    requires
        keys@.len() == 16,
    ensures
        r == pressed_key(keys@),
{
    let mut k: usize = 16;
    while k > 0
        invariant
            k <= 16,
            keys@.len() == 16,
            pressed_key(keys@) == pressed_below(keys@, k as int),
        decreases k,
    {
        if keys[k - 1] {
            return Some((k - 1) as u8);
        }
        k -= 1;
    }
    None
}

/// The cells covered so far while a draw walks the sprite: those hit by a
/// set bit in a row before `r`, or in row `r` at a column before `c`.
spec fn covered_upto(mem: Seq<u8>, index: u16, px: u8, py: u8, r: int, c: int, p: int) -> bool {
    exists|row: int, col: int|
        0 <= row && 0 <= col < 8 && (row < r || (row == r && col < c)) && sprite_bit(
            mem,
            index,
            row,
            col,
        ) && pix_index(px, py, row, col) == p
}

/// Distinct sprite bits land on distinct framebuffer cells: rows are 64
/// cells apart and columns span at most 8.
proof fn lemma_pix_unique(px: u8, py: u8, r1: int, c1: int, r2: int, c2: int)
    requires
        0 <= r1,
        0 <= c1 < 8,
        0 <= r2,
        0 <= c2 < 8,
        pix_index(px, py, r1, c1) == pix_index(px, py, r2, c2),
    ensures
        r1 == r2,
        c1 == c2,
{
    assert(c1 - c2 == 64 * (r2 - r1));
    if r1 < r2 {
        assert(64 * (r2 - r1) >= 64);
    }
    if r2 < r1 {
        assert(64 * (r2 - r1) <= -64);
    }
}

impl Default for Chip8 {
    /// The same fresh machine `new` builds.
    fn default() -> (r: Chip8)
        ensures
            r.wf(),
            r@ == initial_machine(),
    {
        Chip8::new()
    }
}

impl Chip8 {
    /// The machine's invariant: its view is well-formed.
    pub open spec fn wf(&self) -> bool {
        self@.wf()
    }

    /// A fresh machine: zeroed registers and timers, cleared display and
    /// keys, the font table at the bottom of memory, the program counter at
    /// 0x200, running.
    pub fn new() -> (r: Chip8)
        ensures
            r.wf(),
            r@ == initial_machine(),
    {
        let mut bus = MemoryBus::new();
        let mut k: usize = 0;
        while k < FONT_BYTES
            invariant
                k <= FONT_BYTES,
                bus.wf(),
                forall|a: int|
                    0 <= a < MEM_SIZE ==> bus@[a] == (if 0 <= a < k {
                        FONT@[a]
                    } else {
                        0u8
                    }),
            decreases FONT_BYTES - k,
        {
            let _ = bus.write(k, FONT[k]);
            k += 1;
        }
        proof {
            assert(bus@ =~= initial_memory());
        }
        let r = Chip8 {
            bus,
            screen: Display::new(),
            regs: filled(16, 0u8),
            index: 0,
            pc: 0x200,
            sp: 0,
            stack: filled(16, 0u16),
            delay_timer: 0,
            sound_timer: 0,
            keys: filled(16, false),
            waiting: None,
            redraw: false,
        };
        proof {
            assert(r@ =~= initial_machine());
        }
        r
    }

    /// Copy a program into memory starting at 0x200. A program that would
    /// run past the end of memory is rejected whole and nothing changes.
    pub fn load_program(&mut self, program: &Vec<u8>) -> (r: Result<(), MemoryError>)
        requires
            old(self).wf(),
        ensures
            final(self).wf(),
            0x200 + program@.len() <= MEM_SIZE ==> {
                &&& r == Ok::<(), MemoryError>(())
                &&& final(self)@ == (MachineView {
                    mem: Seq::new(
                        MEM_SIZE as nat,
                        |a: int|
                            if 0x200 <= a < 0x200 + program@.len() {
                                program@[a - 0x200]
                            } else {
                                old(self)@.mem[a]
                            },
                    ),
                    ..old(self)@
                })
            },
            0x200 + program@.len() > MEM_SIZE ==> {
                &&& r == Err::<(), MemoryError>(MemoryError::OutOfRange)
                &&& final(self)@ == old(self)@
            },
    {
        let r = self.bus.load_program(program);
        proof {
            if 0x200 + program@.len() <= MEM_SIZE {
                assert(final(self)@ =~= (MachineView {
                    mem: Seq::new(
                        MEM_SIZE as nat,
                        |a: int|
                            if 0x200 <= a < 0x200 + program@.len() {
                                program@[a - 0x200]
                            } else {
                                old(self)@.mem[a]
                            },
                    ),
                    ..old(self)@
                }));
            }
        }
        r
    }

    /// Record a key going down or up. The execution unit only reads this
    /// state; the input collaborator calls here at its own cadence.
    pub fn set_key(&mut self, key: usize, pressed: bool)
        requires
            old(self).wf(),
            key < 16,
        ensures
            final(self).wf(),
            final(self)@ == (MachineView { keys: old(self)@.keys.update(key as int, pressed), ..old(self)@ }),
    {
        self.keys[key] = pressed;
    }

    /// The framebuffer, for the renderer: cell `x + y * 64` is pixel
    /// `(x, y)`, `true` is lit.
    pub fn framebuffer(&self) -> (r: &Vec<bool>)
        ensures
            r@ == self@.fb,
    {
        &self.screen.cells
    }

    /// Whether the display changed since `clear_redraw` was last called.
    pub fn should_render(&self) -> (r: bool)
        ensures
            r == self@.redraw,
    {
        self.redraw
    }

    /// Consume the redraw flag once the caller has repainted.
    pub fn clear_redraw(&mut self)
        requires
            old(self).wf(),
        ensures
            final(self).wf(),
            final(self)@ == (MachineView { redraw: false, ..old(self)@ }),
    {
        self.redraw = false;
    }

    /// Decrement both timers once, saturating at zero.
    fn tick_timers(&mut self)
        requires
            old(self).wf(),
        ensures
            final(self).wf(),
            final(self)@ == tick_view(old(self)@),
    {
        if self.delay_timer > 0 {
            self.delay_timer -= 1;
        }
        if self.sound_timer > 0 {
            self.sound_timer -= 1;
        }
    }

    /// Store registers 0 through `x` at `index ..`, dropping cells past the
    /// end of memory.
    fn exec_store_regs(&mut self, x: u8)
        requires
            old(self).wf(),
            x < 16,
        ensures
            final(self).wf(),
            final(self)@ == (MachineView {
                mem: store_span(old(self)@.mem, old(self)@.regs, old(self)@.index, x),
                ..old(self)@
            }),
    {
        let ghost v0 = old(self)@;
        let mut k: usize = 0;
        while k <= x as usize
            invariant
                self.wf(),
                v0.wf(),
                k <= x + 1,
                x < 16,
                self@ == (MachineView { mem: self@.mem, ..v0 }),
                forall|a: int|
                    0 <= a < MEM_SIZE ==> self@.mem[a] == (if v0.index <= a < v0.index + k {
                        v0.regs[a - v0.index]
                    } else {
                        v0.mem[a]
                    }),
            decreases x + 1 - k,
        {
            let addr = (self.index as usize) + k;
            let _ = self.bus.write(addr, self.regs[k]);
            k += 1;
        }
        proof {
            assert(self@.mem =~= store_span(v0.mem, v0.regs, v0.index, x));
            assert(self@ =~= (MachineView { mem: store_span(v0.mem, v0.regs, v0.index, x), ..v0 }));
        }
    }

    /// Load registers 0 through `x` from `index ..`; a source cell past the
    /// end of memory leaves its register untouched.
    fn exec_load_regs(&mut self, x: u8)
        requires
            old(self).wf(),
            x < 16,
        ensures
            final(self).wf(),
            final(self)@ == (MachineView {
                regs: load_span(old(self)@.regs, old(self)@.mem, old(self)@.index, x),
                ..old(self)@
            }),
    {
        let ghost v0 = old(self)@;
        let mut k: usize = 0;
        while k <= x as usize
            invariant
                self.wf(),
                v0.wf(),
                k <= x + 1,
                x < 16,
                self@ == (MachineView { regs: self@.regs, ..v0 }),
                forall|j: int|
                    0 <= j < 16 ==> self@.regs[j] == (if j < k && v0.index + j < MEM_SIZE {
                        v0.mem[v0.index + j]
                    } else {
                        v0.regs[j]
                    }),
            decreases x + 1 - k,
        {
            let addr = (self.index as usize) + k;
            if addr < MEM_SIZE {
                let b = self.bus.bytes[addr];
                self.regs[k] = b;
            }
            k += 1;
        }
        proof {
            assert(self@.regs =~= load_span(v0.regs, v0.mem, v0.index, x));
            assert(self@ =~= (MachineView { regs: load_span(v0.regs, v0.mem, v0.index, x), ..v0 }));
        }
    }

    /// XOR-composite an `n`-row sprite read from `index ..` onto the display
    /// at `(px, py)`, clipping at the buffer's extent; reports whether a
    /// previously-lit cell was turned off.
    fn draw_sprite(&mut self, px: u8, py: u8, n: u8) -> (hit: bool)
        requires
            old(self).wf(),
            n < 16,
        ensures
            final(self).wf(),
            final(self)@ == (MachineView {
                fb: spec_draw(old(self)@.fb, old(self)@.mem, old(self)@.index, px, py, n),
                ..old(self)@
            }),
            hit == spec_collision(old(self)@.fb, old(self)@.mem, old(self)@.index, px, py, n),
    {
        let ghost v0 = old(self)@;
        let ghost m = v0.mem;
        let ghost fb0 = v0.fb;
        let ghost idx = v0.index;
        let mut hit = false;
        let mut r: usize = 0;
        while r < n as usize
            invariant
                self.wf(),
                v0.wf(),
                m == v0.mem,
                fb0 == v0.fb,
                idx == v0.index,
                r <= n,
                n < 16,
                self@ == (MachineView { fb: self@.fb, ..v0 }),
                forall|p: int|
                    0 <= p < FB_SIZE ==> self@.fb[p] == (if covered_upto(
                        m,
                        idx,
                        px,
                        py,
                        r as int,
                        0,
                        p,
                    ) {
                        !fb0[p]
                    } else {
                        fb0[p]
                    }),
                hit == exists|p: int|
                    0 <= p < FB_SIZE && covered_upto(m, idx, px, py, r as int, 0, p) && fb0[p],
            decreases n - r,
        {
            let rowaddr = (self.index as usize) + r;
            let row_byte: u8 = if rowaddr < MEM_SIZE {
                self.bus.bytes[rowaddr]
            } else {
                0
            };
            proof {
                assert(row_byte == sprite_row(m, idx, r as int));
            }
            let mut c: usize = 0;
            while c < 8
                invariant
                    self.wf(),
                    v0.wf(),
                    m == v0.mem,
                    fb0 == v0.fb,
                    idx == v0.index,
                    r < n,
                    n < 16,
                    c <= 8,
                    row_byte == sprite_row(m, idx, r as int),
                    self@ == (MachineView { fb: self@.fb, ..v0 }),
                    forall|p: int|
                        0 <= p < FB_SIZE ==> self@.fb[p] == (if covered_upto(
                            m,
                            idx,
                            px,
                            py,
                            r as int,
                            c as int,
                            p,
                        ) {
                            !fb0[p]
                        } else {
                            fb0[p]
                        }),
                    hit == exists|p: int|
                        0 <= p < FB_SIZE && covered_upto(m, idx, px, py, r as int, c as int, p)
                            && fb0[p],
                decreases 8 - c,
            {
                let ghost r_i = r as int;
                let ghost c_i = c as int;
                if row_byte & (0x80u8 >> (c as u8)) != 0 {
                    proof {
                        assert(sprite_bit(m, idx, r_i, c_i));
                    }
                    let pos = (px as usize) + c + ((py as usize) + r) * FB_WIDTH;
                    proof {
                        assert(pix_index(px, py, r_i, c_i) == pos);
                    }
                    if pos < FB_SIZE {
                        proof {
                            assert(!covered_upto(m, idx, px, py, r_i, c_i, pos as int)) by {
                                if covered_upto(m, idx, px, py, r_i, c_i, pos as int) {
                                    let (row, col) = choose|row: int, col: int|
                                        0 <= row && 0 <= col < 8 && (row < r_i || (row == r_i && col
                                            < c_i)) && sprite_bit(m, idx, row, col) && pix_index(
                                            px,
                                            py,
                                            row,
                                            col,
                                        ) == pos;
                                    lemma_pix_unique(px, py, row, col, r_i, c_i);
                                }
                            };
                            assert(covered_upto(m, idx, px, py, r_i, c_i + 1, pos as int)) by {
                                assert(0 <= r_i && 0 <= c_i < 8 && (r_i < r_i || (r_i == r_i && c_i
                                    < c_i + 1)) && sprite_bit(m, idx, r_i, c_i) && pix_index(
                                    px,
                                    py,
                                    r_i,
                                    c_i,
                                ) == pos);
                            };
                            assert forall|p: int|
                                0 <= p < FB_SIZE && p != pos implies (covered_upto(
                                m,
                                idx,
                                px,
                                py,
                                r_i,
                                c_i + 1,
                                p,
                            ) == covered_upto(m, idx, px, py, r_i, c_i, p)) by {
                                if covered_upto(m, idx, px, py, r_i, c_i + 1, p) {
                                    let (row, col) = choose|row: int, col: int|
                                        0 <= row && 0 <= col < 8 && (row < r_i || (row == r_i && col
                                            < c_i + 1)) && sprite_bit(m, idx, row, col)
                                            && pix_index(px, py, row, col) == p;
                                    if row == r_i && col == c_i {
                                        assert(p == pos);
                                    } else {
                                        assert(row < r_i || (row == r_i && col < c_i));
                                        assert(covered_upto(m, idx, px, py, r_i, c_i, p));
                                    }
                                }
                                if covered_upto(m, idx, px, py, r_i, c_i, p) {
                                    let (row, col) = choose|row: int, col: int|
                                        0 <= row && 0 <= col < 8 && (row < r_i || (row == r_i && col
                                            < c_i)) && sprite_bit(m, idx, row, col) && pix_index(
                                            px,
                                            py,
                                            row,
                                            col,
                                        ) == p;
                                    assert(row < r_i || (row == r_i && col < c_i + 1));
                                    assert(covered_upto(m, idx, px, py, r_i, c_i + 1, p));
                                }
                            };
                        }
                        let was = self.screen.xor_pixel((px as usize) + c, (py as usize) + r);
                        proof {
                            assert(was == fb0[pos as int]);
                            if was {
                                assert(exists|p: int|
                                    0 <= p < FB_SIZE && covered_upto(
                                        m,
                                        idx,
                                        px,
                                        py,
                                        r_i,
                                        c_i + 1,
                                        p,
                                    ) && fb0[p]) by {
                                    assert(0 <= pos < FB_SIZE && covered_upto(
                                        m,
                                        idx,
                                        px,
                                        py,
                                        r_i,
                                        c_i + 1,
                                        pos as int,
                                    ) && fb0[pos as int]);
                                };
                            } else {
                                assert((exists|p: int|
                                    0 <= p < FB_SIZE && covered_upto(
                                        m,
                                        idx,
                                        px,
                                        py,
                                        r_i,
                                        c_i + 1,
                                        p,
                                    ) && fb0[p]) == (exists|p: int|
                                    0 <= p < FB_SIZE && covered_upto(m, idx, px, py, r_i, c_i, p)
                                        && fb0[p])) by {
                                    if exists|p: int|
                                        0 <= p < FB_SIZE && covered_upto(
                                            m,
                                            idx,
                                            px,
                                            py,
                                            r_i,
                                            c_i + 1,
                                            p,
                                        ) && fb0[p] {
                                        let p = choose|p: int|
                                            0 <= p < FB_SIZE && covered_upto(
                                                m,
                                                idx,
                                                px,
                                                py,
                                                r_i,
                                                c_i + 1,
                                                p,
                                            ) && fb0[p];
                                        assert(p != pos);
                                        assert(covered_upto(m, idx, px, py, r_i, c_i, p));
                                    }
                                    if exists|p: int|
                                        0 <= p < FB_SIZE && covered_upto(
                                            m,
                                            idx,
                                            px,
                                            py,
                                            r_i,
                                            c_i,
                                            p,
                                        ) && fb0[p] {
                                        let p = choose|p: int|
                                            0 <= p < FB_SIZE && covered_upto(
                                                m,
                                                idx,
                                                px,
                                                py,
                                                r_i,
                                                c_i,
                                                p,
                                            ) && fb0[p];
                                        assert(covered_upto(m, idx, px, py, r_i, c_i + 1, p));
                                    }
                                };
                            }
                        }
                        if was {
                            hit = true;
                        }
                    } else {
                        proof {
                            assert forall|p: int|
                                0 <= p < FB_SIZE implies (covered_upto(
                                m,
                                idx,
                                px,
                                py,
                                r_i,
                                c_i + 1,
                                p,
                            ) == covered_upto(m, idx, px, py, r_i, c_i, p)) by {
                                if covered_upto(m, idx, px, py, r_i, c_i + 1, p) {
                                    let (row, col) = choose|row: int, col: int|
                                        0 <= row && 0 <= col < 8 && (row < r_i || (row == r_i && col
                                            < c_i + 1)) && sprite_bit(m, idx, row, col)
                                            && pix_index(px, py, row, col) == p;
                                    if row == r_i && col == c_i {
                                        assert(p == pix_index(px, py, r_i, c_i));
                                        assert(false);
                                    } else {
                                        assert(covered_upto(m, idx, px, py, r_i, c_i, p));
                                    }
                                }
                                if covered_upto(m, idx, px, py, r_i, c_i, p) {
                                    let (row, col) = choose|row: int, col: int|
                                        0 <= row && 0 <= col < 8 && (row < r_i || (row == r_i && col
                                            < c_i)) && sprite_bit(m, idx, row, col) && pix_index(
                                            px,
                                            py,
                                            row,
                                            col,
                                        ) == p;
                                    assert(covered_upto(m, idx, px, py, r_i, c_i + 1, p));
                                }
                            };
                        }
                    }
                } else {
                    proof {
                        assert(!sprite_bit(m, idx, r_i, c_i));
                        assert forall|p: int|
                            0 <= p < FB_SIZE implies (covered_upto(m, idx, px, py, r_i, c_i + 1, p)
                            == covered_upto(m, idx, px, py, r_i, c_i, p)) by {
                            if covered_upto(m, idx, px, py, r_i, c_i + 1, p) {
                                let (row, col) = choose|row: int, col: int|
                                    0 <= row && 0 <= col < 8 && (row < r_i || (row == r_i && col
                                        < c_i + 1)) && sprite_bit(m, idx, row, col) && pix_index(
                                        px,
                                        py,
                                        row,
                                        col,
                                    ) == p;
                                assert(!(row == r_i && col == c_i));
                                assert(covered_upto(m, idx, px, py, r_i, c_i, p));
                            }
                            if covered_upto(m, idx, px, py, r_i, c_i, p) {
                                let (row, col) = choose|row: int, col: int|
                                    0 <= row && 0 <= col < 8 && (row < r_i || (row == r_i && col
                                        < c_i)) && sprite_bit(m, idx, row, col) && pix_index(
                                        px,
                                        py,
                                        row,
                                        col,
                                    ) == p;
                                assert(covered_upto(m, idx, px, py, r_i, c_i + 1, p));
                            }
                        };
                    }
                }
                c += 1;
            }
            proof {
                let r_i = r as int;
                assert forall|p: int|
                    0 <= p < FB_SIZE implies (covered_upto(m, idx, px, py, r_i, 8, p)
                    == covered_upto(m, idx, px, py, r_i + 1, 0, p)) by {
                    if covered_upto(m, idx, px, py, r_i, 8, p) {
                        let (row, col) = choose|row: int, col: int|
                            0 <= row && 0 <= col < 8 && (row < r_i || (row == r_i && col < 8))
                                && sprite_bit(m, idx, row, col) && pix_index(px, py, row, col)
                                == p;
                        assert(row < r_i + 1);
                        assert(covered_upto(m, idx, px, py, r_i + 1, 0, p));
                    }
                    if covered_upto(m, idx, px, py, r_i + 1, 0, p) {
                        let (row, col) = choose|row: int, col: int|
                            0 <= row && 0 <= col < 8 && (row < r_i + 1 || (row == r_i + 1 && col
                                < 0)) && sprite_bit(m, idx, row, col) && pix_index(px, py, row, col)
                                == p;
                        assert(row < r_i || (row == r_i && col < 8));
                        assert(covered_upto(m, idx, px, py, r_i, 8, p));
                    }
                };
            }
            r += 1;
        }
        proof {
            let n_i = n as int;
            assert forall|p: int|
                0 <= p < FB_SIZE implies (covered_upto(m, idx, px, py, n_i, 0, p) == covered(
                m,
                idx,
                px,
                py,
                n,
                p,
            )) by {
                if covered_upto(m, idx, px, py, n_i, 0, p) {
                    let (row, col) = choose|row: int, col: int|
                        0 <= row && 0 <= col < 8 && (row < n_i || (row == n_i && col < 0))
                            && sprite_bit(m, idx, row, col) && pix_index(px, py, row, col) == p;
                    assert(0 <= row < n && 0 <= col < 8 && sprite_bit(m, idx, row, col)
                        && pix_index(px, py, row, col) == p);
                }
                if covered(m, idx, px, py, n, p) {
                    let (row, col) = choose|row: int, col: int|
                        0 <= row < n && 0 <= col < 8 && sprite_bit(m, idx, row, col) && pix_index(
                            px,
                            py,
                            row,
                            col,
                        ) == p;
                    assert(covered_upto(m, idx, px, py, n_i, 0, p));
                }
            };
            assert(self@.fb =~= spec_draw(fb0, m, idx, px, py, n));
            assert(self@ =~= (MachineView { fb: spec_draw(fb0, m, idx, px, py, n), ..v0 }));
            assert(hit == spec_collision(fb0, m, idx, px, py, n)) by {
                if hit {
                    let p = choose|p: int|
                        0 <= p < FB_SIZE && covered_upto(m, idx, px, py, n as int, 0, p) && fb0[p];
                    assert(covered(m, idx, px, py, n, p) && fb0[p]);
                }
                if spec_collision(fb0, m, idx, px, py, n) {
                    let p = choose|p: int|
                        0 <= p < fb0.len() && covered(m, idx, px, py, n, p) && fb0[p];
                    assert(0 <= p < FB_SIZE && covered_upto(m, idx, px, py, n as int, 0, p)
                        && fb0[p]);
                }
            };
        }
        hit
    }

    /// Execute one already-decoded instruction: the dispatch heart of the
    /// machine. `rand` is the byte the random-number source supplied for
    /// this step; only the `Random` instruction reads it. Timer decrement is
    /// `step`'s business, not this function's.
    pub fn execute(&mut self, ins: Instruction, rand: u8) -> (out: StepOutcome)
        requires
            old(self).wf(),
            instr_wf(ins),
        ensures
            final(self).wf(),
            final(self)@ == spec_execute(old(self)@, ins, rand).0,
            out == spec_execute(old(self)@, ins, rand).1,
    {
        match ins {
            Instruction::Cls => {
                self.screen.clear();
                self.redraw = true;
                self.pc = next_pc(self.pc, 2);
                proof {
                    assert(self@ =~= spec_execute(old(self)@, ins, rand).0);
                }
                StepOutcome::Ran { redraw: true }
            },
            Instruction::Ret => {
                if self.sp == 0 {
                    StepOutcome::StackError { fault: StackFault::Underflow }
                } else {
                    self.sp = self.sp - 1;
                    self.pc = next_pc(self.stack[self.sp], 2);
                    proof {
                        assert(self@ =~= spec_execute(old(self)@, ins, rand).0);
                    }
                    StepOutcome::Ran { redraw: false }
                }
            },
            Instruction::Jump { nnn } => {
                self.pc = nnn;
                StepOutcome::Ran { redraw: false }
            },
            Instruction::Call { nnn } => {
                if self.sp >= 16 {
                    StepOutcome::StackError { fault: StackFault::Overflow }
                } else {
                    self.stack[self.sp] = self.pc;
                    self.sp = self.sp + 1;
                    self.pc = nnn;
                    proof {
                        assert(self@ =~= spec_execute(old(self)@, ins, rand).0);
                    }
                    StepOutcome::Ran { redraw: false }
                }
            },
            Instruction::SkipEqImm { x, kk } => {
                let k: u16 = if self.regs[x as usize] == kk {
                    4
                } else {
                    2
                };
                self.pc = next_pc(self.pc, k);
                StepOutcome::Ran { redraw: false }
            },
            Instruction::SkipNeImm { x, kk } => {
                let k: u16 = if self.regs[x as usize] != kk {
                    4
                } else {
                    2
                };
                self.pc = next_pc(self.pc, k);
                StepOutcome::Ran { redraw: false }
            },
            Instruction::SkipEqReg { x, y } => {
                let k: u16 = if self.regs[x as usize] == self.regs[y as usize] {
                    4
                } else {
                    2
                };
                self.pc = next_pc(self.pc, k);
                StepOutcome::Ran { redraw: false }
            },
            Instruction::SetImm { x, kk } => {
                self.regs[x as usize] = kk;
                self.pc = next_pc(self.pc, 2);
                StepOutcome::Ran { redraw: false }
            },
            Instruction::AddImm { x, kk } => {
                let a = self.regs[x as usize];
                self.regs[x as usize] = (((a as u16) + (kk as u16)) % 256) as u8;
                self.pc = next_pc(self.pc, 2);
                proof {
                    assert(self@ =~= spec_execute(old(self)@, ins, rand).0);
                }
                StepOutcome::Ran { redraw: false }
            },
            Instruction::Copy { x, y } => {
                self.regs[x as usize] = self.regs[y as usize];
                self.pc = next_pc(self.pc, 2);
                StepOutcome::Ran { redraw: false }
            },
            Instruction::Or { x, y } => {
                self.regs[x as usize] = self.regs[x as usize] | self.regs[y as usize];
                self.pc = next_pc(self.pc, 2);
                StepOutcome::Ran { redraw: false }
            },
            Instruction::And { x, y } => {
                self.regs[x as usize] = self.regs[x as usize] & self.regs[y as usize];
                self.pc = next_pc(self.pc, 2);
                StepOutcome::Ran { redraw: false }
            },
            Instruction::Xor { x, y } => {
                self.regs[x as usize] = self.regs[x as usize] ^ self.regs[y as usize];
                self.pc = next_pc(self.pc, 2);
                StepOutcome::Ran { redraw: false }
            },
            Instruction::Add { x, y } => {
                let sum: u16 = (self.regs[x as usize] as u16) + (self.regs[y as usize] as u16);
                self.regs[x as usize] = (sum % 256) as u8;
                self.regs[15] = if sum > 255 {
                    1
                } else {
                    0
                };
                self.pc = next_pc(self.pc, 2);
                proof {
                    assert(self@ =~= spec_execute(old(self)@, ins, rand).0);
                }
                StepOutcome::Ran { redraw: false }
            },
            Instruction::Sub { x, y } => {
                self.regs[15] = if self.regs[x as usize] > self.regs[y as usize] {
                    1
                } else {
                    0
                };
                let a = self.regs[x as usize];
                let b = self.regs[y as usize];
                self.regs[x as usize] = if a >= b {
                    a - b
                } else {
                    (256 + (a as u16) - (b as u16)) as u8
                };
                self.pc = next_pc(self.pc, 2);
                proof {
                    assert(self@ =~= spec_execute(old(self)@, ins, rand).0);
                }
                StepOutcome::Ran { redraw: false }
            },
            Instruction::Shr { x } => {
                self.regs[15] = self.regs[x as usize] % 2;
                let a = self.regs[x as usize];
                self.regs[x as usize] = a / 2;
                self.pc = next_pc(self.pc, 2);
                proof {
                    assert(self@ =~= spec_execute(old(self)@, ins, rand).0);
                }
                StepOutcome::Ran { redraw: false }
            },
            Instruction::SubRev { x, y } => {
                self.regs[15] = if self.regs[y as usize] > self.regs[x as usize] {
                    1
                } else {
                    0
                };
                let a = self.regs[x as usize];
                let b = self.regs[y as usize];
                self.regs[x as usize] = if b >= a {
                    b - a
                } else {
                    (256 + (b as u16) - (a as u16)) as u8
                };
                self.pc = next_pc(self.pc, 2);
                proof {
                    assert(self@ =~= spec_execute(old(self)@, ins, rand).0);
                }
                StepOutcome::Ran { redraw: false }
            },
            Instruction::Shl { x } => {
                self.regs[15] = self.regs[x as usize] / 128;
                let a = self.regs[x as usize];
                self.regs[x as usize] = (((a as u16) * 2) % 256) as u8;
                self.pc = next_pc(self.pc, 2);
                proof {
                    assert(self@ =~= spec_execute(old(self)@, ins, rand).0);
                }
                StepOutcome::Ran { redraw: false }
            },
            Instruction::SkipNeReg { x, y } => {
                let k: u16 = if self.regs[x as usize] != self.regs[y as usize] {
                    4
                } else {
                    2
                };
                self.pc = next_pc(self.pc, k);
                StepOutcome::Ran { redraw: false }
            },
            Instruction::SetIndex { nnn } => {
                self.index = nnn;
                self.pc = next_pc(self.pc, 2);
                StepOutcome::Ran { redraw: false }
            },
            Instruction::JumpPlus { nnn } => {
                self.pc = (((self.regs[0] as u32) + (nnn as u32)) % 0x10000) as u16;
                StepOutcome::Ran { redraw: false }
            },
            Instruction::Random { x, kk } => {
                self.regs[x as usize] = rand & kk;
                self.pc = next_pc(self.pc, 2);
                StepOutcome::Ran { redraw: false }
            },
            Instruction::Draw { x, y, n } => {
                let px = self.regs[x as usize];
                let py = self.regs[y as usize];
                let hit = self.draw_sprite(px, py, n);
                self.regs[15] = if hit {
                    1
                } else {
                    0
                };
                self.redraw = true;
                self.pc = next_pc(self.pc, 2);
                proof {
                    assert(self@ =~= spec_execute(old(self)@, ins, rand).0);
                }
                StepOutcome::Ran { redraw: true }
            },
            Instruction::SkipKey { x } => {
                let rx = self.regs[x as usize];
                let pressed = rx < 16 && self.keys[rx as usize];
                let k: u16 = if pressed {
                    4
                } else {
                    2
                };
                self.pc = next_pc(self.pc, k);
                StepOutcome::Ran { redraw: false }
            },
            Instruction::SkipNoKey { x } => {
                let rx = self.regs[x as usize];
                let pressed = rx < 16 && self.keys[rx as usize];
                let k: u16 = if !pressed {
                    4
                } else {
                    2
                };
                self.pc = next_pc(self.pc, k);
                StepOutcome::Ran { redraw: false }
            },
            Instruction::ReadDelay { x } => {
                self.regs[x as usize] = self.delay_timer;
                self.pc = next_pc(self.pc, 2);
                StepOutcome::Ran { redraw: false }
            },
            Instruction::WaitKey { x } => {
                match find_pressed(&self.keys) {
                    Some(k) => {
                        self.regs[x as usize] = k;
                        self.pc = next_pc(self.pc, 2);
                        proof {
                            assert(self@ =~= spec_execute(old(self)@, ins, rand).0);
                        }
                        StepOutcome::Ran { redraw: false }
                    },
                    None => {
                        self.waiting = Some(x);
                        proof {
                            assert(self@ =~= spec_execute(old(self)@, ins, rand).0);
                        }
                        StepOutcome::AwaitingKey
                    },
                }
            },
            Instruction::SetDelay { x } => {
                self.delay_timer = self.regs[x as usize];
                self.pc = next_pc(self.pc, 2);
                StepOutcome::Ran { redraw: false }
            },
            Instruction::SetSound { x } => {
                self.sound_timer = self.regs[x as usize];
                self.pc = next_pc(self.pc, 2);
                StepOutcome::Ran { redraw: false }
            },
            Instruction::AddIndex { x } => {
                self.index = (((self.index as u32) + (self.regs[x as usize] as u32))
                    % 0x10000) as u16;
                self.pc = next_pc(self.pc, 2);
                StepOutcome::Ran { redraw: false }
            },
            Instruction::FontIndex { x } => {
                self.index = (self.regs[x as usize] as u16) * 5;
                self.pc = next_pc(self.pc, 2);
                StepOutcome::Ran { redraw: false }
            },
            Instruction::StoreBcd { x } => {
                let val = self.regs[x as usize];
                let base = self.index as usize;
                let _ = self.bus.write(base, val / 100);
                let _ = self.bus.write(base + 1, (val / 10) % 10);
                let _ = self.bus.write(base + 2, val % 10);
                self.pc = next_pc(self.pc, 2);
                proof {
                    assert(self@ =~= spec_execute(old(self)@, ins, rand).0);
                }
                StepOutcome::Ran { redraw: false }
            },
            Instruction::StoreRegs { x } => {
                self.exec_store_regs(x);
                self.pc = next_pc(self.pc, 2);
                proof {
                    assert(self@ =~= spec_execute(old(self)@, ins, rand).0);
                }
                StepOutcome::Ran { redraw: false }
            },
            Instruction::LoadRegs { x } => {
                self.exec_load_regs(x);
                self.pc = next_pc(self.pc, 2);
                proof {
                    assert(self@ =~= spec_execute(old(self)@, ins, rand).0);
                }
                StepOutcome::Ran { redraw: false }
            },
            Instruction::Unknown { word } => {
                self.pc = next_pc(self.pc, 2);
                StepOutcome::DecodeError { word }
            },
        }
    }

    /// One full step, with the random byte for this step passed in: while
    /// running, fetch the big-endian word at the program counter, decode,
    /// execute, then decrement the timers unless the instruction faulted or
    /// began a key wait; while waiting for a key, nothing moves until one is
    /// pressed, and the step that sees one stores its index and resumes.
    pub fn step_with(&mut self, rand: u8) -> (out: StepOutcome)
        requires
            old(self).wf(),
        ensures
            final(self).wf(),
            final(self)@ == spec_step(old(self)@, rand).0,
            out == spec_step(old(self)@, rand).1,
    {
        if let Some(x) = self.waiting {
            match find_pressed(&self.keys) {
                Some(k) => {
                    self.regs[x as usize] = k;
                    self.pc = next_pc(self.pc, 2);
                    self.waiting = None;
                    self.tick_timers();
                    proof {
                        assert(self@ =~= spec_step(old(self)@, rand).0);
                    }
                    StepOutcome::Ran { redraw: false }
                },
                None => StepOutcome::AwaitingKey,
            }
        } else {
            if self.pc as usize + 1 >= MEM_SIZE {
                StepOutcome::FetchOutOfRange
            } else {
                let hi = self.bus.bytes[self.pc as usize];
                let lo = self.bus.bytes[self.pc as usize + 1];
                let w: u16 = (hi as u16) * 256 + (lo as u16);
                proof {
                    assert(w == fetch_word(old(self)@));
                }
                let ins = decode(w);
                let out = self.execute(ins, rand);
                match out {
                    StepOutcome::Ran { .. } => self.tick_timers(),
                    StepOutcome::DecodeError { .. } => self.tick_timers(),
                    _ => {},
                }
                out
            }
        }
    }

    /// One full step, drawing this step's random byte from the thread-local
    /// generator: the machine afterwards is `spec_step` of the machine
    /// before at some byte, since nothing is promised of the draw.
    pub fn step(&mut self) -> (out: StepOutcome)
        requires
            old(self).wf(),
        ensures
            final(self).wf(),
            exists|b: u8| (final(self)@, out) == spec_step(old(self)@, b),
    {
        let b = crate::rng::random_byte();
        let out = self.step_with(b);
        proof {
            assert((self@, out) == spec_step(old(self)@, b));
        }
        out
    }
}

} // verus!
