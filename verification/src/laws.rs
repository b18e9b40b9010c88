//! Machine-wide laws, each proved against the instruction semantics in
//! `state`: carry and borrow flag polarity, the draw operation's
//! self-inverse, the register store/load round trip, and call/return
//! balance.

use vstd::prelude::*;
use crate::decode::Instruction;
use crate::state::{
    MachineView, StepOutcome, flag_val, pressed_key, spec_draw, spec_execute, spec_step, step_pc,
    tick_view,
};

verus! {

/// The add instruction's carry flag: for every pair of registers, the flag
/// ends 0 exactly when the widened sum fits in a byte and 1 exactly when it
/// does not, and (unless `x` is the flag register itself, which the flag
/// write then overwrites) `reg[x]` ends with the sum's low eight bits.
pub proof fn lemma_add_carry(v: MachineView, x: u8, y: u8, rand: u8)
    requires
        v.wf(),
        x < 16,
        y < 16,
    ensures
        ({
            let w = spec_execute(v, Instruction::Add { x, y }, rand).0;
            let sum = v.regs[x as int] + v.regs[y as int];
            &&& (sum <= 255 ==> w.regs[15] == 0)
            &&& (sum > 255 ==> w.regs[15] == 1)
            &&& (x != 15 ==> w.regs[x as int] == sum % 256)
        }),
{
}

/// The subtract instruction's borrow flag: when the operands differ, the
/// flag ends 1 exactly when no borrow occurs, that is when the minuend
/// `reg[x]` is at least the subtrahend `reg[y]`. Equal operands are left
/// out: the machine's flag tests strict order, so there the flag ends 0
/// although no borrow occurs. `x` may not be the flag register, whose value
/// the difference would overwrite.
pub proof fn lemma_sub_borrow(v: MachineView, x: u8, y: u8, rand: u8)
    requires
        v.wf(),
        x < 16,
        y < 16,
        x != 15,
        v.regs[x as int] != v.regs[y as int],
    ensures
        ({
            let w = spec_execute(v, Instruction::Sub { x, y }, rand).0;
            w.regs[15] == flag_val(v.regs[x as int] >= v.regs[y as int])
        }),
{
}

/// The reversed subtract's borrow flag: when the operands differ, the flag
/// ends 1 exactly when no borrow occurs, that is when the minuend `reg[y]`
/// is at least the subtrahend `reg[x]`. Equal operands are left out as in
/// `lemma_sub_borrow`, and `x` may not be the flag register.
pub proof fn lemma_subrev_borrow(v: MachineView, x: u8, y: u8, rand: u8)
    requires
        v.wf(),
        x < 16,
        y < 16,
        x != 15,
        v.regs[x as int] != v.regs[y as int],
    ensures
        ({
            let w = spec_execute(v, Instruction::SubRev { x, y }, rand).0;
            w.regs[15] == flag_val(v.regs[y as int] >= v.regs[x as int])
        }),
{
}

/// The draw operation is self-inverse on the framebuffer: compositing the
/// same sprite at the same position twice restores every cell, because each
/// covered cell flips twice and every other cell never moves.
pub proof fn lemma_draw_self_inverse(
    fb: Seq<bool>,
    mem: Seq<u8>,
    index: u16,
    px: u8,
    py: u8,
    n: u8,
)
    ensures
        spec_draw(spec_draw(fb, mem, index, px, py, n), mem, index, px, py, n) == fb,
{
    let fb1 = spec_draw(fb, mem, index, px, py, n);
    let fb2 = spec_draw(fb1, mem, index, px, py, n);
    assert(fb2 =~= fb);
}

/// The draw instruction executed twice with unchanged operand registers
/// returns the framebuffer to its pre-draw state: the first draw changes
/// only the framebuffer, the flag register and the counters, so the second
/// reads the same sprite at the same position and undoes the first.
pub proof fn lemma_draw_twice_restores(v: MachineView, x: u8, y: u8, n: u8, r1: u8, r2: u8)
    requires
        v.wf(),
        x < 16,
        y < 16,
        x != 15,
        y != 15,
    ensures
        ({
            let v1 = spec_execute(v, Instruction::Draw { x, y, n }, r1).0;
            let v2 = spec_execute(v1, Instruction::Draw { x, y, n }, r2).0;
            v2.fb == v.fb
        }),
{
    let v1 = spec_execute(v, Instruction::Draw { x, y, n }, r1).0;
    lemma_draw_self_inverse(v.fb, v.mem, v.index, v.regs[x as int], v.regs[y as int], n);
}

/// Storing registers 0 through `x` at `index ..` and then loading the same
/// span back leaves every register exactly as it was: cells the store had
/// to drop at the end of memory are the very ones the load skips.
pub proof fn lemma_store_load_roundtrip(v: MachineView, x: u8, r1: u8, r2: u8)
    requires
        v.wf(),
        x < 16,
    ensures
        ({
            let v1 = spec_execute(v, Instruction::StoreRegs { x }, r1).0;
            let v2 = spec_execute(v1, Instruction::LoadRegs { x }, r2).0;
            v2.regs == v.regs
        }),
{
    let v1 = spec_execute(v, Instruction::StoreRegs { x }, r1).0;
    let v2 = spec_execute(v1, Instruction::LoadRegs { x }, r2).0;
    assert(v2.regs =~= v.regs);
}

/// While the machine waits for a key and none is pressed, a step moves
/// nothing at all: no program-counter advance, no timer decrement, no other
/// mutation, however many times the caller steps.
pub proof fn lemma_wait_blocks(v: MachineView, b: u8)
    requires
        v.wf(),
        v.waiting is Some,
        pressed_key(v.keys) is None,
    ensures
        spec_step(v, b) == (v, StepOutcome::AwaitingKey),
{
}

/// The step that finds a key pressed while the machine waits stores that
/// key's index in the register the wait named, advances past the wait
/// instruction, resumes running, and ticks the timers once.
pub proof fn lemma_wait_resumes(v: MachineView, x: u8, k: u8, b: u8)
    requires
        v.wf(),
        v.waiting == Some(x),
        pressed_key(v.keys) == Some(k),
    ensures
        ({
            let (w, out) = spec_step(v, b);
            &&& w == tick_view(
                MachineView {
                    regs: v.regs.update(x as int, k),
                    pc: step_pc(v.pc, 2),
                    waiting: None,
                    ..v
                },
            )
            &&& out == StepOutcome::Ran { redraw: false }
        }),
{
}

/// The machine after a chain of nested calls, innermost last.
pub open spec fn exec_calls(v: MachineView, targets: Seq<u16>) -> MachineView
    decreases targets.len(),
{
    if targets.len() == 0 {
        v
    } else {
        exec_calls(
            spec_execute(v, Instruction::Call { nnn: targets[0] }, 0).0,
            targets.subrange(1, targets.len() as int),
        )
    }
}

/// The machine after `n` returns, the last one applied outermost.
pub open spec fn exec_rets(v: MachineView, n: nat) -> MachineView
    decreases n,
{
    if n == 0 {
        v
    } else {
        spec_execute(exec_rets(v, (n - 1) as nat), Instruction::Ret, 0).0
    }
}

/// The shape of the machine after a chain of nested calls: the stack
/// pointer rose by one per call, the slots above the old stack pointer hold
/// the saved return chain (the original program counter first, then each
/// call's target), the program counter sits at the last target, and nothing
/// else moved.
proof fn lemma_calls_shape(v: MachineView, targets: Seq<u16>)
    requires
        v.wf(),
        v.sp + targets.len() <= 16,
    ensures
        ({
            let w = exec_calls(v, targets);
            &&& w.sp == v.sp + targets.len()
            &&& forall|j: int| 0 <= j < v.sp ==> w.stack[j] == v.stack[j]
            &&& (targets.len() >= 1 ==> w.stack[v.sp as int] == v.pc)
            &&& forall|i: int| 1 <= i < targets.len() ==> #[trigger] w.stack[v.sp + i] == targets[i
                - 1]
            &&& w.pc == (if targets.len() == 0 {
                v.pc
            } else {
                targets[targets.len() - 1]
            })
            &&& w.stack.len() == 16
            &&& w.regs == v.regs
            &&& w.mem == v.mem
            &&& w.fb == v.fb
            &&& w.index == v.index
            &&& w.delay == v.delay
            &&& w.sound == v.sound
            &&& w.keys == v.keys
            &&& w.waiting == v.waiting
            &&& w.redraw == v.redraw
            &&& w.wf()
        }),
    decreases targets.len(),
{
    if targets.len() == 0 {
    } else {
        let v1 = spec_execute(v, Instruction::Call { nnn: targets[0] }, 0).0;
        assert(v1.sp == v.sp + 1);
        assert(v1.stack == v.stack.update(v.sp as int, v.pc));
        let ts = targets.subrange(1, targets.len() as int);
        lemma_calls_shape(v1, ts);
        assert(exec_calls(v, targets) == exec_calls(v1, ts));
        let w = exec_calls(v1, ts);
        assert(w.stack[v.sp as int] == v1.stack[v.sp as int]);
        assert forall|i: int| 1 <= i < targets.len() implies #[trigger] w.stack[v.sp + i]
            == targets[i - 1] by {
            if i == 1 {
                assert(w.stack[v1.sp as int] == v1.pc);
            } else {
                assert(w.stack[v1.sp + (i - 1)] == ts[i - 2]);
                assert(ts[i - 2] == targets[i - 1]);
            }
        };
        if ts.len() >= 1 {
            assert(ts[ts.len() - 1] == targets[targets.len() - 1]);
        }
    }
}

/// The shape of the machine after `k` returns on a stack holding at least
/// `k` frames: the stack pointer fell by `k`, the program counter sits two
/// past the address saved in the lowest frame popped, the slots themselves
/// are untouched, and nothing else moved.
proof fn lemma_rets_shape(u: MachineView, k: nat)
    requires
        u.wf(),
        k <= u.sp,
    ensures
        ({
            let w = exec_rets(u, k);
            &&& w.sp == u.sp - k
            &&& w.stack == u.stack
            &&& w.pc == (if k == 0 {
                u.pc
            } else {
                ((u.stack[u.sp - k] + 2) % 0x10000) as u16
            })
            &&& w.regs == u.regs
            &&& w.mem == u.mem
            &&& w.fb == u.fb
            &&& w.index == u.index
            &&& w.delay == u.delay
            &&& w.sound == u.sound
            &&& w.keys == u.keys
            &&& w.waiting == u.waiting
            &&& w.redraw == u.redraw
            &&& w.wf()
        }),
    decreases k,
{
    if k == 0 {
    } else {
        lemma_rets_shape(u, (k - 1) as nat);
        let w1 = exec_rets(u, (k - 1) as nat);
        assert(w1.sp == u.sp - (k - 1) >= 1);
        assert(exec_rets(u, k) == spec_execute(w1, Instruction::Ret, 0).0);
    }
}

/// Call/return balance: any number of nested calls followed by as many
/// returns brings the program counter back to the instruction after the
/// first call, restores the stack pointer and every live stack slot below
/// it, and touches nothing else of the machine.
#[verifier::rlimit(100)]
pub proof fn lemma_call_return_balance(v: MachineView, targets: Seq<u16>)
    requires
        v.wf(),
        targets.len() >= 1,
        v.sp + targets.len() <= 16,
        v.pc + 2 < 0x10000,
    ensures
        ({
            let w = exec_rets(exec_calls(v, targets), targets.len());
            &&& w.pc == v.pc + 2
            &&& w.sp == v.sp
            &&& forall|j: int| 0 <= j < v.sp ==> w.stack[j] == v.stack[j]
            &&& w.regs == v.regs
            &&& w.mem == v.mem
            &&& w.fb == v.fb
            &&& w.index == v.index
            &&& w.delay == v.delay
            &&& w.sound == v.sound
            &&& w.keys == v.keys
            &&& w.waiting == v.waiting
            &&& w.redraw == v.redraw
            &&& w.wf()
        }),
{
    lemma_calls_shape(v, targets);
    let u = exec_calls(v, targets);
    lemma_rets_shape(u, targets.len());
    assert(u.stack[u.sp - targets.len()] == v.pc);
    assert(((v.pc + 2) % 0x10000) == v.pc + 2);
}

} // verus!
