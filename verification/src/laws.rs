//! Machine-level theorems, proved from the semantics in [`crate::machine`].

use vstd::prelude::*;

use crate::machine::{
    advanced, arity_spec, decode_ok, dest_idx, dest_ok, exec_op_spec, not15, op_at, resolvable,
    resolve_spec, run_n, spec_step, with_reg, Fault, Op, StepRes, VmState,
};

verus! {

/// A resolved operand is always a literal: below 32768.
pub proof fn lemma_resolve_in_range(s: VmState, x: u16)
    requires
        s.wf(),
        resolvable(x),
    ensures
        resolve_spec(s.regs, x) < 32768,
{
}

/// Whatever one step does — continue, halt, ask for input or abort —
/// the machine it leaves behind is well formed. In particular every
/// register still holds a value in `[0, 32767]`, never a raw register
/// name, after any instruction.
pub proof fn lemma_step_preserves_wf(s: VmState)
    requires
        s.wf(),
    ensures
        spec_step(s) matches StepRes::Next(t) ==> t.wf(),
        spec_step(s) matches StepRes::Halt(t) ==> t.wf(),
        spec_step(s) matches StepRes::Need(t) ==> t.wf(),
        spec_step(s) matches StepRes::Abort(f, t) ==> t.wf(),
{
    if decode_ok(s) {
        let t = advanced(s);
        assert(t.wf());
        lemma_exec_op_preserves_wf(t, op_at(s.mem, s.pc));
    }
}

/// The same, for the execution of one decoded instruction.
pub proof fn lemma_exec_op_preserves_wf(s: VmState, op: Op)
    requires
        s.wf(),
    ensures
        exec_op_spec(s, op) matches StepRes::Next(t) ==> t.wf(),
        exec_op_spec(s, op) matches StepRes::Halt(t) ==> t.wf(),
        exec_op_spec(s, op) matches StepRes::Need(t) ==> t.wf(),
        exec_op_spec(s, op) matches StepRes::Abort(f, t) ==> t.wf(),
{
}

/// Well-formedness holds after any number of instructions, wherever a
/// bounded run stops: from a well-formed machine, only well-formed
/// machines are reachable.
pub proof fn lemma_run_n_preserves_wf(s: VmState, n: nat)
    requires
        s.wf(),
    ensures
        run_n(s, n) matches StepRes::Next(t) ==> t.wf(),
        run_n(s, n) matches StepRes::Halt(t) ==> t.wf(),
        run_n(s, n) matches StepRes::Need(t) ==> t.wf(),
        run_n(s, n) matches StepRes::Abort(f, t) ==> t.wf(),
    decreases n,
{
    if n > 0 {
        lemma_run_n_preserves_wf(s, (n - 1) as nat);
        match run_n(s, (n - 1) as nat) {
            StepRes::Next(t) => lemma_step_preserves_wf(t),
            _ => {},
        }
    }
}

/// `Add` stores the sum of its two resolved source values, reduced
/// modulo 32768, in the destination register — for every pair of source
/// values the machine can resolve.
pub proof fn lemma_add_mod(s: VmState, a: u16, b: u16, c: u16)
    requires
        s.wf(),
        dest_ok(a),
        resolvable(b),
        resolvable(c),
    ensures
        exec_op_spec(s, Op::Add(a, b, c)) matches StepRes::Next(t) && t.regs[dest_idx(a)] == (
        resolve_spec(s.regs, b) + resolve_spec(s.regs, c)) % 32768,
{
}

/// `Mul` stores the product of its two resolved source values, reduced
/// modulo 32768, in the destination register.
pub proof fn lemma_mul_mod(s: VmState, a: u16, b: u16, c: u16)
    requires
        s.wf(),
        dest_ok(a),
        resolvable(b),
        resolvable(c),
    ensures
        exec_op_spec(s, Op::Mul(a, b, c)) matches StepRes::Next(t) && t.regs[dest_idx(a)] == (
        resolve_spec(s.regs, b) * resolve_spec(s.regs, c)) % 32768,
{
}

/// The 15-bit complement is its own inverse on literals.
pub proof fn lemma_not_self_inverse(x: u16)
    requires
        x < 32768,
    ensures
        not15(not15(x)) == x,
{
}

/// `Eq` and `Gt` store exactly 0 or 1, never any other value.
pub proof fn lemma_eq_gt_boolean(s: VmState, a: u16, b: u16, c: u16)
    requires
        s.wf(),
        dest_ok(a),
        resolvable(b),
        resolvable(c),
    ensures
        exec_op_spec(s, Op::Eq(a, b, c)) matches StepRes::Next(t) && (t.regs[dest_idx(a)] == 0
            || t.regs[dest_idx(a)] == 1),
        exec_op_spec(s, Op::Gt(a, b, c)) matches StepRes::Next(t) && (t.regs[dest_idx(a)] == 0
            || t.regs[dest_idx(a)] == 1),
{
}

/// Round trip through memory: after `Wmem` writes a value at an address,
/// `Rmem` of any operand resolving to the same address reads that value
/// back, unchanged. Decoding reads the same memory, so self-modifying
/// code sees its own writes the same way.
pub proof fn lemma_wmem_rmem_round_trip(s: VmState, a: u16, b: u16, d: u16, e: u16)
    requires
        s.wf(),
        resolvable(a),
        resolvable(b),
        resolvable(e),
        dest_ok(d),
        resolve_spec(s.regs, e) == resolve_spec(s.regs, a),
        (resolve_spec(s.regs, a) as nat) < s.mem.len(),
    ensures
        exec_op_spec(s, Op::Wmem(a, b)) matches StepRes::Next(t) && (exec_op_spec(
            t,
            Op::Rmem(d, e),
        ) matches StepRes::Next(u) && u.regs[dest_idx(d)] == resolve_spec(s.regs, b)),
{
    let addr = resolve_spec(s.regs, a);
    let val = resolve_spec(s.regs, b);
    let t = (VmState { mem: s.mem.update(addr as int, val), ..s });
    assert(exec_op_spec(s, Op::Wmem(a, b)) == StepRes::Next(t));
    assert(t.mem[resolve_spec(t.regs, e) as int] == val);
}

/// `Call` pushes the address of the instruction after it (the program
/// counter as the decoder left it) and jumps; a `Ret` executed next, with
/// no stack manipulation in between, returns the program counter to
/// exactly that address and restores the stack, registers, memory and
/// queues.
pub proof fn lemma_call_ret_round_trip(s: VmState, a: u16)
    requires
        s.wf(),
        resolvable(a),
    ensures
        exec_op_spec(s, Op::Call(a)) matches StepRes::Next(t) && t.pc == resolve_spec(s.regs, a)
            && (exec_op_spec(t, Op::Ret) matches StepRes::Next(u) && u == (VmState {
            pc: s.pc,
            ..s
        })),
{
    let t = (VmState {
        pc: resolve_spec(s.regs, a) as nat,
        stack: s.stack.push(((s.pc % 65536) as u16)),
        ..s
    });
    assert(exec_op_spec(s, Op::Call(a)) == StepRes::Next(t));
    assert(t.stack.last() == (s.pc % 65536) as u16);
    assert(t.stack.drop_last() =~= s.stack);
    let u = (VmState { pc: t.stack.last() as nat, stack: t.stack.drop_last(), ..t });
    assert(exec_op_spec(t, Op::Ret) == StepRes::Next(u));
    assert(u =~= (VmState { pc: s.pc, ..s }));
}

/// The two empty-stack pops are classified apart: `Pop` on an empty stack
/// is a fatal underflow, while `Ret` on an empty stack is a graceful
/// halt. Neither changes the state.
pub proof fn lemma_pop_faults_ret_halts(s: VmState, a: u16)
    requires
        s.stack.len() == 0,
    ensures
        exec_op_spec(s, Op::Pop(a)) == StepRes::Abort(Fault::StackUnderflow, s),
        exec_op_spec(s, Op::Ret) == StepRes::Halt(s),
{
}

} // verus!
