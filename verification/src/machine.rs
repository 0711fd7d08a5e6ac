//! The virtual machine: state, instruction set, semantics, interpreter.
//!
//! The semantics is given twice. Spec functions ([`exec_op_spec`],
//! [`spec_step`], [`run_n`]) define, over a mathematical view of the
//! machine ([`VmState`]), what one instruction and what a bounded run do.
//! The executable interpreter ([`Vm`]) is then proved to follow those
//! functions exactly: every `ensures` below relates the machine after a
//! call to the spec-level result through [`corresponds`].

use vstd::prelude::*;

verus! {

/// A fatal condition. Any of these aborts a run immediately; none of them
/// can be handled by the running program.
#[derive(Clone, Copy, Debug, PartialEq, Eq, Structural)]
pub enum Fault {
    /// The word at the program counter is not one of the 22 opcodes.
    InvalidOpcode(u16),
    /// A word was used as a source value or as a destination register but
    /// is neither a literal in `[0, 32767]` nor a register name in
    /// `[32768, 32775]` (for destinations: its register index, the value
    /// modulo 32768, is not below 8).
    InvalidOperand(u16),
    /// A memory access past the end of memory: the address that was
    /// attempted, by a decode, an `Rmem` or a `Wmem`.
    OutOfBounds(u16),
    /// A `Mod` instruction whose divisor resolved to zero.
    DivisionByZero,
    /// A `Pop` instruction with nothing on the stack.
    StackUnderflow,
}

/// One decoded instruction: an opcode together with its raw operand words,
/// exactly as they stand in memory. Operands are not resolved (literal
/// versus register) at decode time; resolution happens when the
/// instruction executes.
#[derive(Clone, Copy, Debug, PartialEq, Eq, Structural)]
pub enum Op {
    /// 0: stop execution; a graceful halt.
    Hlt,
    /// 1: set register `a` to the value of `b`.
    SetReg(u16, u16),
    /// 2: push the value of `a` onto the stack.
    Push(u16),
    /// 3: pop the top of the stack into register `a`.
    Pop(u16),
    /// 4: set register `a` to 1 if the values of `b` and `c` are equal, else to 0.
    Eq(u16, u16, u16),
    /// 5: set register `a` to 1 if the value of `b` is greater than the value of `c`, else to 0.
    Gt(u16, u16, u16),
    /// 6: jump to the value of `a`.
    Jmp(u16),
    /// 7: if the value of `a` is nonzero, jump to the value of `b`.
    Jt(u16, u16),
    /// 8: if the value of `a` is zero, jump to the value of `b`.
    Jf(u16, u16),
    /// 9: set register `a` to the sum of the values of `b` and `c`, modulo 32768.
    Add(u16, u16, u16),
    /// 10: set register `a` to the product of the values of `b` and `c`, modulo 32768.
    Mul(u16, u16, u16),
    /// 11: set register `a` to the remainder of the value of `b` divided by the value of `c`.
    Mod(u16, u16, u16),
    /// 12: set register `a` to the bitwise and of the values of `b` and `c`.
    And(u16, u16, u16),
    /// 13: set register `a` to the bitwise or of the values of `b` and `c`.
    Or(u16, u16, u16),
    /// 14: set register `a` to the 15-bit bitwise complement of the value of `b`.
    Not(u16, u16),
    /// 15: set register `a` to the memory word at the address given by the value of `b`.
    Rmem(u16, u16),
    /// 16: write the value of `b` to memory at the address given by the value of `a`.
    Wmem(u16, u16),
    /// 17: push the address of the next instruction and jump to the value of `a`.
    Call(u16),
    /// 18: pop an address and jump to it; with an empty stack, a graceful halt.
    Ret,
    /// 19: emit the low byte of the value of `a` to the output queue.
    Out(u16),
    /// 20: read the next byte of the input queue into register `a`.
    In(u16),
    /// 21: no effect.
    Noop,
}

/// What the interpreter reports after executing instructions.
#[derive(Clone, Copy, Debug, PartialEq, Eq, Structural)]
pub enum State {
    /// The machine can execute further instructions.
    Running,
    /// A graceful halt: `Hlt`, or `Ret` with an empty stack.
    Halted,
    /// An `In` instruction found the input queue empty. Nothing was
    /// consumed or changed; feed a line and continue, or treat the
    /// machine as gracefully stopped if the input source is exhausted.
    NeedInput,
    /// A fatal condition aborted the run.
    Faulted(Fault),
}

/// The mathematical view of a machine: the fields of [`Vm`] as ghost
/// sequences and an unbounded program counter.
#[verifier::ext_equal]
pub struct VmState {
    /// Index of the next word to decode.
    pub pc: nat,
    /// Code and data in one address space, mutable at runtime.
    pub mem: Seq<u16>,
    /// The eight registers.
    pub regs: Seq<u16>,
    /// The stack, last element on top.
    pub stack: Seq<u16>,
    /// Pending input bytes, first element next to be read.
    pub input: Seq<u8>,
    /// Emitted output bytes, in emission order.
    pub output: Seq<u8>,
}

impl VmState {
    /// Well-formedness: eight registers, each holding a literal below
    /// 32768; memory no larger than the address space; a program counter
    /// that fits in a 16-bit stack word. Constructors establish this and
    /// every instruction preserves it.
    pub open spec fn wf(self) -> bool {
        &&& self.regs.len() == 8
        &&& forall|i: int| 0 <= i < 8 ==> self.regs[i] < 32768
        &&& self.mem.len() <= 32768
        &&& self.pc < 65536
    }
}

/// The result of one spec-level step, together with the machine state it
/// leaves behind.
pub enum StepRes {
    /// The instruction completed; the machine goes on from this state.
    Next(VmState),
    /// A graceful halt in this state.
    Halt(VmState),
    /// An `In` instruction found no input; the state is unchanged.
    Need(VmState),
    /// A fatal fault; the state as it stood when the fault was found.
    Abort(Fault, VmState),
}

/// True of a word that may stand where a value is read: a literal or a
/// register name.
pub open spec fn resolvable(x: u16) -> bool {
    x <= 32775
}

/// The value of operand `x`: itself if a literal, else the contents of the
/// register it names. Meaningful only when `resolvable(x)`.
pub open spec fn resolve_spec(regs: Seq<u16>, x: u16) -> u16 {
    if x < 32768 {
        x
    } else {
        regs[x as int - 32768]
    }
}

/// The register index a destination operand names: the operand modulo
/// 32768, used directly, without value resolution.
pub open spec fn dest_idx(a: u16) -> int {
    a as int % 32768
}

/// True when a destination operand names one of the eight registers.
pub open spec fn dest_ok(a: u16) -> bool {
    dest_idx(a) < 8
}

/// `s` with the value `v`, reduced modulo 32768, stored in the register
/// that destination operand `a` names.
pub open spec fn with_reg(s: VmState, a: u16, v: int) -> VmState {
    VmState { regs: s.regs.update(dest_idx(a), ((v % 32768) as u16)), ..s }
}

/// The 15-bit bitwise complement of `x`, i.e. `32767 - x` for `x` below
/// 32768.
pub open spec fn not15(x: u16) -> u16 {
    ((32767 - x as int) % 32768) as u16
}

/// How many operand words follow an opcode word. Meaningful for opcodes 0
/// through 21.
pub open spec fn arity_spec(code: u16) -> nat {
    if code == 0 || code == 18 || code == 21 {
        0
    } else if code == 2 || code == 3 || code == 6 || code == 17 || code == 19 || code == 20 {
        1
    } else if code == 1 || code == 7 || code == 8 || code == 14 || code == 15 || code == 16 {
        2
    } else {
        3
    }
}

/// True when the word at the program counter is a known opcode and the
/// opcode word and all its operands lie inside memory.
pub open spec fn decode_ok(s: VmState) -> bool {
    &&& s.pc < s.mem.len()
    &&& s.mem[s.pc as int] <= 21
    &&& s.pc + arity_spec(s.mem[s.pc as int]) < s.mem.len()
}

/// The fault a failed decode reports: the out-of-range address, or the
/// unknown opcode word.
pub open spec fn decode_fault(s: VmState) -> Fault {
    if s.pc >= s.mem.len() {
        Fault::OutOfBounds(s.pc as u16)
    } else if s.mem[s.pc as int] > 21 {
        Fault::InvalidOpcode(s.mem[s.pc as int])
    } else {
        Fault::OutOfBounds((s.pc + arity_spec(s.mem[s.pc as int])) as u16)
    }
}

/// The instruction decoded at the program counter. Meaningful only when
/// `decode_ok(s)` holds of the state the memory was read from.
pub open spec fn op_at(mem: Seq<u16>, pc: nat) -> Op {
    let w = mem[pc as int];
    let a = mem[pc as int + 1];
    let b = mem[pc as int + 2];
    let c = mem[pc as int + 3];
    if w == 0 {
        Op::Hlt
    } else if w == 1 {
        Op::SetReg(a, b)
    } else if w == 2 {
        Op::Push(a)
    } else if w == 3 {
        Op::Pop(a)
    } else if w == 4 {
        Op::Eq(a, b, c)
    } else if w == 5 {
        Op::Gt(a, b, c)
    } else if w == 6 {
        Op::Jmp(a)
    } else if w == 7 {
        Op::Jt(a, b)
    } else if w == 8 {
        Op::Jf(a, b)
    } else if w == 9 {
        Op::Add(a, b, c)
    } else if w == 10 {
        Op::Mul(a, b, c)
    } else if w == 11 {
        Op::Mod(a, b, c)
    } else if w == 12 {
        Op::And(a, b, c)
    } else if w == 13 {
        Op::Or(a, b, c)
    } else if w == 14 {
        Op::Not(a, b)
    } else if w == 15 {
        Op::Rmem(a, b)
    } else if w == 16 {
        Op::Wmem(a, b)
    } else if w == 17 {
        Op::Call(a)
    } else if w == 18 {
        Op::Ret
    } else if w == 19 {
        Op::Out(a)
    } else if w == 20 {
        Op::In(a)
    } else {
        Op::Noop
    }
}

/// `s` with the program counter advanced past the instruction at it:
/// opcode word plus operand words.
pub open spec fn advanced(s: VmState) -> VmState {
    VmState { pc: s.pc + 1 + arity_spec(s.mem[s.pc as int]), ..s }
}

/// What executing `op` does to state `s`. The program counter of `s` must
/// already point past the instruction, so that jumps and calls see the
/// address of the next instruction. Operands used as values go through
/// `resolve_spec`; a destination operand is used as a register index
/// directly. On an abort the state is handed back as it stood.
pub open spec fn exec_op_spec(s: VmState, op: Op) -> StepRes {
    match op {
        Op::Hlt => StepRes::Halt(s),
        Op::SetReg(a, b) => {
            if !resolvable(b) {
                StepRes::Abort(Fault::InvalidOperand(b), s)
            } else if !dest_ok(a) {
                StepRes::Abort(Fault::InvalidOperand(a), s)
            } else {
                StepRes::Next(with_reg(s, a, resolve_spec(s.regs, b) as int))
            }
        },
        Op::Push(a) => {
            if !resolvable(a) {
                StepRes::Abort(Fault::InvalidOperand(a), s)
            } else {
                StepRes::Next(VmState { stack: s.stack.push(resolve_spec(s.regs, a)), ..s })
            }
        },
        Op::Pop(a) => {
            if s.stack.len() == 0 {
                StepRes::Abort(Fault::StackUnderflow, s)
            } else if !dest_ok(a) {
                StepRes::Abort(Fault::InvalidOperand(a), s)
            } else {
                StepRes::Next(
                    with_reg(
                        VmState { stack: s.stack.drop_last(), ..s },
                        a,
                        s.stack.last() as int,
                    ),
                )
            }
        },
        Op::Eq(a, b, c) => {
            if !resolvable(b) {
                StepRes::Abort(Fault::InvalidOperand(b), s)
            } else if !resolvable(c) {
                StepRes::Abort(Fault::InvalidOperand(c), s)
            } else if !dest_ok(a) {
                StepRes::Abort(Fault::InvalidOperand(a), s)
            } else {
                StepRes::Next(
                    with_reg(
                        s,
                        a,
                        if resolve_spec(s.regs, b) == resolve_spec(s.regs, c) {
                            1
                        } else {
                            0
                        },
                    ),
                )
            }
        },
        Op::Gt(a, b, c) => {
            if !resolvable(b) {
                StepRes::Abort(Fault::InvalidOperand(b), s)
            } else if !resolvable(c) {
                StepRes::Abort(Fault::InvalidOperand(c), s)
            } else if !dest_ok(a) {
                StepRes::Abort(Fault::InvalidOperand(a), s)
            } else {
                StepRes::Next(
                    with_reg(
                        s,
                        a,
                        if resolve_spec(s.regs, b) > resolve_spec(s.regs, c) {
                            1
                        } else {
                            0
                        },
                    ),
                )
            }
        },
        Op::Jmp(a) => {
            if !resolvable(a) {
                StepRes::Abort(Fault::InvalidOperand(a), s)
            } else {
                StepRes::Next(VmState { pc: resolve_spec(s.regs, a) as nat, ..s })
            }
        },
        Op::Jt(a, b) => {
            if !resolvable(a) {
                StepRes::Abort(Fault::InvalidOperand(a), s)
            } else if resolve_spec(s.regs, a) != 0 {
                if !resolvable(b) {
                    StepRes::Abort(Fault::InvalidOperand(b), s)
                } else {
                    StepRes::Next(VmState { pc: resolve_spec(s.regs, b) as nat, ..s })
                }
            } else {
                StepRes::Next(s)
            }
        },
        Op::Jf(a, b) => {
            if !resolvable(a) {
                StepRes::Abort(Fault::InvalidOperand(a), s)
            } else if resolve_spec(s.regs, a) == 0 {
                if !resolvable(b) {
                    StepRes::Abort(Fault::InvalidOperand(b), s)
                } else {
                    StepRes::Next(VmState { pc: resolve_spec(s.regs, b) as nat, ..s })
                }
            } else {
                StepRes::Next(s)
            }
        },
        Op::Add(a, b, c) => {
            if !resolvable(b) {
                StepRes::Abort(Fault::InvalidOperand(b), s)
            } else if !resolvable(c) {
                StepRes::Abort(Fault::InvalidOperand(c), s)
            } else if !dest_ok(a) {
                StepRes::Abort(Fault::InvalidOperand(a), s)
            } else {
                StepRes::Next(
                    with_reg(s, a, resolve_spec(s.regs, b) as int + resolve_spec(s.regs, c) as int),
                )
            }
        },
        Op::Mul(a, b, c) => {
            if !resolvable(b) {
                StepRes::Abort(Fault::InvalidOperand(b), s)
            } else if !resolvable(c) {
                StepRes::Abort(Fault::InvalidOperand(c), s)
            } else if !dest_ok(a) {
                StepRes::Abort(Fault::InvalidOperand(a), s)
            } else {
                StepRes::Next(
                    with_reg(s, a, resolve_spec(s.regs, b) as int * resolve_spec(s.regs, c) as int),
                )
            }
        },
        Op::Mod(a, b, c) => {
            if !resolvable(b) {
                StepRes::Abort(Fault::InvalidOperand(b), s)
            } else if !resolvable(c) {
                StepRes::Abort(Fault::InvalidOperand(c), s)
            } else if resolve_spec(s.regs, c) == 0 {
                StepRes::Abort(Fault::DivisionByZero, s)
            } else if !dest_ok(a) {
                StepRes::Abort(Fault::InvalidOperand(a), s)
            } else {
                StepRes::Next(
                    with_reg(s, a, resolve_spec(s.regs, b) as int % resolve_spec(s.regs, c) as int),
                )
            }
        },
        Op::And(a, b, c) => {
            if !resolvable(b) {
                StepRes::Abort(Fault::InvalidOperand(b), s)
            } else if !resolvable(c) {
                StepRes::Abort(Fault::InvalidOperand(c), s)
            } else if !dest_ok(a) {
                StepRes::Abort(Fault::InvalidOperand(a), s)
            } else {
                StepRes::Next(
                    with_reg(s, a, (resolve_spec(s.regs, b) & resolve_spec(s.regs, c)) as int),
                )
            }
        },
        Op::Or(a, b, c) => {
            if !resolvable(b) {
                StepRes::Abort(Fault::InvalidOperand(b), s)
            } else if !resolvable(c) {
                StepRes::Abort(Fault::InvalidOperand(c), s)
            } else if !dest_ok(a) {
                StepRes::Abort(Fault::InvalidOperand(a), s)
            } else {
                StepRes::Next(
                    with_reg(s, a, (resolve_spec(s.regs, b) | resolve_spec(s.regs, c)) as int),
                )
            }
        },
        Op::Not(a, b) => {
            if !resolvable(b) {
                StepRes::Abort(Fault::InvalidOperand(b), s)
            } else if !dest_ok(a) {
                StepRes::Abort(Fault::InvalidOperand(a), s)
            } else {
                StepRes::Next(with_reg(s, a, not15(resolve_spec(s.regs, b)) as int))
            }
        },
        Op::Rmem(a, b) => {
            if !resolvable(b) {
                StepRes::Abort(Fault::InvalidOperand(b), s)
            } else if resolve_spec(s.regs, b) as nat >= s.mem.len() {
                StepRes::Abort(Fault::OutOfBounds(resolve_spec(s.regs, b)), s)
            } else if !dest_ok(a) {
                StepRes::Abort(Fault::InvalidOperand(a), s)
            } else {
                StepRes::Next(with_reg(s, a, s.mem[resolve_spec(s.regs, b) as int] as int))
            }
        },
        Op::Wmem(a, b) => {
            if !resolvable(a) {
                StepRes::Abort(Fault::InvalidOperand(a), s)
            } else if !resolvable(b) {
                StepRes::Abort(Fault::InvalidOperand(b), s)
            } else if resolve_spec(s.regs, a) as nat >= s.mem.len() {
                StepRes::Abort(Fault::OutOfBounds(resolve_spec(s.regs, a)), s)
            } else {
                StepRes::Next(
                    VmState {
                        mem: s.mem.update(
                            resolve_spec(s.regs, a) as int,
                            resolve_spec(s.regs, b),
                        ),
                        ..s
                    },
                )
            }
        },
        Op::Call(a) => {
            if !resolvable(a) {
                StepRes::Abort(Fault::InvalidOperand(a), s)
            } else {
                StepRes::Next(
                    VmState {
                        pc: resolve_spec(s.regs, a) as nat,
                        stack: s.stack.push(((s.pc % 65536) as u16)),
                        ..s
                    },
                )
            }
        },
        Op::Ret => {
            if s.stack.len() == 0 {
                StepRes::Halt(s)
            } else {
                StepRes::Next(
                    VmState { pc: s.stack.last() as nat, stack: s.stack.drop_last(), ..s },
                )
            }
        },
        Op::Out(a) => {
            if !resolvable(a) {
                StepRes::Abort(Fault::InvalidOperand(a), s)
            } else {
                StepRes::Next(
                    VmState {
                        output: s.output.push(((resolve_spec(s.regs, a) as int % 256) as u8)),
                        ..s
                    },
                )
            }
        },
        Op::In(a) => {
            if s.input.len() == 0 {
                StepRes::Need(s)
            } else if !dest_ok(a) {
                StepRes::Abort(Fault::InvalidOperand(a), s)
            } else {
                StepRes::Next(
                    with_reg(
                        VmState { input: s.input.drop_first(), ..s },
                        a,
                        s.input.first() as int,
                    ),
                )
            }
        },
        Op::Noop => StepRes::Next(s),
    }
}

/// One full step: decode the instruction at the program counter, advance
/// past it, then execute it. An `In` with no pending input leaves the
/// state exactly as it was, so the step can be retried once input has
/// been fed.
pub open spec fn spec_step(s: VmState) -> StepRes {
    if !decode_ok(s) {
        StepRes::Abort(decode_fault(s), s)
    } else {
        match exec_op_spec(advanced(s), op_at(s.mem, s.pc)) {
            StepRes::Need(_) => StepRes::Need(s),
            r => r,
        }
    }
}

/// The configuration after at most `n` steps from `s`: `Next` with the
/// state reached if no step stopped, otherwise the first halt, input
/// request or fault, which later steps do not alter.
pub open spec fn run_n(s: VmState, n: nat) -> StepRes
    decreases n,
{
    if n == 0 {
        StepRes::Next(s)
    } else {
        match run_n(s, (n - 1) as nat) {
            StepRes::Next(t) => spec_step(t),
            r => r,
        }
    }
}

/// Relates what the interpreter reports (`r`, and the machine it leaves
/// behind, `post`) to a spec-level result.
pub open spec fn corresponds(r: State, post: VmState, res: StepRes) -> bool {
    match res {
        StepRes::Next(t) => r == State::Running && post == t,
        StepRes::Halt(t) => r == State::Halted && post == t,
        StepRes::Need(t) => r == State::NeedInput && post == t,
        StepRes::Abort(f, t) => r == State::Faulted(f) && post == t,
    }
}

/// A terminal spec-level result stays what it is, however many further
/// steps are allowed.
pub proof fn lemma_run_n_absorbing(s: VmState, k: nat, m: nat)
    requires
        k <= m,
        !(run_n(s, k) is Next),
    ensures
        run_n(s, m) == run_n(s, k),
    decreases m - k,
{
    if m > k {
        lemma_run_n_absorbing(s, k, (m - 1) as nat);
    }
}

/// The interpreter. Its fields are private; contracts speak of the view
/// `self@`, a [`VmState`].
pub struct Vm {
    pc: usize,
    bin: Vec<u16>,
    regs: Vec<u16>,
    stack: Vec<u16>,
    input: Vec<u8>,
    output: Vec<u8>,
}

impl View for Vm {
    type V = VmState;

    closed spec fn view(&self) -> VmState {
        VmState {
            pc: self.pc as nat,
            mem: self.bin@,
            regs: self.regs@,
            stack: self.stack@,
            input: self.input@,
            output: self.output@,
        }
    }
}

impl Vm {
    /// A fresh machine over the given program image: the image is the
    /// whole of memory, the program counter is at 0, the registers are
    /// zeroed, and stack, input and output are empty. The image must fit
    /// the 15-bit address space.
    pub fn from_words(words: Vec<u16>) -> (vm: Vm)
        requires
            words@.len() <= 32768,
        ensures
            vm@.wf(),
            vm@.pc == 0,
            vm@.mem == words@,
            vm@.regs =~= Seq::new(8, |i: int| 0u16),
            vm@.stack.len() == 0,
            vm@.input.len() == 0,
            vm@.output.len() == 0,
    {
        let mut regs: Vec<u16> = Vec::new();
        let mut k: usize = 0;
        while k < 8
            invariant
                k <= 8,
                regs@.len() == k,
                forall|i: int| 0 <= i < k ==> regs@[i] == 0u16,
            decreases 8 - k,
        {
            regs.push(0u16);
            k += 1;
        }
        let vm = Vm {
            pc: 0,
            bin: words,
            regs,
            stack: Vec::new(),
            input: Vec::new(),
            output: Vec::new(),
        };
        proof {
            assert(vm@.regs =~= Seq::new(8, |i: int| 0u16));
        }
        vm
    }

    /// Resolve operand `x` to the value it denotes: itself if a literal,
    /// the named register's contents if a register name, and otherwise
    /// the fault that aborts the run.
    fn resolve(&self, x: u16) -> (r: Result<u16, Fault>)
        requires
            self@.wf(),
        ensures
            match r {
                Ok(v) => resolvable(x) && v == resolve_spec(self@.regs, x) && v < 32768,
                Err(f) => !resolvable(x) && f == Fault::InvalidOperand(x),
            },
    {
        if x < 32768 {
            Ok(x)
        } else if x <= 32775 {
            Ok(self.regs[(x - 32768) as usize])
        } else {
            Err(Fault::InvalidOperand(x))
        }
    }

    /// Store `val`, reduced modulo 32768, in the register that destination
    /// operand `reg` names.
    pub fn set(&mut self, reg: u16, val: u16)
        requires
            old(self)@.wf(),
            dest_ok(reg),
        ensures
            final(self)@ == with_reg(old(self)@, reg, val as int),
            final(self)@.wf(),
    {
        let idx: usize = (reg % 32768) as usize;
        self.regs[idx] = val % 32768;
        proof {
            assert(self@ =~= with_reg(old(self)@, reg, val as int));
        }
    }

    /// How many operand words follow opcode `code`.
    fn arity_of(&self, code: u16) -> (n: usize)
        requires
            code <= 21,
        ensures
            n == arity_spec(code),
            n <= 3,
    {
        match code {
            0 | 18 | 21 => 0,
            2 | 3 | 6 | 17 | 19 | 20 => 1,
            1 | 7 | 8 | 14 | 15 | 16 => 2,
            _ => 3,
        }
    }

    /// Decode the instruction at the program counter and advance past it
    /// (opcode word plus operand words), so that a jump or call executed
    /// next sees the address of the following instruction. Operand words
    /// are taken verbatim; they are not validated here. Fails, leaving
    /// the machine unchanged, when the program counter or an operand lies
    /// outside memory or the opcode word is unknown.
    pub fn next_op(&mut self) -> (r: Result<Op, Fault>)
        requires
            old(self)@.wf(),
        ensures
            final(self)@.wf(),
            match r {
                Ok(op) => {
                    &&& decode_ok(old(self)@)
                    &&& op == op_at(old(self)@.mem, old(self)@.pc)
                    &&& final(self)@ == advanced(old(self)@)
                },
                Err(f) => {
                    &&& !decode_ok(old(self)@)
                    &&& f == decode_fault(old(self)@)
                    &&& final(self)@ == old(self)@
                },
            },
    {
        let len = self.bin.len();
        if self.pc >= len {
            return Err(Fault::OutOfBounds(self.pc as u16));
        }
        let code = self.bin[self.pc];
        if code > 21 {
            return Err(Fault::InvalidOpcode(code));
        }
        let n = self.arity_of(code);
        if len - self.pc <= n {
            return Err(Fault::OutOfBounds((self.pc + n) as u16));
        }
        let i = self.pc;
        self.pc = i + 1 + n;
        let op = match code {
            0 => Op::Hlt,
            1 => Op::SetReg(self.bin[i + 1], self.bin[i + 2]),
            2 => Op::Push(self.bin[i + 1]),
            3 => Op::Pop(self.bin[i + 1]),
            4 => Op::Eq(self.bin[i + 1], self.bin[i + 2], self.bin[i + 3]),
            5 => Op::Gt(self.bin[i + 1], self.bin[i + 2], self.bin[i + 3]),
            6 => Op::Jmp(self.bin[i + 1]),
            7 => Op::Jt(self.bin[i + 1], self.bin[i + 2]),
            8 => Op::Jf(self.bin[i + 1], self.bin[i + 2]),
            9 => Op::Add(self.bin[i + 1], self.bin[i + 2], self.bin[i + 3]),
            10 => Op::Mul(self.bin[i + 1], self.bin[i + 2], self.bin[i + 3]),
            11 => Op::Mod(self.bin[i + 1], self.bin[i + 2], self.bin[i + 3]),
            12 => Op::And(self.bin[i + 1], self.bin[i + 2], self.bin[i + 3]),
            13 => Op::Or(self.bin[i + 1], self.bin[i + 2], self.bin[i + 3]),
            14 => Op::Not(self.bin[i + 1], self.bin[i + 2]),
            15 => Op::Rmem(self.bin[i + 1], self.bin[i + 2]),
            16 => Op::Wmem(self.bin[i + 1], self.bin[i + 2]),
            17 => Op::Call(self.bin[i + 1]),
            18 => Op::Ret,
            19 => Op::Out(self.bin[i + 1]),
            20 => Op::In(self.bin[i + 1]),
            _ => Op::Noop,
        };
        proof {
            assert(self@ =~= advanced(old(self)@));
        }
        Ok(op)
    }

    /// Execute one decoded instruction. The program counter must already
    /// point past it, as [`Vm::next_op`] leaves it. Reports whether the
    /// machine goes on, halted gracefully, wants input (nothing changed),
    /// or aborted on a fault (nothing changed beyond the decode).
    pub fn run_op(&mut self, op: Op) -> (r: State)
        requires
            old(self)@.wf(),
        ensures
            final(self)@.wf(),
            corresponds(r, final(self)@, exec_op_spec(old(self)@, op)),
    {
        match op {
            Op::Hlt => State::Halted,
            Op::SetReg(a, b) => {
                let vb = match self.resolve(b) {
                    Ok(v) => v,
                    Err(f) => return State::Faulted(f),
                };
                if a % 32768 >= 8 {
                    return State::Faulted(Fault::InvalidOperand(a));
                }
                self.set(a, vb);
                State::Running
            },
            Op::Push(a) => {
                let va = match self.resolve(a) {
                    Ok(v) => v,
                    Err(f) => return State::Faulted(f),
                };
                self.stack.push(va);
                proof {
                    assert(self@ =~= (VmState {
                        stack: old(self)@.stack.push(va),
                        ..old(self)@
                    }));
                }
                State::Running
            },
            Op::Pop(a) => {
                if self.stack.len() == 0 {
                    return State::Faulted(Fault::StackUnderflow);
                }
                if a % 32768 >= 8 {
                    return State::Faulted(Fault::InvalidOperand(a));
                }
                match self.stack.pop() {
                    Some(v) => {
                        proof {
                            assert(self@ =~= (VmState {
                                stack: old(self)@.stack.drop_last(),
                                ..old(self)@
                            }));
                        }
                        self.set(a, v);
                        State::Running
                    },
                    // not reached: the emptiness test above
                    None => State::Faulted(Fault::StackUnderflow),
                }
            },
            Op::Eq(a, b, c) => {
                let vb = match self.resolve(b) {
                    Ok(v) => v,
                    Err(f) => return State::Faulted(f),
                };
                let vc = match self.resolve(c) {
                    Ok(v) => v,
                    Err(f) => return State::Faulted(f),
                };
                if a % 32768 >= 8 {
                    return State::Faulted(Fault::InvalidOperand(a));
                }
                self.set(a, if vb == vc { 1 } else { 0 });
                State::Running
            },
            Op::Gt(a, b, c) => {
                let vb = match self.resolve(b) {
                    Ok(v) => v,
                    Err(f) => return State::Faulted(f),
                };
                let vc = match self.resolve(c) {
                    Ok(v) => v,
                    Err(f) => return State::Faulted(f),
                };
                if a % 32768 >= 8 {
                    return State::Faulted(Fault::InvalidOperand(a));
                }
                self.set(a, if vb > vc { 1 } else { 0 });
                State::Running
            },
            Op::Jmp(a) => {
                let va = match self.resolve(a) {
                    Ok(v) => v,
                    Err(f) => return State::Faulted(f),
                };
                self.pc = va as usize;
                proof {
                    assert(self@ =~= (VmState { pc: va as nat, ..old(self)@ }));
                }
                State::Running
            },
            Op::Jt(a, b) => {
                let va = match self.resolve(a) {
                    Ok(v) => v,
                    Err(f) => return State::Faulted(f),
                };
                if va != 0 {
                    let vb = match self.resolve(b) {
                        Ok(v) => v,
                        Err(f) => return State::Faulted(f),
                    };
                    self.pc = vb as usize;
                    proof {
                        assert(self@ =~= (VmState { pc: vb as nat, ..old(self)@ }));
                    }
                }
                State::Running
            },
            Op::Jf(a, b) => {
                let va = match self.resolve(a) {
                    Ok(v) => v,
                    Err(f) => return State::Faulted(f),
                };
                if va == 0 {
                    let vb = match self.resolve(b) {
                        Ok(v) => v,
                        Err(f) => return State::Faulted(f),
                    };
                    self.pc = vb as usize;
                    proof {
                        assert(self@ =~= (VmState { pc: vb as nat, ..old(self)@ }));
                    }
                }
                State::Running
            },
            Op::Add(a, b, c) => {
                let vb = match self.resolve(b) {
                    Ok(v) => v,
                    Err(f) => return State::Faulted(f),
                };
                let vc = match self.resolve(c) {
                    Ok(v) => v,
                    Err(f) => return State::Faulted(f),
                };
                if a % 32768 >= 8 {
                    return State::Faulted(Fault::InvalidOperand(a));
                }
                self.set(a, vb + vc);
                State::Running
            },
            Op::Mul(a, b, c) => {
                let vb = match self.resolve(b) {
                    Ok(v) => v,
                    Err(f) => return State::Faulted(f),
                };
                let vc = match self.resolve(c) {
                    Ok(v) => v,
                    Err(f) => return State::Faulted(f),
                };
                if a % 32768 >= 8 {
                    return State::Faulted(Fault::InvalidOperand(a));
                }
                assert((vb as u32) * (vc as u32) < 0x4000_0000u32) by (nonlinear_arith)
                    requires
                        vb < 32768,
                        vc < 32768,
                ;
                let p: u32 = (vb as u32) * (vc as u32);
                self.set(a, (p % 32768) as u16);
                State::Running
            },
            Op::Mod(a, b, c) => {
                let vb = match self.resolve(b) {
                    Ok(v) => v,
                    Err(f) => return State::Faulted(f),
                };
                let vc = match self.resolve(c) {
                    Ok(v) => v,
                    Err(f) => return State::Faulted(f),
                };
                if vc == 0 {
                    return State::Faulted(Fault::DivisionByZero);
                }
                if a % 32768 >= 8 {
                    return State::Faulted(Fault::InvalidOperand(a));
                }
                self.set(a, vb % vc);
                State::Running
            },
            Op::And(a, b, c) => {
                let vb = match self.resolve(b) {
                    Ok(v) => v,
                    Err(f) => return State::Faulted(f),
                };
                let vc = match self.resolve(c) {
                    Ok(v) => v,
                    Err(f) => return State::Faulted(f),
                };
                if a % 32768 >= 8 {
                    return State::Faulted(Fault::InvalidOperand(a));
                }
                self.set(a, vb & vc);
                State::Running
            },
            Op::Or(a, b, c) => {
                let vb = match self.resolve(b) {
                    Ok(v) => v,
                    Err(f) => return State::Faulted(f),
                };
                let vc = match self.resolve(c) {
                    Ok(v) => v,
                    Err(f) => return State::Faulted(f),
                };
                if a % 32768 >= 8 {
                    return State::Faulted(Fault::InvalidOperand(a));
                }
                self.set(a, vb | vc);
                State::Running
            },
            Op::Not(a, b) => {
                let vb = match self.resolve(b) {
                    Ok(v) => v,
                    Err(f) => return State::Faulted(f),
                };
                if a % 32768 >= 8 {
                    return State::Faulted(Fault::InvalidOperand(a));
                }
                self.set(a, 32767 - vb);
                State::Running
            },
            Op::Rmem(a, b) => {
                let vb = match self.resolve(b) {
                    Ok(v) => v,
                    Err(f) => return State::Faulted(f),
                };
                if vb as usize >= self.bin.len() {
                    return State::Faulted(Fault::OutOfBounds(vb));
                }
                if a % 32768 >= 8 {
                    return State::Faulted(Fault::InvalidOperand(a));
                }
                let w = self.bin[vb as usize];
                self.set(a, w);
                State::Running
            },
            Op::Wmem(a, b) => {
                let va = match self.resolve(a) {
                    Ok(v) => v,
                    Err(f) => return State::Faulted(f),
                };
                let vb = match self.resolve(b) {
                    Ok(v) => v,
                    Err(f) => return State::Faulted(f),
                };
                if va as usize >= self.bin.len() {
                    return State::Faulted(Fault::OutOfBounds(va));
                }
                self.bin[va as usize] = vb;
                proof {
                    assert(self@ =~= (VmState {
                        mem: old(self)@.mem.update(va as int, vb),
                        ..old(self)@
                    }));
                }
                State::Running
            },
            Op::Call(a) => {
                let va = match self.resolve(a) {
                    Ok(v) => v,
                    Err(f) => return State::Faulted(f),
                };
                let ret_addr: u16 = (self.pc % 65536) as u16;
                self.stack.push(ret_addr);
                self.pc = va as usize;
                proof {
                    assert(self@ =~= (VmState {
                        pc: va as nat,
                        stack: old(self)@.stack.push(((old(self)@.pc % 65536) as u16)),
                        ..old(self)@
                    }));
                }
                State::Running
            },
            Op::Ret => {
                if self.stack.len() == 0 {
                    return State::Halted;
                }
                match self.stack.pop() {
                    Some(addr) => {
                        self.pc = addr as usize;
                        proof {
                            assert(self@ =~= (VmState {
                                pc: addr as nat,
                                stack: old(self)@.stack.drop_last(),
                                ..old(self)@
                            }));
                        }
                        State::Running
                    },
                    // not reached: the emptiness test above
                    None => State::Halted,
                }
            },
            Op::Out(a) => {
                let va = match self.resolve(a) {
                    Ok(v) => v,
                    Err(f) => return State::Faulted(f),
                };
                self.output.push((va % 256) as u8);
                proof {
                    assert(self@ =~= (VmState {
                        output: old(self)@.output.push(((va as int % 256) as u8)),
                        ..old(self)@
                    }));
                }
                State::Running
            },
            Op::In(a) => {
                if self.input.len() == 0 {
                    return State::NeedInput;
                }
                if a % 32768 >= 8 {
                    return State::Faulted(Fault::InvalidOperand(a));
                }
                let c = self.input.remove(0);
                proof {
                    assert(old(self)@.input.remove(0) =~= old(self)@.input.drop_first());
                    assert(self@ =~= (VmState {
                        input: old(self)@.input.drop_first(),
                        ..old(self)@
                    }));
                }
                self.set(a, c as u16);
                State::Running
            },
            Op::Noop => State::Running,
        }
    }

    /// Decode and execute one instruction: exactly [`spec_step`] of the
    /// machine's state. When the instruction is an `In` and no input is
    /// pending, the machine is left untouched (the program counter is not
    /// advanced), so the same instruction runs once input is fed.
    pub fn step(&mut self) -> (r: State)
        requires
            old(self)@.wf(),
        ensures
            final(self)@.wf(),
            corresponds(r, final(self)@, spec_step(old(self)@)),
    {
        let pc_before = self.pc;
        let op = match self.next_op() {
            Ok(op) => op,
            Err(f) => {
                return State::Faulted(f);
            },
        };
        let r = self.run_op(op);
        if r == State::NeedInput {
            self.pc = pc_before;
            proof {
                assert(self@ =~= old(self)@);
            }
        }
        r
    }

    /// Run the machine for at most `max_steps` instructions: exactly
    /// [`run_n`] of the machine's state. Stops early on a graceful halt,
    /// an input request or a fault; `State::Running` means the step
    /// budget ran out with the machine still able to go on. A program
    /// that never halts is a valid program, so a caller that wants an
    /// unbounded run calls this in a loop.
    pub fn run(&mut self, max_steps: usize) -> (r: State)
        requires
            old(self)@.wf(),
        ensures
            final(self)@.wf(),
            corresponds(r, final(self)@, run_n(old(self)@, max_steps as nat)),
    {
        let ghost s0 = self@;
        let mut i: usize = 0;
        while i < max_steps
            invariant
                i <= max_steps,
                s0 == old(self)@,
                self@.wf(),
                run_n(s0, i as nat) == StepRes::Next(self@),
            decreases max_steps - i,
        {
            let ghost prev = self@;
            let st = self.step();
            i += 1;
            proof {
                assert(run_n(s0, i as nat) == spec_step(prev));
            }
            if st != State::Running {
                proof {
                    lemma_run_n_absorbing(s0, i as nat, max_steps as nat);
                }
                return st;
            }
        }
        State::Running
    }

    /// Append a line of input bytes to the machine's input queue, to be
    /// consumed byte by byte, in order, by `In` instructions.
    pub fn feed_input(&mut self, line: Vec<u8>)
        requires
            old(self)@.wf(),
        ensures
            final(self)@ == (VmState { input: old(self)@.input + line@, ..old(self)@ }),
            final(self)@.wf(),
    {
        let mut rest = line;
        self.input.append(&mut rest);
        proof {
            assert(self@ =~= (VmState { input: old(self)@.input + line@, ..old(self)@ }));
        }
    }

    /// The contents of register `i`.
    pub fn reg(&self, i: usize) -> (r: u16)
        requires
            self@.wf(),
            i < 8,
        ensures
            r == self@.regs[i as int],
    {
        self.regs[i]
    }

    /// The program counter: the index of the next word to decode.
    pub fn pc(&self) -> (r: usize)
        ensures
            r as nat == self@.pc,
    {
        self.pc
    }

    /// How many words the stack holds.
    pub fn stack_len(&self) -> (r: usize)
        ensures
            r == self@.stack.len(),
    {
        self.stack.len()
    }

    /// The bytes emitted by `Out` instructions so far, oldest first.
    pub fn output(&self) -> (r: &Vec<u8>)
        ensures
            r@ == self@.output,
    {
        &self.output
    }

    /// Forget the emitted bytes, after a caller has drained them.
    pub fn clear_output(&mut self)
        ensures
            final(self)@ == (VmState { output: Seq::<u8>::empty(), ..old(self)@ }),
    {
        self.output = Vec::new();
        proof {
            assert(self@ =~= (VmState { output: Seq::<u8>::empty(), ..old(self)@ }));
        }
    }
}

} // verus!
