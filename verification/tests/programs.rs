use synacor_vm::machine::{Fault, State, Vm};

const BUDGET: usize = 10_000;

fn boot(words: Vec<u16>) -> Vm {
    Vm::from_words(words)
}

#[test]
fn add_immediate_then_halt() {
    // Add r0 := r0 + 1 with r0 = 0, then Hlt at word 4: one step of
    // arithmetic, a graceful halt, no output.
    let mut vm = boot(vec![9, 32768, 32768, 1, 0]);
    assert!(vm.run(BUDGET) == State::Halted);
    assert_eq!(vm.reg(0), 1);
    assert!(vm.output().is_empty());
}

#[test]
fn add_from_preset_register_and_out() {
    // Add r0 := r1 + 4, Out r0, Hlt — with register 1 set before the run.
    let mut vm = boot(vec![9, 32768, 32769, 4, 19, 32768, 0]);
    vm.set(32769, 61);
    assert!(vm.run(BUDGET) == State::Halted);
    assert_eq!(vm.reg(0), 65);
    assert_eq!(vm.output().as_slice(), b"A");
}

#[test]
fn add_wraps_modulo_32768() {
    let mut vm = boot(vec![9, 32768, 32758, 20, 0]);
    assert!(vm.run(BUDGET) == State::Halted);
    assert_eq!(vm.reg(0), (32758 + 20) % 32768);
}

#[test]
fn add_of_two_maximal_literals_stays_bounded() {
    let mut vm = boot(vec![9, 32768, 32767, 32767, 0]);
    assert!(vm.run(BUDGET) == State::Halted);
    assert_eq!(vm.reg(0), (32767 + 32767) % 32768);
    for i in 0..8 {
        assert!(vm.reg(i) < 32768);
    }
}

#[test]
fn mul_wraps_modulo_32768() {
    let mut vm = boot(vec![10, 32768, 300, 200, 0]);
    assert!(vm.run(BUDGET) == State::Halted);
    assert_eq!(vm.reg(0), (300 * 200) % 32768);
}

#[test]
fn mod_computes_remainder() {
    let mut vm = boot(vec![11, 32768, 17, 5, 0]);
    assert!(vm.run(BUDGET) == State::Halted);
    assert_eq!(vm.reg(0), 2);
}

#[test]
fn mod_by_zero_aborts_before_anything_else_runs() {
    // The Out instruction after the faulting Mod must never execute.
    let mut vm = boot(vec![11, 32768, 5, 0, 19, 65, 0]);
    assert!(vm.run(BUDGET) == State::Faulted(Fault::DivisionByZero));
    assert!(vm.output().is_empty());
}

#[test]
fn and_or_are_bitwise() {
    let mut vm = boot(vec![12, 32768, 12, 10, 13, 32769, 12, 10, 0]);
    assert!(vm.run(BUDGET) == State::Halted);
    assert_eq!(vm.reg(0), 12 & 10);
    assert_eq!(vm.reg(1), 12 | 10);
}

#[test]
fn not_is_fifteen_bit_complement() {
    let mut vm = boot(vec![14, 32768, 0, 0]);
    assert!(vm.run(BUDGET) == State::Halted);
    assert_eq!(vm.reg(0), 32767);
}

#[test]
fn not_twice_restores_the_value() {
    // r0 := Not 5; r1 := Not r0; the double complement gives 5 back.
    let mut vm = boot(vec![14, 32768, 5, 14, 32769, 32768, 0]);
    assert!(vm.run(BUDGET) == State::Halted);
    assert_eq!(vm.reg(0), 32767 - 5);
    assert_eq!(vm.reg(1), 5);
}

#[test]
fn eq_and_gt_store_only_zero_or_one() {
    let mut vm = boot(vec![4, 32768, 5, 5, 5, 32769, 7, 5, 4, 32770, 5, 6, 5, 32771, 5, 7, 0]);
    assert!(vm.run(BUDGET) == State::Halted);
    assert_eq!(vm.reg(0), 1); // 5 == 5
    assert_eq!(vm.reg(1), 1); // 7 > 5
    assert_eq!(vm.reg(2), 0); // 5 == 6 fails
    assert_eq!(vm.reg(3), 0); // 5 > 7 fails
}

#[test]
fn set_copies_literals_and_register_values() {
    let mut vm = boot(vec![1, 32768, 123, 1, 32769, 32768, 0]);
    assert!(vm.run(BUDGET) == State::Halted);
    assert_eq!(vm.reg(0), 123);
    assert_eq!(vm.reg(1), 123);
}

#[test]
fn push_pop_transfers_a_value() {
    let mut vm = boot(vec![2, 7, 3, 32771, 0]);
    assert!(vm.run(BUDGET) == State::Halted);
    assert_eq!(vm.reg(3), 7);
    assert_eq!(vm.stack_len(), 0);
}

#[test]
fn pop_on_empty_stack_is_a_fatal_underflow() {
    let mut vm = boot(vec![3, 32768, 0]);
    assert!(vm.run(BUDGET) == State::Faulted(Fault::StackUnderflow));
}

#[test]
fn ret_on_empty_stack_halts_gracefully() {
    let mut vm = boot(vec![18]);
    let outcome = vm.run(BUDGET);
    assert!(outcome == State::Halted);
    assert!(outcome != State::Faulted(Fault::StackUnderflow));
}

#[test]
fn jmp_skips_what_it_jumps_over() {
    let mut vm = boot(vec![6, 4, 19, 65, 0]);
    assert!(vm.run(BUDGET) == State::Halted);
    assert!(vm.output().is_empty());
}

#[test]
fn jt_jumps_on_nonzero() {
    let mut vm = boot(vec![7, 1, 4, 0, 0]);
    assert!(vm.run(BUDGET) == State::Halted);
    assert_eq!(vm.pc(), 5);
}

#[test]
fn jt_with_zero_condition_never_reads_its_target() {
    // The jump target word is not resolvable, but the branch is not
    // taken, so it must not be resolved and the run halts cleanly.
    let mut vm = boot(vec![7, 0, 40000, 0]);
    assert!(vm.run(BUDGET) == State::Halted);
}

#[test]
fn jf_jumps_on_zero() {
    let mut vm = boot(vec![8, 0, 4, 99, 0]);
    assert!(vm.run(BUDGET) == State::Halted);
}

#[test]
fn call_then_ret_resumes_after_the_call() {
    // Call 3 pushes the address of the word after its operand (2), the
    // Ret at 3 pops it, and the Hlt at 2 runs.
    let mut vm = boot(vec![17, 3, 0, 18]);
    assert!(vm.run(BUDGET) == State::Halted);
    assert_eq!(vm.pc(), 3);
    assert_eq!(vm.stack_len(), 0);
}

#[test]
fn wmem_then_rmem_reads_the_value_back() {
    let mut vm = boot(vec![16, 8, 12345, 15, 32768, 8, 0, 0, 0]);
    assert!(vm.run(BUDGET) == State::Halted);
    assert_eq!(vm.reg(0), 12345);
}

#[test]
fn self_modifying_code_is_decoded_from_current_memory() {
    // Wmem overwrites the unknown opcode 99 at address 3 with Hlt before
    // the decoder reaches it; the run must halt, not fault.
    let mut vm = boot(vec![16, 3, 0, 99]);
    assert!(vm.run(BUDGET) == State::Halted);
}

#[test]
fn out_emits_the_byte_and_halts() {
    let mut vm = boot(vec![19, 65, 0]);
    assert!(vm.run(BUDGET) == State::Halted);
    assert_eq!(vm.output().as_slice(), b"A");
}

#[test]
fn out_resolves_a_register_operand() {
    let mut vm = boot(vec![1, 32768, 66, 19, 32768, 0]);
    assert!(vm.run(BUDGET) == State::Halted);
    assert_eq!(vm.output().as_slice(), b"B");
}

#[test]
fn noops_change_nothing_and_halt() {
    let mut vm = boot(vec![21, 21, 21, 0]);
    assert!(vm.run(BUDGET) == State::Halted);
    assert!(vm.output().is_empty());
    assert_eq!(vm.stack_len(), 0);
    for i in 0..8 {
        assert_eq!(vm.reg(i), 0);
    }
}

#[test]
fn in_waits_for_input_without_consuming_anything() {
    let mut vm = boot(vec![20, 32768, 20, 32769, 0]);
    assert!(vm.run(BUDGET) == State::NeedInput);
    assert_eq!(vm.pc(), 0);
    vm.feed_input(b"hi\n".to_vec());
    assert!(vm.run(BUDGET) == State::Halted);
    assert_eq!(vm.reg(0), b'h' as u16);
    assert_eq!(vm.reg(1), b'i' as u16);
}

#[test]
fn in_reads_buffered_input_in_order() {
    let mut vm = boot(vec![20, 32768, 20, 32769, 0]);
    vm.feed_input(vec![10, 20]);
    assert!(vm.run(BUDGET) == State::Halted);
    assert_eq!(vm.reg(0), 10);
    assert_eq!(vm.reg(1), 20);
}

#[test]
fn unknown_opcode_aborts() {
    let mut vm = boot(vec![22, 0]);
    assert!(vm.run(BUDGET) == State::Faulted(Fault::InvalidOpcode(22)));
}

#[test]
fn unresolvable_source_operand_aborts() {
    let mut vm = boot(vec![2, 40000]);
    assert!(vm.run(BUDGET) == State::Faulted(Fault::InvalidOperand(40000)));
}

#[test]
fn destination_outside_the_registers_aborts() {
    // 20000 is a valid source literal but names no register, so Set
    // cannot store into it.
    let mut vm = boot(vec![1, 20000, 5, 0]);
    assert!(vm.run(BUDGET) == State::Faulted(Fault::InvalidOperand(20000)));
}

#[test]
fn jump_past_the_end_surfaces_on_the_next_decode() {
    let mut vm = boot(vec![6, 100, 0]);
    assert!(vm.run(BUDGET) == State::Faulted(Fault::OutOfBounds(100)));
}

#[test]
fn truncated_instruction_aborts() {
    // Add wants three operands but memory ends after two.
    let mut vm = boot(vec![9, 1, 1]);
    assert!(vm.run(BUDGET) == State::Faulted(Fault::OutOfBounds(3)));
}

#[test]
fn rmem_past_the_end_aborts() {
    let mut vm = boot(vec![15, 32768, 500, 0]);
    assert!(vm.run(BUDGET) == State::Faulted(Fault::OutOfBounds(500)));
}

#[test]
fn wmem_past_the_end_aborts() {
    let mut vm = boot(vec![16, 500, 1, 0]);
    assert!(vm.run(BUDGET) == State::Faulted(Fault::OutOfBounds(500)));
}

#[test]
fn a_spent_step_budget_reports_running() {
    let mut vm = boot(vec![0]);
    assert!(vm.run(0) == State::Running);
    assert_eq!(vm.pc(), 0);
}

#[test]
fn a_program_that_never_halts_keeps_running() {
    // Jmp 0 loops forever; any budget runs out with the machine intact.
    let mut vm = boot(vec![6, 0]);
    assert!(vm.run(BUDGET) == State::Running);
    assert!(vm.run(BUDGET) == State::Running);
    assert_eq!(vm.pc(), 0);
}

#[test]
fn step_decodes_and_executes_one_instruction() {
    let mut vm = boot(vec![1, 32768, 9, 0]);
    assert!(vm.step() == State::Running);
    assert_eq!(vm.reg(0), 9);
    assert_eq!(vm.pc(), 3);
    assert!(vm.step() == State::Halted);
}

#[test]
fn clear_output_drains_the_queue() {
    let mut vm = boot(vec![19, 65, 0]);
    assert!(vm.run(BUDGET) == State::Halted);
    assert_eq!(vm.output().len(), 1);
    vm.clear_output();
    assert!(vm.output().is_empty());
}

#[test]
fn fresh_machine_starts_zeroed() {
    let vm = boot(vec![0, 1, 2]);
    assert_eq!(vm.pc(), 0);
    assert_eq!(vm.stack_len(), 0);
    assert!(vm.output().is_empty());
    for i in 0..8 {
        assert_eq!(vm.reg(i), 0);
    }
}
