//! A 16-bit instruction-set computer: a register file with condition flags,
//! a 64K word-addressed memory with a memory-mapped keyboard, an instruction
//! decoder, the sixteen opcode handlers, and the software-trap vector.
//!
//! Console input and output are modelled as byte sequences carried in the
//! machine state, so the whole execution engine is ordinary verified code:
//! an embedder feeds input bytes in, drains output bytes out, and reacts to
//! the typed termination signals.

use vstd::prelude::*;

pub mod instruction;
pub mod register;
pub mod vm;

use crate::instruction::{exec_post, execute_instruction, same_state, Termination};
use crate::register::with_reg;
use crate::vm::{input_after_read, mem_after_read, VmState, VM};

verus! {

/// Effect of one fetch-decode-execute step: the word at the program
/// counter is fetched (a read, so the keyboard poll applies), the counter
/// is incremented, and the decoded handler runs from that intermediate
/// state.
pub open spec fn step_post(pre: VmState, post: VmState, r: Option<Termination>) -> bool {
    let m1 = mem_after_read(pre.mem, pre.input, pre.regs.pc);
    let i1 = input_after_read(pre.input, pre.regs.pc);
    let instr = m1[pre.regs.pc as int];
    let mid = VmState {
        mem: m1,
        regs: with_reg(pre.regs, 8, (pre.regs.pc + 1) as u16),
        input: i1,
        output: pre.output,
    };
    exec_post(instr, mid, post, r)
}

/// `post` is reached from `pre` by exactly `n` fetch-decode-execute steps,
/// every step but the last continuing and the last reporting `r`.
pub open spec fn runs_to(pre: VmState, post: VmState, r: Option<Termination>, n: nat) -> bool
    decreases n,
{
    if n == 0 {
        same_state(pre, post) && r == None::<Termination>
    } else {
        &&& pre.regs.pc < 0xFFFF
        &&& ((r != None::<Termination> && n == 1 && step_post(pre, post, r)) || (exists|
            mid: VmState,
        |
            #[trigger] step_post(pre, mid, None) && runs_to(mid, post, r, (n - 1) as nat)))
    }
}

/// A run of `n` continuing steps extended by one more step is a run of
/// `n + 1` steps.
pub proof fn lemma_runs_snoc(
    pre: VmState,
    mid: VmState,
    post: VmState,
    r: Option<Termination>,
    n: nat,
)
    requires
        runs_to(pre, mid, None, n),
        mid.regs.pc < 0xFFFF,
        step_post(mid, post, r),
    ensures
        runs_to(pre, post, r, n + 1),
    decreases n,
{
    if n == 0 {
        assert(step_post(pre, post, r));
        if r == None::<Termination> {
            assert(same_state(post, post));
            assert(runs_to(post, post, None, 0));
            assert(step_post(pre, post, None) && runs_to(post, post, r, 0));
        }
    } else {
        let m = choose|m: VmState|
            #[trigger] step_post(pre, m, None) && runs_to(m, mid, None, (n - 1) as nat);
        lemma_runs_snoc(m, mid, post, r, (n - 1) as nat);
        assert(step_post(pre, m, None) && runs_to(m, post, r, n));
    }
}

/// Run one fetch-decode-execute step from the current program counter.
pub fn step(vm: &mut VM) -> (r: Option<Termination>)
    requires
        old(vm).wf(),
        old(vm).registers.pc < 0xFFFF,
    ensures
        final(vm).wf(),
        step_post(old(vm)@, final(vm)@, r),
        old(vm)@.output.is_prefix_of(final(vm)@.output),
{
    let pc = vm.registers.pc;
    let instruction = vm.read_memory(pc);
    vm.registers.pc = pc + 1;
    execute_instruction(instruction, vm)
}

/// The driver loop: fetch, increment the program counter, decode, execute;
/// repeat until a trap ends the run, the program counter leaves the
/// address space (a defensive cap, not the designed exit), or `max_steps`
/// instructions have run. `None` means no trap ended the run: it comes
/// only with the whole budget spent or the counter at the cap, and the
/// machine can simply be run further.
pub fn execute_program(vm: &mut VM, max_steps: u64) -> (r: Option<Termination>)
    requires
        old(vm).wf(),
    ensures
        final(vm).wf(),
        old(vm)@.output.is_prefix_of(final(vm)@.output),
        exists|n: nat|
            n <= max_steps && #[trigger] runs_to(old(vm)@, final(vm)@, r, n) && (r
                == None::<Termination> ==> n == max_steps || final(vm)@.regs.pc >= 0xFFFF),
        r != None::<Termination> ==> r == Some(Termination::Halted) || r == Some(
            Termination::InvalidTrap,
        ) || r == Some(Termination::OutOfInput),
{
    let mut steps: u64 = 0;
    proof {
        crate::vm::lemma_prefix_refl(old(vm)@.output);
        assert(runs_to(old(vm)@, vm@, None, 0));
    }
    while vm.registers.pc < 0xFFFF && steps < max_steps
        invariant
            vm.wf(),
            steps <= max_steps,
            old(vm)@.output.is_prefix_of(vm@.output),
            runs_to(old(vm)@, vm@, None, steps as nat),
        decreases max_steps - steps,
    {
        let ghost before = vm@;
        let r = step(vm);
        steps += 1;
        proof {
            lemma_runs_snoc(old(vm)@, before, vm@, r, (steps - 1) as nat);
            crate::vm::lemma_prefix_trans(old(vm)@.output, before.output, vm@.output);
        }
        if let Some(t) = r {
            return Some(t);
        }
    }
    None
}

} // verus!
