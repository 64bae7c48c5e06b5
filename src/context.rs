//! The execution-context chain: hooks that the instruction dispatcher calls
//! on start-up, on `ecall`, on `ebreak` and to price each instruction, and
//! the wrappers that attach a syscall handler, a debugger or a cost function
//! to an existing context.
use vstd::prelude::*;
use ckb_vm_definitions::instructions::Instruction;
use crate::error::Error;

verus! {

/// A call of hook `f` on a machine that was `before` may return `r`.
pub open spec fn hook_outcome<Mac, T, F: FnMut(&mut Mac) -> T>(f: F, before: Mac, r: T) -> bool {
    exists|m: &mut Mac| *m == before && #[trigger] call_ensures(f, (m,), r)
}

/// Hook `f` accepts every machine.
pub open spec fn hook_total<Mac, T, F: FnMut(&mut Mac) -> T>(f: F) -> bool {
    forall|m: &mut Mac| #[trigger] call_requires(f, (m,))
}

/// Hooks that the dispatcher calls at fixed moments of a machine's run.
pub trait ExecutionContext<Mac>: Sized {
    /// Every hook of the context accepts every input.
    spec fn ready(&self) -> bool;

    /// What `initialize` may do to a machine that was `before`.
    spec fn initialize_outcome(&self, before: Mac, after: Mac, r: Result<(), Error>) -> bool;

    /// What `ecall` may do to a machine that was `before`.
    spec fn ecall_outcome(&self, before: Mac, after: Mac, r: Result<bool, Error>) -> bool;

    /// What `ebreak` may do to a machine that was `before`.
    spec fn ebreak_outcome(&self, before: Mac, after: Mac, r: Result<(), Error>) -> bool;

    /// The costs that `instruction_cycles` may give `inst`.
    spec fn cost_outcome(&self, inst: Instruction, cycles: u64) -> bool;

    /// Called once before execution begins.
    fn initialize(&mut self, machine: &mut Mac) -> (r: Result<(), Error>)
        requires
            old(self).ready(),
        ensures
            final(self).ready(),
            old(self).initialize_outcome(*old(machine), *final(machine), r),
    ;

    /// Called on an environment call; `Ok(true)` when the call was handled.
    fn ecall(&mut self, machine: &mut Mac) -> (r: Result<bool, Error>)
        requires
            old(self).ready(),
        ensures
            final(self).ready(),
            old(self).ecall_outcome(*old(machine), *final(machine), r),
    ;

    /// Called on a debug trap.
    fn ebreak(&mut self, machine: &mut Mac) -> (r: Result<(), Error>)
        requires
            old(self).ready(),
        ensures
            final(self).ready(),
            old(self).ebreak_outcome(*old(machine), *final(machine), r),
    ;

    /// The cost of one decoded instruction.
    fn instruction_cycles(&self, inst: Instruction) -> (r: u64)
        requires
            self.ready(),
        ensures
            self.cost_outcome(inst, r),
    ;
}

/// The context with nothing attached: no syscall is handled, a debug trap
/// does nothing and every instruction is free.
impl<Mac> ExecutionContext<Mac> for () {
    open spec fn ready(&self) -> bool {
        true
    }

    open spec fn initialize_outcome(&self, before: Mac, after: Mac, r: Result<(), Error>) -> bool {
        after == before && r == Ok::<(), Error>(())
    }

    open spec fn ecall_outcome(&self, before: Mac, after: Mac, r: Result<bool, Error>) -> bool {
        after == before && r == Ok::<bool, Error>(false)
    }

    open spec fn ebreak_outcome(&self, before: Mac, after: Mac, r: Result<(), Error>) -> bool {
        after == before && r == Ok::<(), Error>(())
    }

    open spec fn cost_outcome(&self, inst: Instruction, cycles: u64) -> bool {
        cycles == 0
    }

    fn initialize(&mut self, machine: &mut Mac) -> (r: Result<(), Error>) {
        Ok(())
    }

    fn ecall(&mut self, machine: &mut Mac) -> (r: Result<bool, Error>) {
        Ok(false)
    }

    fn ebreak(&mut self, machine: &mut Mac) -> (r: Result<(), Error>) {
        Ok(())
    }

    fn instruction_cycles(&self, inst: Instruction) -> (r: u64) {
        0
    }
}

/// A context with one more syscall handler, tried after those of `base`.
pub struct WithSyscall<Ctx, F> {
    pub base: Ctx,
    pub syscall: F,
}

impl<Ctx, F, Mac> ExecutionContext<Mac> for WithSyscall<Ctx, F> where
    Ctx: ExecutionContext<Mac>,
    F: FnMut(&mut Mac) -> Result<bool, Error>,
 {
    open spec fn ready(&self) -> bool {
        self.base.ready() && hook_total(self.syscall)
    }

    open spec fn initialize_outcome(&self, before: Mac, after: Mac, r: Result<(), Error>) -> bool {
        self.base.initialize_outcome(before, after, r)
    }

    open spec fn ecall_outcome(&self, before: Mac, after: Mac, r: Result<bool, Error>) -> bool {
        exists|mid: Mac, rb: Result<bool, Error>|
            #[trigger] self.base.ecall_outcome(before, mid, rb) && match rb {
                Ok(true) => after == mid && r == Ok::<bool, Error>(true),
                Err(e) => after == mid && r == Err::<bool, Error>(e),
                Ok(false) => hook_outcome(self.syscall, mid, r),
            }
    }

    open spec fn ebreak_outcome(&self, before: Mac, after: Mac, r: Result<(), Error>) -> bool {
        self.base.ebreak_outcome(before, after, r)
    }

    open spec fn cost_outcome(&self, inst: Instruction, cycles: u64) -> bool {
        self.base.cost_outcome(inst, cycles)
    }

    fn initialize(&mut self, machine: &mut Mac) -> (r: Result<(), Error>) {
        self.base.initialize(machine)
    }

    fn ecall(&mut self, machine: &mut Mac) -> (r: Result<bool, Error>) {
        let ghost before = *machine;
        let processed = match self.base.ecall(machine) {
            Ok(p) => p,
            Err(e) => return Err(e),
        };
        if processed {
            return Ok(processed);
        }
        let ghost mid = *machine;
        let r = (self.syscall)(machine);
        assert(hook_outcome(self.syscall, mid, r));
        r
    }

    fn ebreak(&mut self, machine: &mut Mac) -> (r: Result<(), Error>) {
        self.base.ebreak(machine)
    }

    fn instruction_cycles(&self, inst: Instruction) -> (r: u64) {
        self.base.instruction_cycles(inst)
    }
}

/// A context whose debugger replaces that of `base`.
pub struct WithDebugger<Ctx, F> {
    pub base: Ctx,
    pub debugger: F,
}

impl<Ctx, F, Mac> ExecutionContext<Mac> for WithDebugger<Ctx, F> where
    Ctx: ExecutionContext<Mac>,
    F: FnMut(&mut Mac) -> Result<(), Error>,
 {
    open spec fn ready(&self) -> bool {
        self.base.ready() && hook_total(self.debugger)
    }

    open spec fn initialize_outcome(&self, before: Mac, after: Mac, r: Result<(), Error>) -> bool {
        self.base.initialize_outcome(before, after, r)
    }

    open spec fn ecall_outcome(&self, before: Mac, after: Mac, r: Result<bool, Error>) -> bool {
        self.base.ecall_outcome(before, after, r)
    }

    open spec fn ebreak_outcome(&self, before: Mac, after: Mac, r: Result<(), Error>) -> bool {
        hook_outcome(self.debugger, before, r)
    }

    open spec fn cost_outcome(&self, inst: Instruction, cycles: u64) -> bool {
        self.base.cost_outcome(inst, cycles)
    }

    fn initialize(&mut self, machine: &mut Mac) -> (r: Result<(), Error>) {
        self.base.initialize(machine)
    }

    fn ecall(&mut self, machine: &mut Mac) -> (r: Result<bool, Error>) {
        self.base.ecall(machine)
    }

    fn ebreak(&mut self, machine: &mut Mac) -> (r: Result<(), Error>) {
        let ghost before = *machine;
        let r = (self.debugger)(machine);
        assert(hook_outcome(self.debugger, before, r));
        r
    }

    fn instruction_cycles(&self, inst: Instruction) -> (r: u64) {
        self.base.instruction_cycles(inst)
    }
}

/// A context whose instruction cost function replaces that of `base`.
pub struct WithCyclesFunc<Ctx, F> {
    pub base: Ctx,
    pub cycles: F,
}

impl<Ctx, F, Mac> ExecutionContext<Mac> for WithCyclesFunc<Ctx, F> where
    Ctx: ExecutionContext<Mac>,
    F: Fn(Instruction) -> u64,
 {
    open spec fn ready(&self) -> bool {
        self.base.ready() && forall|inst: Instruction| #[trigger] call_requires(self.cycles, (inst,))
    }

    open spec fn initialize_outcome(&self, before: Mac, after: Mac, r: Result<(), Error>) -> bool {
        self.base.initialize_outcome(before, after, r)
    }

    open spec fn ecall_outcome(&self, before: Mac, after: Mac, r: Result<bool, Error>) -> bool {
        self.base.ecall_outcome(before, after, r)
    }

    open spec fn ebreak_outcome(&self, before: Mac, after: Mac, r: Result<(), Error>) -> bool {
        self.base.ebreak_outcome(before, after, r)
    }

    open spec fn cost_outcome(&self, inst: Instruction, cycles: u64) -> bool {
        call_ensures(self.cycles, (inst,), cycles)
    }

    fn initialize(&mut self, machine: &mut Mac) -> (r: Result<(), Error>) {
        self.base.initialize(machine)
    }

    fn ecall(&mut self, machine: &mut Mac) -> (r: Result<bool, Error>) {
        self.base.ecall(machine)
    }

    fn ebreak(&mut self, machine: &mut Mac) -> (r: Result<(), Error>) {
        self.base.ebreak(machine)
    }

    fn instruction_cycles(&self, inst: Instruction) -> (r: u64) {
        (self.cycles)(inst)
    }
}

/// Building a context chain by value.
pub trait ExecutionContextExt<Mac>: Sized {
    /// Add a syscall handler, tried after those already attached.
    fn with_syscall<F>(self, syscall: F) -> (r: WithSyscall<Self, F>) where
        F: FnMut(&mut Mac) -> Result<bool, Error>,

        ensures
            r.base == self,
            r.syscall == syscall,
    {
        WithSyscall { base: self, syscall }
    }

    /// Replace the debugger.
    fn with_debugger<F>(self, debugger: F) -> (r: WithDebugger<Self, F>) where
        F: FnMut(&mut Mac) -> Result<(), Error>,

        ensures
            r.base == self,
            r.debugger == debugger,
    {
        WithDebugger { base: self, debugger }
    }

    /// Replace the instruction cost function.
    fn with_cycles<F>(self, cycles: F) -> (r: WithCyclesFunc<Self, F>) where
        F: Fn(Instruction) -> u64,

        ensures
            r.base == self,
            r.cycles == cycles,
    {
        WithCyclesFunc { base: self, cycles }
    }
}

impl<Mac, T: ExecutionContext<Mac>> ExecutionContextExt<Mac> for T {

}

/// Syscall handlers run in the order they were attached: when the first
/// handles a call the second is never run and the machine is as the first
/// left it; when the first declines, the second is tried next.
pub proof fn lemma_syscalls_in_order<Mac, F1, F2>(
    ctx: WithSyscall<WithSyscall<(), F1>, F2>,
    before: Mac,
    after: Mac,
    r: Result<bool, Error>,
) where
    F1: FnMut(&mut Mac) -> Result<bool, Error>,
    F2: FnMut(&mut Mac) -> Result<bool, Error>,

    requires
        ctx.ecall_outcome(before, after, r),
    ensures
        exists|mid: Mac, r1: Result<bool, Error>|
            #[trigger] ctx.base.ecall_outcome(before, mid, r1) && hook_outcome(
                ctx.base.syscall,
                before,
                r1,
            ) && match r1 {
                Ok(true) => after == mid && r == Ok::<bool, Error>(true),
                Err(e) => after == mid && r == Err::<bool, Error>(e),
                Ok(false) => hook_outcome(ctx.syscall, mid, r),
            },
{
    let (mid, r1) = choose|mid: Mac, r1: Result<bool, Error>|
        #[trigger] ctx.base.ecall_outcome(before, mid, r1) && match r1 {
            Ok(true) => after == mid && r == Ok::<bool, Error>(true),
            Err(e) => after == mid && r == Err::<bool, Error>(e),
            Ok(false) => hook_outcome(ctx.syscall, mid, r),
        };
    let (m0, r0) = choose|m0: Mac, r0: Result<bool, Error>|
        #[trigger] ctx.base.base.ecall_outcome(before, m0, r0) && match r0 {
            Ok(true) => mid == m0 && r1 == Ok::<bool, Error>(true),
            Err(e) => mid == m0 && r1 == Err::<bool, Error>(e),
            Ok(false) => hook_outcome(ctx.base.syscall, m0, r1),
        };
    assert(m0 == before && r0 == Ok::<bool, Error>(false));
}

/// A second debugger replaces the first: what a debug trap may return is
/// what the second gives, whatever the first would.
pub proof fn lemma_debugger_replaced<Mac, Ctx, F1, F2>(
    ctx: WithDebugger<WithDebugger<Ctx, F1>, F2>,
    before: Mac,
    after: Mac,
    r: Result<(), Error>,
) where
    Ctx: ExecutionContext<Mac>,
    F1: FnMut(&mut Mac) -> Result<(), Error>,
    F2: FnMut(&mut Mac) -> Result<(), Error>,

    ensures
        ctx.ebreak_outcome(before, after, r) == hook_outcome(ctx.debugger, before, r),
{
}

/// A second cost function replaces the first: the cost of an instruction is
/// what the second gives, whatever the first would.
pub proof fn lemma_cycles_replaced<Mac, Ctx, F1, F2>(
    ctx: WithCyclesFunc<WithCyclesFunc<Ctx, F1>, F2>,
    inst: Instruction,
    cycles: u64,
) where
    Ctx: ExecutionContext<Mac>,
    F1: Fn(Instruction) -> u64,
    F2: Fn(Instruction) -> u64,

    ensures
        <WithCyclesFunc<WithCyclesFunc<Ctx, F1>, F2> as ExecutionContext<Mac>>::cost_outcome(
            &ctx,
            inst,
            cycles,
        ) == call_ensures(ctx.cycles, (inst,), cycles),
{
}

} // verus!
