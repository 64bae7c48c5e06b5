use ckb_vm_core::context::{ExecutionContext, ExecutionContextExt};
use ckb_vm_core::error::Error;

/// A stand-in machine: registers a7 and a0, and a log of what ran.
struct Machine {
    a7: u64,
    a0: u64,
    log: Vec<&'static str>,
}

fn machine(a7: u64) -> Machine {
    Machine {
        a7,
        a0: 0,
        log: Vec::new(),
    }
}

fn first_handler(m: &mut Machine) -> Result<bool, Error> {
    m.log.push("first");
    if m.a7 == 1 {
        m.a0 = 100;
        return Ok(true);
    }
    Ok(false)
}

fn second_handler(m: &mut Machine) -> Result<bool, Error> {
    m.log.push("second");
    if m.a7 == 2 {
        m.a0 = 200;
        return Ok(true);
    }
    Ok(false)
}

#[test]
fn empty_context_does_nothing() {
    let mut ctx = ();
    let mut m = machine(1);
    assert_eq!(ExecutionContext::<Machine>::initialize(&mut ctx, &mut m), Ok(()));
    assert_eq!(ExecutionContext::<Machine>::ecall(&mut ctx, &mut m), Ok(false));
    assert_eq!(ExecutionContext::<Machine>::ebreak(&mut ctx, &mut m), Ok(()));
    assert_eq!(ExecutionContext::<Machine>::instruction_cycles(&ctx, 42), 0);
    assert!(m.log.is_empty());
}

#[test]
fn earlier_syscall_handler_runs_first() {
    let mut ctx = ExecutionContextExt::<Machine>::with_syscall((), first_handler)
        .with_syscall(second_handler);
    let mut m = machine(1);
    assert_eq!(ctx.ecall(&mut m), Ok(true));
    assert_eq!(m.log, vec!["first"]);
    assert_eq!(m.a0, 100);

    let mut m = machine(2);
    assert_eq!(ctx.ecall(&mut m), Ok(true));
    assert_eq!(m.log, vec!["first", "second"]);
    assert_eq!(m.a0, 200);

    let mut m = machine(3);
    assert_eq!(ctx.ecall(&mut m), Ok(false));
    assert_eq!(m.log, vec!["first", "second"]);
}

#[test]
fn syscall_error_stops_the_chain() {
    let failing = |m: &mut Machine| -> Result<bool, Error> {
        m.log.push("failing");
        Err(Error::MemOutOfBound)
    };
    let mut ctx = ExecutionContextExt::<Machine>::with_syscall((), failing)
        .with_syscall(second_handler);
    let mut m = machine(2);
    assert_eq!(ctx.ecall(&mut m), Err(Error::MemOutOfBound));
    assert_eq!(m.log, vec!["failing"]);
}

#[test]
fn second_debugger_replaces_first() {
    let first = |m: &mut Machine| -> Result<(), Error> {
        m.log.push("debugger one");
        Ok(())
    };
    let second = |m: &mut Machine| -> Result<(), Error> {
        m.log.push("debugger two");
        Ok(())
    };
    let mut ctx = ExecutionContextExt::<Machine>::with_debugger((), first)
        .with_debugger(second)
        .with_syscall(second_handler);
    let mut m = machine(2);
    assert_eq!(ctx.ebreak(&mut m), Ok(()));
    assert_eq!(ctx.ebreak(&mut m), Ok(()));
    assert_eq!(m.log, vec!["debugger two", "debugger two"]);
    assert_eq!(ctx.ecall(&mut m), Ok(true));
    assert_eq!(m.a0, 200);
}

#[test]
fn second_cost_function_replaces_first() {
    let once = ExecutionContextExt::<Machine>::with_cycles((), |_inst: u64| 7);
    let twice = ExecutionContextExt::<Machine>::with_cycles(once, |inst: u64| inst * 2);
    let ctx = twice.with_syscall(first_handler);
    assert_eq!(ExecutionContext::<Machine>::instruction_cycles(&ctx, 21), 42);
    let single = ExecutionContextExt::<Machine>::with_cycles((), |_inst: u64| 7);
    assert_eq!(ExecutionContext::<Machine>::instruction_cycles(&single, 21), 7);
}

#[test]
fn wrappers_pass_other_hooks_through() {
    let mut ctx = ExecutionContextExt::<Machine>::with_cycles((), |_inst: u64| 3)
        .with_debugger(|m: &mut Machine| -> Result<(), Error> {
            m.log.push("debugger");
            Err(Error::MemOutOfBound)
        });
    let mut m = machine(1);
    assert_eq!(ctx.initialize(&mut m), Ok(()));
    assert_eq!(ctx.ecall(&mut m), Ok(false));
    assert_eq!(ctx.ebreak(&mut m), Err(Error::MemOutOfBound));
    assert_eq!(ExecutionContext::<Machine>::instruction_cycles(&ctx, 0), 3);
    assert_eq!(m.log, vec!["debugger"]);
}
