//! The VM-exit dispatcher: from the trap that returned control and the saved
//! guest state, decide whether to resume the guest, shut it down, fetch the
//! faulting instruction first, or stop with a fatal report.
use vstd::prelude::*;
use crate::sbi::{SbiMessage, sbi_decode};
use crate::vcpu::{VcpuContext, with_reg, A0, A1, A6, A7};

verus! {

/// Top bit of scause: the trap is an interrupt.
pub const INTERRUPT_BIT: u64 = 0x8000_0000_0000_0000;

pub const EXC_ILLEGAL_INSTRUCTION: u64 = 2;

pub const EXC_USER_ENV_CALL: u64 = 8;

pub const EXC_VIRTUAL_SUPERVISOR_ENV_CALL: u64 = 10;

pub const EXC_INSTRUCTION_PAGE_FAULT: u64 = 12;

pub const EXC_INSTRUCTION_GUEST_PAGE_FAULT: u64 = 20;

pub const EXC_LOAD_GUEST_PAGE_FAULT: u64 = 21;

/// Width of every guest instruction that is emulated or stepped over.
pub const INSN_WIDTH: u64 = 4;

/// Register a0 value of the shutdown request.
pub const SHUTDOWN_A0: u64 = 0x6688;

/// Register a1 value of the shutdown request.
pub const SHUTDOWN_A1: u64 = 0x1234;

/// Encoding of `csrr a1, mhartid`, the one emulated instruction.
pub const CSRR_A1_MHARTID: u32 = 0xf140_25f3;

/// The hart id that the emulated `csrr` reads.
pub const EMULATED_HART_ID: u64 = 0x1234;

/// The one address whose guest load fault is emulated.
pub const PROBE_ADDR: u64 = 0x40;

/// The value an emulated load from the probe address yields.
pub const PROBE_VALUE: u64 = 0x6688;

/// What trapped, as far as the dispatcher tells causes apart.
#[derive(Clone, Copy, Debug, PartialEq, Eq, Structural)]
pub enum TrapCause {
    VirtualSupervisorEnvCall,
    UserEnvCall,
    IllegalInstruction,
    InstructionGuestPageFault,
    LoadGuestPageFault,
    InstructionPageFault,
    Other,
}

/// The hardware state read at a trap.
#[derive(Clone, Copy, Debug, PartialEq, Eq, Structural)]
pub struct TrapEvent {
    pub scause: u64,
    pub stval: u64,
    pub htinst: u64,
}

/// Which fatal condition stopped the guest.
#[derive(Clone, Copy, Debug, PartialEq, Eq, Structural)]
pub enum FatalKind {
    /// An SBI call other than the system reset, or one that does not decode.
    UnsupportedSbiCall,
    /// A shutdown call whose arguments are not the expected pair.
    BadShutdownArgs,
    /// An illegal instruction other than the emulated one.
    UnsupportedInstruction,
    /// A guest load fault at an address other than the probe.
    UnexpectedLoadFault,
    /// A guest instruction fetch that stage-2 could not translate.
    InstructionGuestPageFault,
    /// Any other trap.
    UnhandledTrap,
}

/// The full context of a fatal stop: the kind, scause, the guest's next
/// instruction address and the faulting values. `value` is the encoding,
/// the address, a0 of a shutdown call or a7 of an SBI call; `extra` is a1 of
/// a shutdown call, a6 of an SBI call, and zero for the other kinds.
#[derive(Clone, Copy, Debug, PartialEq, Eq, Structural)]
pub struct FatalReport {
    pub kind: FatalKind,
    pub scause: u64,
    pub sepc: u64,
    pub value: u64,
    pub extra: u64,
}

/// What follows one VM exit.
#[derive(Clone, Copy, Debug, PartialEq, Eq, Structural)]
pub enum ExitOutcome {
    /// Enter the guest again.
    Resume,
    /// The guest asked to shut down.
    Shutdown,
    /// Read the 32-bit word at this guest-physical address and dispatch the
    /// same trap again with it.
    FetchInstruction(u64),
    /// Stop the hypervisor with this report.
    Fatal(FatalReport),
}

/// The cause that scause value `s` names.
pub open spec fn cause_of(s: u64) -> TrapCause {
    if s >= INTERRUPT_BIT {
        TrapCause::Other
    } else if s == EXC_VIRTUAL_SUPERVISOR_ENV_CALL {
        TrapCause::VirtualSupervisorEnvCall
    } else if s == EXC_USER_ENV_CALL {
        TrapCause::UserEnvCall
    } else if s == EXC_ILLEGAL_INSTRUCTION {
        TrapCause::IllegalInstruction
    } else if s == EXC_INSTRUCTION_GUEST_PAGE_FAULT {
        TrapCause::InstructionGuestPageFault
    } else if s == EXC_LOAD_GUEST_PAGE_FAULT {
        TrapCause::LoadGuestPageFault
    } else if s == EXC_INSTRUCTION_PAGE_FAULT {
        TrapCause::InstructionPageFault
    } else {
        TrapCause::Other
    }
}

/// The address of the instruction after the one at `pc`.
pub open spec fn next_pc(pc: u64) -> u64 {
    if pc <= u64::MAX - INSN_WIDTH {
        (pc + INSN_WIDTH) as u64
    } else {
        (pc + INSN_WIDTH - 0x1_0000_0000_0000_0000) as u64
    }
}

/// Whether a0 and a1 hold the shutdown pair.
pub open spec fn shutdown_args(regs: Seq<u64>) -> bool {
    regs[A0 as int] == SHUTDOWN_A0 && regs[A1 as int] == SHUTDOWN_A1
}

/// The faulting instruction: the captured encoding where there is one, else
/// the fetched word, if any.
pub open spec fn insn_of(trap: TrapEvent, fetched: Option<u32>) -> Option<u32> {
    if trap.htinst != 0 {
        Some(trap.htinst as u32)
    } else {
        fetched
    }
}

/// The destination register field of an instruction encoding.
pub open spec fn insn_rd(i: u32) -> int {
    ((i / 128) % 32) as int
}

pub open spec fn fatal(kind: FatalKind, trap: TrapEvent, sepc: u64, value: u64, extra: u64) -> ExitOutcome {
    ExitOutcome::Fatal(FatalReport { kind, scause: trap.scause, sepc, value, extra })
}

/// What follows the exit `trap` from a guest with registers `regs` and next
/// instruction address `sepc`.
pub open spec fn exit_outcome(regs: Seq<u64>, sepc: u64, trap: TrapEvent, fetched: Option<u32>) -> ExitOutcome {
    match cause_of(trap.scause) {
        TrapCause::VirtualSupervisorEnvCall => match sbi_decode(regs.subrange(A0 as int, A7 + 1)) {
            Ok(SbiMessage::Reset { .. }) => if shutdown_args(regs) {
                ExitOutcome::Shutdown
            } else {
                fatal(FatalKind::BadShutdownArgs, trap, sepc, regs[A0 as int], regs[A1 as int])
            },
            _ => fatal(FatalKind::UnsupportedSbiCall, trap, sepc, regs[A7 as int], regs[A6 as int]),
        },
        TrapCause::UserEnvCall => if shutdown_args(regs) {
            ExitOutcome::Shutdown
        } else {
            fatal(FatalKind::BadShutdownArgs, trap, sepc, regs[A0 as int], regs[A1 as int])
        },
        TrapCause::IllegalInstruction => match insn_of(trap, fetched) {
            None => ExitOutcome::FetchInstruction(sepc),
            Some(i) => if i == CSRR_A1_MHARTID {
                ExitOutcome::Resume
            } else {
                fatal(FatalKind::UnsupportedInstruction, trap, sepc, i as u64, 0)
            },
        },
        TrapCause::LoadGuestPageFault => if trap.stval == PROBE_ADDR {
            ExitOutcome::Resume
        } else {
            fatal(FatalKind::UnexpectedLoadFault, trap, sepc, trap.stval, 0)
        },
        TrapCause::InstructionGuestPageFault => fatal(
            FatalKind::InstructionGuestPageFault,
            trap,
            sepc,
            trap.stval,
            0,
        ),
        _ => fatal(FatalKind::UnhandledTrap, trap, sepc, trap.stval, 0),
    }
}

/// The registers after the exit: an emulated instruction or load writes its
/// destination, nothing else changes them.
pub open spec fn exit_regs(regs: Seq<u64>, trap: TrapEvent, fetched: Option<u32>) -> Seq<u64> {
    match cause_of(trap.scause) {
        TrapCause::IllegalInstruction => match insn_of(trap, fetched) {
            Some(i) => if i == CSRR_A1_MHARTID {
                with_reg(regs, insn_rd(i), EMULATED_HART_ID)
            } else {
                regs
            },
            None => regs,
        },
        TrapCause::LoadGuestPageFault => if trap.stval == PROBE_ADDR {
            with_reg(regs, A0 as int, PROBE_VALUE)
        } else {
            regs
        },
        _ => regs,
    }
}

/// Whether the exit steps the guest past the trapping instruction: an
/// emulated instruction or load, or the legacy shutdown call.
pub open spec fn exit_steps(regs: Seq<u64>, trap: TrapEvent, fetched: Option<u32>) -> bool {
    match cause_of(trap.scause) {
        TrapCause::UserEnvCall => shutdown_args(regs),
        TrapCause::IllegalInstruction => insn_of(trap, fetched) == Some(CSRR_A1_MHARTID),
        TrapCause::LoadGuestPageFault => trap.stval == PROBE_ADDR,
        _ => false,
    }
}

/// A guest instruction fetch that stage-2 cannot translate always stops the
/// hypervisor with a report of the faulting address, and changes nothing.
pub proof fn lemma_untranslated_fetch_is_fatal(
    regs: Seq<u64>,
    sepc: u64,
    trap: TrapEvent,
    fetched: Option<u32>,
)
    requires
        cause_of(trap.scause) == TrapCause::InstructionGuestPageFault,
    ensures
        exit_outcome(regs, sepc, trap, fetched) == ExitOutcome::Fatal(
            FatalReport {
                kind: FatalKind::InstructionGuestPageFault,
                scause: trap.scause,
                sepc,
                value: trap.stval,
                extra: 0,
            },
        ),
        exit_regs(regs, trap, fetched) == regs,
        !exit_steps(regs, trap, fetched),
{
}

/// The cause that scause value `s` names.
pub fn trap_cause(s: u64) -> (r: TrapCause)
    ensures
        r == cause_of(s),
{
    if s >= INTERRUPT_BIT {
        TrapCause::Other
    } else if s == EXC_VIRTUAL_SUPERVISOR_ENV_CALL {
        TrapCause::VirtualSupervisorEnvCall
    } else if s == EXC_USER_ENV_CALL {
        TrapCause::UserEnvCall
    } else if s == EXC_ILLEGAL_INSTRUCTION {
        TrapCause::IllegalInstruction
    } else if s == EXC_INSTRUCTION_GUEST_PAGE_FAULT {
        TrapCause::InstructionGuestPageFault
    } else if s == EXC_LOAD_GUEST_PAGE_FAULT {
        TrapCause::LoadGuestPageFault
    } else if s == EXC_INSTRUCTION_PAGE_FAULT {
        TrapCause::InstructionPageFault
    } else {
        TrapCause::Other
    }
}

fn step_pc(pc: u64) -> (r: u64)
    ensures
        r == next_pc(pc),
{
    if pc <= u64::MAX - INSN_WIDTH {
        pc + INSN_WIDTH
    } else {
        pc - (u64::MAX - INSN_WIDTH + 1)
    }
}

fn rd_field(i: u32) -> (r: usize)
    ensures
        r == insn_rd(i),
        r < 32,
{
    let r = (i >> 7) & 0x1f;
    assert(r == (i / 128) % 32) by (bit_vector)
        requires
            r == (i >> 7) & 0x1f,
    ;
    r as usize
}

fn fatal_exit(kind: FatalKind, trap: &TrapEvent, sepc: u64, value: u64, extra: u64) -> (r: ExitOutcome)
    ensures
        r == fatal(kind, *trap, sepc, value, extra),
{
    ExitOutcome::Fatal(FatalReport { kind, scause: trap.scause, sepc, value, extra })
}

/// Handles one VM exit: emulates what is recognised, shuts down on the
/// shutdown call, asks for the instruction word where the trap captured
/// none, and reports every other exit as fatal.
pub fn vmexit_handler(ctx: &mut VcpuContext, trap: &TrapEvent, fetched: Option<u32>) -> (r: ExitOutcome)
    requires
        old(ctx).wf(),
    ensures
        final(ctx).wf(),
        r == exit_outcome(old(ctx).gprs@, old(ctx).sepc, *trap, fetched),
        final(ctx).gprs@ == exit_regs(old(ctx).gprs@, *trap, fetched),
        final(ctx).sepc == if exit_steps(old(ctx).gprs@, *trap, fetched) {
            next_pc(old(ctx).sepc)
        } else {
            old(ctx).sepc
        },
        final(ctx).sstatus == old(ctx).sstatus,
        final(ctx).hstatus == old(ctx).hstatus,
        final(ctx).vsatp == old(ctx).vsatp,
{
    let sepc = ctx.sepc;
    match trap_cause(trap.scause) {
        TrapCause::VirtualSupervisorEnvCall => {
            let args = ctx.a_regs();
            match SbiMessage::from_regs(args.as_slice()) {
                Ok(SbiMessage::Reset { .. }) => {
                    let a0 = ctx.reg(A0);
                    let a1 = ctx.reg(A1);
                    if a0 == SHUTDOWN_A0 && a1 == SHUTDOWN_A1 {
                        ExitOutcome::Shutdown
                    } else {
                        fatal_exit(FatalKind::BadShutdownArgs, trap, sepc, a0, a1)
                    }
                },
                _ => fatal_exit(FatalKind::UnsupportedSbiCall, trap, sepc, ctx.reg(A7), ctx.reg(A6)),
            }
        },
        TrapCause::UserEnvCall => {
            let a0 = ctx.reg(A0);
            let a1 = ctx.reg(A1);
            if a0 == SHUTDOWN_A0 && a1 == SHUTDOWN_A1 {
                ctx.sepc = step_pc(sepc);
                ExitOutcome::Shutdown
            } else {
                fatal_exit(FatalKind::BadShutdownArgs, trap, sepc, a0, a1)
            }
        },
        TrapCause::IllegalInstruction => {
            let insn = if trap.htinst != 0 {
                Some(trap.htinst as u32)
            } else {
                fetched
            };
            match insn {
                None => ExitOutcome::FetchInstruction(sepc),
                Some(i) => {
                    if i == CSRR_A1_MHARTID {
                        ctx.set_reg(rd_field(i), EMULATED_HART_ID);
                        ctx.sepc = step_pc(sepc);
                        ExitOutcome::Resume
                    } else {
                        fatal_exit(FatalKind::UnsupportedInstruction, trap, sepc, i as u64, 0)
                    }
                },
            }
        },
        TrapCause::LoadGuestPageFault => {
            if trap.stval == PROBE_ADDR {
                ctx.set_reg(A0, PROBE_VALUE);
                ctx.sepc = step_pc(sepc);
                ExitOutcome::Resume
            } else {
                fatal_exit(FatalKind::UnexpectedLoadFault, trap, sepc, trap.stval, 0)
            }
        },
        TrapCause::InstructionGuestPageFault => {
            fatal_exit(FatalKind::InstructionGuestPageFault, trap, sepc, trap.stval, 0)
        },
        _ => fatal_exit(FatalKind::UnhandledTrap, trap, sepc, trap.stval, 0),
    }
}

} // verus!
