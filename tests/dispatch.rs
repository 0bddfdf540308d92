use simple_hv::binding::{
    guest_entry, guest_vsatp, identity_requests, identity_step, IdentityRequest, MappingStep,
    Stage1Policy,
};
use simple_hv::exit::{trap_cause, vmexit_handler, ExitOutcome, FatalKind, FatalReport, TrapCause, TrapEvent};
use simple_hv::sbi::{SbiError, SbiMessage, EXT_BASE, EXT_SRST};
use simple_hv::vcpu::{prepare_guest_context, prepare_vm_pgtable, VcpuContext, A0, A1, A6, A7};

fn trap(scause: u64, stval: u64, htinst: u64) -> TrapEvent {
    TrapEvent { scause, stval, htinst }
}

fn guest_at(sepc: u64) -> VcpuContext {
    let mut ctx = VcpuContext::new();
    ctx.sepc = sepc;
    ctx
}

#[test]
fn emulated_csrr_writes_value_and_resumes() {
    let mut ctx = guest_at(0x8020_0000);
    let out = vmexit_handler(&mut ctx, &trap(2, 0, 0xf140_25f3), None);
    assert_eq!(out, ExitOutcome::Resume);
    assert_eq!(ctx.reg(A1), 0x1234);
    assert_eq!(ctx.sepc, 0x8020_0004);
}

#[test]
fn missing_encoding_asks_for_fetch_then_emulates() {
    let mut ctx = guest_at(0x8020_0008);
    let t = trap(2, 0, 0);
    assert_eq!(vmexit_handler(&mut ctx, &t, None), ExitOutcome::FetchInstruction(0x8020_0008));
    assert_eq!(ctx.sepc, 0x8020_0008);
    assert_eq!(ctx.reg(A1), 0);
    assert_eq!(vmexit_handler(&mut ctx, &t, Some(0xf140_25f3)), ExitOutcome::Resume);
    assert_eq!(ctx.reg(A1), 0x1234);
    assert_eq!(ctx.sepc, 0x8020_000c);
}

#[test]
fn captured_encoding_wins_over_fetched_word() {
    let mut ctx = guest_at(0x100);
    let out = vmexit_handler(&mut ctx, &trap(2, 0, 0x0000_0073), Some(0xf140_25f3));
    assert!(matches!(out, ExitOutcome::Fatal(r) if r.value == 0x73));
}

#[test]
fn reset_call_with_sentinels_shuts_down() {
    let mut ctx = guest_at(0x8020_0010);
    ctx.set_reg(A0, 0x6688);
    ctx.set_reg(A1, 0x1234);
    ctx.set_reg(A7, EXT_SRST);
    ctx.set_reg(A6, 0);
    assert_eq!(vmexit_handler(&mut ctx, &trap(10, 0, 0), None), ExitOutcome::Shutdown);
    assert_eq!(ctx.sepc, 0x8020_0010);
}

#[test]
fn driver_stops_at_shutdown_without_another_entry() {
    let mut ctx = guest_at(0x8020_0000);
    let mut traps = vec![trap(2, 0, 0xf140_25f3), trap(21, 0x40, 0), trap(10, 0, 0), trap(2, 0, 0x13)];
    traps.reverse();
    let mut entries = 0;
    loop {
        let t = traps.pop().unwrap();
        entries += 1;
        if entries == 3 {
            ctx.set_reg(A7, EXT_SRST);
            ctx.set_reg(A6, 0);
        }
        match vmexit_handler(&mut ctx, &t, None) {
            ExitOutcome::Resume => continue,
            ExitOutcome::Shutdown => break,
            other => panic!("unexpected outcome {:?}", other),
        }
    }
    assert_eq!(entries, 3);
    assert_eq!(traps.len(), 1);
    assert_eq!(ctx.reg(A0), 0x6688);
    assert_eq!(ctx.reg(A1), 0x1234);
}

#[test]
fn reset_call_with_other_arguments_is_fatal() {
    let mut ctx = guest_at(0x200);
    ctx.set_reg(A0, 1);
    ctx.set_reg(A1, 0x1234);
    ctx.set_reg(A7, EXT_SRST);
    let out = vmexit_handler(&mut ctx, &trap(10, 0, 0), None);
    assert_eq!(
        out,
        ExitOutcome::Fatal(FatalReport { kind: FatalKind::BadShutdownArgs, scause: 10, sepc: 0x200, value: 1, extra: 0x1234 })
    );
}

#[test]
fn other_sbi_calls_are_fatal() {
    let mut ctx = guest_at(0x200);
    ctx.set_reg(A7, EXT_BASE);
    ctx.set_reg(A6, 3);
    let out = vmexit_handler(&mut ctx, &trap(10, 0, 0), None);
    assert!(matches!(out, ExitOutcome::Fatal(r) if r.kind == FatalKind::UnsupportedSbiCall && r.value == EXT_BASE && r.extra == 3));
    ctx.set_reg(A7, 0x1234_5678);
    let out = vmexit_handler(&mut ctx, &trap(10, 0, 0), None);
    assert!(matches!(out, ExitOutcome::Fatal(r) if r.kind == FatalKind::UnsupportedSbiCall));
}

#[test]
fn user_env_call_shutdown_steps_past_ecall() {
    let mut ctx = guest_at(0x300);
    ctx.set_reg(A0, 0x6688);
    ctx.set_reg(A1, 0x1234);
    assert_eq!(vmexit_handler(&mut ctx, &trap(8, 0, 0), None), ExitOutcome::Shutdown);
    assert_eq!(ctx.sepc, 0x304);
}

#[test]
fn user_env_call_with_other_arguments_is_fatal() {
    let mut ctx = guest_at(0x300);
    ctx.set_reg(A0, 0x6688);
    ctx.set_reg(A1, 0x9999);
    let out = vmexit_handler(&mut ctx, &trap(8, 0, 0), None);
    assert_eq!(
        out,
        ExitOutcome::Fatal(FatalReport {
            kind: FatalKind::BadShutdownArgs,
            scause: 8,
            sepc: 0x300,
            value: 0x6688,
            extra: 0x9999,
        })
    );
    assert_eq!(ctx.sepc, 0x300);
}

#[test]
fn unknown_instruction_is_fatal_with_encoding_and_pc() {
    let mut ctx = guest_at(0x8020_0040);
    let out = vmexit_handler(&mut ctx, &trap(2, 0, 0xdead_beef), None);
    assert_eq!(
        out,
        ExitOutcome::Fatal(FatalReport {
            kind: FatalKind::UnsupportedInstruction,
            scause: 2,
            sepc: 0x8020_0040,
            value: 0xdead_beef,
            extra: 0,
        })
    );
    assert_eq!(ctx.sepc, 0x8020_0040);
}

#[test]
fn probe_load_fault_is_emulated() {
    let mut ctx = guest_at(0x400);
    assert_eq!(vmexit_handler(&mut ctx, &trap(21, 0x40, 0), None), ExitOutcome::Resume);
    assert_eq!(ctx.reg(A0), 0x6688);
    assert_eq!(ctx.sepc, 0x404);
}

#[test]
fn other_load_fault_is_fatal() {
    let mut ctx = guest_at(0x400);
    let out = vmexit_handler(&mut ctx, &trap(21, 0x1000, 0), None);
    assert!(matches!(out, ExitOutcome::Fatal(r) if r.kind == FatalKind::UnexpectedLoadFault && r.value == 0x1000));
    assert_eq!(ctx.reg(A0), 0);
}

#[test]
fn instruction_guest_page_fault_is_fatal() {
    let mut ctx = guest_at(0x8064_7000);
    let out = vmexit_handler(&mut ctx, &trap(20, 0x8064_7000, 0), None);
    assert_eq!(
        out,
        ExitOutcome::Fatal(FatalReport {
            kind: FatalKind::InstructionGuestPageFault,
            scause: 20,
            sepc: 0x8064_7000,
            value: 0x8064_7000,
            extra: 0,
        })
    );
}

#[test]
fn interrupts_and_other_traps_are_fatal() {
    let mut ctx = guest_at(0x500);
    let out = vmexit_handler(&mut ctx, &trap((1u64 << 63) | 5, 0, 0), None);
    assert!(matches!(out, ExitOutcome::Fatal(r) if r.kind == FatalKind::UnhandledTrap));
    let out = vmexit_handler(&mut ctx, &trap(12, 0x77, 0), None);
    assert!(matches!(out, ExitOutcome::Fatal(r) if r.kind == FatalKind::UnhandledTrap && r.value == 0x77));
}

#[test]
fn trap_causes_decode() {
    assert_eq!(trap_cause(10), TrapCause::VirtualSupervisorEnvCall);
    assert_eq!(trap_cause(8), TrapCause::UserEnvCall);
    assert_eq!(trap_cause(2), TrapCause::IllegalInstruction);
    assert_eq!(trap_cause(20), TrapCause::InstructionGuestPageFault);
    assert_eq!(trap_cause(21), TrapCause::LoadGuestPageFault);
    assert_eq!(trap_cause(12), TrapCause::InstructionPageFault);
    assert_eq!(trap_cause(23), TrapCause::Other);
    assert_eq!(trap_cause((1u64 << 63) | 2), TrapCause::Other);
}

#[test]
fn sbi_messages_decode() {
    let mut a = [0u64; 8];
    a[0] = 5;
    a[1] = 6;
    a[7] = EXT_SRST;
    assert_eq!(SbiMessage::from_regs(&a), Ok(SbiMessage::Reset { reset_type: 5, reason: 6 }));
    a[6] = 1;
    assert_eq!(SbiMessage::from_regs(&a), Err(SbiError::UnknownFunction(1)));
    a[7] = 0x01;
    assert_eq!(SbiMessage::from_regs(&a), Ok(SbiMessage::Legacy(1)));
    a[7] = 0x99;
    assert_eq!(SbiMessage::from_regs(&a), Err(SbiError::UnknownExtension(0x99)));
}

#[test]
fn zero_register_ignores_writes() {
    let mut ctx = VcpuContext::new();
    ctx.set_reg(0, 5);
    assert_eq!(ctx.reg(0), 0);
    ctx.set_reg(31, 5);
    assert_eq!(ctx.reg(31), 5);
}

#[test]
fn guest_context_is_prepared_for_entry() {
    let mut ctx = VcpuContext::new();
    prepare_guest_context(&mut ctx, 0x8064_7000, 0x2_0000_0000, 0x2, 0);
    assert_eq!(ctx.sepc, 0x8064_7000);
    assert_eq!(ctx.hstatus, 0x2_0000_0180);
    assert_eq!(ctx.sstatus, 0x102);
    assert_eq!(ctx.vsatp, 0);
}

#[test]
fn hgatp_names_mode_and_root_page() {
    assert_eq!(prepare_vm_pgtable(0x8060_0000), (8u64 << 60) | 0x80600);
}

#[test]
fn stage1_policies() {
    assert_eq!(guest_entry(Stage1Policy::Disabled, 0x1000, 0x8064_7000), 0x8064_7000);
    assert_eq!(guest_entry(Stage1Policy::Enabled, 0x1000, 0x8064_7000), 0x1000);
    assert_eq!(guest_vsatp(Stage1Policy::Disabled, 0x8060_0000), 0);
    assert_eq!(guest_vsatp(Stage1Policy::Enabled, 0x8060_0000), (8u64 << 60) | 0x80600);
}

#[test]
fn identity_mapping_steps() {
    assert_eq!(identity_step(0x8064_7000, None), MappingStep::Install);
    assert_eq!(identity_step(0x8064_7000, Some(0x8064_7000)), MappingStep::AlreadyIdentity);
    assert_eq!(identity_step(0x8064_7000, Some(0x9000_0000)), MappingStep::Conflict(0x9000_0000));
}

#[test]
fn identity_requests_cover_entry_and_root() {
    let rs = identity_requests(0x8064_7abc, 0x8060_0000);
    assert_eq!(
        rs,
        vec![
            IdentityRequest { gpa: 0x8064_7000, size: 4096 },
            IdentityRequest { gpa: 0x8060_0000, size: 256 * 4096 },
        ]
    );
}
