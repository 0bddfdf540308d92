//! The saved guest register state, and the values that prepare it for the
//! first guest entry.
use vstd::prelude::*;

verus! {

/// Number of general-purpose registers.
pub const NUM_GPRS: usize = 32;

/// Index of the hard-wired zero register.
pub const ZERO: usize = 0;

/// Index of argument register a0.
pub const A0: usize = 10;

/// Index of argument register a1.
pub const A1: usize = 11;

/// Index of argument register a6.
pub const A6: usize = 16;

/// Index of argument register a7.
pub const A7: usize = 17;

/// hstatus.SPV: the trap came from, and `sret` returns to, guest mode.
pub const HSTATUS_SPV: u64 = 0x80;

/// hstatus.SPVP: hypervisor loads and stores act at guest supervisor level.
pub const HSTATUS_SPVP: u64 = 0x100;

/// sstatus.SPP: `sret` returns to supervisor level.
pub const SSTATUS_SPP: u64 = 0x100;

/// Translation mode field of hgatp selecting Sv39x4.
pub const HGATP_MODE_SV39X4: u64 = 0x8000_0000_0000_0000;

/// Register state of the one guest vCPU.
#[derive(Debug)]
pub struct VcpuContext {
    pub gprs: Vec<u64>,
    pub sstatus: u64,
    pub hstatus: u64,
    pub sepc: u64,
    pub vsatp: u64,
}

/// `regs` after writing `v` to register `i`; writes to the zero register
/// are dropped.
pub open spec fn with_reg(regs: Seq<u64>, i: int, v: u64) -> Seq<u64> {
    if i == ZERO {
        regs
    } else {
        regs.update(i, v)
    }
}

impl VcpuContext {
    /// Thirty-two registers, of which the first reads as zero.
    pub open spec fn wf(&self) -> bool {
        self.gprs@.len() == NUM_GPRS && self.gprs@[ZERO as int] == 0
    }

    /// A context with every register and status field zero.
    pub fn new() -> (r: VcpuContext)
        ensures
            r.wf(),
            r.gprs@ == Seq::new(NUM_GPRS as nat, |i: int| 0u64),
            r.sstatus == 0 && r.hstatus == 0 && r.sepc == 0 && r.vsatp == 0,
    {
        VcpuContext { gprs: vec![0u64; NUM_GPRS], sstatus: 0, hstatus: 0, sepc: 0, vsatp: 0 }
    }

    /// The value of register `i`.
    pub fn reg(&self, i: usize) -> (r: u64)
        requires
            self.wf(),
            i < NUM_GPRS,
        ensures
            r == self.gprs@[i as int],
    {
        self.gprs[i]
    }

    /// Writes `v` to register `i`, unless `i` is the zero register.
    pub fn set_reg(&mut self, i: usize, v: u64)
        requires
            old(self).wf(),
            i < NUM_GPRS,
        ensures
            final(self).wf(),
            final(self).gprs@ == with_reg(old(self).gprs@, i as int, v),
            final(self).sstatus == old(self).sstatus,
            final(self).hstatus == old(self).hstatus,
            final(self).sepc == old(self).sepc,
            final(self).vsatp == old(self).vsatp,
    {
        if i != ZERO {
            self.gprs.set(i, v);
        }
    }

    /// The argument registers a0 to a7, in order.
    pub fn a_regs(&self) -> (r: Vec<u64>)
        requires
            self.wf(),
        ensures
            r@ == self.gprs@.subrange(A0 as int, A7 + 1),
    {
        let mut r: Vec<u64> = Vec::new();
        let mut i: usize = A0;
        while i <= A7
            invariant
                self.wf(),
                A0 <= i <= A7 + 1,
                r@ == self.gprs@.subrange(A0 as int, i as int),
            decreases A7 + 1 - i,
        {
            r.push(self.gprs[i]);
            i = i + 1;
            assert(r@ =~= self.gprs@.subrange(A0 as int, i as int));
        }
        r
    }
}

/// Prepares `ctx` for the first entry at `entry` with the given `vsatp`:
/// guest-mode return and guest-level hypervisor access set in `hstatus`,
/// supervisor return set in `sstatus`, their other bits kept.
pub fn prepare_guest_context(
    ctx: &mut VcpuContext,
    entry: u64,
    hstatus: u64,
    sstatus: u64,
    vsatp: u64,
)
    requires
        old(ctx).wf(),
    ensures
        final(ctx).wf(),
        final(ctx).gprs@ == old(ctx).gprs@,
        final(ctx).hstatus == hstatus | HSTATUS_SPV | HSTATUS_SPVP,
        final(ctx).sstatus == sstatus | SSTATUS_SPP,
        final(ctx).sepc == entry,
        final(ctx).vsatp == vsatp,
{
    ctx.hstatus = hstatus | HSTATUS_SPV | HSTATUS_SPVP;
    ctx.sstatus = sstatus | SSTATUS_SPP;
    ctx.sepc = entry;
    ctx.vsatp = vsatp;
}

/// The hgatp value that installs the stage-2 table rooted at `root`: the
/// Sv39x4 mode over the root's page number.
pub fn prepare_vm_pgtable(root: u64) -> (r: u64)
    ensures
        r == HGATP_MODE_SV39X4 + root / 4096,
{
    let r = HGATP_MODE_SV39X4 | (root >> 12);
    assert(0x8000_0000_0000_0000u64 | (root >> 12) == 0x8000_0000_0000_0000u64 + (root >> 12))
        by (bit_vector);
    assert((root >> 12) == root / 4096) by (bit_vector);
    r
}

} // verus!
