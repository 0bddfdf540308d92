//! Address-space binding: which identity mappings stage-2 needs before the
//! first guest entry, what to do given the mapping already present, and the
//! stage-1 root the guest starts with under each policy.
use vstd::prelude::*;
use crate::loader::{PAGE_SIZE, align_down};

verus! {

/// Pages of the page-table area identity-mapped from the stage-1 root.
pub const ROOT_IDENTITY_PAGES: u64 = 256;

/// Translation mode field of vsatp selecting Sv39.
pub const VSATP_MODE_SV39: u64 = 0x8000_0000_0000_0000;

/// Whether the guest runs with its own address translation.
#[derive(Clone, Copy, Debug, PartialEq, Eq, Structural)]
pub enum Stage1Policy {
    /// vsatp is cleared: guest addresses are guest-physical.
    Disabled,
    /// vsatp names the page table built while loading.
    Enabled,
}

/// An identity mapping to install: `size` bytes at `gpa`, virtual address
/// equal to physical.
#[derive(Clone, Copy, Debug, PartialEq, Eq, Structural)]
pub struct IdentityRequest {
    pub gpa: u64,
    pub size: u64,
}

/// What to do for one identity mapping, given the mapping found at its
/// virtual address.
#[derive(Clone, Copy, Debug, PartialEq, Eq, Structural)]
pub enum MappingStep {
    /// The same identity mapping is there: nothing to do.
    AlreadyIdentity,
    /// Nothing is mapped there: install it.
    Install,
    /// Another physical address is mapped there: a fatal configuration error.
    Conflict(u64),
}

/// Whether requests `rs` map the page holding `a` onto itself.
pub open spec fn identity_covers(rs: Seq<IdentityRequest>, a: nat) -> bool {
    exists|k: int| 0 <= k < rs.len() && #[trigger] rs[k].gpa <= a < rs[k].gpa + rs[k].size
}

/// The identity mappings needed before entry.
pub open spec fn identity_plan(entry_gpa: u64, root: u64) -> Seq<IdentityRequest> {
    seq![
        IdentityRequest { gpa: align_down(entry_gpa as nat) as u64, size: PAGE_SIZE },
        IdentityRequest { gpa: align_down(root as nat) as u64, size: (ROOT_IDENTITY_PAGES * PAGE_SIZE) as u64 },
    ]
}

/// Before entry, the page holding the entry and the page holding the stage-1
/// root are both mapped onto themselves.
pub proof fn lemma_identity_plan_covers(entry_gpa: u64, root: u64)
    ensures
        identity_covers(identity_plan(entry_gpa, root), entry_gpa as nat),
        identity_covers(identity_plan(entry_gpa, root), root as nat),
{
    let rs = identity_plan(entry_gpa, root);
    assert(rs[0].gpa <= entry_gpa < rs[0].gpa + rs[0].size);
    assert(rs[1].gpa <= root < rs[1].gpa + rs[1].size);
}

/// Decides the step for the identity mapping of `gpa`, given the physical
/// address `existing` now mapped at virtual address `gpa`, if any.
pub fn identity_step(gpa: u64, existing: Option<u64>) -> (r: MappingStep)
    ensures
        existing is None ==> r == MappingStep::Install,
        existing == Some(gpa) ==> r == MappingStep::AlreadyIdentity,
        existing is Some && existing != Some(gpa) ==> r == MappingStep::Conflict(existing->Some_0),
{
    match existing {
        None => MappingStep::Install,
        Some(p) => if p == gpa {
            MappingStep::AlreadyIdentity
        } else {
            MappingStep::Conflict(p)
        },
    }
}

/// The identity mappings needed before entry: the page holding the entry,
/// and the page-table area from the stage-1 root.
pub fn identity_requests(entry_gpa: u64, root: u64) -> (r: Vec<IdentityRequest>)
    requires
        root + ROOT_IDENTITY_PAGES * PAGE_SIZE <= u64::MAX,
    ensures
        r@ == identity_plan(entry_gpa, root),
{
    let mut r: Vec<IdentityRequest> = Vec::new();
    r.push(IdentityRequest { gpa: entry_gpa - entry_gpa % PAGE_SIZE, size: PAGE_SIZE });
    r.push(IdentityRequest { gpa: root - root % PAGE_SIZE, size: ROOT_IDENTITY_PAGES * PAGE_SIZE });
    assert(r@ =~= identity_plan(entry_gpa, root));
    r
}

/// The address the guest starts at: guest-physical with translation off,
/// guest-virtual with it on.
pub fn guest_entry(policy: Stage1Policy, entry_gva: u64, entry_gpa: u64) -> (r: u64)
    ensures
        r == if policy == Stage1Policy::Disabled { entry_gpa } else { entry_gva },
{
    match policy {
        Stage1Policy::Disabled => entry_gpa,
        Stage1Policy::Enabled => entry_gva,
    }
}

/// The guest's vsatp: zero with translation off, else Sv39 over the root's
/// page number.
pub fn guest_vsatp(policy: Stage1Policy, root: u64) -> (r: u64)
    ensures
        r == if policy == Stage1Policy::Disabled { 0 } else { VSATP_MODE_SV39 + root / 4096 },
{
    match policy {
        Stage1Policy::Disabled => 0,
        Stage1Policy::Enabled => {
            let r = VSATP_MODE_SV39 | (root >> 12);
            assert(0x8000_0000_0000_0000u64 | (root >> 12) == 0x8000_0000_0000_0000u64 + (root
                >> 12)) by (bit_vector);
            assert((root >> 12) == root / 4096) by (bit_vector);
            r
        },
    }
}

} // verus!
