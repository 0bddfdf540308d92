//! Core of a minimal hypervisor for one guest: image loading into a guest
//! memory model, stage-1/stage-2 binding decisions, the vCPU context and the
//! VM-exit dispatcher.

pub mod binding;
pub mod bytes;
pub mod elf_format;
pub mod exit;
pub mod loader;
pub mod memory;
pub mod sbi;
pub mod vcpu;
