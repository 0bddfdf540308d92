//! Decoding of a guest's SBI call from its argument registers: the
//! extension id in a7, the function id in a6, arguments from a0.
use vstd::prelude::*;

verus! {

/// Highest extension id of the legacy calls.
pub const EXT_LEGACY_LAST: u64 = 0x08;

pub const EXT_BASE: u64 = 0x10;

pub const EXT_TIME: u64 = 0x5449_4D45;

pub const EXT_IPI: u64 = 0x73_5049;

pub const EXT_RFENCE: u64 = 0x5246_4E43;

pub const EXT_HSM: u64 = 0x48_534D;

/// The system reset extension.
pub const EXT_SRST: u64 = 0x5352_5354;

pub const EXT_PMU: u64 = 0x50_4D55;

/// Function id of `system_reset` in the system reset extension.
pub const SRST_SYSTEM_RESET: u64 = 0;

/// A decoded SBI call.
#[derive(Clone, Copy, Debug, PartialEq, Eq, Structural)]
pub enum SbiMessage {
    /// A legacy call, by its extension id.
    Legacy(u64),
    /// A base extension call, by its function id.
    Base(u64),
    Timer(u64),
    Ipi(u64),
    RemoteFence(u64),
    Hsm(u64),
    /// A system reset request with its type and reason.
    Reset { reset_type: u64, reason: u64 },
    Pmu(u64),
}

/// Why registers do not decode to a call.
#[derive(Clone, Copy, Debug, PartialEq, Eq, Structural)]
pub enum SbiError {
    /// The extension id is unknown.
    UnknownExtension(u64),
    /// The function id is unknown within a known extension.
    UnknownFunction(u64),
}

/// The call that argument registers a0..a7 (`args[0]`..`args[7]`) make.
pub open spec fn sbi_decode(args: Seq<u64>) -> Result<SbiMessage, SbiError> {
    let (ext, fid) = (args[7], args[6]);
    if ext <= EXT_LEGACY_LAST {
        Ok(SbiMessage::Legacy(ext))
    } else if ext == EXT_BASE {
        Ok(SbiMessage::Base(fid))
    } else if ext == EXT_TIME {
        Ok(SbiMessage::Timer(fid))
    } else if ext == EXT_IPI {
        Ok(SbiMessage::Ipi(fid))
    } else if ext == EXT_RFENCE {
        Ok(SbiMessage::RemoteFence(fid))
    } else if ext == EXT_HSM {
        Ok(SbiMessage::Hsm(fid))
    } else if ext == EXT_SRST {
        if fid == SRST_SYSTEM_RESET {
            Ok(SbiMessage::Reset { reset_type: args[0], reason: args[1] })
        } else {
            Err(SbiError::UnknownFunction(fid))
        }
    } else if ext == EXT_PMU {
        Ok(SbiMessage::Pmu(fid))
    } else {
        Err(SbiError::UnknownExtension(ext))
    }
}

impl SbiMessage {
    /// Decodes the call that argument registers a0..a7 make.
    pub fn from_regs(args: &[u64]) -> (r: Result<SbiMessage, SbiError>)
        requires
            args@.len() == 8,
        ensures
            r == sbi_decode(args@),
    {
        let ext = args[7];
        let fid = args[6];
        if ext <= EXT_LEGACY_LAST {
            Ok(SbiMessage::Legacy(ext))
        } else if ext == EXT_BASE {
            Ok(SbiMessage::Base(fid))
        } else if ext == EXT_TIME {
            Ok(SbiMessage::Timer(fid))
        } else if ext == EXT_IPI {
            Ok(SbiMessage::Ipi(fid))
        } else if ext == EXT_RFENCE {
            Ok(SbiMessage::RemoteFence(fid))
        } else if ext == EXT_HSM {
            Ok(SbiMessage::Hsm(fid))
        } else if ext == EXT_SRST {
            if fid == SRST_SYSTEM_RESET {
                Ok(SbiMessage::Reset { reset_type: args[0], reason: args[1] })
            } else {
                Err(SbiError::UnknownFunction(fid))
            }
        } else if ext == EXT_PMU {
            Ok(SbiMessage::Pmu(fid))
        } else {
            Err(SbiError::UnknownExtension(ext))
        }
    }
}

} // verus!
