//! What the loader reads of an ELF file, and the calls into the `elf` crate
//! that read it.
use vstd::prelude::*;
use crate::bytes::uint_at;
use elf::endian::AnyEndian;
use elf::file::{Class, FileHeader};
use elf::parse::{ParseAt, ParseError};
use elf::segment::{ProgramHeader, SegmentTable};

verus! {

#[verifier::external_type_specification]
#[verifier::external_body]
pub struct ExParseError(ParseError);

/// Program header type of a loadable segment.
pub const PT_LOAD: u32 = 1;

/// Program header type of an interpreter segment (recognised, never loaded).
pub const PT_INTERP: u32 = 3;

/// Length of the identification bytes at the start of an ELF file.
pub const IDENT_LEN: usize = 16;

/// Class and byte order, as the identification bytes give them.
#[derive(Clone, Copy, Debug, PartialEq, Eq, Structural)]
pub struct ElfIdent {
    pub is64: bool,
    pub little: bool,
}

/// The file header fields that loading needs.
#[derive(Clone, Copy, Debug, PartialEq, Eq, Structural)]
pub struct ElfHeader {
    pub ident: ElfIdent,
    pub entry: u64,
    pub phoff: u64,
    pub phentsize: u16,
    pub phnum: u16,
}

/// One program header.
#[derive(Clone, Copy, Debug, PartialEq, Eq, Structural)]
pub struct Segment {
    pub p_type: u32,
    pub p_flags: u32,
    pub p_offset: u64,
    pub p_vaddr: u64,
    pub p_filesz: u64,
    pub p_memsz: u64,
}

/// Whether `b` starts with valid identification bytes: the magic, a known
/// class, a known byte order and the current version.
pub open spec fn ident_valid(b: Seq<u8>) -> bool {
    &&& b.len() >= IDENT_LEN
    &&& b[0] == 0x7f && b[1] == 0x45 && b[2] == 0x4c && b[3] == 0x46
    &&& b[4] == 1 || b[4] == 2
    &&& b[5] == 1 || b[5] == 2
    &&& b[6] == 1
}

/// Class and byte order that identification bytes `b` name.
pub open spec fn ident_of(b: Seq<u8>) -> ElfIdent {
    ElfIdent { is64: b[4] == 2, little: b[5] == 1 }
}

/// Width of an address or offset field.
pub open spec fn word_len(id: ElfIdent) -> nat {
    if id.is64 { 8 } else { 4 }
}

/// Length of the file header after the identification bytes.
pub open spec fn tail_len(id: ElfIdent) -> nat {
    if id.is64 { 48 } else { 36 }
}

/// Size of one program header.
pub open spec fn phent_len(id: ElfIdent) -> nat {
    if id.is64 { 56 } else { 32 }
}

/// The header read from `t`, the bytes that follow the identification bytes.
pub open spec fn header_of(id: ElfIdent, t: Seq<u8>) -> ElfHeader {
    let w = word_len(id);
    let wi = w as int;
    ElfHeader {
        ident: id,
        entry: uint_at(t, 8, w, id.little) as u64,
        phoff: uint_at(t, 8 + wi, w, id.little) as u64,
        phentsize: uint_at(t, 14 + 3 * wi, 2, id.little) as u16,
        phnum: uint_at(t, 16 + 3 * wi, 2, id.little) as u16,
    }
}

/// Program header `i` of the table `t`.
pub open spec fn phdr_of(id: ElfIdent, t: Seq<u8>, i: nat) -> Segment {
    let s = (i * phent_len(id)) as int;
    let l = id.little;
    if id.is64 {
        Segment {
            p_type: uint_at(t, s, 4, l) as u32,
            p_flags: uint_at(t, s + 4, 4, l) as u32,
            p_offset: uint_at(t, s + 8, 8, l) as u64,
            p_vaddr: uint_at(t, s + 16, 8, l) as u64,
            p_filesz: uint_at(t, s + 32, 8, l) as u64,
            p_memsz: uint_at(t, s + 40, 8, l) as u64,
        }
    } else {
        Segment {
            p_type: uint_at(t, s, 4, l) as u32,
            p_flags: uint_at(t, s + 24, 4, l) as u32,
            p_offset: uint_at(t, s + 4, 4, l) as u64,
            p_vaddr: uint_at(t, s + 8, 4, l) as u64,
            p_filesz: uint_at(t, s + 16, 4, l) as u64,
            p_memsz: uint_at(t, s + 20, 4, l) as u64,
        }
    }
}

/// Relies on elf::file::parse_ident: it checks magic, class, byte order and
/// version, and reports class and byte order.
#[verifier::external_body]
pub(crate) fn read_ident(b: &[u8]) -> (r: Result<ElfIdent, ParseError>)
    requires
        b@.len() >= IDENT_LEN,
    ensures
        r is Ok <==> ident_valid(b@),
        r matches Ok(id) ==> id == ident_of(b@),
{
    let (endian, class, _, _) = elf::file::parse_ident::<AnyEndian>(b)?;
    Ok(ElfIdent { is64: class == Class::ELF64, little: endian == AnyEndian::Little })
}

/// Relies on elf::file::FileHeader::parse_tail: it reads the header fields in
/// order, at the class's widths and in the file's byte order, and fails only
/// where `t` is too short for them.
#[verifier::external_body]
pub(crate) fn read_header(id: ElfIdent, t: &[u8]) -> (r: Result<ElfHeader, ParseError>)
    ensures
        r is Ok <==> t@.len() >= tail_len(id),
        r matches Ok(h) ==> h == header_of(id, t@),
{
    let endian = if id.little { AnyEndian::Little } else { AnyEndian::Big };
    let class = if id.is64 { Class::ELF64 } else { Class::ELF32 };
    let h: FileHeader<AnyEndian> = FileHeader::parse_tail((endian, class, 0, 0), t)?;
    Ok(ElfHeader { ident: id, entry: h.e_entry, phoff: h.e_phoff, phentsize: h.e_phentsize, phnum: h.e_phnum })
}

/// Relies on elf::parse::ParseAt::validate_entsize for program headers: the
/// declared entry size must equal the class's program header size.
#[verifier::external_body]
pub(crate) fn check_phentsize(id: ElfIdent, entsize: usize) -> (r: Result<usize, ParseError>)
    ensures
        r is Ok <==> entsize == phent_len(id),
        r matches Ok(n) ==> n == entsize,
{
    let class = if id.is64 { Class::ELF64 } else { Class::ELF32 };
    ProgramHeader::validate_entsize(class, entsize)
}

/// Relies on elf::segment::SegmentTable::get: entry `i` parses wherever the
/// table holds all of its bytes.
#[verifier::external_body]
pub(crate) fn read_phdr(id: ElfIdent, t: &[u8], i: usize) -> (r: Result<Segment, ParseError>)
    ensures
        r is Ok <==> (i + 1) * phent_len(id) <= t@.len(),
        r matches Ok(s) ==> s == phdr_of(id, t@, i as nat),
{
    let endian = if id.little { AnyEndian::Little } else { AnyEndian::Big };
    let class = if id.is64 { Class::ELF64 } else { Class::ELF32 };
    let p = SegmentTable::new(endian, class, t).get(i)?;
    Ok(Segment { p_type: p.p_type, p_flags: p.p_flags, p_offset: p.p_offset, p_vaddr: p.p_vaddr, p_filesz: p.p_filesz, p_memsz: p.p_memsz })
}

} // verus!
