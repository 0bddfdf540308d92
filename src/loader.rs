//! Guest image loading: a flat image or an ELF image becomes a load plan, the
//! regions to map and the bytes to write into guest-physical memory.
use vstd::prelude::*;
use vstd::slice::{slice_subrange, slice_to_vec};
use crate::elf_format::{
    ElfHeader, ElfIdent, Segment, PT_LOAD, PT_INTERP, IDENT_LEN, ident_valid, ident_of,
    tail_len, phent_len, header_of, phdr_of, read_ident, read_header, check_phentsize,
    read_phdr,
};

verus! {

/// Page granularity of guest mappings.
pub const PAGE_SIZE: u64 = 4096;

/// Guest-physical base at which a flat image is loaded.
pub const BINARY_LOAD_ADDR: u64 = 0x8020_0000;

/// Prefix of an ELF file from which its header is read.
pub const ELF_HEAD_BUF_SIZE: usize = 256;

/// Largest accepted program header table.
pub const MAX_PHDR_TABLE: usize = 4096;

/// Why an image could not be loaded.
#[derive(Clone, Copy, Debug, PartialEq, Eq, Structural)]
pub enum LoadError {
    /// The image ends before data it declares.
    Io,
    /// The image's header or program headers are malformed.
    Format,
    /// A region cannot be mapped or written.
    Memory,
}

/// One region of a load plan: map `map_size` bytes at `map_start`, then
/// write `data` at `addr`.
#[derive(Debug)]
pub struct Region {
    pub map_start: u64,
    pub map_size: u64,
    pub addr: u64,
    pub data: Vec<u8>,
}

/// A region as a mathematical value.
pub struct RegionModel {
    pub map_start: nat,
    pub map_size: nat,
    pub addr: nat,
    pub data: Seq<u8>,
}

impl View for Region {
    type V = RegionModel;

    open spec fn view(&self) -> RegionModel {
        RegionModel {
            map_start: self.map_start as nat,
            map_size: self.map_size as nat,
            addr: self.addr as nat,
            data: self.data@,
        }
    }
}

/// What loading an image produces: the guest entry and the regions, in order.
#[derive(Debug)]
pub struct LoadPlan {
    pub entry: u64,
    pub regions: Vec<Region>,
}

impl LoadPlan {
    pub open spec fn regions_view(&self) -> Seq<RegionModel> {
        self.regions@.map_values(|r: Region| r@)
    }
}

/// `a` rounded down to a page boundary.
pub open spec fn align_down(a: nat) -> nat {
    (a - a % (PAGE_SIZE as nat)) as nat
}

/// `a` rounded up to a page boundary.
pub open spec fn align_up(a: nat) -> nat {
    if a % (PAGE_SIZE as nat) == 0 {
        a
    } else {
        (align_down(a) + PAGE_SIZE) as nat
    }
}

/// `n` zero bytes.
pub open spec fn zeros(n: nat) -> Seq<u8> {
    Seq::new(n, |i: int| 0u8)
}

/// Whether `img` begins with the ELF magic.
pub open spec fn has_elf_magic(img: Seq<u8>) -> bool {
    img.len() >= 4 && img[0] == 0x7f && img[1] == 0x45 && img[2] == 0x4c && img[3] == 0x46
}

/// The single region of a flat image.
pub open spec fn flat_region(img: Seq<u8>) -> RegionModel {
    RegionModel {
        map_start: BINARY_LOAD_ADDR as nat,
        map_size: align_up(img.len()),
        addr: BINARY_LOAD_ADDR as nat,
        data: img,
    }
}

/// Whether a flat image's region fits in the 64-bit guest address space.
pub open spec fn flat_fits(img: Seq<u8>) -> bool {
    BINARY_LOAD_ADDR + align_up(img.len()) <= u64::MAX
}

/// The bytes that follow the identification bytes within the header prefix.
pub open spec fn header_tail(img: Seq<u8>) -> Seq<u8> {
    let end = if img.len() < ELF_HEAD_BUF_SIZE { img.len() } else { ELF_HEAD_BUF_SIZE as nat };
    img.subrange(IDENT_LEN as int, end as int)
}

/// The file header of an ELF image whose identification is valid.
pub open spec fn elf_header(img: Seq<u8>) -> ElfHeader {
    header_of(ident_of(img), header_tail(img))
}

/// Byte size of the program header table that the header declares.
pub open spec fn phdr_table_size(h: ElfHeader) -> nat {
    (h.phentsize * h.phnum) as nat
}

/// The first error met while reading the header and program header table of
/// an ELF image, if any.
pub open spec fn header_error(img: Seq<u8>) -> Option<LoadError> {
    if !ident_valid(img) {
        Some(LoadError::Format)
    } else if header_tail(img).len() < tail_len(ident_of(img)) {
        Some(LoadError::Format)
    } else {
        let h = elf_header(img);
        if h.phentsize != phent_len(h.ident) {
            Some(LoadError::Format)
        } else if phdr_table_size(h) == 0 || phdr_table_size(h) > MAX_PHDR_TABLE {
            Some(LoadError::Format)
        } else if h.phoff + phdr_table_size(h) > img.len() {
            Some(LoadError::Io)
        } else {
            None
        }
    }
}

/// The program header table of an ELF image.
pub open spec fn phdr_table(img: Seq<u8>) -> Seq<u8> {
    let h = elf_header(img);
    img.subrange(h.phoff as int, h.phoff + phdr_table_size(h))
}

/// Of the first `n` program headers of `t`, the loadable and interpreter ones.
pub open spec fn kept_phdrs(id: ElfIdent, t: Seq<u8>, n: nat) -> Seq<Segment>
    decreases n,
{
    if n == 0 {
        seq![]
    } else {
        let prev = kept_phdrs(id, t, (n - 1) as nat);
        let s = phdr_of(id, t, (n - 1) as nat);
        if s.p_type == PT_LOAD || s.p_type == PT_INTERP {
            prev.push(s)
        } else {
            prev
        }
    }
}

/// The program headers that loading considers.
pub open spec fn elf_segments(img: Seq<u8>) -> Seq<Segment> {
    let h = elf_header(img);
    kept_phdrs(h.ident, phdr_table(img), h.phnum as nat)
}

/// Why a loadable segment cannot be loaded from `img`, if it cannot.
pub open spec fn segment_error(img: Seq<u8>, s: Segment) -> Option<LoadError> {
    if s.p_filesz > s.p_memsz {
        Some(LoadError::Format)
    } else if align_up((s.p_vaddr + s.p_memsz) as nat) > u64::MAX {
        Some(LoadError::Format)
    } else if s.p_offset + s.p_filesz > img.len() {
        Some(LoadError::Io)
    } else if s.p_memsz > usize::MAX {
        Some(LoadError::Memory)
    } else {
        None
    }
}

/// The bytes a loadable segment puts in memory: its file bytes, then zeros
/// up to its memory size.
pub open spec fn segment_bytes(img: Seq<u8>, s: Segment) -> Seq<u8> {
    img.subrange(s.p_offset as int, s.p_offset + s.p_filesz) + zeros(
        (s.p_memsz - s.p_filesz) as nat,
    )
}

/// The region of a loadable segment: its page-aligned span, written at its
/// virtual address.
pub open spec fn segment_region(img: Seq<u8>, s: Segment) -> RegionModel {
    RegionModel {
        map_start: align_down(s.p_vaddr as nat),
        map_size: (align_up((s.p_vaddr + s.p_memsz) as nat) - align_down(s.p_vaddr as nat)) as nat,
        addr: s.p_vaddr as nat,
        data: segment_bytes(img, s),
    }
}

/// The regions of the loadable segments among `segs`, in order, or the
/// first segment's error.
pub open spec fn segments_plan(img: Seq<u8>, segs: Seq<Segment>) -> Result<Seq<RegionModel>, LoadError>
    decreases segs.len(),
{
    if segs.len() == 0 {
        Ok(seq![])
    } else {
        match segments_plan(img, segs.drop_last()) {
            Err(e) => Err(e),
            Ok(rs) => {
                let s = segs.last();
                if s.p_type != PT_LOAD {
                    Ok(rs)
                } else {
                    match segment_error(img, s) {
                        Some(e) => Err(e),
                        None => Ok(rs.push(segment_region(img, s))),
                    }
                }
            },
        }
    }
}

/// Copies the bytes of `src` from `start` to `end`.
fn copy_range(src: &[u8], start: usize, end: usize) -> (r: Vec<u8>)
    requires
        start <= end <= src@.len(),
    ensures
        r@ == src@.subrange(start as int, end as int),
{
    slice_to_vec(slice_subrange(src, start, end))
}

/// `a` rounded up to a page boundary, if that fits in 64 bits.
fn page_align_up(a: u64) -> (r: Option<u64>)
    ensures
        r is Some <==> align_up(a as nat) <= u64::MAX,
        r matches Some(v) ==> v == align_up(a as nat),
{
    let rem = a % PAGE_SIZE;
    if rem == 0 {
        Some(a)
    } else if a - rem > u64::MAX - PAGE_SIZE {
        None
    } else {
        Some(a - rem + PAGE_SIZE)
    }
}

/// The entry and regions of an ELF image, or the first error met.
pub open spec fn elf_plan(img: Seq<u8>) -> Result<(u64, Seq<RegionModel>), LoadError> {
    match header_error(img) {
        Some(e) => Err(e),
        None => match segments_plan(img, elf_segments(img)) {
            Err(e) => Err(e),
            Ok(rs) => Ok((elf_header(img).entry, rs)),
        },
    }
}

/// The entry and regions of an image of either format, or why it cannot be
/// loaded.
pub open spec fn image_plan(img: Seq<u8>) -> Result<(u64, Seq<RegionModel>), LoadError> {
    if img.len() < 4 {
        Err(LoadError::Io)
    } else if has_elf_magic(img) {
        elf_plan(img)
    } else if flat_fits(img) {
        Ok((BINARY_LOAD_ADDR, seq![flat_region(img)]))
    } else {
        Err(LoadError::Memory)
    }
}

/// Appends `n` zero bytes to `v`.
fn push_zeros(v: &mut Vec<u8>, n: usize)
    ensures
        final(v)@ == old(v)@ + zeros(n as nat),
{
    let ghost start = v@;
    let mut k: usize = 0;
    while k < n
        invariant
            k <= n,
            v@ == start + zeros(k as nat),
        decreases n - k,
    {
        v.push(0u8);
        k = k + 1;
        assert(v@ =~= start + zeros(k as nat));
    }
}

/// Reads the header and program header table of an ELF image, keeping the
/// loadable and interpreter entries. Returns them with the entry address,
/// the table's offset and the number of entries the header declares.
pub fn load_elf_phdrs(img: &[u8]) -> (r: Result<(Vec<Segment>, u64, u64, u16), LoadError>)
    ensures
        match r {
            Err(e) => header_error(img@) == Some(e),
            Ok((segs, entry, phoff, phnum)) => {
                &&& header_error(img@) is None
                &&& segs@ == elf_segments(img@)
                &&& entry == elf_header(img@).entry
                &&& phoff == elf_header(img@).phoff
                &&& phnum == elf_header(img@).phnum
            },
        },
{
    if img.len() < IDENT_LEN {
        return Err(LoadError::Format);
    }
    let ident_bytes = copy_range(img, 0, IDENT_LEN);
    let id = match read_ident(ident_bytes.as_slice()) {
        Ok(id) => id,
        Err(_) => return Err(LoadError::Format),
    };
    assert(ident_valid(img@) && id == ident_of(img@));
    let head_end = if img.len() < ELF_HEAD_BUF_SIZE { img.len() } else { ELF_HEAD_BUF_SIZE };
    let tail = copy_range(img, IDENT_LEN, head_end);
    assert(tail@ == header_tail(img@));
    let h = match read_header(id, tail.as_slice()) {
        Ok(h) => h,
        Err(_) => return Err(LoadError::Format),
    };
    let entsize = match check_phentsize(id, h.phentsize as usize) {
        Ok(n) => n,
        Err(_) => return Err(LoadError::Format),
    };
    let phnum = h.phnum as usize;
    assert(entsize * phnum <= 56 * 65535) by (nonlinear_arith)
        requires
            entsize <= 56,
            phnum <= 65535,
    ;
    let size = entsize * phnum;
    if size == 0 || size > MAX_PHDR_TABLE {
        return Err(LoadError::Format);
    }
    if h.phoff > img.len() as u64 || size as u64 > img.len() as u64 - h.phoff {
        return Err(LoadError::Io);
    }
    let start = h.phoff as usize;
    let table = copy_range(img, start, start + size);
    assert(table@ == phdr_table(img@));
    let mut segs: Vec<Segment> = Vec::new();
    let mut i: usize = 0;
    while i < phnum
        invariant
            i <= phnum,
            phnum == h.phnum,
            size == entsize * phnum,
            entsize == phent_len(id),
            table@.len() == size,
            segs@ == kept_phdrs(id, table@, i as nat),
        decreases phnum - i,
    {
        assert((i + 1) * entsize <= phnum * entsize) by (nonlinear_arith)
            requires
                i + 1 <= phnum,
        ;
        let s = match read_phdr(id, table.as_slice(), i) {
            Ok(s) => s,
            Err(_) => return Err(LoadError::Format),
        };
        if s.p_type == PT_LOAD || s.p_type == PT_INTERP {
            segs.push(s);
        }
        i = i + 1;
    }
    Ok((segs, h.entry, h.phoff, h.phnum))
}

/// The region of one loadable segment, or why it cannot be loaded.
fn load_segment(img: &[u8], s: Segment) -> (r: Result<Region, LoadError>)
    ensures
        match r {
            Err(e) => segment_error(img@, s) == Some(e),
            Ok(region) => segment_error(img@, s) is None && region@ == segment_region(img@, s),
        },
{
    if s.p_filesz > s.p_memsz {
        return Err(LoadError::Format);
    }
    if s.p_vaddr > u64::MAX - s.p_memsz {
        return Err(LoadError::Format);
    }
    let end = match page_align_up(s.p_vaddr + s.p_memsz) {
        Some(e) => e,
        None => return Err(LoadError::Format),
    };
    if s.p_offset > img.len() as u64 || s.p_filesz > img.len() as u64 - s.p_offset {
        return Err(LoadError::Io);
    }
    if s.p_memsz > usize::MAX as u64 {
        return Err(LoadError::Memory);
    }
    let off = s.p_offset as usize;
    let mut data = copy_range(img, off, off + s.p_filesz as usize);
    push_zeros(&mut data, (s.p_memsz - s.p_filesz) as usize);
    let map_start = s.p_vaddr - s.p_vaddr % PAGE_SIZE;
    Ok(Region { map_start, map_size: end - map_start, addr: s.p_vaddr, data })
}

/// Loads an ELF image: each loadable segment becomes a region holding its
/// file bytes followed by zeros up to its memory size.
pub fn load_elf_file(img: &[u8]) -> (r: Result<LoadPlan, LoadError>)
    ensures
        match r {
            Err(e) => elf_plan(img@) == Err::<(u64, Seq<RegionModel>), LoadError>(e),
            Ok(p) => elf_plan(img@) == Ok::<(u64, Seq<RegionModel>), LoadError>((p.entry, p.regions_view())),
        },
{
    let (segs, entry, _, _) = match load_elf_phdrs(img) {
        Ok(t) => t,
        Err(e) => return Err(e),
    };
    let mut regions: Vec<Region> = Vec::new();
    let mut i: usize = 0;
    assert(segs@.subrange(0, 0) =~= Seq::<Segment>::empty());
    assert(regions@.map_values(|r: Region| r@) =~= Seq::<RegionModel>::empty());
    while i < segs.len()
        invariant
            i <= segs@.len(),
            segs@ == elf_segments(img@),
            header_error(img@) is None,
            entry == elf_header(img@).entry,
            segments_plan(img@, segs@.subrange(0, i as int)) == Ok::<Seq<RegionModel>, LoadError>(
                regions@.map_values(|r: Region| r@),
            ),
        decreases segs.len() - i,
    {
        let s = segs[i];
        assert(segs@.subrange(0, i + 1).drop_last() =~= segs@.subrange(0, i as int));
        assert(segs@.subrange(0, i + 1).last() == s);
        if s.p_type == PT_LOAD {
            match load_segment(img, s) {
                Ok(region) => {
                    let ghost before = regions@.map_values(|r: Region| r@);
                    let ghost rv = region@;
                    regions.push(region);
                    assert(regions@.map_values(|r: Region| r@) =~= before.push(rv));
                },
                Err(e) => {
                    proof {
                        lemma_plan_error_persists(img@, segs@, (i + 1) as nat, e);
                    }
                    return Err(e);
                },
            }
        }
        i = i + 1;
    }
    assert(segs@.subrange(0, segs@.len() as int) =~= segs@);
    Ok(LoadPlan { entry, regions })
}

/// An error in the plan of a prefix of the segments is the error of the plan
/// of all of them.
proof fn lemma_plan_error_persists(img: Seq<u8>, segs: Seq<Segment>, n: nat, e: LoadError)
    requires
        n <= segs.len(),
        segments_plan(img, segs.subrange(0, n as int)) == Err::<Seq<RegionModel>, LoadError>(e),
    ensures
        segments_plan(img, segs) == Err::<Seq<RegionModel>, LoadError>(e),
    decreases segs.len() - n,
{
    if n < segs.len() {
        assert(segs.subrange(0, (n + 1) as int).drop_last() =~= segs.subrange(0, n as int));
        lemma_plan_error_persists(img, segs, n + 1, e);
    } else {
        assert(segs.subrange(0, n as int) =~= segs);
    }
}

/// Loads a flat image verbatim at the fixed base, in a region rounded up to
/// whole pages.
pub fn load_binary_file(img: &[u8]) -> (r: Result<LoadPlan, LoadError>)
    ensures
        r is Err <==> !flat_fits(img@),
        r matches Err(e) ==> e == LoadError::Memory,
        r matches Ok(p) ==> p.entry == BINARY_LOAD_ADDR && p.regions_view() == seq![flat_region(img@)],
{
    let size = match page_align_up(img.len() as u64) {
        Some(n) => n,
        None => return Err(LoadError::Memory),
    };
    if size > u64::MAX - BINARY_LOAD_ADDR {
        return Err(LoadError::Memory);
    }
    let data = slice_to_vec(img);
    let region = Region { map_start: BINARY_LOAD_ADDR, map_size: size, addr: BINARY_LOAD_ADDR, data };
    let mut regions: Vec<Region> = Vec::new();
    regions.push(region);
    let p = LoadPlan { entry: BINARY_LOAD_ADDR, regions };
    assert(p.regions_view() =~= seq![flat_region(img@)]);
    Ok(p)
}

/// Loads a guest image of either format: one that starts with the ELF magic
/// is read as ELF, any other as a flat image.
pub fn load_vm_image(img: &[u8]) -> (r: Result<LoadPlan, LoadError>)
    ensures
        match r {
            Err(e) => image_plan(img@) == Err::<(u64, Seq<RegionModel>), LoadError>(e),
            Ok(p) => image_plan(img@) == Ok::<(u64, Seq<RegionModel>), LoadError>((p.entry, p.regions_view())),
        },
{
    if img.len() < 4 {
        return Err(LoadError::Io);
    }
    if img[0] == 0x7f && img[1] == 0x45 && img[2] == 0x4c && img[3] == 0x46 {
        load_elf_file(img)
    } else {
        load_binary_file(img)
    }
}

} // verus!
