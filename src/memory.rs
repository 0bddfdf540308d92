//! A software model of guest-physical memory: a window of bytes at a base
//! address, into which a load plan is written.
use vstd::prelude::*;
use crate::loader::{
    LoadError, LoadPlan, Region, RegionModel, BINARY_LOAD_ADDR, has_elf_magic,
    flat_fits, flat_region, image_plan, elf_plan, elf_segments, segments_plan, segment_error,
    segment_region, zeros, align_up,
};
use crate::elf_format::{Segment, PT_LOAD};

verus! {

/// `m` with the bytes `d` written from offset `off`.
pub open spec fn write_bytes(m: Seq<u8>, off: int, d: Seq<u8>) -> Seq<u8> {
    Seq::new(m.len(), |i: int| if off <= i < off + d.len() { d[i - off] } else { m[i] })
}

/// `m`, a window at `base`, after the regions `rs` are written in order.
pub open spec fn apply_regions(m: Seq<u8>, base: nat, rs: Seq<RegionModel>) -> Seq<u8>
    decreases rs.len(),
{
    if rs.len() == 0 {
        m
    } else {
        write_bytes(apply_regions(m, base, rs.drop_last()), rs.last().addr - base, rs.last().data)
    }
}

/// Whether the window of `len` bytes at `base` holds `n` bytes at `addr`.
pub open spec fn window_covers(base: nat, len: nat, addr: nat, n: nat) -> bool {
    base <= addr && addr + n <= base + len
}

/// Whether a window holds both the mapping and the bytes of region `r`.
pub open spec fn region_fits(base: nat, len: nat, r: RegionModel) -> bool {
    window_covers(base, len, r.map_start, r.map_size) && window_covers(base, len, r.addr, r.data.len())
}

/// Guest-physical memory from `base`, `bytes.len()` bytes long.
#[derive(Debug)]
pub struct GuestMemory {
    pub base: u64,
    pub bytes: Vec<u8>,
}

impl GuestMemory {
    /// The window ends within the 64-bit address space.
    pub open spec fn wf(&self) -> bool {
        self.base + self.bytes@.len() <= u64::MAX
    }

    pub open spec fn covers(&self, addr: nat, n: nat) -> bool {
        window_covers(self.base as nat, self.bytes@.len(), addr, n)
    }

    /// A zeroed window of `size` bytes at `base`.
    pub fn new(base: u64, size: usize) -> (r: GuestMemory)
        requires
            base + size <= u64::MAX,
        ensures
            r.wf(),
            r.base == base,
            r.bytes@ == Seq::new(size as nat, |i: int| 0u8),
    {
        GuestMemory { base, bytes: vec![0u8; size] }
    }

    /// Writes `data` at guest-physical address `addr`.
    pub fn write(&mut self, addr: u64, data: &[u8]) -> (r: Result<(), LoadError>)
        requires
            old(self).wf(),
        ensures
            final(self).wf(),
            final(self).base == old(self).base,
            r is Ok <==> old(self).covers(addr as nat, data@.len()),
            r matches Err(e) ==> e == LoadError::Memory && final(self).bytes@ == old(self).bytes@,
            r is Ok ==> final(self).bytes@ == write_bytes(
                old(self).bytes@,
                addr - old(self).base,
                data@,
            ),
    {
        if addr < self.base || addr - self.base > self.bytes.len() as u64
            || data.len() as u64 > self.bytes.len() as u64 - (addr - self.base) {
            return Err(LoadError::Memory);
        }
        let off = (addr - self.base) as usize;
        let ghost start = self.bytes@;
        let total = self.bytes.len();
        let mut i: usize = 0;
        while i < data.len()
            invariant
                off + data@.len() <= start.len(),
                start.len() == total,
                self.bytes@.len() == start.len(),
                self.base == old(self).base,
                start == old(self).bytes@,
                i <= data@.len(),
                forall|j: int|
                    0 <= j < start.len() ==> #[trigger] self.bytes@[j] == if off <= j < off + i {
                        data@[j - off]
                    } else {
                        start[j]
                    },
            decreases data.len() - i,
        {
            self.bytes[off + i] = data[i];
            i = i + 1;
        }
        assert(self.bytes@ =~= write_bytes(start, off as int, data@));
        Ok(())
    }

    /// Reads `len` bytes at guest-physical address `addr`.
    pub fn read(&self, addr: u64, len: usize) -> (r: Result<Vec<u8>, LoadError>)
        requires
            self.wf(),
        ensures
            r is Ok <==> self.covers(addr as nat, len as nat),
            r matches Err(e) ==> e == LoadError::Memory,
            r matches Ok(v) ==> v@ == self.bytes@.subrange(addr - self.base, addr - self.base + len),
    {
        if addr < self.base || addr - self.base > self.bytes.len() as u64
            || len as u64 > self.bytes.len() as u64 - (addr - self.base) {
            return Err(LoadError::Memory);
        }
        let off = (addr - self.base) as usize;
        let mut v: Vec<u8> = Vec::new();
        let total = self.bytes.len();
        let mut i: usize = 0;
        while i < len
            invariant
                off + len <= self.bytes@.len(),
                self.bytes@.len() == total,
                i <= len,
                v@ == self.bytes@.subrange(off as int, off + i),
            decreases len - i,
        {
            v.push(self.bytes[off + i]);
            i = i + 1;
            assert(v@ =~= self.bytes@.subrange(off as int, off + i));
        }
        Ok(v)
    }

    /// Maps and writes each region of `plan` in order. Fails, before writing
    /// anything, where the window does not hold some region.
    pub fn load_plan(&mut self, plan: &LoadPlan) -> (r: Result<(), LoadError>)
        requires
            old(self).wf(),
        ensures
            final(self).wf(),
            final(self).base == old(self).base,
            r is Ok <==> forall|k: int|
                0 <= k < plan.regions_view().len() ==> region_fits(
                    old(self).base as nat,
                    old(self).bytes@.len(),
                    #[trigger] plan.regions_view()[k],
                ),
            r is Err ==> final(self).bytes@ == old(self).bytes@,
            r matches Err(e) ==> e == LoadError::Memory,
            r is Ok ==> final(self).bytes@ == apply_regions(
                old(self).bytes@,
                old(self).base as nat,
                plan.regions_view(),
            ),
    {
        let n = plan.regions.len();
        let mut k: usize = 0;
        while k < n
            invariant
                n == plan.regions@.len(),
                k <= n,
                self.wf(),
                forall|j: int|
                    0 <= j < k ==> region_fits(
                        self.base as nat,
                        self.bytes@.len(),
                        #[trigger] plan.regions_view()[j],
                    ),
            decreases n - k,
        {
            let r: &Region = &plan.regions[k];
            if !self.holds(r.map_start, r.map_size) || !self.holds(r.addr, r.data.len() as u64) {
                assert(!region_fits(self.base as nat, self.bytes@.len(), plan.regions_view()[k as int]));
                return Err(LoadError::Memory);
            }
            k = k + 1;
        }
        let ghost start = self.bytes@;
        let mut k: usize = 0;
        assert(plan.regions_view().subrange(0, 0) =~= Seq::<RegionModel>::empty());
        while k < n
            invariant
                n == plan.regions@.len(),
                k <= n,
                self.wf(),
                self.base == old(self).base,
                self.bytes@.len() == start.len(),
                start == old(self).bytes@,
                forall|j: int|
                    0 <= j < n ==> region_fits(
                        self.base as nat,
                        start.len(),
                        #[trigger] plan.regions_view()[j],
                    ),
                self.bytes@ == apply_regions(start, self.base as nat, plan.regions_view().subrange(0, k as int)),
            decreases n - k,
        {
            assert(region_fits(self.base as nat, start.len(), plan.regions_view()[k as int]));
            let w = self.write(plan.regions[k].addr, plan.regions[k].data.as_slice());
            assert(w is Ok);
            assert(plan.regions_view().subrange(0, k + 1).drop_last() =~= plan.regions_view().subrange(0, k as int));
            k = k + 1;
        }
        assert(plan.regions_view().subrange(0, n as int) =~= plan.regions_view());
        Ok(())
    }

    /// Whether the window holds `n` bytes at `addr`.
    fn holds(&self, addr: u64, n: u64) -> (r: bool)
        requires
            self.wf(),
        ensures
            r == self.covers(addr as nat, n as nat),
    {
        addr >= self.base && addr - self.base <= self.bytes.len() as u64
            && n <= self.bytes.len() as u64 - (addr - self.base)
    }
}

/// Whether the bytes of regions `rs` lie within a window of `len` bytes at
/// `base`, no two of them overlapping.
pub open spec fn regions_disjoint_in(base: nat, len: nat, rs: Seq<RegionModel>) -> bool {
    &&& forall|i: int| 0 <= i < rs.len() ==> window_covers(base, len, #[trigger] rs[i].addr, rs[i].data.len())
    &&& forall|i: int, j: int|
        0 <= i < j < rs.len() ==> #[trigger] rs[i].addr + rs[i].data.len() <= #[trigger] rs[j].addr
            || rs[j].addr + rs[j].data.len() <= rs[i].addr
}

/// Bytes written at an offset read back unchanged from that offset.
pub proof fn lemma_write_read_round_trip(m: Seq<u8>, off: int, d: Seq<u8>)
    requires
        0 <= off,
        off + d.len() <= m.len(),
    ensures
        write_bytes(m, off, d).subrange(off, off + d.len()) == d,
        write_bytes(m, off, d).len() == m.len(),
{
    assert(write_bytes(m, off, d).subrange(off, off + d.len()) =~= d);
}

/// A write leaves the bytes outside its span as they were.
pub proof fn lemma_write_keeps_rest(m: Seq<u8>, off: int, d: Seq<u8>, a: int, n: int)
    requires
        0 <= a,
        a + n <= m.len(),
        0 <= n,
        a + n <= off || off + d.len() <= a,
    ensures
        write_bytes(m, off, d).subrange(a, a + n) == m.subrange(a, a + n),
{
    assert(write_bytes(m, off, d).subrange(a, a + n) =~= m.subrange(a, a + n));
}

/// After non-overlapping regions are written into a window, each region's
/// bytes read back from its address unchanged.
pub proof fn lemma_regions_read_back(m: Seq<u8>, base: nat, rs: Seq<RegionModel>, k: int)
    requires
        regions_disjoint_in(base, m.len(), rs),
        0 <= k < rs.len(),
    ensures
        apply_regions(m, base, rs).len() == m.len(),
        apply_regions(m, base, rs).subrange(rs[k].addr - base, rs[k].addr - base + rs[k].data.len())
            == rs[k].data,
    decreases rs.len(),
{
    let prev = rs.drop_last();
    let last = rs.last();
    assert(regions_disjoint_in(base, m.len(), prev)) by {
        assert forall|i: int| 0 <= i < prev.len() implies window_covers(
            base,
            m.len(),
            #[trigger] prev[i].addr,
            prev[i].data.len(),
        ) by {
            assert(prev[i] == rs[i]);
        }
        assert forall|i: int, j: int| 0 <= i < j < prev.len() implies #[trigger] prev[i].addr
            + prev[i].data.len() <= #[trigger] prev[j].addr || prev[j].addr + prev[j].data.len()
            <= prev[i].addr by {
            assert(prev[i] == rs[i] && prev[j] == rs[j]);
        }
    }
    assert(window_covers(base, m.len(), rs[rs.len() - 1].addr, rs[rs.len() - 1].data.len()));
    lemma_apply_len(m, base, prev);
    if k == rs.len() - 1 {
        lemma_write_read_round_trip(apply_regions(m, base, prev), last.addr - base, last.data);
    } else {
        lemma_regions_read_back(m, base, prev, k);
        assert(prev[k] == rs[k]);
        assert(rs[k].addr + rs[k].data.len() <= rs[rs.len() - 1].addr || rs[rs.len() - 1].addr
            + rs[rs.len() - 1].data.len() <= rs[k].addr);
        lemma_write_keeps_rest(
            apply_regions(m, base, prev),
            last.addr - base,
            last.data,
            rs[k].addr - base,
            rs[k].data.len() as int,
        );
    }
}

/// Writing regions keeps the window's length.
pub proof fn lemma_apply_len(m: Seq<u8>, base: nat, rs: Seq<RegionModel>)
    ensures
        apply_regions(m, base, rs).len() == m.len(),
    decreases rs.len(),
{
    if rs.len() > 0 {
        lemma_apply_len(m, base, rs.drop_last());
    }
}

/// Each region of a segment plan comes from a loadable segment, and each
/// loadable segment has its region in the plan.
pub proof fn lemma_plan_matches_segments(img: Seq<u8>, segs: Seq<Segment>, rs: Seq<RegionModel>)
    requires
        segments_plan(img, segs) == Ok::<Seq<RegionModel>, LoadError>(rs),
    ensures
        forall|j: int|
            0 <= j < segs.len() && (#[trigger] segs[j]).p_type == PT_LOAD ==> exists|k: int|
                0 <= k < rs.len() && rs[k] == segment_region(img, segs[j]),
    decreases segs.len(),
{
    if segs.len() > 0 {
        let prev = segs.drop_last();
        match segments_plan(img, prev) {
            Ok(prs) => {
                lemma_plan_matches_segments(img, prev, prs);
                let s = segs.last();
                assert forall|j: int|
                    0 <= j < segs.len() && (#[trigger] segs[j]).p_type == PT_LOAD implies exists|k: int|
                    0 <= k < rs.len() && rs[k] == segment_region(img, segs[j]) by {
                    if j < segs.len() - 1 {
                        assert(prev[j] == segs[j]);
                        let k = choose|k: int| 0 <= k < prs.len() && prs[k] == segment_region(img, prev[j]);
                        if s.p_type == PT_LOAD {
                            assert(rs == prs.push(segment_region(img, s)));
                            assert(rs[k] == prs[k]);
                        }
                    } else {
                        assert(rs == prs.push(segment_region(img, s)));
                        assert(rs[prs.len() as int] == segment_region(img, segs[j]));
                    }
                }
            },
            Err(_) => {},
        }
    }
}

/// Loading an ELF image whose segments do not overlap leaves, at each
/// loadable segment's address, its file bytes followed by zeros up to its
/// memory size.
pub proof fn lemma_elf_segments_loaded(img: Seq<u8>, m: Seq<u8>, base: nat, j: int)
    requires
        elf_plan(img) is Ok,
        regions_disjoint_in(base, m.len(), elf_plan(img)->Ok_0.1),
        0 <= j < elf_segments(img).len(),
        elf_segments(img)[j].p_type == PT_LOAD,
    ensures
        ({
            let s = elf_segments(img)[j];
            let mem = apply_regions(m, base, elf_plan(img)->Ok_0.1);
            let off = s.p_vaddr - base;
            &&& segment_error(img, s) is None
            &&& mem.subrange(off, off + s.p_filesz) == img.subrange(
                s.p_offset as int,
                s.p_offset + s.p_filesz,
            )
            &&& mem.subrange(off + s.p_filesz, off + s.p_memsz) == zeros(
                (s.p_memsz - s.p_filesz) as nat,
            )
        }),
{
    let segs = elf_segments(img);
    let rs = elf_plan(img)->Ok_0.1;
    let s = segs[j];
    lemma_plan_matches_segments(img, segs, rs);
    let k = choose|k: int| 0 <= k < rs.len() && rs[k] == segment_region(img, segs[j]);
    lemma_plan_segment_ok(img, segs, rs, j);
    lemma_regions_read_back(m, base, rs, k);
    let mem = apply_regions(m, base, rs);
    let off = s.p_vaddr - base;
    let whole = mem.subrange(off, off + s.p_memsz);
    assert(whole == rs[k].data);
    assert(mem.subrange(off, off + s.p_filesz) =~= whole.subrange(0, s.p_filesz as int));
    assert(mem.subrange(off + s.p_filesz, off + s.p_memsz) =~= whole.subrange(
        s.p_filesz as int,
        s.p_memsz as int,
    ));
    assert(whole.subrange(0, s.p_filesz as int) =~= img.subrange(
        s.p_offset as int,
        s.p_offset + s.p_filesz,
    ));
    assert(whole.subrange(s.p_filesz as int, s.p_memsz as int) =~= zeros(
        (s.p_memsz - s.p_filesz) as nat,
    ));
}

/// A loadable segment of a plan that succeeded has no error.
pub proof fn lemma_plan_segment_ok(img: Seq<u8>, segs: Seq<Segment>, rs: Seq<RegionModel>, j: int)
    requires
        segments_plan(img, segs) == Ok::<Seq<RegionModel>, LoadError>(rs),
        0 <= j < segs.len(),
        segs[j].p_type == PT_LOAD,
    ensures
        segment_error(img, segs[j]) is None,
    decreases segs.len(),
{
    let prev = segs.drop_last();
    match segments_plan(img, prev) {
        Ok(prs) => {
            if j < segs.len() - 1 {
                assert(prev[j] == segs[j]);
                lemma_plan_segment_ok(img, prev, prs, j);
            }
        },
        Err(_) => {},
    }
}

/// A flat image is loaded verbatim at the fixed base, which is its entry: the
/// bytes read back from the base are the image. The window is a valid one
/// (it ends within the 64-bit address space) that holds the image's whole
/// page-rounded region.
pub proof fn lemma_flat_image_at_base(img: Seq<u8>, m: Seq<u8>, base: nat)
    requires
        img.len() >= 4,
        !has_elf_magic(img),
        base + m.len() <= u64::MAX,
        window_covers(base, m.len(), BINARY_LOAD_ADDR as nat, align_up(img.len())),
    ensures
        image_plan(img) == Ok::<(u64, Seq<RegionModel>), LoadError>(
            (BINARY_LOAD_ADDR, seq![flat_region(img)]),
        ),
        apply_regions(m, base, seq![flat_region(img)]).subrange(
            BINARY_LOAD_ADDR - base,
            BINARY_LOAD_ADDR - base + img.len(),
        ) == img,
{
    let rs = seq![flat_region(img)];
    assert(align_up(img.len()) >= img.len());
    assert(flat_fits(img));
    assert(rs.drop_last() =~= Seq::<RegionModel>::empty());
    assert(apply_regions(m, base, rs.drop_last()) == m);
    assert(rs.last() == flat_region(img));
    assert(apply_regions(m, base, rs) == write_bytes(m, BINARY_LOAD_ADDR - base, img));
    lemma_write_read_round_trip(m, BINARY_LOAD_ADDR - base, img);
}

} // verus!
