use simple_hv::loader::{
    load_binary_file, load_elf_file, load_elf_phdrs, load_vm_image, LoadError, BINARY_LOAD_ADDR,
};
use simple_hv::memory::GuestMemory;

fn put(img: &mut Vec<u8>, off: usize, bytes: &[u8]) {
    img[off..off + bytes.len()].copy_from_slice(bytes);
}

/// A little-endian 64-bit ELF image with one program header at offset 64.
fn elf64(entry: u64, p_type: u32, offset: u64, vaddr: u64, filesz: u64, memsz: u64, len: usize) -> Vec<u8> {
    let mut img = vec![0u8; len];
    put(&mut img, 0, &[0x7f, 0x45, 0x4c, 0x46, 2, 1, 1, 0]);
    put(&mut img, 16, &2u16.to_le_bytes());
    put(&mut img, 18, &243u16.to_le_bytes());
    put(&mut img, 20, &1u32.to_le_bytes());
    put(&mut img, 24, &entry.to_le_bytes());
    put(&mut img, 32, &64u64.to_le_bytes());
    put(&mut img, 52, &64u16.to_le_bytes());
    put(&mut img, 54, &56u16.to_le_bytes());
    put(&mut img, 56, &1u16.to_le_bytes());
    put(&mut img, 64, &p_type.to_le_bytes());
    put(&mut img, 68, &7u32.to_le_bytes());
    put(&mut img, 72, &offset.to_le_bytes());
    put(&mut img, 80, &vaddr.to_le_bytes());
    put(&mut img, 88, &vaddr.to_le_bytes());
    put(&mut img, 96, &filesz.to_le_bytes());
    put(&mut img, 104, &memsz.to_le_bytes());
    put(&mut img, 112, &4096u64.to_le_bytes());
    img
}

fn one_segment_image() -> Vec<u8> {
    let mut img = elf64(0x1000, 1, 0x100, 0x1000, 16, 4096, 0x110);
    for b in &mut img[0x100..0x110] {
        *b = 0x01;
    }
    img
}

#[test]
fn flat_image_reads_back_at_base() {
    let mut img = vec![0u8; 4096];
    img[..4].copy_from_slice(&[0xAA, 0xBB, 0xCC, 0xDD]);
    let plan = load_vm_image(&img).unwrap();
    assert_eq!(plan.entry, BINARY_LOAD_ADDR);
    assert_eq!(plan.regions.len(), 1);
    assert_eq!(plan.regions[0].map_start, BINARY_LOAD_ADDR);
    assert_eq!(plan.regions[0].map_size, 4096);
    let mut mem = GuestMemory::new(BINARY_LOAD_ADDR, 4096);
    mem.load_plan(&plan).unwrap();
    assert_eq!(mem.read(BINARY_LOAD_ADDR, 4).unwrap(), vec![0xAA, 0xBB, 0xCC, 0xDD]);
    assert_eq!(mem.read(BINARY_LOAD_ADDR, 4096).unwrap(), img);
}

#[test]
fn flat_image_size_rounds_up_to_pages() {
    let img = vec![0x13u8; 5000];
    let plan = load_binary_file(&img).unwrap();
    assert_eq!(plan.regions[0].map_size, 8192);
    assert_eq!(plan.regions[0].addr, BINARY_LOAD_ADDR);
    assert_eq!(plan.regions[0].data, img);
}

#[test]
fn elf_segment_loaded_and_zero_filled() {
    let img = one_segment_image();
    let plan = load_vm_image(&img).unwrap();
    assert_eq!(plan.entry, 0x1000);
    assert_eq!(plan.regions.len(), 1);
    assert_eq!(plan.regions[0].map_start, 0x1000);
    assert_eq!(plan.regions[0].map_size, 0x1000);
    let mut mem = GuestMemory::new(0, 0x3000);
    mem.load_plan(&plan).unwrap();
    assert_eq!(mem.read(0x1000, 16).unwrap(), vec![0x01u8; 16]);
    assert_eq!(mem.read(0x1010, 4080).unwrap(), vec![0u8; 4080]);
}

#[test]
fn elf_segment_span_is_page_aligned() {
    let img = elf64(0x1234, 1, 0x100, 0x1234, 8, 0x1000, 0x108);
    let plan = load_elf_file(&img).unwrap();
    assert_eq!(plan.entry, 0x1234);
    assert_eq!(plan.regions[0].map_start, 0x1000);
    assert_eq!(plan.regions[0].map_size, 0x2000);
    assert_eq!(plan.regions[0].addr, 0x1234);
    assert_eq!(plan.regions[0].data.len(), 0x1000);
}

#[test]
fn elf_program_headers_are_read() {
    let img = one_segment_image();
    let (segs, entry, phoff, phnum) = load_elf_phdrs(&img).unwrap();
    assert_eq!(entry, 0x1000);
    assert_eq!(phoff, 64);
    assert_eq!(phnum, 1);
    assert_eq!(segs.len(), 1);
    assert_eq!(segs[0].p_type, 1);
    assert_eq!(segs[0].p_flags, 7);
    assert_eq!(segs[0].p_offset, 0x100);
    assert_eq!(segs[0].p_vaddr, 0x1000);
    assert_eq!(segs[0].p_filesz, 16);
    assert_eq!(segs[0].p_memsz, 4096);
}

#[test]
fn interpreter_segment_is_kept_but_not_loaded() {
    let img = elf64(0x1000, 3, 0x100, 0x1000, 16, 16, 0x110);
    let (segs, _, _, _) = load_elf_phdrs(&img).unwrap();
    assert_eq!(segs.len(), 1);
    assert_eq!(segs[0].p_type, 3);
    let plan = load_elf_file(&img).unwrap();
    assert_eq!(plan.regions.len(), 0);
}

#[test]
fn other_segment_types_are_dropped() {
    let img = elf64(0x1000, 4, 0x100, 0x1000, 16, 16, 0x110);
    let (segs, _, _, _) = load_elf_phdrs(&img).unwrap();
    assert_eq!(segs.len(), 0);
}

#[test]
fn elf32_big_endian_header_is_read() {
    let mut img = vec![0u8; 0x80];
    put(&mut img, 0, &[0x7f, 0x45, 0x4c, 0x46, 1, 2, 1, 0]);
    put(&mut img, 24, &0x2000u32.to_be_bytes());
    put(&mut img, 28, &52u32.to_be_bytes());
    put(&mut img, 42, &32u16.to_be_bytes());
    put(&mut img, 44, &1u16.to_be_bytes());
    put(&mut img, 52, &1u32.to_be_bytes());
    put(&mut img, 56, &0x60u32.to_be_bytes());
    put(&mut img, 60, &0x2000u32.to_be_bytes());
    put(&mut img, 68, &4u32.to_be_bytes());
    put(&mut img, 72, &8u32.to_be_bytes());
    put(&mut img, 76, &5u32.to_be_bytes());
    put(&mut img, 0x60, &[9, 8, 7, 6]);
    let plan = load_vm_image(&img).unwrap();
    assert_eq!(plan.entry, 0x2000);
    assert_eq!(plan.regions.len(), 1);
    assert_eq!(plan.regions[0].addr, 0x2000);
    assert_eq!(plan.regions[0].data, vec![9, 8, 7, 6, 0, 0, 0, 0]);
}

#[test]
fn image_shorter_than_magic_is_io_error() {
    assert_eq!(load_vm_image(&[0x7f, 0x45]).unwrap_err(), LoadError::Io);
}

#[test]
fn bad_elf_version_is_format_error() {
    let mut img = one_segment_image();
    img[6] = 2;
    assert_eq!(load_vm_image(&img).unwrap_err(), LoadError::Format);
}

#[test]
fn truncated_elf_header_is_format_error() {
    let img = one_segment_image();
    assert_eq!(load_vm_image(&img[..40]).unwrap_err(), LoadError::Format);
}

#[test]
fn wrong_phentsize_is_format_error() {
    let mut img = one_segment_image();
    put(&mut img, 54, &32u16.to_le_bytes());
    assert_eq!(load_elf_phdrs(&img).unwrap_err(), LoadError::Format);
}

#[test]
fn empty_phdr_table_is_format_error() {
    let mut img = one_segment_image();
    put(&mut img, 56, &0u16.to_le_bytes());
    assert_eq!(load_elf_phdrs(&img).unwrap_err(), LoadError::Format);
}

#[test]
fn oversized_phdr_table_is_format_error() {
    let mut img = one_segment_image();
    put(&mut img, 56, &100u16.to_le_bytes());
    assert_eq!(load_elf_phdrs(&img).unwrap_err(), LoadError::Format);
}

#[test]
fn phdr_table_past_end_is_io_error() {
    let mut img = one_segment_image();
    put(&mut img, 32, &0x100u64.to_le_bytes());
    assert_eq!(load_elf_phdrs(&img).unwrap_err(), LoadError::Io);
}

#[test]
fn filesz_above_memsz_is_format_error() {
    let img = elf64(0x1000, 1, 0x100, 0x1000, 16, 8, 0x110);
    assert_eq!(load_elf_file(&img).unwrap_err(), LoadError::Format);
}

#[test]
fn segment_past_address_space_end_is_format_error() {
    let img = elf64(0x1000, 1, 0x100, u64::MAX - 4, 16, 16, 0x110);
    assert_eq!(load_elf_file(&img).unwrap_err(), LoadError::Format);
}

#[test]
fn segment_data_past_end_is_io_error() {
    let img = elf64(0x1000, 1, 0x100, 0x1000, 32, 64, 0x110);
    assert_eq!(load_elf_file(&img).unwrap_err(), LoadError::Io);
}

#[test]
fn memory_write_read_round_trip() {
    let mut mem = GuestMemory::new(0x8000_0000, 64);
    mem.write(0x8000_0010, &[1, 2, 3]).unwrap();
    assert_eq!(mem.read(0x8000_0010, 3).unwrap(), vec![1, 2, 3]);
    assert_eq!(mem.read(0x8000_000f, 5).unwrap(), vec![0, 1, 2, 3, 0]);
}

#[test]
fn memory_outside_window_is_memory_error() {
    let mut mem = GuestMemory::new(0x1000, 16);
    assert_eq!(mem.write(0x100c, &[1, 2, 3, 4, 5]).unwrap_err(), LoadError::Memory);
    assert_eq!(mem.read(0xfff, 1).unwrap_err(), LoadError::Memory);
    assert_eq!(mem.bytes, vec![0u8; 16]);
}

#[test]
fn plan_outside_window_is_memory_error() {
    let plan = load_vm_image(&one_segment_image()).unwrap();
    let mut mem = GuestMemory::new(0x1000, 0x800);
    assert_eq!(mem.load_plan(&plan).unwrap_err(), LoadError::Memory);
    assert_eq!(mem.bytes, vec![0u8; 0x800]);
}

#[test]
fn two_elf_segments_each_loaded_at_their_address() {
    let mut img = elf64(0x1000, 1, 0x200, 0x1000, 4, 8, 0x300);
    put(&mut img, 56, &2u16.to_le_bytes());
    put(&mut img, 120, &1u32.to_le_bytes());
    put(&mut img, 124, &6u32.to_le_bytes());
    put(&mut img, 128, &0x280u64.to_le_bytes());
    put(&mut img, 136, &0x3000u64.to_le_bytes());
    put(&mut img, 144, &0x3000u64.to_le_bytes());
    put(&mut img, 152, &2u64.to_le_bytes());
    put(&mut img, 160, &6u64.to_le_bytes());
    put(&mut img, 0x200, &[1, 2, 3, 4]);
    put(&mut img, 0x280, &[5, 6]);
    let plan = load_vm_image(&img).unwrap();
    assert_eq!(plan.regions.len(), 2);
    let mut mem = GuestMemory::new(0, 0x4000);
    for b in mem.bytes.iter_mut() {
        *b = 0xEE;
    }
    mem.load_plan(&plan).unwrap();
    assert_eq!(mem.read(0x1000, 8).unwrap(), vec![1, 2, 3, 4, 0, 0, 0, 0]);
    assert_eq!(mem.read(0x3000, 6).unwrap(), vec![5, 6, 0, 0, 0, 0]);
    assert_eq!(mem.read(0x3006, 1).unwrap(), vec![0xEE]);
}
