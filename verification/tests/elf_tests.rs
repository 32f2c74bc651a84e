use rusty::elf::{check_header, page_copy, plan_segment, ElfError, ElfLoader, LoadedElf};

fn put(bytes: &mut Vec<u8>, offset: usize, value: u64, size: usize) {
    for i in 0..size {
        bytes[offset + i] = (value >> (8 * i)) as u8;
    }
}

/// An x86-64 executable with one read/execute segment of 0x1000 bytes at
/// 0x40_0000 holding the whole 120-byte file, entry at 0x40_0078.
fn sample_elf(flags: u64, entry: u64) -> Vec<u8> {
    let mut b = vec![0u8; 120];
    b[0..4].copy_from_slice(&[0x7F, b'E', b'L', b'F']);
    b[4] = 2;
    b[5] = 1;
    b[6] = 1;
    put(&mut b, 16, 2, 2);
    put(&mut b, 18, 0x3E, 2);
    put(&mut b, 20, 1, 4);
    put(&mut b, 24, entry, 8);
    put(&mut b, 32, 64, 8);
    put(&mut b, 52, 64, 2);
    put(&mut b, 54, 56, 2);
    put(&mut b, 56, 1, 2);
    put(&mut b, 64, 1, 4);
    put(&mut b, 68, flags, 4);
    put(&mut b, 72, 0, 8);
    put(&mut b, 80, 0x40_0000, 8);
    put(&mut b, 88, 0x40_0000, 8);
    put(&mut b, 96, 120, 8);
    put(&mut b, 104, 0x1000, 8);
    put(&mut b, 112, 0x1000, 8);
    b
}

#[test]
fn a_valid_executable_loads() {
    let elf = sample_elf(5, 0x40_0078);
    let mut loader = ElfLoader::new(&elf).unwrap();
    let segment = loader.next_segment(&elf).unwrap().unwrap();
    assert_eq!(segment.vaddr, 0x40_0000);
    assert_eq!(segment.mem_size, 0x1000);
    assert_eq!((segment.file_offset, segment.file_end), (0, 120));
    assert!(segment.executable && !segment.writable && segment.holds_entry);
    assert_eq!(loader.next_segment(&elf), Ok(None));
    assert_eq!(loader.finish(), Ok(LoadedElf { entry_point: 0x40_0078 }));
}

#[test]
fn an_entry_outside_executable_code_is_refused() {
    let elf = sample_elf(6, 0x40_0078);
    let mut loader = ElfLoader::new(&elf).unwrap();
    let segment = loader.next_segment(&elf).unwrap().unwrap();
    assert!(!segment.holds_entry);
    assert_eq!(loader.finish(), Err(ElfError::InvalidFormat("ELF entry is not executable")));
}

#[test]
fn header_errors_come_in_order() {
    assert_eq!(check_header(&[0u8; 10]).err(), Some(ElfError::InvalidFormat("ELF file too small")));
    let mut elf = sample_elf(5, 0x40_0078);
    elf[1] = b'X';
    assert_eq!(check_header(&elf).err(), Some(ElfError::InvalidFormat("Invalid ELF magic")));
    let mut elf = sample_elf(5, 0x40_0078);
    elf[4] = 1;
    assert_eq!(check_header(&elf).err(), Some(ElfError::InvalidFormat("Expected ELF64")));
    let mut elf = sample_elf(5, 0x40_0078);
    elf[18] = 0x28;
    assert_eq!(check_header(&elf).err(), Some(ElfError::InvalidFormat("Expected x86_64 ELF")));
    let mut elf = sample_elf(5, 0x40_0078);
    put(&mut elf, 56, 5, 2);
    assert_eq!(check_header(&elf).err(), Some(ElfError::InvalidFormat("Program header table outside ELF")));
}

#[test]
fn segment_errors() {
    let mut elf = sample_elf(5, 0x40_0078);
    put(&mut elf, 104, 10, 8);
    let mut loader = ElfLoader::new(&elf).unwrap();
    assert_eq!(loader.next_segment(&elf), Err(ElfError::InvalidFormat("PT_LOAD memsz < filesz")));
    let mut elf = sample_elf(5, 0x40_0078);
    put(&mut elf, 80, 0x10, 8);
    let mut loader = ElfLoader::new(&elf).unwrap();
    assert_eq!(loader.next_segment(&elf), Err(ElfError::InvalidFormat("PT_LOAD starts below userspace")));
}

#[test]
fn a_file_without_load_segments_is_refused() {
    let mut elf = sample_elf(5, 0x40_0078);
    put(&mut elf, 64, 4, 4);
    let mut loader = ElfLoader::new(&elf).unwrap();
    assert_eq!(loader.next_segment(&elf), Ok(None));
    assert_eq!(loader.finish(), Err(ElfError::InvalidFormat("ELF has no PT_LOAD segments")));
}

#[test]
fn segment_pages_and_copies() {
    let plan = plan_segment(0x40_0800, 0x1000, 0x900).unwrap().unwrap();
    assert_eq!((plan.start_addr, plan.end_addr, plan.data_end), (0x40_0000, 0x40_2000, 0x40_1100));
    let first = page_copy(&plan, 0x900, 0x40_0000).unwrap();
    assert_eq!((first.source_offset, first.destination_offset, first.len), (0, 0x800, 0x800));
    let second = page_copy(&plan, 0x900, 0x40_1000).unwrap();
    assert_eq!((second.source_offset, second.destination_offset, second.len), (0x800, 0, 0x100));
    assert_eq!(plan_segment(0x40_0000, 0, 0), Ok(None));
    assert_eq!(plan_segment(0x10, 0x10, 0), Err(ElfError::InvalidFormat("Segment starts below userspace")));
}
