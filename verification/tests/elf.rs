use armx64::elf::{parse_image, plan_layout, plan_writes, ElfLoadError, ParsedElf, ParsedSegment};

fn elf_image(machine: u16) -> Vec<u8> {
    let mut v = vec![0x7f, b'E', b'L', b'F', 2, 1, 1, 0, 0, 0, 0, 0, 0, 0, 0, 0];
    v.extend(2u16.to_le_bytes());
    v.extend(machine.to_le_bytes());
    v.extend(1u32.to_le_bytes());
    v.extend(0x1000u64.to_le_bytes()); // entry
    v.extend(64u64.to_le_bytes()); // phoff
    v.extend(0u64.to_le_bytes()); // shoff
    v.extend(0u32.to_le_bytes());
    v.extend(64u16.to_le_bytes());
    v.extend(56u16.to_le_bytes());
    v.extend(1u16.to_le_bytes());
    v.extend(64u16.to_le_bytes());
    v.extend(0u16.to_le_bytes());
    v.extend(0u16.to_le_bytes());
    v.extend(1u32.to_le_bytes()); // PT_LOAD
    v.extend(5u32.to_le_bytes());
    v.extend(120u64.to_le_bytes()); // offset
    v.extend(0x1000u64.to_le_bytes()); // vaddr
    v.extend(0x1000u64.to_le_bytes()); // paddr
    v.extend(8u64.to_le_bytes()); // filesz
    v.extend(0x10u64.to_le_bytes()); // memsz
    v.extend(0x1000u64.to_le_bytes());
    v.extend([0x1f, 0x20, 0x03, 0xd5, 0xc0, 0x03, 0x5f, 0xd6]);
    v
}

fn segment(address: u64, size: u64, data: Vec<u8>) -> ParsedSegment {
    ParsedSegment { address, size, data: Ok(data) }
}

fn aarch64(segments: Vec<ParsedSegment>) -> ParsedElf {
    ParsedElf { is_aarch64: true, architecture: "Aarch64".to_string(), entry: 0x1000, segments }
}

#[test]
fn lays_out_an_aarch64_image() {
    let parsed = parse_image(&elf_image(183)).unwrap();
    assert!(parsed.is_aarch64);
    assert_eq!(parsed.entry, 0x1000);
    let layout = plan_layout(&parsed).unwrap();
    assert_eq!(layout.entry, 0x1000);
    assert_eq!(layout.segments.len(), 1);
    assert_eq!(layout.segments[0].address, 0x1000);
    assert_eq!(layout.segments[0].size, 0x10);
    assert_eq!(layout.memory_size, 0x2000 + 8 * 1024 * 1024 + 16 * 1024 * 1024);
    let writes = plan_writes(&parsed).unwrap();
    assert_eq!(writes.len(), 1);
    assert_eq!(writes[0].address, 0x1000);
    assert_eq!(writes[0].data, vec![0x1f, 0x20, 0x03, 0xd5, 0xc0, 0x03, 0x5f, 0xd6]);
}

#[test]
fn rejects_other_architectures() {
    let parsed = parse_image(&elf_image(62)).unwrap();
    assert_eq!(plan_layout(&parsed).unwrap_err(), ElfLoadError::UnsupportedArchitecture("X86_64".to_string()));
}

#[test]
fn rejects_garbage() {
    assert!(matches!(parse_image(&[1, 2, 3]), Err(ElfLoadError::Parse(_))));
}

#[test]
fn needs_a_loadable_segment() {
    let parsed = aarch64(vec![segment(0x1000, 0, vec![])]);
    assert_eq!(plan_layout(&parsed).unwrap_err(), ElfLoadError::InvalidSegment { address: 0, size: 0 });
}

#[test]
fn rejects_a_segment_past_the_address_space() {
    let parsed = aarch64(vec![segment(0x1000, 0x10, vec![]), segment(u64::MAX, 2, vec![])]);
    assert_eq!(plan_layout(&parsed).unwrap_err(), ElfLoadError::InvalidSegment { address: u64::MAX, size: 2 });
}

#[test]
fn rejects_an_image_too_large_to_page_align() {
    let parsed = aarch64(vec![segment(usize::MAX as u64 - 10, 5, vec![])]);
    let max_end = usize::MAX as u64 - 5;
    assert_eq!(plan_layout(&parsed).unwrap_err(), ElfLoadError::InvalidSegment { address: 0, size: max_end });
}

#[test]
fn rejects_file_data_longer_than_the_segment() {
    let parsed = aarch64(vec![segment(0x1000, 2, vec![1, 2, 3])]);
    assert!(plan_layout(&parsed).is_ok());
    assert_eq!(plan_writes(&parsed).unwrap_err(), ElfLoadError::InvalidSegment { address: 0x1000, size: 2 });
}

#[test]
fn segment_data_errors_are_parse_errors() {
    let parsed = aarch64(vec![ParsedSegment { address: 0x1000, size: 4, data: Err("bad offset".to_string()) }]);
    assert_eq!(plan_writes(&parsed).unwrap_err(), ElfLoadError::Parse("bad offset".to_string()));
}
