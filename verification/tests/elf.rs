use laplace::elf::{load_guest_elf, GuestElf, LoadSegment};
use laplace::layout::{page_align, GUEST_BASE, PAGE_SIZE};

#[test]
fn test_page_align() {
    assert_eq!(page_align(0), 0);
    assert_eq!(page_align(1), PAGE_SIZE);
    assert_eq!(page_align(PAGE_SIZE), PAGE_SIZE);
    assert_eq!(page_align(PAGE_SIZE + 1), PAGE_SIZE * 2);
}

#[test]
fn test_elf_parse_rejects_bad_input() {
    assert!(GuestElf::parse(&[]).is_err());
    assert!(GuestElf::parse(&[0; 64]).is_err());
    assert!(GuestElf::parse(b"\x7fELF").is_err());
}

/// A 64-bit little-endian ELF file with the given machine and program headers
/// (type, flags, offset, vaddr, size), and `tail` behind the headers.
fn elf_file(machine: u16, headers: &[(u32, u32, u64, u64, u64)], tail: &[u8]) -> Vec<u8> {
    let mut f: Vec<u8> = vec![0x7f, b'E', b'L', b'F', 2, 1, 1, 0, 0, 0, 0, 0, 0, 0, 0, 0];
    f.extend_from_slice(&2u16.to_le_bytes());
    f.extend_from_slice(&machine.to_le_bytes());
    f.extend_from_slice(&1u32.to_le_bytes());
    f.extend_from_slice(&0x4000_0010u64.to_le_bytes()); // entry
    f.extend_from_slice(&64u64.to_le_bytes()); // phoff
    f.extend_from_slice(&0u64.to_le_bytes()); // shoff
    f.extend_from_slice(&0u32.to_le_bytes());
    f.extend_from_slice(&64u16.to_le_bytes());
    f.extend_from_slice(&56u16.to_le_bytes());
    f.extend_from_slice(&(headers.len() as u16).to_le_bytes());
    f.extend_from_slice(&64u16.to_le_bytes());
    f.extend_from_slice(&0u16.to_le_bytes());
    f.extend_from_slice(&0u16.to_le_bytes());
    for &(p_type, p_flags, p_offset, p_vaddr, p_size) in headers {
        f.extend_from_slice(&p_type.to_le_bytes());
        f.extend_from_slice(&p_flags.to_le_bytes());
        f.extend_from_slice(&p_offset.to_le_bytes());
        f.extend_from_slice(&p_vaddr.to_le_bytes());
        f.extend_from_slice(&p_vaddr.to_le_bytes());
        f.extend_from_slice(&p_size.to_le_bytes());
        f.extend_from_slice(&p_size.to_le_bytes());
        f.extend_from_slice(&4u64.to_le_bytes());
    }
    f.extend_from_slice(tail);
    f
}

#[test]
fn loadable_segments_are_found() {
    let at = 64 + 3 * 56;
    let file = elf_file(
        183,
        &[
            (1, 5, at, GUEST_BASE, 4),
            (6, 4, 0, GUEST_BASE, 8), // PT_PHDR is skipped
            (1, 6, at + 4, GUEST_BASE + 0x100, 2),
        ],
        &[1, 2, 3, 4, 5, 6],
    );
    let elf = GuestElf::parse(&file).ok().unwrap();
    assert_eq!(elf.entry, 0x4000_0010);
    assert_eq!(elf.loads.len(), 2);
    assert_eq!(elf.loads[0].vaddr, GUEST_BASE);
    assert_eq!(elf.loads[0].data, &[1, 2, 3, 4]);
    assert_eq!(elf.loads[0].flags_str(), "R-X");
    assert_eq!(elf.loads[1].data, &[5, 6]);
    assert_eq!(elf.loads[1].flags_str(), "RW-");

    let mut mem = vec![0u8; 0x200];
    assert!(load_guest_elf(&elf, &mut mem));
    assert_eq!(&mem[..5], &[1, 2, 3, 4, 0]);
    assert_eq!(&mem[0x100..0x103], &[5, 6, 0]);
    let mut small = vec![9u8; 0x101];
    assert!(!load_guest_elf(&elf, &mut small));
    assert_eq!(small, vec![9u8; 0x101]);
}

#[test]
fn segments_below_guest_memory_are_refused() {
    let data = [1u8];
    let elf = GuestElf {
        entry: 0,
        loads: vec![LoadSegment { vaddr: GUEST_BASE - 1, data: &data, flags: 4 }],
    };
    let mut mem = vec![0u8; 16];
    assert!(!load_guest_elf(&elf, &mut mem));
}

#[test]
fn foreign_machines_are_refused() {
    let file = elf_file(62, &[(1, 5, 0, GUEST_BASE, 4)], &[]);
    assert_eq!(
        GuestElf::parse(&file).err().unwrap(),
        "Not an aarch64 ELF (e_machine=62)"
    );
}

#[test]
fn truncated_segments_are_refused() {
    let file = elf_file(183, &[(1, 5, 100, 0x4000_1000, 50)], &[]);
    assert_eq!(
        GuestElf::parse(&file).err().unwrap(),
        "LOAD segment at 0x40001000: file data extends past end of file"
    );
    let file = elf_file(183, &[(1, 5, u64::MAX, 0x4000_1000, 2)], &[]);
    assert_eq!(
        GuestElf::parse(&file).err().unwrap(),
        "LOAD segment at 0x40001000: file data extends past end of file"
    );
}

#[test]
fn files_without_segments_are_refused() {
    let file = elf_file(183, &[(6, 4, 0, 0, 8)], &[]);
    assert_eq!(GuestElf::parse(&file).err().unwrap(), "No PT_LOAD segments found");
}

#[test]
fn parse_errors_are_passed_on() {
    let message = GuestElf::parse(&[0; 64]).err().unwrap();
    assert!(message.starts_with("ELF parse error: "));
    let expected = format!("ELF parse error: {}", goblin::elf::Elf::parse(&[0; 64]).err().unwrap());
    assert_eq!(message, expected);
}

#[test]
fn headers_decide_what_is_loaded() {
    let data = [10u8, 11, 12, 13];
    let headers = [(1, 1, 2, 0x4000_0000, 7), (2, 0, 4, 0x4000_0000, 7)];
    let elf = GuestElf::from_headers(&data, 183, 5, &headers).ok().unwrap();
    assert_eq!(elf.entry, 5);
    assert_eq!(elf.loads.len(), 1);
    assert_eq!(elf.loads[0].data, &[11, 12]);
    assert_eq!(elf.loads[0].flags_str(), "RWX");
    // the first segment out of range is the one that is named
    let headers = [(1, 0, 5, 0x10, 7), (1, 0, 6, 0x20, 7)];
    assert_eq!(
        GuestElf::from_headers(&data, 183, 5, &headers).err().unwrap(),
        "LOAD segment at 0x10: file data extends past end of file"
    );
}
