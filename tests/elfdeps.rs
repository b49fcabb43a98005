use popsicle::elfdeps::{libraries, DependencyError};

/// A 64-bit little-endian ELF header with no program or section headers.
fn bare_elf_header() -> Vec<u8> {
    let mut h = vec![0x7f, b'E', b'L', b'F', 2, 1, 1, 0, 0, 0, 0, 0, 0, 0, 0, 0];
    h.extend_from_slice(&2u16.to_le_bytes()); // e_type: executable
    h.extend_from_slice(&0x3eu16.to_le_bytes()); // e_machine: x86-64
    h.extend_from_slice(&1u32.to_le_bytes()); // e_version
    h.extend_from_slice(&0u64.to_le_bytes()); // e_entry
    h.extend_from_slice(&0u64.to_le_bytes()); // e_phoff
    h.extend_from_slice(&0u64.to_le_bytes()); // e_shoff
    h.extend_from_slice(&0u32.to_le_bytes()); // e_flags
    h.extend_from_slice(&64u16.to_le_bytes()); // e_ehsize
    h.extend_from_slice(&56u16.to_le_bytes()); // e_phentsize
    h.extend_from_slice(&0u16.to_le_bytes()); // e_phnum
    h.extend_from_slice(&64u16.to_le_bytes()); // e_shentsize
    h.extend_from_slice(&0u16.to_le_bytes()); // e_shnum
    h.extend_from_slice(&0u16.to_le_bytes()); // e_shstrndx
    h
}

#[test]
fn plain_text_is_rejected() {
    let r = libraries("/usr/bin/notes.txt", b"just some text, not a binary\n");
    assert!(matches!(r, Err(DependencyError::Parse(_))));
}

#[test]
fn other_platform_executable_is_rejected() {
    // The magic of a 64-bit Mach-O executable.
    let mut data = vec![0xcf, 0xfa, 0xed, 0xfe, 0x07, 0x00, 0x00, 0x01];
    data.resize(64, 0);
    let r = libraries("/usr/bin/cc", &data);
    assert!(matches!(r, Err(DependencyError::Parse(_))));
}

#[test]
fn empty_file_is_rejected() {
    assert!(matches!(libraries("/bin/empty", &[]), Err(DependencyError::Parse(_))));
}

#[test]
fn static_binary_needs_nothing() {
    let libs = libraries("/opt/cc/bin/cc1", &bare_elf_header()).unwrap();
    assert!(libs.run_paths.is_empty());
    assert!(libs.libraries.is_empty());
}
