use jopcall::hashing::{default_hasher, DefaultEngine, HashEngine};
use jopcall::helper::{pick_random, search_bytes, JopcallError};
use jopcall::jop::{get_image_memory_sections, search_gadget, MemorySection};
use jopcall::peb_walk::{get_dll_base_address, module_name_key, ModuleRecord};
use jopcall::pfunction::get_function_pointer;
use jopcall::syscall::{lookup_syscall, Syscall, SyscallCount};

const BASE: usize = 0x7ff0_0000_0000;
const NT: usize = 0x80;
const JMP_RCX: [u8; 2] = [0xFF, 0xE1];

fn put_u16(img: &mut Vec<u8>, off: usize, v: u16) {
    img[off..off + 2].copy_from_slice(&v.to_le_bytes());
}

fn put_u32(img: &mut Vec<u8>, off: usize, v: u32) {
    img[off..off + 4].copy_from_slice(&v.to_le_bytes());
}

fn put_section(img: &mut Vec<u8>, k: usize, rva: u32, size: u32, characteristics: u32) {
    let h = NT + 0x108 + 0x28 * k;
    put_u32(img, h + 0x0C, rva);
    put_u32(img, h + 0x10, size);
    put_u32(img, h + 0x24, characteristics);
}

/// An image with one executable section at 0x400 (0x100 bytes) holding the
/// pattern at the given offsets, and one data section at 0x500.
fn gadget_image(offsets: &[usize]) -> Vec<u8> {
    let mut img = vec![0u8; 0x600];
    put_u32(&mut img, 0x3C, NT as u32);
    put_u16(&mut img, NT + 6, 2);
    put_section(&mut img, 0, 0x400, 0x100, 0x6000_0020);
    put_section(&mut img, 1, 0x500, 0x100, 0xC000_0040);
    for &o in offsets {
        img[0x400 + o..0x400 + o + 2].copy_from_slice(&JMP_RCX);
    }
    // The same pattern in the data section is never a gadget.
    img[0x510..0x512].copy_from_slice(&JMP_RCX);
    img
}

fn sections_of(img: &[u8]) -> Vec<MemorySection> {
    let mut buf = vec![MemorySection { virtual_size: 0, rva: 0, characteristics: 0 }; 8];
    let n = get_image_memory_sections(img, &mut buf).unwrap();
    buf.truncate(n);
    buf
}

/// An image whose export directory names NtOpenProcess and NtClose.
fn export_image() -> Vec<u8> {
    let mut img = vec![0u8; 0x600];
    put_u32(&mut img, 0x3C, NT as u32);
    put_u32(&mut img, NT + 0x88, 0x300);
    put_u32(&mut img, 0x300 + 0x14, 2);
    put_u32(&mut img, 0x300 + 0x18, 2);
    put_u32(&mut img, 0x300 + 0x1C, 0x340);
    put_u32(&mut img, 0x300 + 0x20, 0x350);
    put_u32(&mut img, 0x300 + 0x24, 0x360);
    put_u32(&mut img, 0x340, 0x500);
    put_u32(&mut img, 0x344, 0x520);
    put_u32(&mut img, 0x350, 0x380);
    put_u32(&mut img, 0x354, 0x3A0);
    put_u16(&mut img, 0x360, 1);
    put_u16(&mut img, 0x362, 0);
    img[0x380..0x380 + 13].copy_from_slice(b"NtOpenProcess");
    img[0x3A0..0x3A0 + 7].copy_from_slice(b"NtClose");
    img
}

fn stub(prefix: &[u8], ssn_bytes: [u8; 4]) -> Vec<u8> {
    let mut s = prefix.to_vec();
    s.extend_from_slice(&[0x4C, 0x8B, 0xD1, 0xB8]);
    s.extend_from_slice(&ssn_bytes);
    s.extend_from_slice(&[0xF6, 0x04, 0x25, 0x08, 0x03, 0xFE, 0x7F, 0x01, 0x75, 0x03, 0x0F, 0x05, 0xC3]);
    s.resize(36, 0xCC);
    s
}

fn utf16(s: &str) -> Vec<u16> {
    s.encode_utf16().collect()
}

#[test]
fn hash_known_values() {
    assert_eq!(default_hasher(""), 0);
    assert_eq!(default_hasher("a"), 281118871881674839404006807049175981828);
    assert_eq!(default_hasher("abc"), 278259203999072588207098728766592129797);
    assert_eq!(default_hasher("ntdll.dll"), 140761521694939156750282118132694185960);
}

#[test]
fn hash_ignores_ascii_case() {
    assert_eq!(default_hasher("NTDLL.DLL"), default_hasher("ntdll.dll"));
    assert_eq!(default_hasher("NtOpenProcess"), default_hasher("ntopenprocess"));
    assert_ne!(default_hasher("ntdll.dll"), default_hasher("kernel32.dll"));
}

#[test]
fn hash_is_deterministic() {
    let first = default_hasher("KERNEL32.dll");
    let second = default_hasher("KERNEL32.dll");
    assert_eq!(first, second);
}

#[test]
fn engine_hashes_bytes_as_the_text() {
    assert_eq!(DefaultEngine.hash_bytes(b"NtClose"), default_hasher("NtClose"));
    assert_eq!(DefaultEngine.hash_bytes(b""), 0);
}

#[test]
fn search_bytes_finds_first() {
    assert_eq!(search_bytes(&[0x02], &[0x01, 0x02, 0x03]).unwrap(), 1);
    assert_eq!(search_bytes(&[0x02, 0x03], &[0x02, 0x01, 0x02, 0x03, 0x02, 0x03]).unwrap(), 2);
    assert!(matches!(search_bytes(&[0x04], &[0x01, 0x02, 0x03]), Err(JopcallError::NoByteMatch)));
    assert!(matches!(search_bytes(&[0x01, 0x02], &[0x01]), Err(JopcallError::NoByteMatch)));
}

#[test]
fn pick_random_uses_seed_modulo_length() {
    assert_eq!(pick_random(&[10usize, 20, 30], 7), 20);
    assert_eq!(pick_random(&[10usize, 20, 30], 3), 10);
}

#[test]
fn sections_are_read_from_headers() {
    let img = gadget_image(&[]);
    let secs = sections_of(&img);
    assert_eq!(
        secs,
        vec![
            MemorySection { virtual_size: 0x100, rva: 0x400, characteristics: 0x6000_0020 },
            MemorySection { virtual_size: 0x100, rva: 0x500, characteristics: 0xC000_0040 },
        ]
    );
    let mut small = vec![MemorySection { virtual_size: 9, rva: 9, characteristics: 9 }; 1];
    assert_eq!(get_image_memory_sections(&img, &mut small).unwrap(), 1);
    assert_eq!(small[0].rva, 0x400);
}

#[test]
fn sections_outside_image_are_refused() {
    let img = gadget_image(&[]);
    let mut buf = vec![MemorySection { virtual_size: 1, rva: 2, characteristics: 3 }; 4];
    assert!(matches!(
        get_image_memory_sections(&img[..0x1A0], &mut buf),
        Err(JopcallError::InvalidAddress)
    ));
    assert_eq!(buf[0], MemorySection { virtual_size: 1, rva: 2, characteristics: 3 });
}

#[test]
fn gadget_scan_respects_budget() {
    let img = gadget_image(&[10, 40, 90]);
    let secs = sections_of(&img);
    let mut gadgets = vec![0usize; 2];
    let n = search_gadget(&JMP_RCX, &secs, &img, BASE, &mut gadgets).unwrap();
    assert_eq!(n, 2);
    assert_eq!(gadgets, vec![BASE + 0x400 + 10, BASE + 0x400 + 40]);
}

#[test]
fn gadget_scan_collects_all_in_order() {
    let img = gadget_image(&[10, 40, 90]);
    let secs = sections_of(&img);
    let mut gadgets = vec![7usize; 5];
    let n = search_gadget(&JMP_RCX, &secs, &img, BASE, &mut gadgets).unwrap();
    assert_eq!(n, 3);
    assert_eq!(gadgets, vec![BASE + 0x40A, BASE + 0x428, BASE + 0x45A, 7, 7]);
}

#[test]
fn gadget_scan_never_overlaps() {
    let mut img = gadget_image(&[]);
    img[0x420..0x423].copy_from_slice(&[0xAA, 0xAA, 0xAA]);
    let secs = sections_of(&img);
    let mut gadgets = vec![0usize; 4];
    let n = search_gadget(&[0xAA, 0xAA], &secs, &img, BASE, &mut gadgets).unwrap();
    assert_eq!(n, 1);
    assert_eq!(gadgets[0], BASE + 0x420);
}

#[test]
fn gadget_scan_without_match_is_no_gadget() {
    let img = gadget_image(&[]);
    let secs = sections_of(&img);
    let mut gadgets = vec![0usize; 4];
    assert!(matches!(
        search_gadget(&JMP_RCX, &secs, &img, BASE, &mut gadgets),
        Err(JopcallError::NoGadget)
    ));
    assert_eq!(gadgets, vec![0usize; 4]);
}

#[test]
fn gadget_scan_with_section_outside_image() {
    let img = gadget_image(&[10]);
    let secs = vec![MemorySection { virtual_size: 0x300, rva: 0x400, characteristics: 0x2000_0000 }];
    let mut gadgets = vec![0usize; 4];
    assert!(matches!(
        search_gadget(&JMP_RCX, &secs, &img, BASE, &mut gadgets),
        Err(JopcallError::InvalidAddress)
    ));
}

#[test]
fn export_resolves_known_name() {
    let img = export_image();
    let open = default_hasher("NtOpenProcess");
    let close = default_hasher("ntclose");
    assert_eq!(get_function_pointer(&DefaultEngine, &img, BASE, open).unwrap(), BASE + 0x520);
    assert_eq!(get_function_pointer(&DefaultEngine, &img, BASE, close).unwrap(), BASE + 0x500);
}

#[test]
fn export_unknown_name_is_not_found() {
    let img = export_image();
    let other = default_hasher("NtUnrelatedFunction");
    assert!(matches!(
        get_function_pointer(&DefaultEngine, &img, BASE, other),
        Err(JopcallError::FunctionNotFound)
    ));
}

#[test]
fn export_with_bad_ordinal_is_invalid_address() {
    let mut img = export_image();
    put_u16(&mut img, 0x360, 2);
    let open = default_hasher("NtOpenProcess");
    assert!(matches!(
        get_function_pointer(&DefaultEngine, &img, BASE, open),
        Err(JopcallError::InvalidAddress)
    ));
}

#[test]
fn export_directory_outside_image_is_invalid_address() {
    let img = export_image();
    let close = default_hasher("NtClose");
    assert!(matches!(
        get_function_pointer(&DefaultEngine, &img[..0x200], BASE, close),
        Err(JopcallError::InvalidAddress)
    ));
}

#[test]
fn syscall_unhooked_stub() {
    let s = stub(&[], [0x12, 0x00, 0x00, 0x00]);
    let r = lookup_syscall(&s, BASE).unwrap();
    assert_eq!(r, Syscall { ssn: 0x0012, address: BASE + 18, hooked: false });
}

#[test]
fn syscall_hooked_stub() {
    let s = stub(&[0xE9, 0x11, 0x22, 0x33, 0x44], [0x34, 0x01, 0x00, 0x00]);
    let r = lookup_syscall(&s, BASE).unwrap();
    assert!(r.hooked);
    assert_eq!(r.ssn, 0x0134);
    assert_eq!(r.address, BASE + 23);
}

#[test]
fn syscall_with_both_high_bytes_set_is_invalid() {
    let s = stub(&[], [0x12, 0x00, 0x01, 0x01]);
    assert!(matches!(lookup_syscall(&s, BASE), Err(JopcallError::InvalidSSN)));
    let one = stub(&[], [0x12, 0x00, 0x01, 0x00]);
    assert_eq!(lookup_syscall(&one, BASE).unwrap().ssn, 0x12);
}

#[test]
fn syscall_without_signatures_is_no_match() {
    let plain = vec![0x48u8, 0x83, 0xEC, 0x28, 0xC3];
    assert!(matches!(lookup_syscall(&plain, BASE), Err(JopcallError::NoByteMatch)));
    let mut no_op = stub(&[], [0x12, 0, 0, 0]);
    for b in no_op.iter_mut().skip(8) {
        *b = 0x90;
    }
    assert!(matches!(lookup_syscall(&no_op, BASE), Err(JopcallError::NoByteMatch)));
}

#[test]
fn syscall_stub_cut_short_is_invalid_address() {
    let s = vec![0x90u8, 0x4C, 0x8B, 0xD1, 0xB8, 0x12];
    assert!(matches!(lookup_syscall(&s, BASE), Err(JopcallError::InvalidAddress)));
}

#[test]
fn chain_of_six_gadgets_is_refused() {
    assert!(matches!(SyscallCount::checked(6, 0), Err(JopcallError::OverMaxGadgets)));
    let c = SyscallCount::checked(5, 10).unwrap();
    assert_eq!((c.0, c.1), (5, 10));
    let direct = SyscallCount::checked(0, 4).unwrap();
    assert_eq!((direct.0, direct.1), (0, 4));
}

#[test]
fn module_names_are_transliterated() {
    assert_eq!(module_name_key(&utf16("NTDLL.DLL")), Some(b"ntdll.dll".to_vec()));
    assert_eq!(module_name_key(&utf16("my module.dll")), Some(b"my".to_vec()));
    assert_eq!(module_name_key(&utf16("caf\u{e9}.dll")), Some(b"caf".to_vec()));
    assert_eq!(module_name_key(&utf16(&"a".repeat(254))), Some(vec![b'a'; 254]));
    assert_eq!(module_name_key(&utf16(&"a".repeat(255))), None);
}

#[test]
fn module_lookup_by_identifier() {
    let mods = vec![
        ModuleRecord { name: utf16("app.exe"), base: 0x1000 },
        ModuleRecord { name: utf16(&"x".repeat(300)), base: 0x1800 },
        ModuleRecord { name: utf16("NTDLL.DLL"), base: 0x2000 },
        ModuleRecord { name: utf16("KERNEL32.DLL"), base: 0x3000 },
    ];
    let ntdll = default_hasher("ntdll.dll");
    assert_eq!(get_dll_base_address(&DefaultEngine, &mods, ntdll).unwrap(), 0x2000);
    let k32 = default_hasher("kernel32.dll");
    assert_eq!(get_dll_base_address(&DefaultEngine, &mods, k32).unwrap(), 0x3000);
    let missing = default_hasher("user32.dll");
    assert!(matches!(
        get_dll_base_address(&DefaultEngine, &mods, missing),
        Err(JopcallError::ModuleNotFound)
    ));
}

/// An engine that adds one to the built-in identifier.
struct ShiftedEngine;

impl HashEngine for ShiftedEngine {
    fn spec_hash(&self, _text: vstd::seq::Seq<u8>) -> u128 {
        unreachable!()
    }

    fn hash_bytes(&self, text: &[u8]) -> u128 {
        DefaultEngine.hash_bytes(text).wrapping_add(1)
    }
}

#[test]
fn resolution_follows_the_engine() {
    let mods = vec![ModuleRecord { name: utf16("ntdll.dll"), base: 0x2000 }];
    let baked = default_hasher("ntdll.dll");
    let shifted = ShiftedEngine.hash_bytes(b"ntdll.dll");
    assert_ne!(shifted, baked);
    assert_eq!(get_dll_base_address(&ShiftedEngine, &mods, shifted).unwrap(), 0x2000);
    assert!(matches!(
        get_dll_base_address(&ShiftedEngine, &mods, baked),
        Err(JopcallError::ModuleNotFound)
    ));
    let img = export_image();
    let close = ShiftedEngine.hash_bytes(b"NtClose");
    assert_eq!(get_function_pointer(&ShiftedEngine, &img, BASE, close).unwrap(), BASE + 0x500);
    assert!(matches!(
        get_function_pointer(&ShiftedEngine, &img, BASE, default_hasher("NtClose")),
        Err(JopcallError::FunctionNotFound)
    ));
}
