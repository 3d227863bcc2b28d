use skidscan::{
    select_region, LoadedObject, MemoryRegion, ModuleSigScanError, ProgramHeader, Scanner, PT_LOAD,
};

const PT_DYNAMIC: u32 = 2;

fn header(p_type: u32, p_vaddr: usize, p_memsz: usize) -> ProgramHeader {
    ProgramHeader { p_type, p_vaddr, p_memsz }
}

fn object(path: &str, load_bias: usize, headers: Vec<ProgramHeader>) -> LoadedObject {
    LoadedObject { path: path.as_bytes().to_vec(), load_bias, headers }
}

fn loaded() -> Vec<LoadedObject> {
    vec![
        object("", 0x5000_0000, vec![header(PT_LOAD, 0x0, 0x2000)]),
        object("/usr/lib/libc.so.6", 0x7f00_0000, vec![header(PT_DYNAMIC, 0x10, 0x20), header(PT_LOAD, 0x1000, 0x8)]),
        object("/opt/game/libengine.so", 0x6000_0000, vec![header(PT_LOAD, 0x400, 0x10)]),
    ]
}

#[test]
fn for_module_keeps_the_name() {
    let s = Scanner::for_module("libengine.so").unwrap();
    assert_eq!(s.module_name(), "libengine.so");
}

#[test]
fn suffix_match_picks_first_loadable_segment() {
    let s = Scanner::for_module("libc.so.6").unwrap();
    assert_eq!(s.resolve(&loaded()), Ok(MemoryRegion { base: 0x7f00_1000, len: 0x8 }));
}

#[test]
fn first_object_with_matching_suffix_wins() {
    let mut objects = loaded();
    objects.push(object("/tmp/other/libengine.so", 0x1000_0000, vec![header(PT_LOAD, 0, 4)]));
    assert_eq!(select_region(&objects, b"libengine.so"), Ok(MemoryRegion { base: 0x6000_0400, len: 0x10 }));
}

#[test]
fn empty_name_selects_the_main_program() {
    assert_eq!(select_region(&loaded(), b""), Ok(MemoryRegion { base: 0x5000_0000, len: 0x2000 }));
}

#[test]
fn unloaded_module_is_invalid() {
    let s = Scanner::for_module("libmissing.so").unwrap();
    assert_eq!(s.resolve(&loaded()), Err(ModuleSigScanError::InvalidModule));
    assert_eq!(s.find(&loaded(), &[], &[Some(0x90)]), Err(ModuleSigScanError::InvalidModule));
}

#[test]
fn name_longer_than_path_does_not_match() {
    let objects = vec![object("a.so", 0x1000, vec![header(PT_LOAD, 0, 4)])];
    assert_eq!(select_region(&objects, b"/lib/a.so"), Err(ModuleSigScanError::InvalidModule));
}

#[test]
fn object_without_loadable_segment_is_invalid() {
    let objects = vec![object("/lib/libx.so", 0x1000, vec![header(PT_DYNAMIC, 0, 4)])];
    assert_eq!(select_region(&objects, b"libx.so"), Err(ModuleSigScanError::InvalidModule));
}

#[test]
fn negative_load_bias_wraps() {
    let objects = vec![object("/lib/liby.so", usize::MAX, vec![header(PT_LOAD, 0x1001, 0x10)])];
    assert_eq!(select_region(&objects, b"liby.so"), Ok(MemoryRegion { base: 0x1000, len: 0x10 }));
}

#[test]
fn segment_past_address_space_is_invalid() {
    let objects = vec![object("/lib/libz.so", usize::MAX - 4, vec![header(PT_LOAD, 0, 0x10)])];
    assert_eq!(select_region(&objects, b"libz.so"), Err(ModuleSigScanError::InvalidModule));
}

#[test]
fn find_returns_base_plus_offset() {
    let s = Scanner::for_module("libengine.so").unwrap();
    let memory = [0u8, 1, 2, 3, 4, 5, 6, 7, 8, 9, 10, 11, 12, 13, 14, 15];
    assert_eq!(s.find(&loaded(), &memory, &[Some(7), None, Some(9)]), Ok(0x6000_0407));
    assert_eq!(s.find(&loaded(), &memory, &[Some(0xFF)]), Err(ModuleSigScanError::NotFound));
    assert_eq!(s.find(&loaded(), &memory, &[None; 15]), Err(ModuleSigScanError::MultipleFound));
}

#[test]
fn find_with_signature_longer_than_region_is_not_found() {
    let s = Scanner::for_module("libc.so.6").unwrap();
    let memory = [0x90u8; 8];
    assert_eq!(s.find(&loaded(), &memory, &[None; 9]), Err(ModuleSigScanError::NotFound));
}

#[test]
fn empty_region_is_invalid() {
    let objects = vec![object("/lib/libe.so", 0x1000, vec![header(PT_LOAD, 0, 0)])];
    let s = Scanner::for_module("libe.so").unwrap();
    assert_eq!(s.find(&objects, &[], &[None]), Err(ModuleSigScanError::InvalidModule));
}

#[test]
fn region_at_null_is_invalid() {
    let objects = vec![object("/lib/libn.so", 0, vec![header(PT_LOAD, 0, 2)])];
    let s = Scanner::for_module("libn.so").unwrap();
    assert_eq!(s.find(&objects, &[1, 2], &[Some(1)]), Err(ModuleSigScanError::InvalidModule));
}

#[test]
fn region_construction_checks_the_address_space() {
    assert_eq!(MemoryRegion::new(0x1000, 0x20), Some(MemoryRegion { base: 0x1000, len: 0x20 }));
    assert_eq!(MemoryRegion::new(usize::MAX, 1), None);
    assert_eq!(MemoryRegion::from_image(0x40_0000, 0x1000).map(|r| (r.base(), r.len())), Ok((0x40_0000, 0x1000)));
    assert_eq!(MemoryRegion::from_image(usize::MAX - 1, 2), Err(ModuleSigScanError::InvalidModule));
}
