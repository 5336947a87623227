//! The fallback strategy's computation on synthetically built images:
//! parsing, symbol search and address computation.

use jvm_getter::dispatch::collapse_outcome;
use jvm_getter::elf::BinaryImage;
use jvm_getter::fallback::{locate_module, resolve_in_file, resolve_in_image};
use jvm_getter::modules::{select_module, ModuleRecord};
use jvm_getter::reader::ByteAccumulator;
use jvm_getter::ResolveError;

fn put_u16_le(buf: &mut [u8], off: usize, v: u16) {
    buf[off] = v as u8;
    buf[off + 1] = (v >> 8) as u8;
}

fn put_u32_le(buf: &mut [u8], off: usize, v: u32) {
    for k in 0..4 {
        buf[off + k] = (v >> (8 * k)) as u8;
    }
}

fn put_u64_le(buf: &mut [u8], off: usize, v: u64) {
    for k in 0..8 {
        buf[off + k] = (v >> (8 * k)) as u8;
    }
}

fn put_u16_be(buf: &mut [u8], off: usize, v: u16) {
    buf[off] = (v >> 8) as u8;
    buf[off + 1] = v as u8;
}

fn put_u32_be(buf: &mut [u8], off: usize, v: u32) {
    for k in 0..4 {
        buf[off + k] = (v >> (8 * (3 - k))) as u8;
    }
}

/// Builds a minimal 64-bit little-endian image with the given symbols:
/// a header, a null section, one symbol-table section linked to one
/// string-table section.
fn make_image_64le(symbols: &[(&str, u64)]) -> Vec<u8> {
    let shoff = 64usize;
    let symtab_off = shoff + 3 * 64;
    let symtab_size = symbols.len() * 24;
    let strtab_off = symtab_off + symtab_size;
    let mut strtab: Vec<u8> = vec![0];
    let mut name_offsets = Vec::new();
    for (name, _) in symbols {
        name_offsets.push(strtab.len() as u32);
        strtab.extend_from_slice(name.as_bytes());
        strtab.push(0);
    }
    let total = strtab_off + strtab.len();
    let mut buf = vec![0u8; total];
    // identification and header
    buf[0] = 0x7f;
    buf[1] = b'E';
    buf[2] = b'L';
    buf[3] = b'F';
    buf[4] = 2; // 64-bit
    buf[5] = 1; // little-endian
    buf[6] = 1;
    put_u64_le(&mut buf, 0x28, shoff as u64);
    put_u16_le(&mut buf, 0x3a, 64);
    put_u16_le(&mut buf, 0x3c, 3);
    // section 1: the symbol table, linked to section 2
    let s1 = shoff + 64;
    put_u32_le(&mut buf, s1 + 4, 2);
    put_u64_le(&mut buf, s1 + 24, symtab_off as u64);
    put_u64_le(&mut buf, s1 + 32, symtab_size as u64);
    put_u32_le(&mut buf, s1 + 40, 2);
    put_u64_le(&mut buf, s1 + 56, 24);
    // section 2: the string table
    let s2 = shoff + 2 * 64;
    put_u32_le(&mut buf, s2 + 4, 3);
    put_u64_le(&mut buf, s2 + 24, strtab_off as u64);
    put_u64_le(&mut buf, s2 + 32, strtab.len() as u64);
    // symbol entries
    for (i, (_, value)) in symbols.iter().enumerate() {
        let base = symtab_off + i * 24;
        put_u32_le(&mut buf, base, name_offsets[i]);
        put_u64_le(&mut buf, base + 8, *value);
    }
    buf[strtab_off..strtab_off + strtab.len()].copy_from_slice(&strtab);
    buf
}

/// Builds a minimal 32-bit big-endian image with the given symbols.
fn make_image_32be(symbols: &[(&str, u32)]) -> Vec<u8> {
    let shoff = 52usize;
    let symtab_off = shoff + 3 * 40;
    let symtab_size = symbols.len() * 16;
    let strtab_off = symtab_off + symtab_size;
    let mut strtab: Vec<u8> = vec![0];
    let mut name_offsets = Vec::new();
    for (name, _) in symbols {
        name_offsets.push(strtab.len() as u32);
        strtab.extend_from_slice(name.as_bytes());
        strtab.push(0);
    }
    let total = strtab_off + strtab.len();
    let mut buf = vec![0u8; total];
    buf[0] = 0x7f;
    buf[1] = b'E';
    buf[2] = b'L';
    buf[3] = b'F';
    buf[4] = 1; // 32-bit
    buf[5] = 2; // big-endian
    buf[6] = 1;
    put_u32_be(&mut buf, 0x20, shoff as u32);
    put_u16_be(&mut buf, 0x2e, 40);
    put_u16_be(&mut buf, 0x30, 3);
    let s1 = shoff + 40;
    put_u32_be(&mut buf, s1 + 4, 2);
    put_u32_be(&mut buf, s1 + 16, symtab_off as u32);
    put_u32_be(&mut buf, s1 + 20, symtab_size as u32);
    put_u32_be(&mut buf, s1 + 24, 2);
    let s2 = shoff + 2 * 40;
    put_u32_be(&mut buf, s2 + 4, 3);
    put_u32_be(&mut buf, s2 + 16, strtab_off as u32);
    put_u32_be(&mut buf, s2 + 20, strtab.len() as u32);
    for (i, (_, value)) in symbols.iter().enumerate() {
        let base = symtab_off + i * 16;
        put_u32_be(&mut buf, base, name_offsets[i]);
        put_u32_be(&mut buf, base + 4, *value);
    }
    buf[strtab_off..strtab_off + strtab.len()].copy_from_slice(&strtab);
    buf
}

#[test]
fn symbol_address_is_bias_plus_value() {
    let image = make_image_64le(&[("TargetSymbol", 0x1234)]);
    let name = b"TargetSymbol".to_vec();
    let r = resolve_in_image(image, 0x7000_0000, &name);
    assert_eq!(r.unwrap().absolute_address, 0x7000_1234);
}

#[test]
fn symbol_address_in_32bit_big_endian_image() {
    let image = make_image_32be(&[("TargetSymbol", 0x440)]);
    let name = b"TargetSymbol".to_vec();
    let r = resolve_in_image(image, 0x10_0000, &name);
    assert_eq!(r.unwrap().absolute_address, 0x10_0440);
}

#[test]
fn missing_symbol_is_absent_not_an_error() {
    let image = make_image_64le(&[("SomeOtherEntry", 0x9999)]);
    let name = b"TargetSymbol".to_vec();
    let r = resolve_in_image(image, 0x7000_0000, &name);
    assert_eq!(r, Err(ResolveError::SymbolNotFound));
    assert_eq!(collapse_outcome(&r), None);
}

#[test]
fn first_of_equally_named_symbols_wins() {
    let image = make_image_64le(&[("Twice", 0x100), ("Twice", 0x200)]);
    let name = b"Twice".to_vec();
    let r = resolve_in_image(image, 0, &name);
    assert_eq!(r.unwrap().absolute_address, 0x100);
}

#[test]
fn name_prefix_does_not_match() {
    let image = make_image_64le(&[("Target", 1), ("TargetSymbolLonger", 2)]);
    let name = b"TargetSymbol".to_vec();
    let r = resolve_in_image(image, 0, &name);
    assert_eq!(r, Err(ResolveError::SymbolNotFound));
}

#[test]
fn random_bytes_fail_header_validation() {
    // A deterministic pseudo-random buffer that does not start with the magic.
    let mut junk = vec![0u8; 512];
    let mut x: u32 = 0x12345678;
    for b in junk.iter_mut() {
        x = x.wrapping_mul(1664525).wrapping_add(1013904223);
        *b = (x >> 24) as u8;
    }
    assert_ne!(&junk[0..4], &[0x7f, b'E', b'L', b'F']);
    assert!(BinaryImage::parse(junk.clone()).is_err());
    let name = b"TargetSymbol".to_vec();
    let r = resolve_in_file(Some(junk), 0x7000_0000, &name);
    assert_eq!(r, Err(ResolveError::MalformedImage));
    assert_eq!(collapse_outcome(&r), None);
}

#[test]
fn truncated_header_is_malformed() {
    let image = make_image_64le(&[("TargetSymbol", 0x1234)]);
    let truncated = image[..40].to_vec();
    assert!(BinaryImage::parse(truncated).is_err());
}

#[test]
fn bad_class_byte_is_malformed() {
    let mut image = make_image_64le(&[("TargetSymbol", 0x1234)]);
    image[4] = 9;
    assert!(BinaryImage::parse(image).is_err());
}

#[test]
fn section_table_past_end_is_malformed() {
    let mut image = make_image_64le(&[("TargetSymbol", 0x1234)]);
    let len = image.len() as u64;
    // Point the section-header table past the end of the buffer.
    put_u64_le(&mut image, 0x28, len);
    assert!(BinaryImage::parse(image).is_err());
}

#[test]
fn image_without_sections_has_no_symbols() {
    let mut image = make_image_64le(&[("TargetSymbol", 0x1234)]);
    put_u16_le(&mut image, 0x3c, 0);
    let img = BinaryImage::parse(image).unwrap();
    assert_eq!(img.symbol_count(), 0);
    let name = b"TargetSymbol".to_vec();
    assert!(img.find_symbol(&name).is_none());
}

#[test]
fn no_matching_module_is_module_not_found() {
    let modules = vec![ModuleRecord {
        load_bias: 0x1000,
        reported_path: b"/system/lib64/libc.so".to_vec(),
    }];
    let property: Vec<u8> = Vec::new();
    let r = locate_module(&modules, &property);
    assert_eq!(r, Err(ResolveError::ModuleNotFound));
}

#[test]
fn unreadable_file_aborts_the_strategy() {
    let name = b"TargetSymbol".to_vec();
    let r = resolve_in_file(None, 0x7000_0000, &name);
    assert_eq!(r, Err(ResolveError::Unreadable));
    assert_eq!(collapse_outcome(&r), None);
}

#[test]
fn address_overflow_is_malformed() {
    let image = make_image_64le(&[("TargetSymbol", 2)]);
    let name = b"TargetSymbol".to_vec();
    let r = resolve_in_image(image, u64::MAX - 1, &name);
    assert_eq!(r, Err(ResolveError::MalformedImage));
}

#[test]
fn full_fallback_chain_on_synthetic_data() {
    // Property empty, so the default filename is used; the second module
    // matches; its file arrives in short reads; the symbol is found and the
    // address is the load bias plus the value offset.
    let file = make_image_64le(&[("JNI_GetCreatedJavaVMs", 0x440)]);
    let modules = vec![
        ModuleRecord { load_bias: 0x1000, reported_path: b"/system/lib64/libc.so".to_vec() },
        ModuleRecord {
            load_bias: 0x7100_0000,
            reported_path: b"/apex/com.android.art/lib64/libart.so".to_vec(),
        },
    ];
    let property: Vec<u8> = Vec::new();
    let scan = select_module(&modules, &property);
    assert_eq!(scan.matched, Some(1));
    let matched = locate_module(&modules, &property).unwrap();
    assert_eq!(matched.index, 1);
    let bias = matched.load_bias;
    assert_eq!(bias, 0x7100_0000);
    let mut acc = ByteAccumulator::new(file.len());
    let mut pos = 0usize;
    while acc.wants_more() {
        let step = acc.remaining().min(13);
        acc.push_chunk(&file[pos..pos + step].to_vec());
        pos += step;
    }
    let bytes = acc.into_bytes();
    let name = b"JNI_GetCreatedJavaVMs".to_vec();
    let r = resolve_in_file(Some(bytes), bias, &name);
    assert_eq!(r.unwrap().absolute_address, 0x7100_0440);
}

#[test]
fn parse_exposes_the_symbol_table() {
    let image = make_image_64le(&[("Alpha", 1), ("Beta", 2), ("Gamma", 3)]);
    let img = BinaryImage::parse(image).unwrap();
    assert_eq!(img.symbol_count(), 3);
    let beta = img.find_symbol(&b"Beta".to_vec()).unwrap();
    assert_eq!(beta.value_offset, 2);
}
