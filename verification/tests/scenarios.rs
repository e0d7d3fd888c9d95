//! End-to-end scenarios over small handcrafted ABC files.

use xabc_parser::abc::AbcReader;
use xabc_parser::error::AbcError;

fn write_u32_at(v: &mut Vec<u8>, at: usize, x: u32) {
    let b = x.to_le_bytes();
    v[at] = b[0];
    v[at + 1] = b[1];
    v[at + 2] = b[2];
    v[at + 3] = b[3];
}

fn push_u16(v: &mut Vec<u8>, x: u16) {
    v.extend_from_slice(&x.to_le_bytes());
}

fn push_u32(v: &mut Vec<u8>, x: u32) {
    v.extend_from_slice(&x.to_le_bytes());
}

/// Appends an ASCII string-pool entry and returns its offset.
fn push_pool_string(v: &mut Vec<u8>, s: &str) -> u32 {
    let at = v.len() as u32;
    let l = (s.len() as u8) << 1 | 1;
    v.push(l);
    v.extend_from_slice(s.as_bytes());
    v.push(0);
    at
}

/// A header-only buffer with every count zero.
fn empty_file() -> Vec<u8> {
    let mut v = vec![0u8; 60];
    v[0] = b'P';
    v[1] = b'A';
    v[2] = b'N';
    v[3] = b'D';
    v[4] = b'A';
    write_u32_at(&mut v, 16, 60); // file_size
    v
}

/// One class `Lfoo/Bar;` with one method `baz` whose code is `code`,
/// optionally with an MSL table over `msl_extra` (the sentinel `u32::MAX`
/// stands for the literal-array offset) and a literal array.
fn one_class_file(code: &[u8], msl_extra: &[u32], literal_items: Option<&[u8]>) -> Vec<u8> {
    let mut v = vec![0u8; 60];
    v[0] = b'P';
    v[1] = b'A';
    v[2] = b'N';
    v[3] = b'D';
    v[4] = b'A';
    let class_idx_off = v.len() as u32;
    push_u32(&mut v, 0); // patched below: class offset
    let baz_off = push_pool_string(&mut v, "baz");
    let class_off = v.len() as u32;
    push_pool_string(&mut v, "Lfoo/Bar;"); // class name, inline
    push_u32(&mut v, 0); // superclass offset: none
    v.push(0); // access flags
    v.push(0); // num fields
    v.push(1); // num methods
    v.push(0); // class data: end
    let _method_off = v.len() as u32;
    push_u16(&mut v, 0); // class_idx
    push_u16(&mut v, 0); // proto_idx
    push_u32(&mut v, baz_off); // name_off
    v.push(0); // access flags
    v.push(0x01); // method tag: code
    let code_off_pos = v.len();
    push_u32(&mut v, 0); // patched below: code offset
    v.push(0); // method data: end
    let code_off = v.len() as u32;
    write_u32_at(&mut v, code_off_pos, code_off);
    v.push(0); // num_regs
    v.push(0); // num_args
    v.push(code.len() as u8); // code_size
    v.push(0); // tries_size
    v.extend_from_slice(code);
    let mut literal_array_off: u32 = 0;
    if let Some(items) = literal_items {
        literal_array_off = v.len() as u32;
        v.extend_from_slice(items);
    }
    let msl_off = v.len() as u32;
    for x in msl_extra {
        let val = if *x == u32::MAX { literal_array_off } else { *x };
        push_u32(&mut v, val);
    }
    let lit_idx_off = v.len() as u32;
    if literal_items.is_some() {
        push_u32(&mut v, literal_array_off);
    }
    let region_off = v.len() as u32;
    push_u32(&mut v, 0); // start_off
    let end_pos = v.len();
    push_u32(&mut v, 0); // end_off: patched below
    push_u32(&mut v, 0); // class_idx_size
    push_u32(&mut v, 0); // class_idx_off
    push_u32(&mut v, msl_extra.len() as u32);
    push_u32(&mut v, msl_off);
    push_u32(&mut v, 0); // field_idx_size
    push_u32(&mut v, 0); // field_idx_off
    push_u32(&mut v, 0); // proto_idx_size
    push_u32(&mut v, 0); // proto_idx_off
    let file_size = v.len() as u32;
    write_u32_at(&mut v, end_pos, region_off); // region covers [0, region_off)
    write_u32_at(&mut v, 16, file_size);
    write_u32_at(&mut v, 28, 1); // num_classes
    write_u32_at(&mut v, 32, class_idx_off);
    if literal_items.is_some() {
        write_u32_at(&mut v, 44, 1); // num_literalarrays
        write_u32_at(&mut v, 48, lit_idx_off);
    }
    write_u32_at(&mut v, 52, 1); // region_size
    write_u32_at(&mut v, 56, region_off);
    write_u32_at(&mut v, class_idx_off as usize, class_off);
    v
}

#[test]
fn empty_file_model() {
    let file = AbcReader::from_vec(empty_file()).unwrap();
    assert_eq!(file.header.num_classes, 0);
    assert_eq!(file.header.region_size, 0);
    assert_eq!(file.header.num_literalarrays, 0);
    assert_eq!(file.header.file_size, 60);
    assert_eq!(file.header.magic, *b"PANDA\0\0\0");
    assert!(file.get_class_names().is_empty());
    assert!(file.get_method_names().unwrap().is_empty());
    assert!(file.get_strings().is_empty());
}

#[test]
fn one_class_one_method() {
    let file = AbcReader::from_vec(one_class_file(&[0x65], &[], None)).unwrap();
    assert_eq!(file.get_class_names(), vec!["Lfoo/Bar;".to_string()]);
    assert_eq!(
        file.get_method_names().unwrap(),
        vec!["Lfoo/Bar;->baz".to_string()]
    );
    let lines = file.parse_method("Lfoo/Bar;->baz".to_string()).unwrap();
    assert_eq!(lines.len(), 1);
    assert!(lines[0].contains("returnundefined"));
}

#[test]
fn string_pool_resolution() {
    // lda.str @0000: opcode 0x3E then a 16-bit index into the MSL table.
    // Append the pool string "hello" at the end and point the MSL slot at
    // it; the string needs no region of its own.
    let mut v = one_class_file(&[0x3e, 0x00, 0x00], &[0], None);
    let hello_off = v.len() as u32;
    // appending after the region section keeps all other offsets valid, but
    // the region span must still cover the method; the string itself needs
    // no region.
    let l = (5u8) << 1 | 1;
    v.push(l);
    v.extend_from_slice(b"hello");
    v.push(0);
    // patch file_size and the MSL slot (the last u32 before the literal
    // index / region section): find it by reconstruction instead.
    let file_size = v.len() as u32;
    write_u32_at(&mut v, 16, file_size);
    let region_off = u32::from_le_bytes([v[56], v[57], v[58], v[59]]) as usize;
    let msl_off = u32::from_le_bytes([
        v[region_off + 20],
        v[region_off + 21],
        v[region_off + 22],
        v[region_off + 23],
    ]) as usize;
    write_u32_at(&mut v, msl_off, hello_off);
    let file = AbcReader::from_vec(v).unwrap();
    let lines = file.parse_method("Lfoo/Bar;->baz".to_string()).unwrap();
    assert_eq!(lines.len(), 1);
    assert!(lines[0].contains("lda.str"));
    assert!(lines[0].contains("\"hello\""));
}

#[test]
fn foreign_class_resolution() {
    // A file whose single class-index entry points into the foreign region.
    let mut v = vec![0u8; 60];
    v[0] = b'P';
    v[1] = b'A';
    v[2] = b'N';
    v[3] = b'D';
    v[4] = b'A';
    let class_idx_off = v.len() as u32;
    push_u32(&mut v, 0);
    let foreign_off = v.len() as u32;
    push_pool_string(&mut v, "Lstd/core/String;");
    let foreign_end = v.len() as u32;
    let file_size = v.len() as u32;
    write_u32_at(&mut v, 16, file_size);
    write_u32_at(&mut v, 20, foreign_off);
    write_u32_at(&mut v, 24, foreign_end - foreign_off);
    write_u32_at(&mut v, 28, 1);
    write_u32_at(&mut v, 32, class_idx_off);
    write_u32_at(&mut v, class_idx_off as usize, foreign_off);
    let file = AbcReader::from_vec(v).unwrap();
    assert!(file.get_class_names().is_empty());
    assert_eq!(file.foreign_classes().len(), 1);
    let ft = file.parse_field_type(foreign_off).unwrap();
    assert_eq!(ft.name, "Lstd/core/String;".to_string());
}

#[test]
fn primitive_field_types() {
    let file = AbcReader::from_vec(empty_file()).unwrap();
    assert_eq!(file.parse_field_type(0).unwrap().name, "u1".to_string());
    assert_eq!(file.parse_field_type(5).unwrap().name, "i32".to_string());
    assert_eq!(file.parse_field_type(0xb).unwrap().name, "any".to_string());
}

#[test]
fn literal_array_rendering() {
    // createarraywithbuffer: opcode 0x06, a reserved byte, then a 16-bit
    // index into the MSL table resolving to a literal array.
    // The array: count 3, then bool 1, i32 0x2A, str "x".
    // The string "x" sits right after the array payload.
    let mut items: Vec<u8> = Vec::new();
    items.extend_from_slice(&3u32.to_le_bytes());
    items.push(0x01); // bool
    items.push(1);
    items.push(0x02); // integer
    items.extend_from_slice(&0x2Au32.to_le_bytes());
    items.push(0x05); // string: offset patched after assembly
    let str_pos = items.len();
    items.extend_from_slice(&0u32.to_le_bytes());
    let mut v = one_class_file(&[0x06, 0x00, 0x00, 0x00], &[u32::MAX], Some(&items));
    // Append the pool string "x" and patch the literal element.
    let x_off = v.len() as u32;
    v.push(1 << 1 | 1);
    v.push(b'x');
    v.push(0);
    let file_size = v.len() as u32;
    write_u32_at(&mut v, 16, file_size);
    let lit_idx_off = u32::from_le_bytes([v[48], v[49], v[50], v[51]]) as usize;
    let array_off = u32::from_le_bytes([
        v[lit_idx_off],
        v[lit_idx_off + 1],
        v[lit_idx_off + 2],
        v[lit_idx_off + 3],
    ]) as usize;
    write_u32_at(&mut v, array_off + str_pos, x_off);
    let file = AbcReader::from_vec(v).unwrap();
    let lines = file.parse_method("Lfoo/Bar;->baz".to_string()).unwrap();
    assert_eq!(lines.len(), 1);
    assert!(lines[0].contains("createarraywithbuffer"));
    assert!(
        lines[0].contains("{ bool: 1, i32: 0x2A, str: \"x\",  }"),
        "line was: {}",
        lines[0]
    );
}

#[test]
fn prefixed_opcode_then_ordinary() {
    // FE 07 00 is throw.ifsupernotcorrectcall +0; the byte after it decodes
    // as an ordinary opcode.
    let file = AbcReader::from_vec(one_class_file(&[0xfe, 0x07, 0x00, 0x65], &[], None)).unwrap();
    let lines = file.parse_method("Lfoo/Bar;->baz".to_string()).unwrap();
    assert_eq!(lines.len(), 2);
    assert!(lines[0].contains("throw.ifsupernotcorrectcall"));
    assert!(lines[0].contains("+0"));
    assert!(lines[1].contains("returnundefined"));
}

#[test]
fn unknown_opcode_is_fatal() {
    let file = AbcReader::from_vec(one_class_file(&[0xff], &[], None)).unwrap();
    let r = file.parse_method("Lfoo/Bar;->baz".to_string());
    assert_eq!(r.unwrap_err(), AbcError::UnknownOpcode);
}

#[test]
fn missing_method_is_invalid_reference() {
    let file = AbcReader::from_vec(one_class_file(&[0x65], &[], None)).unwrap();
    assert_eq!(
        file.parse_method("Lfoo/Bar;->nope".to_string()).unwrap_err(),
        AbcError::InvalidMethodReference
    );
    assert_eq!(
        file.parse_method("no-arrow-here".to_string()).unwrap_err(),
        AbcError::InvalidMethodReference
    );
}

#[test]
fn bad_magic_is_malformed_header() {
    let mut v = empty_file();
    v[0] = b'X';
    assert_eq!(
        AbcReader::from_vec(v).unwrap_err(),
        AbcError::MalformedHeader
    );
    assert_eq!(
        AbcReader::from_vec(vec![0u8; 10]).unwrap_err(),
        AbcError::MalformedHeader
    );
}

#[test]
fn header_bounds_are_checked() {
    // foreign region past file_size is rejected.
    let mut v = empty_file();
    write_u32_at(&mut v, 20, 40); // foreign_off
    write_u32_at(&mut v, 24, 40); // foreign_size: 40 + 40 > 60
    assert_eq!(
        AbcReader::from_vec(v).unwrap_err(),
        AbcError::MalformedHeader
    );
}

#[test]
fn overlapping_regions_are_rejected() {
    // Two identical regions overlap, so construction fails.
    let mut v = vec![0u8; 60];
    v[0] = b'P';
    v[1] = b'A';
    v[2] = b'N';
    v[3] = b'D';
    v[4] = b'A';
    let region_off = v.len() as u32;
    for _ in 0..2 {
        push_u32(&mut v, 0); // start
        push_u32(&mut v, 60); // end
        for _ in 0..8 {
            push_u32(&mut v, 0);
        }
    }
    let file_size = v.len() as u32;
    write_u32_at(&mut v, 16, file_size);
    write_u32_at(&mut v, 52, 2);
    write_u32_at(&mut v, 56, region_off);
    assert_eq!(
        AbcReader::from_vec(v).unwrap_err(),
        AbcError::MalformedHeader
    );
}

#[test]
fn strings_query_skips_methods_and_arrays() {
    // An MSL table with one entry that is a real pool string.
    let mut v = one_class_file(&[0x65], &[0], None);
    let salut_off = v.len() as u32;
    v.push(5 << 1 | 1);
    v.extend_from_slice(b"salut");
    v.push(0);
    let file_size = v.len() as u32;
    write_u32_at(&mut v, 16, file_size);
    let region_off = u32::from_le_bytes([v[56], v[57], v[58], v[59]]) as usize;
    let msl_off = u32::from_le_bytes([
        v[region_off + 20],
        v[region_off + 21],
        v[region_off + 22],
        v[region_off + 23],
    ]) as usize;
    write_u32_at(&mut v, msl_off, salut_off);
    let file = AbcReader::from_vec(v).unwrap();
    assert_eq!(file.get_strings(), vec!["salut".to_string()]);
}
