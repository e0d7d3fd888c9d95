//! Unit tests for the byte-level primitives, the LEB128 codec, the text
//! renderers, the access flags, the string reader and the opcode tables.

use xabc_parser::bytecode::BytecodeParser;
use xabc_parser::cursor::{read_u16, read_u16_be, read_u32, read_u32_be, read_u64, read_u8};
use xabc_parser::error::AbcError;
use xabc_parser::flags::{ClassAccessFlags, FieldAccessFlag, MethodAccessFlags};
use xabc_parser::leb128::{encode_uleb128, read_sleb128, read_uleb128};
use xabc_parser::literal::LiteralTag;
use xabc_parser::render::{dec_u64, hex_pad, hex_u64};
use xabc_parser::strings::ABCString;

#[test]
fn fixed_width_reads() {
    let b = [0x01u8, 0x02, 0x03, 0x04, 0x05, 0x06, 0x07, 0x08];
    assert_eq!(read_u8(&b, 0).unwrap(), 0x01);
    assert_eq!(read_u16(&b, 0).unwrap(), 0x0201);
    assert_eq!(read_u16_be(&b, 0).unwrap(), 0x0102);
    assert_eq!(read_u32(&b, 0).unwrap(), 0x04030201);
    assert_eq!(read_u32_be(&b, 0).unwrap(), 0x01020304);
    assert_eq!(read_u64(&b, 0).unwrap(), 0x0807060504030201);
    assert_eq!(read_u32(&b, 5).unwrap_err(), AbcError::OutOfBounds);
}

#[test]
fn uleb128_round_trip() {
    let samples: [u64; 8] = [0, 1, 127, 128, 300, 16383, 0x1234_5678_9abc_def0, u64::MAX];
    for v in samples {
        let enc = encode_uleb128(v);
        assert!(enc.len() <= 10);
        let (decoded, used) = read_uleb128(&enc, 0).unwrap();
        assert_eq!(decoded, v);
        assert_eq!(used, enc.len());
    }
}

#[test]
fn uleb128_errors() {
    // Ten continuation bytes without a terminator.
    let bad = [0x80u8; 10];
    assert_eq!(read_uleb128(&bad, 0).unwrap_err(), AbcError::InvalidLeb128);
    // The buffer ends before the terminator.
    let short = [0x80u8, 0x80];
    assert_eq!(read_uleb128(&short, 0).unwrap_err(), AbcError::OutOfBounds);
}

#[test]
fn sleb128_values() {
    // -1 encodes as 0x7f; -128 as 0x80 0x7f.
    assert_eq!(read_sleb128(&[0x7f], 0).unwrap(), (-1, 1));
    assert_eq!(read_sleb128(&[0x80, 0x7f], 0).unwrap(), (-128, 2));
    assert_eq!(read_sleb128(&[0x3f], 0).unwrap(), (63, 1));
}

#[test]
fn text_renderers() {
    assert_eq!(dec_u64(0), "0".to_string());
    assert_eq!(dec_u64(42), "42".to_string());
    assert_eq!(dec_u64(18446744073709551615), "18446744073709551615".to_string());
    assert_eq!(hex_u64(0x2a), "2A".to_string());
    assert_eq!(hex_pad(0x7, 2, true), "07".to_string());
    assert_eq!(hex_pad(0xfe07, 4, true), "FE07".to_string());
    assert_eq!(hex_pad(0x1, 4, false), "   1".to_string());
}

#[test]
fn access_flags() {
    assert_eq!(
        ClassAccessFlags::parse(0x0001 | 0x0400),
        vec!["Public".to_string(), "Abstract".to_string()]
    );
    assert_eq!(
        MethodAccessFlags::parse(0x0002 | 0x0008 | 0x1000),
        vec!["Private".to_string(), "Static".to_string(), "Synthetic".to_string()]
    );
    assert_eq!(
        FieldAccessFlag::parse(0x0001 | 0x4000),
        vec!["PUBLIC".to_string(), "ENUM".to_string()]
    );
    assert!(ClassAccessFlags::parse(0).is_empty());
}

#[test]
fn string_reader() {
    // "hi": length word (2 << 1) | 1, payload, NUL.
    let buf = [0x05u8, b'h', b'i', 0x00];
    let s = ABCString::read(&buf, 0).unwrap();
    assert_eq!(s.str(), "hi".to_string());
    assert_eq!(s.length(), 4);
    // Reading inside the encoding gives an error or an unrelated value.
    for k in 1..4 {
        match ABCString::read(&buf, k) {
            Ok(inner) => assert_ne!(inner.str(), "hi".to_string()),
            Err(e) => assert_eq!(e, AbcError::OutOfBounds),
        }
    }
    // Truncated: payload missing.
    let short = [0x05u8, b'h'];
    assert_eq!(ABCString::read(&short, 0).unwrap_err(), AbcError::OutOfBounds);
}

#[test]
fn string_reader_sentinel() {
    // An invalid UTF-8 payload decodes to the sentinel, not an error.
    let buf = [0x03u8, 0xff, 0x00];
    let s = ABCString::read(&buf, 0).unwrap();
    assert_eq!(s.str(), "-utf8-error-".to_string());
}

#[test]
fn literal_tags() {
    assert!(matches!(LiteralTag::from_u8(0x00), LiteralTag::TAG_VALUE));
    assert!(matches!(LiteralTag::from_u8(0x05), LiteralTag::STRING));
    assert!(matches!(LiteralTag::from_u8(0x1a), LiteralTag::GETTER));
    assert!(matches!(LiteralTag::from_u8(0xff), LiteralTag::NULL_VALUE));
    assert!(matches!(LiteralTag::from_u8(0xee), LiteralTag::UNKNOWN));
}

#[test]
fn opcode_table_lookups() {
    let p = BytecodeParser::new();
    let ret = p.get_opcode(0x65).unwrap();
    assert_eq!(ret.name, "returnundefined".to_string());
    assert_eq!(ret.get_size(), 1);
    let lda = p.get_opcode(0x3e).unwrap();
    assert_eq!(lda.name, "lda.str".to_string());
    assert_eq!(lda.get_size(), 3);
    let arr = p.get_opcode(0x06).unwrap();
    assert_eq!(arr.name, "createarraywithbuffer".to_string());
    assert_eq!(arr.get_size(), 4);
    let gt = p.get_opcode(0x13).unwrap();
    assert_eq!(gt.name, "greater".to_string());
    assert_eq!(gt.get_size(), 3);
    let gte = p.get_opcode(0x14).unwrap();
    assert_eq!(gte.name, "greatereq".to_string());
    assert_eq!(gte.get_size(), 3);
    assert!(p.get_opcode(0x88).is_none());
    assert!(p.get_opcode(0xff).is_none());
    let pref = p.get_prefix_opcode(0x07fe).unwrap();
    assert_eq!(pref.name, "throw.ifsupernotcorrectcall".to_string());
    assert_eq!(pref.get_size(), 3);
    assert!(p.get_prefix_opcode(0x99fe).is_none());
}

#[test]
fn format_sizes_include_the_opcode_byte() {
    // For every known ordinary opcode, the entry's total size is one byte
    // of opcode plus its operands, so it is always at least one.
    let p = BytecodeParser::new();
    for op in 0u16..=0xff {
        if let Some(f) = p.get_opcode(op) {
            assert!(f.get_size() >= 1);
            assert!(f.get_size() <= 11);
        }
    }
}
