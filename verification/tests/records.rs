//! Unit tests for the record parsers and the decoder loop.

use xabc_parser::bytecode::BytecodeParser;
use xabc_parser::class::Class;
use xabc_parser::code::Code;
use xabc_parser::error::AbcError;
use xabc_parser::field::Field;
use xabc_parser::method::Method;
use xabc_parser::region::{ClassRegionIndex, FieldRegionIndex, MethodStringLiteralRegionIndex,
    ProtoRegionIndex, Region, RegionHeader};
use xabc_parser::tag_value::{parse_class_data, parse_field_data, parse_method_data};

fn empty_region() -> Region {
    Region::new(
        RegionHeader {
            start_off: 0,
            end_off: 0,
            class_idx_size: 0,
            class_idx_off: 0,
            method_string_literal_region_idx_size: 0,
            method_string_literal_region_idx_off: 0,
            field_idx_size: 0,
            field_idx_off: 0,
            proto_idx_size: 0,
            proto_idx_off: 0,
        },
        ClassRegionIndex { offsets: Vec::new() },
        MethodStringLiteralRegionIndex { offsets: Vec::new() },
        FieldRegionIndex { offsets: Vec::new() },
        ProtoRegionIndex { offsets: Vec::new() },
    )
}

#[test]
fn class_data_unknown_tag_is_fatal() {
    assert_eq!(parse_class_data(&[0xaa], 0).unwrap_err(), AbcError::MalformedClassData);
    assert_eq!(parse_class_data(&[0x01, 0x00], 0).unwrap(), 2);
    assert_eq!(parse_class_data(&[0x02, 0x07, 0x00], 0).unwrap(), 3);
    assert_eq!(parse_class_data(&[], 0).unwrap_err(), AbcError::OutOfBounds);
}

#[test]
fn field_data_unknown_tag_is_fatal() {
    assert_eq!(parse_field_data(&[0xaa], 0).unwrap_err(), AbcError::MalformedFieldData);
    // An SLEB128 integer value is skipped.
    assert_eq!(parse_field_data(&[0x01, 0x7f, 0x00], 0).unwrap(), 3);
    assert_eq!(parse_field_data(&[0x02, 1, 2, 3, 4, 0x00], 0).unwrap(), 6);
}

#[test]
fn method_data_unknown_tag_is_fatal() {
    assert_eq!(parse_method_data(&[0x0a], 0).unwrap_err(), AbcError::MalformedMethodData);
    let (end, md) = parse_method_data(&[0x01, 0x44, 0x33, 0x22, 0x11, 0x00], 0).unwrap();
    assert_eq!(end, 6);
    assert_eq!(md.code_off, 0x11223344);
}

#[test]
fn field_record_layout() {
    // class_idx 1, type_idx 2, name_off 0x10, flags 0, empty data list.
    let buf = [1, 0, 2, 0, 0x10, 0, 0, 0, 0, 0x00];
    let f = Field::read(&buf, 0).unwrap();
    assert_eq!(f.class_idx, 1);
    assert_eq!(f.type_idx, 2);
    assert_eq!(f.name_off, 0x10);
    assert_eq!(f.size, 10);
}

#[test]
fn method_record_layout() {
    // class_idx 0, proto_idx 0, name_off 0x20, flags 8, code tag.
    let buf = [0, 0, 0, 0, 0x20, 0, 0, 0, 8, 0x01, 0x99, 0, 0, 0, 0x00];
    let m = Method::read(&buf, 0).unwrap();
    assert_eq!(m.name_off, 0x20);
    assert_eq!(m.access_flags, vec!["Static".to_string()]);
    assert_eq!(m.method_data.code_off, 0x99);
    assert_eq!(m.size, 15);
}

#[test]
fn class_record_truncated_is_an_error() {
    assert!(Class::read(&[0x03, b'x', 0x00], 0).is_err());
}

#[test]
fn code_record_layout() {
    // 2 regs, 1 arg, 2 code bytes, no tries.
    let buf = [2, 1, 2, 0, 0x00, 0x01];
    let c = Code::read(&buf, 0).unwrap();
    assert_eq!(c.num_regs, 2);
    assert_eq!(c.num_args, 1);
    assert_eq!(c.code_size, 2);
    assert_eq!(c.tries_size, 0);
    assert_eq!(c.instructions, vec![0x00, 0x01]);
}

#[test]
fn decoder_consumes_the_whole_buffer() {
    // ldundefined then ldnull: two one-byte instructions.
    let buf = [0, 0, 2, 0, 0x00, 0x01];
    let code = Code::read(&buf, 0).unwrap();
    let region = empty_region();
    let parser = BytecodeParser::new();
    let (lines, end) = parser
        .disassemble(&code, &region, &buf, &Vec::new())
        .unwrap();
    assert_eq!(end, 2);
    assert_eq!(lines.len(), 2);
    assert!(lines[0].contains("ldundefined"));
    assert!(lines[1].contains("ldnull"));
}

#[test]
fn lone_prefix_byte_is_out_of_bounds() {
    // A single 0xFE cannot carry its secondary byte.
    let buf = [0, 0, 1, 0, 0xfe];
    let code = Code::read(&buf, 0).unwrap();
    let region = empty_region();
    let parser = BytecodeParser::new();
    let r = parser.disassemble(&code, &region, &buf, &Vec::new());
    assert_eq!(r.unwrap_err(), AbcError::OutOfBounds);
}

#[test]
fn region_span_membership() {
    let mut region = empty_region();
    region.header.start_off = 10;
    region.header.end_off = 20;
    assert!(!region.is_here(9));
    assert!(region.is_here(10));
    assert!(region.is_here(19));
    assert!(!region.is_here(20));
}
