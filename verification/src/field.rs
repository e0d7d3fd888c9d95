//! Field records: two 16-bit indices, a name offset, an access-flag word
//! and a tagged-value list.

use vstd::prelude::*;

use crate::cursor::{read_u16, read_u32, u16_at, u32_at};
use crate::error::AbcError;
use crate::flags::{field_flags_text, texts, FieldAccessFlag};
use crate::leb128::{has_uleb_at, read_uleb128, uleb_end_at, uleb_err_at, uleb_val_at};
use crate::tag_value::{field_data_end, parse_field_data};

verus! {

/// The end offset of the field record at `off`, or the error its decoding
/// reports.
pub open spec fn field_end(buf: Seq<u8>, off: int) -> Result<int, AbcError> {
    if off < 0 || off + 8 > buf.len() {
        Err(AbcError::OutOfBounds)
    } else if !has_uleb_at(buf, off + 8) {
        Err(uleb_err_at(buf, off + 8))
    } else {
        field_data_end(buf, uleb_end_at(buf, off + 8))
    }
}

/// One decoded field record.
#[derive(Debug)]
pub struct Field {
    /// Type index of the owning class in its region.
    pub class_idx: u16,
    /// Index of the field's type in the region's class sub-index.
    pub type_idx: u16,
    /// Offset of the field's name in the string pool.
    pub name_off: u32,
    /// Names of the access flags set on the field.
    pub access_flags: Vec<String>,
    /// Encoded size of the whole record in bytes.
    pub size: usize,
}

impl Field {
    /// The record's fields agree with the bytes at `off`.
    pub open spec fn parsed_from(&self, buf: Seq<u8>, off: int) -> bool {
        &&& self.class_idx == u16_at(buf, off)
        &&& self.type_idx == u16_at(buf, off + 2)
        &&& self.name_off == u32_at(buf, off + 4)
        &&& texts(self.access_flags@) == field_flags_text(uleb_val_at(buf, off + 8) as u64)
        &&& field_end(buf, off) == Ok::<int, AbcError>(off + self.size)
    }

    /// Reads the field record at `off` and reports its encoded size.
    pub fn read(buf: &[u8], off: usize) -> (r: Result<Field, AbcError>)
        ensures
            r is Ok <==> field_end(buf@, off as int) is Ok,
            r matches Ok(f) ==> f.parsed_from(buf@, off as int) && 0 < f.size && off + f.size
                <= buf@.len(),
            r matches Err(e) ==> field_end(buf@, off as int) == Err::<int, AbcError>(e),
    {
        if buf.len() < 8 || off > buf.len() - 8 {
            return Err(AbcError::OutOfBounds);
        }
        let class_idx = match read_u16(buf, off) {
            Ok(v) => v,
            Err(e) => {
                return Err(e);
            },
        };
        let type_idx = match read_u16(buf, off + 2) {
            Ok(v) => v,
            Err(e) => {
                return Err(e);
            },
        };
        let name_off = match read_u32(buf, off + 4) {
            Ok(v) => v,
            Err(e) => {
                return Err(e);
            },
        };
        let (af, n) = match read_uleb128(buf, off + 8) {
            Ok(p) => p,
            Err(e) => {
                return Err(e);
            },
        };
        let access_flags = FieldAccessFlag::parse(af);
        let data_off = off + 8 + n;
        let end = match parse_field_data(buf, data_off) {
            Ok(v) => v,
            Err(e) => {
                return Err(e);
            },
        };
        Ok(Field { class_idx, type_idx, name_off, access_flags, size: end - off })
    }
}

} // verus!
