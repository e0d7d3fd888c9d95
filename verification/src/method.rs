//! Method records and method signatures.

use vstd::prelude::*;
use vstd::string::StringExecFns;

use crate::cursor::{read_u16, read_u32, u16_at, u32_at};
use crate::error::AbcError;
use crate::flags::{method_flags_text, texts, MethodAccessFlags};
use crate::leb128::{has_uleb_at, read_uleb128, uleb_end_at, uleb_err_at, uleb_val_at};
use crate::region::Region;
use crate::strings::{string_err_at, string_fits, string_text, ABCString};
use crate::tag_value::{method_data_r, parse_method_data, MethodData};

verus! {

/// The end offset and retained data of the method record at `off`, or the
/// error its decoding reports.
pub open spec fn method_end(buf: Seq<u8>, off: int) -> Result<(int, MethodData), AbcError> {
    if off < 0 || off + 8 > buf.len() {
        Err(AbcError::OutOfBounds)
    } else if !has_uleb_at(buf, off + 8) {
        Err(uleb_err_at(buf, off + 8))
    } else {
        method_data_r(buf, uleb_end_at(buf, off + 8), MethodData::spec_empty())
    }
}

/// One decoded method record.
#[derive(Debug)]
pub struct Method {
    /// Index of the owning class in the region's class sub-index.
    pub class_idx: u16,
    /// Index of the method's prototype (not decoded further).
    pub proto_idx: u16,
    /// Offset of the method's name in the string pool.
    pub name_off: u32,
    /// Names of the access flags set on the method.
    pub access_flags: Vec<String>,
    /// Encoded size of the whole record in bytes.
    pub size: usize,
    /// The offsets retained from the tagged-value list.
    pub method_data: MethodData,
}

impl Method {
    /// The record's fields agree with the bytes at `off`.
    pub open spec fn parsed_from(&self, buf: Seq<u8>, off: int) -> bool {
        &&& self.class_idx == u16_at(buf, off)
        &&& self.proto_idx == u16_at(buf, off + 2)
        &&& self.name_off == u32_at(buf, off + 4)
        &&& texts(self.access_flags@) == method_flags_text(uleb_val_at(buf, off + 8) as u64)
        &&& method_end(buf, off) == Ok::<(int, MethodData), AbcError>(
            (off + self.size, self.method_data),
        )
    }

    /// Reads the method record at `off` and reports its encoded size.
    pub fn read(buf: &[u8], off: usize) -> (r: Result<Method, AbcError>)
        ensures
            r is Ok <==> method_end(buf@, off as int) is Ok,
            r matches Ok(m) ==> m.parsed_from(buf@, off as int) && 0 < m.size && off + m.size
                <= buf@.len(),
            r matches Err(e) ==> method_end(buf@, off as int) == Err::<(int, MethodData), AbcError>(
                e,
            ),
    {
        if buf.len() < 8 || off > buf.len() - 8 {
            return Err(AbcError::OutOfBounds);
        }
        let class_idx = match read_u16(buf, off) {
            Ok(v) => v,
            Err(e) => {
                return Err(e);
            },
        };
        let proto_idx = match read_u16(buf, off + 2) {
            Ok(v) => v,
            Err(e) => {
                return Err(e);
            },
        };
        let name_off = match read_u32(buf, off + 4) {
            Ok(v) => v,
            Err(e) => {
                return Err(e);
            },
        };
        let (af, n) = match read_uleb128(buf, off + 8) {
            Ok(p) => p,
            Err(e) => {
                return Err(e);
            },
        };
        let access_flags = MethodAccessFlags::parse(af);
        let (end, method_data) = match parse_method_data(buf, off + 8 + n) {
            Ok(p) => p,
            Err(e) => {
                return Err(e);
            },
        };
        Ok(Method { class_idx, proto_idx, name_off, access_flags, size: end - off, method_data })
    }
}

/// The text of the method signature at `off`: the name of the owning class
/// from the region's class sub-index, then `->`, then the method's name
/// from the string pool.
pub open spec fn method_sign_text(buf: Seq<u8>, off: int, region: Region) -> Seq<char> {
    region.class_region_idx.offsets@[u16_at(buf, off) as int].name@ + "->"@ + string_text(
        buf,
        u32_at(buf, off + 4) as int,
    )
}

/// The signature at `off` can be resolved: the class index is inside the
/// region's class sub-index and the name offset holds a whole string.
pub open spec fn method_sign_fits(buf: Seq<u8>, off: int, region: Region) -> bool {
    &&& off + 8 <= buf.len()
    &&& u16_at(buf, off) < region.class_region_idx.offsets@.len()
    &&& string_fits(buf, u32_at(buf, off + 4) as int)
}

/// The error resolving the signature at `off` reports when it cannot be
/// resolved.
pub open spec fn method_sign_err(buf: Seq<u8>, off: int, region: Region) -> AbcError {
    if off + 8 > buf.len() {
        AbcError::OutOfBounds
    } else if u16_at(buf, off) >= region.class_region_idx.offsets@.len() {
        AbcError::OutOfBounds
    } else {
        string_err_at(buf, u32_at(buf, off + 4) as int)
    }
}

/// Builds the qualified signature `ClassName->methodName` of the method
/// record at `offset`, resolving the class through `region`.
pub fn get_method_sign(source: &[u8], offset: usize, region: &Region) -> (r: Result<
    String,
    AbcError,
>)
    ensures
        r is Ok <==> method_sign_fits(source@, offset as int, *region),
        r matches Ok(s) ==> s@ == method_sign_text(source@, offset as int, *region),
        r matches Err(e) ==> e == method_sign_err(source@, offset as int, *region),
{
    if source.len() < 8 || offset > source.len() - 8 {
        return Err(AbcError::OutOfBounds);
    }
    let class_idx = match read_u16(source, offset) {
        Ok(v) => v,
        Err(e) => {
            return Err(e);
        },
    };
    if (class_idx as usize) >= region.class_region_idx.offsets.len() {
        return Err(AbcError::OutOfBounds);
    }
    let class_name = region.get_class_name(class_idx as usize);
    let mut name = class_name.name.clone();
    name.append("->");
    let name_idx = match read_u32(source, offset + 4) {
        Ok(v) => v,
        Err(e) => {
            return Err(e);
        },
    };
    let method_name = match ABCString::read(source, name_idx as usize) {
        Ok(s) => s,
        Err(e) => {
            return Err(e);
        },
    };
    name.append(method_name.str().as_str());
    assert(name@ =~= method_sign_text(source@, offset as int, *region));
    Ok(name)
}

} // verus!
