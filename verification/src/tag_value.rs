//! Tagged-value lists.  A class, field or method record ends with a stream
//! of `(tag, payload)` pairs terminated by tag 0x00; the payload layout
//! depends on the tag and on which kind of record the list belongs to.  The
//! spec functions here give the exact end offset of each list, and the exec
//! walkers mirror them.

use vstd::prelude::*;

use crate::cursor::{read_u32, u32_at};
use crate::error::AbcError;
use crate::leb128::{has_uleb_at, read_sleb128, uleb_end_at, uleb_err_at};

verus! {

/// One raw tagged value, kept as the tag byte and its payload bytes.
#[derive(Debug, Clone)]
pub struct TaggedValue {
    /// The tag byte.
    pub tag_value: u8,
    /// The payload bytes, whose length depends on the tag.
    pub data: Vec<u8>,
}

/// A tagged value inside a class record's data list.
#[derive(Debug, Clone)]
pub struct ClassTaggedValue {
    /// The tag byte.
    pub tag_value: u8,
    /// The payload bytes, whose length depends on the tag.
    pub data: Vec<u8>,
}

/// The end offset (one past the 0x00 terminator) of the class tagged-value
/// list starting at `off`.  Known tags: 0x01 interfaces (no payload), 0x02
/// source language (one byte), 0x03 to 0x07 offsets (four bytes); anything
/// else is `MalformedClassData`.
pub open spec fn class_data_end(buf: Seq<u8>, off: int) -> Result<int, AbcError>
    decreases buf.len() - off,
{
    if off < 0 || off >= buf.len() {
        Err(AbcError::OutOfBounds)
    } else if buf[off] == 0x00 {
        Ok(off + 1)
    } else if buf[off] == 0x01 {
        class_data_end(buf, off + 1)
    } else if buf[off] == 0x02 {
        if off + 2 <= buf.len() {
            class_data_end(buf, off + 2)
        } else {
            Err(AbcError::OutOfBounds)
        }
    } else if 0x03 <= buf[off] <= 0x07 {
        if off + 5 <= buf.len() {
            class_data_end(buf, off + 5)
        } else {
            Err(AbcError::OutOfBounds)
        }
    } else {
        Err(AbcError::MalformedClassData)
    }
}

/// The end offset of the field tagged-value list starting at `off`.  Known
/// tags: 0x01 an SLEB128 integer value, 0x02 to 0x06 offsets (four bytes);
/// anything else is `MalformedFieldData`.
pub open spec fn field_data_end(buf: Seq<u8>, off: int) -> Result<int, AbcError>
    decreases buf.len() - off,
{
    if off < 0 || off >= buf.len() {
        Err(AbcError::OutOfBounds)
    } else if buf[off] == 0x00 {
        Ok(off + 1)
    } else if buf[off] == 0x01 {
        if has_uleb_at(buf, off + 1) {
            field_data_end(buf, uleb_end_at(buf, off + 1))
        } else {
            Err(uleb_err_at(buf, off + 1))
        }
    } else if 0x02 <= buf[off] <= 0x06 {
        if off + 5 <= buf.len() {
            field_data_end(buf, off + 5)
        } else {
            Err(AbcError::OutOfBounds)
        }
    } else {
        Err(AbcError::MalformedFieldData)
    }
}

/// The offsets a method's tagged-value list retains, by tag.
#[derive(Debug, Clone, PartialEq, Eq, Structural)]
pub struct MethodData {
    /// Tag 0x01: offset of the method's `Code` record.
    pub code_off: u32,
    /// Tag 0x02: the source language byte.
    pub source_lang: u8,
    /// Tag 0x03.
    pub runtime_annotation_off: u32,
    /// Tag 0x04.
    pub runtime_param_annotation_off: u32,
    /// Tag 0x05.
    pub debug_info_off: u32,
    /// Tag 0x06.
    pub annotation_off: u32,
    /// Tag 0x07.
    pub param_annotation_off: u32,
    /// Tag 0x08.
    pub type_annotation_off: u32,
    /// Tag 0x09.
    pub runtime_type_annotation_off: u32,
}

impl MethodData {
    /// All offsets zero: what a method without tags carries.
    pub open spec fn spec_empty() -> MethodData {
        MethodData {
            code_off: 0,
            source_lang: 0,
            runtime_annotation_off: 0,
            runtime_param_annotation_off: 0,
            debug_info_off: 0,
            annotation_off: 0,
            param_annotation_off: 0,
            type_annotation_off: 0,
            runtime_type_annotation_off: 0,
        }
    }

    /// All offsets zero: what a method without tags carries.
    pub fn empty() -> (r: MethodData)
        ensures
            r == MethodData::spec_empty(),
    {
        MethodData {
            code_off: 0,
            source_lang: 0,
            runtime_annotation_off: 0,
            runtime_param_annotation_off: 0,
            debug_info_off: 0,
            annotation_off: 0,
            param_annotation_off: 0,
            type_annotation_off: 0,
            runtime_type_annotation_off: 0,
        }
    }
}

/// The end offset and the retained offsets of the method tagged-value list
/// starting at `off`, accumulated over `acc`.  Known tags: 0x01 the code
/// offset, 0x02 the source language byte, 0x03 to 0x09 offsets (four bytes
/// each); anything else is `MalformedMethodData`.
pub open spec fn method_data_r(buf: Seq<u8>, off: int, acc: MethodData) -> Result<
    (int, MethodData),
    AbcError,
>
    decreases buf.len() - off,
{
    if off < 0 || off >= buf.len() {
        Err(AbcError::OutOfBounds)
    } else if buf[off] == 0x00 {
        Ok((off + 1, acc))
    } else if buf[off] == 0x01 {
        if off + 5 <= buf.len() {
            method_data_r(
                buf,
                off + 5,
                MethodData { code_off: u32_at(buf, off + 1) as u32, ..acc },
            )
        } else {
            Err(AbcError::OutOfBounds)
        }
    } else if buf[off] == 0x02 {
        if off + 2 <= buf.len() {
            method_data_r(buf, off + 2, MethodData { source_lang: buf[off + 1], ..acc })
        } else {
            Err(AbcError::OutOfBounds)
        }
    } else if 0x03 <= buf[off] <= 0x09 {
        if off + 5 <= buf.len() {
            let v = u32_at(buf, off + 1) as u32;
            method_data_r(
                buf,
                off + 5,
                if buf[off] == 0x03 {
                    MethodData { runtime_annotation_off: v, ..acc }
                } else if buf[off] == 0x04 {
                    MethodData { runtime_param_annotation_off: v, ..acc }
                } else if buf[off] == 0x05 {
                    MethodData { debug_info_off: v, ..acc }
                } else if buf[off] == 0x06 {
                    MethodData { annotation_off: v, ..acc }
                } else if buf[off] == 0x07 {
                    MethodData { param_annotation_off: v, ..acc }
                } else if buf[off] == 0x08 {
                    MethodData { type_annotation_off: v, ..acc }
                } else {
                    MethodData { runtime_type_annotation_off: v, ..acc }
                },
            )
        } else {
            Err(AbcError::OutOfBounds)
        }
    } else {
        Err(AbcError::MalformedMethodData)
    }
}

/// Walks the class tagged-value list at `off` and returns the offset one
/// past its terminator.
pub fn parse_class_data(buf: &[u8], off: usize) -> (r: Result<usize, AbcError>)
    ensures
        r matches Ok(end) ==> class_data_end(buf@, off as int) == Ok::<int, AbcError>(end as int)
            && off < end <= buf@.len(),
        r matches Err(e) ==> class_data_end(buf@, off as int) == Err::<int, AbcError>(e),
{
    let len = buf.len();
    if off >= len {
        return Err(AbcError::OutOfBounds);
    }
    let mut cur = off;
    loop
        invariant
            off <= cur <= len,
            len == buf@.len(),
            class_data_end(buf@, off as int) == class_data_end(buf@, cur as int),
        decreases len - cur,
    {
        if cur >= len {
            return Err(AbcError::OutOfBounds);
        }
        let tag = buf[cur];
        if tag == 0x00 {
            return Ok(cur + 1);
        } else if tag == 0x01 {
            cur = cur + 1;
        } else if tag == 0x02 {
            if len - cur < 2 {
                return Err(AbcError::OutOfBounds);
            }
            cur = cur + 2;
        } else if tag <= 0x07 {
            if len - cur < 5 {
                return Err(AbcError::OutOfBounds);
            }
            cur = cur + 5;
        } else {
            return Err(AbcError::MalformedClassData);
        }
    }
}

/// Walks the field tagged-value list at `off` and returns the offset one
/// past its terminator.
pub fn parse_field_data(buf: &[u8], off: usize) -> (r: Result<usize, AbcError>)
    ensures
        r matches Ok(end) ==> field_data_end(buf@, off as int) == Ok::<int, AbcError>(end as int)
            && off < end <= buf@.len(),
        r matches Err(e) ==> field_data_end(buf@, off as int) == Err::<int, AbcError>(e),
{
    let len = buf.len();
    if off >= len {
        return Err(AbcError::OutOfBounds);
    }
    let mut cur = off;
    loop
        invariant
            off <= cur <= len,
            len == buf@.len(),
            field_data_end(buf@, off as int) == field_data_end(buf@, cur as int),
        decreases len - cur,
    {
        if cur >= len {
            return Err(AbcError::OutOfBounds);
        }
        let tag = buf[cur];
        if tag == 0x00 {
            return Ok(cur + 1);
        } else if tag == 0x01 {
            match read_sleb128(buf, cur + 1) {
                Ok((_, n)) => {
                    cur = cur + 1 + n;
                },
                Err(e) => {
                    return Err(e);
                },
            }
        } else if tag <= 0x06 {
            if len - cur < 5 {
                return Err(AbcError::OutOfBounds);
            }
            cur = cur + 5;
        } else {
            return Err(AbcError::MalformedFieldData);
        }
    }
}

/// Walks the method tagged-value list at `off`; returns the offset one past
/// its terminator and the retained offsets.
pub fn parse_method_data(buf: &[u8], off: usize) -> (r: Result<(usize, MethodData), AbcError>)
    ensures
        r matches Ok(p) ==> method_data_r(buf@, off as int, MethodData::spec_empty()) == Ok::<
            (int, MethodData),
            AbcError,
        >((p.0 as int, p.1)) && off < p.0 <= buf@.len(),
        r matches Err(e) ==> method_data_r(buf@, off as int, MethodData::spec_empty()) == Err::<
            (int, MethodData),
            AbcError,
        >(e),
{
    let len = buf.len();
    if off >= len {
        return Err(AbcError::OutOfBounds);
    }
    let mut cur = off;
    let mut md = MethodData::empty();
    loop
        invariant
            off <= cur <= len,
            len == buf@.len(),
            method_data_r(buf@, off as int, MethodData::spec_empty()) == method_data_r(
                buf@,
                cur as int,
                md,
            ),
        decreases len - cur,
    {
        if cur >= len {
            return Err(AbcError::OutOfBounds);
        }
        let tag = buf[cur];
        if tag == 0x00 {
            return Ok((cur + 1, md));
        } else if tag == 0x01 {
            if len - cur < 5 {
                return Err(AbcError::OutOfBounds);
            }
            let v = match read_u32(buf, cur + 1) {
                Ok(v) => v,
                Err(e) => {
                    return Err(e);
                },
            };
            md = MethodData { code_off: v, ..md };
            cur = cur + 5;
        } else if tag == 0x02 {
            if len - cur < 2 {
                return Err(AbcError::OutOfBounds);
            }
            let v = buf[cur + 1];
            md = MethodData { source_lang: v, ..md };
            cur = cur + 2;
        } else if tag <= 0x09 {
            if len - cur < 5 {
                return Err(AbcError::OutOfBounds);
            }
            let v = match read_u32(buf, cur + 1) {
                Ok(v) => v,
                Err(e) => {
                    return Err(e);
                },
            };
            if tag == 0x03 {
                md = MethodData { runtime_annotation_off: v, ..md };
            } else if tag == 0x04 {
                md = MethodData { runtime_param_annotation_off: v, ..md };
            } else if tag == 0x05 {
                md = MethodData { debug_info_off: v, ..md };
            } else if tag == 0x06 {
                md = MethodData { annotation_off: v, ..md };
            } else if tag == 0x07 {
                md = MethodData { param_annotation_off: v, ..md };
            } else if tag == 0x08 {
                md = MethodData { type_annotation_off: v, ..md };
            } else {
                md = MethodData { runtime_type_annotation_off: v, ..md };
            }
            cur = cur + 5;
        } else {
            return Err(AbcError::MalformedMethodData);
        }
    }
}

} // verus!
