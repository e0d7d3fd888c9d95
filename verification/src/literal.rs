//! The literal-array pool.  Each array is a `u32` element count followed by
//! `(tag, payload)` pairs; the renderer turns every array into one line of
//! text.  Values that the core cannot carry as text, such as typed-array
//! payloads, only advance the cursor; a floating-point literal is shown as
//! its raw bit pattern in hexadecimal.

use vstd::prelude::*;
use vstd::string::StringExecFns;

use crate::cursor::{read_u16, read_u32, read_u32_be, read_u64_be, read_u8, u16_at, u32_at,
    u32_be_at, u64_be_at};
use crate::error::AbcError;
use crate::method::{get_method_sign, method_sign_err, method_sign_fits, method_sign_text};
use crate::region::{region_find, find_region, Region};
use crate::render::{dec_str, dec_u64, hex_str, hex_u64};
use crate::strings::{string_err_at, string_fits, string_text, ABCString};

verus! {

/// The kind of one literal-array element.
#[allow(non_camel_case_types)]
#[derive(Clone, Copy, Debug, PartialEq, Eq, Structural)]
pub enum LiteralTag {
    TAG_VALUE,
    BOOL,
    INTEGER,
    FLOAT,
    DOUBLE,
    STRING,
    METHOD,
    GENERATORMETHOD,
    ACCESSOR,
    METHODAFFILIATE,
    ARRAY_U1,
    ARRAY_U8,
    ARRAY_I8,
    ARRAY_U16,
    ARRAY_I16,
    ARRAY_U32,
    ARRAY_I32,
    ARRAY_U64,
    ARRAY_I64,
    ARRAY_F32,
    ARRAY_F64,
    ARRAY_STRING,
    ASYNC_GENERATOR_METHOD,
    LITERAL_BUFFER_INDEX,
    LITERAL_ARRAY,
    BUILTIN_TYPE_INDEX,
    GETTER,
    SETTER,
    NULL_VALUE,
    UNKNOWN,
}

/// The tag a byte value denotes.
pub open spec fn spec_literal_tag(value: u8) -> LiteralTag {
    if value == 0x00 {
        LiteralTag::TAG_VALUE
    } else if value == 0x01 {
        LiteralTag::BOOL
    } else if value == 0x02 {
        LiteralTag::INTEGER
    } else if value == 0x03 {
        LiteralTag::FLOAT
    } else if value == 0x04 {
        LiteralTag::DOUBLE
    } else if value == 0x05 {
        LiteralTag::STRING
    } else if value == 0x06 {
        LiteralTag::METHOD
    } else if value == 0x07 {
        LiteralTag::GENERATORMETHOD
    } else if value == 0x08 {
        LiteralTag::ACCESSOR
    } else if value == 0x09 {
        LiteralTag::METHODAFFILIATE
    } else if value == 0x0a {
        LiteralTag::ARRAY_U1
    } else if value == 0x0b {
        LiteralTag::ARRAY_U8
    } else if value == 0x0c {
        LiteralTag::ARRAY_I8
    } else if value == 0x0d {
        LiteralTag::ARRAY_U16
    } else if value == 0x0e {
        LiteralTag::ARRAY_I16
    } else if value == 0x0f {
        LiteralTag::ARRAY_U32
    } else if value == 0x10 {
        LiteralTag::ARRAY_I32
    } else if value == 0x11 {
        LiteralTag::ARRAY_U64
    } else if value == 0x12 {
        LiteralTag::ARRAY_I64
    } else if value == 0x13 {
        LiteralTag::ARRAY_F32
    } else if value == 0x14 {
        LiteralTag::ARRAY_F64
    } else if value == 0x15 {
        LiteralTag::ARRAY_STRING
    } else if value == 0x16 {
        LiteralTag::ASYNC_GENERATOR_METHOD
    } else if value == 0x17 {
        LiteralTag::LITERAL_BUFFER_INDEX
    } else if value == 0x18 {
        LiteralTag::LITERAL_ARRAY
    } else if value == 0x19 {
        LiteralTag::BUILTIN_TYPE_INDEX
    } else if value == 0x1a {
        LiteralTag::GETTER
    } else if value == 0x1b {
        LiteralTag::SETTER
    } else if value == 0xff {
        LiteralTag::NULL_VALUE
    } else {
        LiteralTag::UNKNOWN
    }
}

impl LiteralTag {
    /// The tag a byte value denotes.
    pub fn from_u8(value: u8) -> (r: LiteralTag)
        ensures
            r == spec_literal_tag(value),
    {
        match value {
            0x00 => LiteralTag::TAG_VALUE,
            0x01 => LiteralTag::BOOL,
            0x02 => LiteralTag::INTEGER,
            0x03 => LiteralTag::FLOAT,
            0x04 => LiteralTag::DOUBLE,
            0x05 => LiteralTag::STRING,
            0x06 => LiteralTag::METHOD,
            0x07 => LiteralTag::GENERATORMETHOD,
            0x08 => LiteralTag::ACCESSOR,
            0x09 => LiteralTag::METHODAFFILIATE,
            0x0a => LiteralTag::ARRAY_U1,
            0x0b => LiteralTag::ARRAY_U8,
            0x0c => LiteralTag::ARRAY_I8,
            0x0d => LiteralTag::ARRAY_U16,
            0x0e => LiteralTag::ARRAY_I16,
            0x0f => LiteralTag::ARRAY_U32,
            0x10 => LiteralTag::ARRAY_I32,
            0x11 => LiteralTag::ARRAY_U64,
            0x12 => LiteralTag::ARRAY_I64,
            0x13 => LiteralTag::ARRAY_F32,
            0x14 => LiteralTag::ARRAY_F64,
            0x15 => LiteralTag::ARRAY_STRING,
            0x16 => LiteralTag::ASYNC_GENERATOR_METHOD,
            0x17 => LiteralTag::LITERAL_BUFFER_INDEX,
            0x18 => LiteralTag::LITERAL_ARRAY,
            0x19 => LiteralTag::BUILTIN_TYPE_INDEX,
            0x1a => LiteralTag::GETTER,
            0x1b => LiteralTag::SETTER,
            0xff => LiteralTag::NULL_VALUE,
            _ => LiteralTag::UNKNOWN,
        }
    }
}

/// Prefixes `t` to the text of a successful render.
pub open spec fn lit_prepend(t: Seq<char>, r: Result<(int, Seq<char>), AbcError>) -> Result<
    (int, Seq<char>),
    AbcError,
> {
    match r {
        Ok(p) => Ok((p.0, t + p.1)),
        Err(e) => Err(e),
    }
}

proof fn lemma_lit_prepend_assoc(a: Seq<char>, b: Seq<char>, r: Result<(int, Seq<char>), AbcError>)
    ensures
        lit_prepend(a, lit_prepend(b, r)) == lit_prepend(a + b, r),
{
    match r {
        Ok(p) => {
            assert(a + (b + p.1) =~= (a + b) + p.1);
        },
        Err(_) => {},
    }
}

proof fn lemma_lit_prepend_empty(r: Result<(int, Seq<char>), AbcError>)
    ensures
        lit_prepend(Seq::<char>::empty(), r) == r,
{
    match r {
        Ok(p) => {
            assert(Seq::<char>::empty() + p.1 =~= p.1);
        },
        Err(_) => {},
    }
}

/// The payload size in bytes of a known literal tag.
pub open spec fn lit_payload_len(tag: LiteralTag) -> int {
    if tag == LiteralTag::TAG_VALUE || tag == LiteralTag::NULL_VALUE || tag
        == LiteralTag::BUILTIN_TYPE_INDEX || tag == LiteralTag::BOOL || tag
        == LiteralTag::ACCESSOR {
        1
    } else if tag == LiteralTag::METHODAFFILIATE {
        2
    } else if tag == LiteralTag::DOUBLE || tag == LiteralTag::ARRAY_F64 {
        8
    } else {
        4
    }
}

/// Whether the element's cross-reference, if it has one, resolves.
pub open spec fn lit_deref_ok(buf: Seq<u8>, region: Region, tag: LiteralTag, p: int) -> bool {
    if tag == LiteralTag::STRING {
        string_fits(buf, u32_at(buf, p) as int)
    } else if tag == LiteralTag::METHOD {
        method_sign_fits(buf, u32_at(buf, p) as int, region)
    } else {
        true
    }
}

/// The error a failed cross-reference reports.
pub open spec fn lit_deref_err(buf: Seq<u8>, region: Region, tag: LiteralTag, p: int) -> AbcError {
    if tag == LiteralTag::STRING {
        string_err_at(buf, u32_at(buf, p) as int)
    } else {
        method_sign_err(buf, u32_at(buf, p) as int, region)
    }
}

/// The rendered text of one element whose payload starts at `p`.  Elements
/// that are only skipped render as empty text; a floating-point value shows
/// its raw bits in hexadecimal.
pub open spec fn lit_text(buf: Seq<u8>, region: Region, tag: LiteralTag, p: int) -> Seq<char> {
    if tag == LiteralTag::BOOL {
        "bool: "@ + dec_str(buf[p] as nat) + ", "@
    } else if tag == LiteralTag::INTEGER {
        "i32: 0x"@ + hex_str(u32_at(buf, p)) + ", "@
    } else if tag == LiteralTag::FLOAT {
        "f32: 0x"@ + hex_str(u32_be_at(buf, p)) + ", "@
    } else if tag == LiteralTag::DOUBLE {
        "f64: 0x"@ + hex_str(u64_be_at(buf, p)) + ", "@
    } else if tag == LiteralTag::STRING {
        "str: \""@ + string_text(buf, u32_at(buf, p) as int) + "\", "@
    } else if tag == LiteralTag::METHOD {
        "Method: "@ + method_sign_text(buf, u32_at(buf, p) as int, region) + ", "@
    } else if tag == LiteralTag::GENERATORMETHOD {
        "GeneratorMethod: "@ + dec_str(u32_at(buf, p)) + ", "@
    } else if tag == LiteralTag::ACCESSOR {
        "Accessor: "@ + dec_str(buf[p] as nat) + ", "@
    } else if tag == LiteralTag::METHODAFFILIATE {
        "MethodAffiliate: "@ + dec_str(u16_at(buf, p)) + ", "@
    } else if tag == LiteralTag::GETTER {
        "Getter: 0x"@ + hex_str(u32_at(buf, p)) + ", "@
    } else {
        Seq::<char>::empty()
    }
}

/// One literal element decoded at `off`: the offset after its payload, its
/// rendered text, and whether an unknown tag ended the array early.
pub open spec fn lit_item(buf: Seq<u8>, region: Region, off: int) -> Result<
    (int, Seq<char>, bool),
    AbcError,
> {
    if off < 0 || off >= buf.len() {
        Err(AbcError::OutOfBounds)
    } else {
        let tag = spec_literal_tag(buf[off]);
        let p = off + 1;
        if tag == LiteralTag::UNKNOWN {
            Ok((p, Seq::<char>::empty(), true))
        } else if p + lit_payload_len(tag) > buf.len() {
            Err(AbcError::OutOfBounds)
        } else if !lit_deref_ok(buf, region, tag, p) {
            Err(lit_deref_err(buf, region, tag, p))
        } else {
            Ok((p + lit_payload_len(tag), lit_text(buf, region, tag, p), false))
        }
    }
}

/// The rendered text of `n` literal elements starting at `off`, and the end
/// offset of the walk.  An unknown tag ends the array early; a read past
/// the end of the buffer or a dangling string or method reference is an
/// error.
pub open spec fn lit_render(buf: Seq<u8>, region: Region, off: int, n: nat) -> Result<
    (int, Seq<char>),
    AbcError,
>
    decreases n,
{
    if n == 0 {
        Ok((off, Seq::<char>::empty()))
    } else {
        match lit_item(buf, region, off) {
            Err(e) => Err(e),
            Ok(t) => if t.2 {
                Ok((t.0, t.1))
            } else {
                lit_prepend(t.1, lit_render(buf, region, t.0, (n - 1) as nat))
            },
        }
    }
}

/// The rendered text of the whole literal array at `off`: a `u32` element
/// count, then the elements.
pub open spec fn lit_array_text(buf: Seq<u8>, region: Region, off: int) -> Result<
    Seq<char>,
    AbcError,
> {
    if off < 0 || off + 4 > buf.len() {
        Err(AbcError::OutOfBounds)
    } else {
        match lit_render(buf, region, off + 4, u32_at(buf, off)) {
            Ok(p) => Ok(p.1),
            Err(e) => Err(e),
        }
    }
}

/// Handles one literal element whose tag byte is at `cur`: returns the
/// element's rendered text, the offset after its payload, and whether an
/// unknown tag ended the array.
#[verifier::rlimit(100)]
#[verifier::spinoff_prover]
fn lit_step(source: &[u8], region: &Region, cur: usize) -> (r: Result<
    (String, usize, bool),
    AbcError,
>)
    requires
        cur <= source@.len(),
    ensures
        r matches Ok(t) ==> cur < t.1 <= source@.len() && lit_item(source@, *region, cur as int)
            == Ok::<(int, Seq<char>, bool), AbcError>((t.1 as int, t.0@, t.2)),
        r matches Err(e) ==> lit_item(source@, *region, cur as int) == Err::<
            (int, Seq<char>, bool),
            AbcError,
        >(e),
{
    let len = source.len();
    let tag_value = match read_u8(source, cur) {
        Ok(v) => v,
        Err(e) => {
            return Err(e);
        },
    };
    let p = cur + 1;
    let tag = LiteralTag::from_u8(tag_value);
    match tag {
        LiteralTag::TAG_VALUE | LiteralTag::NULL_VALUE | LiteralTag::BUILTIN_TYPE_INDEX => {
            if len - p < 1 {
                return Err(AbcError::OutOfBounds);
            }
            Ok((String::new(), p + 1, false))
        },
        LiteralTag::BOOL => {
            let data = match read_u8(source, p) {
                Ok(v) => v,
                Err(e) => {
                    return Err(e);
                },
            };
            let mut item = String::from_str("bool: ");
            let txt = dec_u64(data as u64);
            item.append(txt.as_str());
            item.append(", ");
            assert(item@ =~= "bool: "@ + dec_str(data as nat) + ", "@);
            Ok((item, p + 1, false))
        },
        LiteralTag::INTEGER => {
            let data = match read_u32(source, p) {
                Ok(v) => v,
                Err(e) => {
                    return Err(e);
                },
            };
            let mut item = String::from_str("i32: 0x");
            let txt = hex_u64(data as u64);
            item.append(txt.as_str());
            item.append(", ");
            assert(item@ =~= "i32: 0x"@ + hex_str(data as nat) + ", "@);
            Ok((item, p + 4, false))
        },
        LiteralTag::FLOAT => {
            let data = match read_u32_be(source, p) {
                Ok(v) => v,
                Err(e) => {
                    return Err(e);
                },
            };
            let mut item = String::from_str("f32: 0x");
            let txt = hex_u64(data as u64);
            item.append(txt.as_str());
            item.append(", ");
            assert(item@ =~= "f32: 0x"@ + hex_str(data as nat) + ", "@);
            Ok((item, p + 4, false))
        },
        LiteralTag::DOUBLE => {
            let data = match read_u64_be(source, p) {
                Ok(v) => v,
                Err(e) => {
                    return Err(e);
                },
            };
            let mut item = String::from_str("f64: 0x");
            let txt = hex_u64(data);
            item.append(txt.as_str());
            item.append(", ");
            assert(item@ =~= "f64: 0x"@ + hex_str(data as nat) + ", "@);
            Ok((item, p + 8, false))
        },
        LiteralTag::STRING => {
            let string_off = match read_u32(source, p) {
                Ok(v) => v,
                Err(e) => {
                    return Err(e);
                },
            };
            let s = match ABCString::read(source, string_off as usize) {
                Ok(s) => s,
                Err(e) => {
                    return Err(e);
                },
            };
            let mut item = String::from_str("str: \"");
            let txt = s.str();
            item.append(txt.as_str());
            item.append("\", ");
            assert(item@ =~= "str: \""@ + string_text(source@, string_off as int) + "\", "@);
            Ok((item, p + 4, false))
        },
        LiteralTag::METHOD => {
            let method_off = match read_u32(source, p) {
                Ok(v) => v,
                Err(e) => {
                    return Err(e);
                },
            };
            let sign = match get_method_sign(source, method_off as usize, region) {
                Ok(s) => s,
                Err(e) => {
                    return Err(e);
                },
            };
            let mut item = String::from_str("Method: ");
            item.append(sign.as_str());
            item.append(", ");
            assert(item@ =~= "Method: "@ + method_sign_text(source@, method_off as int, *region)
                + ", "@);
            Ok((item, p + 4, false))
        },
        LiteralTag::GENERATORMETHOD => {
            let data = match read_u32(source, p) {
                Ok(v) => v,
                Err(e) => {
                    return Err(e);
                },
            };
            let mut item = String::from_str("GeneratorMethod: ");
            let txt = dec_u64(data as u64);
            item.append(txt.as_str());
            item.append(", ");
            assert(item@ =~= "GeneratorMethod: "@ + dec_str(data as nat) + ", "@);
            Ok((item, p + 4, false))
        },
        LiteralTag::ACCESSOR => {
            let data = match read_u8(source, p) {
                Ok(v) => v,
                Err(e) => {
                    return Err(e);
                },
            };
            let mut item = String::from_str("Accessor: ");
            let txt = dec_u64(data as u64);
            item.append(txt.as_str());
            item.append(", ");
            assert(item@ =~= "Accessor: "@ + dec_str(data as nat) + ", "@);
            Ok((item, p + 1, false))
        },
        LiteralTag::METHODAFFILIATE => {
            let data = match read_u16(source, p) {
                Ok(v) => v,
                Err(e) => {
                    return Err(e);
                },
            };
            let mut item = String::from_str("MethodAffiliate: ");
            let txt = dec_u64(data as u64);
            item.append(txt.as_str());
            item.append(", ");
            assert(item@ =~= "MethodAffiliate: "@ + dec_str(data as nat) + ", "@);
            Ok((item, p + 2, false))
        },
        LiteralTag::GETTER => {
            let data = match read_u32(source, p) {
                Ok(v) => v,
                Err(e) => {
                    return Err(e);
                },
            };
            let mut item = String::from_str("Getter: 0x");
            let txt = hex_u64(data as u64);
            item.append(txt.as_str());
            item.append(", ");
            assert(item@ =~= "Getter: 0x"@ + hex_str(data as nat) + ", "@);
            Ok((item, p + 4, false))
        },
        LiteralTag::ARRAY_F64 => {
            if len - p < 8 {
                return Err(AbcError::OutOfBounds);
            }
            Ok((String::new(), p + 8, false))
        },
        LiteralTag::UNKNOWN => Ok((String::new(), p, true)),
        _ => {
            if len - p < 4 {
                return Err(AbcError::OutOfBounds);
            }
            Ok((String::new(), p + 4, false))
        },
    }
}

/// Renders the literal array at `offset` into one line of text, resolving
/// method references through `region`.
pub fn parse_literal_array(source: &[u8], offset: usize, region: &Region) -> (r: Result<
    String,
    AbcError,
>)
    ensures
        r is Ok <==> lit_array_text(source@, *region, offset as int) is Ok,
        r matches Ok(s) ==> lit_array_text(source@, *region, offset as int) == Ok::<
            Seq<char>,
            AbcError,
        >(s@),
        r matches Err(e) ==> lit_array_text(source@, *region, offset as int) == Err::<
            Seq<char>,
            AbcError,
        >(e),
{
    let len = source.len();
    let num_literals = match read_u32(source, offset) {
        Ok(v) => v,
        Err(e) => {
            return Err(e);
        },
    };
    let start = offset + 4;
    let mut result = String::new();
    let mut cur = start;
    let mut counter: u32 = 0;
    proof {
        lemma_lit_prepend_empty(lit_render(source@, *region, start as int, num_literals as nat));
    }
    loop
        invariant
            0 <= counter <= num_literals,
            len == source@.len(),
            cur <= len,
            num_literals == u32_at(source@, offset as int),
            offset + 4 == start <= len,
            lit_render(source@, *region, start as int, num_literals as nat) == lit_prepend(
                result@,
                lit_render(source@, *region, cur as int, (num_literals - counter) as nat),
            ),
        decreases num_literals - counter,
    {
        if counter >= num_literals {
            assert(lit_render(source@, *region, cur as int, 0) == Ok::<(int, Seq<char>), AbcError>(
                (cur as int, Seq::<char>::empty()),
            ));
            assert(result@ + Seq::<char>::empty() =~= result@);
            return Ok(result);
        }
        let ghost prev_text = result@;
        let step = match lit_step(source, region, cur) {
            Ok(t) => t,
            Err(e) => {
                return Err(e);
            },
        };
        if step.2 {
            assert(result@ + Seq::<char>::empty() =~= result@);
            return Ok(result);
        }
        proof {
            lemma_lit_prepend_assoc(
                prev_text,
                step.0@,
                lit_render(source@, *region, step.1 as int, (num_literals - counter - 1) as nat),
            );
        }
        result.append(step.0.as_str());
        assert(result@ =~= prev_text + step.0@);
        cur = step.1;
        counter = counter + 1;
    }
}

/// The pool entry produced for the literal array at `a_off`: none when no
/// region contains it or its rendering fails, else its offset and text.
pub open spec fn lit_array_at(buf: Seq<u8>, regions: Seq<Region>, a_off: int) -> Option<
    (int, Seq<char>),
> {
    match region_find(regions, a_off) {
        None => None,
        Some(i) => match lit_array_text(buf, regions[i], a_off) {
            Ok(t) => Some((a_off, t)),
            Err(_) => None,
        },
    }
}

/// The pool entries produced by the first `n` slots of the literal-array
/// index at `idx_off`, in slot order.
pub open spec fn lit_index_entries(buf: Seq<u8>, regions: Seq<Region>, idx_off: int, n: nat) -> Seq<
    (int, Seq<char>),
>
    decreases n,
{
    if n == 0 {
        Seq::<(int, Seq<char>)>::empty()
    } else {
        let prev = lit_index_entries(buf, regions, idx_off, (n - 1) as nat);
        match lit_array_at(buf, regions, u32_at(buf, idx_off + 4 * (n - 1)) as int) {
            None => prev,
            Some(e) => prev.push(e),
        }
    }
}

/// Slot `k` of the built pool equals entry `k` of the expected entries.
pub open spec fn lit_entry_ok(v: Seq<(usize, String)>, e: Seq<(int, Seq<char>)>, k: int) -> bool {
    &&& v[k].0 == e[k].0
    &&& v[k].1@ == e[k].1
}

/// The built pool matches the expected entries slot for slot.
pub open spec fn lit_entries_ok(v: Seq<(usize, String)>, e: Seq<(int, Seq<char>)>) -> bool {
    &&& v.len() == e.len()
    &&& forall|k: int| 0 <= k < v.len() ==> #[trigger] lit_entry_ok(v, e, k)
}

/// Builds the literal-array pool: for each of the `num_literals` index
/// slots, reads the array offset, finds its region, and renders the array.
/// Arrays with no region and arrays that fail to render are skipped.
pub fn parse_literal_array_index(
    source: &[u8],
    offset: u32,
    num_literals: u32,
    regions: &Vec<Region>,
) -> (r: Result<Vec<(usize, String)>, AbcError>)
    ensures
        r is Ok <==> num_literals == 0 || offset + 4 * num_literals <= source@.len(),
        r matches Ok(v) ==> lit_entries_ok(
            v@,
            lit_index_entries(source@, regions@, offset as int, num_literals as nat),
        ),
        r matches Err(e) ==> e == AbcError::OutOfBounds,
{
    let len = source.len();
    if num_literals > 0 {
        let need: u64 = offset as u64 + 4 * (num_literals as u64);
        if need > len as u64 {
            return Err(AbcError::OutOfBounds);
        }
    }
    let mut map: Vec<(usize, String)> = Vec::new();
    let mut k: u32 = 0;
    while k < num_literals
        invariant
            0 <= k <= num_literals,
            lit_entries_ok(
                map@,
                lit_index_entries(source@, regions@, offset as int, k as nat),
            ),
            len == source@.len(),
            num_literals > 0 ==> offset + 4 * num_literals <= len,
        decreases num_literals - k,
    {
        let off_k = offset as usize + 4 * (k as usize);
        let array_off = match read_u32(source, off_k) {
            Ok(v) => v,
            Err(_) => {
                return Err(AbcError::OutOfBounds);
            },
        };
        let ghost prev_map = map@;
        let ghost prev_entries = lit_index_entries(source@, regions@, offset as int, k as nat);
        match find_region(regions, array_off as usize) {
            None => {},
            Some(i) => {
                match parse_literal_array(source, array_off as usize, &regions[i]) {
                    Ok(text) => {
                        map.push((array_off as usize, text));
                    },
                    Err(_) => {},
                }
            },
        }
        k = k + 1;
        proof {
            let entries = lit_index_entries(source@, regions@, offset as int, k as nat);
            assert forall|j: int| 0 <= j < map@.len() implies #[trigger] lit_entry_ok(
                map@,
                entries,
                j,
            ) by {
                if j < prev_map.len() {
                    assert(lit_entry_ok(prev_map, prev_entries, j));
                    assert(map@[j] == prev_map[j]);
                    assert(entries[j] == prev_entries[j]);
                }
            }
        }
    }
    Ok(map)
}

} // verus!
