//! The file model: parsing order, ownership of the decoded artifacts, and
//! the query surface.  A file is parsed in phases — header, classes, region
//! index, literal arrays — and is read-only afterwards.

use vstd::prelude::*;
use vstd::string::StringExecFns;

use crate::bytecode::{disasm_r, lmap_find, lmap_get, BytecodeParser};
use crate::class::{class_end, Class, ForeignClass};
use crate::code::{code_end, code_instr, Code};
use crate::cursor::{read_u32, u32_at};
use crate::error::AbcError;
use crate::flags::texts;
use crate::header::{hdr_class_idx_off, hdr_file_size, hdr_foreign_off, hdr_foreign_size,
    hdr_literalarray_idx_off, hdr_num_classes, hdr_num_literalarrays, hdr_region_off,
    hdr_region_size, header_fits, Header};
use crate::literal::{lit_entries_ok, lit_index_entries, parse_literal_array_index};
use crate::region::{find_region, region_contains, region_find, regions_disjoint, regions_overlap,
    ClassRegionIndex, FieldRegionIndex, FieldType, MethodStringLiteralRegionIndex,
    ProtoRegionIndex, Region, RegionHeader};
use crate::strings::{string_err_at, string_fits, string_text, ABCString};

verus! {

/// The raw bytes of an ABC file, owned by the model.
#[derive(Debug)]
pub struct Source {
    /// The bytes.
    pub data: Vec<u8>,
}

impl Source {
    /// Wraps a byte buffer.
    pub fn new(data: Vec<u8>) -> (r: Source)
        ensures
            r.data == data,
    {
        Source { data }
    }

    /// The bytes as a slice.
    pub fn bytes(&self) -> (r: &[u8])
        ensures
            r@ == self.data@,
    {
        self.data.as_slice()
    }
}

/// One 32-bit absolute offset.
#[derive(Debug, Clone, Copy, PartialEq, Eq, Structural)]
pub struct Offset {
    /// The offset value.
    pub value: u32,
}

/// The class index: one offset per class, pointing into the foreign region
/// or the main body.
#[derive(Debug)]
pub struct ClassIndex {
    /// Number of entries.
    pub num_classes: u32,
    /// The entries.
    pub offsets: Vec<Offset>,
}

/// Slot `k` of the parsed index equals the `u32` stored in slot `k` of the
/// on-disk index.
pub open spec fn class_index_entry_ok(buf: Seq<u8>, off: int, v: Seq<Offset>, k: int) -> bool {
    v[k].value == u32_at(buf, off + 4 * k)
}

impl ClassIndex {
    /// Reads `n` class offsets from the index at `off`.
    pub fn parse(source: &[u8], off: u32, n: u32) -> (r: Result<Vec<Offset>, AbcError>)
        ensures
            r is Ok <==> n == 0 || off + 4 * n <= source@.len(),
            r matches Ok(v) ==> v@.len() == n && forall|k: int|
                0 <= k < n ==> #[trigger] class_index_entry_ok(source@, off as int, v@, k),
            r matches Err(e) ==> e == AbcError::OutOfBounds,
    {
        let len = source.len();
        if n > 0 {
            let need: u64 = off as u64 + 4 * (n as u64);
            if need > len as u64 {
                return Err(AbcError::OutOfBounds);
            }
        }
        let mut v: Vec<Offset> = Vec::new();
        let mut k: u32 = 0;
        while k < n
            invariant
                0 <= k <= n,
                v@.len() == k,
                len == source@.len(),
                n > 0 ==> off + 4 * n <= len,
                forall|j: int|
                    0 <= j < k ==> #[trigger] class_index_entry_ok(source@, off as int, v@, j),
            decreases n - k,
        {
            let p = off as usize + 4 * (k as usize);
            let value = match read_u32(source, p) {
                Ok(x) => x,
                Err(_) => {
                    return Err(AbcError::OutOfBounds);
                },
            };
            let ghost prev = v@;
            v.push(Offset { value });
            k = k + 1;
            proof {
                assert forall|j: int| 0 <= j < k implies #[trigger] class_index_entry_ok(
                    source@,
                    off as int,
                    v@,
                    j,
                ) by {
                    if j < k - 1 {
                        assert(class_index_entry_ok(source@, off as int, prev, j));
                        assert(v@[j] == prev[j]);
                    }
                }
            }
        }
        Ok(v)
    }
}

/// Whether an offset lies in the foreign region: the half-open interval
/// starting at `foreign_off` of length `foreign_size`.
pub open spec fn is_foreign(h: Header, idx: int) -> bool {
    h.foreign_off <= idx < h.foreign_off + h.foreign_size
}

/// The class-index entry in slot `i`: a 32-bit absolute offset.
pub open spec fn index_entry(buf: Seq<u8>, i: int) -> int {
    u32_at(buf, hdr_class_idx_off(buf) + 4 * i) as int
}

/// Whether an offset lies in the foreign region, read off the raw header
/// words.
pub open spec fn buf_is_foreign(buf: Seq<u8>, o: int) -> bool {
    hdr_foreign_off(buf) <= o < hdr_foreign_off(buf) + hdr_foreign_size(buf)
}

/// Walks the class-index entries from slot `i`, in order: a foreign entry
/// must hold a whole name string, a main entry a whole class record; the
/// first failure is the walk's error.
pub open spec fn classes_scan(buf: Seq<u8>, i: nat, n: nat) -> Result<(), AbcError>
    decreases n - i,
{
    if i >= n {
        Ok(())
    } else {
        let o = index_entry(buf, i as int);
        if buf_is_foreign(buf, o) {
            if string_fits(buf, o) {
                classes_scan(buf, i + 1, n)
            } else {
                Err(string_err_at(buf, o))
            }
        } else {
            match class_end(buf, o) {
                Ok(_) => classes_scan(buf, i + 1, n),
                Err(e) => Err(e),
            }
        }
    }
}

/// A class sub-index value resolves: a primitive encoding, or the offset
/// of some class-index entry.
pub open spec fn resolvable(buf: Seq<u8>, v: int) -> bool {
    v <= 0xb || exists|i: int|
        0 <= i < hdr_num_classes(buf) && #[trigger] index_entry(buf, i) == v
}

/// The first `n` values of the `u32` table at `base` all resolve.
pub open spec fn slots_resolvable(buf: Seq<u8>, base: int, n: nat) -> bool
    decreases n,
{
    if n == 0 {
        true
    } else {
        slots_resolvable(buf, base, (n - 1) as nat) && resolvable(
            buf,
            u32_at(buf, base + 4 * (n - 1)) as int,
        )
    }
}

proof fn lemma_slots_resolvable_prefix(buf: Seq<u8>, base: int, m: nat, n: nat)
    requires
        m <= n,
        slots_resolvable(buf, base, n),
    ensures
        slots_resolvable(buf, base, m),
    decreases n,
{
    if m < n {
        lemma_slots_resolvable_prefix(buf, base, m, (n - 1) as nat);
    }
}

/// Region `k`'s four sub-index tables fit the buffer and every class
/// sub-index value resolves, read off the raw region-header words.
pub open spec fn region_tables_ok(buf: Seq<u8>, k: int) -> bool {
    let rh = hdr_region_off(buf) + 40 * k;
    let csize = u32_at(buf, rh + 8) as int;
    let cio = u32_at(buf, rh + 12) as int;
    let msize = u32_at(buf, rh + 16) as int;
    let mio = u32_at(buf, rh + 20) as int;
    let fsize = u32_at(buf, rh + 24) as int;
    let fio = u32_at(buf, rh + 28) as int;
    let psize = u32_at(buf, rh + 32) as int;
    let pio = u32_at(buf, rh + 36) as int;
    &&& (csize == 0 || cio + 4 * csize <= buf.len())
    &&& slots_resolvable(buf, cio, csize as nat)
    &&& (msize == 0 || mio + 4 * msize <= buf.len())
    &&& (fsize > 65536 || fsize == 0 || fio + 4 * fsize <= buf.len())
    &&& (psize > 65536 || psize == 0 || pio + 4 * psize <= buf.len())
}

/// Every region's tables are readable and resolvable.
pub open spec fn regions_ok(buf: Seq<u8>) -> bool {
    forall|k: int| 0 <= k < hdr_region_size(buf) ==> #[trigger] region_tables_ok(buf, k)
}

/// Two raw region spans share an offset.
pub open spec fn raw_spans_overlap(buf: Seq<u8>, k: int, l: int) -> bool {
    let sk = u32_at(buf, hdr_region_off(buf) + 40 * k) as int;
    let ek = u32_at(buf, hdr_region_off(buf) + 40 * k + 4) as int;
    let sl = u32_at(buf, hdr_region_off(buf) + 40 * l) as int;
    let el = u32_at(buf, hdr_region_off(buf) + 40 * l + 4) as int;
    (if sk >= sl {
        sk
    } else {
        sl
    }) < (if ek <= el {
        ek
    } else {
        el
    })
}

/// No two raw region spans share an offset.
pub open spec fn raw_regions_disjoint(buf: Seq<u8>) -> bool {
    forall|k: int, l: int|
        0 <= k < l < hdr_region_size(buf) ==> !#[trigger] raw_spans_overlap(buf, k, l)
}

/// The whole file parses: the header is readable and its bounds sound,
/// every class-index entry parses, the region section and its tables fit
/// and resolve, the regions are pairwise disjoint, and the literal-array
/// index is readable.
pub open spec fn parse_ok(buf: Seq<u8>) -> bool {
    &&& header_fits(buf)
    &&& hdr_foreign_off(buf) + hdr_foreign_size(buf) <= hdr_file_size(buf)
    &&& hdr_class_idx_off(buf) + 4 * hdr_num_classes(buf) <= hdr_file_size(buf)
    &&& (hdr_num_classes(buf) == 0 || hdr_class_idx_off(buf) + 4 * hdr_num_classes(buf)
        <= buf.len())
    &&& classes_scan(buf, 0, hdr_num_classes(buf) as nat) is Ok
    &&& (hdr_region_size(buf) == 0 || hdr_region_off(buf) + 40 * hdr_region_size(buf)
        <= buf.len())
    &&& regions_ok(buf)
    &&& raw_regions_disjoint(buf)
    &&& (hdr_num_literalarrays(buf) == 0 || hdr_literalarray_idx_off(buf) + 4
        * hdr_num_literalarrays(buf) <= buf.len())
}

/// The error a failed parse reports, phase by phase.
pub open spec fn parse_err(buf: Seq<u8>) -> AbcError {
    if !header_fits(buf) || hdr_foreign_off(buf) + hdr_foreign_size(buf) > hdr_file_size(buf)
        || hdr_class_idx_off(buf) + 4 * hdr_num_classes(buf) > hdr_file_size(buf) {
        AbcError::MalformedHeader
    } else if hdr_num_classes(buf) > 0 && hdr_class_idx_off(buf) + 4 * hdr_num_classes(buf)
        > buf.len() {
        AbcError::OutOfBounds
    } else if classes_scan(buf, 0, hdr_num_classes(buf) as nat) is Err {
        classes_scan(buf, 0, hdr_num_classes(buf) as nat)->Err_0
    } else if hdr_region_size(buf) > 0 && hdr_region_off(buf) + 40 * hdr_region_size(buf)
        > buf.len() {
        AbcError::OutOfBounds
    } else if !regions_ok(buf) {
        AbcError::OutOfBounds
    } else if !raw_regions_disjoint(buf) {
        AbcError::MalformedHeader
    } else {
        AbcError::OutOfBounds
    }
}

/// Every stored main-class key is some class-index entry.
pub open spec fn main_keys_sound(buf: Seq<u8>, classes: Seq<(u32, Class)>) -> bool {
    forall|t: int|
        #![trigger classes[t]]
        0 <= t < classes.len() ==> exists|i: int|
            0 <= i < hdr_num_classes(buf) && #[trigger] index_entry(buf, i) == classes[t].0
}

/// Every stored foreign-class key is some class-index entry.
pub open spec fn foreign_keys_sound(buf: Seq<u8>, foreign: Seq<(u32, ForeignClass)>) -> bool {
    forall|t: int|
        #![trigger foreign[t]]
        0 <= t < foreign.len() ==> exists|i: int|
            0 <= i < hdr_num_classes(buf) && #[trigger] index_entry(buf, i) == foreign[t].0
}

/// Every stored main-class key lies outside the foreign interval.
pub open spec fn main_keys_main(buf: Seq<u8>, classes: Seq<(u32, Class)>) -> bool {
    forall|t: int|
        0 <= t < classes.len() ==> !buf_is_foreign(buf, (#[trigger] classes[t]).0 as int)
}

/// Every stored foreign-class key lies inside the foreign interval.
pub open spec fn foreign_keys_foreign(buf: Seq<u8>, foreign: Seq<(u32, ForeignClass)>) -> bool {
    forall|t: int|
        0 <= t < foreign.len() ==> buf_is_foreign(buf, (#[trigger] foreign[t]).0 as int)
}

/// The first `m` class-index entries are each stored, on the side the
/// foreign split assigns them.
pub open spec fn index_covered_upto(
    buf: Seq<u8>,
    classes: Seq<(u32, Class)>,
    foreign: Seq<(u32, ForeignClass)>,
    m: int,
) -> bool {
    forall|i: int|
        #![trigger index_entry(buf, i)]
        0 <= i < m ==> (if buf_is_foreign(buf, index_entry(buf, i)) {
            exists|t: int|
                0 <= t < foreign.len() && (#[trigger] foreign[t]).0 == index_entry(buf, i)
        } else {
            exists|t: int|
                0 <= t < classes.len() && (#[trigger] classes[t]).0 == index_entry(buf, i)
        })
}

/// With sound and covering stores, a value above the primitive range has a
/// stored key exactly when it is a class-index entry.
proof fn lemma_key_bridge(
    buf: Seq<u8>,
    classes: Seq<(u32, Class)>,
    foreign: Seq<(u32, ForeignClass)>,
    h: Header,
    v: int,
)
    requires
        h.matches(buf),
        v > 0xb,
        main_keys_sound(buf, classes),
        foreign_keys_sound(buf, foreign),
        index_covered_upto(buf, classes, foreign, hdr_num_classes(buf)),
    ensures
        is_foreign(h, v) ==> ((exists|k: int|
            0 <= k < foreign.len() && (#[trigger] foreign[k]).0 == v) <==> resolvable(buf, v)),
        !is_foreign(h, v) ==> ((exists|k: int|
            0 <= k < classes.len() && (#[trigger] classes[k]).0 == v) <==> resolvable(buf, v)),
{
    assert(buf_is_foreign(buf, v) == is_foreign(h, v));
    if is_foreign(h, v) {
        if exists|k: int| 0 <= k < foreign.len() && (#[trigger] foreign[k]).0 == v {
            let k0 = choose|k: int| 0 <= k < foreign.len() && (#[trigger] foreign[k]).0 == v;
            assert(foreign[k0].0 == v);
            assert(exists|i: int|
                0 <= i < hdr_num_classes(buf) && #[trigger] index_entry(buf, i) == foreign[k0].0);
        }
        if resolvable(buf, v) {
            let i0 = choose|i: int|
                0 <= i < hdr_num_classes(buf) && #[trigger] index_entry(buf, i) == v;
            assert(index_entry(buf, i0) == v);
            assert(buf_is_foreign(buf, index_entry(buf, i0)));
        }
    } else {
        if exists|k: int| 0 <= k < classes.len() && (#[trigger] classes[k]).0 == v {
            let k0 = choose|k: int| 0 <= k < classes.len() && (#[trigger] classes[k]).0 == v;
            assert(classes[k0].0 == v);
            assert(exists|i: int|
                0 <= i < hdr_num_classes(buf) && #[trigger] index_entry(buf, i) == classes[k0].0);
        }
        if resolvable(buf, v) {
            let i0 = choose|i: int|
                0 <= i < hdr_num_classes(buf) && #[trigger] index_entry(buf, i) == v;
            assert(index_entry(buf, i0) == v);
            assert(!buf_is_foreign(buf, index_entry(buf, i0)));
        }
    }
}

/// The name of a primitive type encoding, for values up to 0x0b.
pub open spec fn primitive_name(v: int) -> Seq<char> {
    if v == 0 {
        "u1"@
    } else if v == 1 {
        "i8"@
    } else if v == 2 {
        "u8"@
    } else if v == 3 {
        "i16"@
    } else if v == 4 {
        "u16"@
    } else if v == 5 {
        "i32"@
    } else if v == 6 {
        "u32"@
    } else if v == 7 {
        "f32"@
    } else if v == 8 {
        "f64"@
    } else if v == 9 {
        "i64"@
    } else if v == 10 {
        "u64"@
    } else {
        "any"@
    }
}

/// The name of the first stored class whose offset is `idx`.
pub open spec fn class_name_find(classes: Seq<(u32, Class)>, idx: int) -> Option<Seq<char>>
    decreases classes.len(),
{
    if classes.len() == 0 {
        None
    } else if classes[0].0 == idx {
        Some(classes[0].1.name.text())
    } else {
        class_name_find(classes.drop_first(), idx)
    }
}

/// The name of the first stored foreign class whose offset is `idx`.
pub open spec fn foreign_name_find(classes: Seq<(u32, ForeignClass)>, idx: int) -> Option<
    Seq<char>,
>
    decreases classes.len(),
{
    if classes.len() == 0 {
        None
    } else if classes[0].0 == idx {
        Some(classes[0].1.name.text())
    } else {
        foreign_name_find(classes.drop_first(), idx)
    }
}

/// The resolved name of a class sub-index entry: a primitive name for small
/// values, else the name of the class (foreign or main) the value points
/// at.
pub open spec fn field_type_name(
    classes: Seq<(u32, Class)>,
    foreign: Seq<(u32, ForeignClass)>,
    h: Header,
    v: int,
) -> Option<Seq<char>> {
    if v <= 0xb {
        Some(primitive_name(v))
    } else if is_foreign(h, v) {
        foreign_name_find(foreign, v)
    } else {
        class_name_find(classes, v)
    }
}

/// Looks a class offset up in the parsed class tables and returns its name.
fn lookup_class_name(
    classes: &Vec<(u32, Class)>,
    foreign: &Vec<(u32, ForeignClass)>,
    h: &Header,
    idx: u32,
) -> (r: Option<String>)
    requires
        idx > 0xb,
    ensures
        r matches Some(s) ==> field_type_name(classes@, foreign@, *h, idx as int) == Some(s@),
        r is None ==> field_type_name(classes@, foreign@, *h, idx as int) is None,
        is_foreign(*h, idx as int) ==> (r is Some <==> exists|k: int|
            0 <= k < foreign@.len() && (#[trigger] foreign@[k]).0 == idx),
        !is_foreign(*h, idx as int) ==> (r is Some <==> exists|k: int|
            0 <= k < classes@.len() && (#[trigger] classes@[k]).0 == idx),
{
    let foreign_end: u64 = h.foreign_off as u64 + h.foreign_size as u64;
    if (h.foreign_off as u64) <= (idx as u64) && (idx as u64) < foreign_end {
        assert(is_foreign(*h, idx as int));
        let n = foreign.len();
        let mut i: usize = 0;
        assert(foreign@.skip(0) =~= foreign@);
        while i < n
            invariant
                0 <= i <= n,
                n == foreign@.len(),
                idx > 0xb,
                is_foreign(*h, idx as int),
                forall|k: int| 0 <= k < i ==> (#[trigger] foreign@[k]).0 != idx,
                foreign_name_find(foreign@, idx as int) == foreign_name_find(
                    foreign@.skip(i as int),
                    idx as int,
                ),
            decreases n - i,
        {
            proof {
                assert(foreign@.skip(i as int)[0] == foreign@[i as int]);
                assert(foreign@.skip(i as int).drop_first() =~= foreign@.skip(i + 1));
            }
            if foreign[i].0 == idx {
                assert(foreign_name_find(foreign@, idx as int) == Some(
                    foreign@[i as int].1.name.text(),
                ));
                return Some(foreign[i].1.name.str());
            }
            i = i + 1;
        }
        proof {
            assert(foreign@.skip(n as int) =~= Seq::<(u32, ForeignClass)>::empty());
        }
        None
    } else {
        assert(!is_foreign(*h, idx as int));
        let n = classes.len();
        let mut i: usize = 0;
        assert(classes@.skip(0) =~= classes@);
        while i < n
            invariant
                0 <= i <= n,
                n == classes@.len(),
                idx > 0xb,
                !is_foreign(*h, idx as int),
                forall|k: int| 0 <= k < i ==> (#[trigger] classes@[k]).0 != idx,
                class_name_find(classes@, idx as int) == class_name_find(
                    classes@.skip(i as int),
                    idx as int,
                ),
            decreases n - i,
        {
            proof {
                assert(classes@.skip(i as int)[0] == classes@[i as int]);
                assert(classes@.skip(i as int).drop_first() =~= classes@.skip(i + 1));
            }
            if classes[i].0 == idx {
                assert(class_name_find(classes@, idx as int) == Some(
                    classes@[i as int].1.name.text(),
                ));
                return Some(classes[i].1.name.str());
            }
            i = i + 1;
        }
        proof {
            assert(classes@.skip(n as int) =~= Seq::<(u32, Class)>::empty());
        }
        None
    }
}

/// Resolves one class sub-index value to a named type.
fn resolve_field_type(
    classes: &Vec<(u32, Class)>,
    foreign: &Vec<(u32, ForeignClass)>,
    h: &Header,
    v: u32,
) -> (r: Result<FieldType, AbcError>)
    ensures
        r matches Ok(f) ==> field_type_name(classes@, foreign@, *h, v as int) == Some(f.name@),
        r is Err <==> field_type_name(classes@, foreign@, *h, v as int) is None,
        r matches Err(e) ==> e == AbcError::OutOfBounds,
        v > 0xb && is_foreign(*h, v as int) ==> (r is Ok <==> exists|k: int|
            0 <= k < foreign@.len() && (#[trigger] foreign@[k]).0 == v),
        v > 0xb && !is_foreign(*h, v as int) ==> (r is Ok <==> exists|k: int|
            0 <= k < classes@.len() && (#[trigger] classes@[k]).0 == v),
{
    if v <= 0xb {
        proof {
            reveal_strlit("u1");
            reveal_strlit("i8");
            reveal_strlit("u8");
            reveal_strlit("i16");
            reveal_strlit("u16");
            reveal_strlit("i32");
            reveal_strlit("u32");
            reveal_strlit("f32");
            reveal_strlit("f64");
            reveal_strlit("i64");
            reveal_strlit("u64");
            reveal_strlit("any");
        }
        let name = match v {
            0 => String::from_str("u1"),
            1 => String::from_str("i8"),
            2 => String::from_str("u8"),
            3 => String::from_str("i16"),
            4 => String::from_str("u16"),
            5 => String::from_str("i32"),
            6 => String::from_str("u32"),
            7 => String::from_str("f32"),
            8 => String::from_str("f64"),
            9 => String::from_str("i64"),
            10 => String::from_str("u64"),
            _ => String::from_str("any"),
        };
        Ok(FieldType { name })
    } else {
        match lookup_class_name(classes, foreign, h, v) {
            Some(name) => Ok(FieldType { name }),
            None => Err(AbcError::OutOfBounds),
        }
    }
}

/// The spans of two regions share at least one byte: the later start lies
/// before the earlier end.
pub open spec fn spans_overlap(a: Region, b: Region) -> bool {
    let lo = if a.header.start_off >= b.header.start_off {
        a.header.start_off as int
    } else {
        b.header.start_off as int
    };
    let hi = if a.header.end_off <= b.header.end_off {
        a.header.end_off as int
    } else {
        b.header.end_off as int
    };
    lo < hi
}

/// Sharing a byte and overlapping spans are the same thing.
pub proof fn lemma_overlap_iff(a: Region, b: Region)
    ensures
        regions_overlap(a, b) <==> spans_overlap(a, b),
{
    if spans_overlap(a, b) {
        let lo = if a.header.start_off >= b.header.start_off {
            a.header.start_off as int
        } else {
            b.header.start_off as int
        };
        assert(region_contains(a, lo));
        assert(region_contains(b, lo));
    }
}

/// Checks that no two regions share an offset.
pub fn check_regions_disjoint(rs: &Vec<Region>) -> (r: bool)
    ensures
        r == regions_disjoint(rs@),
{
    let n = rs.len();
    let mut i: usize = 0;
    while i < n
        invariant
            0 <= i <= n,
            n == rs@.len(),
            forall|a: int, b: int|
                0 <= a < b < rs@.len() && a < i ==> !#[trigger] regions_overlap(rs@[a], rs@[b]),
        decreases n - i,
    {
        let mut j: usize = i + 1;
        while j < n
            invariant
                0 <= i < j <= n,
                n == rs@.len(),
                forall|a: int, b: int|
                    0 <= a < b < rs@.len() && a < i ==> !#[trigger] regions_overlap(
                        rs@[a],
                        rs@[b],
                    ),
                forall|b: int|
                    i < b < j ==> !#[trigger] regions_overlap(rs@[i as int], rs@[b]),
            decreases n - j,
        {
            let a = &rs[i];
            let b = &rs[j];
            let lo = if a.header.start_off >= b.header.start_off {
                a.header.start_off
            } else {
                b.header.start_off
            };
            let hi = if a.header.end_off <= b.header.end_off {
                a.header.end_off
            } else {
                b.header.end_off
            };
            proof {
                lemma_overlap_iff(rs@[i as int], rs@[j as int]);
            }
            if lo < hi {
                assert(regions_overlap(rs@[i as int], rs@[j as int]));
                assert(!regions_disjoint(rs@));
                return false;
            }
            j = j + 1;
        }
        i = i + 1;
    }
    true
}

/// Region `k` of the built list was decoded from region header `k` on
/// disk, with its class and method/string/literal sub-indices resolved.
pub open spec fn region_built_ok(
    buf: Seq<u8>,
    classes: Seq<(u32, Class)>,
    foreign: Seq<(u32, ForeignClass)>,
    h: Header,
    rs: Seq<Region>,
    k: int,
) -> bool {
    let rh = rs[k].header;
    &&& rh.matches(buf, h.region_off + 40 * k)
    &&& rs[k].class_region_idx.offsets@.len() == rh.class_idx_size
    &&& forall|j: int|
        0 <= j < rh.class_idx_size ==> Some(
            (#[trigger] rs[k].class_region_idx.offsets@[j]).name@,
        ) == field_type_name(classes, foreign, h, u32_at(buf, rh.class_idx_off + 4 * j) as int)
    &&& rs[k].method_string_literal_region_idx.offsets@.len()
        == rh.method_string_literal_region_idx_size
    &&& forall|j: int|
        0 <= j < rh.method_string_literal_region_idx_size ==> (
        #[trigger] rs[k].method_string_literal_region_idx.offsets@[j]) == u32_at(
            buf,
            rh.method_string_literal_region_idx_off + 4 * j,
        )
    &&& rs[k].field_region_idx.offsets@.len() == (if rh.field_idx_size <= 65536 {
        rh.field_idx_size as int
    } else {
        0
    })
    &&& rs[k].proto_region_idx.offsets@.len() == (if rh.proto_idx_size <= 65536 {
        rh.proto_idx_size as int
    } else {
        0
    })
}

/// Every built region satisfies `region_built_ok`.
pub open spec fn regions_built_ok(
    buf: Seq<u8>,
    classes: Seq<(u32, Class)>,
    foreign: Seq<(u32, ForeignClass)>,
    h: Header,
    rs: Seq<Region>,
) -> bool {
    forall|k: int|
        0 <= k < rs.len() ==> #[trigger] region_built_ok(buf, classes, foreign, h, rs, k)
}

/// Reads a `u32` table of `size` entries at `off` into `out`.
fn read_u32_table(buf: &[u8], off: u32, size: u32) -> (r: Result<Vec<u32>, AbcError>)
    ensures
        r is Ok <==> size == 0 || off + 4 * size <= buf@.len(),
        r matches Ok(v) ==> v@.len() == size && forall|j: int|
            0 <= j < size ==> (#[trigger] v@[j]) == u32_at(buf@, off + 4 * j),
        r matches Err(e) ==> e == AbcError::OutOfBounds,
{
    let len = buf.len();
    if size > 0 {
        let need: u64 = off as u64 + 4 * (size as u64);
        if need > len as u64 {
            return Err(AbcError::OutOfBounds);
        }
    }
    let mut v: Vec<u32> = Vec::new();
    let mut j: u32 = 0;
    while j < size
        invariant
            0 <= j <= size,
            v@.len() == j,
            len == buf@.len(),
            size > 0 ==> off + 4 * size <= len,
            forall|t: int| 0 <= t < j ==> (#[trigger] v@[t]) == u32_at(buf@, off + 4 * t),
        decreases size - j,
    {
        let p = off as usize + 4 * (j as usize);
        let value = match read_u32(buf, p) {
            Ok(x) => x,
            Err(_) => {
                return Err(AbcError::OutOfBounds);
            },
        };
        let ghost prev = v@;
        v.push(value);
        j = j + 1;
        proof {
            assert forall|t: int| 0 <= t < j implies (#[trigger] v@[t]) == u32_at(
                buf@,
                off + 4 * t,
            ) by {
                if t < j - 1 {
                    assert(v@[t] == prev[t]);
                }
            }
        }
    }
    Ok(v)
}

/// Resolves every value of a region's class sub-index table.
fn resolve_class_table(
    buf: &[u8],
    classes: &Vec<(u32, Class)>,
    foreign: &Vec<(u32, ForeignClass)>,
    h: &Header,
    class_vals: &Vec<u32>,
    Ghost(base): Ghost<int>,
) -> (r: Result<ClassRegionIndex, AbcError>)
    requires
        h.matches(buf@),
        main_keys_sound(buf@, classes@),
        foreign_keys_sound(buf@, foreign@),
        index_covered_upto(buf@, classes@, foreign@, hdr_num_classes(buf@)),
        forall|t: int|
            0 <= t < class_vals@.len() ==> (#[trigger] class_vals@[t]) == u32_at(buf@, base + 4 * t),
    ensures
        r is Ok <==> slots_resolvable(buf@, base, class_vals@.len() as nat),
        r matches Ok(cri) ==> cri.offsets@.len() == class_vals@.len() && forall|t: int|
            0 <= t < class_vals@.len() ==> Some(
                (#[trigger] cri.offsets@[t]).name@,
            ) == field_type_name(classes@, foreign@, *h, u32_at(buf@, base + 4 * t) as int),
        r matches Err(e) ==> e == AbcError::OutOfBounds,
{
    let mut cri = ClassRegionIndex { offsets: Vec::new() };
    let mut j: usize = 0;
    let cn = class_vals.len();
    while j < cn
        invariant
            0 <= j <= cn,
            cn == class_vals@.len(),
            cri.offsets@.len() == j,
            h.matches(buf@),
            main_keys_sound(buf@, classes@),
            foreign_keys_sound(buf@, foreign@),
            index_covered_upto(buf@, classes@, foreign@, hdr_num_classes(buf@)),
            slots_resolvable(buf@, base, j as nat),
            forall|t: int|
                0 <= t < cn ==> (#[trigger] class_vals@[t]) == u32_at(buf@, base + 4 * t),
            forall|t: int|
                0 <= t < j ==> Some((#[trigger] cri.offsets@[t]).name@) == field_type_name(
                    classes@,
                    foreign@,
                    *h,
                    u32_at(buf@, base + 4 * t) as int,
                ),
        decreases cn - j,
    {
        let ghost v = class_vals@[j as int] as int;
        let ft = match resolve_field_type(classes, foreign, h, class_vals[j]) {
            Ok(f) => f,
            Err(e) => {
                proof {
                    assert(v > 0xb);
                    lemma_key_bridge(buf@, classes@, foreign@, *h, v);
                    assert(!resolvable(buf@, v));
                    assert(!slots_resolvable(buf@, base, cn as nat)) by {
                        if slots_resolvable(buf@, base, cn as nat) {
                            lemma_slots_resolvable_prefix(buf@, base, (j + 1) as nat, cn as nat);
                        }
                    };
                }
                return Err(e);
            },
        };
        proof {
            if v > 0xb {
                lemma_key_bridge(buf@, classes@, foreign@, *h, v);
            }
            assert(resolvable(buf@, v));
            assert(slots_resolvable(buf@, base, (j + 1) as nat));
        }
        let ghost prev = cri.offsets@;
        cri.push(ft);
        j = j + 1;
        proof {
            assert forall|t: int| 0 <= t < j implies Some(
                (#[trigger] cri.offsets@[t]).name@,
            ) == field_type_name(classes@, foreign@, *h, u32_at(buf@, base + 4 * t) as int) by {
                if t < j - 1 {
                    assert(cri.offsets@[t] == prev[t]);
                }
            }
        }
    }
    Ok(cri)
}

/// Builds one region from its header at slot `k` of the region section.
#[verifier::rlimit(100)]
#[verifier::spinoff_prover]
fn build_region(
    buf: &[u8],
    classes: &Vec<(u32, Class)>,
    foreign: &Vec<(u32, ForeignClass)>,
    h: &Header,
    k: u32,
) -> (r: Result<Region, AbcError>)
    requires
        h.region_off + 40 * k + 40 <= buf@.len(),
        h.matches(buf@),
        main_keys_sound(buf@, classes@),
        foreign_keys_sound(buf@, foreign@),
        index_covered_upto(buf@, classes@, foreign@, hdr_num_classes(buf@)),
    ensures
        r is Ok <==> region_tables_ok(buf@, k as int),
        r matches Ok(reg) ==> {
            &&& reg.header.matches(buf@, h.region_off + 40 * k)
            &&& reg.class_region_idx.offsets@.len() == reg.header.class_idx_size
            &&& forall|j: int|
                0 <= j < reg.header.class_idx_size ==> Some(
                    (#[trigger] reg.class_region_idx.offsets@[j]).name@,
                ) == field_type_name(
                    classes@,
                    foreign@,
                    *h,
                    u32_at(buf@, reg.header.class_idx_off + 4 * j) as int,
                )
            &&& reg.method_string_literal_region_idx.offsets@.len()
                == reg.header.method_string_literal_region_idx_size
            &&& forall|j: int|
                0 <= j < reg.header.method_string_literal_region_idx_size ==> (
                #[trigger] reg.method_string_literal_region_idx.offsets@[j]) == u32_at(
                    buf@,
                    reg.header.method_string_literal_region_idx_off + 4 * j,
                )
            &&& reg.field_region_idx.offsets@.len() == (if reg.header.field_idx_size <= 65536 {
                reg.header.field_idx_size as int
            } else {
                0
            })
            &&& reg.proto_region_idx.offsets@.len() == (if reg.header.proto_idx_size <= 65536 {
                reg.header.proto_idx_size as int
            } else {
                0
            })
        },
        r matches Err(e) ==> e == AbcError::OutOfBounds,
{
    let len = buf.len();
    let off = h.region_off as usize + 40 * (k as usize);
    proof {
        assert(off as int == hdr_region_off(buf@) + 40 * (k as int));
    }
    let rh = match RegionHeader::read(buf, off) {
        Ok(x) => x,
        Err(_) => {
            return Err(AbcError::OutOfBounds);
        },
    };
    let class_vals = match read_u32_table(buf, rh.class_idx_off, rh.class_idx_size) {
        Ok(v) => v,
        Err(e) => {
            assert(!region_tables_ok(buf@, k as int));
            return Err(e);
        },
    };
    let cri = match resolve_class_table(
        buf,
        classes,
        foreign,
        h,
        &class_vals,
        Ghost(rh.class_idx_off as int),
    ) {
        Ok(c) => c,
        Err(e) => {
            proof {
                assert(!slots_resolvable(buf@, rh.class_idx_off as int, rh.class_idx_size as nat));
                assert(!region_tables_ok(buf@, k as int));
            }
            return Err(e);
        },
    };
    let msl_vals = match read_u32_table(
        buf,
        rh.method_string_literal_region_idx_off,
        rh.method_string_literal_region_idx_size,
    ) {
        Ok(v) => v,
        Err(e) => {
            assert(!region_tables_ok(buf@, k as int));
            return Err(e);
        },
    };
    let mslri = MethodStringLiteralRegionIndex { offsets: msl_vals };
    let mut fri = FieldRegionIndex { offsets: Vec::new() };
    if rh.field_idx_size <= 65536 {
        let vals = match read_u32_table(buf, rh.field_idx_off, rh.field_idx_size) {
            Ok(v) => v,
            Err(e) => {
                assert(!region_tables_ok(buf@, k as int));
                return Err(e);
            },
        };
        fri = FieldRegionIndex { offsets: vals };
    }
    let mut pri = ProtoRegionIndex { offsets: Vec::new() };
    if rh.proto_idx_size <= 65536 {
        let vals = match read_u32_table(buf, rh.proto_idx_off, rh.proto_idx_size) {
            Ok(v) => v,
            Err(e) => {
                assert(!region_tables_ok(buf@, k as int));
                return Err(e);
            },
        };
        pri = ProtoRegionIndex { offsets: vals };
    }
    assert(region_tables_ok(buf@, k as int));
    Ok(Region::new(rh, cri, mslri, fri, pri))
}

/// Parses every class-index entry into the foreign and main stores, in
/// index order.
#[verifier::rlimit(100)]
#[verifier::spinoff_prover]
fn parse_classes(bytes: &[u8], h: &Header, index: &Vec<Offset>) -> (r: Result<
    (Vec<(u32, Class)>, Vec<(u32, ForeignClass)>),
    AbcError,
>)
    requires
        h.matches(bytes@),
        index@.len() == hdr_num_classes(bytes@),
        forall|t: int|
            0 <= t < index@.len() ==> (#[trigger] index@[t]).value == index_entry(bytes@, t),
    ensures
        r is Ok <==> classes_scan(bytes@, 0, hdr_num_classes(bytes@) as nat) is Ok,
        r matches Err(e) ==> classes_scan(bytes@, 0, hdr_num_classes(bytes@) as nat) == Err::<
            (),
            AbcError,
        >(e),
        r matches Ok(p) ==> {
            &&& p.0@.len() + p.1@.len() == hdr_num_classes(bytes@)
            &&& forall|k: int|
                0 <= k < p.0@.len() ==> (#[trigger] p.0@[k]).1.parsed_from(
                    bytes@,
                    p.0@[k].0 as int,
                )
            &&& forall|k: int|
                0 <= k < p.1@.len() ==> (#[trigger] p.1@[k]).1.name.text() == string_text(
                    bytes@,
                    p.1@[k].0 as int,
                )
            &&& main_keys_sound(bytes@, p.0@)
            &&& foreign_keys_sound(bytes@, p.1@)
            &&& main_keys_main(bytes@, p.0@)
            &&& foreign_keys_foreign(bytes@, p.1@)
            &&& index_covered_upto(bytes@, p.0@, p.1@, hdr_num_classes(bytes@))
        },
{
    let ghost buf = bytes@;
    let ghost num = hdr_num_classes(bytes@);
    let mut classes: Vec<(u32, Class)> = Vec::new();
    let mut foreign_classes: Vec<(u32, ForeignClass)> = Vec::new();
    let mut i: usize = 0;
    let n = index.len();
    while i < n
        invariant
            0 <= i <= n,
            n == index@.len(),
            buf == bytes@,
            num == hdr_num_classes(bytes@),
            n == num,
            h.matches(buf),
            forall|t: int|
                0 <= t < index@.len() ==> (#[trigger] index@[t]).value == index_entry(buf, t),
            classes@.len() + foreign_classes@.len() == i,
            classes_scan(buf, 0, num as nat) == classes_scan(buf, i as nat, num as nat),
            forall|k: int|
                0 <= k < classes@.len() ==> (#[trigger] classes@[k]).1.parsed_from(
                    buf,
                    classes@[k].0 as int,
                ),
            forall|k: int|
                0 <= k < foreign_classes@.len() ==> (
                #[trigger] foreign_classes@[k]).1.name.text() == string_text(
                    buf,
                    foreign_classes@[k].0 as int,
                ),
            main_keys_sound(buf, classes@),
            foreign_keys_sound(buf, foreign_classes@),
            main_keys_main(buf, classes@),
            foreign_keys_foreign(buf, foreign_classes@),
            index_covered_upto(buf, classes@, foreign_classes@, i as int),
        decreases n - i,
    {
        let class_off = index[i].value;
        let ghost entry = index_entry(buf, i as int);
        proof {
            assert(class_off == entry);
        }
        let foreign_end: u64 = h.foreign_off as u64 + h.foreign_size as u64;
        if (h.foreign_off as u64) <= (class_off as u64) && (class_off as u64) < foreign_end {
            proof {
                assert(buf_is_foreign(buf, entry));
            }
            let fc = match ForeignClass::read(bytes, class_off as usize) {
                Ok(c) => c,
                Err(e) => {
                    proof {
                        assert(classes_scan(buf, i as nat, num as nat) == Err::<(), AbcError>(e));
                    }
                    return Err(e);
                },
            };
            let ghost prev = foreign_classes@;
            foreign_classes.push((class_off, fc));
            proof {
                assert forall|k: int| 0 <= k < foreign_classes@.len() implies (
                #[trigger] foreign_classes@[k]).1.name.text() == string_text(
                    buf,
                    foreign_classes@[k].0 as int,
                ) by {
                    if k < prev.len() {
                        assert(foreign_classes@[k] == prev[k]);
                    }
                }
                assert forall|t: int|
                    #![trigger foreign_classes@[t]]
                    0 <= t < foreign_classes@.len() implies exists|ii: int|
                    0 <= ii < hdr_num_classes(buf) && #[trigger] index_entry(buf, ii)
                        == foreign_classes@[t].0 by {
                    if t < prev.len() {
                        assert(foreign_classes@[t] == prev[t]);
                        let ii = choose|ii: int|
                            0 <= ii < hdr_num_classes(buf) && #[trigger] index_entry(buf, ii)
                                == prev[t].0;
                        assert(index_entry(buf, ii) == foreign_classes@[t].0);
                    } else {
                        assert(index_entry(buf, i as int) == foreign_classes@[t].0);
                    }
                }
                assert forall|t: int|
                    0 <= t < foreign_classes@.len() implies buf_is_foreign(
                    buf,
                    (#[trigger] foreign_classes@[t]).0 as int,
                ) by {
                    if t < prev.len() {
                        assert(foreign_classes@[t] == prev[t]);
                    } else {
                        assert(foreign_classes@[t].0 == class_off);
                    }
                }
                assert forall|ii: int|
                    #![trigger index_entry(buf, ii)]
                    0 <= ii < i + 1 implies (if buf_is_foreign(buf, index_entry(buf, ii)) {
                    exists|t: int|
                        0 <= t < foreign_classes@.len() && (#[trigger] foreign_classes@[t]).0
                            == index_entry(buf, ii)
                } else {
                    exists|t: int|
                        0 <= t < classes@.len() && (#[trigger] classes@[t]).0 == index_entry(
                            buf,
                            ii,
                        )
                }) by {
                    if ii < i {
                        if buf_is_foreign(buf, index_entry(buf, ii)) {
                            let t0 = choose|t: int|
                                0 <= t < prev.len() && (#[trigger] prev[t]).0 == index_entry(
                                    buf,
                                    ii,
                                );
                            assert(foreign_classes@[t0] == prev[t0]);
                        }
                    } else {
                        assert(foreign_classes@[foreign_classes@.len() - 1].0 == index_entry(
                            buf,
                            ii,
                        ));
                    }
                }
            }
        } else {
            proof {
                assert(!buf_is_foreign(buf, entry));
            }
            let c = match Class::read(bytes, class_off as usize) {
                Ok(c) => c,
                Err(e) => {
                    proof {
                        assert(classes_scan(buf, i as nat, num as nat) == Err::<(), AbcError>(e));
                    }
                    return Err(e);
                },
            };
            let ghost prev = classes@;
            classes.push((class_off, c));
            proof {
                assert forall|k: int| 0 <= k < classes@.len() implies (
                #[trigger] classes@[k]).1.parsed_from(buf, classes@[k].0 as int) by {
                    if k < prev.len() {
                        assert(classes@[k] == prev[k]);
                    }
                }
                assert forall|t: int|
                    #![trigger classes@[t]]
                    0 <= t < classes@.len() implies exists|ii: int|
                    0 <= ii < hdr_num_classes(buf) && #[trigger] index_entry(buf, ii)
                        == classes@[t].0 by {
                    if t < prev.len() {
                        assert(classes@[t] == prev[t]);
                        let ii = choose|ii: int|
                            0 <= ii < hdr_num_classes(buf) && #[trigger] index_entry(buf, ii)
                                == prev[t].0;
                        assert(index_entry(buf, ii) == classes@[t].0);
                    } else {
                        assert(index_entry(buf, i as int) == classes@[t].0);
                    }
                }
                assert forall|t: int|
                    0 <= t < classes@.len() implies !buf_is_foreign(
                    buf,
                    (#[trigger] classes@[t]).0 as int,
                ) by {
                    if t < prev.len() {
                        assert(classes@[t] == prev[t]);
                    } else {
                        assert(classes@[t].0 == class_off);
                    }
                }
                assert forall|ii: int|
                    #![trigger index_entry(buf, ii)]
                    0 <= ii < i + 1 implies (if buf_is_foreign(buf, index_entry(buf, ii)) {
                    exists|t: int|
                        0 <= t < foreign_classes@.len() && (#[trigger] foreign_classes@[t]).0
                            == index_entry(buf, ii)
                } else {
                    exists|t: int|
                        0 <= t < classes@.len() && (#[trigger] classes@[t]).0 == index_entry(
                            buf,
                            ii,
                        )
                }) by {
                    if ii < i {
                        if !buf_is_foreign(buf, index_entry(buf, ii)) {
                            let t0 = choose|t: int|
                                0 <= t < prev.len() && (#[trigger] prev[t]).0 == index_entry(
                                    buf,
                                    ii,
                                );
                            assert(classes@[t0] == prev[t0]);
                        }
                    } else {
                        assert(classes@[classes@.len() - 1].0 == index_entry(buf, ii));
                    }
                }
            }
        }
        i = i + 1;
    }
    proof {
        assert(classes_scan(buf, num as nat, num as nat) is Ok);
    }
    Ok((classes, foreign_classes))
}

/// Builds every region of the region section, in order.
#[verifier::rlimit(100)]
#[verifier::spinoff_prover]
fn parse_regions(
    bytes: &[u8],
    h: &Header,
    classes: &Vec<(u32, Class)>,
    foreign: &Vec<(u32, ForeignClass)>,
) -> (r: Result<Vec<Region>, AbcError>)
    requires
        h.matches(bytes@),
        hdr_region_size(bytes@) == 0 || hdr_region_off(bytes@) + 40 * hdr_region_size(bytes@)
            <= bytes@.len(),
        main_keys_sound(bytes@, classes@),
        foreign_keys_sound(bytes@, foreign@),
        index_covered_upto(bytes@, classes@, foreign@, hdr_num_classes(bytes@)),
    ensures
        r is Ok <==> regions_ok(bytes@),
        r matches Err(e) ==> e == AbcError::OutOfBounds && !regions_ok(bytes@),
        r matches Ok(v) ==> v@.len() == hdr_region_size(bytes@) && regions_built_ok(
            bytes@,
            classes@,
            foreign@,
            *h,
            v@,
        ),
{
    let mut regions: Vec<Region> = Vec::new();
    let mut k: u32 = 0;
    while k < h.region_size
        invariant
            0 <= k <= h.region_size,
            regions@.len() == k,
            h.matches(bytes@),
            hdr_region_size(bytes@) == 0 || hdr_region_off(bytes@) + 40 * hdr_region_size(bytes@)
                <= bytes@.len(),
            main_keys_sound(bytes@, classes@),
            foreign_keys_sound(bytes@, foreign@),
            index_covered_upto(bytes@, classes@, foreign@, hdr_num_classes(bytes@)),
            regions_built_ok(bytes@, classes@, foreign@, *h, regions@),
            forall|t: int| 0 <= t < k ==> #[trigger] region_tables_ok(bytes@, t),
        decreases h.region_size - k,
    {
        let reg = match build_region(bytes, classes, foreign, h, k) {
            Ok(x) => x,
            Err(e) => {
                proof {
                    assert(!region_tables_ok(bytes@, k as int));
                    assert(!regions_ok(bytes@));
                }
                return Err(e);
            },
        };
        let ghost prev = regions@;
        regions.push(reg);
        k = k + 1;
        proof {
            assert forall|t: int| 0 <= t < regions@.len() implies #[trigger] region_built_ok(
                bytes@,
                classes@,
                foreign@,
                *h,
                regions@,
                t,
            ) by {
                if t < prev.len() {
                    assert(region_built_ok(bytes@, classes@, foreign@, *h, prev, t));
                    assert(regions@[t] == prev[t]);
                } else {
                    assert(regions@[t] == prev.push(regions@[t])[t]);
                }
            }
        }
    }
    proof {
        assert(regions_ok(bytes@));
    }
    Ok(regions)
}

/// The parsed file model: the buffer and every decoded artifact.
#[derive(Debug)]
pub struct AbcFile {
    /// The raw bytes.
    pub source: Source,
    /// The decoded header.
    pub header: Header,
    /// The classes of the main body, keyed by their record offsets.
    pub classes: Vec<(u32, Class)>,
    /// The foreign classes, keyed by their record offsets.
    pub foreign_classes: Vec<(u32, ForeignClass)>,
    /// The regions, in section order.
    pub regions: Vec<Region>,
    /// The rendered literal arrays, keyed by their file offsets.
    pub literal_array_map: Vec<(usize, String)>,
}

impl AbcFile {
    /// Everything the constructor guarantees of a parsed model, stated
    /// over the owned buffer: the header matches the bytes and its magic
    /// and bounds are sound, the regions are pairwise disjoint and decoded
    /// from the region section, every class was decoded at its index
    /// offset, and the literal pool holds the rendered arrays.
    pub open spec fn wf(&self) -> bool {
        let buf = self.source.data@;
        &&& header_fits(buf)
        &&& self.header.matches(buf)
        &&& self.header.foreign_off + self.header.foreign_size <= self.header.file_size
        &&& self.header.class_idx_off + 4 * self.header.num_classes <= self.header.file_size
        &&& self.classes@.len() + self.foreign_classes@.len() == self.header.num_classes
        &&& main_keys_sound(buf, self.classes@)
        &&& foreign_keys_sound(buf, self.foreign_classes@)
        &&& main_keys_main(buf, self.classes@)
        &&& foreign_keys_foreign(buf, self.foreign_classes@)
        &&& index_covered_upto(buf, self.classes@, self.foreign_classes@, hdr_num_classes(buf))
        &&& regions_disjoint(self.regions@)
        &&& self.regions@.len() == self.header.region_size
        &&& regions_built_ok(buf, self.classes@, self.foreign_classes@, self.header, self.regions@)
        &&& forall|k: int|
            0 <= k < self.classes@.len() ==> (#[trigger] self.classes@[k]).1.parsed_from(
                buf,
                self.classes@[k].0 as int,
            )
        &&& forall|k: int|
            0 <= k < self.foreign_classes@.len() ==> (
            #[trigger] self.foreign_classes@[k]).1.name.text() == string_text(
                buf,
                self.foreign_classes@[k].0 as int,
            )
        &&& lit_entries_ok(
            self.literal_array_map@,
            lit_index_entries(
                buf,
                self.regions@,
                self.header.literalarray_idx_off as int,
                self.header.num_literalarrays as nat,
            ),
        )
    }

    /// Parses a whole file: header, class index, region section, literal
    /// arrays.  Succeeds exactly when every phase succeeds — the header is
    /// readable and its bounds sound, every class-index entry parses, the
    /// region tables fit and resolve, the regions are disjoint and the
    /// literal index is readable — and fails with the first phase's error;
    /// only individual literal arrays are best-effort.
    #[verifier::rlimit(100)]
    #[verifier::spinoff_prover]
    pub fn parse(buf: Vec<u8>) -> (r: Result<AbcFile, AbcError>)
        ensures
            r is Ok <==> parse_ok(buf@),
            r matches Ok(f) ==> f.wf() && f.source.data@ == buf@,
            r matches Err(e) ==> !parse_ok(buf@) && e == parse_err(buf@),
    {
        let len = buf.len();
        let bytes = buf.as_slice();
        let header = match Header::read(bytes) {
            Ok(h) => h,
            Err(e) => {
                return Err(e);
            },
        };
        if header.foreign_off as u64 + header.foreign_size as u64 > header.file_size as u64 {
            return Err(AbcError::MalformedHeader);
        }
        if header.class_idx_off as u64 + 4 * (header.num_classes as u64) > header.file_size
            as u64 {
            return Err(AbcError::MalformedHeader);
        }
        let index = match ClassIndex::parse(bytes, header.class_idx_off, header.num_classes) {
            Ok(v) => v,
            Err(e) => {
                return Err(e);
            },
        };
        proof {
            assert forall|t: int| 0 <= t < index@.len() implies (#[trigger] index@[t]).value
                == index_entry(bytes@, t) by {
                assert(class_index_entry_ok(bytes@, header.class_idx_off as int, index@, t));
            }
        }
        let (classes, foreign_classes) = match parse_classes(bytes, &header, &index) {
            Ok(p) => p,
            Err(e) => {
                return Err(e);
            },
        };
        if header.region_size > 0 {
            let need: u64 = header.region_off as u64 + 40 * (header.region_size as u64);
            if need > len as u64 {
                return Err(AbcError::OutOfBounds);
            }
        }
        let regions = match parse_regions(bytes, &header, &classes, &foreign_classes) {
            Ok(v) => v,
            Err(e) => {
                return Err(e);
            },
        };
        proof {
            assert forall|a: int, b: int| 0 <= a < b < regions@.len() implies (regions_overlap(
                regions@[a],
                regions@[b],
            ) <==> raw_spans_overlap(bytes@, a, b)) by {
                assert(region_built_ok(bytes@, classes@, foreign_classes@, header, regions@, a));
                assert(region_built_ok(bytes@, classes@, foreign_classes@, header, regions@, b));
                lemma_overlap_iff(regions@[a], regions@[b]);
            }
        }
        if !check_regions_disjoint(&regions) {
            proof {
                assert(!raw_regions_disjoint(bytes@)) by {
                    if raw_regions_disjoint(bytes@) {
                        assert forall|a: int, b: int|
                            0 <= a < b < regions@.len() implies !#[trigger] regions_overlap(
                            regions@[a],
                            regions@[b],
                        ) by {
                            assert(!raw_spans_overlap(bytes@, a, b));
                        }
                        assert(regions_disjoint(regions@));
                    }
                };
            }
            return Err(AbcError::MalformedHeader);
        }
        proof {
            assert(raw_regions_disjoint(bytes@)) by {
                assert forall|a: int, b: int|
                    0 <= a < b < hdr_region_size(bytes@) implies !#[trigger] raw_spans_overlap(
                    bytes@,
                    a,
                    b,
                ) by {
                    assert(!regions_overlap(regions@[a], regions@[b]));
                }
            };
        }
        let literal_array_map = match parse_literal_array_index(
            bytes,
            header.literalarray_idx_off,
            header.num_literalarrays,
            &regions,
        ) {
            Ok(m) => m,
            Err(e) => {
                return Err(e);
            },
        };
        proof {
            assert(parse_ok(buf@));
        }
        Ok(
            AbcFile {
                source: Source::new(buf),
                header,
                classes,
                foreign_classes,
                regions,
                literal_array_map,
            },
        )
    }

    /// The decoded header.
    pub fn header(&self) -> (r: &Header)
        ensures
            *r == self.header,
    {
        &self.header
    }

    /// The classes of the main body, keyed by their record offsets.
    pub fn classes(&self) -> (r: &Vec<(u32, Class)>)
        ensures
            *r == self.classes,
    {
        &self.classes
    }

    /// The foreign classes, keyed by their record offsets.
    pub fn foreign_classes(&self) -> (r: &Vec<(u32, ForeignClass)>)
        ensures
            *r == self.foreign_classes,
    {
        &self.foreign_classes
    }

    /// The first region whose span contains `offset`.
    pub fn get_region(&self, offset: usize) -> (r: Option<&Region>)
        ensures
            r matches Some(reg) ==> region_find(self.regions@, offset as int) is Some && *reg
                == self.regions@[region_find(self.regions@, offset as int)->0] && region_contains(
                *reg,
                offset as int,
            ),
            r is None ==> region_find(self.regions@, offset as int) is None,
    {
        match find_region(&self.regions, offset) {
            Some(i) => Some(&self.regions[i]),
            None => None,
        }
    }

    /// Resolves a class sub-index value: a primitive name below 0x0c, else
    /// the name of the class the value points at.
    pub fn parse_field_type(&self, idx: u32) -> (r: Result<FieldType, AbcError>)
        ensures
            r matches Ok(f) ==> field_type_name(
                self.classes@,
                self.foreign_classes@,
                self.header,
                idx as int,
            ) == Some(f.name@),
            r is Err <==> field_type_name(
                self.classes@,
                self.foreign_classes@,
                self.header,
                idx as int,
            ) is None,
    {
        resolve_field_type(&self.classes, &self.foreign_classes, &self.header, idx)
    }

    /// The names of the classes of the main body, in storage order.
    pub fn get_class_names(&self) -> (r: Vec<String>)
        ensures
            r@.len() == self.classes@.len(),
            forall|k: int|
                0 <= k < r@.len() ==> (#[trigger] r@[k])@ == self.classes@[k].1.name.text(),
    {
        let mut out: Vec<String> = Vec::new();
        let n = self.classes.len();
        let mut i: usize = 0;
        while i < n
            invariant
                0 <= i <= n,
                n == self.classes@.len(),
                out@.len() == i,
                forall|k: int|
                    0 <= k < i ==> (#[trigger] out@[k])@ == self.classes@[k].1.name.text(),
            decreases n - i,
        {
            let ghost prev = out@;
            out.push(self.classes[i].1.name.str());
            i = i + 1;
            proof {
                assert forall|k: int| 0 <= k < i implies (#[trigger] out@[k])@
                    == self.classes@[k].1.name.text() by {
                    if k < i - 1 {
                        assert(out@[k] == prev[k]);
                    }
                }
            }
        }
        out
    }
}

/// Builds file models from byte buffers.
pub struct AbcReader {}

impl AbcReader {
    /// Reads just the header of a buffer.
    pub fn parse_header(buf: &[u8]) -> (r: Result<Header, AbcError>)
        ensures
            r is Ok <==> header_fits(buf@),
            r matches Ok(h) ==> h.matches(buf@),
    {
        Header::read(buf)
    }

    /// Builds a model from an owned buffer.
    pub fn from_vec(buf: Vec<u8>) -> (r: Result<AbcFile, AbcError>)
        ensures
            r is Ok <==> parse_ok(buf@),
            r matches Ok(f) ==> f.wf() && f.source.data@ == buf@,
            r matches Err(e) ==> !parse_ok(buf@) && e == parse_err(buf@),
    {
        AbcFile::parse(buf)
    }

    /// Builds a model from borrowed bytes, copying them.
    pub fn from_array(buf: &[u8]) -> (r: Result<AbcFile, AbcError>)
        ensures
            r is Ok <==> parse_ok(buf@),
            r matches Ok(f) ==> f.wf() && f.source.data@ == buf@,
            r matches Err(e) ==> !parse_ok(buf@) && e == parse_err(buf@),
    {
        AbcFile::parse(vstd::slice::slice_to_vec(buf))
    }
}

/// The position of the first `->` separator at or after `i`.
pub open spec fn first_arrow_from(s: Seq<char>, i: int) -> Option<int>
    decreases s.len() - i,
{
    if i < 0 || i + 1 >= s.len() {
        None
    } else if s[i] == '-' && s[i + 1] == '>' {
        Some(i)
    } else {
        first_arrow_from(s, i + 1)
    }
}

/// The position of the first `->` separator in a qualified method name.
pub open spec fn first_arrow(s: Seq<char>) -> Option<int> {
    first_arrow_from(s, 0)
}

/// The index of the first stored class whose name is `name`.
pub open spec fn class_find_by_name(cs: Seq<(u32, Class)>, name: Seq<char>) -> Option<int>
    decreases cs.len(),
{
    if cs.len() == 0 {
        None
    } else if cs[0].1.name.text() == name {
        Some(0)
    } else {
        match class_find_by_name(cs.drop_first(), name) {
            Some(i) => Some(i + 1),
            None => None,
        }
    }
}

/// Scans class `c`'s method records from slot `j` for the first whose name
/// string equals `mname`; a name offset that holds no whole string is an
/// error.
pub open spec fn method_scan(buf: Seq<u8>, c: Class, mname: Seq<char>, j: nat) -> Result<
    Option<int>,
    AbcError,
>
    decreases c.method_map@.len() - j,
{
    if j >= c.method_map@.len() {
        Ok(None)
    } else if !string_fits(buf, c.method_map@[j as int].1.name_off as int) {
        Err(string_err_at(buf, c.method_map@[j as int].1.name_off as int))
    } else if string_text(buf, c.method_map@[j as int].1.name_off as int) == mname {
        Ok(Some(j as int))
    } else {
        method_scan(buf, c, mname, j + 1)
    }
}

/// The result of disassembling the method `mname` of the class `cname`:
/// find the class by name and the method by name, resolve the region that
/// contains the method's record, decode the code record its tagged list
/// points at, and disassemble its instruction bytes.
pub open spec fn disassemble_method_r(
    buf: Seq<u8>,
    cs: Seq<(u32, Class)>,
    regions: Seq<Region>,
    lmap: Seq<(usize, String)>,
    cname: Seq<char>,
    mname: Seq<char>,
) -> Result<Seq<Seq<char>>, AbcError> {
    match class_find_by_name(cs, cname) {
        None => Err(AbcError::InvalidMethodReference),
        Some(k) => match method_scan(buf, cs[k].1, mname, 0) {
            Err(e) => Err(e),
            Ok(None) => Err(AbcError::InvalidMethodReference),
            Ok(Some(j)) => {
                let moff = cs[k].1.method_map@[j].0 as int;
                let coff = cs[k].1.method_map@[j].1.method_data.code_off as int;
                match region_find(regions, moff) {
                    None => Err(AbcError::OutOfBounds),
                    Some(ri) => match code_end(buf, coff) {
                        Err(e) => Err(e),
                        Ok(_) => disasm_r(code_instr(buf, coff), buf, regions[ri], lmap, 0),
                    },
                }
            },
        },
    }
}

/// The result of disassembling the method the qualified name denotes: the
/// name splits at its first `->`; a name without one is an invalid
/// reference.
pub open spec fn parse_method_r(
    buf: Seq<u8>,
    cs: Seq<(u32, Class)>,
    regions: Seq<Region>,
    lmap: Seq<(usize, String)>,
    name: Seq<char>,
) -> Result<Seq<Seq<char>>, AbcError> {
    match first_arrow(name) {
        None => Err(AbcError::InvalidMethodReference),
        Some(p) => disassemble_method_r(
            buf,
            cs,
            regions,
            lmap,
            name.subrange(0, p),
            name.subrange(p + 2, name.len() as int),
        ),
    }
}

/// The position of the first `->` separator in a qualified method name.
fn find_arrow(s: &str) -> (r: Option<usize>)
    ensures
        r matches Some(p) ==> p + 2 <= s@.len() && first_arrow(s@) == Some(p as int),
        r is None ==> first_arrow(s@) is None,
{
    let len = s.unicode_len();
    if len < 2 {
        return None;
    }
    let mut i: usize = 0;
    while i < len - 1
        invariant
            len == s@.len(),
            2 <= len,
            0 <= i <= len - 1,
            first_arrow(s@) == first_arrow_from(s@, i as int),
        decreases len - i,
    {
        if s.get_char(i) == '-' && s.get_char(i + 1) == '>' {
            return Some(i);
        }
        i = i + 1;
    }
    None
}

/// Every method name offset of class `c` holds a whole string.
pub open spec fn class_method_names_ok(buf: Seq<u8>, c: Class) -> bool {
    forall|j: int|
        0 <= j < c.method_map@.len() ==> string_fits(
            buf,
            (#[trigger] c.method_map@[j]).1.name_off as int,
        )
}

/// Every method name offset of every stored class holds a whole string.
pub open spec fn method_names_ok(buf: Seq<u8>, cs: Seq<(u32, Class)>) -> bool {
    forall|k: int| 0 <= k < cs.len() ==> #[trigger] class_method_names_ok(buf, cs[k].1)
}

/// The qualified name of method `j` of class `c`:
/// `ClassName->methodName`.
pub open spec fn class_method_name(buf: Seq<u8>, c: Class, j: int) -> Seq<char> {
    c.name.text() + "->"@ + string_text(buf, c.method_map@[j].1.name_off as int)
}

/// The qualified names of all methods of class `c`, in record order.
pub open spec fn class_method_names(buf: Seq<u8>, c: Class) -> Seq<Seq<char>> {
    Seq::new(c.method_map@.len(), |j: int| class_method_name(buf, c, j))
}

/// The qualified names of all methods of the first `k` classes.
pub open spec fn method_names_upto(buf: Seq<u8>, cs: Seq<(u32, Class)>, k: int) -> Seq<Seq<char>>
    decreases k,
{
    if k <= 0 {
        Seq::<Seq<char>>::empty()
    } else {
        method_names_upto(buf, cs, k - 1) + class_method_names(buf, cs[k - 1].1)
    }
}

impl AbcFile {
    /// The qualified `ClassName->methodName` entries of every method, in
    /// class and record order.  Succeeds exactly when every method's name
    /// offset holds a whole string.
    pub fn get_method_names(&self) -> (r: Result<Vec<String>, AbcError>)
        ensures
            r is Ok <==> method_names_ok(self.source.data@, self.classes@),
            r matches Ok(v) ==> {
                let expected = method_names_upto(
                    self.source.data@,
                    self.classes@,
                    self.classes@.len() as int,
                );
                v@.len() == expected.len() && forall|k: int|
                    0 <= k < v@.len() ==> (#[trigger] v@[k])@ == expected[k]
            },
            r matches Err(e) ==> e == AbcError::OutOfBounds || e == AbcError::InvalidLeb128,
    {
        let ghost buf = self.source.data@;
        let ghost cs = self.classes@;
        let bytes = self.source.bytes();
        let mut out: Vec<String> = Vec::new();
        let n = self.classes.len();
        let mut i: usize = 0;
        while i < n
            invariant
                0 <= i <= n,
                n == self.classes@.len(),
                buf == self.source.data@,
                cs == self.classes@,
                bytes@ == buf,
                out@.len() == method_names_upto(buf, cs, i as int).len(),
                forall|k: int| 0 <= k < i ==> #[trigger] class_method_names_ok(buf, cs[k].1),
                forall|k: int|
                    0 <= k < out@.len() ==> (#[trigger] out@[k])@ == method_names_upto(
                        buf,
                        cs,
                        i as int,
                    )[k],
            decreases n - i,
        {
            let c = &self.classes[i].1;
            let m = c.method_map.len();
            let ghost base = method_names_upto(buf, cs, i as int);
            let mut j: usize = 0;
            while j < m
                invariant
                    0 <= j <= m,
                    0 <= i < n,
                    n == self.classes@.len(),
                    m == c.method_map@.len(),
                    buf == self.source.data@,
                    cs == self.classes@,
                    bytes@ == buf,
                    *c == cs[i as int].1,
                    base == method_names_upto(buf, cs, i as int),
                    out@.len() == base.len() + j,
                    forall|k: int| 0 <= k < i ==> #[trigger] class_method_names_ok(buf, cs[k].1),
                    forall|t: int|
                        0 <= t < j ==> string_fits(
                            buf,
                            (#[trigger] c.method_map@[t]).1.name_off as int,
                        ),
                    forall|k: int|
                        0 <= k < base.len() ==> (#[trigger] out@[k])@ == base[k],
                    forall|k: int|
                        base.len() <= k < out@.len() ==> (#[trigger] out@[k])@
                            == class_method_name(buf, cs[i as int].1, k - base.len()),
                decreases m - j,
            {
                let name_off = c.method_map[j].1.name_off;
                let s = match ABCString::read(bytes, name_off as usize) {
                    Ok(s) => s,
                    Err(e) => {
                        proof {
                            assert(!string_fits(buf, c.method_map@[j as int].1.name_off as int));
                            assert(!class_method_names_ok(buf, cs[i as int].1));
                            assert(!method_names_ok(buf, cs));
                        }
                        return Err(e);
                    },
                };
                let mut qualified = c.name.str();
                qualified.append("->");
                let mname = s.str();
                qualified.append(mname.as_str());
                assert(qualified@ =~= class_method_name(buf, cs[i as int].1, j as int));
                let ghost prev = out@;
                out.push(qualified);
                j = j + 1;
                proof {
                    assert forall|k: int| 0 <= k < out@.len() implies ((k < base.len() ==> (
                    #[trigger] out@[k])@ == base[k]) && (base.len() <= k ==> out@[k]@
                        == class_method_name(buf, cs[i as int].1, k - base.len()))) by {
                        if k < prev.len() {
                            assert(out@[k] == prev[k]);
                        }
                    }
                }
            }
            proof {
                assert(class_method_names_ok(buf, cs[i as int].1));
            }
            i = i + 1;
            proof {
                let stepped = method_names_upto(buf, cs, i as int);
                assert(stepped == base + class_method_names(buf, cs[i - 1].1));
                assert forall|k: int| 0 <= k < out@.len() implies (#[trigger] out@[k])@
                    == stepped[k] by {
                    if k < base.len() {
                        assert(stepped[k] == base[k]);
                    } else {
                        assert(stepped[k] == class_method_names(buf, cs[i - 1].1)[k - base.len()]);
                    }
                }
            }
        }
        proof {
            assert(method_names_ok(buf, cs));
        }
        Ok(out)
    }

    /// Disassembles the method named `Class->method`: splits the name at
    /// its first `->` and delegates to `disassemble_method`.
    pub fn parse_method(&self, name: String) -> (r: Result<Vec<String>, AbcError>)
        ensures
            r is Ok <==> parse_method_r(
                self.source.data@,
                self.classes@,
                self.regions@,
                self.literal_array_map@,
                name@,
            ) is Ok,
            r matches Ok(lines) ==> parse_method_r(
                self.source.data@,
                self.classes@,
                self.regions@,
                self.literal_array_map@,
                name@,
            ) == Ok::<Seq<Seq<char>>, AbcError>(texts(lines@)),
            r matches Err(e) ==> parse_method_r(
                self.source.data@,
                self.classes@,
                self.regions@,
                self.literal_array_map@,
                name@,
            ) == Err::<Seq<Seq<char>>, AbcError>(e),
    {
        let len = name.as_str().unicode_len();
        let pos = match find_arrow(name.as_str()) {
            Some(p) => p,
            None => {
                return Err(AbcError::InvalidMethodReference);
            },
        };
        let target_class = name.as_str().substring_char(0, pos).to_owned();
        let target_method = name.as_str().substring_char(pos + 2, len).to_owned();
        self.disassemble_method(&target_class, &target_method)
    }

    /// Disassembles the method `method_name` of class `class_name`:
    /// exactly `disassemble_method_r` over the stored model.
    pub fn disassemble_method(&self, class_name: &String, method_name: &String) -> (r: Result<
        Vec<String>,
        AbcError,
    >)
        ensures
            r is Ok <==> disassemble_method_r(
                self.source.data@,
                self.classes@,
                self.regions@,
                self.literal_array_map@,
                class_name@,
                method_name@,
            ) is Ok,
            r matches Ok(lines) ==> disassemble_method_r(
                self.source.data@,
                self.classes@,
                self.regions@,
                self.literal_array_map@,
                class_name@,
                method_name@,
            ) == Ok::<Seq<Seq<char>>, AbcError>(texts(lines@)),
            r matches Err(e) ==> disassemble_method_r(
                self.source.data@,
                self.classes@,
                self.regions@,
                self.literal_array_map@,
                class_name@,
                method_name@,
            ) == Err::<Seq<Seq<char>>, AbcError>(e),
    {
        let ghost buf = self.source.data@;
        let ghost cs = self.classes@;
        let bytes = self.source.bytes();
        let n = self.classes.len();
        let mut i: usize = 0;
        assert(cs.skip(0) =~= cs);
        while i < n
            invariant
                0 <= i <= n,
                n == cs.len(),
                buf == self.source.data@,
                cs == self.classes@,
                bytes@ == buf,
                match class_find_by_name(cs.skip(i as int), class_name@) {
                    Some(j) => class_find_by_name(cs, class_name@) == Some(j + i),
                    None => class_find_by_name(cs, class_name@) is None,
                },
            decreases n - i,
        {
            proof {
                assert(cs.skip(i as int)[0] == cs[i as int]);
                assert(cs.skip(i as int).drop_first() =~= cs.skip(i + 1));
            }
            let c = &self.classes[i].1;
            let cname = c.name.str();
            if cname == *class_name {
                proof {
                    assert(class_find_by_name(cs, class_name@) == Some(i as int));
                }
                let m = c.method_map.len();
                let mut j: usize = 0;
                while j < m
                    invariant
                        0 <= j <= m,
                        0 <= i < n,
                        n == cs.len(),
                        m == c.method_map@.len(),
                        buf == self.source.data@,
                        cs == self.classes@,
                        *c == cs[i as int].1,
                        class_find_by_name(cs, class_name@) == Some(i as int),
                        bytes@ == buf,
                        method_scan(buf, cs[i as int].1, method_name@, 0) == method_scan(
                            buf,
                            cs[i as int].1,
                            method_name@,
                            j as nat,
                        ),
                    decreases m - j,
                {
                    let method_off = c.method_map[j].0;
                    let s = match ABCString::read(bytes, c.method_map[j].1.name_off as usize) {
                        Ok(s) => s,
                        Err(e) => {
                            proof {
                                assert(method_scan(buf, cs[i as int].1, method_name@, j as nat)
                                    == Err::<Option<int>, AbcError>(e));
                            }
                            return Err(e);
                        },
                    };
                    let mname = s.str();
                    if mname == *method_name {
                        proof {
                            assert(method_scan(buf, cs[i as int].1, method_name@, 0) == Ok::<
                                Option<int>,
                                AbcError,
                            >(Some(j as int)));
                        }
                        let code_off = c.method_map[j].1.method_data.code_off;
                        let region = match self.get_region(method_off) {
                            Some(reg) => reg,
                            None => {
                                return Err(AbcError::OutOfBounds);
                            },
                        };
                        let code = match Code::read(bytes, code_off as usize) {
                            Ok(c) => c,
                            Err(e) => {
                                return Err(e);
                            },
                        };
                        proof {
                            assert(code.instructions@ == code_instr(buf, code_off as int));
                        }
                        let parser = BytecodeParser::new();
                        return parser.parse(&code, region, bytes, &self.literal_array_map);
                    }
                    j = j + 1;
                }
                proof {
                    assert(method_scan(buf, cs[i as int].1, method_name@, 0) == Ok::<
                        Option<int>,
                        AbcError,
                    >(None));
                }
                return Err(AbcError::InvalidMethodReference);
            }
            i = i + 1;
        }
        proof {
            assert(cs.skip(n as int) =~= Seq::<(u32, Class)>::empty());
        }
        Err(AbcError::InvalidMethodReference)
    }
}

/// Some method record of class `c` starts at `off`.
pub open spec fn class_has_method_at(c: Class, off: int) -> bool {
    exists|j: int| 0 <= j < c.method_map@.len() && (#[trigger] c.method_map@[j]).0 == off
}

/// Some method record of some stored class starts at `off`.
pub open spec fn is_method_start(cs: Seq<(u32, Class)>, off: int) -> bool {
    exists|k: int| 0 <= k < cs.len() && #[trigger] class_has_method_at(cs[k].1, off)
}

/// Whether any stored class has a method record starting at `off`.
fn is_method_offset(cs: &Vec<(u32, Class)>, off: usize) -> (r: bool)
    ensures
        r == is_method_start(cs@, off as int),
{
    let n = cs.len();
    let mut i: usize = 0;
    while i < n
        invariant
            0 <= i <= n,
            n == cs@.len(),
            forall|k: int| 0 <= k < i ==> !#[trigger] class_has_method_at(cs@[k].1, off as int),
        decreases n - i,
    {
        if cs[i].1.has_method(off) {
            assert(class_has_method_at(cs@[i as int].1, off as int));
            return true;
        }
        assert(!class_has_method_at(cs@[i as int].1, off as int));
        i = i + 1;
    }
    false
}

/// The strings recovered from the first `n` slots of one region's
/// method/string/literal sub-index: entries that are method records or
/// literal arrays are skipped, and so are entries that do not decode as a
/// string.
pub open spec fn region_strings(
    buf: Seq<u8>,
    cs: Seq<(u32, Class)>,
    lmap: Seq<(usize, String)>,
    msl: Seq<u32>,
    n: int,
) -> Seq<Seq<char>>
    decreases n,
{
    if n <= 0 {
        Seq::<Seq<char>>::empty()
    } else {
        let prev = region_strings(buf, cs, lmap, msl, n - 1);
        let off = msl[n - 1] as int;
        if is_method_start(cs, off) || lmap_find(lmap, off) is Some || !string_fits(buf, off)
            || string_text(buf, off) == "-utf8-error-"@ {
            prev
        } else {
            prev.push(string_text(buf, off))
        }
    }
}

/// The strings recovered from the sub-indices of the first `k` regions.
pub open spec fn all_strings(
    buf: Seq<u8>,
    cs: Seq<(u32, Class)>,
    lmap: Seq<(usize, String)>,
    rs: Seq<Region>,
    k: int,
) -> Seq<Seq<char>>
    decreases k,
{
    if k <= 0 {
        Seq::<Seq<char>>::empty()
    } else {
        all_strings(buf, cs, lmap, rs, k - 1) + region_strings(
            buf,
            cs,
            lmap,
            rs[k - 1].method_string_literal_region_idx.offsets@,
            rs[k - 1].method_string_literal_region_idx.offsets@.len() as int,
        )
    }
}

impl AbcFile {
    /// The strings the method/string/literal sub-indices point at,
    /// excluding offsets of method records and literal arrays and entries
    /// that do not decode as strings.
    pub fn get_strings(&self) -> (r: Vec<String>)
        ensures
            ({
                let expected = all_strings(
                    self.source.data@,
                    self.classes@,
                    self.literal_array_map@,
                    self.regions@,
                    self.regions@.len() as int,
                );
                r@.len() == expected.len() && forall|k: int|
                    0 <= k < r@.len() ==> (#[trigger] r@[k])@ == expected[k]
            }),
    {
        let ghost buf = self.source.data@;
        let ghost cs = self.classes@;
        let ghost lmap = self.literal_array_map@;
        let ghost rs = self.regions@;
        let bytes = self.source.bytes();
        let mut out: Vec<String> = Vec::new();
        let n = self.regions.len();
        let mut i: usize = 0;
        while i < n
            invariant
                0 <= i <= n,
                n == self.regions@.len(),
                buf == self.source.data@,
                cs == self.classes@,
                lmap == self.literal_array_map@,
                rs == self.regions@,
                bytes@ == buf,
                out@.len() == all_strings(buf, cs, lmap, rs, i as int).len(),
                forall|k: int|
                    0 <= k < out@.len() ==> (#[trigger] out@[k])@ == all_strings(
                        buf,
                        cs,
                        lmap,
                        rs,
                        i as int,
                    )[k],
            decreases n - i,
        {
            let region = &self.regions[i];
            let m = region.method_string_literal_region_idx.offsets.len();
            let ghost base = all_strings(buf, cs, lmap, rs, i as int);
            let ghost msl = rs[i as int].method_string_literal_region_idx.offsets@;
            let mut j: usize = 0;
            while j < m
                invariant
                    0 <= j <= m,
                    0 <= i < n,
                    n == self.regions@.len(),
                    m == msl.len(),
                    buf == self.source.data@,
                    cs == self.classes@,
                    lmap == self.literal_array_map@,
                    rs == self.regions@,
                    bytes@ == buf,
                    *region == rs[i as int],
                    msl == rs[i as int].method_string_literal_region_idx.offsets@,
                    base == all_strings(buf, cs, lmap, rs, i as int),
                    out@.len() == base.len() + region_strings(buf, cs, lmap, msl, j as int).len(),
                    forall|k: int|
                        0 <= k < base.len() ==> (#[trigger] out@[k])@ == base[k],
                    forall|k: int|
                        base.len() <= k < out@.len() ==> (#[trigger] out@[k])@ == region_strings(
                            buf,
                            cs,
                            lmap,
                            msl,
                            j as int,
                        )[k - base.len()],
                decreases m - j,
            {
                let off = region.method_string_literal_region_idx.offsets[j] as usize;
                let mut skip = is_method_offset(&self.classes, off);
                if !skip {
                    skip = match lmap_get(&self.literal_array_map, off) {
                        Some(_) => true,
                        None => false,
                    };
                }
                let ghost prev = out@;
                if !skip {
                    match ABCString::read(bytes, off) {
                        Ok(s) => {
                            let text = s.str();
                            if !(text == String::from_str("-utf8-error-")) {
                                out.push(text);
                            }
                        },
                        Err(_) => {},
                    }
                }
                j = j + 1;
                proof {
                    assert forall|k: int| 0 <= k < out@.len() implies ((k < base.len() ==> (
                    #[trigger] out@[k])@ == base[k]) && (base.len() <= k ==> out@[k]@
                        == region_strings(buf, cs, lmap, msl, j as int)[k - base.len()])) by {
                        if k < prev.len() {
                            assert(out@[k] == prev[k]);
                        }
                    }
                }
            }
            i = i + 1;
            proof {
                let stepped = all_strings(buf, cs, lmap, rs, i as int);
                assert(stepped == base + region_strings(buf, cs, lmap, msl, m as int));
                assert forall|k: int| 0 <= k < out@.len() implies (#[trigger] out@[k])@
                    == stepped[k] by {
                    if k < base.len() {
                        assert(stepped[k] == base[k]);
                    } else {
                        assert(stepped[k] == region_strings(buf, cs, lmap, msl, m as int)[k
                            - base.len()]);
                    }
                }
            }
        }
        out
    }
}

} // verus!
