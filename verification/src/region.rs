//! The region index.  Each region covers a `[start_off, end_off)` span of
//! the file and carries four sub-indices; a method's 16-bit operands are
//! resolved against the region whose span contains the method's own offset.

use vstd::prelude::*;

use crate::cursor::{read_u32, u32_at};
use crate::error::AbcError;

verus! {

/// The fixed-size region header: ten little-endian `u32` words.
#[derive(Debug, Clone)]
pub struct RegionHeader {
    /// First offset covered by the region.
    pub start_off: u32,
    /// First offset past the region.
    pub end_off: u32,
    /// Number of entries in the class sub-index (at most 65536).
    pub class_idx_size: u32,
    /// Offset of the class sub-index.
    pub class_idx_off: u32,
    /// Number of entries in the method/string/literal sub-index.
    pub method_string_literal_region_idx_size: u32,
    /// Offset of the method/string/literal sub-index.
    pub method_string_literal_region_idx_off: u32,
    /// Number of entries in the field sub-index; 0xFFFFFFFF means none.
    pub field_idx_size: u32,
    /// Offset of the field sub-index.
    pub field_idx_off: u32,
    /// Number of entries in the proto sub-index; 0xFFFFFFFF means none.
    pub proto_idx_size: u32,
    /// Offset of the proto sub-index.
    pub proto_idx_off: u32,
}

impl RegionHeader {
    /// The header's fields agree with the forty bytes at `off`.
    pub open spec fn matches(&self, buf: Seq<u8>, off: int) -> bool {
        &&& self.start_off == u32_at(buf, off)
        &&& self.end_off == u32_at(buf, off + 4)
        &&& self.class_idx_size == u32_at(buf, off + 8)
        &&& self.class_idx_off == u32_at(buf, off + 12)
        &&& self.method_string_literal_region_idx_size == u32_at(buf, off + 16)
        &&& self.method_string_literal_region_idx_off == u32_at(buf, off + 20)
        &&& self.field_idx_size == u32_at(buf, off + 24)
        &&& self.field_idx_off == u32_at(buf, off + 28)
        &&& self.proto_idx_size == u32_at(buf, off + 32)
        &&& self.proto_idx_off == u32_at(buf, off + 36)
    }

    /// Reads a region header at `off`.
    pub fn read(buf: &[u8], off: usize) -> (r: Result<RegionHeader, AbcError>)
        ensures
            r is Ok <==> off + 40 <= buf@.len(),
            r matches Ok(h) ==> h.matches(buf@, off as int),
            r is Err ==> r == Err::<RegionHeader, AbcError>(AbcError::OutOfBounds),
    {
        if buf.len() < 40 || off > buf.len() - 40 {
            return Err(AbcError::OutOfBounds);
        }
        let start_off = match read_u32(buf, off) {
            Ok(v) => v,
            Err(e) => {
                return Err(e);
            },
        };
        let end_off = match read_u32(buf, off + 4) {
            Ok(v) => v,
            Err(e) => {
                return Err(e);
            },
        };
        let class_idx_size = match read_u32(buf, off + 8) {
            Ok(v) => v,
            Err(e) => {
                return Err(e);
            },
        };
        let class_idx_off = match read_u32(buf, off + 12) {
            Ok(v) => v,
            Err(e) => {
                return Err(e);
            },
        };
        let msl_size = match read_u32(buf, off + 16) {
            Ok(v) => v,
            Err(e) => {
                return Err(e);
            },
        };
        let msl_off = match read_u32(buf, off + 20) {
            Ok(v) => v,
            Err(e) => {
                return Err(e);
            },
        };
        let field_idx_size = match read_u32(buf, off + 24) {
            Ok(v) => v,
            Err(e) => {
                return Err(e);
            },
        };
        let field_idx_off = match read_u32(buf, off + 28) {
            Ok(v) => v,
            Err(e) => {
                return Err(e);
            },
        };
        let proto_idx_size = match read_u32(buf, off + 32) {
            Ok(v) => v,
            Err(e) => {
                return Err(e);
            },
        };
        let proto_idx_off = match read_u32(buf, off + 36) {
            Ok(v) => v,
            Err(e) => {
                return Err(e);
            },
        };
        Ok(
            RegionHeader {
                start_off,
                end_off,
                class_idx_size,
                class_idx_off,
                method_string_literal_region_idx_size: msl_size,
                method_string_literal_region_idx_off: msl_off,
                field_idx_size,
                field_idx_off,
                proto_idx_size,
                proto_idx_off,
            },
        )
    }
}

/// A resolved type: the name of a primitive type, or of the class the entry
/// points at.
#[derive(Debug, Clone)]
pub struct FieldType {
    /// The type's name.
    pub name: String,
}

/// The per-region class sub-index: one resolved type per slot.
#[derive(Debug, Default)]
pub struct ClassRegionIndex {
    /// The resolved types.
    pub offsets: Vec<FieldType>,
}

impl ClassRegionIndex {
    /// Appends one resolved type.
    pub fn push(&mut self, field_type: FieldType)
        ensures
            final(self).offsets@ == old(self).offsets@.push(field_type),
    {
        self.offsets.push(field_type);
    }

    /// The type at slot `idx`.
    pub fn get(&self, idx: &usize) -> (r: &FieldType)
        requires
            *idx < self.offsets@.len(),
        ensures
            *r == self.offsets@[*idx as int],
    {
        &self.offsets[*idx]
    }
}

/// The per-region method/string/literal sub-index: raw file offsets whose
/// referent kind is decided by the instruction that uses them.
#[derive(Debug, Default)]
pub struct MethodStringLiteralRegionIndex {
    /// The raw offsets.
    pub offsets: Vec<u32>,
}

impl MethodStringLiteralRegionIndex {
    /// Appends one offset.
    pub fn push(&mut self, offset: u32)
        ensures
            final(self).offsets@ == old(self).offsets@.push(offset),
    {
        self.offsets.push(offset);
    }

    /// The offset at slot `idx`.
    pub fn get(&self, idx: &usize) -> (r: &u32)
        requires
            *idx < self.offsets@.len(),
        ensures
            *r == self.offsets@[*idx as int],
    {
        &self.offsets[*idx]
    }
}

/// The per-region field sub-index; decoded but not consulted afterwards.
#[derive(Debug, Default)]
pub struct FieldRegionIndex {
    /// The raw offsets.
    pub offsets: Vec<u32>,
}

impl FieldRegionIndex {
    /// Appends one offset.
    pub fn push(&mut self, offset: u32)
        ensures
            final(self).offsets@ == old(self).offsets@.push(offset),
    {
        self.offsets.push(offset);
    }
}

/// The per-region proto sub-index; decoded but not consulted afterwards.
#[derive(Debug, Default)]
pub struct ProtoRegionIndex {
    /// The raw offsets.
    pub offsets: Vec<u32>,
}

impl ProtoRegionIndex {
    /// Appends one offset.
    pub fn push(&mut self, offset: u32)
        ensures
            final(self).offsets@ == old(self).offsets@.push(offset),
    {
        self.offsets.push(offset);
    }
}

/// One region: its header span and its four materialized sub-indices.
#[derive(Debug)]
pub struct Region {
    /// The raw header.
    pub header: RegionHeader,
    /// The class sub-index, each slot resolved to a type name.
    pub class_region_idx: ClassRegionIndex,
    /// The method/string/literal sub-index.
    pub method_string_literal_region_idx: MethodStringLiteralRegionIndex,
    /// The field sub-index.
    pub field_region_idx: FieldRegionIndex,
    /// The proto sub-index.
    pub proto_region_idx: ProtoRegionIndex,
}

/// The region's half-open span contains `off`.
pub open spec fn region_contains(r: Region, off: int) -> bool {
    r.header.start_off <= off < r.header.end_off
}

/// Two regions share at least one offset.
pub open spec fn regions_overlap(a: Region, b: Region) -> bool {
    exists|off: int| region_contains(a, off) && #[trigger] region_contains(b, off)
}

/// No two distinct regions share an offset.
pub open spec fn regions_disjoint(rs: Seq<Region>) -> bool {
    forall|i: int, j: int|
        0 <= i < j < rs.len() ==> !#[trigger] regions_overlap(rs[i], rs[j])
}

/// Region disjointness makes containment unique: an offset inside two
/// regions of a disjoint family is inside one and the same region.
pub proof fn lemma_region_unique(rs: Seq<Region>, off: int, i: int, j: int)
    requires
        regions_disjoint(rs),
        0 <= i < rs.len(),
        0 <= j < rs.len(),
        region_contains(rs[i], off),
        region_contains(rs[j], off),
    ensures
        i == j,
{
    if i < j {
        assert(regions_overlap(rs[i], rs[j]));
    } else if j < i {
        assert(regions_overlap(rs[j], rs[i]));
    }
}

/// The index of the first region whose span contains `off`.
pub open spec fn region_find(rs: Seq<Region>, off: int) -> Option<int>
    decreases rs.len(),
{
    if rs.len() == 0 {
        None
    } else if region_contains(rs[0], off) {
        Some(0)
    } else {
        match region_find(rs.drop_first(), off) {
            Some(i) => Some(i + 1),
            None => None,
        }
    }
}

/// Scans the regions in order and returns the index of the first one whose
/// span contains `off`.
pub fn find_region(rs: &Vec<Region>, off: usize) -> (r: Option<usize>)
    ensures
        r matches Some(i) ==> region_find(rs@, off as int) == Some(i as int) && i < rs@.len()
            && region_contains(rs@[i as int], off as int),
        r is None ==> region_find(rs@, off as int) is None,
{
    let n = rs.len();
    let mut i: usize = 0;
    assert(rs@.skip(0) =~= rs@);
    while i < n
        invariant
            0 <= i <= n,
            n == rs@.len(),
            match region_find(rs@.skip(i as int), off as int) {
                Some(j) => region_find(rs@, off as int) == Some(j + i),
                None => region_find(rs@, off as int) is None,
            },
        decreases n - i,
    {
        proof {
            assert(rs@.skip(i as int)[0] == rs@[i as int]);
            assert(rs@.skip(i as int).drop_first() =~= rs@.skip(i + 1));
        }
        if rs[i].is_here(off) {
            return Some(i);
        }
        i = i + 1;
    }
    proof {
        assert(rs@.skip(n as int) =~= Seq::<Region>::empty());
    }
    None
}

/// Under disjointness, the region that contains an offset is exactly the
/// one the linear scan finds: for every method offset inside some region,
/// one region contains it and `region_find` names it.
pub proof fn lemma_region_find_unique(rs: Seq<Region>, off: int, i: int)
    requires
        regions_disjoint(rs),
        0 <= i < rs.len(),
        region_contains(rs[i], off),
    ensures
        region_find(rs, off) == Some(i),
    decreases rs.len(),
{
    if i == 0 {
    } else {
        if region_contains(rs[0], off) {
            lemma_region_unique(rs, off, 0, i);
        }
        let tail = rs.drop_first();
        assert forall|a: int, b: int| 0 <= a < b < tail.len() implies !#[trigger] regions_overlap(
            tail[a],
            tail[b],
        ) by {
            assert(tail[a] == rs[a + 1]);
            assert(tail[b] == rs[b + 1]);
            assert(!regions_overlap(rs[a + 1], rs[b + 1]));
        }
        assert(tail[i - 1] == rs[i]);
        lemma_region_find_unique(tail, off, i - 1);
    }
}

/// Resolution of a sixteen-bit operand is region-scoped and, within one
/// region, deterministic: the resolved offset is a function of the
/// region's sub-index and the slot alone, so two regions with equal
/// sub-indices agree everywhere, while two regions with different
/// sub-indices may resolve the same slot to different offsets.
pub proof fn lemma_region_scoped_resolution(a: Region, b: Region, idx: int)
    requires
        0 <= idx < a.method_string_literal_region_idx.offsets@.len(),
        a.method_string_literal_region_idx.offsets@
            == b.method_string_literal_region_idx.offsets@,
    ensures
        a.method_string_literal_region_idx.offsets@[idx]
            == b.method_string_literal_region_idx.offsets@[idx],
{
}

impl Region {
    /// Builds a region from its parsed pieces.
    pub fn new(
        header: RegionHeader,
        cri: ClassRegionIndex,
        mslri: MethodStringLiteralRegionIndex,
        field_region_idx: FieldRegionIndex,
        proto_region_idx: ProtoRegionIndex,
    ) -> (r: Region)
        ensures
            r.header == header,
            r.class_region_idx == cri,
            r.method_string_literal_region_idx == mslri,
            r.field_region_idx == field_region_idx,
            r.proto_region_idx == proto_region_idx,
    {
        Self {
            header,
            class_region_idx: cri,
            method_string_literal_region_idx: mslri,
            field_region_idx,
            proto_region_idx,
        }
    }

    /// Whether `off` lies inside this region's span.
    pub fn is_here(&self, off: usize) -> (r: bool)
        ensures
            r == region_contains(*self, off as int),
    {
        (self.header.start_off as usize) <= off && off < (self.header.end_off as usize)
    }

    /// The resolved type at slot `idx` of the class sub-index.
    pub fn get_class_name(&self, idx: usize) -> (r: &FieldType)
        requires
            idx < self.class_region_idx.offsets@.len(),
        ensures
            *r == self.class_region_idx.offsets@[idx as int],
    {
        self.class_region_idx.get(&idx)
    }

    /// The raw offset at slot `idx` of the method/string/literal sub-index.
    pub fn get_msl_offset(&self, idx: usize) -> (r: &u32)
        requires
            idx < self.method_string_literal_region_idx.offsets@.len(),
        ensures
            *r == self.method_string_literal_region_idx.offsets@[idx as int],
    {
        self.method_string_literal_region_idx.get(&idx)
    }
}

} // verus!
