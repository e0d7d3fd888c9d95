//! The fixed 60-byte file header: magic, checksum, version, and the offsets
//! and counts that drive every later parsing stage.

use vstd::prelude::*;

use crate::cursor::{read_u32, u32_at};
use crate::error::AbcError;

verus! {

/// The eight magic bytes every ABC file starts with: `P A N D A 0 0 0`.
pub open spec fn magic_seq() -> Seq<u8> {
    seq![0x50u8, 0x41u8, 0x4eu8, 0x44u8, 0x41u8, 0u8, 0u8, 0u8]
}

/// The buffer starts with the magic bytes.
pub open spec fn magic_ok(buf: Seq<u8>) -> bool {
    buf.len() >= 8 && buf.subrange(0, 8) == magic_seq()
}

/// A header can be read: sixty bytes are present and the magic matches.
pub open spec fn header_fits(buf: Seq<u8>) -> bool {
    buf.len() >= 60 && magic_ok(buf)
}

/// The file-size word of the header.
pub open spec fn hdr_file_size(buf: Seq<u8>) -> int {
    u32_at(buf, 16) as int
}

/// The foreign-region offset word of the header.
pub open spec fn hdr_foreign_off(buf: Seq<u8>) -> int {
    u32_at(buf, 20) as int
}

/// The foreign-region size word of the header.
pub open spec fn hdr_foreign_size(buf: Seq<u8>) -> int {
    u32_at(buf, 24) as int
}

/// The class-count word of the header.
pub open spec fn hdr_num_classes(buf: Seq<u8>) -> int {
    u32_at(buf, 28) as int
}

/// The class-index offset word of the header.
pub open spec fn hdr_class_idx_off(buf: Seq<u8>) -> int {
    u32_at(buf, 32) as int
}

/// The literal-array count word of the header.
pub open spec fn hdr_num_literalarrays(buf: Seq<u8>) -> int {
    u32_at(buf, 44) as int
}

/// The literal-array index offset word of the header.
pub open spec fn hdr_literalarray_idx_off(buf: Seq<u8>) -> int {
    u32_at(buf, 48) as int
}

/// The region-count word of the header.
pub open spec fn hdr_region_size(buf: Seq<u8>) -> int {
    u32_at(buf, 52) as int
}

/// The region-section offset word of the header.
pub open spec fn hdr_region_off(buf: Seq<u8>) -> int {
    u32_at(buf, 56) as int
}

/// The decoded file header.  All multi-byte fields are little-endian.
#[derive(Debug, Clone)]
pub struct Header {
    /// The eight magic bytes.
    pub magic: [u8; 8],
    /// The adler32 checksum field (not verified by this crate).
    pub checksum: [u8; 4],
    /// The format version number.
    pub version: [u8; 4],
    /// Size of the file in bytes.
    pub file_size: u32,
    /// Offset of the foreign region.
    pub foreign_off: u32,
    /// Size of the foreign region in bytes.
    pub foreign_size: u32,
    /// Number of entries in the class index.
    pub num_classes: u32,
    /// Offset of the class index.
    pub class_idx_off: u32,
    /// Number of line-number programs.
    pub num_lnps: u32,
    /// Offset of the line-number-program index.
    pub lnp_idx_off: u32,
    /// Number of literal arrays.
    pub num_literalarrays: u32,
    /// Offset of the literal-array index.
    pub literalarray_idx_off: u32,
    /// Number of regions.
    pub region_size: u32,
    /// Offset of the region section.
    pub region_off: u32,
}

impl Header {
    /// The header's scalar fields agree with the bytes of the buffer.
    pub open spec fn matches(&self, buf: Seq<u8>) -> bool {
        &&& self.magic@ == buf.subrange(0, 8)
        &&& self.checksum@ == buf.subrange(8, 12)
        &&& self.version@ == buf.subrange(12, 16)
        &&& self.file_size == u32_at(buf, 16)
        &&& self.foreign_off == u32_at(buf, 20)
        &&& self.foreign_size == u32_at(buf, 24)
        &&& self.num_classes == u32_at(buf, 28)
        &&& self.class_idx_off == u32_at(buf, 32)
        &&& self.num_lnps == u32_at(buf, 36)
        &&& self.lnp_idx_off == u32_at(buf, 40)
        &&& self.num_literalarrays == u32_at(buf, 44)
        &&& self.literalarray_idx_off == u32_at(buf, 48)
        &&& self.region_size == u32_at(buf, 52)
        &&& self.region_off == u32_at(buf, 56)
    }

    /// Reads the header from the first sixty bytes of the buffer.  Fails
    /// with `MalformedHeader` exactly when the buffer is shorter than a
    /// header or the magic does not match.
    pub fn read(buf: &[u8]) -> (r: Result<Header, AbcError>)
        ensures
            r is Ok <==> header_fits(buf@),
            r matches Ok(h) ==> h.matches(buf@) && h.magic@ == magic_seq(),
            r is Err ==> r == Err::<Header, AbcError>(AbcError::MalformedHeader),
    {
        if buf.len() < 60 {
            return Err(AbcError::MalformedHeader);
        }
        let magic: [u8; 8] = [buf[0], buf[1], buf[2], buf[3], buf[4], buf[5], buf[6], buf[7]];
        if !(buf[0] == 0x50 && buf[1] == 0x41 && buf[2] == 0x4e && buf[3] == 0x44 && buf[4] == 0x41
            && buf[5] == 0 && buf[6] == 0 && buf[7] == 0) {
            assert(buf@.subrange(0, 8) != magic_seq()) by {
                if buf@.subrange(0, 8) == magic_seq() {
                    assert(buf@[0] == magic_seq()[0]);
                    assert(buf@[1] == magic_seq()[1]);
                    assert(buf@[2] == magic_seq()[2]);
                    assert(buf@[3] == magic_seq()[3]);
                    assert(buf@[4] == magic_seq()[4]);
                    assert(buf@[5] == magic_seq()[5]);
                    assert(buf@[6] == magic_seq()[6]);
                    assert(buf@[7] == magic_seq()[7]);
                }
            };
            return Err(AbcError::MalformedHeader);
        }
        let checksum: [u8; 4] = [buf[8], buf[9], buf[10], buf[11]];
        let version: [u8; 4] = [buf[12], buf[13], buf[14], buf[15]];
        let file_size = match read_u32(buf, 16) {
            Ok(v) => v,
            Err(_) => {
                return Err(AbcError::MalformedHeader);
            },
        };
        let foreign_off = match read_u32(buf, 20) {
            Ok(v) => v,
            Err(_) => {
                return Err(AbcError::MalformedHeader);
            },
        };
        let foreign_size = match read_u32(buf, 24) {
            Ok(v) => v,
            Err(_) => {
                return Err(AbcError::MalformedHeader);
            },
        };
        let num_classes = match read_u32(buf, 28) {
            Ok(v) => v,
            Err(_) => {
                return Err(AbcError::MalformedHeader);
            },
        };
        let class_idx_off = match read_u32(buf, 32) {
            Ok(v) => v,
            Err(_) => {
                return Err(AbcError::MalformedHeader);
            },
        };
        let num_lnps = match read_u32(buf, 36) {
            Ok(v) => v,
            Err(_) => {
                return Err(AbcError::MalformedHeader);
            },
        };
        let lnp_idx_off = match read_u32(buf, 40) {
            Ok(v) => v,
            Err(_) => {
                return Err(AbcError::MalformedHeader);
            },
        };
        let num_literalarrays = match read_u32(buf, 44) {
            Ok(v) => v,
            Err(_) => {
                return Err(AbcError::MalformedHeader);
            },
        };
        let literalarray_idx_off = match read_u32(buf, 48) {
            Ok(v) => v,
            Err(_) => {
                return Err(AbcError::MalformedHeader);
            },
        };
        let region_size = match read_u32(buf, 52) {
            Ok(v) => v,
            Err(_) => {
                return Err(AbcError::MalformedHeader);
            },
        };
        let region_off = match read_u32(buf, 56) {
            Ok(v) => v,
            Err(_) => {
                return Err(AbcError::MalformedHeader);
            },
        };
        let h = Header {
            magic,
            checksum,
            version,
            file_size,
            foreign_off,
            foreign_size,
            num_classes,
            class_idx_off,
            num_lnps,
            lnp_idx_off,
            num_literalarrays,
            literalarray_idx_off,
            region_size,
            region_off,
        };
        assert(h.magic@ =~= buf@.subrange(0, 8));
        assert(h.magic@ =~= magic_seq());
        assert(h.checksum@ =~= buf@.subrange(8, 12));
        assert(h.version@ =~= buf@.subrange(12, 16));
        Ok(h)
    }
}

} // verus!
