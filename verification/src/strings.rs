//! The string pool entry reader.  A string is stored as a ULEB128 length
//! word `L = (utf16_units << 1) | is_ascii`, followed by `L >> 1` bytes of
//! payload, followed by a terminating NUL.  A payload that is not valid
//! UTF-8 decodes to a sentinel value rather than an error: the region index
//! carries undifferentiated offsets, and a failed decode may only mean that
//! an offset does not point at a string.

use vstd::prelude::*;
use vstd::string::{StringExecFns, StringSliceAdditionalSpecFns};
use vstd::utf8::{decode_utf8, encode_utf8_decode_utf8, valid_utf8};

use crate::error::AbcError;
use crate::leb128::{has_uleb_at, read_uleb128, uleb_end_at, uleb_err_at, uleb_val_at};

verus! {

/// The payload byte count of the string at `off`: the length word shifted
/// right once.
pub open spec fn string_count(buf: Seq<u8>, off: int) -> int {
    uleb_val_at(buf, off) as int / 2
}

/// The payload bytes of the string at `off`.
pub open spec fn string_payload(buf: Seq<u8>, off: int) -> Seq<u8> {
    buf.subrange(uleb_end_at(buf, off), uleb_end_at(buf, off) + string_count(buf, off))
}

/// The whole encoding of the string at `off` fits the buffer: a readable
/// length word, the payload, and the terminating NUL all inside bounds.
pub open spec fn string_fits(buf: Seq<u8>, off: int) -> bool {
    &&& has_uleb_at(buf, off)
    &&& uleb_end_at(buf, off) + string_count(buf, off) < buf.len()
}

/// The number of bytes the string at `off` occupies: length word, payload,
/// and the terminating NUL.
pub open spec fn string_encoded_len(buf: Seq<u8>, off: int) -> int {
    uleb_end_at(buf, off) - off + string_count(buf, off) + 1
}

/// The error reading a string at `off` reports when its encoding does not
/// fit the buffer.
pub open spec fn string_err_at(buf: Seq<u8>, off: int) -> AbcError {
    if !has_uleb_at(buf, off) {
        uleb_err_at(buf, off)
    } else {
        AbcError::OutOfBounds
    }
}

/// The decoded text of the string at `off`: the UTF-8 decoding of the
/// payload, or the sentinel when the payload is not valid UTF-8.
pub open spec fn string_text(buf: Seq<u8>, off: int) -> Seq<char> {
    if valid_utf8(string_payload(buf, off)) {
        decode_utf8(string_payload(buf, off))
    } else {
        "-utf8-error-"@
    }
}

/// Relies on core::str::from_utf8: it returns Ok exactly when the bytes are
/// valid UTF-8, and the returned str is a view of those same bytes.
#[verifier::external_body]
fn str_from_utf8(v: &[u8]) -> (r: Option<&str>)
    ensures
        match r {
            Some(s) => valid_utf8(v@) && s.spec_bytes() == v@,
            None => !valid_utf8(v@),
        },
{
    core::str::from_utf8(v).ok()
}

/// A decoded string-pool entry: the text and the number of bytes its
/// encoding occupies (length word, payload, NUL).
#[derive(Debug, Clone)]
pub struct ABCString {
    pub str: String,
    pub length: usize,
}

impl ABCString {
    /// The decoded text.
    pub fn str(&self) -> (r: String)
        ensures
            r@ == self.str@,
    {
        self.str.clone()
    }

    /// The encoded size in bytes, terminating NUL included.
    pub fn length(&self) -> (r: usize)
        ensures
            r == self.length,
    {
        self.length
    }

    /// The spec view of the text.
    pub open spec fn text(&self) -> Seq<char> {
        self.str@
    }

    /// The spec view of the encoded size.
    pub open spec fn size(&self) -> int {
        self.length as int
    }

    /// Reads the string at `off`: the ULEB128 length word, then `L >> 1`
    /// payload bytes, then the NUL.  The reported length is exactly the
    /// number of bytes between `off` and the end of the NUL.
    pub fn read(buf: &[u8], off: usize) -> (r: Result<ABCString, AbcError>)
        ensures
            r is Ok <==> string_fits(buf@, off as int),
            r matches Ok(s) ==> {
                &&& s.text() == string_text(buf@, off as int)
                &&& s.size() == string_encoded_len(buf@, off as int)
                &&& s.size() > 0
                &&& off + s.size() <= buf@.len()
            },
            r matches Err(e) ==> e == string_err_at(buf@, off as int),
    {
        let blen = buf.len();
        let (l, n) = match read_uleb128(buf, off) {
            Ok(p) => p,
            Err(e) => {
                return Err(e);
            },
        };
        let count_wide: u64 = l / 2;
        if count_wide >= (blen as u64) {
            return Err(AbcError::OutOfBounds);
        }
        let count = count_wide as usize;
        let start = off + n;
        if start >= blen - count {
            return Err(AbcError::OutOfBounds);
        }
        let payload = vstd::slice::slice_subrange(buf, start, start + count);
        let text = match str_from_utf8(payload) {
            Some(s) => {
                proof {
                    encode_utf8_decode_utf8(s@);
                }
                s.to_owned()
            },
            None => String::from_str("-utf8-error-"),
        };
        Ok(ABCString { str: text, length: n + count + 1 })
    }
}

} // verus!
