//! Class records: the class name, the superclass reference, the access
//! flags, a tagged-value list, and the densely packed field and method
//! records that follow it.  Foreign classes carry a name only.

use vstd::prelude::*;
use vstd::string::StringExecFns;

use crate::cursor::{read_u32, u32_at};
use crate::error::AbcError;
use crate::field::{field_end, Field};
use crate::flags::{class_flags_text, texts, ClassAccessFlags};
use crate::leb128::{has_uleb_at, read_uleb128, uleb_end_at, uleb_err_at, uleb_val_at};
use crate::method::{method_end, Method};
use crate::strings::{string_encoded_len, string_err_at, string_fits, string_text, ABCString};
use crate::tag_value::{class_data_end, parse_class_data, MethodData};

verus! {

/// A class declared externally: only its name is stored.
#[derive(Debug)]
pub struct ForeignClass {
    /// The class name.
    pub name: ABCString,
}

impl ForeignClass {
    /// Reads a foreign class record, which is just a string, at `off`.
    pub fn read(buf: &[u8], off: usize) -> (r: Result<ForeignClass, AbcError>)
        ensures
            r is Ok <==> string_fits(buf@, off as int),
            r matches Ok(c) ==> c.name.text() == string_text(buf@, off as int),
            r matches Err(e) ==> e == string_err_at(buf@, off as int),
    {
        let name = match ABCString::read(buf, off) {
            Ok(s) => s,
            Err(e) => {
                return Err(e);
            },
        };
        Ok(ForeignClass { name })
    }
}

/// End offset of the superclass word: right after the class name.
pub open spec fn cl_super_off(buf: Seq<u8>, off: int) -> int {
    off + string_encoded_len(buf, off)
}

/// Offset of the access-flag word.
pub open spec fn cl_flags_off(buf: Seq<u8>, off: int) -> int {
    cl_super_off(buf, off) + 4
}

/// Offset of the field count.
pub open spec fn cl_nf_off(buf: Seq<u8>, off: int) -> int {
    uleb_end_at(buf, cl_flags_off(buf, off))
}

/// Offset of the method count.
pub open spec fn cl_nm_off(buf: Seq<u8>, off: int) -> int {
    uleb_end_at(buf, cl_nf_off(buf, off))
}

/// Offset of the class tagged-value list.
pub open spec fn cl_data_off(buf: Seq<u8>, off: int) -> int {
    uleb_end_at(buf, cl_nm_off(buf, off))
}

/// The class's field count.
pub open spec fn cl_num_fields(buf: Seq<u8>, off: int) -> nat {
    uleb_val_at(buf, cl_nf_off(buf, off))
}

/// The class's method count.
pub open spec fn cl_num_methods(buf: Seq<u8>, off: int) -> nat {
    uleb_val_at(buf, cl_nm_off(buf, off))
}

/// The end offset after `n` consecutive field records starting at `off`.
pub open spec fn fields_end(buf: Seq<u8>, off: int, n: nat) -> Result<int, AbcError>
    decreases n,
{
    if n == 0 {
        Ok(off)
    } else {
        match field_end(buf, off) {
            Ok(e) => fields_end(buf, e, (n - 1) as nat),
            Err(x) => Err(x),
        }
    }
}

/// The end offset after `n` consecutive method records starting at `off`.
pub open spec fn methods_end(buf: Seq<u8>, off: int, n: nat) -> Result<int, AbcError>
    decreases n,
{
    if n == 0 {
        Ok(off)
    } else {
        match method_end(buf, off) {
            Ok(p) => methods_end(buf, p.0, (n - 1) as nat),
            Err(x) => Err(x),
        }
    }
}

/// Walking `k` fields and then `n - k` more is walking `n` fields.
pub proof fn lemma_fields_end_split(buf: Seq<u8>, d: int, e: int, k: nat, n: nat)
    requires
        k <= n,
        fields_end(buf, d, k) == Ok::<int, AbcError>(e),
    ensures
        fields_end(buf, d, n) == fields_end(buf, e, (n - k) as nat),
    decreases k,
{
    if k > 0 {
        match field_end(buf, d) {
            Ok(e1) => {
                lemma_fields_end_split(buf, e1, e, (k - 1) as nat, (n - 1) as nat);
            },
            Err(_) => {},
        }
    }
}

/// Walking `k` methods and then `n - k` more is walking `n` methods.
pub proof fn lemma_methods_end_split(buf: Seq<u8>, d: int, e: int, k: nat, n: nat)
    requires
        k <= n,
        methods_end(buf, d, k) == Ok::<int, AbcError>(e),
    ensures
        methods_end(buf, d, n) == methods_end(buf, e, (n - k) as nat),
    decreases k,
{
    if k > 0 {
        match method_end(buf, d) {
            Ok(p) => {
                lemma_methods_end_split(buf, p.0, e, (k - 1) as nat, (n - 1) as nat);
            },
            Err(_) => {},
        }
    }
}

/// Slot `k` of `fs` holds the field record decoded at its place in the
/// chain of field records that starts at `d`.
pub open spec fn field_at_ok(buf: Seq<u8>, d: int, fs: Seq<Field>, k: int) -> bool {
    &&& fields_end(buf, d, k as nat) is Ok
    &&& fs[k].parsed_from(buf, fields_end(buf, d, k as nat)->Ok_0)
}

/// Every field in `fs` is the record decoded at its place in the chain of
/// field records that starts at `d`.
pub open spec fn fields_ok(buf: Seq<u8>, d: int, fs: Seq<Field>) -> bool {
    forall|k: int| 0 <= k < fs.len() ==> #[trigger] field_at_ok(buf, d, fs, k)
}

/// Slot `k` of `mm` holds the start offset of its method record in the
/// chain that starts at `base`, and the record decoded there.
pub open spec fn method_at_ok(buf: Seq<u8>, base: int, mm: Seq<(usize, Method)>, k: int) -> bool {
    &&& methods_end(buf, base, k as nat) is Ok
    &&& mm[k].0 == methods_end(buf, base, k as nat)->Ok_0
    &&& mm[k].1.parsed_from(buf, methods_end(buf, base, k as nat)->Ok_0)
}

/// Every entry of `mm` carries the start offset of its method record in the
/// chain that starts at `base`, and the record decoded there.
pub open spec fn methods_ok(buf: Seq<u8>, base: int, mm: Seq<(usize, Method)>) -> bool {
    forall|k: int| 0 <= k < mm.len() ==> #[trigger] method_at_ok(buf, base, mm, k)
}

/// The end offset of the whole class record at `off`, or the error its
/// decoding reports.
pub open spec fn class_end(buf: Seq<u8>, off: int) -> Result<int, AbcError> {
    if !string_fits(buf, off) {
        Err(string_err_at(buf, off))
    } else if cl_super_off(buf, off) + 4 > buf.len() {
        Err(AbcError::OutOfBounds)
    } else if u32_at(buf, cl_super_off(buf, off)) != 0 && !string_fits(
        buf,
        u32_at(buf, cl_super_off(buf, off)) as int,
    ) {
        Err(string_err_at(buf, u32_at(buf, cl_super_off(buf, off)) as int))
    } else if !has_uleb_at(buf, cl_flags_off(buf, off)) {
        Err(uleb_err_at(buf, cl_flags_off(buf, off)))
    } else if !has_uleb_at(buf, cl_nf_off(buf, off)) {
        Err(uleb_err_at(buf, cl_nf_off(buf, off)))
    } else if !has_uleb_at(buf, cl_nm_off(buf, off)) {
        Err(uleb_err_at(buf, cl_nm_off(buf, off)))
    } else {
        match class_data_end(buf, cl_data_off(buf, off)) {
            Err(e) => Err(e),
            Ok(d) => match fields_end(buf, d, cl_num_fields(buf, off)) {
                Err(e) => Err(e),
                Ok(fe) => methods_end(buf, fe, cl_num_methods(buf, off)),
            },
        }
    }
}

/// Offset of the first field record (meaningful when the class parses).
pub open spec fn cl_fields_off(buf: Seq<u8>, off: int) -> int {
    class_data_end(buf, cl_data_off(buf, off))->Ok_0
}

/// Offset of the first method record (meaningful when the class parses).
pub open spec fn cl_methods_off(buf: Seq<u8>, off: int) -> int {
    fields_end(buf, cl_fields_off(buf, off), cl_num_fields(buf, off))->Ok_0
}

/// One decoded class record.
#[derive(Debug)]
pub struct Class {
    /// The class record's own offset in the file.
    pub offset: usize,
    /// The class name.
    pub name: ABCString,
    /// The superclass name, empty when the superclass offset is zero.
    pub supper_class: String,
    /// Names of the access flags set on the class.
    pub access_flags: Vec<String>,
    /// Number of field records.
    pub num_fields: u64,
    /// Number of method records.
    pub num_methods: u64,
    /// The field records, in file order.
    pub fields: Vec<Field>,
    /// The method records with their record offsets, in file order.
    pub method_map: Vec<(usize, Method)>,
}

impl Class {
    /// The record's scalar pieces agree with the bytes at `off`.
    pub open spec fn parsed_from(&self, buf: Seq<u8>, off: int) -> bool {
        &&& self.offset == off
        &&& self.name.text() == string_text(buf, off)
        &&& self.name.size() == string_encoded_len(buf, off)
        &&& self.supper_class@ == if u32_at(buf, cl_super_off(buf, off)) == 0 {
            Seq::<char>::empty()
        } else {
            string_text(buf, u32_at(buf, cl_super_off(buf, off)) as int)
        }
        &&& texts(self.access_flags@) == class_flags_text(
            uleb_val_at(buf, cl_flags_off(buf, off)) as u64,
        )
        &&& self.num_fields == cl_num_fields(buf, off)
        &&& self.num_methods == cl_num_methods(buf, off)
        &&& self.fields@.len() == self.num_fields
        &&& fields_ok(buf, cl_fields_off(buf, off), self.fields@)
        &&& self.method_map@.len() == self.num_methods
        &&& methods_ok(buf, cl_methods_off(buf, off), self.method_map@)
    }

    /// Whether a method record starts at `offset`.
    pub fn has_method(&self, offset: usize) -> (r: bool)
        ensures
            r == exists|k: int|
                0 <= k < self.method_map@.len() && (#[trigger] self.method_map@[k]).0 == offset,
    {
        let mut i: usize = 0;
        while i < self.method_map.len()
            invariant
                0 <= i <= self.method_map@.len(),
                forall|k: int| 0 <= k < i ==> (#[trigger] self.method_map@[k]).0 != offset,
            decreases self.method_map@.len() - i,
        {
            if self.method_map[i].0 == offset {
                return true;
            }
            i = i + 1;
        }
        false
    }

    /// The method whose record starts at `offset`, if any.
    pub fn get_method(&self, offset: usize) -> (r: Option<&Method>)
        ensures
            r is Some <==> exists|k: int|
                0 <= k < self.method_map@.len() && (#[trigger] self.method_map@[k]).0 == offset,
            r matches Some(m) ==> exists|k: int|
                0 <= k < self.method_map@.len() && (#[trigger] self.method_map@[k]).0 == offset
                    && self.method_map@[k].1 == *m,
    {
        let mut i: usize = 0;
        while i < self.method_map.len()
            invariant
                0 <= i <= self.method_map@.len(),
                forall|k: int| 0 <= k < i ==> (#[trigger] self.method_map@[k]).0 != offset,
            decreases self.method_map@.len() - i,
        {
            if self.method_map[i].0 == offset {
                return Some(&self.method_map[i].1);
            }
            i = i + 1;
        }
        None
    }

    /// Reads the class record at `off`: name, superclass, flags, counts,
    /// the tagged-value list, then the field and method records.
    #[verifier::rlimit(100)]
    pub fn read(buf: &[u8], off: usize) -> (r: Result<Class, AbcError>)
        ensures
            r is Ok <==> class_end(buf@, off as int) is Ok,
            r matches Ok(c) ==> c.parsed_from(buf@, off as int),
            r matches Err(e) ==> class_end(buf@, off as int) == Err::<int, AbcError>(e),
    {
        let len = buf.len();
        let name = match ABCString::read(buf, off) {
            Ok(s) => s,
            Err(e) => {
                return Err(e);
            },
        };
        let p1 = off + name.length();
        let supper_class_off = match read_u32(buf, p1) {
            Ok(v) => v,
            Err(e) => {
                return Err(e);
            },
        };
        let supper_class: String;
        if supper_class_off != 0 {
            supper_class = match ABCString::read(buf, supper_class_off as usize) {
                Ok(s) => s.str(),
                Err(e) => {
                    return Err(e);
                },
            };
        } else {
            supper_class = String::new();
        }
        let (af, n1) = match read_uleb128(buf, p1 + 4) {
            Ok(p) => p,
            Err(e) => {
                return Err(e);
            },
        };
        let access_flags = ClassAccessFlags::parse(af);
        let (num_fields, n2) = match read_uleb128(buf, p1 + 4 + n1) {
            Ok(p) => p,
            Err(e) => {
                return Err(e);
            },
        };
        let (num_methods, n3) = match read_uleb128(buf, p1 + 4 + n1 + n2) {
            Ok(p) => p,
            Err(e) => {
                return Err(e);
            },
        };
        let d = match parse_class_data(buf, p1 + 4 + n1 + n2 + n3) {
            Ok(v) => v,
            Err(e) => {
                return Err(e);
            },
        };
        proof {
            assert(cl_super_off(buf@, off as int) == p1);
            assert(cl_flags_off(buf@, off as int) == p1 + 4);
            assert(cl_nf_off(buf@, off as int) == p1 + 4 + n1);
            assert(cl_nm_off(buf@, off as int) == p1 + 4 + n1 + n2);
            assert(cl_data_off(buf@, off as int) == p1 + 4 + n1 + n2 + n3);
            assert(cl_num_fields(buf@, off as int) == num_fields);
            assert(cl_num_methods(buf@, off as int) == num_methods);
            assert(cl_fields_off(buf@, off as int) == d);
            assert(class_end(buf@, off as int) == (match fields_end(
                buf@,
                d as int,
                num_fields as nat,
            ) {
                Err(e) => Err::<int, AbcError>(e),
                Ok(fe2) => methods_end(buf@, fe2, num_methods as nat),
            }));
        }
        let mut fields: Vec<Field> = Vec::new();
        let mut cur = d;
        let mut i: u64 = 0;
        while i < num_fields
            invariant
                0 <= i <= num_fields,
                len == buf@.len(),
                cur <= len,
                fields@.len() == i,
                fields_end(buf@, d as int, i as nat) == Ok::<int, AbcError>(cur as int),
                fields_ok(buf@, d as int, fields@),
                num_fields == cl_num_fields(buf@, off as int),
                d == cl_fields_off(buf@, off as int),
                class_end(buf@, off as int) == (match fields_end(
                    buf@,
                    d as int,
                    num_fields as nat,
                ) {
                    Err(e) => Err::<int, AbcError>(e),
                    Ok(fe2) => methods_end(buf@, fe2, cl_num_methods(buf@, off as int)),
                }),
            decreases num_fields - i,
        {
            let f = match Field::read(buf, cur) {
                Ok(f) => f,
                Err(e) => {
                    proof {
                        lemma_fields_end_split(
                            buf@,
                            d as int,
                            cur as int,
                            i as nat,
                            num_fields as nat,
                        );
                    }
                    return Err(e);
                },
            };
            proof {
                lemma_fields_end_split(buf@, d as int, cur as int, i as nat, (i + 1) as nat);
                assert(fields_end(buf@, d as int, (i + 1) as nat) == fields_end(
                    buf@,
                    cur as int,
                    1,
                ));
                assert(field_end(buf@, cur as int) == Ok::<int, AbcError>(cur + f.size));
                assert(fields_end(buf@, cur + f.size, 0) == Ok::<int, AbcError>(cur + f.size));
                assert(fields_end(buf@, cur as int, 1) == Ok::<int, AbcError>(cur + f.size));
            }
            let size = f.size;
            let ghost gf = f;
            let ghost prev = fields@;
            fields.push(f);
            cur = cur + size;
            i = i + 1;
            proof {
                assert forall|k: int| 0 <= k < fields@.len() implies #[trigger] field_at_ok(
                    buf@,
                    d as int,
                    fields@,
                    k,
                ) by {
                    if k < i - 1 {
                        assert(field_at_ok(buf@, d as int, prev, k));
                        assert(fields@[k] == prev[k]);
                    } else {
                        assert(fields@[k] == gf);
                        assert(fields_end(buf@, d as int, k as nat) == Ok::<int, AbcError>(
                            (cur - gf.size) as int,
                        ));
                        assert(gf.parsed_from(buf@, (cur - gf.size) as int));
                    }
                }
            }
        }
        assert(cl_methods_off(buf@, off as int) == cur);
        let fe = cur;
        let mut method_map: Vec<(usize, Method)> = Vec::new();
        let mut j: u64 = 0;
        while j < num_methods
            invariant
                0 <= j <= num_methods,
                len == buf@.len(),
                cur <= len,
                method_map@.len() == j,
                methods_end(buf@, fe as int, j as nat) == Ok::<int, AbcError>(cur as int),
                methods_ok(buf@, fe as int, method_map@),
                num_methods == cl_num_methods(buf@, off as int),
                fe == cl_methods_off(buf@, off as int),
                class_end(buf@, off as int) == methods_end(
                    buf@,
                    fe as int,
                    cl_num_methods(buf@, off as int),
                ),
            decreases num_methods - j,
        {
            let m = match Method::read(buf, cur) {
                Ok(m) => m,
                Err(e) => {
                    proof {
                        lemma_methods_end_split(
                            buf@,
                            fe as int,
                            cur as int,
                            j as nat,
                            num_methods as nat,
                        );
                    }
                    return Err(e);
                },
            };
            proof {
                lemma_methods_end_split(buf@, fe as int, cur as int, j as nat, (j + 1) as nat);
                assert(methods_end(buf@, fe as int, (j + 1) as nat) == methods_end(
                    buf@,
                    cur as int,
                    1,
                ));
                assert(method_end(buf@, cur as int) == Ok::<(int, MethodData), AbcError>(
                    (cur + m.size, m.method_data),
                ));
                assert(methods_end(buf@, cur + m.size, 0) == Ok::<int, AbcError>(cur + m.size));
                assert(methods_end(buf@, cur as int, 1) == Ok::<int, AbcError>(cur + m.size));
            }
            let size = m.size;
            let ghost gm = m;
            let ghost mstart = cur;
            let ghost prev = method_map@;
            method_map.push((cur, m));
            cur = cur + size;
            j = j + 1;
            proof {
                assert forall|k: int| 0 <= k < method_map@.len() implies #[trigger] method_at_ok(
                    buf@,
                    fe as int,
                    method_map@,
                    k,
                ) by {
                    if k < j - 1 {
                        assert(method_at_ok(buf@, fe as int, prev, k));
                        assert(method_map@[k] == prev[k]);
                    } else {
                        assert(method_map@[k] == (mstart, gm));
                        assert(methods_end(buf@, fe as int, k as nat) == Ok::<int, AbcError>(
                            mstart as int,
                        ));
                        assert(gm.parsed_from(buf@, mstart as int));
                    }
                }
            }
        }
        proof {
            lemma_methods_end_split(
                buf@,
                fe as int,
                cur as int,
                num_methods as nat,
                num_methods as nat,
            );
        }
        Ok(
            Class {
                offset: off,
                name,
                supper_class,
                access_flags,
                num_fields,
                num_methods,
                fields,
                method_map,
            },
        )
    }
}

} // verus!
