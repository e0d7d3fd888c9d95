//! Access-flag sets for classes, fields and methods.  Each parser turns a
//! flag word into the list of flag names whose bits are set, in a fixed
//! order.

use vstd::prelude::*;
use vstd::string::StringExecFns;

verus! {

/// The flag names of a `Vec<String>`, as character sequences.
pub open spec fn texts(v: Seq<String>) -> Seq<Seq<char>> {
    v.map_values(|s: String| s@)
}

/// Appends `name` when `cond` holds.
pub open spec fn flags_append(s: Seq<Seq<char>>, cond: bool, name: Seq<char>) -> Seq<Seq<char>> {
    if cond {
        s.push(name)
    } else {
        s
    }
}

fn push_flag(r: &mut Vec<String>, cond: bool, name: &str)
    ensures
        texts(final(r)@) == flags_append(texts(old(r)@), cond, name@),
{
    if cond {
        r.push(String::from_str(name));
        assert(texts(r@) =~= texts(old(r)@).push(name@));
    }
}

/// An access flag a class can carry.
#[derive(Clone, Copy, Debug, PartialEq, Eq, Structural)]
pub enum ClassAccessFlags {
    Public,
    Final,
    Super,
    Interface,
    Abstract,
    Synthetic,
    Annotation,
    Enum,
}

/// The names of the class flags whose bits are set in `v`, in declaration
/// order.
pub open spec fn class_flags_text(v: u64) -> Seq<Seq<char>> {
    let s = Seq::<Seq<char>>::empty();
    let s = flags_append(s, v & 0x0001 != 0, "Public"@);
    let s = flags_append(s, v & 0x0010 != 0, "Final"@);
    let s = flags_append(s, v & 0x0020 != 0, "Super"@);
    let s = flags_append(s, v & 0x0200 != 0, "Interface"@);
    let s = flags_append(s, v & 0x0400 != 0, "Abstract"@);
    let s = flags_append(s, v & 0x1000 != 0, "Synthetic"@);
    let s = flags_append(s, v & 0x2000 != 0, "Annotation"@);
    let s = flags_append(s, v & 0x4000 != 0, "Enum"@);
    s
}

impl ClassAccessFlags {
    /// The names of the flags set in `value`.
    pub fn parse(value: u64) -> (r: Vec<String>)
        ensures
            texts(r@) == class_flags_text(value),
    {
        let mut r: Vec<String> = Vec::new();
        assert(texts(r@) =~= Seq::<Seq<char>>::empty());
        push_flag(&mut r, value & 0x0001 != 0, "Public");
        push_flag(&mut r, value & 0x0010 != 0, "Final");
        push_flag(&mut r, value & 0x0020 != 0, "Super");
        push_flag(&mut r, value & 0x0200 != 0, "Interface");
        push_flag(&mut r, value & 0x0400 != 0, "Abstract");
        push_flag(&mut r, value & 0x1000 != 0, "Synthetic");
        push_flag(&mut r, value & 0x2000 != 0, "Annotation");
        push_flag(&mut r, value & 0x4000 != 0, "Enum");
        r
    }
}

/// An access flag a method can carry.
#[derive(Clone, Copy, Debug, PartialEq, Eq, Structural)]
pub enum MethodAccessFlags {
    Public,
    Private,
    Protected,
    Static,
    Final,
    Synchronized,
    Bridge,
    Varargs,
    Native,
    Abstract,
    Strict,
    Synthetic,
}

/// The names of the method flags whose bits are set in `v`, in declaration
/// order.
pub open spec fn method_flags_text(v: u64) -> Seq<Seq<char>> {
    let s = Seq::<Seq<char>>::empty();
    let s = flags_append(s, v & 0x0001 != 0, "Public"@);
    let s = flags_append(s, v & 0x0002 != 0, "Private"@);
    let s = flags_append(s, v & 0x0004 != 0, "Protected"@);
    let s = flags_append(s, v & 0x0008 != 0, "Static"@);
    let s = flags_append(s, v & 0x0010 != 0, "Final"@);
    let s = flags_append(s, v & 0x0020 != 0, "Synchronized"@);
    let s = flags_append(s, v & 0x0040 != 0, "Bridge"@);
    let s = flags_append(s, v & 0x0080 != 0, "Varargs"@);
    let s = flags_append(s, v & 0x0100 != 0, "Native"@);
    let s = flags_append(s, v & 0x0400 != 0, "Abstract"@);
    let s = flags_append(s, v & 0x0800 != 0, "Strict"@);
    let s = flags_append(s, v & 0x1000 != 0, "Synthetic"@);
    s
}

impl MethodAccessFlags {
    /// The names of the flags set in `value`.
    pub fn parse(value: u64) -> (r: Vec<String>)
        ensures
            texts(r@) == method_flags_text(value),
    {
        let mut r: Vec<String> = Vec::new();
        assert(texts(r@) =~= Seq::<Seq<char>>::empty());
        push_flag(&mut r, value & 0x0001 != 0, "Public");
        push_flag(&mut r, value & 0x0002 != 0, "Private");
        push_flag(&mut r, value & 0x0004 != 0, "Protected");
        push_flag(&mut r, value & 0x0008 != 0, "Static");
        push_flag(&mut r, value & 0x0010 != 0, "Final");
        push_flag(&mut r, value & 0x0020 != 0, "Synchronized");
        push_flag(&mut r, value & 0x0040 != 0, "Bridge");
        push_flag(&mut r, value & 0x0080 != 0, "Varargs");
        push_flag(&mut r, value & 0x0100 != 0, "Native");
        push_flag(&mut r, value & 0x0400 != 0, "Abstract");
        push_flag(&mut r, value & 0x0800 != 0, "Strict");
        push_flag(&mut r, value & 0x1000 != 0, "Synthetic");
        r
    }
}

/// An access flag a field can carry.
#[allow(non_camel_case_types)]
#[derive(Clone, Copy, Debug, PartialEq, Eq, Structural)]
pub enum FieldAccessFlag {
    PUBLIC,
    PRIVATE,
    PROTECTED,
    STATIC,
    FINAL,
    VOLATILE,
    TRANSIENT,
    SYNTHETIC,
    ENUM,
}

/// The names of the field flags whose bits are set in `v`, in declaration
/// order.
pub open spec fn field_flags_text(v: u64) -> Seq<Seq<char>> {
    let s = Seq::<Seq<char>>::empty();
    let s = flags_append(s, v & 0x0001 != 0, "PUBLIC"@);
    let s = flags_append(s, v & 0x0002 != 0, "PRIVATE"@);
    let s = flags_append(s, v & 0x0004 != 0, "PROTECTED"@);
    let s = flags_append(s, v & 0x0008 != 0, "STATIC"@);
    let s = flags_append(s, v & 0x0010 != 0, "FINAL"@);
    let s = flags_append(s, v & 0x0040 != 0, "VOLATILE"@);
    let s = flags_append(s, v & 0x0080 != 0, "TRANSIENT"@);
    let s = flags_append(s, v & 0x1000 != 0, "SYNTHETIC"@);
    let s = flags_append(s, v & 0x4000 != 0, "ENUM"@);
    s
}

impl FieldAccessFlag {
    /// The names of the flags set in `value`.
    pub fn parse(value: u64) -> (r: Vec<String>)
        ensures
            texts(r@) == field_flags_text(value),
    {
        let mut r: Vec<String> = Vec::new();
        assert(texts(r@) =~= Seq::<Seq<char>>::empty());
        push_flag(&mut r, value & 0x0001 != 0, "PUBLIC");
        push_flag(&mut r, value & 0x0002 != 0, "PRIVATE");
        push_flag(&mut r, value & 0x0004 != 0, "PROTECTED");
        push_flag(&mut r, value & 0x0008 != 0, "STATIC");
        push_flag(&mut r, value & 0x0010 != 0, "FINAL");
        push_flag(&mut r, value & 0x0040 != 0, "VOLATILE");
        push_flag(&mut r, value & 0x0080 != 0, "TRANSIENT");
        push_flag(&mut r, value & 0x1000 != 0, "SYNTHETIC");
        push_flag(&mut r, value & 0x4000 != 0, "ENUM");
        r
    }
}

} // verus!
