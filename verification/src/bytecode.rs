//! The instruction format tables and the disassembler.  Every opcode is
//! described by its mnemonic and an ordered list of format units; one
//! generic renderer walks a method's instruction bytes and prints one line
//! per instruction, resolving operand indices through the enclosing region.

use vstd::prelude::*;
use vstd::string::StringExecFns;

use crate::code::Code;
use crate::cursor::{read_u16, read_u16_be, read_u32, read_u64, read_u8, u16_at, u16_be_at, u32_at,
    u64_at};
use crate::error::AbcError;
use crate::flags::texts;
use crate::method::{get_method_sign, method_sign_err, method_sign_fits, method_sign_text};
use crate::region::Region;
use crate::render::{dec_str, dec_u64, hex_pad, hex_str, pad_left};
use crate::strings::{string_err_at, string_fits, string_text, ABCString};

verus! {

/// One element of an instruction's operand layout.
#[derive(Clone, Copy, Debug, PartialEq, Eq, Structural)]
pub enum FormatUnit {
    /// The one-byte opcode itself.
    Opcode,
    /// A two-byte prefixed opcode (prefix byte first).
    PrefixOpcode,
    /// One reserved byte, consumed and not printed.
    RR,
    /// Two reserved bytes, consumed and not printed.
    RRRR,
    /// Two four-bit register indices in one byte, low nibble first.
    V4V4,
    /// An eight-bit register index.
    V8,
    /// A sixteen-bit register index, little-endian.
    V16,
    /// Two four-bit immediates in one byte.
    Imm4Imm4,
    /// An eight-bit immediate.
    IMM8,
    /// A sixteen-bit immediate, little-endian.
    IMM16,
    /// A thirty-two-bit immediate, little-endian.
    IMM32,
    /// A sixty-four-bit immediate, little-endian.
    IMM64,
    /// A sixteen-bit index into the region's sub-index, resolved to a
    /// literal array.
    LiteralID,
    /// A sixteen-bit index into the region's sub-index, resolved to a
    /// string.
    StringID,
    /// A sixteen-bit index into the region's sub-index, resolved to a
    /// method signature.
    MethodID,
}

/// The number of instruction bytes a format unit covers.
pub open spec fn unit_size(u: FormatUnit) -> int {
    match u {
        FormatUnit::Opcode => 1,
        FormatUnit::PrefixOpcode => 2,
        FormatUnit::RR => 1,
        FormatUnit::RRRR => 2,
        FormatUnit::V4V4 => 1,
        FormatUnit::V8 => 1,
        FormatUnit::V16 => 2,
        FormatUnit::Imm4Imm4 => 1,
        FormatUnit::IMM8 => 1,
        FormatUnit::IMM16 => 2,
        FormatUnit::IMM32 => 4,
        FormatUnit::IMM64 => 8,
        FormatUnit::LiteralID => 2,
        FormatUnit::StringID => 2,
        FormatUnit::MethodID => 2,
    }
}

/// The total number of instruction bytes a unit list covers.
pub open spec fn units_size(s: Seq<FormatUnit>) -> int
    decreases s.len(),
{
    if s.len() == 0 {
        0
    } else {
        unit_size(s[0]) + units_size(s.drop_first())
    }
}

/// Every unit covers at least one byte and at most eight.
pub proof fn lemma_units_size_bounds(s: Seq<FormatUnit>)
    ensures
        s.len() <= units_size(s) <= 8 * s.len(),
    decreases s.len(),
{
    if s.len() > 0 {
        lemma_units_size_bounds(s.drop_first());
    }
}

/// One instruction format: the mnemonic and the operand layout, plus the
/// raw bytes of a decoded instance when one has been attached.
#[derive(Debug, Clone)]
pub struct ByteCodeFormat {
    /// The mnemonic.
    pub name: String,
    /// The operand layout, opcode unit included.
    pub formats: Vec<FormatUnit>,
    /// Raw bytes of a decoded instance, empty until set.
    pub instruction: Vec<u8>,
}

impl ByteCodeFormat {
    /// A format with the given mnemonic and layout and no instance bytes.
    pub fn new(name: String, formats: Vec<FormatUnit>) -> (r: ByteCodeFormat)
        ensures
            r.name == name,
            r.formats == formats,
            r.instruction@.len() == 0,
    {
        Self { name, formats, instruction: Vec::new() }
    }

    /// Attaches the raw bytes of a decoded instance.
    pub fn set_instruction(&mut self, instruction: Vec<u8>)
        ensures
            final(self).name == old(self).name,
            final(self).formats == old(self).formats,
            final(self).instruction == instruction,
    {
        self.instruction = instruction;
    }

    /// The number of instruction bytes this format covers.
    pub fn get_size(&self) -> (r: usize)
        requires
            units_size(self.formats@) <= usize::MAX,
        ensures
            r == units_size(self.formats@),
    {
        proof {
            lemma_units_size_bounds(self.formats@);
        }
        let mut size: usize = 0;
        let mut i: usize = 0;
        let n = self.formats.len();
        assert(self.formats@.skip(0) =~= self.formats@);
        while i < n
            invariant
                0 <= i <= n,
                n == self.formats@.len(),
                units_size(self.formats@) == size + units_size(self.formats@.skip(i as int)),
                size <= units_size(self.formats@) <= usize::MAX,
                0 <= units_size(self.formats@.skip(i as int)),
            decreases n - i,
        {
            proof {
                assert(self.formats@.skip(i as int)[0] == self.formats@[i as int]);
                assert(self.formats@.skip(i as int).drop_first() =~= self.formats@.skip(i + 1));
                lemma_units_size_bounds(self.formats@.skip(i + 1));
            }
            let add: usize = match self.formats[i] {
                FormatUnit::Opcode => 1,
                FormatUnit::PrefixOpcode => 2,
                FormatUnit::RR => 1,
                FormatUnit::RRRR => 2,
                FormatUnit::V4V4 => 1,
                FormatUnit::V8 => 1,
                FormatUnit::V16 => 2,
                FormatUnit::Imm4Imm4 => 1,
                FormatUnit::IMM8 => 1,
                FormatUnit::IMM16 => 2,
                FormatUnit::IMM32 => 4,
                FormatUnit::IMM64 => 8,
                FormatUnit::LiteralID => 2,
                FormatUnit::StringID => 2,
                FormatUnit::MethodID => 2,
            };
            size = size + add;
            i = i + 1;
        }
        proof {
            assert(self.formats@.skip(n as int) =~= Seq::<FormatUnit>::empty());
        }
        size
    }
}

/// For any ordinary table entry, the total instruction size is one byte
/// for the opcode unit plus the sizes of the operand units that follow it.
pub proof fn lemma_opcode_entry_size(f: ByteCodeFormat)
    requires
        ord_entry_wf(f),
        f.formats@[0] == FormatUnit::Opcode,
    ensures
        units_size(f.formats@) == 1 + units_size(f.formats@.drop_first()),
        1 <= units_size(f.formats@),
{
    lemma_units_size_bounds(f.formats@);
}

/// The mnemonic and operand layout of each ordinary opcode in
/// 0x00..0x040.
#[verifier::opaque]
pub open spec fn spec_ord_format_0(op: u8) -> Option<(Seq<char>, Seq<FormatUnit>)> {
    match op {
        0x00 => Some(("ldundefined"@, seq![FormatUnit::Opcode])),
        0x01 => Some(("ldnull"@, seq![FormatUnit::Opcode])),
        0x02 => Some(("ldtrue"@, seq![FormatUnit::Opcode])),
        0x03 => Some(("ldfalse"@, seq![FormatUnit::Opcode])),
        0x04 => Some(("createemptyobject"@, seq![FormatUnit::Opcode])),
        0x05 => Some(("createemptyarray"@, seq![FormatUnit::Opcode, FormatUnit::RR])),
        0x06 => Some(("createarraywithbuffer"@, seq![FormatUnit::Opcode, FormatUnit::RR, FormatUnit::LiteralID])),
        0x07 => Some(("createobjectwithbuffer"@, seq![FormatUnit::Opcode, FormatUnit::RR, FormatUnit::LiteralID])),
        0x08 => Some(("newobjrange"@, seq![FormatUnit::Opcode, FormatUnit::RR, FormatUnit::IMM8, FormatUnit::V8])),
        0x09 => Some(("newlexenv"@, seq![FormatUnit::Opcode, FormatUnit::IMM8])),
        0x0a => Some(("add2"@, seq![FormatUnit::Opcode, FormatUnit::RR, FormatUnit::V8])),
        0x0b => Some(("sub2"@, seq![FormatUnit::Opcode, FormatUnit::RR, FormatUnit::V8])),
        0x0c => Some(("mul2"@, seq![FormatUnit::Opcode, FormatUnit::RR, FormatUnit::V8])),
        0x0d => Some(("div2"@, seq![FormatUnit::Opcode, FormatUnit::RR, FormatUnit::V8])),
        0x0e => Some(("mod2"@, seq![FormatUnit::Opcode, FormatUnit::RR, FormatUnit::V8])),
        0x0f => Some(("eq"@, seq![FormatUnit::Opcode, FormatUnit::RR, FormatUnit::V8])),
        0x10 => Some(("noteq"@, seq![FormatUnit::Opcode, FormatUnit::RR, FormatUnit::V8])),
        0x11 => Some(("less"@, seq![FormatUnit::Opcode, FormatUnit::RR, FormatUnit::V8])),
        0x12 => Some(("lesseq"@, seq![FormatUnit::Opcode, FormatUnit::RR, FormatUnit::V8])),
        0x13 => Some(("greater"@, seq![FormatUnit::Opcode, FormatUnit::RR, FormatUnit::V8])),
        0x14 => Some(("greatereq"@, seq![FormatUnit::Opcode, FormatUnit::RR, FormatUnit::V8])),
        0x15 => Some(("shl2"@, seq![FormatUnit::Opcode, FormatUnit::RR, FormatUnit::V8])),
        0x16 => Some(("shr2"@, seq![FormatUnit::Opcode, FormatUnit::RR, FormatUnit::V8])),
        0x17 => Some(("ashr2"@, seq![FormatUnit::Opcode, FormatUnit::RR, FormatUnit::V8])),
        0x18 => Some(("and2"@, seq![FormatUnit::Opcode, FormatUnit::RR, FormatUnit::V8])),
        0x19 => Some(("or2"@, seq![FormatUnit::Opcode, FormatUnit::RR, FormatUnit::V8])),
        0x1a => Some(("xor2"@, seq![FormatUnit::Opcode, FormatUnit::RR, FormatUnit::V8])),
        0x1b => Some(("exp"@, seq![FormatUnit::Opcode, FormatUnit::RR, FormatUnit::V8])),
        0x1c => Some(("typeof"@, seq![FormatUnit::Opcode, FormatUnit::RR])),
        0x1d => Some(("tonumber"@, seq![FormatUnit::Opcode, FormatUnit::RR])),
        0x1e => Some(("tonumeric"@, seq![FormatUnit::Opcode, FormatUnit::RR])),
        0x1f => Some(("neg"@, seq![FormatUnit::Opcode, FormatUnit::RR])),
        0x20 => Some(("not"@, seq![FormatUnit::Opcode, FormatUnit::RR])),
        0x21 => Some(("inc"@, seq![FormatUnit::Opcode, FormatUnit::RR])),
        0x22 => Some(("dec"@, seq![FormatUnit::Opcode, FormatUnit::RR])),
        0x23 => Some(("istrue"@, seq![FormatUnit::Opcode, FormatUnit::RR])),
        0x24 => Some(("isfalse"@, seq![FormatUnit::Opcode, FormatUnit::RR])),
        0x25 => Some(("isin"@, seq![FormatUnit::Opcode, FormatUnit::RR, FormatUnit::V8])),
        0x26 => Some(("instanceof"@, seq![FormatUnit::Opcode, FormatUnit::RR, FormatUnit::V8])),
        0x27 => Some(("strictnoteq"@, seq![FormatUnit::Opcode, FormatUnit::RR, FormatUnit::V8])),
        0x28 => Some(("stricteq"@, seq![FormatUnit::Opcode, FormatUnit::RR, FormatUnit::V8])),
        0x29 => Some(("callarg0"@, seq![FormatUnit::Opcode, FormatUnit::RR])),
        0x2a => Some(("callarg1"@, seq![FormatUnit::Opcode, FormatUnit::RR, FormatUnit::V8])),
        0x2b => Some(("callargs2"@, seq![FormatUnit::Opcode, FormatUnit::RR, FormatUnit::V8, FormatUnit::V8])),
        0x2c => Some(("callargs3"@, seq![FormatUnit::Opcode, FormatUnit::RR, FormatUnit::V8, FormatUnit::V8, FormatUnit::V8])),
        0x2d => Some(("callthis0"@, seq![FormatUnit::Opcode, FormatUnit::RR, FormatUnit::V8])),
        0x2e => Some(("callthis1"@, seq![FormatUnit::Opcode, FormatUnit::RR, FormatUnit::V8, FormatUnit::V8])),
        0x2f => Some(("callthis2"@, seq![FormatUnit::Opcode, FormatUnit::RR, FormatUnit::V8, FormatUnit::V8, FormatUnit::V8])),
        0x30 => Some(("callthis3"@, seq![FormatUnit::Opcode, FormatUnit::RR, FormatUnit::V8, FormatUnit::V8, FormatUnit::V8, FormatUnit::V8])),
        0x31 => Some(("callthisrange"@, seq![FormatUnit::Opcode, FormatUnit::RR, FormatUnit::IMM8, FormatUnit::V8])),
        0x32 => Some(("supercallthisrange"@, seq![FormatUnit::Opcode, FormatUnit::RR, FormatUnit::IMM8, FormatUnit::V8])),
        0x33 => Some(("definefunc"@, seq![FormatUnit::Opcode, FormatUnit::RR, FormatUnit::MethodID, FormatUnit::IMM8])),
        0x34 => Some(("definemethod"@, seq![FormatUnit::Opcode, FormatUnit::RR, FormatUnit::MethodID, FormatUnit::IMM8])),
        0x35 => Some(("defineclasswithbuffer"@, seq![FormatUnit::Opcode, FormatUnit::RR, FormatUnit::MethodID, FormatUnit::LiteralID, FormatUnit::IMM16, FormatUnit::V8])),
        0x36 => Some(("getnextpropname"@, seq![FormatUnit::Opcode, FormatUnit::V8])),
        0x37 => Some(("ldobjbyvalue"@, seq![FormatUnit::Opcode, FormatUnit::RR, FormatUnit::V8])),
        0x38 => Some(("stobjbyvalue"@, seq![FormatUnit::Opcode, FormatUnit::RR, FormatUnit::V8, FormatUnit::V8])),
        0x39 => Some(("ldsuperbyvalue"@, seq![FormatUnit::Opcode, FormatUnit::RR, FormatUnit::V8])),
        0x3a => Some(("ldobjbyindex"@, seq![FormatUnit::Opcode, FormatUnit::RR, FormatUnit::IMM16])),
        0x3b => Some(("stobjbyindex"@, seq![FormatUnit::Opcode, FormatUnit::RR, FormatUnit::V8, FormatUnit::IMM16])),
        0x3c => Some(("ldlexvar"@, seq![FormatUnit::Opcode, FormatUnit::Imm4Imm4])),
        0x3d => Some(("stlexvar"@, seq![FormatUnit::Opcode, FormatUnit::Imm4Imm4])),
        0x3e => Some(("lda.str"@, seq![FormatUnit::Opcode, FormatUnit::StringID])),
        0x3f => Some(("tryldglobalbyname"@, seq![FormatUnit::Opcode, FormatUnit::RR, FormatUnit::StringID])),
        _ => None,
    }
}

/// The mnemonic and operand layout of each ordinary opcode in
/// 0x40..0x080.
#[verifier::opaque]
pub open spec fn spec_ord_format_1(op: u8) -> Option<(Seq<char>, Seq<FormatUnit>)> {
    match op {
        0x40 => Some(("trystglobalbyname"@, seq![FormatUnit::Opcode, FormatUnit::RR, FormatUnit::StringID])),
        0x41 => Some(("ldglobalvar"@, seq![FormatUnit::Opcode, FormatUnit::RRRR, FormatUnit::StringID])),
        0x42 => Some(("ldobjbyname"@, seq![FormatUnit::Opcode, FormatUnit::IMM8, FormatUnit::StringID])),
        0x43 => Some(("stobjbyname"@, seq![FormatUnit::Opcode, FormatUnit::RR, FormatUnit::StringID, FormatUnit::V8])),
        0x44 => Some(("mov"@, seq![FormatUnit::Opcode, FormatUnit::V4V4])),
        0x45 => Some(("mov"@, seq![FormatUnit::Opcode, FormatUnit::V8, FormatUnit::V8])),
        0x46 => Some(("ldsuperbyname"@, seq![FormatUnit::Opcode, FormatUnit::RR, FormatUnit::StringID])),
        0x47 => Some(("stconsttoglobalrecord"@, seq![FormatUnit::Opcode, FormatUnit::RRRR, FormatUnit::StringID])),
        0x48 => Some(("stconsttoglobalrecord"@, seq![FormatUnit::Opcode, FormatUnit::RRRR, FormatUnit::StringID])),
        0x49 => Some(("ldthisbyname"@, seq![FormatUnit::Opcode, FormatUnit::RR, FormatUnit::StringID])),
        0x4a => Some(("stthisbyname"@, seq![FormatUnit::Opcode, FormatUnit::RR, FormatUnit::StringID])),
        0x4b => Some(("ldthisbyvalue"@, seq![FormatUnit::Opcode, FormatUnit::RR])),
        0x4c => Some(("stthisbyvalue"@, seq![FormatUnit::Opcode, FormatUnit::RR, FormatUnit::V8])),
        0x4d => Some(("jmp"@, seq![FormatUnit::Opcode, FormatUnit::IMM8])),
        0x4e => Some(("jmp"@, seq![FormatUnit::Opcode, FormatUnit::IMM16])),
        0x4f => Some(("jeqz"@, seq![FormatUnit::Opcode, FormatUnit::IMM8])),
        0x50 => Some(("jeqz"@, seq![FormatUnit::Opcode, FormatUnit::IMM16])),
        0x51 => Some(("jnez"@, seq![FormatUnit::Opcode, FormatUnit::IMM8])),
        0x52 => Some(("jstricteqz"@, seq![FormatUnit::Opcode, FormatUnit::IMM8])),
        0x53 => Some(("jnstricteqz"@, seq![FormatUnit::Opcode, FormatUnit::IMM8])),
        0x54 => Some(("jeqnull"@, seq![FormatUnit::Opcode, FormatUnit::IMM8])),
        0x55 => Some(("jnenull"@, seq![FormatUnit::Opcode, FormatUnit::IMM8])),
        0x56 => Some(("jstricteqnull"@, seq![FormatUnit::Opcode, FormatUnit::IMM8])),
        0x57 => Some(("jnstricteqnull"@, seq![FormatUnit::Opcode, FormatUnit::IMM8])),
        0x58 => Some(("jequndefined"@, seq![FormatUnit::Opcode, FormatUnit::IMM8])),
        0x59 => Some(("jneundefined"@, seq![FormatUnit::Opcode, FormatUnit::IMM8])),
        0x5a => Some(("jstrictequndefined"@, seq![FormatUnit::Opcode, FormatUnit::IMM8])),
        0x5b => Some(("jnstrictequndefined"@, seq![FormatUnit::Opcode, FormatUnit::IMM8])),
        0x5c => Some(("jeq"@, seq![FormatUnit::Opcode, FormatUnit::V8, FormatUnit::IMM8])),
        0x5d => Some(("jne"@, seq![FormatUnit::Opcode, FormatUnit::V8, FormatUnit::IMM8])),
        0x5e => Some(("jstricteq"@, seq![FormatUnit::Opcode, FormatUnit::V8, FormatUnit::IMM8])),
        0x5f => Some(("jnstricteq"@, seq![FormatUnit::Opcode, FormatUnit::V8, FormatUnit::IMM8])),
        0x60 => Some(("lda"@, seq![FormatUnit::Opcode, FormatUnit::V8])),
        0x61 => Some(("sta"@, seq![FormatUnit::Opcode, FormatUnit::V8])),
        0x62 => Some(("ldai"@, seq![FormatUnit::Opcode, FormatUnit::IMM32])),
        0x63 => Some(("fldai"@, seq![FormatUnit::Opcode, FormatUnit::IMM64])),
        0x64 => Some(("return"@, seq![FormatUnit::Opcode])),
        0x65 => Some(("returnundefined"@, seq![FormatUnit::Opcode])),
        0x66 => Some(("getpropiterator"@, seq![FormatUnit::Opcode])),
        0x67 => Some(("getiterator"@, seq![FormatUnit::Opcode, FormatUnit::RR])),
        0x68 => Some(("closeiterator"@, seq![FormatUnit::Opcode, FormatUnit::RR, FormatUnit::V8])),
        0x69 => Some(("poplexenv"@, seq![FormatUnit::Opcode])),
        0x6a => Some(("ldnan"@, seq![FormatUnit::Opcode])),
        0x6b => Some(("ldinfinity"@, seq![FormatUnit::Opcode])),
        0x6c => Some(("getunmappedargs"@, seq![FormatUnit::Opcode])),
        0x6d => Some(("ldglobal"@, seq![FormatUnit::Opcode])),
        0x6e => Some(("ldnewtarget"@, seq![FormatUnit::Opcode])),
        0x6f => Some(("ldthis"@, seq![FormatUnit::Opcode])),
        0x70 => Some(("ldhole"@, seq![FormatUnit::Opcode])),
        0x71 => Some(("createregexpwithliteral"@, seq![FormatUnit::Opcode, FormatUnit::RR, FormatUnit::MethodID, FormatUnit::IMM8])),
        0x72 => Some(("createregexpwithliteral"@, seq![FormatUnit::Opcode, FormatUnit::RRRR, FormatUnit::StringID, FormatUnit::IMM8])),
        0x73 => Some(("callrange"@, seq![FormatUnit::Opcode, FormatUnit::RR, FormatUnit::IMM8, FormatUnit::V8])),
        0x74 => Some(("definefunc"@, seq![FormatUnit::Opcode, FormatUnit::RRRR, FormatUnit::MethodID, FormatUnit::IMM8])),
        0x75 => Some(("defineclasswithbuffer"@, seq![FormatUnit::Opcode, FormatUnit::RRRR, FormatUnit::MethodID, FormatUnit::LiteralID, FormatUnit::IMM16, FormatUnit::V8])),
        0x76 => Some(("gettemplateobject"@, seq![FormatUnit::Opcode, FormatUnit::RR])),
        0x77 => Some(("setobjectwithproto"@, seq![FormatUnit::Opcode, FormatUnit::RR, FormatUnit::V8])),
        0x78 => Some(("stownbyvalue"@, seq![FormatUnit::Opcode, FormatUnit::RR, FormatUnit::V8, FormatUnit::V8])),
        0x79 => Some(("stownbyindex"@, seq![FormatUnit::Opcode, FormatUnit::RR, FormatUnit::V8, FormatUnit::IMM16])),
        0x7a => Some(("stownbyname"@, seq![FormatUnit::Opcode, FormatUnit::RR, FormatUnit::StringID, FormatUnit::V8])),
        0x7b => Some(("getmodulenamespace"@, seq![FormatUnit::Opcode, FormatUnit::IMM8])),
        0x7c => Some(("stmodulevar"@, seq![FormatUnit::Opcode, FormatUnit::IMM8])),
        0x7d => Some(("ldlocalmodulevar"@, seq![FormatUnit::Opcode, FormatUnit::IMM8])),
        0x7e => Some(("ldexternalmodulevar"@, seq![FormatUnit::Opcode, FormatUnit::IMM8])),
        0x7f => Some(("stglobalvar"@, seq![FormatUnit::Opcode, FormatUnit::RRRR, FormatUnit::StringID])),
        _ => None,
    }
}

/// The mnemonic and operand layout of each ordinary opcode in
/// 0x80..0x0c0.
#[verifier::opaque]
pub open spec fn spec_ord_format_2(op: u8) -> Option<(Seq<char>, Seq<FormatUnit>)> {
    match op {
        0x80 => Some(("createemptyarray"@, seq![FormatUnit::Opcode, FormatUnit::RRRR])),
        0x81 => Some(("createarraywithbuffer"@, seq![FormatUnit::Opcode, FormatUnit::RRRR, FormatUnit::LiteralID])),
        0x82 => Some(("createobjectwithbuffer"@, seq![FormatUnit::Opcode, FormatUnit::RRRR, FormatUnit::LiteralID])),
        0x83 => Some(("newobjrange"@, seq![FormatUnit::Opcode, FormatUnit::RRRR, FormatUnit::IMM8, FormatUnit::V8])),
        0x84 => Some(("typeof"@, seq![FormatUnit::Opcode, FormatUnit::RRRR])),
        0x85 => Some(("ldobjbyvalue"@, seq![FormatUnit::Opcode, FormatUnit::RRRR, FormatUnit::V8])),
        0x86 => Some(("stobjbyvalue"@, seq![FormatUnit::Opcode, FormatUnit::RRRR, FormatUnit::V8, FormatUnit::V8])),
        0x87 => Some(("ldsuperbyvalue"@, seq![FormatUnit::Opcode, FormatUnit::RRRR, FormatUnit::V8])),
        0xad => Some(("ldsymbol"@, seq![FormatUnit::Opcode])),
        0xae => Some(("asyncfunctionenter"@, seq![FormatUnit::Opcode])),
        0xaf => Some(("ldfunction"@, seq![FormatUnit::Opcode])),
        0xb0 => Some(("debugger"@, seq![FormatUnit::Opcode])),
        0xb1 => Some(("creategeneratorobj"@, seq![FormatUnit::Opcode, FormatUnit::V8])),
        0xb2 => Some(("createiterresultobj"@, seq![FormatUnit::Opcode, FormatUnit::V8, FormatUnit::V8])),
        0xb3 => Some(("createobjectwithexcludedkeys"@, seq![FormatUnit::Opcode, FormatUnit::IMM8, FormatUnit::V8, FormatUnit::V8])),
        0xb4 => Some(("newobjapply"@, seq![FormatUnit::Opcode, FormatUnit::RR, FormatUnit::V8])),
        0xb5 => Some(("newobjapply"@, seq![FormatUnit::Opcode, FormatUnit::RRRR, FormatUnit::V8])),
        0xb6 => Some(("newlexenvwithname"@, seq![FormatUnit::Opcode, FormatUnit::IMM8, FormatUnit::LiteralID])),
        0xb7 => Some(("createasyncgeneratorobj"@, seq![FormatUnit::Opcode, FormatUnit::V8])),
        0xb8 => Some(("asyncgeneratorresolve"@, seq![FormatUnit::Opcode, FormatUnit::V8, FormatUnit::V8, FormatUnit::V8])),
        0xb9 => Some(("supercallspread"@, seq![FormatUnit::Opcode, FormatUnit::RR, FormatUnit::V8])),
        0xba => Some(("apply"@, seq![FormatUnit::Opcode, FormatUnit::RR, FormatUnit::V8, FormatUnit::V8])),
        0xbb => Some(("supercallarrowrange"@, seq![FormatUnit::Opcode, FormatUnit::RR, FormatUnit::IMM8, FormatUnit::V8])),
        0xbc => Some(("definegettersetterbyvalue"@, seq![FormatUnit::Opcode, FormatUnit::V8, FormatUnit::V8, FormatUnit::V8, FormatUnit::V8])),
        0xbd => Some(("dynamicimport"@, seq![FormatUnit::Opcode])),
        0xbe => Some(("definemethod"@, seq![FormatUnit::Opcode, FormatUnit::RRRR, FormatUnit::MethodID, FormatUnit::IMM8])),
        0xbf => Some(("resumegenerator"@, seq![FormatUnit::Opcode])),
        _ => None,
    }
}

/// The mnemonic and operand layout of each ordinary opcode in
/// 0xc0..0x0e0.
#[verifier::opaque]
pub open spec fn spec_ord_format_3(op: u8) -> Option<(Seq<char>, Seq<FormatUnit>)> {
    match op {
        0xc0 => Some(("getresumemode"@, seq![FormatUnit::Opcode])),
        0xc1 => Some(("gettemplateobject"@, seq![FormatUnit::Opcode, FormatUnit::RRRR])),
        0xc2 => Some(("delobjprop"@, seq![FormatUnit::Opcode, FormatUnit::V8])),
        0xc3 => Some(("suspendgenerator"@, seq![FormatUnit::Opcode, FormatUnit::V8])),
        0xc4 => Some(("asyncfunctionawaituncaught"@, seq![FormatUnit::Opcode, FormatUnit::V8])),
        0xc5 => Some(("copydataproperties"@, seq![FormatUnit::Opcode, FormatUnit::V8])),
        0xc6 => Some(("starrayspread"@, seq![FormatUnit::Opcode, FormatUnit::V8, FormatUnit::V8])),
        0xc7 => Some(("setobjectwithproto"@, seq![FormatUnit::Opcode, FormatUnit::RRRR, FormatUnit::V8])),
        0xc8 => Some(("stownbyvalue"@, seq![FormatUnit::Opcode, FormatUnit::RRRR, FormatUnit::V8, FormatUnit::V8])),
        0xc9 => Some(("stsuperbyvalue"@, seq![FormatUnit::Opcode, FormatUnit::IMM8, FormatUnit::V8, FormatUnit::V8])),
        0xca => Some(("stsuperbyvalue"@, seq![FormatUnit::Opcode, FormatUnit::RRRR, FormatUnit::V8, FormatUnit::V8])),
        0xcb => Some(("stownbyindex"@, seq![FormatUnit::Opcode, FormatUnit::RRRR, FormatUnit::V8, FormatUnit::IMM16])),
        0xcc => Some(("stownbyname"@, seq![FormatUnit::Opcode, FormatUnit::RRRR, FormatUnit::StringID, FormatUnit::V8])),
        0xcd => Some(("asyncfunctionresolve"@, seq![FormatUnit::Opcode])),
        0xce => Some(("asyncfunctionreject"@, seq![FormatUnit::Opcode])),
        0xcf => Some(("copyrestargs"@, seq![FormatUnit::Opcode, FormatUnit::IMM8])),
        0xd0 => Some(("stsuperbyname"@, seq![FormatUnit::Opcode, FormatUnit::RR, FormatUnit::StringID, FormatUnit::V8])),
        0xd1 => Some(("stsuperbyname"@, seq![FormatUnit::Opcode, FormatUnit::RRRR, FormatUnit::StringID, FormatUnit::V8])),
        0xd2 => Some(("stownbyvaluewithnameset"@, seq![FormatUnit::Opcode, FormatUnit::RRRR, FormatUnit::V8, FormatUnit::V8])),
        0xd3 => Some(("ldbigint"@, seq![FormatUnit::Opcode, FormatUnit::StringID])),
        0xd4 => Some(("stownbynamewithnameset"@, seq![FormatUnit::Opcode, FormatUnit::RRRR, FormatUnit::StringID, FormatUnit::V8])),
        0xd5 => Some(("nop"@, seq![FormatUnit::Opcode])),
        0xd6 => Some(("setgeneratorstate"@, seq![FormatUnit::Opcode, FormatUnit::IMM8])),
        0xd7 => Some(("getasynciterator"@, seq![FormatUnit::Opcode, FormatUnit::RR])),
        0xd8 => Some(("ldprivateproperty"@, seq![FormatUnit::Opcode, FormatUnit::RR, FormatUnit::IMM16, FormatUnit::IMM16])),
        0xd9 => Some(("stprivateproperty"@, seq![FormatUnit::Opcode, FormatUnit::RR, FormatUnit::IMM16, FormatUnit::IMM16, FormatUnit::V8])),
        0xda => Some(("testin"@, seq![FormatUnit::Opcode, FormatUnit::RR, FormatUnit::IMM16, FormatUnit::IMM16])),
        0xdb => Some(("definefieldbyname"@, seq![FormatUnit::Opcode, FormatUnit::RR, FormatUnit::StringID, FormatUnit::V8])),
        _ => None,
    }
}

/// The mnemonic and operand layout of each ordinary opcode in
/// 0xe0..0x100.
#[verifier::opaque]
pub open spec fn spec_ord_format_4(op: u8) -> Option<(Seq<char>, Seq<FormatUnit>)> {
    match op {
        0xfb => Some(("callruntime.notifyconcurrentresult"@, seq![FormatUnit::PrefixOpcode])),
        0xfd => Some(("wide.createobjectwithexcludedkeys"@, seq![FormatUnit::PrefixOpcode, FormatUnit::IMM16, FormatUnit::V8, FormatUnit::V8])),
        0xfe => Some(("thrown"@, seq![FormatUnit::PrefixOpcode])),
        _ => None,
    }
}

/// The mnemonic and operand layout of each prefixed opcode, keyed by the
/// two-byte value read little-endian at the instruction start.
#[verifier::opaque]
pub open spec fn spec_pref_format(key: u16) -> Option<(Seq<char>, Seq<FormatUnit>)> {
    match key {
        0x01fb => Some(("callruntime.definefieldbyvalue"@, seq![FormatUnit::PrefixOpcode, FormatUnit::RR, FormatUnit::V8, FormatUnit::V8])),
        0x01fd => Some(("wide.newobjrange"@, seq![FormatUnit::PrefixOpcode, FormatUnit::IMM16, FormatUnit::V8])),
        0x01fe => Some(("throw.notexists"@, seq![FormatUnit::PrefixOpcode])),
        0x02fb => Some(("callruntime.definefieldbyindex"@, seq![FormatUnit::PrefixOpcode, FormatUnit::RR, FormatUnit::IMM32, FormatUnit::V8])),
        0x02fd => Some(("wide.newlexenv"@, seq![FormatUnit::PrefixOpcode, FormatUnit::IMM16])),
        0x02fe => Some(("throw.patternnoncoercible"@, seq![FormatUnit::PrefixOpcode])),
        0x03fb => Some(("wide.newlexenvwithname"@, seq![FormatUnit::PrefixOpcode, FormatUnit::IMM16, FormatUnit::LiteralID])),
        0x03fe => Some(("throw.deletesuperproperty"@, seq![FormatUnit::PrefixOpcode])),
        0x04fb => Some(("callruntime.createprivateproperty"@, seq![FormatUnit::PrefixOpcode, FormatUnit::IMM16, FormatUnit::LiteralID])),
        0x04fd => Some(("wide.callrange"@, seq![FormatUnit::PrefixOpcode, FormatUnit::IMM16, FormatUnit::V8])),
        0x04fe => Some(("throw.constassignment"@, seq![FormatUnit::PrefixOpcode, FormatUnit::V8])),
        0x05fb => Some(("callruntime.defineprivateproperty"@, seq![FormatUnit::PrefixOpcode, FormatUnit::RR, FormatUnit::IMM16, FormatUnit::IMM16, FormatUnit::V8])),
        0x05fd => Some(("wide.callthisrange"@, seq![FormatUnit::PrefixOpcode, FormatUnit::IMM16, FormatUnit::V8])),
        0x05fe => Some(("throw.ifnotobject"@, seq![FormatUnit::PrefixOpcode, FormatUnit::V8])),
        0x06fb => Some(("callruntime.callinit"@, seq![FormatUnit::PrefixOpcode, FormatUnit::RR, FormatUnit::V8])),
        0x06fd => Some(("wide.supercallthisrange"@, seq![FormatUnit::PrefixOpcode, FormatUnit::IMM16, FormatUnit::V8])),
        0x06fe => Some(("throw.undefinedifhole"@, seq![FormatUnit::PrefixOpcode, FormatUnit::V8, FormatUnit::V8])),
        0x07fb => Some(("callruntime.definesendableclass"@, seq![FormatUnit::PrefixOpcode, FormatUnit::RRRR, FormatUnit::MethodID, FormatUnit::LiteralID, FormatUnit::IMM16, FormatUnit::V8])),
        0x07fd => Some(("wide.supercallarrowrange"@, seq![FormatUnit::PrefixOpcode, FormatUnit::IMM16, FormatUnit::V8])),
        0x07fe => Some(("throw.ifsupernotcorrectcall"@, seq![FormatUnit::PrefixOpcode, FormatUnit::IMM8])),
        0x08fb => Some(("callruntime.ldsendableclass"@, seq![FormatUnit::PrefixOpcode, FormatUnit::IMM16])),
        0x08fd => Some(("wide.ldobjbyindex"@, seq![FormatUnit::PrefixOpcode, FormatUnit::IMM32])),
        0x08fe => Some(("throw.ifsupernotcorrectcall"@, seq![FormatUnit::PrefixOpcode, FormatUnit::IMM16])),
        0x09fd => Some(("wide.stobjbyindex"@, seq![FormatUnit::PrefixOpcode, FormatUnit::V8, FormatUnit::IMM32])),
        0x09fe => Some(("throw.undefinedifholewithname"@, seq![FormatUnit::PrefixOpcode, FormatUnit::StringID])),
        0x0afd => Some(("wide.stownbyindex"@, seq![FormatUnit::PrefixOpcode, FormatUnit::V8, FormatUnit::IMM32])),
        0x0bfd => Some(("wide.copyrestargs"@, seq![FormatUnit::PrefixOpcode, FormatUnit::IMM16])),
        0x0cfd => Some(("wide.ldlexvar"@, seq![FormatUnit::PrefixOpcode, FormatUnit::IMM16, FormatUnit::IMM16])),
        0x0dfd => Some(("wide.stlexvar"@, seq![FormatUnit::PrefixOpcode, FormatUnit::IMM16, FormatUnit::IMM16])),
        0x0efd => Some(("wide.getmodulenamespace"@, seq![FormatUnit::PrefixOpcode, FormatUnit::IMM16])),
        0x0ffd => Some(("wide.stmodulevar"@, seq![FormatUnit::PrefixOpcode, FormatUnit::IMM16])),
        0x10fd => Some(("wide.ldlocalmodulevar"@, seq![FormatUnit::PrefixOpcode, FormatUnit::IMM16])),
        0x11fd => Some(("wide.ldexternalmodulevar"@, seq![FormatUnit::PrefixOpcode, FormatUnit::IMM16])),
        0x12fd => Some(("wide.ldpatchvar"@, seq![FormatUnit::PrefixOpcode, FormatUnit::IMM16])),
        0x13fd => Some(("wide.stpatchvar"@, seq![FormatUnit::PrefixOpcode, FormatUnit::IMM16])),
        _ => None,
    }
}

/// The mnemonic and operand layout of each ordinary opcode: the normative
/// encoding of the opcode set.
#[verifier::opaque]
pub open spec fn spec_opcode_format(op: u8) -> Option<(Seq<char>, Seq<FormatUnit>)> {
    if op < 0x40 {
        spec_ord_format_0(op)
    } else if op < 0x80 {
        spec_ord_format_1(op)
    } else if op < 0xc0 {
        spec_ord_format_2(op)
    } else if op < 0xe0 {
        spec_ord_format_3(op)
    } else {
        spec_ord_format_4(op)
    }
}

/// A table entry result carries exactly the mnemonic and unit list of the
/// spec table.
pub open spec fn entry_matches(r: Option<ByteCodeFormat>, e: Option<(Seq<char>, Seq<FormatUnit>)>) -> bool {
    match r {
        Some(f) => e matches Some(p) && f.name@ == p.0 && f.formats@ =~= p.1
            && f.instruction@.len() == 0,
        None => e is None,
    }
}

/// The first byte values that the ordinary opcode table covers.
pub open spec fn opcode_known(op: u8) -> bool {
    &&& !(0x88 <= op && op <= 0xac)
    &&& !(0xdc <= op && op <= 0xfa)
    &&& op != 0xfc
    &&& op != 0xff
}

/// A table entry for an ordinary instruction: an opcode unit, then
/// operands.  The three prefix bytes have entries of their own whose first
/// unit is a two-byte prefix opcode; they stand for a prefix followed by a
/// secondary byte that no prefixed instruction claims.
pub open spec fn ord_entry_wf(f: ByteCodeFormat) -> bool {
    &&& 1 <= f.formats@.len() <= 6
    &&& (f.formats@[0] == FormatUnit::Opcode || f.formats@[0] == FormatUnit::PrefixOpcode)
    &&& f.instruction@.len() == 0
}

/// A table entry for a prefixed instruction: one two-byte prefix unit, then
/// operands.
pub open spec fn pref_entry_wf(f: ByteCodeFormat) -> bool {
    &&& 1 <= f.formats@.len() <= 6
    &&& f.formats@[0] == FormatUnit::PrefixOpcode
    &&& f.instruction@.len() == 0
}

#[verifier::rlimit(100)]
#[verifier::spinoff_prover]
fn ord_format_0(op: u8) -> (r: Option<ByteCodeFormat>)
    ensures
        r is Some <==> (0x00 <= op < 0x040 && opcode_known(op)),
        r matches Some(f) ==> ord_entry_wf(f) && f.formats@[0] == FormatUnit::Opcode,
        entry_matches(r, spec_ord_format_0(op)),
{
    proof {
        reveal(spec_ord_format_0);
    }
    match op {
        0x00 => Some(
            ByteCodeFormat::new(String::from_str("ldundefined"), vec![FormatUnit::Opcode]),
        ),
        0x01 => Some(
            ByteCodeFormat::new(String::from_str("ldnull"), vec![FormatUnit::Opcode]),
        ),
        0x02 => Some(
            ByteCodeFormat::new(String::from_str("ldtrue"), vec![FormatUnit::Opcode]),
        ),
        0x03 => Some(
            ByteCodeFormat::new(String::from_str("ldfalse"), vec![FormatUnit::Opcode]),
        ),
        0x04 => Some(
            ByteCodeFormat::new(String::from_str("createemptyobject"), vec![FormatUnit::Opcode]),
        ),
        0x05 => Some(
            ByteCodeFormat::new(String::from_str("createemptyarray"), vec![FormatUnit::Opcode, FormatUnit::RR]),
        ),
        0x06 => Some(
            ByteCodeFormat::new(String::from_str("createarraywithbuffer"), vec![FormatUnit::Opcode, FormatUnit::RR, FormatUnit::LiteralID]),
        ),
        0x07 => Some(
            ByteCodeFormat::new(String::from_str("createobjectwithbuffer"), vec![FormatUnit::Opcode, FormatUnit::RR, FormatUnit::LiteralID]),
        ),
        0x08 => Some(
            ByteCodeFormat::new(String::from_str("newobjrange"), vec![FormatUnit::Opcode, FormatUnit::RR, FormatUnit::IMM8, FormatUnit::V8]),
        ),
        0x09 => Some(
            ByteCodeFormat::new(String::from_str("newlexenv"), vec![FormatUnit::Opcode, FormatUnit::IMM8]),
        ),
        0x0a => Some(
            ByteCodeFormat::new(String::from_str("add2"), vec![FormatUnit::Opcode, FormatUnit::RR, FormatUnit::V8]),
        ),
        0x0b => Some(
            ByteCodeFormat::new(String::from_str("sub2"), vec![FormatUnit::Opcode, FormatUnit::RR, FormatUnit::V8]),
        ),
        0x0c => Some(
            ByteCodeFormat::new(String::from_str("mul2"), vec![FormatUnit::Opcode, FormatUnit::RR, FormatUnit::V8]),
        ),
        0x0d => Some(
            ByteCodeFormat::new(String::from_str("div2"), vec![FormatUnit::Opcode, FormatUnit::RR, FormatUnit::V8]),
        ),
        0x0e => Some(
            ByteCodeFormat::new(String::from_str("mod2"), vec![FormatUnit::Opcode, FormatUnit::RR, FormatUnit::V8]),
        ),
        0x0f => Some(
            ByteCodeFormat::new(String::from_str("eq"), vec![FormatUnit::Opcode, FormatUnit::RR, FormatUnit::V8]),
        ),
        0x10 => Some(
            ByteCodeFormat::new(String::from_str("noteq"), vec![FormatUnit::Opcode, FormatUnit::RR, FormatUnit::V8]),
        ),
        0x11 => Some(
            ByteCodeFormat::new(String::from_str("less"), vec![FormatUnit::Opcode, FormatUnit::RR, FormatUnit::V8]),
        ),
        0x12 => Some(
            ByteCodeFormat::new(String::from_str("lesseq"), vec![FormatUnit::Opcode, FormatUnit::RR, FormatUnit::V8]),
        ),
        0x13 => Some(
            ByteCodeFormat::new(String::from_str("greater"), vec![FormatUnit::Opcode, FormatUnit::RR, FormatUnit::V8]),
        ),
        0x14 => Some(
            ByteCodeFormat::new(String::from_str("greatereq"), vec![FormatUnit::Opcode, FormatUnit::RR, FormatUnit::V8]),
        ),
        0x15 => Some(
            ByteCodeFormat::new(String::from_str("shl2"), vec![FormatUnit::Opcode, FormatUnit::RR, FormatUnit::V8]),
        ),
        0x16 => Some(
            ByteCodeFormat::new(String::from_str("shr2"), vec![FormatUnit::Opcode, FormatUnit::RR, FormatUnit::V8]),
        ),
        0x17 => Some(
            ByteCodeFormat::new(String::from_str("ashr2"), vec![FormatUnit::Opcode, FormatUnit::RR, FormatUnit::V8]),
        ),
        0x18 => Some(
            ByteCodeFormat::new(String::from_str("and2"), vec![FormatUnit::Opcode, FormatUnit::RR, FormatUnit::V8]),
        ),
        0x19 => Some(
            ByteCodeFormat::new(String::from_str("or2"), vec![FormatUnit::Opcode, FormatUnit::RR, FormatUnit::V8]),
        ),
        0x1a => Some(
            ByteCodeFormat::new(String::from_str("xor2"), vec![FormatUnit::Opcode, FormatUnit::RR, FormatUnit::V8]),
        ),
        0x1b => Some(
            ByteCodeFormat::new(String::from_str("exp"), vec![FormatUnit::Opcode, FormatUnit::RR, FormatUnit::V8]),
        ),
        0x1c => Some(
            ByteCodeFormat::new(String::from_str("typeof"), vec![FormatUnit::Opcode, FormatUnit::RR]),
        ),
        0x1d => Some(
            ByteCodeFormat::new(String::from_str("tonumber"), vec![FormatUnit::Opcode, FormatUnit::RR]),
        ),
        0x1e => Some(
            ByteCodeFormat::new(String::from_str("tonumeric"), vec![FormatUnit::Opcode, FormatUnit::RR]),
        ),
        0x1f => Some(
            ByteCodeFormat::new(String::from_str("neg"), vec![FormatUnit::Opcode, FormatUnit::RR]),
        ),
        0x20 => Some(
            ByteCodeFormat::new(String::from_str("not"), vec![FormatUnit::Opcode, FormatUnit::RR]),
        ),
        0x21 => Some(
            ByteCodeFormat::new(String::from_str("inc"), vec![FormatUnit::Opcode, FormatUnit::RR]),
        ),
        0x22 => Some(
            ByteCodeFormat::new(String::from_str("dec"), vec![FormatUnit::Opcode, FormatUnit::RR]),
        ),
        0x23 => Some(
            ByteCodeFormat::new(String::from_str("istrue"), vec![FormatUnit::Opcode, FormatUnit::RR]),
        ),
        0x24 => Some(
            ByteCodeFormat::new(String::from_str("isfalse"), vec![FormatUnit::Opcode, FormatUnit::RR]),
        ),
        0x25 => Some(
            ByteCodeFormat::new(String::from_str("isin"), vec![FormatUnit::Opcode, FormatUnit::RR, FormatUnit::V8]),
        ),
        0x26 => Some(
            ByteCodeFormat::new(String::from_str("instanceof"), vec![FormatUnit::Opcode, FormatUnit::RR, FormatUnit::V8]),
        ),
        0x27 => Some(
            ByteCodeFormat::new(String::from_str("strictnoteq"), vec![FormatUnit::Opcode, FormatUnit::RR, FormatUnit::V8]),
        ),
        0x28 => Some(
            ByteCodeFormat::new(String::from_str("stricteq"), vec![FormatUnit::Opcode, FormatUnit::RR, FormatUnit::V8]),
        ),
        0x29 => Some(
            ByteCodeFormat::new(String::from_str("callarg0"), vec![FormatUnit::Opcode, FormatUnit::RR]),
        ),
        0x2a => Some(
            ByteCodeFormat::new(String::from_str("callarg1"), vec![FormatUnit::Opcode, FormatUnit::RR, FormatUnit::V8]),
        ),
        0x2b => Some(
            ByteCodeFormat::new(String::from_str("callargs2"), vec![FormatUnit::Opcode, FormatUnit::RR, FormatUnit::V8, FormatUnit::V8]),
        ),
        0x2c => Some(
            ByteCodeFormat::new(String::from_str("callargs3"), vec![FormatUnit::Opcode, FormatUnit::RR, FormatUnit::V8, FormatUnit::V8, FormatUnit::V8]),
        ),
        0x2d => Some(
            ByteCodeFormat::new(String::from_str("callthis0"), vec![FormatUnit::Opcode, FormatUnit::RR, FormatUnit::V8]),
        ),
        0x2e => Some(
            ByteCodeFormat::new(String::from_str("callthis1"), vec![FormatUnit::Opcode, FormatUnit::RR, FormatUnit::V8, FormatUnit::V8]),
        ),
        0x2f => Some(
            ByteCodeFormat::new(String::from_str("callthis2"), vec![FormatUnit::Opcode, FormatUnit::RR, FormatUnit::V8, FormatUnit::V8, FormatUnit::V8]),
        ),
        0x30 => Some(
            ByteCodeFormat::new(String::from_str("callthis3"), vec![FormatUnit::Opcode, FormatUnit::RR, FormatUnit::V8, FormatUnit::V8, FormatUnit::V8, FormatUnit::V8]),
        ),
        0x31 => Some(
            ByteCodeFormat::new(String::from_str("callthisrange"), vec![FormatUnit::Opcode, FormatUnit::RR, FormatUnit::IMM8, FormatUnit::V8]),
        ),
        0x32 => Some(
            ByteCodeFormat::new(String::from_str("supercallthisrange"), vec![FormatUnit::Opcode, FormatUnit::RR, FormatUnit::IMM8, FormatUnit::V8]),
        ),
        0x33 => Some(
            ByteCodeFormat::new(String::from_str("definefunc"), vec![FormatUnit::Opcode, FormatUnit::RR, FormatUnit::MethodID, FormatUnit::IMM8]),
        ),
        0x34 => Some(
            ByteCodeFormat::new(String::from_str("definemethod"), vec![FormatUnit::Opcode, FormatUnit::RR, FormatUnit::MethodID, FormatUnit::IMM8]),
        ),
        0x35 => Some(
            ByteCodeFormat::new(String::from_str("defineclasswithbuffer"), vec![FormatUnit::Opcode, FormatUnit::RR, FormatUnit::MethodID, FormatUnit::LiteralID, FormatUnit::IMM16, FormatUnit::V8]),
        ),
        0x36 => Some(
            ByteCodeFormat::new(String::from_str("getnextpropname"), vec![FormatUnit::Opcode, FormatUnit::V8]),
        ),
        0x37 => Some(
            ByteCodeFormat::new(String::from_str("ldobjbyvalue"), vec![FormatUnit::Opcode, FormatUnit::RR, FormatUnit::V8]),
        ),
        0x38 => Some(
            ByteCodeFormat::new(String::from_str("stobjbyvalue"), vec![FormatUnit::Opcode, FormatUnit::RR, FormatUnit::V8, FormatUnit::V8]),
        ),
        0x39 => Some(
            ByteCodeFormat::new(String::from_str("ldsuperbyvalue"), vec![FormatUnit::Opcode, FormatUnit::RR, FormatUnit::V8]),
        ),
        0x3a => Some(
            ByteCodeFormat::new(String::from_str("ldobjbyindex"), vec![FormatUnit::Opcode, FormatUnit::RR, FormatUnit::IMM16]),
        ),
        0x3b => Some(
            ByteCodeFormat::new(String::from_str("stobjbyindex"), vec![FormatUnit::Opcode, FormatUnit::RR, FormatUnit::V8, FormatUnit::IMM16]),
        ),
        0x3c => Some(
            ByteCodeFormat::new(String::from_str("ldlexvar"), vec![FormatUnit::Opcode, FormatUnit::Imm4Imm4]),
        ),
        0x3d => Some(
            ByteCodeFormat::new(String::from_str("stlexvar"), vec![FormatUnit::Opcode, FormatUnit::Imm4Imm4]),
        ),
        0x3e => Some(
            ByteCodeFormat::new(String::from_str("lda.str"), vec![FormatUnit::Opcode, FormatUnit::StringID]),
        ),
        0x3f => Some(
            ByteCodeFormat::new(String::from_str("tryldglobalbyname"), vec![FormatUnit::Opcode, FormatUnit::RR, FormatUnit::StringID]),
        ),
        _ => None,
    }
}

#[verifier::rlimit(100)]
#[verifier::spinoff_prover]
fn ord_format_1(op: u8) -> (r: Option<ByteCodeFormat>)
    ensures
        r is Some <==> (0x40 <= op < 0x080 && opcode_known(op)),
        r matches Some(f) ==> ord_entry_wf(f) && f.formats@[0] == FormatUnit::Opcode,
        entry_matches(r, spec_ord_format_1(op)),
{
    proof {
        reveal(spec_ord_format_1);
    }
    match op {
        0x40 => Some(
            ByteCodeFormat::new(String::from_str("trystglobalbyname"), vec![FormatUnit::Opcode, FormatUnit::RR, FormatUnit::StringID]),
        ),
        0x41 => Some(
            ByteCodeFormat::new(String::from_str("ldglobalvar"), vec![FormatUnit::Opcode, FormatUnit::RRRR, FormatUnit::StringID]),
        ),
        0x42 => Some(
            ByteCodeFormat::new(String::from_str("ldobjbyname"), vec![FormatUnit::Opcode, FormatUnit::IMM8, FormatUnit::StringID]),
        ),
        0x43 => Some(
            ByteCodeFormat::new(String::from_str("stobjbyname"), vec![FormatUnit::Opcode, FormatUnit::RR, FormatUnit::StringID, FormatUnit::V8]),
        ),
        0x44 => Some(
            ByteCodeFormat::new(String::from_str("mov"), vec![FormatUnit::Opcode, FormatUnit::V4V4]),
        ),
        0x45 => Some(
            ByteCodeFormat::new(String::from_str("mov"), vec![FormatUnit::Opcode, FormatUnit::V8, FormatUnit::V8]),
        ),
        0x46 => Some(
            ByteCodeFormat::new(String::from_str("ldsuperbyname"), vec![FormatUnit::Opcode, FormatUnit::RR, FormatUnit::StringID]),
        ),
        0x47 => Some(
            ByteCodeFormat::new(String::from_str("stconsttoglobalrecord"), vec![FormatUnit::Opcode, FormatUnit::RRRR, FormatUnit::StringID]),
        ),
        0x48 => Some(
            ByteCodeFormat::new(String::from_str("stconsttoglobalrecord"), vec![FormatUnit::Opcode, FormatUnit::RRRR, FormatUnit::StringID]),
        ),
        0x49 => Some(
            ByteCodeFormat::new(String::from_str("ldthisbyname"), vec![FormatUnit::Opcode, FormatUnit::RR, FormatUnit::StringID]),
        ),
        0x4a => Some(
            ByteCodeFormat::new(String::from_str("stthisbyname"), vec![FormatUnit::Opcode, FormatUnit::RR, FormatUnit::StringID]),
        ),
        0x4b => Some(
            ByteCodeFormat::new(String::from_str("ldthisbyvalue"), vec![FormatUnit::Opcode, FormatUnit::RR]),
        ),
        0x4c => Some(
            ByteCodeFormat::new(String::from_str("stthisbyvalue"), vec![FormatUnit::Opcode, FormatUnit::RR, FormatUnit::V8]),
        ),
        0x4d => Some(
            ByteCodeFormat::new(String::from_str("jmp"), vec![FormatUnit::Opcode, FormatUnit::IMM8]),
        ),
        0x4e => Some(
            ByteCodeFormat::new(String::from_str("jmp"), vec![FormatUnit::Opcode, FormatUnit::IMM16]),
        ),
        0x4f => Some(
            ByteCodeFormat::new(String::from_str("jeqz"), vec![FormatUnit::Opcode, FormatUnit::IMM8]),
        ),
        0x50 => Some(
            ByteCodeFormat::new(String::from_str("jeqz"), vec![FormatUnit::Opcode, FormatUnit::IMM16]),
        ),
        0x51 => Some(
            ByteCodeFormat::new(String::from_str("jnez"), vec![FormatUnit::Opcode, FormatUnit::IMM8]),
        ),
        0x52 => Some(
            ByteCodeFormat::new(String::from_str("jstricteqz"), vec![FormatUnit::Opcode, FormatUnit::IMM8]),
        ),
        0x53 => Some(
            ByteCodeFormat::new(String::from_str("jnstricteqz"), vec![FormatUnit::Opcode, FormatUnit::IMM8]),
        ),
        0x54 => Some(
            ByteCodeFormat::new(String::from_str("jeqnull"), vec![FormatUnit::Opcode, FormatUnit::IMM8]),
        ),
        0x55 => Some(
            ByteCodeFormat::new(String::from_str("jnenull"), vec![FormatUnit::Opcode, FormatUnit::IMM8]),
        ),
        0x56 => Some(
            ByteCodeFormat::new(String::from_str("jstricteqnull"), vec![FormatUnit::Opcode, FormatUnit::IMM8]),
        ),
        0x57 => Some(
            ByteCodeFormat::new(String::from_str("jnstricteqnull"), vec![FormatUnit::Opcode, FormatUnit::IMM8]),
        ),
        0x58 => Some(
            ByteCodeFormat::new(String::from_str("jequndefined"), vec![FormatUnit::Opcode, FormatUnit::IMM8]),
        ),
        0x59 => Some(
            ByteCodeFormat::new(String::from_str("jneundefined"), vec![FormatUnit::Opcode, FormatUnit::IMM8]),
        ),
        0x5a => Some(
            ByteCodeFormat::new(String::from_str("jstrictequndefined"), vec![FormatUnit::Opcode, FormatUnit::IMM8]),
        ),
        0x5b => Some(
            ByteCodeFormat::new(String::from_str("jnstrictequndefined"), vec![FormatUnit::Opcode, FormatUnit::IMM8]),
        ),
        0x5c => Some(
            ByteCodeFormat::new(String::from_str("jeq"), vec![FormatUnit::Opcode, FormatUnit::V8, FormatUnit::IMM8]),
        ),
        0x5d => Some(
            ByteCodeFormat::new(String::from_str("jne"), vec![FormatUnit::Opcode, FormatUnit::V8, FormatUnit::IMM8]),
        ),
        0x5e => Some(
            ByteCodeFormat::new(String::from_str("jstricteq"), vec![FormatUnit::Opcode, FormatUnit::V8, FormatUnit::IMM8]),
        ),
        0x5f => Some(
            ByteCodeFormat::new(String::from_str("jnstricteq"), vec![FormatUnit::Opcode, FormatUnit::V8, FormatUnit::IMM8]),
        ),
        0x60 => Some(
            ByteCodeFormat::new(String::from_str("lda"), vec![FormatUnit::Opcode, FormatUnit::V8]),
        ),
        0x61 => Some(
            ByteCodeFormat::new(String::from_str("sta"), vec![FormatUnit::Opcode, FormatUnit::V8]),
        ),
        0x62 => Some(
            ByteCodeFormat::new(String::from_str("ldai"), vec![FormatUnit::Opcode, FormatUnit::IMM32]),
        ),
        0x63 => Some(
            ByteCodeFormat::new(String::from_str("fldai"), vec![FormatUnit::Opcode, FormatUnit::IMM64]),
        ),
        0x64 => Some(
            ByteCodeFormat::new(String::from_str("return"), vec![FormatUnit::Opcode]),
        ),
        0x65 => Some(
            ByteCodeFormat::new(String::from_str("returnundefined"), vec![FormatUnit::Opcode]),
        ),
        0x66 => Some(
            ByteCodeFormat::new(String::from_str("getpropiterator"), vec![FormatUnit::Opcode]),
        ),
        0x67 => Some(
            ByteCodeFormat::new(String::from_str("getiterator"), vec![FormatUnit::Opcode, FormatUnit::RR]),
        ),
        0x68 => Some(
            ByteCodeFormat::new(String::from_str("closeiterator"), vec![FormatUnit::Opcode, FormatUnit::RR, FormatUnit::V8]),
        ),
        0x69 => Some(
            ByteCodeFormat::new(String::from_str("poplexenv"), vec![FormatUnit::Opcode]),
        ),
        0x6a => Some(
            ByteCodeFormat::new(String::from_str("ldnan"), vec![FormatUnit::Opcode]),
        ),
        0x6b => Some(
            ByteCodeFormat::new(String::from_str("ldinfinity"), vec![FormatUnit::Opcode]),
        ),
        0x6c => Some(
            ByteCodeFormat::new(String::from_str("getunmappedargs"), vec![FormatUnit::Opcode]),
        ),
        0x6d => Some(
            ByteCodeFormat::new(String::from_str("ldglobal"), vec![FormatUnit::Opcode]),
        ),
        0x6e => Some(
            ByteCodeFormat::new(String::from_str("ldnewtarget"), vec![FormatUnit::Opcode]),
        ),
        0x6f => Some(
            ByteCodeFormat::new(String::from_str("ldthis"), vec![FormatUnit::Opcode]),
        ),
        0x70 => Some(
            ByteCodeFormat::new(String::from_str("ldhole"), vec![FormatUnit::Opcode]),
        ),
        0x71 => Some(
            ByteCodeFormat::new(String::from_str("createregexpwithliteral"), vec![FormatUnit::Opcode, FormatUnit::RR, FormatUnit::MethodID, FormatUnit::IMM8]),
        ),
        0x72 => Some(
            ByteCodeFormat::new(String::from_str("createregexpwithliteral"), vec![FormatUnit::Opcode, FormatUnit::RRRR, FormatUnit::StringID, FormatUnit::IMM8]),
        ),
        0x73 => Some(
            ByteCodeFormat::new(String::from_str("callrange"), vec![FormatUnit::Opcode, FormatUnit::RR, FormatUnit::IMM8, FormatUnit::V8]),
        ),
        0x74 => Some(
            ByteCodeFormat::new(String::from_str("definefunc"), vec![FormatUnit::Opcode, FormatUnit::RRRR, FormatUnit::MethodID, FormatUnit::IMM8]),
        ),
        0x75 => Some(
            ByteCodeFormat::new(String::from_str("defineclasswithbuffer"), vec![FormatUnit::Opcode, FormatUnit::RRRR, FormatUnit::MethodID, FormatUnit::LiteralID, FormatUnit::IMM16, FormatUnit::V8]),
        ),
        0x76 => Some(
            ByteCodeFormat::new(String::from_str("gettemplateobject"), vec![FormatUnit::Opcode, FormatUnit::RR]),
        ),
        0x77 => Some(
            ByteCodeFormat::new(String::from_str("setobjectwithproto"), vec![FormatUnit::Opcode, FormatUnit::RR, FormatUnit::V8]),
        ),
        0x78 => Some(
            ByteCodeFormat::new(String::from_str("stownbyvalue"), vec![FormatUnit::Opcode, FormatUnit::RR, FormatUnit::V8, FormatUnit::V8]),
        ),
        0x79 => Some(
            ByteCodeFormat::new(String::from_str("stownbyindex"), vec![FormatUnit::Opcode, FormatUnit::RR, FormatUnit::V8, FormatUnit::IMM16]),
        ),
        0x7a => Some(
            ByteCodeFormat::new(String::from_str("stownbyname"), vec![FormatUnit::Opcode, FormatUnit::RR, FormatUnit::StringID, FormatUnit::V8]),
        ),
        0x7b => Some(
            ByteCodeFormat::new(String::from_str("getmodulenamespace"), vec![FormatUnit::Opcode, FormatUnit::IMM8]),
        ),
        0x7c => Some(
            ByteCodeFormat::new(String::from_str("stmodulevar"), vec![FormatUnit::Opcode, FormatUnit::IMM8]),
        ),
        0x7d => Some(
            ByteCodeFormat::new(String::from_str("ldlocalmodulevar"), vec![FormatUnit::Opcode, FormatUnit::IMM8]),
        ),
        0x7e => Some(
            ByteCodeFormat::new(String::from_str("ldexternalmodulevar"), vec![FormatUnit::Opcode, FormatUnit::IMM8]),
        ),
        0x7f => Some(
            ByteCodeFormat::new(String::from_str("stglobalvar"), vec![FormatUnit::Opcode, FormatUnit::RRRR, FormatUnit::StringID]),
        ),
        _ => None,
    }
}

#[verifier::rlimit(100)]
#[verifier::spinoff_prover]
fn ord_format_2(op: u8) -> (r: Option<ByteCodeFormat>)
    ensures
        r is Some <==> (0x80 <= op < 0x0c0 && opcode_known(op)),
        r matches Some(f) ==> ord_entry_wf(f) && f.formats@[0] == FormatUnit::Opcode,
        entry_matches(r, spec_ord_format_2(op)),
{
    proof {
        reveal(spec_ord_format_2);
    }
    match op {
        0x80 => Some(
            ByteCodeFormat::new(String::from_str("createemptyarray"), vec![FormatUnit::Opcode, FormatUnit::RRRR]),
        ),
        0x81 => Some(
            ByteCodeFormat::new(String::from_str("createarraywithbuffer"), vec![FormatUnit::Opcode, FormatUnit::RRRR, FormatUnit::LiteralID]),
        ),
        0x82 => Some(
            ByteCodeFormat::new(String::from_str("createobjectwithbuffer"), vec![FormatUnit::Opcode, FormatUnit::RRRR, FormatUnit::LiteralID]),
        ),
        0x83 => Some(
            ByteCodeFormat::new(String::from_str("newobjrange"), vec![FormatUnit::Opcode, FormatUnit::RRRR, FormatUnit::IMM8, FormatUnit::V8]),
        ),
        0x84 => Some(
            ByteCodeFormat::new(String::from_str("typeof"), vec![FormatUnit::Opcode, FormatUnit::RRRR]),
        ),
        0x85 => Some(
            ByteCodeFormat::new(String::from_str("ldobjbyvalue"), vec![FormatUnit::Opcode, FormatUnit::RRRR, FormatUnit::V8]),
        ),
        0x86 => Some(
            ByteCodeFormat::new(String::from_str("stobjbyvalue"), vec![FormatUnit::Opcode, FormatUnit::RRRR, FormatUnit::V8, FormatUnit::V8]),
        ),
        0x87 => Some(
            ByteCodeFormat::new(String::from_str("ldsuperbyvalue"), vec![FormatUnit::Opcode, FormatUnit::RRRR, FormatUnit::V8]),
        ),
        0xad => Some(
            ByteCodeFormat::new(String::from_str("ldsymbol"), vec![FormatUnit::Opcode]),
        ),
        0xae => Some(
            ByteCodeFormat::new(String::from_str("asyncfunctionenter"), vec![FormatUnit::Opcode]),
        ),
        0xaf => Some(
            ByteCodeFormat::new(String::from_str("ldfunction"), vec![FormatUnit::Opcode]),
        ),
        0xb0 => Some(
            ByteCodeFormat::new(String::from_str("debugger"), vec![FormatUnit::Opcode]),
        ),
        0xb1 => Some(
            ByteCodeFormat::new(String::from_str("creategeneratorobj"), vec![FormatUnit::Opcode, FormatUnit::V8]),
        ),
        0xb2 => Some(
            ByteCodeFormat::new(String::from_str("createiterresultobj"), vec![FormatUnit::Opcode, FormatUnit::V8, FormatUnit::V8]),
        ),
        0xb3 => Some(
            ByteCodeFormat::new(String::from_str("createobjectwithexcludedkeys"), vec![FormatUnit::Opcode, FormatUnit::IMM8, FormatUnit::V8, FormatUnit::V8]),
        ),
        0xb4 => Some(
            ByteCodeFormat::new(String::from_str("newobjapply"), vec![FormatUnit::Opcode, FormatUnit::RR, FormatUnit::V8]),
        ),
        0xb5 => Some(
            ByteCodeFormat::new(String::from_str("newobjapply"), vec![FormatUnit::Opcode, FormatUnit::RRRR, FormatUnit::V8]),
        ),
        0xb6 => Some(
            ByteCodeFormat::new(String::from_str("newlexenvwithname"), vec![FormatUnit::Opcode, FormatUnit::IMM8, FormatUnit::LiteralID]),
        ),
        0xb7 => Some(
            ByteCodeFormat::new(String::from_str("createasyncgeneratorobj"), vec![FormatUnit::Opcode, FormatUnit::V8]),
        ),
        0xb8 => Some(
            ByteCodeFormat::new(String::from_str("asyncgeneratorresolve"), vec![FormatUnit::Opcode, FormatUnit::V8, FormatUnit::V8, FormatUnit::V8]),
        ),
        0xb9 => Some(
            ByteCodeFormat::new(String::from_str("supercallspread"), vec![FormatUnit::Opcode, FormatUnit::RR, FormatUnit::V8]),
        ),
        0xba => Some(
            ByteCodeFormat::new(String::from_str("apply"), vec![FormatUnit::Opcode, FormatUnit::RR, FormatUnit::V8, FormatUnit::V8]),
        ),
        0xbb => Some(
            ByteCodeFormat::new(String::from_str("supercallarrowrange"), vec![FormatUnit::Opcode, FormatUnit::RR, FormatUnit::IMM8, FormatUnit::V8]),
        ),
        0xbc => Some(
            ByteCodeFormat::new(String::from_str("definegettersetterbyvalue"), vec![FormatUnit::Opcode, FormatUnit::V8, FormatUnit::V8, FormatUnit::V8, FormatUnit::V8]),
        ),
        0xbd => Some(
            ByteCodeFormat::new(String::from_str("dynamicimport"), vec![FormatUnit::Opcode]),
        ),
        0xbe => Some(
            ByteCodeFormat::new(String::from_str("definemethod"), vec![FormatUnit::Opcode, FormatUnit::RRRR, FormatUnit::MethodID, FormatUnit::IMM8]),
        ),
        0xbf => Some(
            ByteCodeFormat::new(String::from_str("resumegenerator"), vec![FormatUnit::Opcode]),
        ),
        _ => None,
    }
}

#[verifier::rlimit(100)]
#[verifier::spinoff_prover]
fn ord_format_3(op: u8) -> (r: Option<ByteCodeFormat>)
    ensures
        r is Some <==> (0xc0 <= op < 0x0e0 && opcode_known(op)),
        r matches Some(f) ==> ord_entry_wf(f) && f.formats@[0] == FormatUnit::Opcode,
        entry_matches(r, spec_ord_format_3(op)),
{
    proof {
        reveal(spec_ord_format_3);
    }
    match op {
        0xc0 => Some(
            ByteCodeFormat::new(String::from_str("getresumemode"), vec![FormatUnit::Opcode]),
        ),
        0xc1 => Some(
            ByteCodeFormat::new(String::from_str("gettemplateobject"), vec![FormatUnit::Opcode, FormatUnit::RRRR]),
        ),
        0xc2 => Some(
            ByteCodeFormat::new(String::from_str("delobjprop"), vec![FormatUnit::Opcode, FormatUnit::V8]),
        ),
        0xc3 => Some(
            ByteCodeFormat::new(String::from_str("suspendgenerator"), vec![FormatUnit::Opcode, FormatUnit::V8]),
        ),
        0xc4 => Some(
            ByteCodeFormat::new(String::from_str("asyncfunctionawaituncaught"), vec![FormatUnit::Opcode, FormatUnit::V8]),
        ),
        0xc5 => Some(
            ByteCodeFormat::new(String::from_str("copydataproperties"), vec![FormatUnit::Opcode, FormatUnit::V8]),
        ),
        0xc6 => Some(
            ByteCodeFormat::new(String::from_str("starrayspread"), vec![FormatUnit::Opcode, FormatUnit::V8, FormatUnit::V8]),
        ),
        0xc7 => Some(
            ByteCodeFormat::new(String::from_str("setobjectwithproto"), vec![FormatUnit::Opcode, FormatUnit::RRRR, FormatUnit::V8]),
        ),
        0xc8 => Some(
            ByteCodeFormat::new(String::from_str("stownbyvalue"), vec![FormatUnit::Opcode, FormatUnit::RRRR, FormatUnit::V8, FormatUnit::V8]),
        ),
        0xc9 => Some(
            ByteCodeFormat::new(String::from_str("stsuperbyvalue"), vec![FormatUnit::Opcode, FormatUnit::IMM8, FormatUnit::V8, FormatUnit::V8]),
        ),
        0xca => Some(
            ByteCodeFormat::new(String::from_str("stsuperbyvalue"), vec![FormatUnit::Opcode, FormatUnit::RRRR, FormatUnit::V8, FormatUnit::V8]),
        ),
        0xcb => Some(
            ByteCodeFormat::new(String::from_str("stownbyindex"), vec![FormatUnit::Opcode, FormatUnit::RRRR, FormatUnit::V8, FormatUnit::IMM16]),
        ),
        0xcc => Some(
            ByteCodeFormat::new(String::from_str("stownbyname"), vec![FormatUnit::Opcode, FormatUnit::RRRR, FormatUnit::StringID, FormatUnit::V8]),
        ),
        0xcd => Some(
            ByteCodeFormat::new(String::from_str("asyncfunctionresolve"), vec![FormatUnit::Opcode]),
        ),
        0xce => Some(
            ByteCodeFormat::new(String::from_str("asyncfunctionreject"), vec![FormatUnit::Opcode]),
        ),
        0xcf => Some(
            ByteCodeFormat::new(String::from_str("copyrestargs"), vec![FormatUnit::Opcode, FormatUnit::IMM8]),
        ),
        0xd0 => Some(
            ByteCodeFormat::new(String::from_str("stsuperbyname"), vec![FormatUnit::Opcode, FormatUnit::RR, FormatUnit::StringID, FormatUnit::V8]),
        ),
        0xd1 => Some(
            ByteCodeFormat::new(String::from_str("stsuperbyname"), vec![FormatUnit::Opcode, FormatUnit::RRRR, FormatUnit::StringID, FormatUnit::V8]),
        ),
        0xd2 => Some(
            ByteCodeFormat::new(String::from_str("stownbyvaluewithnameset"), vec![FormatUnit::Opcode, FormatUnit::RRRR, FormatUnit::V8, FormatUnit::V8]),
        ),
        0xd3 => Some(
            ByteCodeFormat::new(String::from_str("ldbigint"), vec![FormatUnit::Opcode, FormatUnit::StringID]),
        ),
        0xd4 => Some(
            ByteCodeFormat::new(String::from_str("stownbynamewithnameset"), vec![FormatUnit::Opcode, FormatUnit::RRRR, FormatUnit::StringID, FormatUnit::V8]),
        ),
        0xd5 => Some(
            ByteCodeFormat::new(String::from_str("nop"), vec![FormatUnit::Opcode]),
        ),
        0xd6 => Some(
            ByteCodeFormat::new(String::from_str("setgeneratorstate"), vec![FormatUnit::Opcode, FormatUnit::IMM8]),
        ),
        0xd7 => Some(
            ByteCodeFormat::new(String::from_str("getasynciterator"), vec![FormatUnit::Opcode, FormatUnit::RR]),
        ),
        0xd8 => Some(
            ByteCodeFormat::new(String::from_str("ldprivateproperty"), vec![FormatUnit::Opcode, FormatUnit::RR, FormatUnit::IMM16, FormatUnit::IMM16]),
        ),
        0xd9 => Some(
            ByteCodeFormat::new(String::from_str("stprivateproperty"), vec![FormatUnit::Opcode, FormatUnit::RR, FormatUnit::IMM16, FormatUnit::IMM16, FormatUnit::V8]),
        ),
        0xda => Some(
            ByteCodeFormat::new(String::from_str("testin"), vec![FormatUnit::Opcode, FormatUnit::RR, FormatUnit::IMM16, FormatUnit::IMM16]),
        ),
        0xdb => Some(
            ByteCodeFormat::new(String::from_str("definefieldbyname"), vec![FormatUnit::Opcode, FormatUnit::RR, FormatUnit::StringID, FormatUnit::V8]),
        ),
        _ => None,
    }
}

#[verifier::rlimit(100)]
#[verifier::spinoff_prover]
fn ord_format_4(op: u8) -> (r: Option<ByteCodeFormat>)
    ensures
        r is Some <==> (0xe0 <= op < 0x100 && opcode_known(op)),
        r matches Some(f) ==> ord_entry_wf(f) && (op == 0xfb || op == 0xfd || op == 0xfe
            || f.formats@[0] == FormatUnit::Opcode),
        entry_matches(r, spec_ord_format_4(op)),
{
    proof {
        reveal(spec_ord_format_4);
    }
    match op {
        0xfb => Some(
            ByteCodeFormat::new(String::from_str("callruntime.notifyconcurrentresult"), vec![FormatUnit::PrefixOpcode]),
        ),
        0xfd => Some(
            ByteCodeFormat::new(String::from_str("wide.createobjectwithexcludedkeys"), vec![FormatUnit::PrefixOpcode, FormatUnit::IMM16, FormatUnit::V8, FormatUnit::V8]),
        ),
        0xfe => Some(
            ByteCodeFormat::new(String::from_str("thrown"), vec![FormatUnit::PrefixOpcode]),
        ),
        _ => None,
    }
}

/// The two-byte keys that the prefix opcode table covers (the secondary
/// byte in the high half, the prefix byte in the low half).
pub open spec fn prefix_known(key: u16) -> bool {
    key == 0x01fb || key == 0x01fd || key == 0x01fe || key == 0x02fb || key == 0x02fd || key == 0x02fe || key == 0x03fb || key == 0x03fe || key == 0x04fb || key == 0x04fd || key == 0x04fe || key == 0x05fb || key == 0x05fd || key == 0x05fe || key == 0x06fb || key == 0x06fd || key == 0x06fe || key == 0x07fb || key == 0x07fd || key == 0x07fe || key == 0x08fb || key == 0x08fd || key == 0x08fe || key == 0x09fd || key == 0x09fe || key == 0x0afd || key == 0x0bfd || key == 0x0cfd || key == 0x0dfd || key == 0x0efd || key == 0x0ffd || key == 0x10fd || key == 0x11fd || key == 0x12fd || key == 0x13fd
}

#[verifier::rlimit(100)]
#[verifier::spinoff_prover]
fn pref_format(key: u16) -> (r: Option<ByteCodeFormat>)
    ensures
        r is Some <==> prefix_known(key),
        r matches Some(f) ==> pref_entry_wf(f),
        entry_matches(r, spec_pref_format(key)),
{
    proof {
        reveal(spec_pref_format);
    }
    match key {
        0x01fb => Some(
            ByteCodeFormat::new(String::from_str("callruntime.definefieldbyvalue"), vec![FormatUnit::PrefixOpcode, FormatUnit::RR, FormatUnit::V8, FormatUnit::V8]),
        ),
        0x01fd => Some(
            ByteCodeFormat::new(String::from_str("wide.newobjrange"), vec![FormatUnit::PrefixOpcode, FormatUnit::IMM16, FormatUnit::V8]),
        ),
        0x01fe => Some(
            ByteCodeFormat::new(String::from_str("throw.notexists"), vec![FormatUnit::PrefixOpcode]),
        ),
        0x02fb => Some(
            ByteCodeFormat::new(String::from_str("callruntime.definefieldbyindex"), vec![FormatUnit::PrefixOpcode, FormatUnit::RR, FormatUnit::IMM32, FormatUnit::V8]),
        ),
        0x02fd => Some(
            ByteCodeFormat::new(String::from_str("wide.newlexenv"), vec![FormatUnit::PrefixOpcode, FormatUnit::IMM16]),
        ),
        0x02fe => Some(
            ByteCodeFormat::new(String::from_str("throw.patternnoncoercible"), vec![FormatUnit::PrefixOpcode]),
        ),
        0x03fb => Some(
            ByteCodeFormat::new(String::from_str("wide.newlexenvwithname"), vec![FormatUnit::PrefixOpcode, FormatUnit::IMM16, FormatUnit::LiteralID]),
        ),
        0x03fe => Some(
            ByteCodeFormat::new(String::from_str("throw.deletesuperproperty"), vec![FormatUnit::PrefixOpcode]),
        ),
        0x04fb => Some(
            ByteCodeFormat::new(String::from_str("callruntime.createprivateproperty"), vec![FormatUnit::PrefixOpcode, FormatUnit::IMM16, FormatUnit::LiteralID]),
        ),
        0x04fd => Some(
            ByteCodeFormat::new(String::from_str("wide.callrange"), vec![FormatUnit::PrefixOpcode, FormatUnit::IMM16, FormatUnit::V8]),
        ),
        0x04fe => Some(
            ByteCodeFormat::new(String::from_str("throw.constassignment"), vec![FormatUnit::PrefixOpcode, FormatUnit::V8]),
        ),
        0x05fb => Some(
            ByteCodeFormat::new(String::from_str("callruntime.defineprivateproperty"), vec![FormatUnit::PrefixOpcode, FormatUnit::RR, FormatUnit::IMM16, FormatUnit::IMM16, FormatUnit::V8]),
        ),
        0x05fd => Some(
            ByteCodeFormat::new(String::from_str("wide.callthisrange"), vec![FormatUnit::PrefixOpcode, FormatUnit::IMM16, FormatUnit::V8]),
        ),
        0x05fe => Some(
            ByteCodeFormat::new(String::from_str("throw.ifnotobject"), vec![FormatUnit::PrefixOpcode, FormatUnit::V8]),
        ),
        0x06fb => Some(
            ByteCodeFormat::new(String::from_str("callruntime.callinit"), vec![FormatUnit::PrefixOpcode, FormatUnit::RR, FormatUnit::V8]),
        ),
        0x06fd => Some(
            ByteCodeFormat::new(String::from_str("wide.supercallthisrange"), vec![FormatUnit::PrefixOpcode, FormatUnit::IMM16, FormatUnit::V8]),
        ),
        0x06fe => Some(
            ByteCodeFormat::new(String::from_str("throw.undefinedifhole"), vec![FormatUnit::PrefixOpcode, FormatUnit::V8, FormatUnit::V8]),
        ),
        0x07fb => Some(
            ByteCodeFormat::new(String::from_str("callruntime.definesendableclass"), vec![FormatUnit::PrefixOpcode, FormatUnit::RRRR, FormatUnit::MethodID, FormatUnit::LiteralID, FormatUnit::IMM16, FormatUnit::V8]),
        ),
        0x07fd => Some(
            ByteCodeFormat::new(String::from_str("wide.supercallarrowrange"), vec![FormatUnit::PrefixOpcode, FormatUnit::IMM16, FormatUnit::V8]),
        ),
        0x07fe => Some(
            ByteCodeFormat::new(String::from_str("throw.ifsupernotcorrectcall"), vec![FormatUnit::PrefixOpcode, FormatUnit::IMM8]),
        ),
        0x08fb => Some(
            ByteCodeFormat::new(String::from_str("callruntime.ldsendableclass"), vec![FormatUnit::PrefixOpcode, FormatUnit::IMM16]),
        ),
        0x08fd => Some(
            ByteCodeFormat::new(String::from_str("wide.ldobjbyindex"), vec![FormatUnit::PrefixOpcode, FormatUnit::IMM32]),
        ),
        0x08fe => Some(
            ByteCodeFormat::new(String::from_str("throw.ifsupernotcorrectcall"), vec![FormatUnit::PrefixOpcode, FormatUnit::IMM16]),
        ),
        0x09fd => Some(
            ByteCodeFormat::new(String::from_str("wide.stobjbyindex"), vec![FormatUnit::PrefixOpcode, FormatUnit::V8, FormatUnit::IMM32]),
        ),
        0x09fe => Some(
            ByteCodeFormat::new(String::from_str("throw.undefinedifholewithname"), vec![FormatUnit::PrefixOpcode, FormatUnit::StringID]),
        ),
        0x0afd => Some(
            ByteCodeFormat::new(String::from_str("wide.stownbyindex"), vec![FormatUnit::PrefixOpcode, FormatUnit::V8, FormatUnit::IMM32]),
        ),
        0x0bfd => Some(
            ByteCodeFormat::new(String::from_str("wide.copyrestargs"), vec![FormatUnit::PrefixOpcode, FormatUnit::IMM16]),
        ),
        0x0cfd => Some(
            ByteCodeFormat::new(String::from_str("wide.ldlexvar"), vec![FormatUnit::PrefixOpcode, FormatUnit::IMM16, FormatUnit::IMM16]),
        ),
        0x0dfd => Some(
            ByteCodeFormat::new(String::from_str("wide.stlexvar"), vec![FormatUnit::PrefixOpcode, FormatUnit::IMM16, FormatUnit::IMM16]),
        ),
        0x0efd => Some(
            ByteCodeFormat::new(String::from_str("wide.getmodulenamespace"), vec![FormatUnit::PrefixOpcode, FormatUnit::IMM16]),
        ),
        0x0ffd => Some(
            ByteCodeFormat::new(String::from_str("wide.stmodulevar"), vec![FormatUnit::PrefixOpcode, FormatUnit::IMM16]),
        ),
        0x10fd => Some(
            ByteCodeFormat::new(String::from_str("wide.ldlocalmodulevar"), vec![FormatUnit::PrefixOpcode, FormatUnit::IMM16]),
        ),
        0x11fd => Some(
            ByteCodeFormat::new(String::from_str("wide.ldexternalmodulevar"), vec![FormatUnit::PrefixOpcode, FormatUnit::IMM16]),
        ),
        0x12fd => Some(
            ByteCodeFormat::new(String::from_str("wide.ldpatchvar"), vec![FormatUnit::PrefixOpcode, FormatUnit::IMM16]),
        ),
        0x13fd => Some(
            ByteCodeFormat::new(String::from_str("wide.stpatchvar"), vec![FormatUnit::PrefixOpcode, FormatUnit::IMM16]),
        ),
        _ => None,
    }
}

/// The format of the ordinary instruction whose first byte is `op`.
pub fn opcode_format(op: u8) -> (r: Option<ByteCodeFormat>)
    ensures
        r is Some <==> opcode_known(op),
        r matches Some(f) ==> ord_entry_wf(f) && (op == 0xfb || op == 0xfd || op == 0xfe
            || f.formats@[0] == FormatUnit::Opcode),
        entry_matches(r, spec_opcode_format(op)),
{
    proof {
        reveal(spec_opcode_format);
    }
    if op < 0x40 {
        ord_format_0(op)
    } else if op < 0x80 {
        ord_format_1(op)
    } else if op < 0xc0 {
        ord_format_2(op)
    } else if op < 0xe0 {
        ord_format_3(op)
    } else {
        ord_format_4(op)
    }
}

/// The text of the first entry of `m` whose key is `key`.
pub open spec fn lmap_find(m: Seq<(usize, String)>, key: int) -> Option<Seq<char>>
    decreases m.len(),
{
    if m.len() == 0 {
        None
    } else if m[0].0 == key {
        Some(m[0].1@)
    } else {
        lmap_find(m.drop_first(), key)
    }
}

/// Looks `key` up in the literal-array pool, first match wins.
pub fn lmap_get(m: &Vec<(usize, String)>, key: usize) -> (r: Option<&String>)
    ensures
        r matches Some(s) ==> lmap_find(m@, key as int) == Some(s@),
        r is None ==> lmap_find(m@, key as int) is None,
{
    let n = m.len();
    let mut i: usize = 0;
    assert(m@.skip(0) =~= m@);
    while i < n
        invariant
            0 <= i <= n,
            n == m@.len(),
            lmap_find(m@, key as int) == lmap_find(m@.skip(i as int), key as int),
        decreases n - i,
    {
        proof {
            assert(m@.skip(i as int)[0] == m@[i as int]);
            assert(m@.skip(i as int).drop_first() =~= m@.skip(i + 1));
        }
        if m[i].0 == key {
            return Some(&m[i].1);
        }
        i = i + 1;
    }
    proof {
        assert(m@.skip(n as int) =~= Seq::<(usize, String)>::empty());
    }
    None
}

/// One decoded format unit at `off` in the instruction bytes: the offset
/// after it, its contribution to the raw hex dump, and its rendered
/// operand text.
#[verifier::opaque]
pub open spec fn unit_item(
    instr: Seq<u8>,
    source: Seq<u8>,
    region: Region,
    lmap: Seq<(usize, String)>,
    u: FormatUnit,
    off: int,
) -> Result<(int, Seq<char>, Seq<char>), AbcError> {
    if off < 0 || off + unit_size(u) > instr.len() {
        Err(AbcError::OutOfBounds)
    } else {
        match u {
            FormatUnit::Opcode => Ok(
                (off + 1, pad_left(hex_str(instr[off] as nat), '0', 2), Seq::<char>::empty()),
            ),
            FormatUnit::PrefixOpcode => Ok(
                (off + 2, pad_left(hex_str(u16_be_at(instr, off)), '0', 4), Seq::<char>::empty()),
            ),
            FormatUnit::RR => Ok((off + 1, Seq::<char>::empty(), Seq::<char>::empty())),
            FormatUnit::RRRR => Ok((off + 2, Seq::<char>::empty(), Seq::<char>::empty())),
            FormatUnit::V4V4 => Ok(
                (
                    off + 1,
                    pad_left(hex_str(instr[off] as nat), '0', 2),
                    "v"@ + dec_str((instr[off] % 16) as nat) + " v"@ + dec_str(
                        (instr[off] / 16) as nat,
                    ),
                ),
            ),
            FormatUnit::V8 => Ok(
                (
                    off + 1,
                    pad_left(hex_str(instr[off] as nat), '0', 2),
                    "v"@ + dec_str(instr[off] as nat) + " "@,
                ),
            ),
            FormatUnit::V16 => Ok(
                (
                    off + 2,
                    pad_left(hex_str(u16_at(instr, off)), '0', 4),
                    "v"@ + dec_str(u16_at(instr, off)) + " "@,
                ),
            ),
            FormatUnit::Imm4Imm4 => Ok(
                (
                    off + 1,
                    pad_left(hex_str(instr[off] as nat), '0', 2),
                    "Imm4Imm4+"@ + dec_str(instr[off] as nat) + " "@,
                ),
            ),
            FormatUnit::IMM8 => Ok(
                (
                    off + 1,
                    pad_left(hex_str(instr[off] as nat), '0', 2),
                    "+"@ + dec_str(instr[off] as nat) + " "@,
                ),
            ),
            FormatUnit::IMM16 => Ok(
                (
                    off + 2,
                    pad_left(hex_str(u16_at(instr, off)), '0', 4),
                    "+"@ + dec_str(u16_at(instr, off)) + " "@,
                ),
            ),
            FormatUnit::IMM32 => Ok(
                (
                    off + 4,
                    pad_left(hex_str(u32_at(instr, off)), '0', 8),
                    "IMM32+"@ + dec_str(u32_at(instr, off)) + " "@,
                ),
            ),
            FormatUnit::IMM64 => Ok(
                (
                    off + 8,
                    pad_left(hex_str(u64_at(instr, off)), ' ', 16),
                    "IMM64+"@ + dec_str(u64_at(instr, off)) + " "@,
                ),
            ),
            FormatUnit::LiteralID => {
                let idx = u16_at(instr, off);
                if idx >= region.method_string_literal_region_idx.offsets@.len() {
                    Err(AbcError::OutOfBounds)
                } else {
                    match lmap_find(
                        lmap,
                        region.method_string_literal_region_idx.offsets@[idx as int] as int,
                    ) {
                        None => Err(AbcError::OutOfBounds),
                        Some(t) => Ok(
                            (off + 2, pad_left(hex_str(idx), '0', 4), "{ "@ + t + " }"@),
                        ),
                    }
                }
            },
            FormatUnit::StringID => {
                let idx = u16_at(instr, off);
                if idx >= region.method_string_literal_region_idx.offsets@.len() {
                    Err(AbcError::OutOfBounds)
                } else {
                    let soff = region.method_string_literal_region_idx.offsets@[idx as int] as int;
                    if string_fits(source, soff) {
                        Ok(
                            (
                                off + 2,
                                pad_left(hex_str(idx), '0', 4),
                                "\""@ + string_text(source, soff) + "\" "@,
                            ),
                        )
                    } else {
                        Err(string_err_at(source, soff))
                    }
                }
            },
            FormatUnit::MethodID => {
                let idx = u16_at(instr, off);
                if idx >= region.method_string_literal_region_idx.offsets@.len() {
                    Err(AbcError::OutOfBounds)
                } else {
                    let moff = region.method_string_literal_region_idx.offsets@[idx as int] as int;
                    if method_sign_fits(source, moff, region) {
                        Ok(
                            (
                                off + 2,
                                pad_left(hex_str(idx), '0', 4),
                                method_sign_text(source, moff, region) + " "@,
                            ),
                        )
                    } else {
                        Err(method_sign_err(source, moff, region))
                    }
                }
            },
        }
    }
}

/// Prefixes raw and operand text to the result of rendering the remaining
/// units.
pub open spec fn ur_prepend(
    raw: Seq<char>,
    text: Seq<char>,
    r: Result<(int, Seq<char>, Seq<char>), AbcError>,
) -> Result<(int, Seq<char>, Seq<char>), AbcError> {
    match r {
        Ok(t) => Ok((t.0, raw + t.1, text + t.2)),
        Err(e) => Err(e),
    }
}

proof fn lemma_ur_prepend_assoc(
    raw1: Seq<char>,
    text1: Seq<char>,
    raw2: Seq<char>,
    text2: Seq<char>,
    r: Result<(int, Seq<char>, Seq<char>), AbcError>,
)
    ensures
        ur_prepend(raw1, text1, ur_prepend(raw2, text2, r)) == ur_prepend(
            raw1 + raw2,
            text1 + text2,
            r,
        ),
{
    match r {
        Ok(t) => {
            assert(raw1 + (raw2 + t.1) =~= (raw1 + raw2) + t.1);
            assert(text1 + (text2 + t.2) =~= (text1 + text2) + t.2);
        },
        Err(_) => {},
    }
}

proof fn lemma_ur_prepend_empty(r: Result<(int, Seq<char>, Seq<char>), AbcError>)
    ensures
        ur_prepend(Seq::<char>::empty(), Seq::<char>::empty(), r) == r,
{
    match r {
        Ok(t) => {
            assert(Seq::<char>::empty() + t.1 =~= t.1);
            assert(Seq::<char>::empty() + t.2 =~= t.2);
        },
        Err(_) => {},
    }
}

/// The whole operand walk of one instruction: the end offset, the raw hex
/// dump of its bytes, and its operand text.
pub open spec fn units_render(
    instr: Seq<u8>,
    source: Seq<u8>,
    region: Region,
    lmap: Seq<(usize, String)>,
    units: Seq<FormatUnit>,
    off: int,
) -> Result<(int, Seq<char>, Seq<char>), AbcError>
    decreases units.len(),
{
    if units.len() == 0 {
        Ok((off, Seq::<char>::empty(), Seq::<char>::empty()))
    } else {
        match unit_item(instr, source, region, lmap, units[0], off) {
            Err(e) => Err(e),
            Ok(t) => ur_prepend(
                t.1,
                t.2,
                units_render(instr, source, region, lmap, units.drop_first(), t.0),
            ),
        }
    }
}

/// One disassembly line: the raw hex dump, a separator, the mnemonic, and
/// the operand text.
pub open spec fn inst_line(name: Seq<char>, raw: Seq<char>, ops: Seq<char>) -> Seq<char> {
    "0x"@ + raw + " : "@ + name + " "@ + ops
}

/// Decodes one non-index format unit at `off`.
#[verifier::rlimit(100)]
#[verifier::spinoff_prover]
fn unit_step_basic(
    instr: &Vec<u8>,
    source: &[u8],
    region: &Region,
    lmap: &Vec<(usize, String)>,
    u: FormatUnit,
    off: usize,
) -> (r: Result<(usize, String, String), AbcError>)
    requires
        u != FormatUnit::LiteralID && u != FormatUnit::StringID && u != FormatUnit::MethodID,
        u != FormatUnit::Imm4Imm4 && u != FormatUnit::IMM8 && u != FormatUnit::IMM16 && u
            != FormatUnit::IMM32 && u != FormatUnit::IMM64,
    ensures
        r matches Ok(t) ==> off < t.0 <= instr@.len() && unit_item(
            instr@,
            source@,
            *region,
            lmap@,
            u,
            off as int,
        ) == Ok::<(int, Seq<char>, Seq<char>), AbcError>((t.0 as int, t.1@, t.2@)),
        r matches Err(e) ==> unit_item(instr@, source@, *region, lmap@, u, off as int) == Err::<
            (int, Seq<char>, Seq<char>),
            AbcError,
        >(e),
{
    proof {
        reveal(unit_item);
    }
    let blen = instr.len();
    let bytes = instr.as_slice();
    proof {
        assert(bytes@ == instr@);
    }
    match u {
        FormatUnit::Opcode => {
            let b = match read_u8(bytes, off) {
                Ok(v) => v,
                Err(e) => {
                    return Err(e);
                },
            };
            Ok((off + 1, hex_pad(b as u64, 2, true), String::new()))
        },
        FormatUnit::PrefixOpcode => {
            let v = match read_u16_be(bytes, off) {
                Ok(v) => v,
                Err(e) => {
                    return Err(e);
                },
            };
            Ok((off + 2, hex_pad(v as u64, 4, true), String::new()))
        },
        FormatUnit::RR => {
            let _ = match read_u8(bytes, off) {
                Ok(v) => v,
                Err(e) => {
                    return Err(e);
                },
            };
            Ok((off + 1, String::new(), String::new()))
        },
        FormatUnit::RRRR => {
            let _ = match read_u16(bytes, off) {
                Ok(v) => v,
                Err(e) => {
                    return Err(e);
                },
            };
            Ok((off + 2, String::new(), String::new()))
        },
        FormatUnit::V4V4 => {
            let b = match read_u8(bytes, off) {
                Ok(v) => v,
                Err(e) => {
                    return Err(e);
                },
            };
            let mut text = String::from_str("v");
            let low = dec_u64((b % 16) as u64);
            text.append(low.as_str());
            text.append(" v");
            let high = dec_u64((b / 16) as u64);
            text.append(high.as_str());
            assert(text@ =~= "v"@ + dec_str((b % 16) as nat) + " v"@ + dec_str((b / 16) as nat));
            Ok((off + 1, hex_pad(b as u64, 2, true), text))
        },
        FormatUnit::V8 => {
            let b = match read_u8(bytes, off) {
                Ok(v) => v,
                Err(e) => {
                    return Err(e);
                },
            };
            let mut text = String::from_str("v");
            let d = dec_u64(b as u64);
            text.append(d.as_str());
            text.append(" ");
            assert(text@ =~= "v"@ + dec_str(b as nat) + " "@);
            Ok((off + 1, hex_pad(b as u64, 2, true), text))
        },
        FormatUnit::V16 => {
            let v = match read_u16(bytes, off) {
                Ok(v) => v,
                Err(e) => {
                    return Err(e);
                },
            };
            let mut text = String::from_str("v");
            let d = dec_u64(v as u64);
            text.append(d.as_str());
            text.append(" ");
            assert(text@ =~= "v"@ + dec_str(v as nat) + " "@);
            Ok((off + 2, hex_pad(v as u64, 4, true), text))
        },
        _ => Err(AbcError::OutOfBounds),
    }
}

/// Decodes one immediate-operand format unit at `off`.
#[verifier::rlimit(100)]
#[verifier::spinoff_prover]
fn unit_step_imm(
    instr: &Vec<u8>,
    source: &[u8],
    region: &Region,
    lmap: &Vec<(usize, String)>,
    u: FormatUnit,
    off: usize,
) -> (r: Result<(usize, String, String), AbcError>)
    requires
        u == FormatUnit::Imm4Imm4 || u == FormatUnit::IMM8 || u == FormatUnit::IMM16 || u
            == FormatUnit::IMM32 || u == FormatUnit::IMM64,
    ensures
        r matches Ok(t) ==> off < t.0 <= instr@.len() && unit_item(
            instr@,
            source@,
            *region,
            lmap@,
            u,
            off as int,
        ) == Ok::<(int, Seq<char>, Seq<char>), AbcError>((t.0 as int, t.1@, t.2@)),
        r matches Err(e) ==> unit_item(instr@, source@, *region, lmap@, u, off as int) == Err::<
            (int, Seq<char>, Seq<char>),
            AbcError,
        >(e),
{
    proof {
        reveal(unit_item);
    }
    let blen = instr.len();
    let bytes = instr.as_slice();
    proof {
        assert(bytes@ == instr@);
    }
    match u {
        FormatUnit::Imm4Imm4 => {
            let b = match read_u8(bytes, off) {
                Ok(v) => v,
                Err(e) => {
                    return Err(e);
                },
            };
            let mut text = String::from_str("Imm4Imm4+");
            let d = dec_u64(b as u64);
            text.append(d.as_str());
            text.append(" ");
            assert(text@ =~= "Imm4Imm4+"@ + dec_str(b as nat) + " "@);
            Ok((off + 1, hex_pad(b as u64, 2, true), text))
        },
        FormatUnit::IMM8 => {
            let b = match read_u8(bytes, off) {
                Ok(v) => v,
                Err(e) => {
                    return Err(e);
                },
            };
            let mut text = String::from_str("+");
            let d = dec_u64(b as u64);
            text.append(d.as_str());
            text.append(" ");
            assert(text@ =~= "+"@ + dec_str(b as nat) + " "@);
            Ok((off + 1, hex_pad(b as u64, 2, true), text))
        },
        FormatUnit::IMM16 => {
            let v = match read_u16(bytes, off) {
                Ok(v) => v,
                Err(e) => {
                    return Err(e);
                },
            };
            let mut text = String::from_str("+");
            let d = dec_u64(v as u64);
            text.append(d.as_str());
            text.append(" ");
            assert(text@ =~= "+"@ + dec_str(v as nat) + " "@);
            Ok((off + 2, hex_pad(v as u64, 4, true), text))
        },
        FormatUnit::IMM32 => {
            let v = match read_u32(bytes, off) {
                Ok(v) => v,
                Err(e) => {
                    return Err(e);
                },
            };
            let mut text = String::from_str("IMM32+");
            let d = dec_u64(v as u64);
            text.append(d.as_str());
            text.append(" ");
            assert(text@ =~= "IMM32+"@ + dec_str(v as nat) + " "@);
            Ok((off + 4, hex_pad(v as u64, 8, true), text))
        },
        FormatUnit::IMM64 => {
            let v = match read_u64(bytes, off) {
                Ok(v) => v,
                Err(e) => {
                    return Err(e);
                },
            };
            let mut text = String::from_str("IMM64+");
            let d = dec_u64(v);
            text.append(d.as_str());
            text.append(" ");
            assert(text@ =~= "IMM64+"@ + dec_str(v as nat) + " "@);
            Ok((off + 8, hex_pad(v, 16, false), text))
        },
        _ => Err(AbcError::OutOfBounds),
    }
}

/// Decodes one index-operand format unit at `off`, resolving it through
/// the region and, for literal arrays, the pool.
#[verifier::rlimit(100)]
#[verifier::spinoff_prover]
fn unit_step_id(
    instr: &Vec<u8>,
    source: &[u8],
    region: &Region,
    lmap: &Vec<(usize, String)>,
    u: FormatUnit,
    off: usize,
) -> (r: Result<(usize, String, String), AbcError>)
    requires
        u == FormatUnit::LiteralID || u == FormatUnit::StringID || u == FormatUnit::MethodID,
    ensures
        r matches Ok(t) ==> off < t.0 <= instr@.len() && unit_item(
            instr@,
            source@,
            *region,
            lmap@,
            u,
            off as int,
        ) == Ok::<(int, Seq<char>, Seq<char>), AbcError>((t.0 as int, t.1@, t.2@)),
        r matches Err(e) ==> unit_item(instr@, source@, *region, lmap@, u, off as int) == Err::<
            (int, Seq<char>, Seq<char>),
            AbcError,
        >(e),
{
    proof {
        reveal(unit_item);
    }
    let blen = instr.len();
    let bytes = instr.as_slice();
    proof {
        assert(bytes@ == instr@);
    }
    match u {
        FormatUnit::LiteralID => {
            let idx = match read_u16(bytes, off) {
                Ok(v) => v,
                Err(e) => {
                    return Err(e);
                },
            };
            if (idx as usize) >= region.method_string_literal_region_idx.offsets.len() {
                return Err(AbcError::OutOfBounds);
            }
            let array_off = *region.get_msl_offset(idx as usize);
            let x = match lmap_get(lmap, array_off as usize) {
                Some(s) => s,
                None => {
                    return Err(AbcError::OutOfBounds);
                },
            };
            let mut text = String::from_str("{ ");
            text.append(x.as_str());
            text.append(" }");
            assert(text@ =~= "{ "@ + lmap_find(lmap@, array_off as int)->0 + " }"@);
            Ok((off + 2, hex_pad(idx as u64, 4, true), text))
        },
        FormatUnit::StringID => {
            let idx = match read_u16(bytes, off) {
                Ok(v) => v,
                Err(e) => {
                    return Err(e);
                },
            };
            if (idx as usize) >= region.method_string_literal_region_idx.offsets.len() {
                return Err(AbcError::OutOfBounds);
            }
            let string_offset = *region.get_msl_offset(idx as usize);
            let s = match ABCString::read(source, string_offset as usize) {
                Ok(s) => s,
                Err(e) => {
                    return Err(e);
                },
            };
            let mut text = String::from_str("\"");
            let st = s.str();
            text.append(st.as_str());
            text.append("\" ");
            assert(text@ =~= "\""@ + string_text(source@, string_offset as int) + "\" "@);
            Ok((off + 2, hex_pad(idx as u64, 4, true), text))
        },
        _ => {
            let idx = match read_u16(bytes, off) {
                Ok(v) => v,
                Err(e) => {
                    return Err(e);
                },
            };
            if (idx as usize) >= region.method_string_literal_region_idx.offsets.len() {
                return Err(AbcError::OutOfBounds);
            }
            let method_offset = *region.get_msl_offset(idx as usize);
            let sign = match get_method_sign(source, method_offset as usize, region) {
                Ok(s) => s,
                Err(e) => {
                    return Err(e);
                },
            };
            let mut text = sign;
            text.append(" ");
            assert(text@ =~= method_sign_text(source@, method_offset as int, *region) + " "@);
            Ok((off + 2, hex_pad(idx as u64, 4, true), text))
        },
    }
}

/// Decodes one format unit at `off`, returning the next offset, the raw
/// hex chunk and the operand text.
fn unit_step(
    instr: &Vec<u8>,
    source: &[u8],
    region: &Region,
    lmap: &Vec<(usize, String)>,
    u: FormatUnit,
    off: usize,
) -> (r: Result<(usize, String, String), AbcError>)
    ensures
        r matches Ok(t) ==> off < t.0 <= instr@.len() && unit_item(
            instr@,
            source@,
            *region,
            lmap@,
            u,
            off as int,
        ) == Ok::<(int, Seq<char>, Seq<char>), AbcError>((t.0 as int, t.1@, t.2@)),
        r matches Err(e) ==> unit_item(instr@, source@, *region, lmap@, u, off as int) == Err::<
            (int, Seq<char>, Seq<char>),
            AbcError,
        >(e),
{
    match u {
        FormatUnit::LiteralID | FormatUnit::StringID | FormatUnit::MethodID => unit_step_id(
            instr,
            source,
            region,
            lmap,
            u,
            off,
        ),
        FormatUnit::Imm4Imm4 | FormatUnit::IMM8 | FormatUnit::IMM16 | FormatUnit::IMM32
            | FormatUnit::IMM64 => unit_step_imm(instr, source, region, lmap, u, off),
        _ => unit_step_basic(instr, source, region, lmap, u, off),
    }
}

impl ByteCodeFormat {
    /// Decodes one instruction of this format at `offset`: returns the
    /// rendered line and the offset of the next instruction.
    pub fn parse(
        &self,
        instructions: &Vec<u8>,
        offset: usize,
        region: &Region,
        source: &[u8],
        literal_array_map: &Vec<(usize, String)>,
    ) -> (r: Result<(String, usize), AbcError>)
        requires
            offset <= instructions@.len(),
        ensures
            r is Ok <==> units_render(
                instructions@,
                source@,
                *region,
                literal_array_map@,
                self.formats@,
                offset as int,
            ) is Ok,
            r matches Ok(p) ==> {
                &&& offset <= p.1 <= instructions@.len()
                &&& units_render(
                    instructions@,
                    source@,
                    *region,
                    literal_array_map@,
                    self.formats@,
                    offset as int,
                ) matches Ok(t) && t.0 == p.1 && p.0@ == inst_line(self.name@, t.1, t.2)
            },
            r matches Err(e) ==> units_render(
                instructions@,
                source@,
                *region,
                literal_array_map@,
                self.formats@,
                offset as int,
            ) == Err::<(int, Seq<char>, Seq<char>), AbcError>(e),
    {
        let n = self.formats.len();
        let mut raw = String::new();
        let mut strx = String::new();
        let mut cur = offset;
        let mut i: usize = 0;
        proof {
            assert(self.formats@.skip(0) =~= self.formats@);
            lemma_ur_prepend_empty(
                units_render(
                    instructions@,
                    source@,
                    *region,
                    literal_array_map@,
                    self.formats@,
                    offset as int,
                ),
            );
        }
        while i < n
            invariant
                0 <= i <= n,
                n == self.formats@.len(),
                offset <= cur <= instructions@.len(),
                units_render(
                    instructions@,
                    source@,
                    *region,
                    literal_array_map@,
                    self.formats@,
                    offset as int,
                ) == ur_prepend(
                    raw@,
                    strx@,
                    units_render(
                        instructions@,
                        source@,
                        *region,
                        literal_array_map@,
                        self.formats@.skip(i as int),
                        cur as int,
                    ),
                ),
            decreases n - i,
        {
            proof {
                assert(self.formats@.skip(i as int)[0] == self.formats@[i as int]);
                assert(self.formats@.skip(i as int).drop_first() =~= self.formats@.skip(i + 1));
            }
            let ghost prev_raw = raw@;
            let ghost prev_strx = strx@;
            let step = match unit_step(
                instructions,
                source,
                region,
                literal_array_map,
                self.formats[i],
                cur,
            ) {
                Ok(t) => t,
                Err(e) => {
                    return Err(e);
                },
            };
            proof {
                lemma_ur_prepend_assoc(
                    prev_raw,
                    prev_strx,
                    step.1@,
                    step.2@,
                    units_render(
                        instructions@,
                        source@,
                        *region,
                        literal_array_map@,
                        self.formats@.skip(i + 1),
                        step.0 as int,
                    ),
                );
            }
            raw.append(step.1.as_str());
            strx.append(step.2.as_str());
            assert(raw@ =~= prev_raw + step.1@);
            assert(strx@ =~= prev_strx + step.2@);
            cur = step.0;
            i = i + 1;
        }
        proof {
            assert(self.formats@.skip(n as int) =~= Seq::<FormatUnit>::empty());
        }
        let mut line = String::from_str("0x");
        line.append(raw.as_str());
        line.append(" : ");
        line.append(self.name.as_str());
        line.append(" ");
        line.append(strx.as_str());
        assert(line@ =~= inst_line(self.name@, raw@, strx@));
        assert(raw@ + Seq::<char>::empty() =~= raw@);
        assert(strx@ + Seq::<char>::empty() =~= strx@);
        Ok((line, cur))
    }
}

/// The table entry that decides the instruction at `off`: a two-byte
/// prefix-table hit when at least two bytes remain, else the ordinary
/// entry for the single byte.
pub open spec fn spec_entry_at(instr: Seq<u8>, off: int) -> Option<(Seq<char>, Seq<FormatUnit>)> {
    if instr.len() - off >= 2 && spec_pref_format(u16_at(instr, off) as u16) is Some {
        spec_pref_format(u16_at(instr, off) as u16)
    } else {
        spec_opcode_format(instr[off])
    }
}

/// Prefixes already-emitted lines to the rest of a disassembly.
pub open spec fn lines_prepend(ls: Seq<Seq<char>>, r: Result<Seq<Seq<char>>, AbcError>) -> Result<
    Seq<Seq<char>>,
    AbcError,
> {
    match r {
        Ok(rest) => Ok(ls + rest),
        Err(e) => Err(e),
    }
}

proof fn lemma_lines_prepend_assoc(
    a: Seq<Seq<char>>,
    b: Seq<Seq<char>>,
    r: Result<Seq<Seq<char>>, AbcError>,
)
    ensures
        lines_prepend(a, lines_prepend(b, r)) == lines_prepend(a + b, r),
{
    match r {
        Ok(rest) => {
            assert(a + (b + rest) =~= (a + b) + rest);
        },
        Err(_) => {},
    }
}

proof fn lemma_lines_prepend_empty(r: Result<Seq<Seq<char>>, AbcError>)
    ensures
        lines_prepend(Seq::<Seq<char>>::empty(), r) == r,
{
    match r {
        Ok(rest) => {
            assert(Seq::<Seq<char>>::empty() + rest =~= rest);
        },
        Err(_) => {},
    }
}

/// The disassembly of the instruction bytes from `off` to their end: one
/// rendered line per instruction, each decoded by the entry `spec_entry_at`
/// picks and advancing the cursor by that entry's size.  A byte in neither
/// table is `UnknownOpcode`; a truncated operand walk reports its error.
pub open spec fn disasm_r(
    instr: Seq<u8>,
    source: Seq<u8>,
    region: Region,
    lmap: Seq<(usize, String)>,
    off: int,
) -> Result<Seq<Seq<char>>, AbcError>
    decreases instr.len() - off,
{
    if off < 0 {
        Err(AbcError::OutOfBounds)
    } else if off >= instr.len() {
        Ok(Seq::<Seq<char>>::empty())
    } else {
        match spec_entry_at(instr, off) {
            None => Err(AbcError::UnknownOpcode),
            Some(e) => match units_render(instr, source, region, lmap, e.1, off) {
                Err(err) => Err(err),
                Ok(t) => if t.0 <= off || t.0 > instr.len() {
                    Err(AbcError::UnknownOpcode)
                } else {
                    match disasm_r(instr, source, region, lmap, t.0) {
                        Err(x) => Err(x),
                        Ok(rest) => Ok(seq![inst_line(e.0, t.1, t.2)] + rest),
                    }
                },
            },
        }
    }
}

/// The table-driven disassembler.
pub struct BytecodeParser {}

impl BytecodeParser {
    /// Builds a parser; the tables are functions of the opcode, so nothing
    /// is stored.
    pub fn new() -> (r: BytecodeParser) {
        BytecodeParser {  }
    }

    /// The ordinary table entry for an opcode, when the key fits one byte
    /// and the byte is known.
    pub fn get_opcode(&self, opcode: u16) -> (r: Option<ByteCodeFormat>)
        ensures
            r is Some <==> opcode <= 0xff && opcode_known(opcode as u8),
            r matches Some(f) ==> ord_entry_wf(f),
            opcode <= 0xff ==> entry_matches(r, spec_opcode_format(opcode as u8)),
    {
        if opcode > 0xff {
            return None;
        }
        opcode_format(opcode as u8)
    }

    /// The prefix table entry for a two-byte key.
    pub fn get_prefix_opcode(&self, opcode: u16) -> (r: Option<ByteCodeFormat>)
        ensures
            r is Some <==> prefix_known(opcode),
            r matches Some(f) ==> pref_entry_wf(f),
            entry_matches(r, spec_pref_format(opcode)),
    {
        pref_format(opcode)
    }

    /// Disassembles a whole code body: one line per instruction, cursor
    /// moving strictly forward until it lands exactly on the end of the
    /// instruction bytes.  The lines are exactly the spec-level disassembly
    /// of the instruction bytes.
    #[verifier::rlimit(100)]
    #[verifier::spinoff_prover]
    pub fn disassemble(
        &self,
        code: &Code,
        region: &Region,
        source: &[u8],
        literal_array_map: &Vec<(usize, String)>,
    ) -> (r: Result<(Vec<String>, usize), AbcError>)
        ensures
            r is Ok <==> disasm_r(code.instructions@, source@, *region, literal_array_map@, 0)
                is Ok,
            r matches Ok(p) ==> disasm_r(code.instructions@, source@, *region, literal_array_map@, 0)
                == Ok::<Seq<Seq<char>>, AbcError>(texts(p.0@)) && p.1 == code.instructions@.len(),
            r matches Err(e) ==> disasm_r(
                code.instructions@,
                source@,
                *region,
                literal_array_map@,
                0,
            ) == Err::<Seq<Seq<char>>, AbcError>(e),
    {
        let instructions = &code.instructions;
        let size = instructions.len();
        let mut lines: Vec<String> = Vec::new();
        let mut cursor: usize = 0;
        proof {
            lemma_lines_prepend_empty(
                disasm_r(code.instructions@, source@, *region, literal_array_map@, 0),
            );
            assert(texts(lines@) =~= Seq::<Seq<char>>::empty());
        }
        while cursor < size
            invariant
                0 <= cursor <= size,
                size == code.instructions@.len(),
                instructions@ == code.instructions@,
                disasm_r(code.instructions@, source@, *region, literal_array_map@, 0)
                    == lines_prepend(
                    texts(lines@),
                    disasm_r(
                        code.instructions@,
                        source@,
                        *region,
                        literal_array_map@,
                        cursor as int,
                    ),
                ),
            decreases size - cursor,
        {
            let ghost entry = spec_entry_at(code.instructions@, cursor as int);
            let mut fmt: Option<ByteCodeFormat> = None;
            if size - cursor >= 2 {
                let key = match read_u16(instructions.as_slice(), cursor) {
                    Ok(v) => v,
                    Err(e) => {
                        return Err(e);
                    },
                };
                fmt = self.get_prefix_opcode(key);
                proof {
                    assert(key as nat == u16_at(code.instructions@, cursor as int));
                    assert((u16_at(code.instructions@, cursor as int) as u16) == key);
                    match &fmt {
                        Some(f) => {
                            assert(spec_pref_format(key) is Some);
                            assert(entry == spec_pref_format(key));
                            assert(entry matches Some(e) && e.0 == f.name@ && e.1 == f.formats@);
                        },
                        None => {
                            assert(spec_pref_format(key) is None);
                            assert(entry == spec_opcode_format(
                                code.instructions@[cursor as int],
                            ));
                        },
                    }
                }
            } else {
                assert(entry == spec_opcode_format(code.instructions@[cursor as int]));
            }
            let bcf = match fmt {
                Some(f) => f,
                None => {
                    let op = instructions[cursor];
                    proof {
                        assert(op == code.instructions@[cursor as int]);
                        assert(entry == spec_opcode_format(op));
                    }
                    match opcode_format(op) {
                        Some(f) => f,
                        None => {
                            assert(entry is None);
                            return Err(AbcError::UnknownOpcode);
                        },
                    }
                },
            };
            proof {
                assert(entry matches Some(e) && e.0 == bcf.name@ && e.1 == bcf.formats@);
            }
            let (line, nxt) = match bcf.parse(
                instructions,
                cursor,
                region,
                source,
                literal_array_map,
            ) {
                Ok(p) => p,
                Err(e) => {
                    return Err(e);
                },
            };
            if nxt <= cursor {
                return Err(AbcError::UnknownOpcode);
            }
            let ghost prev_lines = lines@;
            proof {
                lemma_lines_prepend_assoc(
                    texts(prev_lines),
                    seq![line@],
                    disasm_r(
                        code.instructions@,
                        source@,
                        *region,
                        literal_array_map@,
                        nxt as int,
                    ),
                );
            }
            lines.push(line);
            cursor = nxt;
            proof {
                assert(texts(lines@) =~= texts(prev_lines) + seq![line@]);
            }
        }
        proof {
            assert(disasm_r(code.instructions@, source@, *region, literal_array_map@, cursor as int)
                == Ok::<Seq<Seq<char>>, AbcError>(Seq::<Seq<char>>::empty()));
            assert(texts(lines@) + Seq::<Seq<char>>::empty() =~= texts(lines@));
        }
        Ok((lines, cursor))
    }

    /// Disassembles a whole code body into its lines: exactly the
    /// spec-level disassembly of the instruction bytes.
    pub fn parse(
        &self,
        code: &Code,
        region: &Region,
        source: &[u8],
        literal_array_map: &Vec<(usize, String)>,
    ) -> (r: Result<Vec<String>, AbcError>)
        ensures
            r is Ok <==> disasm_r(code.instructions@, source@, *region, literal_array_map@, 0)
                is Ok,
            r matches Ok(lines) ==> disasm_r(
                code.instructions@,
                source@,
                *region,
                literal_array_map@,
                0,
            ) == Ok::<Seq<Seq<char>>, AbcError>(texts(lines@)),
            r matches Err(e) ==> disasm_r(
                code.instructions@,
                source@,
                *region,
                literal_array_map@,
                0,
            ) == Err::<Seq<Seq<char>>, AbcError>(e),
    {
        match self.disassemble(code, region, source, literal_array_map) {
            Ok(p) => Ok(p.0),
            Err(e) => Err(e),
        }
    }
}

} // verus!
