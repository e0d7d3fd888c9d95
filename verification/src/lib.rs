//! Reader and disassembler for the ArkCompiler ABC ("Ark bytecode") container
//! format.  An ABC file is parsed from an immutable byte buffer into a model
//! of its classes, fields, methods, string pool, literal arrays and regions;
//! each method body can then be disassembled into one text line per
//! instruction, with operands resolved against the region that contains the
//! method.

pub mod abc;
pub mod bytecode;
pub mod class;
pub mod code;
pub mod cursor;
pub mod data_type;
pub mod error;
pub mod field;
pub mod flags;
pub mod header;
pub mod leb128;
pub mod literal;
pub mod lnp;
pub mod method;
pub mod region;
pub mod render;
pub mod strings;
pub mod tag_value;
