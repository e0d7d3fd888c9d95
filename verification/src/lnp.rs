//! The line-number-program index: the offsets are collected, the programs
//! themselves are not decoded.

use vstd::prelude::*;

verus! {

/// Offsets of the line-number programs, in index order.
#[derive(Debug, Default)]
pub struct LineNumberProgramIndex {
    /// One offset per program.
    pub offsets: Vec<u32>,
}

impl LineNumberProgramIndex {
    /// Appends one program offset.
    pub fn push(&mut self, offset: u32)
        ensures
            final(self).offsets@ == old(self).offsets@.push(offset),
    {
        self.offsets.push(offset);
    }
}

} // verus!
