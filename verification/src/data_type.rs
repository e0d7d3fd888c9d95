//! Shared data-model pieces that do not belong to one parsing stage.

use vstd::prelude::*;
use vstd::string::StringExecFns;

verus! {

/// A class name in descriptor syntax: `L` followed by the slash-separated
/// class path and a semicolon.
#[derive(Debug, Clone)]
pub struct TypeDescriptor {
    /// The descriptor text.
    pub name: String,
}

impl TypeDescriptor {
    /// Wraps a descriptor string.
    pub fn new(name: &str) -> (r: TypeDescriptor)
        ensures
            r.name@ == name@,
    {
        TypeDescriptor { name: String::from_str(name) }
    }
}

} // verus!
