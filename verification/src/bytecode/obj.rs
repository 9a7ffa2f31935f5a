use crate::text::{bytes_eq, to_bytes};
use vstd::prelude::*;
use vstd::std_specs::cmp::PartialEqSpecImpl;

verus! {

/// A heap object of the language. Strings are the only kind.
#[derive(Debug)]
pub enum Obj {
    String(Vec<u8>),
}

impl Obj {
    /// The bytes of the string.
    pub open spec fn text(&self) -> Seq<u8> {
        match self {
            Obj::String(bytes) => bytes@,
        }
    }

    /// A string object with the given bytes.
    pub fn string(text: &[u8]) -> (obj: Obj)
        ensures
            obj.text() == text@,
    {
        Obj::String(to_bytes(text))
    }

    /// The bytes of the string.
    pub fn as_bytes(&self) -> (bytes: &Vec<u8>)
        ensures
            bytes@ == self.text(),
    {
        match self {
            Obj::String(bytes) => bytes,
        }
    }
}

impl Clone for Obj {
    fn clone(&self) -> (copy: Obj)
        ensures
            copy.text() == self.text(),
    {
        match self {
            Obj::String(bytes) => Obj::String(to_bytes(bytes.as_slice())),
        }
    }
}

impl PartialEq for Obj {
    fn eq(&self, other: &Obj) -> (same: bool) {
        match (self, other) {
            (Obj::String(left), Obj::String(right)) => bytes_eq(left.as_slice(), right.as_slice()),
        }
    }
}

impl PartialEqSpecImpl for Obj {
    open spec fn obeys_eq_spec() -> bool {
        true
    }

    open spec fn eq_spec(&self, other: &Obj) -> bool {
        self.text() == other.text()
    }
}

} // verus!
