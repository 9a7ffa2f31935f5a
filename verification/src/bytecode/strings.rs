use crate::text::{bytes_eq, to_bytes};
use vstd::prelude::*;

verus! {

/// The strings that a program has met, each held once, in the order in which
/// they were first met.
pub struct InternMap {
    strings: Vec<Vec<u8>>,
}

impl View for InternMap {
    type V = Seq<Seq<u8>>;

    closed spec fn view(&self) -> Seq<Seq<u8>> {
        self.strings@.map_values(|s: Vec<u8>| s@)
    }
}

impl InternMap {
    /// No string is held twice.
    pub open spec fn wf(&self) -> bool {
        forall|i: int, j: int| 0 <= i < j < self@.len() ==> self@[i] != self@[j]
    }

    /// An empty table.
    pub fn new() -> (table: InternMap)
        ensures
            table.wf(),
            table@ == Seq::<Seq<u8>>::empty(),
    {
        let table = InternMap { strings: Vec::new() };
        assert(table@ =~= Seq::<Seq<u8>>::empty());
        table
    }

    /// The number of strings held.
    pub fn len(&self) -> (len: usize)
        ensures
            len == self@.len(),
    {
        self.strings.len()
    }

    /// Where the table holds the given string, if it does.
    pub fn find(&self, string: &[u8]) -> (index: Option<usize>)
        ensures
            index.is_some() <==> self@.contains(string@),
            index.is_some() ==> index.unwrap() < self@.len() && self@[index.unwrap() as int]
                == string@,
    {
        let mut i: usize = 0;
        while i < self.strings.len()
            invariant
                i <= self.strings@.len(),
                forall|k: int| 0 <= k < i ==> self@[k] != string@,
            decreases self.strings@.len() - i,
        {
            if bytes_eq(self.strings[i].as_slice(), string) {
                assert(self@[i as int] == string@);
                return Some(i);
            }
            i += 1;
        }
        assert(!self@.contains(string@));
        None
    }
}

/// The table's own copy of a string, which the table takes in if it did not
/// hold it. Equal strings thus share one entry.
pub fn get_or_insert_string(string: &[u8], strings: &mut InternMap) -> (interned: Vec<u8>)
    ensures
        interned@ == string@,
        final(strings)@.contains(string@),
        old(strings)@.contains(string@) ==> final(strings)@ == old(strings)@,
        !old(strings)@.contains(string@) ==> final(strings)@ == old(strings)@.push(string@),
        old(strings).wf() ==> final(strings).wf(),
{
    match strings.find(string) {
        Some(index) => to_bytes(strings.strings[index].as_slice()),
        None => {
            strings.strings.push(to_bytes(string));
            proof {
                assert(strings@ =~= old(strings)@.push(string@));
                assert(strings@[old(strings)@.len() as int] == string@);
            }
            to_bytes(string)
        },
    }
}

} // verus!
