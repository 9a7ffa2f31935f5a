use crate::text::{push_bytes, str_bytes};
use vstd::prelude::*;
use vstd::string::StringSliceAdditionalSpecFns;

verus! {

/// An error that stops a running program: the source line of the
/// instruction that failed, and what went wrong.
#[derive(Debug)]
pub struct RuntimeError {
    pub line: usize,
    pub message: Vec<u8>,
}

/// The message that quotes a name: the words, the name, and a closing
/// quote.
pub open spec fn quoting(words: &str, name: Seq<u8>) -> Seq<u8> {
    words.spec_bytes() + name + "'".spec_bytes()
}

impl RuntimeError {
    /// An error on the given line with the given message.
    pub fn new(line: usize, message: &str) -> (error: RuntimeError)
        ensures
            error.line == line,
            error.message@ == message.spec_bytes(),
    {
        RuntimeError { line, message: str_bytes(message) }
    }

    /// An error on the given line whose message quotes a name.
    pub fn naming(line: usize, words: &str, name: &[u8]) -> (error: RuntimeError)
        ensures
            error.line == line,
            error.message@ == quoting(words, name@),
    {
        let mut message: Vec<u8> = str_bytes(words);
        push_bytes(&mut message, name);
        push_bytes(&mut message, "'".as_bytes());
        RuntimeError { line, message }
    }
}

} // verus!
