use crate::bytecode::number::Number;
use crate::bytecode::obj::Obj;
use crate::text::{str_bytes, to_bytes};
use vstd::prelude::*;
use vstd::string::StringSliceAdditionalSpecFns;
use vstd::std_specs::cmp::PartialEqSpecImpl;

verus! {

/// Index of an entry of a constant pool. One byte, so a pool holds at most
/// 256 entries.
pub type ConstantPointer = u8;

/// The most entries a constant pool can hold.
pub const MAX_CONSTANTS: usize = 256;

/// A value of the language.
#[derive(Debug)]
pub enum Value {
    Nil,
    Bool(bool),
    Number(Number),
    Obj(Obj),
}

/// What a value is, with a string given by its bytes.
pub enum ValueView {
    Nil,
    Bool(bool),
    Number(Number),
    Str(Seq<u8>),
}

impl ValueView {
    /// The values that count as false in a condition: `nil`, `false` and a
    /// number that is zero.
    pub open spec fn falsey(self) -> bool {
        match self {
            ValueView::Nil => true,
            ValueView::Bool(b) => !b,
            ValueView::Number(n) => n.zero(),
            ValueView::Str(_) => false,
        }
    }

    /// Equality of the language: values of different kinds are never equal,
    /// `nil` equals `nil`, booleans are equal by value, numbers as doubles,
    /// strings by their bytes.
    pub open spec fn equal(self, other: ValueView) -> bool {
        match (self, other) {
            (ValueView::Nil, ValueView::Nil) => true,
            (ValueView::Bool(l), ValueView::Bool(r)) => l == r,
            (ValueView::Number(l), ValueView::Number(r)) => l.ieee_eq(r),
            (ValueView::Str(l), ValueView::Str(r)) => l == r,
            _ => false,
        }
    }
}

impl View for Value {
    type V = ValueView;

    open spec fn view(&self) -> ValueView {
        match self {
            Value::Nil => ValueView::Nil,
            Value::Bool(b) => ValueView::Bool(*b),
            Value::Number(n) => ValueView::Number(*n),
            Value::Obj(obj) => ValueView::Str(obj.text()),
        }
    }
}

/// Whether the rendering can return `text` for a number.
pub open spec fn renders<F: Fn(Number) -> Vec<u8>>(
    number_text: &F,
    number: Number,
    text: Seq<u8>,
) -> bool {
    exists|rendered: Vec<u8>| rendered@ == text && number_text.ensures((number,), rendered)
}

impl Value {
    /// The text that shows the value: `Nil`, `true` or `false`, the bytes
    /// of a string, and for a number what `number_text` makes of it.
    pub fn to_text<F: Fn(Number) -> Vec<u8>>(&self, number_text: &F) -> (text: Vec<u8>)
        requires
            forall|number: Number| number_text.requires((number,)),
        ensures
            match self@ {
                ValueView::Nil => text@ == "Nil".spec_bytes(),
                ValueView::Bool(b) => text@ == if b {
                    "true".spec_bytes()
                } else {
                    "false".spec_bytes()
                },
                ValueView::Number(n) => renders(number_text, n, text@),
                ValueView::Str(s) => text@ == s,
            },
    {
        match self {
            Value::Nil => str_bytes("Nil"),
            Value::Bool(b) => if *b {
                str_bytes("true")
            } else {
                str_bytes("false")
            },
            Value::Number(n) => number_text(*n),
            Value::Obj(obj) => to_bytes(obj.as_bytes().as_slice()),
        }
    }

    /// Whether the value counts as false in a condition.
    pub fn is_falsey(&self) -> (falsey: bool)
        ensures
            falsey == self@.falsey(),
    {
        match self {
            Value::Nil => true,
            Value::Bool(b) => !*b,
            Value::Number(n) => n.is_zero(),
            Value::Obj(_) => false,
        }
    }

    /// The number that the value holds, or `Err(())` if it is not a number.
    pub fn try_into_number(&self) -> (number: Result<Number, ()>)
        ensures
            number.is_ok() <==> self@ is Number,
            number.is_ok() ==> self@ == ValueView::Number(number.unwrap()),
    {
        match self {
            Value::Number(n) => Ok(*n),
            _ => Err(()),
        }
    }

    /// A string value with the given bytes.
    pub fn string(text: &[u8]) -> (value: Value)
        ensures
            value@ == ValueView::Str(text@),
    {
        Value::Obj(Obj::string(text))
    }
}

impl Clone for Value {
    fn clone(&self) -> (copy: Value)
        ensures
            copy@ == self@,
    {
        match self {
            Value::Nil => Value::Nil,
            Value::Bool(b) => Value::Bool(*b),
            Value::Number(n) => Value::Number(*n),
            Value::Obj(obj) => Value::Obj(obj.clone()),
        }
    }
}

impl PartialEq for Value {
    fn eq(&self, other: &Value) -> (same: bool) {
        match (self, other) {
            (Value::Number(l), Value::Number(r)) => l.equals(r),
            (Value::Bool(l), Value::Bool(r)) => *l == *r,
            (Value::Nil, Value::Nil) => true,
            (Value::Obj(l), Value::Obj(r)) => l == r,
            _ => false,
        }
    }
}

impl PartialEqSpecImpl for Value {
    open spec fn obeys_eq_spec() -> bool {
        true
    }

    open spec fn eq_spec(&self, other: &Value) -> bool {
        self@.equal(other@)
    }
}

/// The view of each value of a sequence.
pub open spec fn values_view(values: Seq<Value>) -> Seq<ValueView> {
    values.map_values(|v: Value| v@)
}

/// The constant pool of a chunk: an ordered sequence of at most 256 values.
pub struct ValueArray {
    pub values: Vec<Value>,
}

impl View for ValueArray {
    type V = Seq<ValueView>;

    open spec fn view(&self) -> Seq<ValueView> {
        values_view(self.values@)
    }
}

impl ValueArray {
    pub fn new() -> (array: ValueArray)
        ensures
            array@ == Seq::<ValueView>::empty(),
    {
        let array = ValueArray { values: Vec::new() };
        assert(array@ =~= Seq::<ValueView>::empty());
        array
    }

    /// Appends a value and returns its index. Fails, leaving the pool as it
    /// was, when the pool already holds 256 values.
    pub fn write(&mut self, value: Value) -> (index: Result<ConstantPointer, ()>)
        ensures
            index.is_ok() <==> old(self)@.len() < MAX_CONSTANTS,
            index.is_ok() ==> index.unwrap() == old(self)@.len() && final(self)@ == old(self)@.push(
                value@,
            ),
            index.is_err() ==> final(self)@ == old(self)@,
    {
        let len: usize = self.values.len();
        if len < MAX_CONSTANTS {
            self.values.push(value);
            assert(self@ =~= old(self)@.push(value@));
            Ok(len as u8)
        } else {
            Err(())
        }
    }

    /// The number of values in the pool.
    pub fn len(&self) -> (len: usize)
        ensures
            len == self@.len(),
    {
        self.values.len()
    }

    /// The value at `index`, if the pool has one there.
    pub fn get(&self, index: usize) -> (value: Option<&Value>)
        ensures
            value.is_some() <==> index < self@.len(),
            value.is_some() ==> value.unwrap()@ == self@[index as int],
    {
        if index < self.values.len() {
            Some(&self.values[index])
        } else {
            None
        }
    }
}

} // verus!
