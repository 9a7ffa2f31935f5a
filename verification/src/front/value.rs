use crate::front::expr::{Literal, LiteralView};
use crate::text::bytes_eq;
use vstd::prelude::*;

verus! {

/// A value of the tree-walking interpreter. Functions, classes and
/// instances are given by their place in the interpreter's tables.
#[derive(Debug)]
pub enum Value {
    Literal(Literal),
    /// The built-in function of the given number.
    Native(usize),
    /// A function with the scope it was made in.
    Function(usize),
    Class(usize),
    Instance(usize),
}

/// What a value is.
pub enum ValueView {
    Literal(LiteralView),
    Native(usize),
    Function(usize),
    Class(usize),
    Instance(usize),
}

impl View for Value {
    type V = ValueView;

    open spec fn view(&self) -> ValueView {
        match self {
            Value::Literal(literal) => ValueView::Literal(literal@),
            Value::Native(id) => ValueView::Native(*id),
            Value::Function(id) => ValueView::Function(*id),
            Value::Class(id) => ValueView::Class(*id),
            Value::Instance(id) => ValueView::Instance(*id),
        }
    }
}

impl Clone for Value {
    fn clone(&self) -> (copy: Value)
        ensures
            copy@ == self@,
    {
        match self {
            Value::Literal(literal) => Value::Literal(literal.clone()),
            Value::Native(id) => Value::Native(*id),
            Value::Function(id) => Value::Function(*id),
            Value::Class(id) => Value::Class(*id),
            Value::Instance(id) => Value::Instance(*id),
        }
    }
}

impl ValueView {
    /// The values that count as true in a condition: all but `nil` and
    /// `false`.
    pub open spec fn truthy(self) -> bool {
        match self {
            ValueView::Literal(LiteralView::Bool(b)) => b,
            ValueView::Literal(LiteralView::Nil) => false,
            _ => true,
        }
    }

    /// Equality of the language: two booleans, two strings or two numbers
    /// are equal when they are the same, numbers as doubles; any other two
    /// values are not equal.
    pub open spec fn equal(self, other: ValueView) -> bool {
        match (self, other) {
            (ValueView::Literal(l), ValueView::Literal(r)) => match (l, r) {
                (LiteralView::Bool(a), LiteralView::Bool(b)) => a == b,
                (LiteralView::String(a), LiteralView::String(b)) => a == b,
                (LiteralView::Number(a), LiteralView::Number(b)) => a.ieee_eq(b),
                _ => false,
            },
            _ => false,
        }
    }
}

impl Value {
    /// The value `nil`.
    pub fn nil() -> (value: Value)
        ensures
            value@ == ValueView::Literal(LiteralView::Nil),
    {
        Value::Literal(Literal::Nil)
    }

    /// Whether the value counts as true in a condition.
    pub fn is_truthy(&self) -> (truthy: bool)
        ensures
            truthy == self@.truthy(),
    {
        match self {
            Value::Literal(Literal::Bool(b)) => *b,
            Value::Literal(Literal::Nil) => false,
            _ => true,
        }
    }

    /// Whether two values are equal.
    pub fn is_equal(&self, other: &Value) -> (same: bool)
        ensures
            same == self@.equal(other@),
    {
        match (self, other) {
            (Value::Literal(left), Value::Literal(right)) => match (left, right) {
                (Literal::Bool(l), Literal::Bool(r)) => *l == *r,
                (Literal::String(l), Literal::String(r)) => bytes_eq(l.as_slice(), r.as_slice()),
                (Literal::Number(l), Literal::Number(r)) => l.equals(r),
                _ => false,
            },
            _ => false,
        }
    }
}

/// The view of each value of a sequence.
pub open spec fn values_view(values: Seq<Value>) -> Seq<ValueView> {
    values.map_values(|value: Value| value@)
}

/// In the tree-walking interpreter only `nil` and `false` count as false;
/// the bytecode machine also counts the number zero as false. On every
/// value that both engines have, the two rules differ on zero and nowhere
/// else.
pub proof fn lemma_falsey_rules(literal: LiteralView)
    ensures
        ({
            let walked = ValueView::Literal(literal);
            let compiled = match literal {
                LiteralView::String(s) => crate::bytecode::value::ValueView::Str(s),
                LiteralView::Number(n) => crate::bytecode::value::ValueView::Number(n),
                LiteralView::Bool(b) => crate::bytecode::value::ValueView::Bool(b),
                LiteralView::Nil => crate::bytecode::value::ValueView::Nil,
            };
            &&& compiled.falsey() == (!walked.truthy() || (literal matches LiteralView::Number(n)
                && n.zero()))
            &&& (literal matches LiteralView::Number(n) && n.zero()) ==> walked.truthy()
                && compiled.falsey()
        }),
{
}

} // verus!
