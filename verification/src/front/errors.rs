//! The errors that stop the evaluation of a program.
use crate::front::token::Token;
use crate::text::{push_bytes, str_bytes};
use crate::utils::format::{digits, push_decimal};
use vstd::prelude::*;
use vstd::string::StringSliceAdditionalSpecFns;

verus! {

/// The line of an error, as the last line of its text.
pub open spec fn line_note(line: usize) -> Seq<u8> {
    "\n[line ".spec_bytes() + digits(line as nat, 10) + "]".spec_bytes()
}

/// Appends the line of an error.
fn push_line_note(text: &mut Vec<u8>, line: usize)
    ensures
        final(text)@ == old(text)@ + line_note(line),
{
    let ghost start = text@;
    push_bytes(text, "\n[line ".as_bytes());
    push_decimal(text, line);
    push_bytes(text, "]".as_bytes());
    assert(text@ =~= start + line_note(line));
}

/// What every runtime error can tell: the token it is about.
pub trait RuntimeError {
    fn get_token(&self) -> &Token;
}

/// An operation was given a value of the wrong kind.
#[derive(Debug)]
pub struct TypeError {
    pub token: Token,
    pub message: &'static str,
}

impl TypeError {
    pub fn new(token: Token, message: &'static str) -> (error: TypeError)
        ensures
            error.token == token,
            error.message == message,
    {
        TypeError { token, message }
    }

    /// The text of the error.
    pub open spec fn text(&self) -> Seq<u8> {
        "Type error: ".spec_bytes() + self.message.spec_bytes() + line_note(self.token.line)
    }

    pub fn to_text(&self) -> (text: Vec<u8>)
        ensures
            text@ == self.text(),
    {
        let mut text: Vec<u8> = str_bytes("Type error: ");
        push_bytes(&mut text, self.message.as_bytes());
        push_line_note(&mut text, self.token.line);
        text
    }
}

impl RuntimeError for TypeError {
    fn get_token(&self) -> (token: &Token)
        ensures
            *token == self.token,
    {
        &self.token
    }
}

/// A variable was read or assigned that is not defined.
#[derive(Debug)]
pub struct UndefinedVariableError {
    pub token: Token,
}

impl UndefinedVariableError {
    pub fn new(token: Token) -> (error: UndefinedVariableError)
        ensures
            error.token == token,
    {
        UndefinedVariableError { token }
    }

    pub open spec fn text(&self) -> Seq<u8> {
        "Variable ".spec_bytes() + self.token.lexeme@ + " is undefined.".spec_bytes() + line_note(
            self.token.line,
        )
    }

    pub fn to_text(&self) -> (text: Vec<u8>)
        ensures
            text@ == self.text(),
    {
        let mut text: Vec<u8> = str_bytes("Variable ");
        push_bytes(&mut text, self.token.lexeme.as_slice());
        push_bytes(&mut text, " is undefined.".as_bytes());
        push_line_note(&mut text, self.token.line);
        text
    }
}

impl RuntimeError for UndefinedVariableError {
    fn get_token(&self) -> (token: &Token)
        ensures
            *token == self.token,
    {
        &self.token
    }
}

/// An instance has neither a field nor a method of the name asked for.
#[derive(Debug)]
pub struct UndefinedPropertyError {
    pub instance_class: Vec<u8>,
    pub property: Token,
}

impl UndefinedPropertyError {
    pub fn new(instance_class: Vec<u8>, property: Token) -> (error: UndefinedPropertyError)
        ensures
            error.instance_class == instance_class,
            error.property == property,
    {
        UndefinedPropertyError { instance_class, property }
    }

    pub open spec fn text(&self) -> Seq<u8> {
        "Undefined property ".spec_bytes() + self.property.lexeme@
            + " for instance of class ".spec_bytes() + self.instance_class@ + ".".spec_bytes()
            + line_note(self.property.line)
    }

    pub fn to_text(&self) -> (text: Vec<u8>)
        ensures
            text@ == self.text(),
    {
        let mut text: Vec<u8> = str_bytes("Undefined property ");
        push_bytes(&mut text, self.property.lexeme.as_slice());
        push_bytes(&mut text, " for instance of class ".as_bytes());
        push_bytes(&mut text, self.instance_class.as_slice());
        push_bytes(&mut text, ".".as_bytes());
        push_line_note(&mut text, self.property.line);
        text
    }
}

impl RuntimeError for UndefinedPropertyError {
    fn get_token(&self) -> (token: &Token)
        ensures
            *token == self.property,
    {
        &self.property
    }
}

/// A call was given another number of arguments than the callee takes.
#[derive(Debug)]
pub struct IncorrectArgumentsError {
    pub token: Token,
    pub expected_num: usize,
    pub actual_num: usize,
}

impl IncorrectArgumentsError {
    pub fn new(token: Token, expected_num: usize, actual_num: usize) -> (error:
        IncorrectArgumentsError)
        ensures
            error.token == token,
            error.expected_num == expected_num,
            error.actual_num == actual_num,
    {
        IncorrectArgumentsError { token, expected_num, actual_num }
    }

    pub open spec fn text(&self) -> Seq<u8> {
        "Incorrect number of arguments. Expected ".spec_bytes() + digits(
            self.expected_num as nat,
            10,
        ) + " arguments but got ".spec_bytes() + digits(self.actual_num as nat, 10)
            + ".".spec_bytes() + line_note(self.token.line)
    }

    pub fn to_text(&self) -> (text: Vec<u8>)
        ensures
            text@ == self.text(),
    {
        let mut text: Vec<u8> = str_bytes("Incorrect number of arguments. Expected ");
        push_decimal(&mut text, self.expected_num);
        push_bytes(&mut text, " arguments but got ".as_bytes());
        push_decimal(&mut text, self.actual_num);
        push_bytes(&mut text, ".".as_bytes());
        push_line_note(&mut text, self.token.line);
        text
    }
}

impl RuntimeError for IncorrectArgumentsError {
    fn get_token(&self) -> (token: &Token)
        ensures
            *token == self.token,
    {
        &self.token
    }
}

/// The interpreter found itself in a state that no program can bring
/// about, or used up the steps it was granted.
#[derive(Debug)]
pub struct FatalError {
    pub token: Token,
    pub message: Vec<u8>,
}

impl FatalError {
    pub fn new(token: Token, message: Vec<u8>) -> (error: FatalError)
        ensures
            error.token == token,
            error.message == message,
    {
        FatalError { token, message }
    }

    pub open spec fn text(&self) -> Seq<u8> {
        self.message@ + line_note(self.token.line)
    }

    pub fn to_text(&self) -> (text: Vec<u8>)
        ensures
            text@ == self.text(),
    {
        let mut text: Vec<u8> = Vec::new();
        push_bytes(&mut text, self.message.as_slice());
        push_line_note(&mut text, self.token.line);
        assert(text@ =~= self.text());
        text
    }
}

impl RuntimeError for FatalError {
    fn get_token(&self) -> (token: &Token)
        ensures
            *token == self.token,
    {
        &self.token
    }
}

/// Any of the runtime errors.
#[derive(Debug)]
pub enum Failure {
    Type(TypeError),
    UndefinedVariable(UndefinedVariableError),
    UndefinedProperty(UndefinedPropertyError),
    IncorrectArguments(IncorrectArgumentsError),
    Fatal(FatalError),
    Composed(ComposedError),
}

/// Several runtime errors as one. It is about the token of the first.
#[derive(Debug)]
pub struct ComposedError {
    pub errors: Vec<Failure>,
}

impl ComposedError {
    pub fn new(errors: Vec<Failure>) -> (error: ComposedError)
        ensures
            error.errors == errors,
    {
        ComposedError { errors }
    }

    /// The errors as one, or nothing where there are none.
    pub fn from(errors: Vec<Failure>) -> (composed: Option<Failure>)
        ensures
            composed.is_none() <==> errors@.len() == 0,
            composed matches Some(Failure::Composed(all)) ==> all.errors == errors,
            composed.is_some() ==> composed.unwrap() is Composed,
    {
        if errors.len() == 0 {
            None
        } else {
            Some(Failure::Composed(ComposedError::new(errors)))
        }
    }
}

impl Failure {
    /// The line of the token that the error is about; for several errors
    /// that of the first, and 0 where there is none.
    pub open spec fn line(&self) -> usize
        decreases self,
    {
        match self {
            Failure::Type(e) => e.token.line,
            Failure::UndefinedVariable(e) => e.token.line,
            Failure::UndefinedProperty(e) => e.property.line,
            Failure::IncorrectArguments(e) => e.token.line,
            Failure::Fatal(e) => e.token.line,
            Failure::Composed(e) => if e.errors@.len() > 0 {
                e.errors@[0].line()
            } else {
                0
            },
        }
    }

    /// The line of the token that the error is about.
    pub fn get_line(&self) -> (line: usize)
        ensures
            line == self.line(),
        decreases self,
    {
        match self {
            Failure::Type(e) => e.token.line,
            Failure::UndefinedVariable(e) => e.token.line,
            Failure::UndefinedProperty(e) => e.property.line,
            Failure::IncorrectArguments(e) => e.token.line,
            Failure::Fatal(e) => e.token.line,
            Failure::Composed(e) => if e.errors.len() > 0 {
                e.errors[0].get_line()
            } else {
                0
            },
        }
    }
}

} // verus!
