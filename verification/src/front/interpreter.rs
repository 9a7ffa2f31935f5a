use crate::bytecode::number::Number;
use crate::bytecode::opcode::Opcode;
use crate::front::callables::{Class, Clock, Function, Instance};
use crate::front::environment::{Environment, ScopeView, Scopes};
use crate::front::errors::{
    ComposedError, Failure, FatalError, IncorrectArgumentsError, TypeError,
    UndefinedPropertyError,
};
use crate::front::expr::{Expr, Literal, LiteralView, Variable};
use crate::front::stmt::{ClassDecl, FunctionDecl, Stmt};
use crate::front::token::Token;
use crate::front::token_type::{Kind, TokenType};
use crate::front::callables::{classes_view, instances_view};
use crate::front::semantics::{
    answers, binary_result, declared, eval, eval_args, exec_block, exec_stmt, exec_stmts,
    foretold, lemma_answer, made_methods, run_program, steady, unary_result,
    while_loop, ClassView, EndView, FailureView, Heap, InstanceView,
};
use crate::front::value::{values_view, Value, ValueView};
use crate::text::{concat_bytes, str_bytes, to_bytes};
use vstd::prelude::*;
use vstd::string::StringSliceAdditionalSpecFns;

verus! {

/// The value that a `return` statement hands back.
#[derive(Debug)]
pub struct ReturnObject {
    pub value: Value,
}

impl ReturnObject {
    pub fn new(value: Value) -> (object: ReturnObject)
        ensures
            object.value == value,
    {
        ReturnObject { value }
    }
}

/// How a statement ended, where it did not simply end.
#[derive(Debug)]
pub enum StatementResult {
    RuntimeError(Failure),
    Return(ReturnObject),
    Break,
}

/// The runtime errors among results, in their order.
pub open spec fn errors_among(results: Seq<StatementResult>) -> Seq<Failure>
    decreases results.len(),
{
    if results.len() == 0 {
        Seq::empty()
    } else {
        match results.last() {
            StatementResult::RuntimeError(error) => errors_among(results.drop_last()).push(error),
            _ => errors_among(results.drop_last()),
        }
    }
}

impl StatementResult {
    /// The results of several statements as one: nothing where there are
    /// none, a sole `Return` as it is, and else the errors among them, in
    /// their order, as a composed error. A `Return` must not come first
    /// among several.
    pub fn combine_errors(vec: Vec<StatementResult>) -> (combined: Option<StatementResult>)
        requires
            vec@.len() > 1 ==> !(vec@[0] is Return),
        ensures
            vec@.len() == 0 ==> combined.is_none(),
            vec@.len() == 1 && vec@[0] is Return ==> combined == Some(vec@[0]),
            vec@.len() > 0 && !(vec@[0] is Return) ==> (
            combined matches Some(StatementResult::RuntimeError(Failure::Composed(all)))
                && all.errors@ == errors_among(vec@)),
    {
        let mut vec = vec;
        let ghost given = vec@;
        if vec.len() == 0 {
            return None;
        }
        if vec.len() == 1 {
            match vec.pop() {
                Some(StatementResult::Return(object)) => {
                    return Some(StatementResult::Return(object));
                },
                Some(other) => {
                    vec.push(other);
                    assert(vec@ =~= given);
                },
                None => {},
            }
        }
        // The errors come off the end, so they are put back in order.
        let mut reversed: Vec<Failure> = Vec::new();
        assert(errors_among(vec@) + reversed@.reverse() =~= errors_among(given));
        while vec.len() > 0
            invariant
                errors_among(vec@) + reversed@.reverse() == errors_among(given),
            decreases vec@.len(),
        {
            let ghost before = vec@;
            let ghost collected = reversed@;
            match vec.pop() {
                Some(StatementResult::RuntimeError(error)) => {
                    reversed.push(error);
                    proof {
                        assert(vec@ == before.drop_last());
                        assert(reversed@.reverse() =~= seq![error] + collected.reverse());
                        assert(errors_among(before) == errors_among(vec@).push(error));
                        assert(errors_among(vec@) + reversed@.reverse() =~= errors_among(before)
                            + collected.reverse());
                    }
                },
                _ => {
                    assert(vec@ == before.drop_last());
                },
            }
        }
        let mut errors: Vec<Failure> = Vec::new();
        assert(errors@ + reversed@.reverse() =~= errors_among(given));
        while reversed.len() > 0
            invariant
                errors@ + reversed@.reverse() == errors_among(given),
            decreases reversed@.len(),
        {
            let ghost before = reversed@;
            let ghost done = errors@;
            match reversed.pop() {
                Some(error) => {
                    errors.push(error);
                    proof {
                        assert(reversed@ == before.drop_last());
                        assert(before.reverse() =~= seq![error] + reversed@.reverse());
                        assert(errors@ + reversed@.reverse() =~= done + before.reverse());
                    }
                },
                None => {},
            }
        }
        assert(errors@ =~= errors_among(given));
        Some(StatementResult::RuntimeError(Failure::Composed(ComposedError::new(errors))))
    }
}

/// What a binary operator does with two values.
pub enum BinaryPlan {
    /// The result is this value.
    Value(ValueView),
    /// The result is the number that the arithmetic gives for the operation
    /// on the two numbers.
    Arithmetic(Opcode, Number, Number),
    /// The operands are of the wrong kind.
    TypeError(&'static str),
}

pub open spec fn boolean(b: bool) -> ValueView {
    ValueView::Literal(LiteralView::Bool(b))
}

/// What a binary operator does with two values: arithmetic on two
/// numbers, concatenation of two strings by `+`, comparison of two
/// numbers as doubles, equality of any two values; any other operands
/// are a type error.
pub open spec fn binary_plan(kind: Kind, left: ValueView, right: ValueView) -> BinaryPlan {
    let numbers = match (left, right) {
        (
            ValueView::Literal(LiteralView::Number(l)),
            ValueView::Literal(LiteralView::Number(r)),
        ) => Some((l, r)),
        _ => None,
    };
    match kind {
        Kind::Minus => match numbers {
            Some((l, r)) => BinaryPlan::Arithmetic(Opcode::Sub, l, r),
            None => BinaryPlan::TypeError("Subtract requires two number operands"),
        },
        Kind::Plus => match numbers {
            Some((l, r)) => BinaryPlan::Arithmetic(Opcode::Add, l, r),
            None => match (left, right) {
                (
                    ValueView::Literal(LiteralView::String(l)),
                    ValueView::Literal(LiteralView::String(r)),
                ) => BinaryPlan::Value(ValueView::Literal(LiteralView::String(l + r))),
                _ => BinaryPlan::TypeError("Two numbers or two strings required."),
            },
        },
        Kind::Slash => match numbers {
            Some((l, r)) => BinaryPlan::Arithmetic(Opcode::Div, l, r),
            None => BinaryPlan::TypeError("Divide requires two number operands"),
        },
        Kind::Star => match numbers {
            Some((l, r)) => BinaryPlan::Arithmetic(Opcode::Mul, l, r),
            None => BinaryPlan::TypeError("Multiplication requires two number operands"),
        },
        Kind::Greater => match numbers {
            Some((l, r)) => BinaryPlan::Value(boolean(r.ieee_lt(l))),
            None => BinaryPlan::TypeError("Greater requires two number operands"),
        },
        Kind::GreaterEqual => match numbers {
            Some((l, r)) => BinaryPlan::Value(boolean(r.ieee_lt(l) || l.ieee_eq(r))),
            None => BinaryPlan::TypeError("GEQ requires two number operands"),
        },
        Kind::Less => match numbers {
            Some((l, r)) => BinaryPlan::Value(boolean(l.ieee_lt(r))),
            None => BinaryPlan::TypeError("LE requires two number operands"),
        },
        Kind::LessEqual => match numbers {
            Some((l, r)) => BinaryPlan::Value(boolean(l.ieee_lt(r) || l.ieee_eq(r))),
            None => BinaryPlan::TypeError("LEQ requires two number operands"),
        },
        Kind::EqualEqual => BinaryPlan::Value(boolean(left.equal(right))),
        Kind::BangEqual => BinaryPlan::Value(boolean(!left.equal(right))),
        _ => BinaryPlan::TypeError("Wrong token for binary expression"),
    }
}

/// Whether a result is what a plan asks for, the arithmetic being such as
/// the caller's.
pub open spec fn follows_plan<A: Fn(Opcode, Number, Number) -> Number>(
    result: Result<Value, Failure>,
    plan: BinaryPlan,
    token: crate::front::token::TokenView,
    arithmetic: &A,
) -> bool {
    match plan {
        BinaryPlan::Value(value) => result matches Ok(v) && v@ == value,
        BinaryPlan::Arithmetic(op, l, r) => result matches Ok(Value::Literal(Literal::Number(n)))
            && arithmetic.ensures((op, l, r), n),
        BinaryPlan::TypeError(message) => result matches Err(Failure::Type(e)) && e.message
            == message && e.token@ == token,
    }
}

/// The scopes have grown: every scope that was there is there still, with
/// the same scope around it.
pub open spec fn grown(before: Seq<ScopeView>, after: Seq<ScopeView>) -> bool {
    &&& before.len() <= after.len()
    &&& forall|i: int| 0 <= i < before.len() ==> (#[trigger] after[i]).parent == before[i].parent
}

/// What a result of evaluation is.
pub open spec fn outcome(result: Result<Value, Failure>) -> Result<ValueView, FailureView> {
    match result {
        Ok(value) => Ok(value@),
        Err(error) => Err(error@),
    }
}

/// What the end of a statement is.
pub open spec fn ending(result: Option<StatementResult>) -> Option<EndView> {
    match result {
        Some(StatementResult::RuntimeError(error)) => Some(EndView::RuntimeError(error@)),
        Some(StatementResult::Return(object)) => Some(EndView::Return(object.value@)),
        Some(StatementResult::Break) => Some(EndView::Break),
        None => None,
    }
}

/// The link of the scope that a block is given to run in, if it is given
/// one.
pub open spec fn scope_link(environment: Option<Environment>) -> Option<
    crate::front::environment::Link,
> {
    match environment {
        Some(scope) => Some(scope.head),
        None => None,
    }
}

/// What a value is, where there is one.
pub open spec fn held_view(value: Option<Value>) -> Option<ValueView> {
    match value {
        Some(v) => Some(v@),
        None => None,
    }
}

/// What each error is.
pub open spec fn failures_view(errors: Seq<Failure>) -> Seq<FailureView> {
    errors.map_values(|error: Failure| error@)
}

/// Evaluates a resolved program directly on its tree.
pub struct Interpreter<'ast> {
    pub scopes: Scopes,
    pub functions: Vec<Function<'ast>>,
    pub classes: Vec<Class>,
    pub instances: Vec<Instance>,
    pub globals: Environment,
    pub environment: Environment,
    /// The values printed, in their order.
    pub output: Vec<Value>,
    /// The times that the clock has told, in their order.
    pub told: Ghost<Seq<Number>>,
}

impl<'ast> View for Interpreter<'ast> {
    type V = Heap<'ast>;

    open spec fn view(&self) -> Heap<'ast> {
        Heap {
            scopes: self.scopes@,
            functions: self.functions@,
            classes: classes_view(self.classes@),
            instances: instances_view(self.instances@),
            globals: self.globals.head,
            environment: self.environment.head,
            output: values_view(self.output@),
            told: self.told@,
        }
    }
}

/// The number of the built-in function `clock`.
pub const CLOCK: usize = 0;

impl<'ast> Interpreter<'ast> {
    /// The scopes are in order, and the current and the global scope are
    /// among them.
    pub open spec fn inv(&self) -> bool {
        &&& self.scopes.wf()
        &&& self.environment.within(&self.scopes)
        &&& self.globals.within(&self.scopes)
    }

    /// Whether evaluation has left the interpreter in the scope it was
    /// in: the current and the global scope are the same, and no scope
    /// was lost.
    pub open spec fn stable(&self, before: &Interpreter<'ast>) -> bool {
        &&& self.inv()
        &&& self.environment == before.environment
        &&& self.globals == before.globals
        &&& grown(before.scopes@, self.scopes@)
        &&& foretold(before.told@, self.told@)
    }

    /// Growth goes on: what has grown from what has grown has grown.
    pub proof fn lemma_grown_trans(a: Seq<ScopeView>, b: Seq<ScopeView>, c: Seq<ScopeView>)
        requires
            grown(a, b),
            grown(b, c),
        ensures
            grown(a, c),
    {
        assert forall|i: int| 0 <= i < a.len() implies (#[trigger] c[i]).parent == a[i].parent by {
            assert(b[i].parent == a[i].parent);
        }
    }

    /// An interpreter in a global scope that knows the built-in functions.
    pub fn new() -> (interpreter: Interpreter<'ast>)
        ensures
            interpreter.inv(),
            interpreter@ == (Heap {
                scopes: seq![
                    ScopeView {
                        names: seq!["clock".spec_bytes()],
                        values: seq![
                            crate::front::environment::VariableView {
                                defined: true,
                                value: ValueView::Native(CLOCK),
                            },
                        ],
                        parent: None,
                    },
                ],
                functions: Seq::empty(),
                classes: Seq::empty(),
                instances: Seq::empty(),
                globals: Some(0usize),
                environment: Some(0usize),
                output: Seq::empty(),
                told: Seq::empty(),
            }),
    {
        let mut scopes: Scopes = Scopes::new();
        let globals: Environment = Environment::new(&mut scopes);
        let mut interpreter = Interpreter {
            scopes,
            functions: Vec::new(),
            classes: Vec::new(),
            instances: Vec::new(),
            globals,
            environment: globals,
            output: Vec::new(),
            told: Ghost(Seq::empty()),
        };
        interpreter.define_globals();
        proof {
            assert(interpreter@.classes =~= Seq::<ClassView>::empty());
            assert(interpreter@.instances =~= Seq::<InstanceView>::empty());
            assert(interpreter@.output =~= Seq::<ValueView>::empty());
            assert(interpreter@.scopes =~= seq![
                ScopeView {
                    names: seq!["clock".spec_bytes()],
                    values: seq![
                        crate::front::environment::VariableView {
                            defined: true,
                            value: ValueView::Native(CLOCK),
                        },
                    ],
                    parent: None,
                },
            ]) by {
                assert(interpreter@.scopes[0].names =~= seq!["clock".spec_bytes()]);
                assert(interpreter@.scopes[0].values =~= seq![
                    crate::front::environment::VariableView {
                        defined: true,
                        value: ValueView::Native(CLOCK),
                    },
                ]);
            }
        }
        interpreter
    }

    /// Defines the built-in functions in the current scope.
    pub fn define_globals(&mut self)
        requires
            old(self).inv(),
        ensures
            final(self).stable(old(self)),
            final(self)@ == old(self)@.define(
                "clock".spec_bytes(),
                Some(ValueView::Native(CLOCK)),
            ),
    {
        let clock: Clock = Clock::new();
        self.define(clock.name, Some(Value::Native(CLOCK)));
    }

    /// Runs a program: executes its statements in order and returns the
    /// errors of those that failed. Every call of `evaluate` or `execute`
    /// takes one of the `fuel` steps granted. Sums, differences, products
    /// and quotients of numbers are asked of `arithmetic`, the time of
    /// `clock`, whose answers are kept in `told`. Where the arithmetic
    /// gives one answer for an operation, the program runs as the language
    /// says for the times that the clock told.
    pub fn interpret<A: Fn(Opcode, Number, Number) -> Number, C: Fn() -> Number>(
        &mut self,
        stmts: &'ast Vec<Stmt>,
        arithmetic: &A,
        clock: &C,
        fuel: usize,
    ) -> (errors: Vec<Failure>)
        requires
            old(self).inv(),
            forall|op: Opcode, l: Number, r: Number| arithmetic.requires((op, l, r)),
            clock.requires(()),
        ensures
            final(self).stable(old(self)),
            errors@.len() <= stmts@.len(),
            steady(arithmetic) ==> forall|times: Seq<Number>|
                foretold(final(self).told@, times) ==> (final(self)@, failures_view(errors@))
                    == #[trigger] run_program(
                    old(self)@,
                    stmts@,
                    0,
                    Seq::empty(),
                    fuel as nat,
                    answers(arithmetic),
                    times,
                ),
    {
        let mut errors: Vec<Failure> = Vec::new();
        let mut i: usize = 0;
        let ghost start = self@;
        let ghost sum = answers(arithmetic);
        assert(failures_view(errors@) =~= Seq::<FailureView>::empty());
        while i < stmts.len()
            invariant
                i <= stmts@.len(),
                errors@.len() <= i,
                self.stable(old(self)),
                start == old(self)@,
                sum == answers(arithmetic),
                forall|op: Opcode, l: Number, r: Number| arithmetic.requires((op, l, r)),
                clock.requires(()),
                steady(arithmetic) ==> forall|times: Seq<Number>|
                    foretold(self.told@, times) ==> run_program(
                        self@,
                        stmts@,
                        i as int,
                        failures_view(errors@),
                        fuel as nat,
                        sum,
                        times,
                    ) == #[trigger] run_program(
                        start,
                        stmts@,
                        0,
                        Seq::empty(),
                        fuel as nat,
                        sum,
                        times,
                    ),
            decreases stmts@.len() - i,
        {
            let ghost before = *self;
            let ghost collected = failures_view(errors@);
            match self.execute(&stmts[i], arithmetic, clock, fuel) {
                Some(StatementResult::RuntimeError(error)) => {
                    assert(failures_view(errors@.push(error)) =~= collected.push(error@));
                    errors.push(error);
                },
                _ => {},
            }
            proof {
                Self::lemma_grown_trans(old(self).scopes@, before.scopes@, self.scopes@);
            }
            i += 1;
        }
        errors
    }

    /// A fatal error about a token.
    fn fatal(token: &Token, message: &str) -> (error: Failure)
        ensures
            error@ == crate::front::semantics::fatal(token@, message),
    {
        Failure::Fatal(FatalError::new(token.clone(), str_bytes(message)))
    }

    /// Declares a variable in the current scope.
    fn define(&mut self, name: Vec<u8>, value: Option<Value>)
        requires
            old(self).inv(),
        ensures
            final(self).stable(old(self)),
            final(self)@ == old(self)@.define(
                name@,
                match value {
                    Some(v) => Some(v@),
                    None => None,
                },
            ),
    {
        let env: Environment = self.environment;
        self.define_in(env, name, value);
    }

    /// Declares a variable in the scope of a handle.
    fn define_in(&mut self, env: Environment, name: Vec<u8>, value: Option<Value>)
        requires
            old(self).inv(),
        ensures
            final(self).stable(old(self)),
            final(self)@ == old(self)@.with_scopes(
                declared(
                    old(self)@.scopes,
                    env.head,
                    name@,
                    match value {
                        Some(v) => Some(v@),
                        None => None,
                    },
                ),
            ),
    {
        let ghost before = self.scopes@;
        env.define(&mut self.scopes, name, value);
        assert(grown(before, self.scopes@));
    }

    /// Enters a new scope inside the scope of a handle, and gives the
    /// handle on it.
    fn extend(&mut self, env: Environment) -> (inner: Environment)
        requires
            old(self).inv(),
            env.head.is_none() || env.within(&old(self).scopes),
        ensures
            final(self).stable(old(self)),
            inner.within(&final(self).scopes),
            (final(self)@, inner.head) == old(self)@.extend(env.head),
    {
        let ghost before = self.scopes@;
        let count: usize = self.scopes.len();
        let mut inner: Environment = env;
        inner.push(&mut self.scopes);
        assert(grown(before, self.scopes@));
        assert(inner.head == Some(count));
        inner
    }

    /// Evaluates an expression. Sums, differences, products and quotients
    /// of numbers are asked of `arithmetic`, the time of `clock`, whose
    /// answers are kept in `told`. Where the arithmetic gives one answer
    /// for an operation, the result is that of the language for the times
    /// that the clock told.
    #[verifier::rlimit(100)]
    pub fn evaluate<A: Fn(Opcode, Number, Number) -> Number, C: Fn() -> Number>(
        &mut self,
        expr: &'ast Expr,
        arithmetic: &A,
        clock: &C,
        fuel: usize,
    ) -> (result: Result<Value, Failure>)
        requires
            old(self).inv(),
            forall|op: Opcode, l: Number, r: Number| arithmetic.requires((op, l, r)),
            clock.requires(()),
        ensures
            final(self).stable(old(self)),
            steady(arithmetic) ==> forall|times: Seq<Number>|
                foretold(
                    final(self).told@,
                    times,
                ) ==> (final(self)@, outcome(result)) == #[trigger] eval(
                old(self)@,
                expr,
                fuel as nat,
                answers(arithmetic),
                times,
            ),
        decreases fuel,
    {
        if fuel == 0 {
            return Err(Self::out_of_fuel());
        }
        let budget: usize = fuel - 1;
        assert(budget as nat == (fuel as nat - 1) as nat);
        match expr {
            Expr::Assign(assign) => {
                let value: Value = match self.evaluate(&assign.value, arithmetic, clock, budget) {
                    Ok(value) => value,
                    Err(error) => {
                        proof {
                            if steady(arithmetic) {
                                assert forall|times: Seq<Number>|
                                    foretold(self.told@, times) implies
                                    (self@, Err::<ValueView, FailureView>(error@)) == #[trigger] eval(
                                        old(self)@,
                                        expr,
                                        fuel as nat,
                                        answers(arithmetic),
                                        times,
                                    ) by {
                                    assert(eval(
                                        old(self)@,
                                        &*assign.value,
                                        budget as nat,
                                        answers(arithmetic),
                                        times,
                                    ) == (self@, Err::<ValueView, FailureView>(error@)));
                                }
                            }
                        }
                        return Err(error);
                    },
                };
                let ghost before = *self;
                let error = self.assign_variable(&assign.variable, &value);
                let result = match error {
                    Some(error) => Err(error),
                    None => Ok(value),
                };
                proof {
                    Self::lemma_grown_trans(old(self).scopes@, before.scopes@, self.scopes@);
                    if steady(arithmetic) {
                        assert forall|times: Seq<Number>| foretold(self.told@, times) implies
                            (self@, outcome(result)) == #[trigger] eval(
                                old(self)@,
                                expr,
                                fuel as nat,
                                answers(arithmetic),
                                times,
                            ) by {
                            assert(foretold(before.told@, times));
                            assert(eval(
                                old(self)@,
                                &*assign.value,
                                budget as nat,
                                answers(arithmetic),
                                times,
                            ) == (before@, Ok::<ValueView, FailureView>(value@)));
                        }
                    }
                }
                result
            },
            Expr::Binary(binary) => {
                let left: Value = match self.evaluate(&binary.left, arithmetic, clock, budget) {
                    Ok(value) => value,
                    Err(error) => {
                        proof {
                            if steady(arithmetic) {
                                assert forall|times: Seq<Number>|
                                    foretold(self.told@, times) implies
                                    (self@, Err::<ValueView, FailureView>(error@)) == #[trigger] eval(
                                        old(self)@,
                                        expr,
                                        fuel as nat,
                                        answers(arithmetic),
                                        times,
                                    ) by {
                                    assert(eval(
                                        old(self)@,
                                        &*binary.left,
                                        budget as nat,
                                        answers(arithmetic),
                                        times,
                                    ) == (self@, Err::<ValueView, FailureView>(error@)));
                                }
                            }
                        }
                        return Err(error);
                    },
                };
                let ghost before = *self;
                let ghost lv = left@;
                let right: Value = match self.evaluate(&binary.right, arithmetic, clock, budget) {
                    Ok(value) => value,
                    Err(error) => {
                        proof {
                            Self::lemma_grown_trans(
                                old(self).scopes@,
                                before.scopes@,
                                self.scopes@,
                            );
                            if steady(arithmetic) {
                                assert forall|times: Seq<Number>|
                                    foretold(self.told@, times) implies
                                    (self@, Err::<ValueView, FailureView>(error@)) == #[trigger] eval(
                                        old(self)@,
                                        expr,
                                        fuel as nat,
                                        answers(arithmetic),
                                        times,
                                    ) by {
                                    assert(foretold(before.told@, times));
                                    assert(eval(
                                        old(self)@,
                                        &*binary.left,
                                        budget as nat,
                                        answers(arithmetic),
                                        times,
                                    ) == (before@, Ok::<ValueView, FailureView>(lv)));
                                    assert(eval(
                                        before@,
                                        &*binary.right,
                                        budget as nat,
                                        answers(arithmetic),
                                        times,
                                    ) == (self@, Err::<ValueView, FailureView>(error@)));
                                }
                            }
                        }
                        return Err(error);
                    },
                };
                let ghost rv = right@;
                let result = Self::handle_binary(&binary.operator, left, right, arithmetic);
                proof {
                    Self::lemma_grown_trans(old(self).scopes@, before.scopes@, self.scopes@);
                    if steady(arithmetic) {
                        assert forall|times: Seq<Number>| foretold(self.told@, times) implies
                            (self@, outcome(result)) == #[trigger] eval(
                                old(self)@,
                                expr,
                                fuel as nat,
                                answers(arithmetic),
                                times,
                            ) by {
                            assert(foretold(before.told@, times));
                            assert(eval(
                                old(self)@,
                                &*binary.left,
                                budget as nat,
                                answers(arithmetic),
                                times,
                            ) == (before@, Ok::<ValueView, FailureView>(lv)));
                            assert(eval(
                                before@,
                                &*binary.right,
                                budget as nat,
                                answers(arithmetic),
                                times,
                            ) == (self@, Ok::<ValueView, FailureView>(rv)));
                        }
                    }
                }
                result
            },
            Expr::Call(call) => {
                let result = self.visit_call(call, arithmetic, clock, fuel);
                proof {
                    if steady(arithmetic) {
                        assert forall|times: Seq<Number>| foretold(self.told@, times) implies
                            (self@, outcome(result)) == #[trigger] eval(
                                old(self)@,
                                expr,
                                fuel as nat,
                                answers(arithmetic),
                                times,
                            ) by {
                            assert(eval(
                                old(self)@,
                                &Expr::Call(*call),
                                fuel as nat,
                                answers(arithmetic),
                                times,
                            ) == (self@, outcome(result)));
                        }
                    }
                }
                result
            },
            Expr::Get(get) => {
                let object: Value = match self.evaluate(&get.object, arithmetic, clock, budget) {
                    Ok(value) => value,
                    Err(error) => {
                        proof {
                            if steady(arithmetic) {
                                assert forall|times: Seq<Number>|
                                    foretold(self.told@, times) implies
                                    (self@, Err::<ValueView, FailureView>(error@)) == #[trigger] eval(
                                        old(self)@,
                                        expr,
                                        fuel as nat,
                                        answers(arithmetic),
                                        times,
                                    ) by {
                                    assert(eval(
                                        old(self)@,
                                        &*get.object,
                                        budget as nat,
                                        answers(arithmetic),
                                        times,
                                    ) == (self@, Err::<ValueView, FailureView>(error@)));
                                }
                            }
                        }
                        return Err(error);
                    },
                };
                let ghost before = *self;
                let ghost ov = object@;
                let result = match object {
                    Value::Instance(instance) => self.get_property(instance, &get.name),
                    _ => Err(
                        Failure::Type(
                            TypeError::new((*get.name).clone(), "Only instances have properties"),
                        ),
                    ),
                };
                proof {
                    Self::lemma_grown_trans(old(self).scopes@, before.scopes@, self.scopes@);
                    if steady(arithmetic) {
                        assert forall|times: Seq<Number>| foretold(self.told@, times) implies
                            (self@, outcome(result)) == #[trigger] eval(
                                old(self)@,
                                expr,
                                fuel as nat,
                                answers(arithmetic),
                                times,
                            ) by {
                            assert(foretold(before.told@, times));
                            assert(eval(
                                old(self)@,
                                &*get.object,
                                budget as nat,
                                answers(arithmetic),
                                times,
                            ) == (before@, Ok::<ValueView, FailureView>(ov)));
                        }
                    }
                }
                result
            },
            Expr::Grouping(grouping) => {
                let result = self.evaluate(&grouping.expression, arithmetic, clock, budget);
                proof {
                    if steady(arithmetic) {
                        assert forall|times: Seq<Number>| foretold(self.told@, times) implies
                            (self@, outcome(result)) == #[trigger] eval(
                                old(self)@,
                                expr,
                                fuel as nat,
                                answers(arithmetic),
                                times,
                            ) by {
                            assert(eval(
                                old(self)@,
                                &*grouping.expression,
                                budget as nat,
                                answers(arithmetic),
                                times,
                            ) == (self@, outcome(result)));
                        }
                    }
                }
                result
            },
            Expr::Literal(literal) => Ok(Value::Literal(literal.clone())),
            Expr::Logical(logical) => {
                let left: Value = match self.evaluate(&logical.left, arithmetic, clock, budget) {
                    Ok(value) => value,
                    Err(error) => {
                        proof {
                            if steady(arithmetic) {
                                assert forall|times: Seq<Number>|
                                    foretold(self.told@, times) implies
                                    (self@, Err::<ValueView, FailureView>(error@)) == #[trigger] eval(
                                        old(self)@,
                                        expr,
                                        fuel as nat,
                                        answers(arithmetic),
                                        times,
                                    ) by {
                                    assert(eval(
                                        old(self)@,
                                        &*logical.left,
                                        budget as nat,
                                        answers(arithmetic),
                                        times,
                                    ) == (self@, Err::<ValueView, FailureView>(error@)));
                                }
                            }
                        }
                        return Err(error);
                    },
                };
                let decided: bool = match logical.operator.token_type {
                    TokenType::Or => left.is_truthy(),
                    TokenType::And => !left.is_truthy(),
                    _ => false,
                };
                let ghost lv = left@;
                if decided {
                    proof {
                        if steady(arithmetic) {
                            assert forall|times: Seq<Number>| foretold(self.told@, times) implies
                                (self@, Ok::<ValueView, FailureView>(lv)) == #[trigger] eval(
                                    old(self)@,
                                    expr,
                                    fuel as nat,
                                    answers(arithmetic),
                                    times,
                                ) by {
                                assert(eval(
                                    old(self)@,
                                    &*logical.left,
                                    budget as nat,
                                    answers(arithmetic),
                                    times,
                                ) == (self@, Ok::<ValueView, FailureView>(lv)));
                            }
                        }
                    }
                    return Ok(left);
                }
                let ghost before = *self;
                let result = self.evaluate(&logical.right, arithmetic, clock, budget);
                proof {
                    Self::lemma_grown_trans(old(self).scopes@, before.scopes@, self.scopes@);
                    if steady(arithmetic) {
                        assert forall|times: Seq<Number>| foretold(self.told@, times) implies
                            (self@, outcome(result)) == #[trigger] eval(
                                old(self)@,
                                expr,
                                fuel as nat,
                                answers(arithmetic),
                                times,
                            ) by {
                            assert(foretold(before.told@, times));
                            assert(eval(
                                old(self)@,
                                &*logical.left,
                                budget as nat,
                                answers(arithmetic),
                                times,
                            ) == (before@, Ok::<ValueView, FailureView>(lv)));
                            assert(eval(
                                before@,
                                &*logical.right,
                                budget as nat,
                                answers(arithmetic),
                                times,
                            ) == (self@, outcome(result)));
                        }
                    }
                }
                result
            },
            Expr::Unary(unary) => {
                let right: Value = match self.evaluate(&unary.right, arithmetic, clock, budget) {
                    Ok(value) => value,
                    Err(error) => {
                        proof {
                            if steady(arithmetic) {
                                assert forall|times: Seq<Number>|
                                    foretold(self.told@, times) implies
                                    (self@, Err::<ValueView, FailureView>(error@)) == #[trigger] eval(
                                        old(self)@,
                                        expr,
                                        fuel as nat,
                                        answers(arithmetic),
                                        times,
                                    ) by {
                                    assert(eval(
                                        old(self)@,
                                        &*unary.right,
                                        budget as nat,
                                        answers(arithmetic),
                                        times,
                                    ) == (self@, Err::<ValueView, FailureView>(error@)));
                                }
                            }
                        }
                        return Err(error);
                    },
                };
                let ghost rv = right@;
                let result = Self::handle_unary(&unary.operator, right);
                proof {
                    if steady(arithmetic) {
                        assert forall|times: Seq<Number>| foretold(self.told@, times) implies
                            (self@, outcome(result)) == #[trigger] eval(
                                old(self)@,
                                expr,
                                fuel as nat,
                                answers(arithmetic),
                                times,
                            ) by {
                            assert(eval(
                                old(self)@,
                                &*unary.right,
                                budget as nat,
                                answers(arithmetic),
                                times,
                            ) == (self@, Ok::<ValueView, FailureView>(rv)));
                        }
                    }
                }
                result
            },
            Expr::SetExpr(set) => {
                let object: Value = match self.evaluate(&set.object, arithmetic, clock, budget) {
                    Ok(value) => value,
                    Err(error) => {
                        proof {
                            if steady(arithmetic) {
                                assert forall|times: Seq<Number>|
                                    foretold(self.told@, times) implies
                                    (self@, Err::<ValueView, FailureView>(error@)) == #[trigger] eval(
                                        old(self)@,
                                        expr,
                                        fuel as nat,
                                        answers(arithmetic),
                                        times,
                                    ) by {
                                    assert(eval(
                                        old(self)@,
                                        &*set.object,
                                        budget as nat,
                                        answers(arithmetic),
                                        times,
                                    ) == (self@, Err::<ValueView, FailureView>(error@)));
                                }
                            }
                        }
                        return Err(error);
                    },
                };
                let ghost ov = object@;
                match object {
                    Value::Instance(instance) => {
                        let ghost before = *self;
                        let value: Value = match self.evaluate(
                            &set.value,
                            arithmetic,
                            clock,
                            budget,
                        ) {
                            Ok(value) => value,
                            Err(error) => {
                                proof {
                                    Self::lemma_grown_trans(
                                        old(self).scopes@,
                                        before.scopes@,
                                        self.scopes@,
                                    );
                                    if steady(arithmetic) {
                                        assert forall|times: Seq<Number>|
                                            foretold(self.told@, times) implies
                                            (self@, Err::<ValueView, FailureView>(error@)) == #[trigger] eval(
                                                old(self)@,
                                                expr,
                                                fuel as nat,
                                                answers(arithmetic),
                                                times,
                                            ) by {
                                            assert(foretold(before.told@, times));
                                            assert(eval(
                                                old(self)@,
                                                &*set.object,
                                                budget as nat,
                                                answers(arithmetic),
                                                times,
                                            ) == (before@, Ok::<ValueView, FailureView>(ov)));
                                            assert(eval(
                                                before@,
                                                &*set.value,
                                                budget as nat,
                                                answers(arithmetic),
                                                times,
                                            ) == (self@, Err::<ValueView, FailureView>(error@)));
                                        }
                                    }
                                }
                                return Err(error);
                            },
                        };
                        let ghost middle = *self;
                        let ghost vv = value@;
                        let result = self.set_field(instance, &set.name, value);
                        proof {
                            Self::lemma_grown_trans(
                                old(self).scopes@,
                                before.scopes@,
                                middle.scopes@,
                            );
                            Self::lemma_grown_trans(
                                old(self).scopes@,
                                middle.scopes@,
                                self.scopes@,
                            );
                            if steady(arithmetic) {
                                assert forall|times: Seq<Number>|
                                    foretold(self.told@, times) implies
                                    (self@, outcome(result)) == #[trigger] eval(
                                        old(self)@,
                                        expr,
                                        fuel as nat,
                                        answers(arithmetic),
                                        times,
                                    ) by {
                                    assert(foretold(before.told@, times));
                                    assert(foretold(middle.told@, times));
                                    assert(eval(
                                        old(self)@,
                                        &*set.object,
                                        budget as nat,
                                        answers(arithmetic),
                                        times,
                                    ) == (before@, Ok::<ValueView, FailureView>(ov)));
                                    assert(eval(
                                        before@,
                                        &*set.value,
                                        budget as nat,
                                        answers(arithmetic),
                                        times,
                                    ) == (middle@, Ok::<ValueView, FailureView>(vv)));
                                }
                            }
                        }
                        result
                    },
                    _ => {
                        let result = Err(
                            Failure::Type(
                                TypeError::new((*set.name).clone(), "Only instances have fields"),
                            ),
                        );
                        proof {
                            if steady(arithmetic) {
                                assert forall|times: Seq<Number>|
                                    foretold(self.told@, times) implies
                                    (self@, outcome(result)) == #[trigger] eval(
                                        old(self)@,
                                        expr,
                                        fuel as nat,
                                        answers(arithmetic),
                                        times,
                                    ) by {
                                    assert(eval(
                                        old(self)@,
                                        &*set.object,
                                        budget as nat,
                                        answers(arithmetic),
                                        times,
                                    ) == (self@, Ok::<ValueView, FailureView>(ov)));
                                }
                            }
                        }
                        result
                    },
                }
            },
            Expr::Super(super_expr) => self.visit_super(&super_expr.keyword, &super_expr.method),
            Expr::Ternary(ternary) => {
                let condition: Value = match self.evaluate(
                    &ternary.condition,
                    arithmetic,
                    clock,
                    budget,
                ) {
                    Ok(value) => value,
                    Err(error) => {
                        proof {
                            if steady(arithmetic) {
                                assert forall|times: Seq<Number>|
                                    foretold(self.told@, times) implies
                                    (self@, Err::<ValueView, FailureView>(error@)) == #[trigger] eval(
                                        old(self)@,
                                        expr,
                                        fuel as nat,
                                        answers(arithmetic),
                                        times,
                                    ) by {
                                    assert(eval(
                                        old(self)@,
                                        &*ternary.condition,
                                        budget as nat,
                                        answers(arithmetic),
                                        times,
                                    ) == (self@, Err::<ValueView, FailureView>(error@)));
                                }
                            }
                        }
                        return Err(error);
                    },
                };
                let ghost before = *self;
                let result = if condition.is_truthy() {
                    self.evaluate(&ternary.true_branch, arithmetic, clock, budget)
                } else {
                    self.evaluate(&ternary.false_branch, arithmetic, clock, budget)
                };
                proof {
                    Self::lemma_grown_trans(old(self).scopes@, before.scopes@, self.scopes@);
                    if steady(arithmetic) {
                        assert forall|times: Seq<Number>| foretold(self.told@, times) implies
                            (self@, outcome(result)) == #[trigger] eval(
                                old(self)@,
                                expr,
                                fuel as nat,
                                answers(arithmetic),
                                times,
                            ) by {
                            assert(foretold(before.told@, times));
                            assert(eval(
                                old(self)@,
                                &*ternary.condition,
                                budget as nat,
                                answers(arithmetic),
                                times,
                            ) == (before@, Ok::<ValueView, FailureView>(condition@)));
                            assert(condition@.truthy() ==> eval(
                                before@,
                                &*ternary.true_branch,
                                budget as nat,
                                answers(arithmetic),
                                times,
                            ) == (self@, outcome(result)));
                            assert(!condition@.truthy() ==> eval(
                                before@,
                                &*ternary.false_branch,
                                budget as nat,
                                answers(arithmetic),
                                times,
                            ) == (self@, outcome(result)));
                        }
                    }
                }
                result
            },
            Expr::This(this) => self.lookup_variable(&this.variable),
            Expr::Variable(variable) => self.lookup_variable(variable),
        }
    }

    /// Gives a field of an instance a value, and gives the value.
    fn set_field(&mut self, instance: usize, name: &Token, value: Value) -> (result: Result<
        Value,
        Failure,
    >)
        requires
            old(self).inv(),
        ensures
            final(self).stable(old(self)),
            (final(self)@, outcome(result)) == if instance < old(self)@.instances.len() {
                (
                    Heap {
                        instances: old(self)@.instances.update(
                            instance as int,
                            InstanceView {
                                field_names: old(self)@.instances[instance as int].field_names.push(
                                    name.lexeme@,
                                ),
                                fields: old(self)@.instances[instance as int].fields.push(value@),
                                ..old(self)@.instances[instance as int]
                            },
                        ),
                        ..old(self)@
                    },
                    Ok::<ValueView, FailureView>(value@),
                )
            } else {
                (
                    old(self)@,
                    Err::<ValueView, FailureView>(
                        crate::front::semantics::fatal(name@, "No such instance"),
                    ),
                )
            },
    {
        if instance < self.instances.len() {
            let ghost before = self@.instances;
            assert(before[instance as int] == self.instances@[instance as int]@);
            self.instances[instance].set(name.lexeme.as_slice(), value.clone());
            proof {
                let after = self@.instances;
                assert(after[instance as int] == self.instances@[instance as int]@);
                assert forall|i: int| 0 <= i < after.len() && i != instance implies after[i]
                    == before[i] by {
                    assert(self.instances@[i] == old(self).instances@[i]);
                }
                assert(after =~= before.update(instance as int, after[instance as int]));
            }
            Ok(value)
        } else {
            Err(Self::fatal(name, "No such instance"))
        }
    }

    /// A call: the callee is evaluated, then the arguments in order, and
    /// the callee is called with them.
    #[verifier::rlimit(100)]
    fn visit_call<A: Fn(Opcode, Number, Number) -> Number, C: Fn() -> Number>(
        &mut self,
        call: &'ast crate::front::expr::Call,
        arithmetic: &A,
        clock: &C,
        fuel: usize,
    ) -> (result: Result<Value, Failure>)
        requires
            old(self).inv(),
            fuel > 0,
            forall|op: Opcode, l: Number, r: Number| arithmetic.requires((op, l, r)),
            clock.requires(()),
        ensures
            final(self).stable(old(self)),
            steady(arithmetic) ==> forall|times: Seq<Number>|
                foretold(
                    final(self).told@,
                    times,
                ) ==> (final(self)@, outcome(result)) == #[trigger] eval(
                old(self)@,
                &Expr::Call(*call),
                fuel as nat,
                answers(arithmetic),
                times,
            ),
        decreases fuel, 0nat,
    {
        let budget: usize = fuel - 1;
        let callee: Value = match self.evaluate(&call.callee, arithmetic, clock, budget) {
            Ok(value) => value,
            Err(error) => {
                proof {
                    if steady(arithmetic) {
                        assert forall|times: Seq<Number>| foretold(self.told@, times) implies
                            (self@, Err::<ValueView, FailureView>(error@)) == #[trigger] eval(
                old(self)@,
                &Expr::Call(*call),
                fuel as nat,
                answers(arithmetic),
                times,
            ) by {
                            assert(eval(
                                old(self)@,
                                &*call.callee,
                                budget as nat,
                                answers(arithmetic),
                                times,
                            ) == (self@, Err::<ValueView, FailureView>(error@)));
                        }
                    }
                }
                return Err(error);
            },
        };
        let mut arguments: Vec<Value> = Vec::new();
        let mut i: usize = 0;
        let ghost start = *self;
        assert(values_view(arguments@) =~= Seq::<ValueView>::empty());
        while i < call.arguments.len()
            invariant
                i <= call.arguments@.len(),
                fuel > 0,
                budget == fuel - 1,
                self.stable(old(self)),
                foretold(start.told@, self.told@),
                forall|op: Opcode, l: Number, r: Number| arithmetic.requires((op, l, r)),
                clock.requires(()),
                steady(arithmetic) ==> forall|times: Seq<Number>|
                    foretold(start.told@, times) ==> #[trigger] eval(
                        old(self)@,
                        &*call.callee,
                        budget as nat,
                        answers(arithmetic),
                        times,
                    ) == (start@, Ok::<ValueView, FailureView>(callee@)),
                steady(arithmetic) ==> forall|times: Seq<Number>|
                    foretold(self.told@, times) ==> (
                        self@,
                        Ok::<Seq<ValueView>, FailureView>(values_view(arguments@)),
                    ) == #[trigger] eval_args(
                        start@,
                        call.arguments@,
                        i as nat,
                        budget as nat,
                        answers(arithmetic),
                        times,
                    ),
            decreases call.arguments@.len() - i,
        {
            let ghost before = *self;
            let ghost listed = values_view(arguments@);
            let ghost done: nat = i as nat;
            match self.evaluate(&call.arguments[i], arithmetic, clock, budget) {
                Ok(value) => {
                    assert(values_view(arguments@.push(value)) =~= listed.push(value@));
                    let ghost vv = value@;
                    arguments.push(value);
                    i += 1;
                    proof {
                        Self::lemma_grown_trans(old(self).scopes@, before.scopes@, self.scopes@);
                        if steady(arithmetic) {
                            assert forall|times: Seq<Number>|
                                foretold(self.told@, times) implies (
                                self@,
                                Ok::<Seq<ValueView>, FailureView>(values_view(arguments@)),
                            ) == #[trigger] eval_args(
                                start@,
                                call.arguments@,
                                i as nat,
                                budget as nat,
                                answers(arithmetic),
                                times,
                            ) by {
                                assert(foretold(before.told@, times));
                                assert(eval_args(
                                    start@,
                                    call.arguments@,
                                    done,
                                    budget as nat,
                                    answers(arithmetic),
                                    times,
                                ) == (before@, Ok::<Seq<ValueView>, FailureView>(listed)));
                                assert(eval(
                                    before@,
                                    &call.arguments@[done as int],
                                    budget as nat,
                                    answers(arithmetic),
                                    times,
                                ) == (self@, Ok::<ValueView, FailureView>(vv)));
                                assert(i as nat == done + 1);
                            }
                        }
                    }
                },
                Err(error) => {
                    proof {
                        Self::lemma_grown_trans(old(self).scopes@, before.scopes@, self.scopes@);
                        if steady(arithmetic) {
                            assert forall|times: Seq<Number>|
                                foretold(self.told@, times) implies
                                (self@, Err::<ValueView, FailureView>(error@)) == #[trigger] eval(
                old(self)@,
                &Expr::Call(*call),
                fuel as nat,
                answers(arithmetic),
                times,
            ) by {
                                assert(foretold(before.told@, times));
                                assert(foretold(start.told@, times));
                                assert(eval(
                                    old(self)@,
                                    &*call.callee,
                                    budget as nat,
                                    answers(arithmetic),
                                    times,
                                ) == (start@, Ok::<ValueView, FailureView>(callee@)));
                                assert(eval_args(
                                    start@,
                                    call.arguments@,
                                    done,
                                    budget as nat,
                                    answers(arithmetic),
                                    times,
                                ) == (before@, Ok::<Seq<ValueView>, FailureView>(listed)));
                                assert(eval(
                                    before@,
                                    &call.arguments@[done as int],
                                    budget as nat,
                                    answers(arithmetic),
                                    times,
                                ) == (self@, Err::<ValueView, FailureView>(error@)));
                                assert(eval_args(
                                    start@,
                                    call.arguments@,
                                    (done + 1) as nat,
                                    budget as nat,
                                    answers(arithmetic),
                                    times,
                                ) == (self@, Err::<Seq<ValueView>, FailureView>(error@)));
                                Self::lemma_args_failed(
                                    start@,
                                    call.arguments@,
                                    (done + 1) as nat,
                                    call.arguments@.len(),
                                    budget as nat,
                                    answers(arithmetic),
                                    times,
                                );
                            }
                        }
                    }
                    return Err(error);
                },
            }
        }
        let ghost before = *self;
        let ghost given = values_view(arguments@);
        let result = self.try_call(&call.paren, &callee, arguments, arithmetic, clock, budget);
        proof {
            Self::lemma_grown_trans(old(self).scopes@, before.scopes@, self.scopes@);
            if steady(arithmetic) {
                assert forall|times: Seq<Number>|
                    foretold(self.told@, times) implies
                    (self@, outcome(result)) == #[trigger] eval(
                old(self)@,
                &Expr::Call(*call),
                fuel as nat,
                answers(arithmetic),
                times,
            ) by {
                    assert(foretold(before.told@, times));
                    assert(foretold(start.told@, times));
                    assert(eval(
                        old(self)@,
                        &*call.callee,
                        budget as nat,
                        answers(arithmetic),
                        times,
                    ) == (start@, Ok::<ValueView, FailureView>(callee@)));
                    assert(eval_args(
                        start@,
                        call.arguments@,
                        call.arguments@.len(),
                        budget as nat,
                        answers(arithmetic),
                        times,
                    ) == (before@, Ok::<Seq<ValueView>, FailureView>(given)));
                    assert(crate::front::semantics::try_call(
                        before@,
                        call.paren@,
                        callee@,
                        given,
                        budget as nat,
                        answers(arithmetic),
                        times,
                    ) == (self@, outcome(result)));
                }
            }
        }
        result
    }

    /// Arguments of which one fails, fail as it does whatever follows
    /// it.
    proof fn lemma_args_failed(
        h: Heap<'ast>,
        arguments: Seq<Expr>,
        count: nat,
        all: nat,
        fuel: nat,
        sum: spec_fn(Opcode, Number, Number) -> Number,
        times: Seq<Number>,
    )
        requires
            count <= all <= arguments.len(),
            eval_args(h, arguments, count, fuel, sum, times).1.is_err(),
        ensures
            eval_args(h, arguments, all, fuel, sum, times) == eval_args(
                h,
                arguments,
                count,
                fuel,
                sum,
                times,
            ),
        decreases all - count,
    {
        if count < all {
            Self::lemma_args_failed(h, arguments, count, (all - 1) as nat, fuel, sum, times);
        }
    }

    /// The error of an evaluation that has used up its steps.
    fn out_of_fuel() -> (error: Failure)
        ensures
            error@ == crate::front::semantics::out_of_fuel(),
    {
        let token: Token = Token::new(
            TokenType::Eof,
            vstd::slice::slice_subrange("".as_bytes(), 0, 0),
            0,
        );
        assert(token@ == crate::front::scanner::eof_token()) by {
            assert(token@.lexeme =~= Seq::<u8>::empty());
        }
        Failure::Fatal(FatalError::new(token, str_bytes("Evaluation ran out of steps")))
    }

    /// Executes a statement. Nothing is returned where it simply ended.
    #[verifier::rlimit(100)]
    pub fn execute<A: Fn(Opcode, Number, Number) -> Number, C: Fn() -> Number>(
        &mut self,
        stmt: &'ast Stmt,
        arithmetic: &A,
        clock: &C,
        fuel: usize,
    ) -> (result: Option<StatementResult>)
        requires
            old(self).inv(),
            forall|op: Opcode, l: Number, r: Number| arithmetic.requires((op, l, r)),
            clock.requires(()),
        ensures
            final(self).stable(old(self)),
            steady(arithmetic) ==> forall|times: Seq<Number>|
                foretold(
                    final(self).told@,
                    times,
                ) ==> (final(self)@, ending(result)) == #[trigger] exec_stmt(
                old(self)@,
                stmt,
                fuel as nat,
                answers(arithmetic),
                times,
            ),
        decreases fuel,
    {
        if fuel == 0 {
            return Some(StatementResult::RuntimeError(Self::out_of_fuel()));
        }
        let budget: usize = fuel - 1;
        assert(budget as nat == (fuel as nat - 1) as nat);
        match stmt {
            Stmt::Block(block) => {
                let outer: Environment = self.environment;
                let inner: Environment = self.extend(outer);
                let ghost entered = *self;
                let res = self.execute_block(
                    &block.statements,
                    Some(inner),
                    arithmetic,
                    clock,
                    budget,
                );
                proof {
                    Self::lemma_grown_trans(old(self).scopes@, entered.scopes@, self.scopes@);
                    if steady(arithmetic) {
                        assert forall|times: Seq<Number>| foretold(self.told@, times) implies
                            (self@, ending(res)) == #[trigger] exec_stmt(
                                old(self)@,
                                stmt,
                                fuel as nat,
                                answers(arithmetic),
                                times,
                            ) by {
                            assert(foretold(entered.told@, times));
                            assert(exec_block(
                                entered@,
                                block.statements@,
                                scope_link(Some(inner)),
                                budget as nat,
                                answers(arithmetic),
                                times,
                            ) == (self@, ending(res)));
                        }
                    }
                }
                res
            },
            Stmt::Class(class_decl) => self.visit_class(class_decl),
            Stmt::Expression(expression) => {
                match self.evaluate(expression, arithmetic, clock, budget) {
                    Ok(val) => {
                        let ghost before = *self;
                        let ghost vv = val@;
                        if !self.environment.is_global(&self.scopes) {
                            proof {
                                if steady(arithmetic) {
                                    assert forall|times: Seq<Number>|
                                        foretold(self.told@, times) implies
                                        (self@, None::<EndView>) == #[trigger] exec_stmt(
                                            old(self)@,
                                            stmt,
                                            fuel as nat,
                                            answers(arithmetic),
                                            times,
                                        ) by {
                                        assert(eval(
                                            old(self)@,
                                            expression,
                                            budget as nat,
                                            answers(arithmetic),
                                            times,
                                        ) == (self@, Ok::<ValueView, FailureView>(vv)));
                                    }
                                }
                            }
                            return None;
                        }
                        match val {
                            Value::Literal(Literal::Nil) => {},
                            Value::Literal(literal) => {
                                let shown: Value = Value::Literal(literal);
                                assert(values_view(self.output@.push(shown)) =~= values_view(
                                    self.output@,
                                ).push(shown@));
                                self.output.push(shown);
                            },
                            _ => {},
                        }
                        proof {
                            if steady(arithmetic) {
                                assert forall|times: Seq<Number>|
                                    foretold(self.told@, times) implies
                                    (self@, None::<EndView>) == #[trigger] exec_stmt(
                                        old(self)@,
                                        stmt,
                                        fuel as nat,
                                        answers(arithmetic),
                                        times,
                                    ) by {
                                    assert(foretold(before.told@, times));
                                    assert(eval(
                                        old(self)@,
                                        expression,
                                        budget as nat,
                                        answers(arithmetic),
                                        times,
                                    ) == (before@, Ok::<ValueView, FailureView>(vv)));
                                }
                            }
                        }
                        None
                    },
                    Err(error) => {
                        proof {
                            if steady(arithmetic) {
                                assert forall|times: Seq<Number>|
                                    foretold(self.told@, times) implies
                                    (self@, Some(EndView::RuntimeError(error@))) == #[trigger] exec_stmt(
                                        old(self)@,
                                        stmt,
                                        fuel as nat,
                                        answers(arithmetic),
                                        times,
                                    ) by {
                                    assert(eval(
                                        old(self)@,
                                        expression,
                                        budget as nat,
                                        answers(arithmetic),
                                        times,
                                    ) == (self@, Err::<ValueView, FailureView>(error@)));
                                }
                            }
                        }
                        Some(StatementResult::RuntimeError(error))
                    },
                }
            },
            Stmt::Function(function_decl) => {
                let function: Function<'ast> = Function::new(
                    function_decl,
                    self.environment,
                    false,
                );
                let id: usize = self.functions.len();
                self.functions.push(function);
                self.define(
                    to_bytes(function_decl.name.lexeme.as_slice()),
                    Some(Value::Function(id)),
                );
                None
            },
            Stmt::If(if_stmt) => {
                match self.evaluate(&if_stmt.condition, arithmetic, clock, budget) {
                    Ok(condition) => {
                        let ghost before = *self;
                        let res = if condition.is_truthy() {
                            self.execute(&if_stmt.then_branch, arithmetic, clock, budget)
                        } else {
                            match &if_stmt.else_branch {
                                Some(else_branch) => self.execute(
                                    else_branch,
                                    arithmetic,
                                    clock,
                                    budget,
                                ),
                                None => None,
                            }
                        };
                        proof {
                            Self::lemma_grown_trans(
                                old(self).scopes@,
                                before.scopes@,
                                self.scopes@,
                            );
                            if steady(arithmetic) {
                                assert forall|times: Seq<Number>|
                                    foretold(self.told@, times) implies
                                    (self@, ending(res)) == #[trigger] exec_stmt(
                                        old(self)@,
                                        stmt,
                                        fuel as nat,
                                        answers(arithmetic),
                                        times,
                                    ) by {
                                    assert(foretold(before.told@, times));
                                    assert(eval(
                                        old(self)@,
                                        &if_stmt.condition,
                                        budget as nat,
                                        answers(arithmetic),
                                        times,
                                    ) == (before@, Ok::<ValueView, FailureView>(condition@)));
                                    assert(condition@.truthy() ==> exec_stmt(
                                        before@,
                                        &*if_stmt.then_branch,
                                        budget as nat,
                                        answers(arithmetic),
                                        times,
                                    ) == (self@, ending(res)));
                                    assert(!condition@.truthy() ==> (if_stmt.else_branch matches Some(other) ==> exec_stmt(
                                        before@,
                                        &*other,
                                        budget as nat,
                                        answers(arithmetic),
                                        times,
                                    ) == (self@, ending(res))));
                                }
                            }
                        }
                        res
                    },
                    Err(error) => {
                        proof {
                            if steady(arithmetic) {
                                assert forall|times: Seq<Number>|
                                    foretold(self.told@, times) implies
                                    (self@, Some(EndView::RuntimeError(error@))) == #[trigger] exec_stmt(
                                        old(self)@,
                                        stmt,
                                        fuel as nat,
                                        answers(arithmetic),
                                        times,
                                    ) by {
                                    assert(eval(
                                        old(self)@,
                                        &if_stmt.condition,
                                        budget as nat,
                                        answers(arithmetic),
                                        times,
                                    ) == (self@, Err::<ValueView, FailureView>(error@)));
                                }
                            }
                        }
                        Some(StatementResult::RuntimeError(error))
                    },
                }
            },
            Stmt::Print(expression) => {
                match self.evaluate(expression, arithmetic, clock, budget) {
                    Ok(result) => {
                        let ghost before = *self;
                        let ghost vv = result@;
                        assert(values_view(self.output@.push(result)) =~= values_view(
                            self.output@,
                        ).push(result@));
                        self.output.push(result);
                        proof {
                            if steady(arithmetic) {
                                assert forall|times: Seq<Number>|
                                    foretold(self.told@, times) implies
                                    (self@, None::<EndView>) == #[trigger] exec_stmt(
                                        old(self)@,
                                        stmt,
                                        fuel as nat,
                                        answers(arithmetic),
                                        times,
                                    ) by {
                                    assert(foretold(before.told@, times));
                                    assert(eval(
                                        old(self)@,
                                        expression,
                                        budget as nat,
                                        answers(arithmetic),
                                        times,
                                    ) == (before@, Ok::<ValueView, FailureView>(vv)));
                                }
                            }
                        }
                        None
                    },
                    Err(error) => {
                        proof {
                            if steady(arithmetic) {
                                assert forall|times: Seq<Number>|
                                    foretold(self.told@, times) implies
                                    (self@, Some(EndView::RuntimeError(error@))) == #[trigger] exec_stmt(
                                        old(self)@,
                                        stmt,
                                        fuel as nat,
                                        answers(arithmetic),
                                        times,
                                    ) by {
                                    assert(eval(
                                        old(self)@,
                                        expression,
                                        budget as nat,
                                        answers(arithmetic),
                                        times,
                                    ) == (self@, Err::<ValueView, FailureView>(error@)));
                                }
                            }
                        }
                        Some(StatementResult::RuntimeError(error))
                    },
                }
            },
            Stmt::Return(ret) => {
                let value: Result<Value, Failure> = match &ret.value {
                    Some(expr) => self.evaluate(expr, arithmetic, clock, budget),
                    None => Ok(Value::nil()),
                };
                let ghost got = outcome(value);
                let res = match value {
                    Ok(value) => Some(StatementResult::Return(ReturnObject::new(value))),
                    Err(error) => Some(StatementResult::RuntimeError(error)),
                };
                proof {
                    if steady(arithmetic) {
                        assert forall|times: Seq<Number>| foretold(self.told@, times) implies
                            (self@, ending(res)) == #[trigger] exec_stmt(
                                old(self)@,
                                stmt,
                                fuel as nat,
                                answers(arithmetic),
                                times,
                            ) by {
                            assert(ret.value matches Some(given) ==> eval(
                                old(self)@,
                                &given,
                                budget as nat,
                                answers(arithmetic),
                                times,
                            ) == (self@, got));
                        }
                    }
                }
                res
            },
            Stmt::While(while_stmt) => {
                let res = self.visit_while(
                    &while_stmt.condition,
                    &while_stmt.body,
                    arithmetic,
                    clock,
                    budget,
                );
                proof {
                    if steady(arithmetic) {
                        assert forall|times: Seq<Number>| foretold(self.told@, times) implies
                            (self@, ending(res)) == #[trigger] exec_stmt(
                                old(self)@,
                                stmt,
                                fuel as nat,
                                answers(arithmetic),
                                times,
                            ) by {
                            assert(while_loop(
                                old(self)@,
                                &while_stmt.condition,
                                &*while_stmt.body,
                                budget as nat,
                                answers(arithmetic),
                                times,
                            ) == (self@, ending(res)));
                        }
                    }
                }
                res
            },
            Stmt::Declaration(declaration) => {
                let value: Option<Value> = match &declaration.initializer {
                    Some(expr) => match self.evaluate(expr, arithmetic, clock, budget) {
                        Ok(value) => Some(value),
                        Err(error) => {
                            proof {
                                if steady(arithmetic) {
                                    assert forall|times: Seq<Number>|
                                        foretold(self.told@, times) implies
                                        (self@, Some(EndView::RuntimeError(error@))) == #[trigger] exec_stmt(
                                            old(self)@,
                                            stmt,
                                            fuel as nat,
                                            answers(arithmetic),
                                            times,
                                        ) by {
                                        assert(eval(
                                            old(self)@,
                                            expr,
                                            budget as nat,
                                            answers(arithmetic),
                                            times,
                                        ) == (self@, Err::<ValueView, FailureView>(error@)));
                                    }
                                }
                            }
                            return Some(StatementResult::RuntimeError(error));
                        },
                    },
                    None => None,
                };
                let ghost before = *self;
                let ghost held = held_view(value);
                self.define(to_bytes(declaration.name.lexeme.as_slice()), value);
                proof {
                    Self::lemma_grown_trans(old(self).scopes@, before.scopes@, self.scopes@);
                    if steady(arithmetic) {
                        assert forall|times: Seq<Number>| foretold(self.told@, times) implies
                            (self@, None::<EndView>) == #[trigger] exec_stmt(
                                old(self)@,
                                stmt,
                                fuel as nat,
                                answers(arithmetic),
                                times,
                            ) by {
                            assert(foretold(before.told@, times));
                            assert(declaration.initializer matches Some(given) ==> held.is_some() && eval(
                                old(self)@,
                                &given,
                                budget as nat,
                                answers(arithmetic),
                                times,
                            ) == (before@, Ok::<ValueView, FailureView>(held.unwrap())));
                        }
                    }
                }
                None
            },
        }
    }

    /// Executes the body of a `while` statement for as long as its
    /// condition holds, for at most `rounds` rounds.
    #[verifier::rlimit(100)]
    fn visit_while<A: Fn(Opcode, Number, Number) -> Number, C: Fn() -> Number>(
        &mut self,
        condition: &'ast Expr,
        body: &'ast Stmt,
        arithmetic: &A,
        clock: &C,
        rounds: usize,
    ) -> (result: Option<StatementResult>)
        requires
            old(self).inv(),
            forall|op: Opcode, l: Number, r: Number| arithmetic.requires((op, l, r)),
            clock.requires(()),
        ensures
            final(self).stable(old(self)),
            steady(arithmetic) ==> forall|times: Seq<Number>|
                foretold(
                    final(self).told@,
                    times,
                ) ==> (final(self)@, ending(result)) == #[trigger] while_loop(
                old(self)@,
                condition,
                body,
                rounds as nat,
                answers(arithmetic),
                times,
            ),
        decreases rounds, 2nat,
    {
        let ghost sum = answers(arithmetic);
        let ghost start = self@;
        let mut left: usize = rounds;
        while left > 0
            invariant
                self.stable(old(self)),
                left <= rounds,
                start == old(self)@,
                sum == answers(arithmetic),
                forall|op: Opcode, l: Number, r: Number| arithmetic.requires((op, l, r)),
                clock.requires(()),
                steady(arithmetic) ==> forall|times: Seq<Number>|
                    foretold(self.told@, times) ==> while_loop(
                        self@,
                        condition,
                        body,
                        left as nat,
                        sum,
                        times,
                    ) == #[trigger] while_loop(
                        start,
                        condition,
                        body,
                        rounds as nat,
                        sum,
                        times,
                    ),
            decreases left,
        {
            left -= 1;
            let ghost before = *self;
            let holds: Value = match self.evaluate(condition, arithmetic, clock, left) {
                Ok(value) => value,
                Err(error) => {
                    proof {
                        Self::lemma_grown_trans(old(self).scopes@, before.scopes@, self.scopes@);
                        if steady(arithmetic) {
                            assert forall|times: Seq<Number>|
                                foretold(self.told@, times) implies (
                                self@,
                                Some(EndView::RuntimeError(error@)),
                            ) == #[trigger] while_loop(
                                start,
                                condition,
                                body,
                                rounds as nat,
                                sum,
                                times,
                            ) by {
                                assert(foretold(before.told@, times));
                                assert(while_loop(
                                    before@,
                                    condition,
                                    body,
                                    (left + 1) as nat,
                                    sum,
                                    times,
                                ) == while_loop(start, condition, body, rounds as nat, sum, times));
                                assert(eval(before@, condition, left as nat, sum, times) == (
                                    self@,
                                    Err::<ValueView, FailureView>(error@),
                                ));
                            }
                        }
                    }
                    return Some(StatementResult::RuntimeError(error));
                },
            };
            proof {
                Self::lemma_grown_trans(old(self).scopes@, before.scopes@, self.scopes@);
            }
            if !holds.is_truthy() {
                proof {
                    if steady(arithmetic) {
                        assert forall|times: Seq<Number>|
                            foretold(self.told@, times) implies (
                            self@,
                            None::<EndView>,
                        ) == #[trigger] while_loop(
                            start,
                            condition,
                            body,
                            rounds as nat,
                            sum,
                            times,
                        ) by {
                            assert(foretold(before.told@, times));
                            assert(while_loop(
                                before@,
                                condition,
                                body,
                                (left + 1) as nat,
                                sum,
                                times,
                            ) == while_loop(start, condition, body, rounds as nat, sum, times));
                            assert(eval(before@, condition, left as nat, sum, times) == (
                                self@,
                                Ok::<ValueView, FailureView>(holds@),
                            ));
                        }
                    }
                }
                return None;
            }
            let ghost middle = *self;
            let res = self.execute(body, arithmetic, clock, left);
            proof {
                Self::lemma_grown_trans(old(self).scopes@, middle.scopes@, self.scopes@);
                if steady(arithmetic) {
                    assert forall|times: Seq<Number>|
                        foretold(self.told@, times) implies (if ending(res).is_some() {
                            (self@, ending(res))
                        } else {
                            while_loop(self@, condition, body, left as nat, sum, times)
                        }) == #[trigger] while_loop(
                        start,
                        condition,
                        body,
                        rounds as nat,
                        sum,
                        times,
                    ) by {
                        assert(foretold(middle.told@, times));
                        assert(foretold(before.told@, times));
                        assert(while_loop(
                            before@,
                            condition,
                            body,
                            (left + 1) as nat,
                            sum,
                            times,
                        ) == while_loop(start, condition, body, rounds as nat, sum, times));
                        assert(eval(before@, condition, left as nat, sum, times) == (
                            middle@,
                            Ok::<ValueView, FailureView>(holds@),
                        ));
                        assert(exec_stmt(middle@, body, left as nat, sum, times) == (
                            self@,
                            ending(res),
                        ));
                    }
                }
            }
            match res {
                Some(result) => {
                    return Some(result);
                },
                None => {},
            }
        }
        Some(StatementResult::RuntimeError(Self::out_of_fuel()))
    }

    /// Executes statements in order, in the given scope where one is
    /// given, up to the first that does not simply end. Afterwards the
    /// interpreter is in the scope it was in.
    #[verifier::rlimit(100)]
    pub fn execute_block<A: Fn(Opcode, Number, Number) -> Number, C: Fn() -> Number>(
        &mut self,
        statements: &'ast Vec<Stmt>,
        environment: Option<Environment>,
        arithmetic: &A,
        clock: &C,
        fuel: usize,
    ) -> (result: Option<StatementResult>)
        requires
            old(self).inv(),
            environment matches Some(scope) ==> scope.within(&old(self).scopes),
            forall|op: Opcode, l: Number, r: Number| arithmetic.requires((op, l, r)),
            clock.requires(()),
        ensures
            final(self).stable(old(self)),
            steady(arithmetic) ==> forall|times: Seq<Number>|
                foretold(
                    final(self).told@,
                    times,
                ) ==> (final(self)@, ending(result)) == #[trigger] exec_block(
                old(self)@,
                statements@,
                scope_link(environment),
                fuel as nat,
                answers(arithmetic),
                times,
            ),
        decreases fuel,
    {
        if fuel == 0 {
            return Some(StatementResult::RuntimeError(Self::out_of_fuel()));
        }
        let budget: usize = fuel - 1;
        let outer: Environment = self.environment;
        match environment {
            Some(scope) => {
                self.environment = scope;
            },
            None => {},
        }
        let ghost inside = self.environment;
        let ghost start = self@;
        let mut i: usize = 0;
        while i < statements.len()
            invariant
                i <= statements@.len(),
                self.inv(),
                self.environment == inside,
                self.globals == old(self).globals,
                old(self).inv(),
                outer == old(self).environment,
                grown(old(self).scopes@, self.scopes@),
                fuel > 0,
                budget == fuel - 1,
                foretold(old(self).told@, self.told@),
                forall|op: Opcode, l: Number, r: Number| arithmetic.requires((op, l, r)),
                clock.requires(()),
                start == (match environment {
                    Some(scope) => Heap { environment: scope.head, ..old(self)@ },
                    None => old(self)@,
                }),
                steady(arithmetic) ==> forall|times: Seq<Number>|
                    foretold(self.told@, times) ==> exec_stmts(
                        self@,
                        statements@,
                        i as int,
                        budget as nat,
                        answers(arithmetic),
                        times,
                    ) == #[trigger] exec_stmts(
                        start,
                        statements@,
                        0,
                        budget as nat,
                        answers(arithmetic),
                        times,
                    ),
            decreases statements@.len() - i,
        {
            let ghost before = *self;
            let ghost at: int = i as int;
            let res = self.execute(&statements[i], arithmetic, clock, budget);
            let ghost ended = *self;
            let ghost how = ending(res);
            proof {
                Self::lemma_grown_trans(old(self).scopes@, before.scopes@, self.scopes@);
                if steady(arithmetic) {
                    assert forall|times: Seq<Number>|
                        foretold(ended.told@, times) implies (if how.is_some() {
                            (ended@, how)
                        } else {
                            exec_stmts(
                                ended@,
                                statements@,
                                at + 1,
                                budget as nat,
                                answers(arithmetic),
                                times,
                            )
                        }) == #[trigger] exec_stmts(
                            start,
                            statements@,
                            0,
                            budget as nat,
                            answers(arithmetic),
                            times,
                        ) by {
                        assert(foretold(before.told@, times));
                        assert(exec_stmts(
                            before@,
                            statements@,
                            at,
                            budget as nat,
                            answers(arithmetic),
                            times,
                        ) == exec_stmts(
                            start,
                            statements@,
                            0,
                            budget as nat,
                            answers(arithmetic),
                            times,
                        ));
                        assert(exec_stmt(
                            before@,
                            &statements@[at],
                            budget as nat,
                            answers(arithmetic),
                            times,
                        ) == (ended@, how));
                    }
                }
            }
            match res {
                Some(result) => {
                    self.environment = outer;
                    proof {
                        if steady(arithmetic) {
                            assert forall|times: Seq<Number>|
                                foretold(self.told@, times) implies
                                (self@, how) == #[trigger] exec_block(
                old(self)@,
                statements@,
                scope_link(environment),
                fuel as nat,
                answers(arithmetic),
                times,
            ) by {
                                assert(exec_stmts(
                                    start,
                                    statements@,
                                    0,
                                    budget as nat,
                                    answers(arithmetic),
                                    times,
                                ) == (ended@, how));
                                assert(self@ == (Heap {
                                    environment: old(self)@.environment,
                                    ..ended@
                                }));
                            }
                        }
                    }
                    return Some(result);
                },
                None => {},
            }
            i += 1;
        }
        let ghost ended = *self;
        self.environment = outer;
        proof {
            if steady(arithmetic) {
                assert forall|times: Seq<Number>|
                    foretold(self.told@, times) implies
                    (self@, None::<EndView>) == #[trigger] exec_block(
                old(self)@,
                statements@,
                scope_link(environment),
                fuel as nat,
                answers(arithmetic),
                times,
            ) by {
                    assert(exec_stmts(
                        start,
                        statements@,
                        0,
                        budget as nat,
                        answers(arithmetic),
                        times,
                    ) == exec_stmts(
                        ended@,
                        statements@,
                        statements@.len() as int,
                        budget as nat,
                        answers(arithmetic),
                        times,
                    ));
                    assert(self@ == (Heap { environment: old(self)@.environment, ..ended@ }));
                }
            }
        }
        None
    }

    /// What a unary operator makes of a value.
    pub fn handle_unary(token: &Token, value: Value) -> (result: Result<Value, Failure>)
        ensures
            outcome(result) == unary_result(token@, value@),
    {
        match token.token_type {
            TokenType::Minus => Self::handle_minus(token, value),
            TokenType::Bang => Self::handle_negate(token, value),
            _ => Err(
                Failure::Type(TypeError::new(token.clone(), "Unary can only be minus or bang")),
            ),
        }
    }

    /// What a binary operator makes of two values. Where the arithmetic
    /// gives one answer, the result is that of the language.
    pub fn handle_binary<A: Fn(Opcode, Number, Number) -> Number>(
        token: &Token,
        left: Value,
        right: Value,
        arithmetic: &A,
    ) -> (result: Result<Value, Failure>)
        requires
            forall|op: Opcode, l: Number, r: Number| arithmetic.requires((op, l, r)),
        ensures
            follows_plan(
                result,
                binary_plan(token.token_type.kind_of(), left@, right@),
                token@,
                arithmetic,
            ),
            steady(arithmetic) ==> outcome(result) == binary_result(
                token@,
                left@,
                right@,
                answers(arithmetic),
            ),
    {
        let result = match token.token_type {
            TokenType::Minus => Self::handle_arithmetic(
                token,
                Opcode::Sub,
                left,
                right,
                "Subtract requires two number operands",
                arithmetic,
            ),
            TokenType::Plus => Self::handle_add(token, left, right, arithmetic),
            TokenType::Slash => Self::handle_arithmetic(
                token,
                Opcode::Div,
                left,
                right,
                "Divide requires two number operands",
                arithmetic,
            ),
            TokenType::Star => Self::handle_arithmetic(
                token,
                Opcode::Mul,
                left,
                right,
                "Multiplication requires two number operands",
                arithmetic,
            ),
            TokenType::Greater => {
                match (Self::require_number(&left), Self::require_number(&right)) {
                    (Some(l), Some(r)) => Ok(Value::Literal(Literal::Bool(r.less_than(&l)))),
                    _ => Err(
                        Failure::Type(
                            TypeError::new(token.clone(), "Greater requires two number operands"),
                        ),
                    ),
                }
            },
            TokenType::GreaterEqual => {
                match (Self::require_number(&left), Self::require_number(&right)) {
                    (Some(l), Some(r)) => Ok(
                        Value::Literal(Literal::Bool(r.less_than(&l) || l.equals(&r))),
                    ),
                    _ => Err(
                        Failure::Type(
                            TypeError::new(token.clone(), "GEQ requires two number operands"),
                        ),
                    ),
                }
            },
            TokenType::Less => {
                match (Self::require_number(&left), Self::require_number(&right)) {
                    (Some(l), Some(r)) => Ok(Value::Literal(Literal::Bool(l.less_than(&r)))),
                    _ => Err(
                        Failure::Type(
                            TypeError::new(token.clone(), "LE requires two number operands"),
                        ),
                    ),
                }
            },
            TokenType::LessEqual => {
                match (Self::require_number(&left), Self::require_number(&right)) {
                    (Some(l), Some(r)) => Ok(
                        Value::Literal(Literal::Bool(l.less_than(&r) || l.equals(&r))),
                    ),
                    _ => Err(
                        Failure::Type(
                            TypeError::new(token.clone(), "LEQ requires two number operands"),
                        ),
                    ),
                }
            },
            TokenType::EqualEqual => Ok(Value::Literal(Literal::Bool(left.is_equal(&right)))),
            TokenType::BangEqual => Ok(Value::Literal(Literal::Bool(!left.is_equal(&right)))),
            _ => Err(
                Failure::Type(TypeError::new(token.clone(), "Wrong token for binary expression")),
            ),
        };
        proof {
            if steady(arithmetic) {
                match binary_plan(token.token_type.kind_of(), left@, right@) {
                    BinaryPlan::Arithmetic(op, l, r) => {
                        let n = result->Ok_0->Literal_0->Number_0;
                        lemma_answer(arithmetic, op, l, r, n);
                    },
                    _ => {},
                }
            }
        }
        result
    }

    fn handle_minus(token: &Token, value: Value) -> (result: Result<Value, Failure>)
        ensures
            outcome(result) == match value@ {
                ValueView::Literal(LiteralView::Number(n)) => Ok::<ValueView, FailureView>(
                    ValueView::Literal(LiteralView::Number(n.negated())),
                ),
                _ => Err::<ValueView, FailureView>(
                    crate::front::semantics::type_error(
                        token@,
                        "Minus unary only defined on numbers.",
                    ),
                ),
            },
    {
        match Self::require_number(&value) {
            Some(num) => Ok(Value::Literal(Literal::Number(num.negate()))),
            None => Err(
                Failure::Type(
                    TypeError::new(token.clone(), "Minus unary only defined on numbers."),
                ),
            ),
        }
    }

    fn handle_negate(_token: &Token, value: Value) -> (result: Result<Value, Failure>)
        ensures
            result matches Ok(v) && v@ == boolean(!value@.truthy()),
    {
        Ok(Value::Literal(Literal::Bool(!value.is_truthy())))
    }

    /// `-`, `*` or `/` on two values: the arithmetic's answer for two
    /// numbers, a type error with the message for anything else.
    fn handle_arithmetic<A: Fn(Opcode, Number, Number) -> Number>(
        token: &Token,
        op: Opcode,
        left: Value,
        right: Value,
        message: &'static str,
        arithmetic: &A,
    ) -> (result: Result<Value, Failure>)
        requires
            forall|op: Opcode, l: Number, r: Number| arithmetic.requires((op, l, r)),
        ensures
            match (left@, right@) {
                (
                    ValueView::Literal(LiteralView::Number(l)),
                    ValueView::Literal(LiteralView::Number(r)),
                ) => result matches Ok(Value::Literal(Literal::Number(n))) && arithmetic.ensures(
                    (op, l, r),
                    n,
                ),
                _ => result matches Err(Failure::Type(e)) && e.message == message && e.token@
                    == token@,
            },
    {
        match (Self::require_number(&left), Self::require_number(&right)) {
            (Some(l), Some(r)) => Ok(Value::Literal(Literal::Number(arithmetic(op, l, r)))),
            _ => Err(Failure::Type(TypeError::new(token.clone(), message))),
        }
    }

    fn handle_add<A: Fn(Opcode, Number, Number) -> Number>(
        token: &Token,
        left: Value,
        right: Value,
        arithmetic: &A,
    ) -> (result: Result<Value, Failure>)
        requires
            forall|op: Opcode, l: Number, r: Number| arithmetic.requires((op, l, r)),
        ensures
            follows_plan(result, binary_plan(Kind::Plus, left@, right@), token@, arithmetic),
    {
        match (Self::require_number(&left), Self::require_number(&right)) {
            (Some(l), Some(r)) => Ok(
                Value::Literal(Literal::Number(arithmetic(Opcode::Add, l, r))),
            ),
            _ => match (Self::require_string(&left), Self::require_string(&right)) {
                (Some(l), Some(r)) => Ok(
                    Value::Literal(Literal::String(concat_bytes(l.as_slice(), r.as_slice()))),
                ),
                _ => Err(
                    Failure::Type(
                        TypeError::new(token.clone(), "Two numbers or two strings required."),
                    ),
                ),
            },
        }
    }

    /// The number that a value is, if it is one.
    pub fn require_number(value: &Value) -> (number: Option<Number>)
        ensures
            number == match value@ {
                ValueView::Literal(LiteralView::Number(n)) => Some(n),
                _ => None,
            },
    {
        match value {
            Value::Literal(Literal::Number(num)) => Some(*num),
            _ => None,
        }
    }

    /// The string that a value is, if it is one.
    pub fn require_string(value: &Value) -> (string: Option<&Vec<u8>>)
        ensures
            match value@ {
                ValueView::Literal(LiteralView::String(s)) => string matches Some(held) && held@
                    == s,
                _ => string.is_none(),
            },
    {
        match value {
            Value::Literal(Literal::String(s)) => Some(s),
            _ => None,
        }
    }

    /// The value of a resolved variable. A variable without a depth is a
    /// fatal error.
    fn lookup_variable(&mut self, variable: &Variable) -> (result: Result<Value, Failure>)
        requires
            old(self).inv(),
        ensures
            *final(self) == *old(self),
            outcome(result) == old(self)@.lookup_variable(variable),
    {
        match variable.depth {
            Some(depth) => self.environment.get_at(&self.scopes, &variable.name, depth),
            None => Err(Self::fatal(&variable.name, "The resolver failed to resolve a lookup")),
        }
    }

    /// Gives a resolved variable a value.
    fn assign_variable(&mut self, variable: &Variable, value: &Value) -> (error: Option<Failure>)
        requires
            old(self).inv(),
        ensures
            final(self).stable(old(self)),
            (
                final(self)@,
                match error {
                    Some(e) => Some(e@),
                    None => None,
                },
            ) == old(self)@.assign_variable(variable, value@),
    {
        match variable.depth {
            Some(depth) => {
                let env: Environment = self.environment;
                let ghost before = self.scopes@;
                let error = env.assign_at(&mut self.scopes, &variable.name, value.clone(), depth);
                proof {
                    assert(grown(before, self.scopes@)) by {
                        crate::front::environment::lemma_lookup_bounds(
                            before,
                            crate::front::environment::ancestor_of(
                                before,
                                env.head,
                                depth as nat,
                            ),
                            variable.name.lexeme@,
                        );
                    }
                }
                error
            },
            None => Some(
                Self::fatal(&variable.name, "The resolver failed to resolve an assignment"),
            ),
        }
    }

    /// Whether a call gives as many arguments as the callee takes; the
    /// error says how many were expected and how many given.
    pub fn check_arity(token: &Token, expected: usize, actual: usize) -> (checked: Result<
        (),
        Failure,
    >)
        ensures
            checked.is_ok() <==> expected == actual,
            checked matches Err(e) ==> e@ == (FailureView::IncorrectArguments {
                token: token@,
                expected,
                actual,
            }),
    {
        if expected != actual {
            Err(
                Failure::IncorrectArguments(
                    IncorrectArgumentsError::new(token.clone(), expected, actual),
                ),
            )
        } else {
            Ok(())
        }
    }

    /// Calls a value with arguments: a built-in function, a function of
    /// the program, or a class. Anything else cannot be called.
    fn try_call<A: Fn(Opcode, Number, Number) -> Number, C: Fn() -> Number>(
        &mut self,
        token: &Token,
        callee: &Value,
        arguments: Vec<Value>,
        arithmetic: &A,
        clock: &C,
        fuel: usize,
    ) -> (result: Result<Value, Failure>)
        requires
            old(self).inv(),
            forall|op: Opcode, l: Number, r: Number| arithmetic.requires((op, l, r)),
            clock.requires(()),
        ensures
            final(self).stable(old(self)),
            steady(arithmetic) ==> forall|times: Seq<Number>|
                foretold(
                    final(self).told@,
                    times,
                ) ==> (final(self)@, outcome(result)) == #[trigger] crate::front::semantics::try_call(
                old(self)@,
                token@,
                callee@,
                values_view(arguments@),
                fuel as nat,
                answers(arithmetic),
                times,
            ),
        decreases fuel, 3nat,
    {
        let ghost given = values_view(arguments@);
        match callee {
            Value::Native(_) => {
                match Self::check_arity(token, 0, arguments.len()) {
                    Ok(()) => {
                        let now: Number = clock();
                        let ghost readings = self.told@.len();
                        self.told = Ghost(self.told@.push(now));
                        assert(self.told@[readings as int] == now);
                        let result = Clock::new().call(now);
                        proof {
                            if steady(arithmetic) {
                                assert forall|times: Seq<Number>|
                                    foretold(self.told@, times) implies
                                    (self@, Ok::<ValueView, FailureView>(result@)) == #[trigger] crate::front::semantics::try_call(
                old(self)@,
                token@,
                callee@,
                given,
                fuel as nat,
                answers(arithmetic),
                times,
            ) by {
                                    assert(self.told@[readings as int] == times[readings as int]);
                                    assert(self@.told =~= old(self)@.told.push(
                                        times[readings as int],
                                    ));
                                }
                            }
                        }
                        Ok(result)
                    },
                    Err(error) => Err(error),
                }
            },
            Value::Function(function) => {
                let result = self.call_function(
                    token,
                    *function,
                    arguments,
                    arithmetic,
                    clock,
                    fuel,
                );
                proof {
                    if steady(arithmetic) {
                        assert forall|times: Seq<Number>| foretold(self.told@, times) implies
                            (self@, outcome(result)) == #[trigger] crate::front::semantics::try_call(
                old(self)@,
                token@,
                callee@,
                given,
                fuel as nat,
                answers(arithmetic),
                times,
            ) by {
                            assert(crate::front::semantics::call_function(
                                old(self)@,
                                token@,
                                *function,
                                given,
                                fuel as nat,
                                answers(arithmetic),
                                times,
                            ) == (self@, outcome(result)));
                        }
                    }
                }
                result
            },
            Value::Class(class) => {
                let result = self.call_class(token, *class, arguments, arithmetic, clock, fuel);
                proof {
                    if steady(arithmetic) {
                        assert forall|times: Seq<Number>| foretold(self.told@, times) implies
                            (self@, outcome(result)) == #[trigger] crate::front::semantics::try_call(
                old(self)@,
                token@,
                callee@,
                given,
                fuel as nat,
                answers(arithmetic),
                times,
            ) by {
                            assert(crate::front::semantics::call_class(
                                old(self)@,
                                token@,
                                *class,
                                given,
                                fuel as nat,
                                answers(arithmetic),
                                times,
                            ) == (self@, outcome(result)));
                        }
                    }
                }
                result
            },
            _ => Err(
                Failure::Type(
                    TypeError::new(token.clone(), "Can only call functions and classes!"),
                ),
            ),
        }
    }

    /// Enters a call of a function: checks that there are as many
    /// arguments as parameters, and binds the parameters to the arguments
    /// in a new scope inside the scope the function was made in. A number of
    /// arguments that is not that of the parameters is an error, and
    /// nothing changes.
    pub fn enter_call(
        &mut self,
        token: &Token,
        function: usize,
        arguments: &Vec<Value>,
    ) -> (entered:
        Result<Environment, Failure>)
        requires
            old(self).inv(),
        ensures
            final(self).stable(old(self)),
            entered matches Ok(scope) ==> scope.within(&final(self).scopes),
            (
                final(self)@,
                match entered {
                    Ok(scope) => Ok::<crate::front::environment::Link, FailureView>(scope.head),
                    Err(error) => Err::<crate::front::environment::Link, FailureView>(error@),
                },
            ) == old(self)@.enter_call(token@, function, values_view(arguments@)),
    {
        if function >= self.functions.len() {
            return Err(Self::fatal(token, "No such function"));
        }
        let declaration: &'ast FunctionDecl = self.functions[function].declaration;
        let closure: Environment = self.functions[function].closure;
        match Self::check_arity(token, declaration.params.len(), arguments.len()) {
            Ok(()) => {},
            Err(error) => {
                return Err(error);
            },
        }
        let known: bool = match closure.head {
            Some(index) => index < self.scopes.len(),
            None => true,
        };
        if !known {
            return Err(Self::fatal(token, "The scope of the function is lost"));
        }
        let count: usize = self.scopes.len();
        let environment: Environment = self.extend(closure);
        let ghost given = values_view(arguments@);
        let mut i: usize = 0;
        while i < declaration.params.len()
            invariant
                i <= declaration.params@.len(),
                declaration.params@.len() == arguments@.len(),
                given == values_view(arguments@),
                self.stable(old(self)),
                environment.head == Some(count),
                count == old(self).scopes@.len(),
                self@ == old(self)@.with_scopes(self.scopes@),
                self.scopes@.len() == count + 1,
                forall|k: int| 0 <= k < count ==> self.scopes@[k] == old(self).scopes@[k],
                self.scopes@[count as int].parent == closure.head,
                self.scopes@[count as int].names.len() == i,
                self.scopes@[count as int].values.len() == i,
                forall|k: int|
                    0 <= k < i ==> self.scopes@[count as int].names[k]
                        == declaration.params@[k].lexeme@ && self.scopes@[count as int].values[k]
                        == (crate::front::environment::VariableView {
                        defined: true,
                        value: given[k],
                    }),
            decreases declaration.params@.len() - i,
        {
            let ghost before = *self;
            self.define_in(
                environment,
                to_bytes(declaration.params[i].lexeme.as_slice()),
                Some(arguments[i].clone()),
            );
            proof {
                Self::lemma_grown_trans(old(self).scopes@, before.scopes@, self.scopes@);
            }
            i += 1;
        }
        proof {
            let frame = crate::front::semantics::call_scope(
                declaration.params@,
                given,
                closure.head,
            );
            assert(self.scopes@[count as int].names =~= frame.names);
            assert(self.scopes@[count as int].values =~= frame.values);
            assert(self.scopes@ =~= old(self).scopes@.push(frame));
        }
        Ok(environment)
    }

    /// What a call gives, its body having ended as `ended`: an error of
    /// the body is the call's; a returned value is the call's, and `nil`
    /// where nothing was returned; an initializer gives the instance it is
    /// bound to, whatever it returns.
    pub fn finish_call(
        &self,
        token: &Token,
        ended: Option<StatementResult>,
        closure: Environment,
        is_initializer: bool,
    ) -> (result: Result<Value, Failure>)
        requires
            self.inv(),
        ensures
            outcome(result) == self@.finish_call(
                token@,
                ending(ended),
                closure.head,
                is_initializer,
            ),
    {
        match ended {
            Some(StatementResult::RuntimeError(error)) => Err(error),
            Some(StatementResult::Break) => Err(Self::fatal(token, "A break outside a loop")),
            Some(StatementResult::Return(object)) => {
                if is_initializer {
                    closure.get_at(&self.scopes, &Self::this_token(), 0)
                } else {
                    Ok(object.value)
                }
            },
            None => {
                if is_initializer {
                    closure.get_at(&self.scopes, &Self::this_token(), 0)
                } else {
                    Ok(Value::nil())
                }
            },
        }
    }

    /// Calls a function of the program: its body runs in the scope that
    /// entering the call made, and the call gives what finishing it makes
    /// of how the body ended.
    fn call_function<A: Fn(Opcode, Number, Number) -> Number, C: Fn() -> Number>(
        &mut self,
        token: &Token,
        function: usize,
        arguments: Vec<Value>,
        arithmetic: &A,
        clock: &C,
        fuel: usize,
    ) -> (result: Result<Value, Failure>)
        requires
            old(self).inv(),
            forall|op: Opcode, l: Number, r: Number| arithmetic.requires((op, l, r)),
            clock.requires(()),
        ensures
            final(self).stable(old(self)),
            steady(arithmetic) ==> forall|times: Seq<Number>|
                foretold(
                    final(self).told@,
                    times,
                ) ==> (final(self)@, outcome(result)) == #[trigger] crate::front::semantics::call_function(
                old(self)@,
                token@,
                function,
                values_view(arguments@),
                fuel as nat,
                answers(arithmetic),
                times,
            ),
        decreases fuel, 2nat,
    {
        let ghost given = values_view(arguments@);
        let environment: Environment = match self.enter_call(token, function, &arguments) {
            Ok(environment) => environment,
            Err(error) => {
                return Err(error);
            },
        };
        let declaration: &'ast FunctionDecl = self.functions[function].declaration;
        let closure: Environment = self.functions[function].closure;
        let is_initializer: bool = self.functions[function].is_initializer;
        if fuel == 0 {
            return Err(Self::out_of_fuel());
        }
        let budget: usize = fuel - 1;
        let ghost before = *self;
        let ended = self.execute_block(
            &declaration.body,
            Some(environment),
            arithmetic,
            clock,
            budget,
        );
        let ghost how = ending(ended);
        let result = self.finish_call(token, ended, closure, is_initializer);
        proof {
            Self::lemma_grown_trans(old(self).scopes@, before.scopes@, self.scopes@);
            if steady(arithmetic) {
                assert forall|times: Seq<Number>| foretold(self.told@, times) implies
                    (self@, outcome(result)) == #[trigger] crate::front::semantics::call_function(
                old(self)@,
                token@,
                function,
                given,
                fuel as nat,
                answers(arithmetic),
                times,
            ) by {
                    assert(foretold(before.told@, times));
                    assert(exec_block(
                        before@,
                        declaration.body@,
                        scope_link(Some(environment)),
                        budget as nat,
                        answers(arithmetic),
                        times,
                    ) == (self@, how));
                }
            }
        }
        result
    }

    /// The token under which an instance is bound in its methods.
    fn this_token() -> (token: Token)
        ensures
            token@ == crate::front::semantics::this_token(),
    {
        Token::new(TokenType::This, "this".as_bytes(), 0)
    }

    /// Calls a class: makes an instance, runs the initializer bound to it
    /// where the class has one, and gives the instance.
    fn call_class<A: Fn(Opcode, Number, Number) -> Number, C: Fn() -> Number>(
        &mut self,
        token: &Token,
        class: usize,
        arguments: Vec<Value>,
        arithmetic: &A,
        clock: &C,
        fuel: usize,
    ) -> (result: Result<Value, Failure>)
        requires
            old(self).inv(),
            forall|op: Opcode, l: Number, r: Number| arithmetic.requires((op, l, r)),
            clock.requires(()),
        ensures
            final(self).stable(old(self)),
            steady(arithmetic) ==> forall|times: Seq<Number>|
                foretold(
                    final(self).told@,
                    times,
                ) ==> (final(self)@, outcome(result)) == #[trigger] crate::front::semantics::call_class(
                old(self)@,
                token@,
                class,
                values_view(arguments@),
                fuel as nat,
                answers(arithmetic),
                times,
            ),
        decreases fuel, 2nat,
    {
        let ghost given = values_view(arguments@);
        if class >= self.classes.len() {
            return Err(Self::fatal(token, "No such class"));
        }
        assert(self@.classes[class as int] == self.classes@[class as int]@);
        let initializer: Option<usize> = Class::find_method(
            &self.classes,
            class,
            self.classes[class].name.as_slice(),
        );
        let instance: usize = self.instances.len();
        match initializer {
            Some(method) => {
                let bound: usize = match self.bind(method, Value::Instance(instance), token) {
                    Ok(bound) => bound,
                    Err(error) => {
                        return Err(error);
                    },
                };
                self.add_instance(class);
                if fuel == 0 {
                    return Err(Self::out_of_fuel());
                }
                let budget: usize = fuel - 1;
                let ghost before = *self;
                let called = self.call_function(token, bound, arguments, arithmetic, clock, budget);
                let ghost how = outcome(called);
                let result = match called {
                    Ok(_) => Ok(Value::Instance(instance)),
                    Err(error) => Err(error),
                };
                proof {
                    Self::lemma_grown_trans(old(self).scopes@, before.scopes@, self.scopes@);
                    if steady(arithmetic) {
                        assert forall|times: Seq<Number>| foretold(self.told@, times) implies
                            (self@, outcome(result)) == #[trigger] crate::front::semantics::call_class(
                old(self)@,
                token@,
                class,
                given,
                fuel as nat,
                answers(arithmetic),
                times,
            ) by {
                            assert(foretold(before.told@, times));
                            assert(crate::front::semantics::call_function(
                                before@,
                                token@,
                                bound,
                                given,
                                budget as nat,
                                answers(arithmetic),
                                times,
                            ) == (self@, how));
                        }
                    }
                }
                result
            },
            None => {
                match Self::check_arity(token, 0, arguments.len()) {
                    Ok(()) => {
                        self.add_instance(class);
                        Ok(Value::Instance(instance))
                    },
                    Err(error) => Err(error),
                }
            },
        }
    }

    /// Makes an instance of a class, without fields.
    fn add_instance(&mut self, class: usize)
        requires
            old(self).inv(),
        ensures
            final(self).stable(old(self)),
            final(self)@ == (Heap {
                instances: old(self)@.instances.push(
                    InstanceView { class, field_names: Seq::empty(), fields: Seq::empty() },
                ),
                ..old(self)@
            }),
    {
        let instance: Instance = Instance::new(class);
        assert(instances_view(self.instances@.push(instance)) =~= instances_view(
            self.instances@,
        ).push(instance@));
        self.instances.push(instance);
    }

    /// A method bound to an instance: a new function like the method, whose
    /// scope is a new one inside the method's own with `this` bound to the
    /// instance. The method itself stays as it is, for other instances.
    pub fn bind(&mut self, method: usize, instance: Value, token: &Token) -> (bound: Result<
        usize,
        Failure,
    >)
        requires
            old(self).inv(),
        ensures
            final(self).stable(old(self)),
            (
                final(self)@,
                match bound {
                    Ok(id) => Ok::<usize, FailureView>(id),
                    Err(error) => Err::<usize, FailureView>(error@),
                },
            ) == old(self)@.bind(method, instance@, token@),
    {
        if method >= self.functions.len() {
            return Err(Self::fatal(token, "No such function"));
        }
        let declaration: &'ast FunctionDecl = self.functions[method].declaration;
        let closure: Environment = self.functions[method].closure;
        let is_initializer: bool = self.functions[method].is_initializer;
        let known: bool = match closure.head {
            Some(index) => index < self.scopes.len(),
            None => true,
        };
        if !known {
            return Err(Self::fatal(token, "The scope of the method is lost"));
        }
        let count: usize = self.scopes.len();
        let ghost given = instance@;
        let environment: Environment = self.extend(closure);
        let ghost entered = *self;
        self.define_in(environment, str_bytes("this"), Some(instance));
        proof {
            Self::lemma_grown_trans(old(self).scopes@, entered.scopes@, self.scopes@);
            let frame = ScopeView {
                names: seq!["this".spec_bytes()],
                values: seq![
                    crate::front::environment::VariableView { defined: true, value: given },
                ],
                parent: closure.head,
            };
            assert(self.scopes@[count as int].names =~= frame.names);
            assert(self.scopes@[count as int].values =~= frame.values);
            assert(self.scopes@ =~= old(self).scopes@.push(frame));
        }
        let id: usize = self.functions.len();
        self.functions.push(Function::new(declaration, environment, is_initializer));
        Ok(id)
    }

    /// A property of an instance: a field, or else a method of its class
    /// or of the classes that it inherits from, bound to the instance.
    pub fn get_property(
        &mut self,
        instance: usize,
        name: &Token,
    ) -> (result: Result<Value, Failure>)
        requires
            old(self).inv(),
        ensures
            final(self).stable(old(self)),
            (final(self)@, outcome(result)) == old(self)@.get_property(instance, name@),
    {
        if instance >= self.instances.len() {
            return Err(Self::fatal(name, "No such instance"));
        }
        assert(self@.instances[instance as int] == self.instances@[instance as int]@);
        match self.instances[instance].get(name.lexeme.as_slice()) {
            Some(value) => {
                return Ok(value);
            },
            None => {},
        }
        let class: usize = self.instances[instance].class;
        match Class::find_method(&self.classes, class, name.lexeme.as_slice()) {
            Some(method) => {
                match self.bind(method, Value::Instance(instance), name) {
                    Ok(bound) => Ok(Value::Function(bound)),
                    Err(error) => Err(error),
                }
            },
            None => {
                let class_name: Vec<u8> = if class < self.classes.len() {
                    assert(self@.classes[class as int] == self.classes@[class as int]@);
                    let mut text: Vec<u8> = to_bytes(self.classes[class].name.as_slice());
                    crate::text::push_bytes(&mut text, " class instance".as_bytes());
                    text
                } else {
                    Vec::new()
                };
                assert(class_name@ =~= self@.class_label(class));
                Err(
                    Failure::UndefinedProperty(
                        UndefinedPropertyError::new(class_name, name.clone()),
                    ),
                )
            },
        }
    }

    /// `super.method`: the method as the superclass has it, bound to the
    /// instance that `this` stands for.
    fn visit_super(&mut self, keyword: &Variable, method: &Token) -> (result: Result<
        Value,
        Failure,
    >)
        requires
            old(self).inv(),
        ensures
            final(self).stable(old(self)),
            (final(self)@, outcome(result)) == old(self)@.visit_super(keyword, method@),
    {
        let depth: usize = match keyword.depth {
            Some(depth) => depth,
            None => {
                return Err(Self::fatal(&keyword.name, "The resolver failed to resolve 'super'"));
            },
        };
        let superclass: Value = match self.environment.get_at(
            &self.scopes,
            &keyword.name,
            depth,
        ) {
            Ok(value) => value,
            Err(error) => {
                return Err(error);
            },
        };
        if depth == 0 {
            return Err(Self::fatal(&keyword.name, "'super' is not inside a method"));
        }
        let object: Value = match self.environment.get_at(
            &self.scopes,
            &Self::this_token(),
            depth - 1,
        ) {
            Ok(value) => value,
            Err(error) => {
                return Err(error);
            },
        };
        match (superclass, object) {
            (Value::Class(class), Value::Instance(instance)) => {
                match Class::find_method(&self.classes, class, method.lexeme.as_slice()) {
                    Some(found) => {
                        match self.bind(found, Value::Instance(instance), method) {
                            Ok(bound) => Ok(Value::Function(bound)),
                            Err(error) => Err(error),
                        }
                    },
                    None => {
                        let class_name: Vec<u8> = if class < self.classes.len() {
                            assert(self@.classes[class as int] == self.classes@[class as int]@);
                            to_bytes(self.classes[class].name.as_slice())
                        } else {
                            Vec::new()
                        };
                        Err(
                            Failure::UndefinedProperty(
                                UndefinedPropertyError::new(class_name, method.clone()),
                            ),
                        )
                    },
                }
            },
            _ => Err(Self::fatal(&keyword.name, "'super' or 'this' is not what it should be")),
        }
    }

    /// Declares a class: its methods are made in the current scope, or,
    /// where the class inherits, in a scope inside it that binds `super`.
    #[verifier::rlimit(100)]
    fn visit_class(&mut self, class_decl: &'ast ClassDecl) -> (result: Option<StatementResult>)
        requires
            old(self).inv(),
        ensures
            final(self).stable(old(self)),
            (final(self)@, ending(result)) == crate::front::semantics::visit_class(
                old(self)@,
                class_decl,
            ),
    {
        let superclass: Option<usize> = match &class_decl.superclass {
            Some(variable) => {
                match self.lookup_variable(variable) {
                    Ok(Value::Class(class)) => Some(class),
                    Ok(_) => {
                        return Some(
                            StatementResult::RuntimeError(
                                Failure::Type(
                                    TypeError::new(
                                        variable.name.clone(),
                                        "Superclass must be a class",
                                    ),
                                ),
                            ),
                        );
                    },
                    Err(error) => {
                        return Some(StatementResult::RuntimeError(error));
                    },
                }
            },
            None => None,
        };
        self.define(to_bytes(class_decl.name.lexeme.as_slice()), None);
        let ghost declared_state = *self;
        let outer: Environment = self.environment;
        let scope: Environment = match superclass {
            Some(parent) => {
                let inner: Environment = self.extend(outer);
                let ghost entered = *self;
                self.define_in(inner, str_bytes("super"), Some(Value::Class(parent)));
                proof {
                    Self::lemma_grown_trans(declared_state.scopes@, entered.scopes@, self.scopes@);
                }
                inner
            },
            None => outer,
        };
        proof {
            Self::lemma_grown_trans(old(self).scopes@, declared_state.scopes@, self.scopes@);
        }
        let ghost scoped = self@;
        let mut method_names: Vec<Vec<u8>> = Vec::new();
        let mut methods: Vec<usize> = Vec::new();
        let mut i: usize = 0;
        assert(method_names@.map_values(|name: Vec<u8>| name@) =~= Seq::<Seq<u8>>::empty());
        while i < class_decl.methods.len()
            invariant
                i <= class_decl.methods@.len(),
                self.stable(old(self)),
                self@ == (Heap { functions: self.functions@, ..scoped }),
                (self.functions@, method_names@.map_values(|name: Vec<u8>| name@), methods@)
                    == made_methods(scoped.functions, class_decl, scope.head, i as nat),
            decreases class_decl.methods@.len() - i,
        {
            let method: &'ast FunctionDecl = &class_decl.methods[i];
            let is_initializer: bool = crate::text::bytes_eq(
                method.name.lexeme.as_slice(),
                class_decl.name.lexeme.as_slice(),
            );
            let id: usize = self.functions.len();
            let ghost names = method_names@.map_values(|name: Vec<u8>| name@);
            self.functions.push(Function::new(method, scope, is_initializer));
            method_names.push(to_bytes(method.name.lexeme.as_slice()));
            methods.push(id);
            assert(method_names@.map_values(|name: Vec<u8>| name@) =~= names.push(
                method.name.lexeme@,
            ));
            i += 1;
        }
        let class: Class = Class::new(
            to_bytes(class_decl.name.lexeme.as_slice()),
            superclass,
            method_names,
            methods,
        );
        let id: usize = self.classes.len();
        assert(classes_view(self.classes@.push(class)) =~= classes_view(self.classes@).push(
            class@,
        ));
        self.classes.push(class);
        let env: Environment = self.environment;
        let ghost frames = self.scopes@;
        let error = env.assign(&mut self.scopes, &class_decl.name, Value::Class(id));
        proof {
            assert(grown(frames, self.scopes@)) by {
                crate::front::environment::lemma_lookup_bounds(
                    frames,
                    env.head,
                    class_decl.name.lexeme@,
                );
            }
            Self::lemma_grown_trans(old(self).scopes@, frames, self.scopes@);
        }
        match error {
            Some(error) => Some(StatementResult::RuntimeError(error)),
            None => None,
        }
    }
}

} // verus!
