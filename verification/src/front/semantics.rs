//! What evaluating a program does, as functions on the interpreter's
//! state. Sums, differences, products and quotients of numbers are given by
//! a function `sum`, the times that the clock tells by a list `times`.
use crate::bytecode::number::Number;
use crate::bytecode::opcode::Opcode;
use crate::front::callables::Function;
use crate::front::environment::{
    ancestor_of, assigned, lookup, Link, ScopeView, VariableView,
};
use crate::front::errors::Failure;
use crate::front::expr::{Expr, Literal, LiteralView, Variable};
use crate::front::interpreter::{binary_plan, boolean, BinaryPlan};
use crate::front::scanner::eof_token;
use crate::front::stmt::{ClassDecl, Stmt};
use crate::front::token::{Token, TokenView};
use crate::front::token_type::{Kind, TokenType};
use crate::front::value::ValueView;
use vstd::prelude::*;
use vstd::string::StringSliceAdditionalSpecFns;

verus! {

/// What a runtime error says.
pub enum FailureView {
    Type { token: TokenView, message: Seq<char> },
    UndefinedVariable { token: TokenView },
    UndefinedProperty { class: Seq<u8>, property: TokenView },
    IncorrectArguments { token: TokenView, expected: usize, actual: usize },
    Fatal { token: TokenView, message: Seq<u8> },
    Composed { errors: Seq<FailureView> },
}

/// What a runtime error says.
pub open spec fn failure_view(failure: &Failure) -> FailureView
    decreases failure,
{
    match failure {
        Failure::Type(e) => FailureView::Type { token: e.token@, message: e.message@ },
        Failure::UndefinedVariable(e) => FailureView::UndefinedVariable { token: e.token@ },
        Failure::UndefinedProperty(e) => FailureView::UndefinedProperty {
            class: e.instance_class@,
            property: e.property@,
        },
        Failure::IncorrectArguments(e) => FailureView::IncorrectArguments {
            token: e.token@,
            expected: e.expected_num,
            actual: e.actual_num,
        },
        Failure::Fatal(e) => FailureView::Fatal { token: e.token@, message: e.message@ },
        Failure::Composed(e) => FailureView::Composed {
            errors: Seq::new(
                e.errors@.len(),
                |i: int|
                    if 0 <= i < e.errors@.len() {
                        failure_view(&e.errors@[i])
                    } else {
                        FailureView::Composed { errors: Seq::empty() }
                    },
            ),
        },
    }
}

impl View for Failure {
    type V = FailureView;

    open spec fn view(&self) -> FailureView {
        failure_view(self)
    }
}

/// How a statement ended, where it did not simply end.
pub enum EndView {
    RuntimeError(FailureView),
    Return(ValueView),
    Break,
}

/// What a class is.
pub struct ClassView {
    pub name: Seq<u8>,
    pub method_names: Seq<Seq<u8>>,
    pub methods: Seq<usize>,
    pub superclass: Option<usize>,
}

/// What an instance is.
pub struct InstanceView {
    pub class: usize,
    pub field_names: Seq<Seq<u8>>,
    pub fields: Seq<ValueView>,
}

/// The state of the interpreter.
pub struct Heap<'ast> {
    pub scopes: Seq<ScopeView>,
    pub functions: Seq<Function<'ast>>,
    pub classes: Seq<ClassView>,
    pub instances: Seq<InstanceView>,
    pub globals: Link,
    pub environment: Link,
    pub output: Seq<ValueView>,
    /// The times that the clock has told so far, in their order.
    pub told: Seq<Number>,
}

pub type Evaluated<'ast> = (Heap<'ast>, Result<ValueView, FailureView>);

pub type Executed<'ast> = (Heap<'ast>, Option<EndView>);

pub open spec fn nil() -> ValueView {
    ValueView::Literal(LiteralView::Nil)
}

pub open spec fn fatal(token: TokenView, message: &str) -> FailureView {
    FailureView::Fatal { token, message: message.spec_bytes() }
}

pub open spec fn type_error(token: TokenView, message: &str) -> FailureView {
    FailureView::Type { token, message: message@ }
}

/// The error of an evaluation that has used up its steps.
pub open spec fn out_of_fuel() -> FailureView {
    fatal(eof_token(), "Evaluation ran out of steps")
}

/// The token under which an instance is bound in its methods.
pub open spec fn this_token() -> TokenView {
    TokenView { token_type: TokenType::This, lexeme: "this".spec_bytes(), line: 0 }
}

/// Whether a link leads to a scope.
pub open spec fn within(scopes: Seq<ScopeView>, head: Link) -> bool {
    head matches Some(index) && index < scopes.len()
}

/// The scopes with a variable declared in the scope of a link.
pub open spec fn declared(
    scopes: Seq<ScopeView>,
    head: Link,
    name: Seq<u8>,
    value: Option<ValueView>,
) -> Seq<ScopeView> {
    if within(scopes, head) {
        let index = head.unwrap() as int;
        scopes.update(
            index,
            ScopeView {
                names: scopes[index].names.push(name),
                values: scopes[index].values.push(
                    match value {
                        Some(v) => VariableView { defined: true, value: v },
                        None => VariableView { defined: false, value: nil() },
                    },
                ),
                parent: scopes[index].parent,
            },
        )
    } else {
        scopes
    }
}

/// The value of a name looked up from a link outwards.
pub open spec fn value_of(scopes: Seq<ScopeView>, head: Link, token: TokenView) -> Result<
    ValueView,
    FailureView,
> {
    match lookup(scopes, head, token.lexeme) {
        Some((index, slot)) => if scopes[index].values[slot].defined {
            Ok(scopes[index].values[slot].value)
        } else {
            Err(FailureView::UndefinedVariable { token })
        },
        None => Err(FailureView::UndefinedVariable { token }),
    }
}

/// The value of a name looked up from the scope `depth` scopes around a
/// link.
pub open spec fn value_at(scopes: Seq<ScopeView>, head: Link, token: TokenView, depth: usize) -> Result<
    ValueView,
    FailureView,
> {
    match ancestor_of(scopes, head, depth as nat) {
        None => Err(fatal(token, "Variable resolved to a scope beyond the outermost one")),
        Some(start) => value_of(scopes, Some(start), token),
    }
}

/// Assigning to a name looked up from a link outwards.
pub open spec fn assign_to(
    scopes: Seq<ScopeView>,
    head: Link,
    token: TokenView,
    value: ValueView,
) -> (Seq<ScopeView>, Option<FailureView>) {
    match lookup(scopes, head, token.lexeme) {
        Some((index, slot)) => (assigned(scopes, index, slot, value), None),
        None => (scopes, Some(FailureView::UndefinedVariable { token })),
    }
}

/// Assigning to a name looked up from the scope `depth` scopes around a
/// link.
pub open spec fn assign_at(
    scopes: Seq<ScopeView>,
    head: Link,
    token: TokenView,
    value: ValueView,
    depth: usize,
) -> (Seq<ScopeView>, Option<FailureView>) {
    match ancestor_of(scopes, head, depth as nat) {
        None => (
            scopes,
            Some(fatal(token, "Variable resolved to a scope beyond the outermost one")),
        ),
        Some(start) => assign_to(scopes, Some(start), token, value),
    }
}

/// The last function that names list under a name.
pub open spec fn own_method(names: Seq<Seq<u8>>, methods: Seq<usize>, name: Seq<u8>) -> Option<
    usize,
>
    decreases names.len(),
{
    if names.len() == 0 || names.len() != methods.len() {
        None
    } else if names.last() == name {
        Some(methods.last())
    } else {
        own_method(names.drop_last(), methods.drop_last(), name)
    }
}

/// The method that a name stands for in a class: the class's own, or else
/// that of the classes it inherits from, through at most `limit` classes.
pub open spec fn find_method(classes: Seq<ClassView>, class: int, name: Seq<u8>, limit: nat) -> Option<
    usize,
>
    decreases limit,
{
    if limit == 0 || class < 0 || class >= classes.len() {
        None
    } else {
        match own_method(classes[class].method_names, classes[class].methods, name) {
            Some(method) => Some(method),
            None => match classes[class].superclass {
                Some(parent) => find_method(classes, parent as int, name, (limit - 1) as nat),
                None => None,
            },
        }
    }
}

/// The value of the last field of a name.
pub open spec fn field(names: Seq<Seq<u8>>, fields: Seq<ValueView>, name: Seq<u8>) -> Option<
    ValueView,
>
    decreases names.len(),
{
    if names.len() == 0 || names.len() != fields.len() {
        None
    } else if names.last() == name {
        Some(fields.last())
    } else {
        field(names.drop_last(), fields.drop_last(), name)
    }
}

/// The scope that a call binds its parameters in: each of the first
/// `count` parameters with its argument.
pub open spec fn call_scope(
    parameters: Seq<Token>,
    arguments: Seq<ValueView>,
    parent: Link,
) -> ScopeView {
    ScopeView {
        names: Seq::new(arguments.len(), |i: int| parameters[i].lexeme@),
        values: Seq::new(
            arguments.len(),
            |i: int| VariableView { defined: true, value: arguments[i] },
        ),
        parent,
    }
}

impl<'ast> Heap<'ast> {
    pub open spec fn with_scopes(self, scopes: Seq<ScopeView>) -> Heap<'ast> {
        Heap { scopes, ..self }
    }

    /// Declares a variable in the current scope.
    pub open spec fn define(self, name: Seq<u8>, value: Option<ValueView>) -> Heap<'ast> {
        self.with_scopes(declared(self.scopes, self.environment, name, value))
    }

    /// A new scope inside the scope of a link, and the link to it.
    pub open spec fn extend(self, parent: Link) -> (Heap<'ast>, Link) {
        (
            self.with_scopes(
                self.scopes.push(
                    ScopeView { names: Seq::empty(), values: Seq::empty(), parent },
                ),
            ),
            Some(self.scopes.len() as usize),
        )
    }

    /// Whether the scope of a link is known: there is none, or it is among
    /// the scopes.
    pub open spec fn knows(self, head: Link) -> bool {
        head.is_none() || within(self.scopes, head)
    }

    /// A method bound to an instance: a new function like the method whose
    /// scope is a new one, inside the method's own, that binds `this`.
    pub open spec fn bind(self, method: usize, instance: ValueView, token: TokenView) -> (
        Heap<'ast>,
        Result<usize, FailureView>,
    ) {
        if method >= self.functions.len() {
            (self, Err(fatal(token, "No such function")))
        } else if !self.knows(self.functions[method as int].closure.head) {
            (self, Err(fatal(token, "The scope of the method is lost")))
        } else {
            let function = self.functions[method as int];
            (
                Heap {
                    scopes: self.scopes.push(
                        ScopeView {
                            names: seq!["this".spec_bytes()],
                            values: seq![VariableView { defined: true, value: instance }],
                            parent: function.closure.head,
                        },
                    ),
                    functions: self.functions.push(
                        Function {
                            declaration: function.declaration,
                            closure: crate::front::environment::Environment {
                                head: Some(self.scopes.len() as usize),
                            },
                            is_initializer: function.is_initializer,
                        },
                    ),
                    ..self
                },
                Ok(self.functions.len() as usize),
            )
        }
    }

    /// Entering a call of a function: the arguments are bound to the
    /// parameters in a new scope inside the function's own.
    pub open spec fn enter_call(self, token: TokenView, function: usize, arguments: Seq<ValueView>) -> (
        Heap<'ast>,
        Result<Link, FailureView>,
    ) {
        if function >= self.functions.len() {
            (self, Err(fatal(token, "No such function")))
        } else {
            let called = self.functions[function as int];
            if called.declaration.params@.len() != arguments.len() {
                (
                    self,
                    Err(
                        FailureView::IncorrectArguments {
                            token,
                            expected: called.declaration.params@.len() as usize,
                            actual: arguments.len() as usize,
                        },
                    ),
                )
            } else if !self.knows(called.closure.head) {
                (self, Err(fatal(token, "The scope of the function is lost")))
            } else {
                (
                    self.with_scopes(
                        self.scopes.push(
                            call_scope(called.declaration.params@, arguments, called.closure.head),
                        ),
                    ),
                    Ok(Some(self.scopes.len() as usize)),
                )
            }
        }
    }

    /// What a call gives, its body having ended as `ended`.
    pub open spec fn finish_call(
        self,
        token: TokenView,
        ended: Option<EndView>,
        closure: Link,
        is_initializer: bool,
    ) -> Result<ValueView, FailureView> {
        match ended {
            Some(EndView::RuntimeError(error)) => Err(error),
            Some(EndView::Break) => Err(fatal(token, "A break outside a loop")),
            Some(EndView::Return(value)) => if is_initializer {
                value_at(self.scopes, closure, this_token(), 0)
            } else {
                Ok(value)
            },
            None => if is_initializer {
                value_at(self.scopes, closure, this_token(), 0)
            } else {
                Ok(nil())
            },
        }
    }

    /// The name of the class of an instance, as errors show it.
    pub open spec fn class_label(self, class: usize) -> Seq<u8> {
        if class < self.classes.len() {
            self.classes[class as int].name + " class instance".spec_bytes()
        } else {
            Seq::empty()
        }
    }

    /// A property of an instance: a field, or else a method of its class or
    /// of the classes that it inherits from, bound to the instance.
    pub open spec fn get_property(self, instance: usize, name: TokenView) -> Evaluated<'ast> {
        if instance >= self.instances.len() {
            (self, Err(fatal(name, "No such instance")))
        } else {
            let held = self.instances[instance as int];
            match field(held.field_names, held.fields, name.lexeme) {
                Some(value) => (self, Ok(value)),
                None => match find_method(
                    self.classes,
                    held.class as int,
                    name.lexeme,
                    self.classes.len(),
                ) {
                    Some(method) => {
                        let (bound, made) = self.bind(method, ValueView::Instance(instance), name);
                        match made {
                            Ok(id) => (bound, Ok(ValueView::Function(id))),
                            Err(error) => (bound, Err(error)),
                        }
                    },
                    None => (
                        self,
                        Err(
                            FailureView::UndefinedProperty {
                                class: self.class_label(held.class),
                                property: name,
                            },
                        ),
                    ),
                },
            }
        }
    }

    /// `super.method`: the method as the superclass has it, bound to the
    /// instance that `this` stands for.
    pub open spec fn visit_super(self, keyword: &Variable, method: TokenView) -> Evaluated<'ast> {
        match keyword.depth {
            None => (self, Err(fatal(keyword.name@, "The resolver failed to resolve 'super'"))),
            Some(depth) => match value_at(self.scopes, self.environment, keyword.name@, depth) {
                Err(error) => (self, Err(error)),
                Ok(superclass) => if depth == 0 {
                    (self, Err(fatal(keyword.name@, "'super' is not inside a method")))
                } else {
                    match value_at(
                        self.scopes,
                        self.environment,
                        this_token(),
                        (depth - 1) as usize,
                    ) {
                        Err(error) => (self, Err(error)),
                        Ok(object) => match (superclass, object) {
                            (ValueView::Class(class), ValueView::Instance(instance)) => match find_method(
                                self.classes,
                                class as int,
                                method.lexeme,
                                self.classes.len(),
                            ) {
                                Some(found) => {
                                    let (bound, made) = self.bind(
                                        found,
                                        ValueView::Instance(instance),
                                        method,
                                    );
                                    match made {
                                        Ok(id) => (bound, Ok(ValueView::Function(id))),
                                        Err(error) => (bound, Err(error)),
                                    }
                                },
                                None => (
                                    self,
                                    Err(
                                        FailureView::UndefinedProperty {
                                            class: if class < self.classes.len() {
                                                self.classes[class as int].name
                                            } else {
                                                Seq::empty()
                                            },
                                            property: method,
                                        },
                                    ),
                                ),
                            },
                            _ => (
                                self,
                                Err(
                                    fatal(
                                        keyword.name@,
                                        "'super' or 'this' is not what it should be",
                                    ),
                                ),
                            ),
                        },
                    }
                },
            },
        }
    }

    /// The value of a resolved variable.
    pub open spec fn lookup_variable(self, variable: &Variable) -> Result<ValueView, FailureView> {
        match variable.depth {
            Some(depth) => value_at(self.scopes, self.environment, variable.name@, depth),
            None => Err(fatal(variable.name@, "The resolver failed to resolve a lookup")),
        }
    }

    /// Giving a resolved variable a value.
    pub open spec fn assign_variable(self, variable: &Variable, value: ValueView) -> (
        Heap<'ast>,
        Option<FailureView>,
    ) {
        match variable.depth {
            Some(depth) => {
                let (scopes, error) = assign_at(
                    self.scopes,
                    self.environment,
                    variable.name@,
                    value,
                    depth,
                );
                (self.with_scopes(scopes), error)
            },
            None => (
                self,
                Some(fatal(variable.name@, "The resolver failed to resolve an assignment")),
            ),
        }
    }

    /// Whether the current scope has no scope around it.
    pub open spec fn is_global(self) -> bool {
        within(self.scopes, self.environment) && self.scopes[self.environment.unwrap() as int].parent.is_none()
    }
}

/// What a binary operator makes of two values.
pub open spec fn binary_result(
    token: TokenView,
    left: ValueView,
    right: ValueView,
    sum: spec_fn(Opcode, Number, Number) -> Number,
) -> Result<ValueView, FailureView> {
    match binary_plan(token.token_type.kind_of(), left, right) {
        BinaryPlan::Value(value) => Ok(value),
        BinaryPlan::Arithmetic(op, l, r) => Ok(
            ValueView::Literal(LiteralView::Number(sum(op, l, r))),
        ),
        BinaryPlan::TypeError(message) => Err(type_error(token, message)),
    }
}

/// What a unary operator makes of a value.
pub open spec fn unary_result(token: TokenView, value: ValueView) -> Result<
    ValueView,
    FailureView,
> {
    match token.token_type.kind_of() {
        Kind::Minus => match value {
            ValueView::Literal(LiteralView::Number(n)) => Ok(
                ValueView::Literal(LiteralView::Number(n.negated())),
            ),
            _ => Err(type_error(token, "Minus unary only defined on numbers.")),
        },
        Kind::Bang => Ok(boolean(!value.truthy())),
        _ => Err(type_error(token, "Unary can only be minus or bang")),
    }
}

/// The functions with one made for each of the first `count` methods of a
/// class declaration, in the scope of the link, and the names and places
/// under which the class lists them.
pub open spec fn made_methods<'ast>(
    functions: Seq<Function<'ast>>,
    class_decl: &'ast ClassDecl,
    scope: Link,
    count: nat,
) -> (Seq<Function<'ast>>, Seq<Seq<u8>>, Seq<usize>)
    decreases count,
{
    if count == 0 || count > class_decl.methods@.len() {
        (functions, Seq::empty(), Seq::empty())
    } else {
        let (made, names, places) = made_methods(functions, class_decl, scope, (count - 1) as nat);
        let method = &class_decl.methods@[count - 1];
        (
            made.push(
                Function {
                    declaration: method,
                    closure: crate::front::environment::Environment { head: scope },
                    is_initializer: method.name.lexeme@ == class_decl.name.lexeme@,
                },
            ),
            names.push(method.name.lexeme@),
            places.push(made.len() as usize),
        )
    }
}

/// Declaring a class: the superclass is looked up; the name is declared;
/// the methods are made in the current scope, or, where the class
/// inherits, in a new scope that binds `super`; the class is made and
/// the name bound to it.
pub open spec fn visit_class<'ast>(h: Heap<'ast>, class_decl: &'ast ClassDecl) -> Executed<'ast> {
    let superclass: Result<Option<usize>, FailureView> = match class_decl.superclass {
        Some(variable) => match h.lookup_variable(&*variable) {
            Ok(ValueView::Class(class)) => Ok(Some(class)),
            Ok(_) => Err(type_error(variable.name@, "Superclass must be a class")),
            Err(error) => Err(error),
        },
        None => Ok(None),
    };
    match superclass {
        Err(error) => (h, Some(EndView::RuntimeError(error))),
        Ok(parent) => {
            let named = h.define(class_decl.name.lexeme@, None);
            let (scoped, scope) = match parent {
                Some(class) => {
                    let (inner, link) = named.extend(named.environment);
                    (
                        inner.with_scopes(
                            declared(
                                inner.scopes,
                                link,
                                "super".spec_bytes(),
                                Some(ValueView::Class(class)),
                            ),
                        ),
                        link,
                    )
                },
                None => (named, named.environment),
            };
            let (functions, names, places) = made_methods(
                scoped.functions,
                class_decl,
                scope,
                class_decl.methods@.len(),
            );
            let class = ClassView {
                name: class_decl.name.lexeme@,
                method_names: names,
                methods: places,
                superclass: parent,
            };
            let made = Heap { functions, classes: scoped.classes.push(class), ..scoped };
            let (scopes, error) = assign_to(
                made.scopes,
                made.environment,
                class_decl.name@,
                ValueView::Class(scoped.classes.len() as usize),
            );
            (
                made.with_scopes(scopes),
                match error {
                    Some(e) => Some(EndView::RuntimeError(e)),
                    None => None,
                },
            )
        },
    }
}

/// Evaluating an expression with `fuel` steps granted.
pub open spec fn eval<'ast>(
    h: Heap<'ast>,
    expr: &'ast Expr,
    fuel: nat,
    sum: spec_fn(Opcode, Number, Number) -> Number,
    times: Seq<Number>,
) -> Evaluated<'ast>
    decreases fuel, 0nat,
{
    if fuel == 0 {
        (h, Err(out_of_fuel()))
    } else {
        let budget = (fuel - 1) as nat;
        match expr {
            Expr::Assign(assign) => {
                let (h1, value) = eval(h, &*assign.value, budget, sum, times);
                match value {
                    Err(error) => (h1, Err(error)),
                    Ok(v) => {
                        let (h2, error) = h1.assign_variable(&*assign.variable, v);
                        match error {
                            Some(e) => (h2, Err(e)),
                            None => (h2, Ok(v)),
                        }
                    },
                }
            },
            Expr::Binary(binary) => {
                let (h1, left) = eval(h, &*binary.left, budget, sum, times);
                match left {
                    Err(error) => (h1, Err(error)),
                    Ok(l) => {
                        let (h2, right) = eval(h1, &*binary.right, budget, sum, times);
                        match right {
                            Err(error) => (h2, Err(error)),
                            Ok(r) => (h2, binary_result(binary.operator@, l, r, sum)),
                        }
                    },
                }
            },
            Expr::Call(call) => {
                let (h1, callee) = eval(h, &*call.callee, budget, sum, times);
                match callee {
                    Err(error) => (h1, Err(error)),
                    Ok(called) => {
                        let (h2, arguments) = eval_args(
                            h1,
                            call.arguments@,
                            call.arguments@.len(),
                            budget,
                            sum,
                            times,
                        );
                        match arguments {
                            Err(error) => (h2, Err(error)),
                            Ok(values) => try_call(
                                h2,
                                call.paren@,
                                called,
                                values,
                                budget,
                                sum,
                                times,
                            ),
                        }
                    },
                }
            },
            Expr::Get(get) => {
                let (h1, object) = eval(h, &*get.object, budget, sum, times);
                match object {
                    Err(error) => (h1, Err(error)),
                    Ok(ValueView::Instance(instance)) => h1.get_property(instance, get.name@),
                    Ok(_) => (h1, Err(type_error(get.name@, "Only instances have properties"))),
                }
            },
            Expr::Grouping(grouping) => eval(h, &*grouping.expression, budget, sum, times),
            Expr::Literal(literal) => (h, Ok(ValueView::Literal(literal@))),
            Expr::Logical(logical) => {
                let (h1, left) = eval(h, &*logical.left, budget, sum, times);
                match left {
                    Err(error) => (h1, Err(error)),
                    Ok(l) => {
                        let decided = match logical.operator.token_type {
                            TokenType::Or => l.truthy(),
                            TokenType::And => !l.truthy(),
                            _ => false,
                        };
                        if decided {
                            (h1, Ok(l))
                        } else {
                            eval(h1, &*logical.right, budget, sum, times)
                        }
                    },
                }
            },
            Expr::Unary(unary) => {
                let (h1, right) = eval(h, &*unary.right, budget, sum, times);
                match right {
                    Err(error) => (h1, Err(error)),
                    Ok(r) => (h1, unary_result(unary.operator@, r)),
                }
            },
            Expr::SetExpr(set) => {
                let (h1, object) = eval(h, &*set.object, budget, sum, times);
                match object {
                    Err(error) => (h1, Err(error)),
                    Ok(ValueView::Instance(instance)) => {
                        let (h2, value) = eval(h1, &*set.value, budget, sum, times);
                        match value {
                            Err(error) => (h2, Err(error)),
                            Ok(v) => if instance < h2.instances.len() {
                                let held = h2.instances[instance as int];
                                (
                                    Heap {
                                        instances: h2.instances.update(
                                            instance as int,
                                            InstanceView {
                                                field_names: held.field_names.push(set.name.lexeme@),
                                                fields: held.fields.push(v),
                                                ..held
                                            },
                                        ),
                                        ..h2
                                    },
                                    Ok(v),
                                )
                            } else {
                                (h2, Err(fatal(set.name@, "No such instance")))
                            },
                        }
                    },
                    Ok(_) => (h1, Err(type_error(set.name@, "Only instances have fields"))),
                }
            },
            Expr::Super(super_expr) => h.visit_super(&*super_expr.keyword, super_expr.method@),
            Expr::Ternary(ternary) => {
                let (h1, condition) = eval(h, &*ternary.condition, budget, sum, times);
                match condition {
                    Err(error) => (h1, Err(error)),
                    Ok(c) => if c.truthy() {
                        eval(h1, &*ternary.true_branch, budget, sum, times)
                    } else {
                        eval(h1, &*ternary.false_branch, budget, sum, times)
                    },
                }
            },
            Expr::This(this) => (h, h.lookup_variable(&*this.variable)),
            Expr::Variable(variable) => (h, h.lookup_variable(variable)),
        }
    }
}

/// Evaluating the first `count` arguments of a call, in order, up to the
/// first that fails.
pub open spec fn eval_args<'ast>(
    h: Heap<'ast>,
    arguments: Seq<Expr>,
    count: nat,
    fuel: nat,
    sum: spec_fn(Opcode, Number, Number) -> Number,
    times: Seq<Number>,
) -> (Heap<'ast>, Result<Seq<ValueView>, FailureView>)
    decreases fuel, 1 + count,
{
    if count == 0 || count > arguments.len() {
        (h, Ok(Seq::empty()))
    } else {
        let (h1, done) = eval_args(h, arguments, (count - 1) as nat, fuel, sum, times);
        match done {
            Err(error) => (h1, Err(error)),
            Ok(values) => {
                let (h2, next) = eval(h1, &arguments[count - 1], fuel, sum, times);
                match next {
                    Err(error) => (h2, Err(error)),
                    Ok(value) => (h2, Ok(values.push(value))),
                }
            },
        }
    }
}

/// Calling a value with arguments.
pub open spec fn try_call<'ast>(
    h: Heap<'ast>,
    token: TokenView,
    callee: ValueView,
    arguments: Seq<ValueView>,
    fuel: nat,
    sum: spec_fn(Opcode, Number, Number) -> Number,
    times: Seq<Number>,
) -> Evaluated<'ast>
    decreases fuel, 3nat,
{
    match callee {
        ValueView::Native(_) => if arguments.len() == 0 {
            (
                Heap { told: h.told.push(times[h.told.len() as int]), ..h },
                Ok(ValueView::Literal(LiteralView::Number(times[h.told.len() as int]))),
            )
        } else {
            (
                h,
                Err(
                    FailureView::IncorrectArguments {
                        token,
                        expected: 0,
                        actual: arguments.len() as usize,
                    },
                ),
            )
        },
        ValueView::Function(function) => call_function(
            h,
            token,
            function,
            arguments,
            fuel,
            sum,
            times,
        ),
        ValueView::Class(class) => call_class(h, token, class, arguments, fuel, sum, times),
        _ => (h, Err(type_error(token, "Can only call functions and classes!"))),
    }
}

/// Calling a function of the program.
pub open spec fn call_function<'ast>(
    h: Heap<'ast>,
    token: TokenView,
    function: usize,
    arguments: Seq<ValueView>,
    fuel: nat,
    sum: spec_fn(Opcode, Number, Number) -> Number,
    times: Seq<Number>,
) -> Evaluated<'ast>
    decreases fuel, 2nat,
{
    let (h1, entered) = h.enter_call(token, function, arguments);
    match entered {
        Err(error) => (h1, Err(error)),
        Ok(scope) => if fuel == 0 {
            (h1, Err(out_of_fuel()))
        } else {
            let called = h.functions[function as int];
            let (h2, ended) = exec_block(
                h1,
                called.declaration.body@,
                Some(scope),
                (fuel - 1) as nat,
                sum,
                times,
            );
            (h2, h2.finish_call(token, ended, called.closure.head, called.is_initializer))
        },
    }
}

/// Calling a class: an instance is made, and the initializer, where the
/// class has one, runs bound to it.
pub open spec fn call_class<'ast>(
    h: Heap<'ast>,
    token: TokenView,
    class: usize,
    arguments: Seq<ValueView>,
    fuel: nat,
    sum: spec_fn(Opcode, Number, Number) -> Number,
    times: Seq<Number>,
) -> Evaluated<'ast>
    decreases fuel, 2nat,
{
    if class >= h.classes.len() {
        (h, Err(fatal(token, "No such class")))
    } else {
        let instance = h.instances.len() as usize;
        let made = InstanceView { class, field_names: Seq::empty(), fields: Seq::empty() };
        match find_method(h.classes, class as int, h.classes[class as int].name, h.classes.len()) {
            Some(method) => {
                let (h1, bound) = h.bind(method, ValueView::Instance(instance), token);
                match bound {
                    Err(error) => (h1, Err(error)),
                    Ok(initializer) => {
                        let h2 = Heap { instances: h1.instances.push(made), ..h1 };
                        if fuel == 0 {
                            (h2, Err(out_of_fuel()))
                        } else {
                            let (h3, called) = call_function(
                                h2,
                                token,
                                initializer,
                                arguments,
                                (fuel - 1) as nat,
                                sum,
                                times,
                            );
                            match called {
                                Ok(_) => (h3, Ok(ValueView::Instance(instance))),
                                Err(error) => (h3, Err(error)),
                            }
                        }
                    },
                }
            },
            None => if arguments.len() == 0 {
                (Heap { instances: h.instances.push(made), ..h }, Ok(ValueView::Instance(instance)))
            } else {
                (
                    h,
                    Err(
                        FailureView::IncorrectArguments {
                            token,
                            expected: 0,
                            actual: arguments.len() as usize,
                        },
                    ),
                )
            },
        }
    }
}

/// Executing the statements from place `from` on, in order, up to the
/// first that does not simply end.
pub open spec fn exec_stmts<'ast>(
    h: Heap<'ast>,
    statements: Seq<Stmt>,
    from: int,
    fuel: nat,
    sum: spec_fn(Opcode, Number, Number) -> Number,
    times: Seq<Number>,
) -> Executed<'ast>
    decreases fuel, 1 + statements.len() - from,
{
    if from < 0 || from >= statements.len() {
        (h, None)
    } else {
        let (h1, ended) = exec_stmt(h, &statements[from], fuel, sum, times);
        match ended {
            Some(result) => (h1, Some(result)),
            None => exec_stmts(h1, statements, from + 1, fuel, sum, times),
        }
    }
}

/// Executing statements in the scope of a link, where one is given;
/// afterwards the current scope is the one it was.
pub open spec fn exec_block<'ast>(
    h: Heap<'ast>,
    statements: Seq<Stmt>,
    scope: Option<Link>,
    fuel: nat,
    sum: spec_fn(Opcode, Number, Number) -> Number,
    times: Seq<Number>,
) -> Executed<'ast>
    decreases fuel, 0nat,
{
    if fuel == 0 {
        (h, Some(EndView::RuntimeError(out_of_fuel())))
    } else {
        let inside = match scope {
            Some(link) => Heap { environment: link, ..h },
            None => h,
        };
        let (h1, ended) = exec_stmts(inside, statements, 0, (fuel - 1) as nat, sum, times);
        (Heap { environment: h.environment, ..h1 }, ended)
    }
}

/// Executing the body of a `while` statement for as long as its condition
/// holds, with `left` rounds granted.
pub open spec fn while_loop<'ast>(
    h: Heap<'ast>,
    condition: &'ast Expr,
    body: &'ast Stmt,
    left: nat,
    sum: spec_fn(Opcode, Number, Number) -> Number,
    times: Seq<Number>,
) -> Executed<'ast>
    decreases left, 2nat,
{
    if left == 0 {
        (h, Some(EndView::RuntimeError(out_of_fuel())))
    } else {
        let rest = (left - 1) as nat;
        let (h1, holds) = eval(h, condition, rest, sum, times);
        match holds {
            Err(error) => (h1, Some(EndView::RuntimeError(error))),
            Ok(value) => if !value.truthy() {
                (h1, None)
            } else {
                let (h2, ended) = exec_stmt(h1, body, rest, sum, times);
                match ended {
                    Some(result) => (h2, Some(result)),
                    None => while_loop(h2, condition, body, rest, sum, times),
                }
            },
        }
    }
}

/// Executing a statement with `fuel` steps granted.
pub open spec fn exec_stmt<'ast>(
    h: Heap<'ast>,
    stmt: &'ast Stmt,
    fuel: nat,
    sum: spec_fn(Opcode, Number, Number) -> Number,
    times: Seq<Number>,
) -> Executed<'ast>
    decreases fuel, 0nat,
{
    if fuel == 0 {
        (h, Some(EndView::RuntimeError(out_of_fuel())))
    } else {
        let budget = (fuel - 1) as nat;
        match stmt {
            Stmt::Block(block) => {
                let (inner, link) = h.extend(h.environment);
                exec_block(inner, block.statements@, Some(link), budget, sum, times)
            },
            Stmt::Class(class_decl) => visit_class(h, class_decl),
            Stmt::Expression(expression) => {
                let (h1, value) = eval(h, expression, budget, sum, times);
                match value {
                    Err(error) => (h1, Some(EndView::RuntimeError(error))),
                    Ok(v) => if !h1.is_global() {
                        (h1, None)
                    } else {
                        match v {
                            ValueView::Literal(LiteralView::Nil) => (h1, None),
                            ValueView::Literal(literal) => (
                                Heap { output: h1.output.push(v), ..h1 },
                                None,
                            ),
                            _ => (h1, None),
                        }
                    },
                }
            },
            Stmt::Function(function_decl) => (
                Heap {
                    functions: h.functions.push(
                        Function {
                            declaration: function_decl,
                            closure: crate::front::environment::Environment {
                                head: h.environment,
                            },
                            is_initializer: false,
                        },
                    ),
                    ..h
                }.define(
                    function_decl.name.lexeme@,
                    Some(ValueView::Function(h.functions.len() as usize)),
                ),
                None,
            ),
            Stmt::If(if_stmt) => {
                let (h1, condition) = eval(h, &*if_stmt.condition, budget, sum, times);
                match condition {
                    Err(error) => (h1, Some(EndView::RuntimeError(error))),
                    Ok(c) => if c.truthy() {
                        exec_stmt(h1, &*if_stmt.then_branch, budget, sum, times)
                    } else {
                        match &if_stmt.else_branch {
                            Some(other) => exec_stmt(h1, &**other, budget, sum, times),
                            None => (h1, None),
                        }
                    },
                }
            },
            Stmt::Print(expression) => {
                let (h1, value) = eval(h, expression, budget, sum, times);
                match value {
                    Err(error) => (h1, Some(EndView::RuntimeError(error))),
                    Ok(v) => (Heap { output: h1.output.push(v), ..h1 }, None),
                }
            },
            Stmt::Return(ret) => match &ret.value {
                Some(expr) => {
                    let (h1, value) = eval(h, &**expr, budget, sum, times);
                    match value {
                        Err(error) => (h1, Some(EndView::RuntimeError(error))),
                        Ok(v) => (h1, Some(EndView::Return(v))),
                    }
                },
                None => (h, Some(EndView::Return(nil()))),
            },
            Stmt::While(while_stmt) => while_loop(
                h,
                &*while_stmt.condition,
                &*while_stmt.body,
                budget,
                sum,
                times,
            ),
            Stmt::Declaration(declaration) => match &declaration.initializer {
                Some(expr) => {
                    let (h1, value) = eval(h, expr, budget, sum, times);
                    match value {
                        Err(error) => (h1, Some(EndView::RuntimeError(error))),
                        Ok(v) => (h1.define(declaration.name.lexeme@, Some(v)), None),
                    }
                },
                None => (h.define(declaration.name.lexeme@, None), None),
            },
        }
    }
}

/// The answer of the arithmetic for an operation on two numbers.
pub open spec fn answers<A: Fn(Opcode, Number, Number) -> Number>(arithmetic: &A) -> spec_fn(
    Opcode,
    Number,
    Number,
) -> Number {
    |op: Opcode, l: Number, r: Number| choose|n: Number| arithmetic.ensures((op, l, r), n)
}

/// Whether the arithmetic gives one answer for an operation on two
/// numbers.
pub open spec fn steady<A: Fn(Opcode, Number, Number) -> Number>(arithmetic: &A) -> bool {
    forall|op: Opcode, l: Number, r: Number, first: Number, second: Number|
        arithmetic.ensures((op, l, r), first) && arithmetic.ensures((op, l, r), second) ==> first
            == second
}

/// What the arithmetic returned is its answer.
pub proof fn lemma_answer<A: Fn(Opcode, Number, Number) -> Number>(
    arithmetic: &A,
    op: Opcode,
    l: Number,
    r: Number,
    n: Number,
)
    requires
        steady(arithmetic),
        arithmetic.ensures((op, l, r), n),
    ensures
        answers(arithmetic)(op, l, r) == n,
{
    let chosen = choose|m: Number| arithmetic.ensures((op, l, r), m);
    assert(arithmetic.ensures((op, l, r), chosen));
}

/// Whether the times that the clock tells, in the order of its readings,
/// begin with those that it has told.
pub open spec fn foretold(told: Seq<Number>, times: Seq<Number>) -> bool {
    &&& told.len() <= times.len()
    &&& forall|i: int| 0 <= i < told.len() ==> #[trigger] told[i] == times[i]
}

/// Running the statements of a program from place `from` on: each is
/// executed, whether or not those before it failed, and its error, if it
/// failed, is added to those collected so far.
pub open spec fn run_program<'ast>(
    h: Heap<'ast>,
    statements: Seq<Stmt>,
    from: int,
    collected: Seq<FailureView>,
    fuel: nat,
    sum: spec_fn(Opcode, Number, Number) -> Number,
    times: Seq<Number>,
) -> (Heap<'ast>, Seq<FailureView>)
    decreases statements.len() - from,
{
    if from < 0 || from >= statements.len() {
        (h, collected)
    } else {
        let (h1, ended) = exec_stmt(h, &statements[from], fuel, sum, times);
        run_program(
            h1,
            statements,
            from + 1,
            match ended {
                Some(EndView::RuntimeError(error)) => collected.push(error),
                _ => collected,
            },
            fuel,
            sum,
            times,
        )
    }
}

/// `super.method` reaches the method as the superclass itself lists it,
/// bound to the instance that `this` stands for: the class of the instance
/// has no say in it, whatever it lists under the same name.
pub proof fn lemma_super_reaches_the_superclass<'ast>(
    h: Heap<'ast>,
    keyword: &Variable,
    method: TokenView,
    depth: usize,
    superclass: usize,
    instance: usize,
    theirs: usize,
)
    requires
        depth > 0,
        keyword.depth == Some(depth),
        value_at(h.scopes, h.environment, keyword.name@, depth) == Ok::<ValueView, FailureView>(
            ValueView::Class(superclass),
        ),
        value_at(h.scopes, h.environment, this_token(), (depth - 1) as usize) == Ok::<
            ValueView,
            FailureView,
        >(ValueView::Instance(instance)),
        superclass < h.classes.len(),
        own_method(
            h.classes[superclass as int].method_names,
            h.classes[superclass as int].methods,
            method.lexeme,
        ) == Some(theirs),
    ensures
        h.visit_super(keyword, method) == ({
            let (bound, made) = h.bind(theirs, ValueView::Instance(instance), method);
            match made {
                Ok(id) => (bound, Ok::<ValueView, FailureView>(ValueView::Function(id))),
                Err(error) => (bound, Err::<ValueView, FailureView>(error)),
            }
        }),
{
}

/// A method bound to an instance has `this` stand for that instance, and
/// goes on doing so when the same method is bound again to another
/// instance; the method itself stays as it was.
pub proof fn lemma_bound_to_its_instance<'ast>(
    h: Heap<'ast>,
    method: usize,
    first: ValueView,
    second: ValueView,
    token: TokenView,
)
    requires
        h.scopes.len() + 1 < usize::MAX,
        h.functions.len() + 1 < usize::MAX,
        h.bind(method, first, token).1.is_ok(),
    ensures
        ({
            let (h1, one) = h.bind(method, first, token);
            let (h2, two) = h1.bind(method, second, token);
            &&& one matches Ok(a) && two matches Ok(b) && a != b && a < h2.functions.len() && b
                < h2.functions.len() && value_at(
                h1.scopes,
                h1.functions[a as int].closure.head,
                this_token(),
                0,
            ) == Ok::<ValueView, FailureView>(first) && value_at(
                h2.scopes,
                h2.functions[a as int].closure.head,
                this_token(),
                0,
            ) == Ok::<ValueView, FailureView>(first) && value_at(
                h2.scopes,
                h2.functions[b as int].closure.head,
                this_token(),
                0,
            ) == Ok::<ValueView, FailureView>(second)
            &&& h2.functions[method as int] == h.functions[method as int]
        }),
{
    let (h1, one) = h.bind(method, first, token);
    let (h2, two) = h1.bind(method, second, token);
    let names = seq!["this".spec_bytes()];
    assert(names.last() == this_token().lexeme);
    assert(crate::front::environment::slot_of(names, this_token().lexeme) == Some(0int));
    let a = h.scopes.len() as usize;
    let b = h1.scopes.len() as usize;
    assert(h1.scopes[a as int].names == names);
    assert(h2.scopes[a as int].names == names);
    assert(h2.scopes[b as int].names == names);
    assert(lookup(h1.scopes, Some(a), this_token().lexeme) == Some((a as int, 0int)));
    assert(lookup(h2.scopes, Some(a), this_token().lexeme) == Some((a as int, 0int)));
    assert(lookup(h2.scopes, Some(b), this_token().lexeme) == Some((b as int, 0int)));
    assert(ancestor_of(h1.scopes, Some(a), 0) == Some(a));
    assert(ancestor_of(h2.scopes, Some(a), 0) == Some(a));
    assert(ancestor_of(h2.scopes, Some(b), 0) == Some(b));
}

} // verus!
