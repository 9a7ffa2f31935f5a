//! What resolving does, as functions on the resolver's state and on the
//! tree.
use crate::front::expr::{ExprView, VariableView};
use crate::front::report::{complaint, ReportView};
use crate::front::stmt::{FunctionView, StmtView};
use crate::front::token::TokenView;
use crate::front::token_type::TokenType;
use vstd::prelude::*;
use vstd::string::StringSliceAdditionalSpecFns;

verus! {

/// The kind of function whose body is being resolved.
#[derive(Copy, Clone, Debug, PartialEq, Eq, Structural)]
pub enum FunctionType {
    Outside,
    Function,
    Initializer,
    Method,
}

/// The kind of class whose body is being resolved.
#[derive(Copy, Clone, Debug, PartialEq, Eq, Structural)]
pub enum ClassType {
    Outside,
    Class,
    Subclass,
}

/// What is known of a declared name.
pub struct StatusView {
    pub token: TokenView,
    pub defined: bool,
    pub used: bool,
}

/// The names that a scope has declared, in the order of their declaration,
/// with what is known of each.
pub struct DeclaredView {
    pub names: Seq<Seq<u8>>,
    pub statuses: Seq<StatusView>,
}

/// The state of the resolver: the open scopes, outermost first, the kind of
/// function and of class being resolved, and the errors and warnings so
/// far.
pub struct ResolverState {
    pub scopes: Seq<DeclaredView>,
    pub function: FunctionType,
    pub class: ClassType,
    pub errors: Seq<ReportView>,
    pub warnings: Seq<ReportView>,
}

/// The first place among names that holds the name.
pub open spec fn first_slot(names: Seq<Seq<u8>>, name: Seq<u8>, from: int) -> Option<int>
    decreases names.len() - from,
{
    if from < 0 || from >= names.len() {
        None
    } else if names[from] == name {
        Some(from)
    } else {
        first_slot(names, name, from + 1)
    }
}

/// The warnings for the names of a scope, from place `from` on, that were
/// never used.
pub open spec fn unused_warnings(scope: DeclaredView, from: int) -> Seq<ReportView>
    decreases scope.statuses.len() - from,
{
    if from < 0 || from >= scope.statuses.len() {
        Seq::empty()
    } else if !scope.statuses[from].used {
        seq![
            complaint(
                scope.statuses[from].token.line,
                "Variable ".spec_bytes() + scope.statuses[from].token.lexeme
                    + " is declared but never used.".spec_bytes(),
            ),
        ] + unused_warnings(scope, from + 1)
    } else {
        unused_warnings(scope, from + 1)
    }
}

/// The scope with the status in a place changed.
pub open spec fn with_status(scope: DeclaredView, slot: int, status: StatusView) -> DeclaredView {
    DeclaredView { statuses: scope.statuses.update(slot, status), ..scope }
}

/// The innermost scope, counted from the innermost as 0, that declares the
/// name, looking at the `count` outermost scopes.
pub open spec fn innermost_scope(scopes: Seq<DeclaredView>, name: Seq<u8>, count: int) -> Option<
    int,
>
    decreases count,
{
    if count <= 0 || count > scopes.len() {
        None
    } else if first_slot(scopes[count - 1].names, name, 0).is_some() {
        Some(count - 1)
    } else {
        innermost_scope(scopes, name, count - 1)
    }
}

impl ResolverState {
    pub open spec fn error(self, line: usize, message: Seq<u8>) -> ResolverState {
        ResolverState { errors: self.errors.push(complaint(line, message)), ..self }
    }

    pub open spec fn begin_scope(self) -> ResolverState {
        ResolverState {
            scopes: self.scopes.push(
                DeclaredView { names: Seq::empty(), statuses: Seq::empty() },
            ),
            ..self
        }
    }

    /// Closes the innermost scope, with a warning for each of its names
    /// that was never used.
    pub open spec fn end_scope(self) -> ResolverState {
        if self.scopes.len() == 0 {
            self
        } else {
            ResolverState {
                scopes: self.scopes.drop_last(),
                warnings: self.warnings + unused_warnings(self.scopes.last(), 0),
                ..self
            }
        }
    }

    /// Puts a name with its status at the end of the innermost scope.
    pub open spec fn insert(self, name: Seq<u8>, token: TokenView, defined: bool, used: bool) -> ResolverState {
        if self.scopes.len() == 0 {
            self
        } else {
            let last = self.scopes.last();
            ResolverState {
                scopes: self.scopes.update(
                    self.scopes.len() - 1,
                    DeclaredView {
                        names: last.names.push(name),
                        statuses: last.statuses.push(StatusView { token, defined, used }),
                    },
                ),
                ..self
            }
        }
    }

    /// Declares the token's name in the innermost scope, not yet defined;
    /// a name that the scope has already is an error.
    pub open spec fn declare(self, token: TokenView) -> ResolverState {
        if self.scopes.len() == 0 {
            self
        } else if first_slot(self.scopes.last().names, token.lexeme, 0).is_some() {
            self.error(
                token.line,
                "Variable with name ".spec_bytes() + token.lexeme
                    + " is already declared in this scope.".spec_bytes(),
            )
        } else {
            self.insert(token.lexeme, token, false, false)
        }
    }

    /// Marks the token's name in the innermost scope as defined.
    pub open spec fn define(self, token: TokenView) -> ResolverState {
        if self.scopes.len() == 0 {
            self
        } else {
            let last = self.scopes.last();
            match first_slot(last.names, token.lexeme, 0) {
                Some(slot) => if slot < last.statuses.len() {
                    ResolverState {
                        scopes: self.scopes.update(
                            self.scopes.len() - 1,
                            with_status(
                                last,
                                slot,
                                StatusView { defined: true, ..last.statuses[slot] },
                            ),
                        ),
                        ..self
                    }
                } else {
                    self
                },
                None => self,
            }
        }
    }

    /// Whether the innermost scope has declared the name and not yet
    /// defined it.
    pub open spec fn pending(self, name: Seq<u8>) -> bool {
        self.scopes.len() > 0 && match first_slot(self.scopes.last().names, name, 0) {
            Some(slot) => slot < self.scopes.last().statuses.len()
                && !self.scopes.last().statuses[slot].defined,
            None => false,
        }
    }

    /// Resolves a use of a variable: the depth becomes the number of scopes
    /// between the innermost scope and the innermost one that declares the
    /// name, and the name counts as used. Of a name that no scope declares
    /// an error is made, and the depth stays.
    pub open spec fn resolve_local(self, variable: VariableView) -> (ResolverState, VariableView) {
        match innermost_scope(self.scopes, variable.name.lexeme, self.scopes.len() as int) {
            Some(at) => {
                let scope = self.scopes[at];
                let slot = first_slot(scope.names, variable.name.lexeme, 0).unwrap();
                (
                    if slot < scope.statuses.len() {
                        ResolverState {
                            scopes: self.scopes.update(
                                at,
                                with_status(
                                    scope,
                                    slot,
                                    StatusView { used: true, ..scope.statuses[slot] },
                                ),
                            ),
                            ..self
                        }
                    } else {
                        self
                    },
                    VariableView {
                        depth: Some((self.scopes.len() - 1 - at) as usize),
                        ..variable
                    },
                )
            },
            None => (
                self.error(
                    variable.name.line,
                    "Couldn't resolve variable ".spec_bytes() + variable.name.lexeme,
                ),
                variable,
            ),
        }
    }
}

/// Resolves an expression: every part in the order of evaluation, and every
/// use of a variable against the scopes.
pub open spec fn resolve_expr(s: ResolverState, expr: ExprView) -> (ResolverState, ExprView)
    decreases expr, 0nat,
{
    match expr {
        ExprView::Assign { variable, value } => {
            let (s1, value1) = resolve_expr(s, *value);
            let (s2, variable1) = s1.resolve_local(variable);
            (s2, ExprView::Assign { variable: variable1, value: Box::new(value1) })
        },
        ExprView::Binary { left, operator, right } => {
            let (s1, left1) = resolve_expr(s, *left);
            let (s2, right1) = resolve_expr(s1, *right);
            (s2, ExprView::Binary { left: Box::new(left1), operator, right: Box::new(right1) })
        },
        ExprView::Logical { left, operator, right } => {
            let (s1, left1) = resolve_expr(s, *left);
            let (s2, right1) = resolve_expr(s1, *right);
            (s2, ExprView::Logical { left: Box::new(left1), operator, right: Box::new(right1) })
        },
        ExprView::Call { callee, paren, arguments } => {
            let (s1, callee1) = resolve_expr(s, *callee);
            let (s2, arguments1) = resolve_exprs(s1, arguments, arguments.len());
            (s2, ExprView::Call { callee: Box::new(callee1), paren, arguments: arguments1 })
        },
        ExprView::Get { object, name } => {
            let (s1, object1) = resolve_expr(s, *object);
            (s1, ExprView::Get { object: Box::new(object1), name })
        },
        ExprView::Grouping { expression } => {
            let (s1, inner) = resolve_expr(s, *expression);
            (s1, ExprView::Grouping { expression: Box::new(inner) })
        },
        ExprView::Literal { value } => (s, expr),
        ExprView::Unary { operator, right } => {
            let (s1, right1) = resolve_expr(s, *right);
            (s1, ExprView::Unary { operator, right: Box::new(right1) })
        },
        ExprView::SetExpr { object, name, value } => {
            let (s1, object1) = resolve_expr(s, *object);
            let (s2, value1) = resolve_expr(s1, *value);
            (s2, ExprView::SetExpr { object: Box::new(object1), name, value: Box::new(value1) })
        },
        ExprView::Super { keyword, method } => {
            let checked = match s.class {
                ClassType::Outside => s.error(
                    keyword.name.line,
                    "Cannot use 'super' outside of a class".spec_bytes(),
                ),
                ClassType::Class => s.error(
                    keyword.name.line,
                    "Cannot use 'super' in a class with no superclass".spec_bytes(),
                ),
                ClassType::Subclass => s,
            };
            let (s1, keyword1) = checked.resolve_local(keyword);
            (s1, ExprView::Super { keyword: keyword1, method })
        },
        ExprView::Ternary { condition, true_branch, false_branch } => {
            let (s1, condition1) = resolve_expr(s, *condition);
            let (s2, true1) = resolve_expr(s1, *true_branch);
            let (s3, false1) = resolve_expr(s2, *false_branch);
            (
                s3,
                ExprView::Ternary {
                    condition: Box::new(condition1),
                    true_branch: Box::new(true1),
                    false_branch: Box::new(false1),
                },
            )
        },
        ExprView::This { variable } => if s.class == ClassType::Outside {
            (
                s.error(
                    variable.name.line,
                    "Cannot use 'this' keyword outside of a class.".spec_bytes(),
                ),
                expr,
            )
        } else {
            let (s1, variable1) = s.resolve_local(variable);
            (s1, ExprView::This { variable: variable1 })
        },
        ExprView::Variable { variable } => {
            let checked = if s.pending(variable.name.lexeme) {
                s.error(
                    variable.name.line,
                    "Cannot read local variable in own initializer".spec_bytes(),
                )
            } else {
                s
            };
            let (s1, variable1) = checked.resolve_local(variable);
            (s1, ExprView::Variable { variable: variable1 })
        },
    }
}

/// Resolves the first `count` expressions of a sequence, in order.
pub open spec fn resolve_exprs(s: ResolverState, exprs: Seq<ExprView>, count: nat) -> (
    ResolverState,
    Seq<ExprView>,
)
    decreases exprs, count,
{
    if count == 0 || count > exprs.len() {
        (s, Seq::empty())
    } else {
        let (s1, done) = resolve_exprs(s, exprs, (count - 1) as nat);
        let (s2, next) = resolve_expr(s1, exprs[count - 1]);
        (s2, done.push(next))
    }
}

/// Declares and defines the first `count` parameters of a function.
pub open spec fn declare_params(s: ResolverState, params: Seq<TokenView>, count: nat) -> ResolverState
    decreases count,
{
    if count == 0 || count > params.len() {
        s
    } else {
        declare_params(s, params, (count - 1) as nat).declare(params[count - 1]).define(
            params[count - 1],
        )
    }
}

/// Resolves a function of the given kind: its parameters and its body in a
/// scope of their own.
pub open spec fn resolve_function(s: ResolverState, function: FunctionView, kind: FunctionType) -> (
    ResolverState,
    FunctionView,
)
    decreases function, 0nat,
{
    let inside = declare_params(
        ResolverState { function: kind, ..s }.begin_scope(),
        function.params,
        function.params.len(),
    );
    let (s1, body) = resolve_stmts(inside, function.body, function.body.len());
    (ResolverState { function: s.function, ..s1.end_scope() }, FunctionView { body, ..function })
}

/// Resolves the first `count` methods of a class: the one named like the
/// class as its initializer, the others as methods.
pub open spec fn resolve_methods(
    s: ResolverState,
    methods: Seq<FunctionView>,
    class_name: Seq<u8>,
    count: nat,
) -> (ResolverState, Seq<FunctionView>)
    decreases methods, count,
{
    if count == 0 || count > methods.len() {
        (s, Seq::empty())
    } else {
        let (s1, done) = resolve_methods(s, methods, class_name, (count - 1) as nat);
        let method = methods[count - 1];
        let kind = if method.name.lexeme == class_name {
            FunctionType::Initializer
        } else {
            FunctionType::Method
        };
        let (s2, next) = resolve_function(s1, method, kind);
        (s2, done.push(next))
    }
}

/// Resolves the first `count` statements of a sequence, in order.
pub open spec fn resolve_stmts(s: ResolverState, stmts: Seq<StmtView>, count: nat) -> (
    ResolverState,
    Seq<StmtView>,
)
    decreases stmts, count,
{
    if count == 0 || count > stmts.len() {
        (s, Seq::empty())
    } else {
        let (s1, done) = resolve_stmts(s, stmts, (count - 1) as nat);
        let (s2, next) = resolve_stmt(s1, stmts[count - 1]);
        (s2, done.push(next))
    }
}

/// The state in which the methods of a class are resolved, and the
/// superclass as resolved: the class name is declared and defined; a
/// superclass is looked up and bound as `super` in a scope of its own,
/// unless it is the class itself, which is an error.
pub open spec fn class_head(s: ResolverState, name: TokenView, superclass: Option<VariableView>) -> (
    ResolverState,
    Option<VariableView>,
    bool,
) {
    let s1 = ResolverState { class: ClassType::Class, ..s }.declare(name).define(name);
    match superclass {
        Some(variable) => if variable.name.lexeme == name.lexeme {
            (
                s1.error(variable.name.line, "A class cannot inherit from itself".spec_bytes()),
                Some(variable),
                false,
            )
        } else {
            let (s2, resolved) = ResolverState { class: ClassType::Subclass, ..s1 }.resolve_local(
                variable,
            );
            (
                s2.begin_scope().insert("super".spec_bytes(), variable.name, true, true),
                Some(resolved),
                true,
            )
        },
        None => (s1, None, false),
    }
}

/// Resolves a statement.
pub open spec fn resolve_stmt(s: ResolverState, stmt: StmtView) -> (ResolverState, StmtView)
    decreases stmt, 0nat,
{
    match stmt {
        StmtView::Block { statements } => {
            let (s1, resolved) = resolve_stmts(s.begin_scope(), statements, statements.len());
            (s1.end_scope(), StmtView::Block { statements: resolved })
        },
        StmtView::Class { name, superclass, methods } => {
            let (s1, superclass1, inherits) = class_head(s, name, superclass);
            let s2 = s1.begin_scope().insert("this".spec_bytes(), name, true, true);
            let (s3, methods1) = resolve_methods(s2, methods, name.lexeme, methods.len());
            let s4 = if inherits {
                s3.end_scope().end_scope()
            } else {
                s3.end_scope()
            };
            (
                ResolverState { class: s.class, ..s4 },
                StmtView::Class { name, superclass: superclass1, methods: methods1 },
            )
        },
        StmtView::Expression { expression } => {
            let (s1, resolved) = resolve_expr(s, expression);
            (s1, StmtView::Expression { expression: resolved })
        },
        StmtView::Function { function } => {
            let (s1, resolved) = resolve_function(
                s.declare(function.name).define(function.name),
                function,
                FunctionType::Function,
            );
            (s1, StmtView::Function { function: resolved })
        },
        StmtView::If { condition, then_branch, else_branch } => {
            let (s1, condition1) = resolve_expr(s, condition);
            let (s2, then1) = resolve_stmt(s1, *then_branch);
            match else_branch {
                Some(other) => {
                    let (s3, else1) = resolve_stmt(s2, *other);
                    (
                        s3,
                        StmtView::If {
                            condition: condition1,
                            then_branch: Box::new(then1),
                            else_branch: Some(Box::new(else1)),
                        },
                    )
                },
                None => (
                    s2,
                    StmtView::If {
                        condition: condition1,
                        then_branch: Box::new(then1),
                        else_branch: None,
                    },
                ),
            }
        },
        StmtView::Print { expression } => {
            let (s1, resolved) = resolve_expr(s, expression);
            (s1, StmtView::Print { expression: resolved })
        },
        StmtView::Return { keyword, value } => if s.function == FunctionType::Outside {
            (s.error(keyword.line, "Cannot return from top level code.".spec_bytes()), stmt)
        } else {
            match value {
                Some(expr) => {
                    let checked = if s.function == FunctionType::Initializer {
                        s.error(
                            keyword.line,
                            "Cannot return values from an initializer".spec_bytes(),
                        )
                    } else {
                        s
                    };
                    let (s1, resolved) = resolve_expr(checked, expr);
                    (s1, StmtView::Return { keyword, value: Some(resolved) })
                },
                None => (s, stmt),
            }
        },
        StmtView::While { condition, body } => {
            let (s1, condition1) = resolve_expr(s, condition);
            let (s2, body1) = resolve_stmt(s1, *body);
            (s2, StmtView::While { condition: condition1, body: Box::new(body1) })
        },
        StmtView::Declaration { name, initializer } => {
            let s1 = s.declare(name);
            match initializer {
                Some(expr) => {
                    let (s2, resolved) = resolve_expr(s1, expr);
                    (s2.define(name), StmtView::Declaration { name, initializer: Some(resolved) })
                },
                None => (s1.define(name), stmt),
            }
        },
    }
}

/// The names of the built-in functions.
pub open spec fn external_names() -> Seq<Seq<u8>> {
    seq!["clock".spec_bytes()]
}

/// Resolves a program: in a scope of its own, in which the built-in
/// functions are declared, defined and used.
pub open spec fn resolve_program(s: ResolverState, stmts: Seq<StmtView>) -> (
    ResolverState,
    Seq<StmtView>,
) {
    let clock = TokenView {
        token_type: TokenType::Identifier,
        lexeme: "clock".spec_bytes(),
        line: 0,
    };
    let (s1, resolved) = resolve_stmts(
        s.begin_scope().insert("clock".spec_bytes(), clock, true, true),
        stmts,
        stmts.len(),
    );
    (s1.end_scope(), resolved)
}

/// A name that is put after names that lack it is first found where it
/// was put.
pub proof fn lemma_first_slot_push(names: Seq<Seq<u8>>, name: Seq<u8>, from: int)
    requires
        0 <= from <= names.len(),
        first_slot(names, name, from).is_none(),
    ensures
        first_slot(names.push(name), name, from) == Some(names.len() as int),
    decreases names.len() - from,
{
    if from < names.len() {
        assert(names.push(name)[from] == names[from]);
        lemma_first_slot_push(names, name, from + 1);
    }
}

/// A variable cannot be read in its own initializer: where a scope is open
/// that has not declared the name, resolving the declaration of the name
/// with an initializer that reads it makes, as its first complaint, the
/// error that says so.
pub proof fn lemma_self_reference_rejected(s: ResolverState, name: TokenView, read: TokenView)
    requires
        s.scopes.len() > 0,
        first_slot(s.scopes.last().names, name.lexeme, 0).is_none(),
        s.scopes.last().names.len() == s.scopes.last().statuses.len(),
        read.lexeme == name.lexeme,
    ensures
        ({
            let declaration = StmtView::Declaration {
                name,
                initializer: Some(
                    ExprView::Variable { variable: VariableView { name: read, depth: None } },
                ),
            };
            let errors = resolve_stmt(s, declaration).0.errors;
            &&& errors.len() > s.errors.len()
            &&& errors[s.errors.len() as int] == complaint(
                read.line,
                "Cannot read local variable in own initializer".spec_bytes(),
            )
        }),
{
    let declared = s.declare(name);
    lemma_first_slot_push(s.scopes.last().names, name.lexeme, 0);
    assert(declared.pending(read.lexeme));
    let checked = declared.error(
        read.line,
        "Cannot read local variable in own initializer".spec_bytes(),
    );
    let variable = VariableView { name: read, depth: None };
    let (resolved, _) = checked.resolve_local(variable);
    assert(resolved.errors.len() >= checked.errors.len());
    assert(resolved.errors[s.errors.len() as int] == checked.errors[s.errors.len() as int]);
    assert(resolved.define(name).errors == resolved.errors);
}

/// Whether two states have as many open scopes and are in the same kind
/// of function and of class.
pub open spec fn balanced(before: ResolverState, after: ResolverState) -> bool {
    &&& after.scopes.len() == before.scopes.len()
    &&& after.function == before.function
    &&& after.class == before.class
}

/// Declaring parameters opens and closes no scope.
pub proof fn lemma_params_balanced(s: ResolverState, params: Seq<TokenView>, count: nat)
    ensures
        balanced(s, declare_params(s, params, count)),
    decreases count,
{
    if count > 0 && count <= params.len() {
        lemma_params_balanced(s, params, (count - 1) as nat);
    }
}

/// The innermost scope that declares a name is one of the scopes.
pub proof fn lemma_innermost_scope(scopes: Seq<DeclaredView>, name: Seq<u8>, count: int)
    ensures
        innermost_scope(scopes, name, count) matches Some(at) ==> 0 <= at < scopes.len() && at
            < count,
    decreases count,
{
    if 0 < count <= scopes.len() && first_slot(scopes[count - 1].names, name, 0).is_none() {
        lemma_innermost_scope(scopes, name, count - 1);
    }
}

/// Resolving a use of a variable opens and closes no scope.
pub proof fn lemma_local_balanced(s: ResolverState, variable: VariableView)
    ensures
        balanced(s, s.resolve_local(variable).0),
{
    lemma_innermost_scope(s.scopes, variable.name.lexeme, s.scopes.len() as int);
}

/// The head of a class opens a scope where the class inherits, and no
/// other.
pub proof fn lemma_class_head(s: ResolverState, name: TokenView, superclass: Option<VariableView>)
    ensures
        ({
            let (after, _, inherits) = class_head(s, name, superclass);
            &&& after.function == s.function
            &&& after.scopes.len() == s.scopes.len() + if inherits {
                1int
            } else {
                0int
            }
        }),
{
    let s1 = ResolverState { class: ClassType::Class, ..s }.declare(name).define(name);
    match superclass {
        Some(variable) => {
            lemma_local_balanced(ResolverState { class: ClassType::Subclass, ..s1 }, variable);
        },
        None => {},
    }
}

/// Resolving an expression closes every scope it opens, and ends in the
/// kind of function and of class it began in.
pub proof fn lemma_expr_balanced(s: ResolverState, expr: ExprView)
    ensures
        balanced(s, resolve_expr(s, expr).0),
    decreases expr, 0nat,
{
    match expr {
        ExprView::Assign { variable, value } => {
            lemma_expr_balanced(s, *value);
            lemma_local_balanced(resolve_expr(s, *value).0, variable);
        },
        ExprView::Binary { left, operator, right } => {
            lemma_expr_balanced(s, *left);
            lemma_expr_balanced(resolve_expr(s, *left).0, *right);
        },
        ExprView::Logical { left, operator, right } => {
            lemma_expr_balanced(s, *left);
            lemma_expr_balanced(resolve_expr(s, *left).0, *right);
        },
        ExprView::Call { callee, paren, arguments } => {
            lemma_expr_balanced(s, *callee);
            lemma_exprs_balanced(resolve_expr(s, *callee).0, arguments, arguments.len());
        },
        ExprView::Get { object, name } => {
            lemma_expr_balanced(s, *object);
        },
        ExprView::Grouping { expression } => {
            lemma_expr_balanced(s, *expression);
        },
        ExprView::Literal { value } => {},
        ExprView::Unary { operator, right } => {
            lemma_expr_balanced(s, *right);
        },
        ExprView::SetExpr { object, name, value } => {
            lemma_expr_balanced(s, *object);
            lemma_expr_balanced(resolve_expr(s, *object).0, *value);
        },
        ExprView::Super { keyword, method } => {
            let checked = match s.class {
                ClassType::Outside => s.error(
                    keyword.name.line,
                    "Cannot use 'super' outside of a class".spec_bytes(),
                ),
                ClassType::Class => s.error(
                    keyword.name.line,
                    "Cannot use 'super' in a class with no superclass".spec_bytes(),
                ),
                ClassType::Subclass => s,
            };
            lemma_local_balanced(checked, keyword);
        },
        ExprView::Ternary { condition, true_branch, false_branch } => {
            lemma_expr_balanced(s, *condition);
            let s1 = resolve_expr(s, *condition).0;
            lemma_expr_balanced(s1, *true_branch);
            lemma_expr_balanced(resolve_expr(s1, *true_branch).0, *false_branch);
        },
        ExprView::This { variable } => {
            lemma_local_balanced(s, variable);
        },
        ExprView::Variable { variable } => {
            let checked = if s.pending(variable.name.lexeme) {
                s.error(
                    variable.name.line,
                    "Cannot read local variable in own initializer".spec_bytes(),
                )
            } else {
                s
            };
            lemma_local_balanced(checked, variable);
        },
    }
}

/// Resolving expressions closes every scope it opens.
pub proof fn lemma_exprs_balanced(s: ResolverState, exprs: Seq<ExprView>, count: nat)
    ensures
        balanced(s, resolve_exprs(s, exprs, count).0),
    decreases exprs, count,
{
    if count > 0 && count <= exprs.len() {
        lemma_exprs_balanced(s, exprs, (count - 1) as nat);
        lemma_expr_balanced(resolve_exprs(s, exprs, (count - 1) as nat).0, exprs[count - 1]);
    }
}

/// Resolving a function closes the scope it opens for the parameters and
/// the body, and goes back to the kind of function around it.
pub proof fn lemma_function_balanced(s: ResolverState, function: FunctionView, kind: FunctionType)
    ensures
        balanced(s, resolve_function(s, function, kind).0),
    decreases function, 0nat,
{
    let opened = ResolverState { function: kind, ..s }.begin_scope();
    lemma_params_balanced(opened, function.params, function.params.len());
    let inside = declare_params(opened, function.params, function.params.len());
    lemma_stmts_balanced(inside, function.body, function.body.len());
}

/// Resolving methods closes every scope it opens.
pub proof fn lemma_methods_balanced(
    s: ResolverState,
    methods: Seq<FunctionView>,
    class_name: Seq<u8>,
    count: nat,
)
    ensures
        balanced(s, resolve_methods(s, methods, class_name, count).0),
    decreases methods, count,
{
    if count > 0 && count <= methods.len() {
        lemma_methods_balanced(s, methods, class_name, (count - 1) as nat);
        let s1 = resolve_methods(s, methods, class_name, (count - 1) as nat).0;
        let method = methods[count - 1];
        let kind = if method.name.lexeme == class_name {
            FunctionType::Initializer
        } else {
            FunctionType::Method
        };
        lemma_function_balanced(s1, method, kind);
    }
}

/// Resolving statements closes every scope it opens.
pub proof fn lemma_stmts_balanced(s: ResolverState, stmts: Seq<StmtView>, count: nat)
    ensures
        balanced(s, resolve_stmts(s, stmts, count).0),
    decreases stmts, count,
{
    if count > 0 && count <= stmts.len() {
        lemma_stmts_balanced(s, stmts, (count - 1) as nat);
        lemma_stmt_balanced(resolve_stmts(s, stmts, (count - 1) as nat).0, stmts[count - 1]);
    }
}

/// Resolving a statement closes every scope it opens, and ends in the kind
/// of function and of class it began in: scopes are opened and closed in
/// pairs.
#[verifier::rlimit(100)]
pub proof fn lemma_stmt_balanced(s: ResolverState, stmt: StmtView)
    ensures
        balanced(s, resolve_stmt(s, stmt).0),
    decreases stmt, 0nat,
{
    match stmt {
        StmtView::Block { statements } => {
            lemma_stmts_balanced(s.begin_scope(), statements, statements.len());
        },
        StmtView::Class { name, superclass, methods } => {
            lemma_class_head(s, name, superclass);
            let (s1, superclass1, inherits) = class_head(s, name, superclass);
            let s2 = s1.begin_scope().insert("this".spec_bytes(), name, true, true);
            lemma_methods_balanced(s2, methods, name.lexeme, methods.len());
        },
        StmtView::Expression { expression } => {
            lemma_expr_balanced(s, expression);
        },
        StmtView::Function { function } => {
            lemma_function_balanced(
                s.declare(function.name).define(function.name),
                function,
                FunctionType::Function,
            );
        },
        StmtView::If { condition, then_branch, else_branch } => {
            lemma_expr_balanced(s, condition);
            let s1 = resolve_expr(s, condition).0;
            lemma_stmt_balanced(s1, *then_branch);
            match else_branch {
                Some(other) => {
                    lemma_stmt_balanced(resolve_stmt(s1, *then_branch).0, *other);
                },
                None => {},
            }
        },
        StmtView::Print { expression } => {
            lemma_expr_balanced(s, expression);
        },
        StmtView::Return { keyword, value } => {
            match value {
                Some(expr) => {
                    let checked = if s.function == FunctionType::Initializer {
                        s.error(
                            keyword.line,
                            "Cannot return values from an initializer".spec_bytes(),
                        )
                    } else {
                        s
                    };
                    lemma_expr_balanced(checked, expr);
                },
                None => {},
            }
        },
        StmtView::While { condition, body } => {
            lemma_expr_balanced(s, condition);
            lemma_stmt_balanced(resolve_expr(s, condition).0, *body);
        },
        StmtView::Declaration { name, initializer } => {
            match initializer {
                Some(expr) => {
                    lemma_expr_balanced(s.declare(name), expr);
                },
                None => {},
            }
        },
    }
}

} // verus!
