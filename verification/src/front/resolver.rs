use crate::front::expr::{lemma_call_view, Call, Expr, ExprView, Variable};
use crate::front::report::{lemma_reports_push, reports_view, Report, ReportView};
use crate::front::scoping::{
    class_head, declare_params, external_names, first_slot, innermost_scope, resolve_expr,
    resolve_exprs, resolve_function, resolve_methods, resolve_program, resolve_stmt,
    resolve_stmts, unused_warnings, with_status, ClassType, DeclaredView, FunctionType,
    ResolverState, StatusView,
};
use crate::front::stmt::{
    exprs_view, functions_view, lemma_views, stmts_view, ClassDecl, FunctionDecl, Stmt, StmtView,
};
use crate::front::token::{tokens_view, Token, TokenView};
use crate::front::token_type::TokenType;
use crate::text::{bytes_eq, push_bytes, str_bytes, to_bytes};
use vstd::prelude::*;
use vstd::string::StringSliceAdditionalSpecFns;

verus! {

/// What the resolver knows of a declared name: the token that declared it,
/// whether it has been defined, and whether it has been used.
#[derive(Debug)]
pub struct VariableStatus {
    pub declaration_token: Token,
    pub defined: bool,
    pub used: bool,
}

impl View for VariableStatus {
    type V = StatusView;

    open spec fn view(&self) -> StatusView {
        StatusView { token: self.declaration_token@, defined: self.defined, used: self.used }
    }
}

impl VariableStatus {
    pub fn new(declaration_token: Token) -> (status: VariableStatus)
        ensures
            status.declaration_token == declaration_token,
            !status.defined,
            !status.used,
    {
        VariableStatus { declaration_token, defined: false, used: false }
    }
}

/// The names that a scope has declared, in the order of their declaration.
pub struct Scope {
    pub names: Vec<Vec<u8>>,
    pub statuses: Vec<VariableStatus>,
}

impl View for Scope {
    type V = DeclaredView;

    open spec fn view(&self) -> DeclaredView {
        DeclaredView {
            names: self.names@.map_values(|name: Vec<u8>| name@),
            statuses: self.statuses@.map_values(|status: VariableStatus| status@),
        }
    }
}

/// The built-in functions, which every program can call.
pub struct ExternalFunctions {}

impl ExternalFunctions {
    /// The names of the built-in functions: `clock`.
    pub fn names() -> (names: Vec<Vec<u8>>)
        ensures
            names@.map_values(|name: Vec<u8>| name@) == external_names(),
    {
        let mut names: Vec<Vec<u8>> = Vec::new();
        names.push(str_bytes("clock"));
        assert(names@.map_values(|name: Vec<u8>| name@) =~= external_names());
        names
    }
}

/// Computes, for every use of a variable, how many scopes lie between the
/// use and the declaration, and checks the rules that can be checked
/// before a program runs.
pub struct Resolver {
    scopes: Vec<Scope>,
    current_function: FunctionType,
    current_class: ClassType,
    errors: Vec<Report>,
    warnings: Vec<Report>,
}

impl View for Resolver {
    type V = ResolverState;

    closed spec fn view(&self) -> ResolverState {
        ResolverState {
            scopes: self.scopes@.map_values(|scope: Scope| scope@),
            function: self.current_function,
            class: self.current_class,
            errors: reports_view(self.errors@),
            warnings: reports_view(self.warnings@),
        }
    }
}

impl Resolver {
    /// Every scope has a status for each of its names.
    pub closed spec fn wf(&self) -> bool {
        forall|i: int|
            0 <= i < self.scopes@.len() ==> (#[trigger] self.scopes@[i]).names@.len()
                == self.scopes@[i].statuses@.len()
    }

    pub fn new() -> (resolver: Resolver)
        ensures
            resolver.wf(),
            resolver@ == (ResolverState {
                scopes: Seq::empty(),
                function: FunctionType::Outside,
                class: ClassType::Outside,
                errors: Seq::empty(),
                warnings: Seq::empty(),
            }),
    {
        let resolver = Resolver {
            scopes: Vec::new(),
            current_function: FunctionType::Outside,
            current_class: ClassType::Outside,
            errors: Vec::new(),
            warnings: Vec::new(),
        };
        assert(resolver@.scopes =~= Seq::<DeclaredView>::empty());
        assert(resolver@.errors =~= Seq::<ReportView>::empty());
        assert(resolver@.warnings =~= Seq::<ReportView>::empty());
        resolver
    }

    /// The errors found so far.
    pub fn errors(&self) -> (errors: &Vec<Report>)
        ensures
            reports_view(errors@) == self@.errors,
    {
        &self.errors
    }

    /// The warnings given so far.
    pub fn warnings(&self) -> (warnings: &Vec<Report>)
        ensures
            reports_view(warnings@) == self@.warnings,
    {
        &self.warnings
    }

    /// Resolves a program in a scope of its own that knows the built-in
    /// functions.
    pub fn resolve(&mut self, statements: &mut Vec<Stmt>)
        requires
            old(self).wf(),
        ensures
            final(self).wf(),
            final(self)@ == resolve_program(old(self)@, stmts_view(old(statements)@)).0,
            stmts_view(final(statements)@) == resolve_program(
                old(self)@,
                stmts_view(old(statements)@),
            ).1,
    {
        self.begin_scope();
        self.setup_external_functions();
        self.resolve_stmts(statements);
        self.end_scope();
    }

    /// Declares the built-in functions in the innermost scope, defined and
    /// used.
    pub fn setup_external_functions(&mut self)
        requires
            old(self).wf(),
        ensures
            final(self).wf(),
            final(self)@ == old(self)@.insert(
                "clock".spec_bytes(),
                TokenView {
                    token_type: TokenType::Identifier,
                    lexeme: "clock".spec_bytes(),
                    line: 0,
                },
                true,
                true,
            ),
    {
        let token: Token = Token::new(TokenType::Identifier, "clock".as_bytes(), 0);
        self.insert("clock".as_bytes(), token, true, true);
    }

    /// Puts a name with its status into the innermost scope.
    fn insert(&mut self, name: &[u8], token: Token, defined: bool, used: bool)
        requires
            old(self).wf(),
        ensures
            final(self).wf(),
            final(self)@ == old(self)@.insert(name@, token@, defined, used),
    {
        let count: usize = self.scopes.len();
        if count > 0 {
            let ghost before = self@;
            let ghost given = token@;
            assert(before.scopes[count - 1] == self.scopes@[count - 1]@);
            self.scopes[count - 1].names.push(to_bytes(name));
            self.scopes[count - 1].statuses.push(
                VariableStatus { declaration_token: token, defined, used },
            );
            proof {
                let after = self@;
                assert(after.scopes[count - 1] == self.scopes@[count - 1]@);
                assert(after.scopes[count - 1].names =~= before.scopes[count - 1].names.push(
                    name@,
                ));
                assert(after.scopes[count - 1].statuses
                    =~= before.scopes[count - 1].statuses.push(
                    StatusView { token: given, defined, used },
                ));
                assert forall|i: int| 0 <= i < count - 1 implies after.scopes[i]
                    == before.scopes[i] by {
                    assert(self.scopes@[i] == old(self).scopes@[i]);
                }
                assert(after.scopes =~= before.insert(name@, given, defined, used).scopes);
                assert forall|i: int| 0 <= i < self.scopes@.len() implies (
                #[trigger] self.scopes@[i]).names@.len() == self.scopes@[i].statuses@.len() by {
                    if i < count - 1 {
                        assert(self.scopes@[i] == old(self).scopes@[i]);
                    }
                }
            }
        }
    }

    /// Changes the status of a name of a scope.
    fn set_status(&mut self, at: usize, slot: usize, defined: bool, used: bool)
        requires
            old(self).wf(),
            at < old(self)@.scopes.len(),
            slot < old(self)@.scopes[at as int].statuses.len(),
        ensures
            final(self).wf(),
            final(self)@ == (ResolverState {
                scopes: old(self)@.scopes.update(
                    at as int,
                    with_status(
                        old(self)@.scopes[at as int],
                        slot as int,
                        StatusView {
                            defined,
                            used,
                            ..old(self)@.scopes[at as int].statuses[slot as int]
                        },
                    ),
                ),
                ..old(self)@
            }),
    {
        let ghost before = self@;
        assert(before.scopes[at as int] == self.scopes@[at as int]@);
        let token: Token = self.scopes[at].statuses[slot].declaration_token.clone();
        self.scopes[at].statuses[slot] = VariableStatus { declaration_token: token, defined, used };
        proof {
            let after = self@;
            assert(after.scopes[at as int] == self.scopes@[at as int]@);
            assert(after.scopes[at as int].names =~= before.scopes[at as int].names);
            assert(after.scopes[at as int].statuses =~= before.scopes[at as int].statuses.update(
                slot as int,
                StatusView {
                    defined,
                    used,
                    ..before.scopes[at as int].statuses[slot as int]
                },
            ));
            assert forall|i: int| 0 <= i < after.scopes.len() && i != at implies after.scopes[i]
                == before.scopes[i] by {
                assert(self.scopes@[i] == old(self).scopes@[i]);
            }
            assert(after.scopes =~= before.scopes.update(
                at as int,
                with_status(
                    before.scopes[at as int],
                    slot as int,
                    StatusView {
                        defined,
                        used,
                        ..before.scopes[at as int].statuses[slot as int]
                    },
                ),
            ));
            assert forall|i: int| 0 <= i < self.scopes@.len() implies (
            #[trigger] self.scopes@[i]).names@.len() == self.scopes@[i].statuses@.len() by {
                if i != at {
                    assert(self.scopes@[i] == old(self).scopes@[i]);
                }
                assert(old(self).scopes@[i].names@.len() == old(self).scopes@[i].statuses@.len());
            }
        }
    }

    /// Where a scope first holds a name, if it does.
    fn find_in(scope: &Scope, name: &[u8]) -> (slot: Option<usize>)
        requires
            scope.names@.len() == scope.statuses@.len(),
        ensures
            slot matches Some(found) ==> first_slot(scope@.names, name@, 0) == Some(found as int)
                && found < scope.statuses@.len(),
            slot.is_none() ==> first_slot(scope@.names, name@, 0).is_none(),
    {
        let mut i: usize = 0;
        while i < scope.names.len()
            invariant
                i <= scope.names@.len(),
                scope.names@.len() == scope.statuses@.len(),
                first_slot(scope@.names, name@, i as int) == first_slot(scope@.names, name@, 0),
            decreases scope.names@.len() - i,
        {
            assert(scope@.names[i as int] == scope.names@[i as int]@);
            if bytes_eq(scope.names[i].as_slice(), name) {
                return Some(i);
            }
            i += 1;
        }
        None
    }

    /// Sets the depth of a variable to the number of scopes between the
    /// use and the innermost scope that declares the name, and marks the
    /// name as used. A name that no scope declares is an error.
    fn resolve_local(&mut self, variable: &mut Variable)
        requires
            old(self).wf(),
        ensures
            final(self).wf(),
            (final(self)@, final(variable)@) == old(self)@.resolve_local(old(variable)@),
    {
        let count: usize = self.scopes.len();
        let mut i: usize = 0;
        while i < count
            invariant
                i <= count,
                count == self.scopes@.len(),
                self.wf(),
                *self == *old(self),
                *variable == *old(variable),
                innermost_scope(self@.scopes, variable.name.lexeme@, count - i)
                    == innermost_scope(self@.scopes, variable.name.lexeme@, count as int),
            decreases count - i,
        {
            let at: usize = count - 1 - i;
            assert(self@.scopes[at as int] == self.scopes@[at as int]@);
            match Self::find_in(&self.scopes[at], variable.name.lexeme.as_slice()) {
                Some(slot) => {
                    let defined: bool = self.scopes[at].statuses[slot].defined;
                    assert(self@.scopes[at as int].statuses[slot as int]
                        == self.scopes@[at as int].statuses@[slot as int]@);
                    self.set_status(at, slot, defined, true);
                    variable.depth = Some(i);
                    return ;
                },
                None => {},
            }
            i += 1;
        }
        let mut message: Vec<u8> = str_bytes("Couldn't resolve variable ");
        push_bytes(&mut message, variable.name.lexeme.as_slice());
        self.error(variable.name.line, message.as_slice());
    }

    /// Records an error.
    fn error(&mut self, line: usize, message: &[u8])
        requires
            old(self).wf(),
        ensures
            final(self).wf(),
            final(self)@ == old(self)@.error(line, message@),
    {
        let report: Report = Report::error(line, message);
        proof {
            lemma_reports_push(self.errors@, report);
        }
        self.errors.push(report);
    }

    /// Opens a scope.
    pub fn begin_scope(&mut self)
        requires
            old(self).wf(),
        ensures
            final(self).wf(),
            final(self)@ == old(self)@.begin_scope(),
    {
        let scope: Scope = Scope { names: Vec::new(), statuses: Vec::new() };
        proof {
            assert(scope@.names =~= Seq::<Seq<u8>>::empty());
            assert(scope@.statuses =~= Seq::<StatusView>::empty());
        }
        self.scopes.push(scope);
        proof {
            assert(self@.scopes =~= old(self)@.scopes.push(scope@));
            assert forall|i: int| 0 <= i < self.scopes@.len() implies (
            #[trigger] self.scopes@[i]).names@.len() == self.scopes@[i].statuses@.len() by {
                if i < old(self).scopes@.len() {
                    assert(self.scopes@[i] == old(self).scopes@[i]);
                }
            }
        }
    }

    /// Closes the innermost scope, with a warning for every name of it
    /// that was never used.
    pub fn end_scope(&mut self)
        requires
            old(self).wf(),
        ensures
            final(self).wf(),
            final(self)@ == old(self)@.end_scope(),
    {
        let ghost before = self@;
        match self.scopes.pop() {
            Some(scope) => {
                proof {
                    assert(self@.scopes =~= before.scopes.drop_last());
                    assert forall|i: int| 0 <= i < self.scopes@.len() implies (
                    #[trigger] self.scopes@[i]).names@.len() == self.scopes@[i].statuses@.len() by {
                        assert(self.scopes@[i] == old(self).scopes@[i]);
                    }
                    assert(scope == old(self).scopes@[old(self).scopes@.len() - 1]);
                    assert(scope@ == before.scopes.last());
                }
                let mut i: usize = 0;
                while i < scope.statuses.len()
                    invariant
                        i <= scope.statuses@.len(),
                        self.wf(),
                        self@.scopes == before.scopes.drop_last(),
                        self@.function == before.function,
                        self@.class == before.class,
                        self@.errors == before.errors,
                        self@.warnings + unused_warnings(scope@, i as int) == before.warnings
                            + unused_warnings(scope@, 0),
                    decreases scope.statuses@.len() - i,
                {
                    let ghost so_far = self@.warnings;
                    let ghost rest = unused_warnings(scope@, i as int);
                    assert(scope@.statuses[i as int] == scope.statuses@[i as int]@);
                    if !scope.statuses[i].used {
                        let mut message: Vec<u8> = str_bytes("Variable ");
                        push_bytes(
                            &mut message,
                            scope.statuses[i].declaration_token.lexeme.as_slice(),
                        );
                        push_bytes(&mut message, " is declared but never used.".as_bytes());
                        let report: Report = Report::error(
                            scope.statuses[i].declaration_token.line,
                            message.as_slice(),
                        );
                        proof {
                            lemma_reports_push(self.warnings@, report);
                        }
                        self.warnings.push(report);
                        proof {
                            let tail = unused_warnings(scope@, i + 1);
                            assert(rest == seq![report@] + tail);
                            assert(self@.warnings + tail =~= so_far + rest);
                        }
                    }
                    i += 1;
                }
                proof {
                    assert(unused_warnings(scope@, i as int) =~= Seq::<ReportView>::empty());
                    assert(self@.warnings =~= before.warnings + unused_warnings(scope@, 0));
                }
            },
            None => {},
        }
    }

    /// Declares the token's name in the innermost scope, not yet defined.
    /// A name that the scope has already is an error.
    pub fn declare(&mut self, token: &Token)
        requires
            old(self).wf(),
        ensures
            final(self).wf(),
            final(self)@ == old(self)@.declare(token@),
    {
        let count: usize = self.scopes.len();
        if count > 0 {
            assert(self@.scopes.last() == self.scopes@[count - 1]@);
            if Self::find_in(&self.scopes[count - 1], token.lexeme.as_slice()).is_some() {
                let mut message: Vec<u8> = str_bytes("Variable with name ");
                push_bytes(&mut message, token.lexeme.as_slice());
                push_bytes(&mut message, " is already declared in this scope.".as_bytes());
                self.error(token.line, message.as_slice());
            } else {
                self.insert(token.lexeme.as_slice(), token.clone(), false, false);
            }
        }
    }

    /// Marks the token's name in the innermost scope as defined. Where the
    /// scope has not declared the name, nothing changes.
    pub fn define(&mut self, token: &Token)
        requires
            old(self).wf(),
        ensures
            final(self).wf(),
            final(self)@ == old(self)@.define(token@),
    {
        let count: usize = self.scopes.len();
        if count > 0 {
            assert(self@.scopes.last() == self.scopes@[count - 1]@);
            match Self::find_in(&self.scopes[count - 1], token.lexeme.as_slice()) {
                Some(slot) => {
                    let used: bool = self.scopes[count - 1].statuses[slot].used;
                    assert(self@.scopes[count - 1].statuses[slot as int]
                        == self.scopes@[count - 1].statuses@[slot as int]@);
                    self.set_status(count - 1, slot, true, used);
                },
                None => {},
            }
        }
    }

    /// Whether the innermost scope has declared the name and not yet
    /// defined it.
    fn is_being_initialized(&self, name: &[u8]) -> (pending: bool)
        requires
            self.wf(),
        ensures
            pending == self@.pending(name@),
    {
        let count: usize = self.scopes.len();
        if count > 0 {
            assert(self@.scopes.last() == self.scopes@[count - 1]@);
            match Self::find_in(&self.scopes[count - 1], name) {
                Some(slot) => {
                    assert(self@.scopes[count - 1].statuses[slot as int]
                        == self.scopes@[count - 1].statuses@[slot as int]@);
                    !self.scopes[count - 1].statuses[slot].defined
                },
                None => false,
            }
        } else {
            false
        }
    }

    #[verifier::rlimit(100)]
    fn resolve_stmts(&mut self, statements: &mut Vec<Stmt>)
        requires
            old(self).wf(),
        ensures
            final(self).wf(),
            final(self)@ == resolve_stmts(
                old(self)@,
                stmts_view(old(statements)@),
                old(statements)@.len(),
            ).0,
            stmts_view(final(statements)@) == resolve_stmts(
                old(self)@,
                stmts_view(old(statements)@),
                old(statements)@.len(),
            ).1,
        decreases *old(statements),
    {
        let ghost untouched = statements@;
        let ghost given = stmts_view(statements@);
        let ghost start = self@;
        let mut i: usize = 0;
        assert(stmts_view(statements@).subrange(0, 0) =~= Seq::<StmtView>::empty());
        while i < statements.len()
            invariant
                i <= statements@.len(),
                self.wf(),
                statements@.len() == untouched.len(),
                untouched == old(statements)@,
                given == stmts_view(untouched),
                forall|j: int| i <= j < untouched.len() ==> statements@[j] == untouched[j],
                self@ == resolve_stmts(start, given, i as nat).0,
                stmts_view(statements@).subrange(0, i as int) == resolve_stmts(
                    start,
                    given,
                    i as nat,
                ).1,
            decreases statements@.len() - i,
        {
            assert(statements@[i as int] == old(statements)@[i as int]);
            let ghost before = stmts_view(statements@);
            let ghost list = statements@;
            assert(given[i as int] == untouched[i as int]@);
            self.resolve_stmt(&mut statements[i]);
            proof {
                let after = stmts_view(statements@);
                assert forall|j: int| 0 <= j < i implies after[j] == before[j] by {
                    assert(statements@[j] == list[j]);
                }
                assert(after.subrange(0, i + 1) =~= before.subrange(0, i as int).push(
                    statements@[i as int]@,
                ));
            }
            i += 1;
        }
        assert(stmts_view(statements@).subrange(0, i as int) =~= stmts_view(statements@));
    }

    #[verifier::rlimit(100)]
    fn resolve_exprs(&mut self, exprs: &mut Vec<Expr>)
        requires
            old(self).wf(),
        ensures
            final(self).wf(),
            final(self)@ == resolve_exprs(
                old(self)@,
                exprs_view(old(exprs)@),
                old(exprs)@.len(),
            ).0,
            exprs_view(final(exprs)@) == resolve_exprs(
                old(self)@,
                exprs_view(old(exprs)@),
                old(exprs)@.len(),
            ).1,
        decreases *old(exprs),
    {
        let ghost untouched = exprs@;
        let ghost given = exprs_view(exprs@);
        let ghost start = self@;
        let mut i: usize = 0;
        assert(exprs_view(exprs@).subrange(0, 0) =~= Seq::<ExprView>::empty());
        while i < exprs.len()
            invariant
                i <= exprs@.len(),
                self.wf(),
                exprs@.len() == untouched.len(),
                untouched == old(exprs)@,
                given == exprs_view(untouched),
                forall|j: int| i <= j < untouched.len() ==> exprs@[j] == untouched[j],
                self@ == resolve_exprs(start, given, i as nat).0,
                exprs_view(exprs@).subrange(0, i as int) == resolve_exprs(
                    start,
                    given,
                    i as nat,
                ).1,
            decreases exprs@.len() - i,
        {
            assert(exprs@[i as int] == old(exprs)@[i as int]);
            let ghost before = exprs_view(exprs@);
            let ghost list = exprs@;
            assert(given[i as int] == untouched[i as int]@);
            self.resolve_expr(&mut exprs[i]);
            proof {
                let after = exprs_view(exprs@);
                assert forall|j: int| 0 <= j < i implies after[j] == before[j] by {
                    assert(exprs@[j] == list[j]);
                }
                assert(after.subrange(0, i + 1) =~= before.subrange(0, i as int).push(
                    exprs@[i as int]@,
                ));
            }
            i += 1;
        }
        assert(exprs_view(exprs@).subrange(0, i as int) =~= exprs_view(exprs@));
    }

    #[verifier::rlimit(100)]
    fn resolve_methods(
        &mut self,
        methods: &mut Vec<FunctionDecl>,
        class_name: &[u8],
        Ghost(fallback): Ghost<TokenView>,
    )
        requires
            old(self).wf(),
        ensures
            final(self).wf(),
            final(self)@ == resolve_methods(
                old(self)@,
                functions_view(old(methods)@, fallback),
                class_name@,
                old(methods)@.len(),
            ).0,
            functions_view(final(methods)@, fallback) == resolve_methods(
                old(self)@,
                functions_view(old(methods)@, fallback),
                class_name@,
                old(methods)@.len(),
            ).1,
        decreases *old(methods),
    {
        let ghost untouched = methods@;
        let ghost given = functions_view(methods@, fallback);
        let ghost start = self@;
        let mut i: usize = 0;
        assert(functions_view(methods@, fallback).subrange(0, 0) =~= Seq::empty());
        while i < methods.len()
            invariant
                i <= methods@.len(),
                self.wf(),
                methods@.len() == untouched.len(),
                untouched == old(methods)@,
                given == functions_view(untouched, fallback),
                forall|j: int| i <= j < untouched.len() ==> methods@[j] == untouched[j],
                self@ == resolve_methods(start, given, class_name@, i as nat).0,
                functions_view(methods@, fallback).subrange(0, i as int) == resolve_methods(
                    start,
                    given,
                    class_name@,
                    i as nat,
                ).1,
            decreases methods@.len() - i,
        {
            assert(methods@[i as int] == old(methods)@[i as int]);
            let ghost before = functions_view(methods@, fallback);
            let ghost list = methods@;
            assert(given[i as int] == untouched[i as int]@);
            let function_type: FunctionType = if bytes_eq(
                methods[i].name.lexeme.as_slice(),
                class_name,
            ) {
                FunctionType::Initializer
            } else {
                FunctionType::Method
            };
            self.resolve_function(&mut methods[i], function_type);
            proof {
                let after = functions_view(methods@, fallback);
                assert forall|j: int| 0 <= j < i implies after[j] == before[j] by {
                    assert(methods@[j] == list[j]);
                }
                assert(after.subrange(0, i + 1) =~= before.subrange(0, i as int).push(
                    methods@[i as int]@,
                ));
            }
            i += 1;
        }
        assert(functions_view(methods@, fallback).subrange(0, i as int) =~= functions_view(
            methods@,
            fallback,
        ));
    }

    #[verifier::rlimit(100)]
    fn resolve_function(&mut self, function_decl: &mut FunctionDecl, function_type: FunctionType)
        requires
            old(self).wf(),
        ensures
            final(self).wf(),
            final(self)@ == resolve_function(old(self)@, old(function_decl)@, function_type).0,
            final(function_decl)@ == resolve_function(
                old(self)@,
                old(function_decl)@,
                function_type,
            ).1,
        decreases *old(function_decl),
    {
        let enclosing: FunctionType = self.current_function;
        self.current_function = function_type;
        self.begin_scope();
        let ghost opened = self@;
        let mut i: usize = 0;
        while i < function_decl.params.len()
            invariant
                i <= function_decl.params@.len(),
                self.wf(),
                *function_decl == *old(function_decl),
                self@ == declare_params(opened, tokens_view(function_decl.params@), i as nat),
            decreases function_decl.params@.len() - i,
        {
            let param: Token = function_decl.params[i].clone();
            assert(tokens_view(function_decl.params@)[i as int] == function_decl.params@[i as int]@);
            self.declare(&param);
            self.define(&param);
            i += 1;
        }
        let ghost before = *function_decl;
        assert(before@.body =~= stmts_view(before.body@));
        self.resolve_stmts(&mut function_decl.body);
        assert(function_decl@.body =~= stmts_view(function_decl.body@));
        self.end_scope();
        self.current_function = enclosing;
    }

    #[verifier::rlimit(100)]
    fn resolve_stmt(&mut self, statement: &mut Stmt)
        requires
            old(self).wf(),
        ensures
            final(self).wf(),
            final(self)@ == resolve_stmt(old(self)@, old(statement)@).0,
            final(statement)@ == resolve_stmt(old(self)@, old(statement)@).1,
        decreases *old(statement),
    {
        proof {
            lemma_views(statement);
        }
        match statement {
            Stmt::Block(block) => {
                self.begin_scope();
                self.resolve_stmts(&mut block.statements);
                self.end_scope();
            },
            Stmt::Class(class) => {
                self.visit_class(class);
            },
            Stmt::Expression(expression) => {
                self.resolve_expr(expression);
            },
            Stmt::Function(function) => {
                let name: Token = (*function.name).clone();
                self.declare(&name);
                self.define(&name);
                self.resolve_function(function, FunctionType::Function);
            },
            Stmt::If(if_stmt) => {
                self.resolve_expr(&mut if_stmt.condition);
                self.resolve_stmt(&mut if_stmt.then_branch);
                match &mut if_stmt.else_branch {
                    Some(stmt) => {
                        self.resolve_stmt(stmt);
                    },
                    None => {},
                }
            },
            Stmt::Print(expression) => {
                self.resolve_expr(expression);
            },
            Stmt::Return(ret) => {
                if self.current_function == FunctionType::Outside {
                    self.error(ret.keyword.line, "Cannot return from top level code.".as_bytes());
                } else {
                    match &mut ret.value {
                        Some(expr) => {
                            if self.current_function == FunctionType::Initializer {
                                self.error(
                                    ret.keyword.line,
                                    "Cannot return values from an initializer".as_bytes(),
                                );
                            }
                            self.resolve_expr(expr);
                        },
                        None => {},
                    }
                }
            },
            Stmt::While(while_stmt) => {
                self.resolve_expr(&mut while_stmt.condition);
                self.resolve_stmt(&mut while_stmt.body);
            },
            Stmt::Declaration(declaration) => {
                let name: Token = declaration.name.clone();
                self.declare(&name);
                match &mut declaration.initializer {
                    Some(initializer) => {
                        self.resolve_expr(initializer);
                    },
                    None => {},
                }
                self.define(&name);
            },
        }
        proof {
            lemma_views(statement);
        }
    }

    /// Resolves the head of a class: its name, and its superclass where it
    /// has one. Says whether a scope was opened for `super`.
    #[verifier::rlimit(100)]
    fn class_head(&mut self, class: &mut ClassDecl) -> (inherits: bool)
        requires
            old(self).wf(),
        ensures
            final(self).wf(),
            final(class).name == old(class).name,
            final(class).methods == old(class).methods,
            (
                final(self)@,
                match final(class).superclass {
                    Some(variable) => Some(variable@),
                    None => None,
                },
                inherits,
            ) == class_head(
                old(self)@,
                old(class).name@,
                match old(class).superclass {
                    Some(variable) => Some(variable@),
                    None => None,
                },
            ),
    {
        self.current_class = ClassType::Class;
        let name: Token = (*class.name).clone();
        self.declare(&name);
        self.define(&name);
        match &mut class.superclass {
            Some(superclass) => {
                if bytes_eq(superclass.name.lexeme.as_slice(), name.lexeme.as_slice()) {
                    self.error(
                        superclass.name.line,
                        "A class cannot inherit from itself".as_bytes(),
                    );
                    false
                } else {
                    self.current_class = ClassType::Subclass;
                    self.resolve_local(superclass);
                    self.begin_scope();
                    let token: Token = superclass.name.clone();
                    self.insert("super".as_bytes(), token, true, true);
                    true
                }
            },
            None => false,
        }
    }

    #[verifier::rlimit(100)]
    fn visit_class(&mut self, class: &mut ClassDecl)
        requires
            old(self).wf(),
        ensures
            final(self).wf(),
            final(self)@ == resolve_stmt(old(self)@, Stmt::Class(*old(class))@).0,
            Stmt::Class(*final(class))@ == resolve_stmt(old(self)@, Stmt::Class(*old(class))@).1,
        decreases *old(class),
    {
        proof {
            lemma_views(&Stmt::Class(*class));
        }
        let enclosing_class: ClassType = self.current_class;
        let inherits: bool = self.class_head(class);
        let name: Token = (*class.name).clone();
        self.begin_scope();
        self.insert("this".as_bytes(), name.clone(), true, true);
        self.resolve_methods(&mut class.methods, name.lexeme.as_slice(), Ghost(name@));
        self.end_scope();
        if inherits {
            self.end_scope();
        }
        self.current_class = enclosing_class;
        proof {
            lemma_views(&Stmt::Class(*class));
        }
    }

    #[verifier::rlimit(100)]
    fn resolve_expr(&mut self, expr: &mut Expr)
        requires
            old(self).wf(),
        ensures
            final(self).wf(),
            final(self)@ == resolve_expr(old(self)@, old(expr)@).0,
            final(expr)@ == resolve_expr(old(self)@, old(expr)@).1,
        decreases *old(expr),
    {
        match expr {
            Expr::Assign(assign) => {
                self.resolve_expr(&mut assign.value);
                self.resolve_local(&mut assign.variable);
            },
            Expr::Binary(binary) => {
                self.resolve_expr(&mut binary.left);
                self.resolve_expr(&mut binary.right);
            },
            Expr::Call(call) => {
                self.resolve_call(call);
            },
            Expr::Get(get) => {
                self.resolve_expr(&mut get.object);
            },
            Expr::Grouping(grouping) => {
                self.resolve_expr(&mut grouping.expression);
            },
            Expr::Literal(_) => {},
            Expr::Logical(logical) => {
                self.resolve_expr(&mut logical.left);
                self.resolve_expr(&mut logical.right);
            },
            Expr::Unary(unary) => {
                self.resolve_expr(&mut unary.right);
            },
            Expr::SetExpr(set) => {
                self.resolve_expr(&mut set.object);
                self.resolve_expr(&mut set.value);
            },
            Expr::Super(super_expr) => {
                match self.current_class {
                    ClassType::Outside => {
                        self.error(
                            super_expr.keyword.name.line,
                            "Cannot use 'super' outside of a class".as_bytes(),
                        );
                    },
                    ClassType::Class => {
                        self.error(
                            super_expr.keyword.name.line,
                            "Cannot use 'super' in a class with no superclass".as_bytes(),
                        );
                    },
                    ClassType::Subclass => {},
                }
                self.resolve_local(&mut super_expr.keyword);
            },
            Expr::Ternary(ternary) => {
                self.resolve_expr(&mut ternary.condition);
                self.resolve_expr(&mut ternary.true_branch);
                self.resolve_expr(&mut ternary.false_branch);
            },
            Expr::This(this) => {
                if self.current_class == ClassType::Outside {
                    self.error(
                        this.variable.name.line,
                        "Cannot use 'this' keyword outside of a class.".as_bytes(),
                    );
                } else {
                    self.resolve_local(&mut this.variable);
                }
            },
            Expr::Variable(variable) => {
                if self.is_being_initialized(variable.name.lexeme.as_slice()) {
                    self.error(
                        variable.name.line,
                        "Cannot read local variable in own initializer".as_bytes(),
                    );
                }
                self.resolve_local(variable);
            },
        }
    }

    /// Resolves a call: the callee, then the arguments in order.
    #[verifier::rlimit(100)]
    fn resolve_call(&mut self, call: &mut Call)
        requires
            old(self).wf(),
        ensures
            final(self).wf(),
            final(self)@ == resolve_expr(old(self)@, Expr::Call(*old(call))@).0,
            Expr::Call(*final(call))@ == resolve_expr(old(self)@, Expr::Call(*old(call))@).1,
        decreases *old(call),
    {
        proof {
            lemma_call_view(call);
            assert(Expr::Call(*call)@->Call_arguments =~= exprs_view(call.arguments@));
        }
        self.resolve_expr(&mut call.callee);
        self.resolve_exprs(&mut call.arguments);
        proof {
            lemma_call_view(call);
            assert(Expr::Call(*call)@->Call_arguments =~= exprs_view(call.arguments@));
        }
    }
}

} // verus!
