use crate::front::expr::{Expr, ExprView, LiteralView, Variable, VariableView};
use crate::front::token::{tokens_view, Token, TokenView};
use vstd::prelude::*;

verus! {

#[derive(Debug)]
pub enum Stmt {
    Block(Block),
    Class(ClassDecl),
    Expression(Expr),
    Function(FunctionDecl),
    If(If),
    Print(Expr),
    Return(Return),
    While(While),
    Declaration(Declaration),
}

#[derive(Debug)]
pub struct Return {
    pub keyword: Box<Token>,
    pub value: Option<Box<Expr>>,
}

#[derive(Debug)]
pub struct FunctionDecl {
    pub name: Box<Token>,
    pub params: Vec<Token>,
    pub body: Vec<Stmt>,
}

#[derive(Debug)]
pub struct ClassDecl {
    pub name: Box<Token>,
    pub superclass: Option<Box<Variable>>,
    pub methods: Vec<FunctionDecl>,
}

#[derive(Debug)]
pub struct While {
    pub condition: Box<Expr>,
    pub body: Box<Stmt>,
}

#[derive(Debug)]
pub struct If {
    pub condition: Box<Expr>,
    pub then_branch: Box<Stmt>,
    pub else_branch: Option<Box<Stmt>>,
}

#[derive(Debug)]
pub struct Block {
    pub statements: Vec<Stmt>,
}

#[derive(Debug)]
pub struct Declaration {
    pub name: Token,
    pub initializer: Option<Expr>,
}

/// What a function declaration is.
pub struct FunctionView {
    pub name: TokenView,
    pub params: Seq<TokenView>,
    pub body: Seq<StmtView>,
}

/// What a statement is.
#[allow(inconsistent_fields)]
pub enum StmtView {
    Block { statements: Seq<StmtView> },
    Class { name: TokenView, superclass: Option<VariableView>, methods: Seq<FunctionView> },
    Expression { expression: ExprView },
    Function { function: FunctionView },
    If { condition: ExprView, then_branch: Box<StmtView>, else_branch: Option<Box<StmtView>> },
    Print { expression: ExprView },
    Return { keyword: TokenView, value: Option<ExprView> },
    While { condition: ExprView, body: Box<StmtView> },
    Declaration { name: TokenView, initializer: Option<ExprView> },
}

/// A statement that stands for nothing: the empty block.
pub open spec fn no_stmt() -> StmtView {
    StmtView::Block { statements: Seq::empty() }
}

/// What a statement is.
pub open spec fn stmt_view(stmt: &Stmt) -> StmtView
    decreases stmt,
{
    match stmt {
        Stmt::Block(block) => StmtView::Block {
            statements: Seq::new(
                block.statements@.len(),
                |i: int|
                    if 0 <= i < block.statements@.len() {
                        stmt_view(&block.statements@[i])
                    } else {
                        no_stmt()
                    },
            ),
        },
        Stmt::Class(class) => StmtView::Class {
            name: class.name@,
            superclass: match class.superclass {
                Some(variable) => Some(variable@),
                None => None,
            },
            methods: Seq::new(
                class.methods@.len(),
                |i: int|
                    if 0 <= i < class.methods@.len() {
                        function_view(&class.methods@[i])
                    } else {
                        FunctionView {
                            name: class.name@,
                            params: Seq::empty(),
                            body: Seq::empty(),
                        }
                    },
            ),
        },
        Stmt::Expression(expression) => StmtView::Expression { expression: expression@ },
        Stmt::Function(function) => StmtView::Function { function: function_view(function) },
        Stmt::If(if_stmt) => StmtView::If {
            condition: if_stmt.condition@,
            then_branch: Box::new(stmt_view(&*if_stmt.then_branch)),
            else_branch: match &if_stmt.else_branch {
                Some(branch) => Some(Box::new(stmt_view(&**branch))),
                None => None,
            },
        },
        Stmt::Print(expression) => StmtView::Print { expression: expression@ },
        Stmt::Return(ret) => StmtView::Return {
            keyword: ret.keyword@,
            value: match &ret.value {
                Some(value) => Some(value@),
                None => None,
            },
        },
        Stmt::While(while_stmt) => StmtView::While {
            condition: while_stmt.condition@,
            body: Box::new(stmt_view(&*while_stmt.body)),
        },
        Stmt::Declaration(declaration) => StmtView::Declaration {
            name: declaration.name@,
            initializer: match &declaration.initializer {
                Some(initializer) => Some(initializer@),
                None => None,
            },
        },
    }
}

/// What a function declaration is.
pub open spec fn function_view(function: &FunctionDecl) -> FunctionView
    decreases function,
{
    FunctionView {
        name: function.name@,
        params: tokens_view(function.params@),
        body: Seq::new(
            function.body@.len(),
            |i: int|
                if 0 <= i < function.body@.len() {
                    stmt_view(&function.body@[i])
                } else {
                    no_stmt()
                },
        ),
    }
}

impl View for Stmt {
    type V = StmtView;

    open spec fn view(&self) -> StmtView {
        stmt_view(self)
    }
}

impl View for FunctionDecl {
    type V = FunctionView;

    open spec fn view(&self) -> FunctionView {
        function_view(self)
    }
}

/// The view of each statement of a sequence.
pub open spec fn stmts_view(stmts: Seq<Stmt>) -> Seq<StmtView> {
    Seq::new(stmts.len(), |i: int| if 0 <= i < stmts.len() {
        stmts[i]@
    } else {
        no_stmt()
    })
}

/// The view of each expression of a sequence.
pub open spec fn exprs_view(exprs: Seq<Expr>) -> Seq<ExprView> {
    Seq::new(
        exprs.len(),
        |i: int|
            if 0 <= i < exprs.len() {
                exprs[i]@
            } else {
                ExprView::Literal { value: LiteralView::Nil }
            },
    )
}

/// The view of each function declaration of a sequence.
pub open spec fn functions_view(functions: Seq<FunctionDecl>, name: TokenView) -> Seq<FunctionView> {
    Seq::new(
        functions.len(),
        |i: int|
            if 0 <= i < functions.len() {
                functions[i]@
            } else {
                FunctionView { name, params: Seq::empty(), body: Seq::empty() }
            },
    )
}

/// A block is its statements, a function its parameters and the statements
/// of its body, a class its methods, a call its arguments.
pub proof fn lemma_views(stmt: &Stmt)
    ensures
        stmt matches Stmt::Block(block) ==> stmt@ == (StmtView::Block {
            statements: stmts_view(block.statements@),
        }),
        stmt matches Stmt::Function(function) ==> function@.body == stmts_view(function.body@),
        stmt matches Stmt::Class(class) ==> stmt@ == (StmtView::Class {
            name: class.name@,
            superclass: match class.superclass {
                Some(variable) => Some(variable@),
                None => None,
            },
            methods: functions_view(class.methods@, class.name@),
        }),
{
    match stmt {
        Stmt::Block(block) => {
            assert(stmt@->Block_statements =~= stmts_view(block.statements@));
        },
        Stmt::Function(function) => {
            assert(function@.body =~= stmts_view(function.body@));
        },
        Stmt::Class(class) => {
            assert(stmt@->Class_methods =~= functions_view(class.methods@, class.name@));
        },
        _ => {},
    }
}

/// The statements with one more.
pub proof fn lemma_stmts_push(stmts: Seq<Stmt>, stmt: Stmt)
    ensures
        stmts_view(stmts.push(stmt)) == stmts_view(stmts).push(stmt@),
{
    assert(stmts_view(stmts.push(stmt)) =~= stmts_view(stmts).push(stmt@));
}

/// The expressions with one more.
pub proof fn lemma_exprs_push(exprs: Seq<Expr>, expr: Expr)
    ensures
        exprs_view(exprs.push(expr)) == exprs_view(exprs).push(expr@),
{
    assert(exprs_view(exprs.push(expr)) =~= exprs_view(exprs).push(expr@));
}

/// The function declarations with one more.
pub proof fn lemma_functions_push(functions: Seq<FunctionDecl>, function: FunctionDecl, name: TokenView)
    ensures
        functions_view(functions.push(function), name) == functions_view(functions, name).push(
            function@,
        ),
{
    assert(functions_view(functions.push(function), name) =~= functions_view(
        functions,
        name,
    ).push(function@));
}

impl Block {
    pub fn new(statements: Vec<Stmt>) -> (block: Block)
        ensures
            block.statements == statements,
    {
        Block { statements }
    }
}

impl If {
    pub fn new(condition: Expr, then_branch: Stmt, else_branch: Option<Stmt>) -> (if_stmt: If)
        ensures
            *if_stmt.condition == condition,
            *if_stmt.then_branch == then_branch,
            match else_branch {
                Some(branch) => if_stmt.else_branch == Some(Box::new(branch)),
                None => if_stmt.else_branch.is_none(),
            },
    {
        If {
            condition: Box::new(condition),
            then_branch: Box::new(then_branch),
            else_branch: match else_branch {
                Some(stmt) => Some(Box::new(stmt)),
                None => None,
            },
        }
    }
}

impl While {
    pub fn new(condition: Expr, body: Stmt) -> (while_stmt: While)
        ensures
            *while_stmt.condition == condition,
            *while_stmt.body == body,
    {
        While { condition: Box::new(condition), body: Box::new(body) }
    }
}

impl FunctionDecl {
    pub fn new(name: &Token, params: Vec<Token>, body: Vec<Stmt>) -> (function: FunctionDecl)
        ensures
            function.name@ == name@,
            function.params == params,
            function.body == body,
    {
        FunctionDecl { name: Box::new(name.clone()), params, body }
    }
}

impl ClassDecl {
    pub fn new(name: Token, superclass: Option<Variable>, methods: Vec<FunctionDecl>) -> (class:
        ClassDecl)
        ensures
            *class.name == name,
            match superclass {
                Some(variable) => class.superclass == Some(Box::new(variable)),
                None => class.superclass.is_none(),
            },
            class.methods == methods,
    {
        ClassDecl {
            name: Box::new(name),
            superclass: match superclass {
                Some(variable) => Some(Box::new(variable)),
                None => None,
            },
            methods,
        }
    }
}

impl Return {
    pub fn new(keyword: Token, value: Option<Expr>) -> (ret: Return)
        ensures
            *ret.keyword == keyword,
            match value {
                Some(expr) => ret.value == Some(Box::new(expr)),
                None => ret.value.is_none(),
            },
    {
        Return {
            keyword: Box::new(keyword),
            value: match value {
                Some(x) => Some(Box::new(x)),
                None => None,
            },
        }
    }
}

} // verus!
