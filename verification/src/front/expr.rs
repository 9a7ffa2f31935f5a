use crate::bytecode::number::Number;
use crate::front::token::{Token, TokenView};
use crate::text::to_bytes;
use vstd::prelude::*;

verus! {

/// A literal value.
#[derive(Debug)]
pub enum Literal {
    String(Vec<u8>),
    Number(Number),
    Bool(bool),
    Nil,
}

/// What a literal is, with a string given by its bytes.
pub enum LiteralView {
    String(Seq<u8>),
    Number(Number),
    Bool(bool),
    Nil,
}

impl View for Literal {
    type V = LiteralView;

    open spec fn view(&self) -> LiteralView {
        match self {
            Literal::String(s) => LiteralView::String(s@),
            Literal::Number(n) => LiteralView::Number(*n),
            Literal::Bool(b) => LiteralView::Bool(*b),
            Literal::Nil => LiteralView::Nil,
        }
    }
}

impl Clone for Literal {
    fn clone(&self) -> (copy: Literal)
        ensures
            copy@ == self@,
    {
        match self {
            Literal::String(s) => Literal::String(to_bytes(s.as_slice())),
            Literal::Number(n) => Literal::Number(*n),
            Literal::Bool(b) => Literal::Bool(*b),
            Literal::Nil => Literal::Nil,
        }
    }
}

/// A reference to a variable: the token that names it and, once resolved,
/// the number of scopes between the reference and the scope that binds
/// the name.
#[derive(Debug)]
pub struct Variable {
    pub name: Token,
    pub depth: Option<usize>,
}

pub struct VariableView {
    pub name: TokenView,
    pub depth: Option<usize>,
}

impl View for Variable {
    type V = VariableView;

    open spec fn view(&self) -> VariableView {
        VariableView { name: self.name@, depth: self.depth }
    }
}

impl Variable {
    pub fn new(name: Token) -> (variable: Variable)
        ensures
            variable@ == (VariableView { name: name@, depth: None }),
    {
        Variable { name, depth: None }
    }
}

#[derive(Debug)]
pub enum Expr {
    Assign(Assign),
    Binary(Binary),
    Call(Call),
    Get(Get),
    Grouping(Grouping),
    Literal(Literal),
    Logical(Binary),
    SetExpr(SetExpr),
    Super(Super),
    This(This),
    Unary(Unary),
    Ternary(Ternary),
    Variable(Variable),
}

#[derive(Debug)]
pub struct Super {
    pub keyword: Box<Variable>,
    pub method: Box<Token>,
}

#[derive(Debug)]
pub struct This {
    pub variable: Box<Variable>,
}

#[derive(Debug)]
pub struct SetExpr {
    pub object: Box<Expr>,
    pub name: Box<Token>,
    pub value: Box<Expr>,
}

#[derive(Debug)]
pub struct Get {
    pub object: Box<Expr>,
    pub name: Box<Token>,
}

#[derive(Debug)]
pub struct Assign {
    pub variable: Box<Variable>,
    pub value: Box<Expr>,
}

#[derive(Debug)]
pub struct Binary {
    pub left: Box<Expr>,
    pub operator: Box<Token>,
    pub right: Box<Expr>,
}

#[derive(Debug)]
pub struct Call {
    pub callee: Box<Expr>,
    pub paren: Box<Token>,
    pub arguments: Vec<Expr>,
}

#[derive(Debug)]
pub struct Ternary {
    pub condition: Box<Expr>,
    pub true_branch: Box<Expr>,
    pub false_branch: Box<Expr>,
}

#[derive(Debug)]
pub struct Grouping {
    pub expression: Box<Expr>,
}

#[derive(Debug)]
pub struct Unary {
    pub operator: Box<Token>,
    pub right: Box<Expr>,
}

/// What an expression is.
#[allow(inconsistent_fields)]
pub enum ExprView {
    Assign { variable: VariableView, value: Box<ExprView> },
    Binary { left: Box<ExprView>, operator: TokenView, right: Box<ExprView> },
    Call { callee: Box<ExprView>, paren: TokenView, arguments: Seq<ExprView> },
    Get { object: Box<ExprView>, name: TokenView },
    Grouping { expression: Box<ExprView> },
    Literal { value: LiteralView },
    Logical { left: Box<ExprView>, operator: TokenView, right: Box<ExprView> },
    SetExpr { object: Box<ExprView>, name: TokenView, value: Box<ExprView> },
    Super { keyword: VariableView, method: TokenView },
    This { variable: VariableView },
    Unary { operator: TokenView, right: Box<ExprView> },
    Ternary { condition: Box<ExprView>, true_branch: Box<ExprView>, false_branch: Box<ExprView> },
    Variable { variable: VariableView },
}

/// What an expression is.
pub open spec fn expr_view(expr: &Expr) -> ExprView
    decreases expr,
{
    match expr {
        Expr::Assign(assign) => ExprView::Assign {
            variable: assign.variable@,
            value: Box::new(expr_view(&*assign.value)),
        },
        Expr::Binary(binary) => ExprView::Binary {
            left: Box::new(expr_view(&*binary.left)),
            operator: binary.operator@,
            right: Box::new(expr_view(&*binary.right)),
        },
        Expr::Call(call) => ExprView::Call {
            callee: Box::new(expr_view(&*call.callee)),
            paren: call.paren@,
            arguments: Seq::new(
                call.arguments@.len(),
                |i: int|
                    if 0 <= i < call.arguments@.len() {
                        expr_view(&call.arguments@[i])
                    } else {
                        ExprView::Literal { value: LiteralView::Nil }
                    },
            ),
        },
        Expr::Get(get) => ExprView::Get {
            object: Box::new(expr_view(&*get.object)),
            name: get.name@,
        },
        Expr::Grouping(grouping) => ExprView::Grouping {
            expression: Box::new(expr_view(&*grouping.expression)),
        },
        Expr::Literal(literal) => ExprView::Literal { value: literal@ },
        Expr::Logical(binary) => ExprView::Logical {
            left: Box::new(expr_view(&*binary.left)),
            operator: binary.operator@,
            right: Box::new(expr_view(&*binary.right)),
        },
        Expr::SetExpr(set) => ExprView::SetExpr {
            object: Box::new(expr_view(&*set.object)),
            name: set.name@,
            value: Box::new(expr_view(&*set.value)),
        },
        Expr::Super(super_expr) => ExprView::Super {
            keyword: super_expr.keyword@,
            method: super_expr.method@,
        },
        Expr::This(this) => ExprView::This { variable: this.variable@ },
        Expr::Unary(unary) => ExprView::Unary {
            operator: unary.operator@,
            right: Box::new(expr_view(&*unary.right)),
        },
        Expr::Ternary(ternary) => ExprView::Ternary {
            condition: Box::new(expr_view(&*ternary.condition)),
            true_branch: Box::new(expr_view(&*ternary.true_branch)),
            false_branch: Box::new(expr_view(&*ternary.false_branch)),
        },
        Expr::Variable(variable) => ExprView::Variable { variable: variable@ },
    }
}

impl View for Expr {
    type V = ExprView;

    open spec fn view(&self) -> ExprView {
        expr_view(self)
    }
}

impl Assign {
    pub fn new(name: Token, value: Expr) -> (assign: Assign)
        ensures
            assign.variable@ == (VariableView { name: name@, depth: None }),
            *assign.value == value,
    {
        Assign { variable: Box::new(Variable::new(name)), value: Box::new(value) }
    }
}

impl Binary {
    pub fn new(left: Expr, operator: Token, right: Expr) -> (binary: Binary)
        ensures
            *binary.left == left,
            *binary.operator == operator,
            *binary.right == right,
    {
        Binary { left: Box::new(left), operator: Box::new(operator), right: Box::new(right) }
    }
}

impl Call {
    pub fn new(callee: Expr, paren: Token, arguments: Vec<Expr>) -> (call: Call)
        ensures
            *call.callee == callee,
            *call.paren == paren,
            call.arguments == arguments,
    {
        Call { callee: Box::new(callee), paren: Box::new(paren), arguments }
    }
}

impl Grouping {
    pub fn new(expr: Expr) -> (grouping: Grouping)
        ensures
            *grouping.expression == expr,
    {
        Grouping { expression: Box::new(expr) }
    }
}

impl Unary {
    pub fn new(operator: Token, expr: Expr) -> (unary: Unary)
        ensures
            *unary.operator == operator,
            *unary.right == expr,
    {
        Unary { operator: Box::new(operator), right: Box::new(expr) }
    }
}

impl Ternary {
    pub fn new(condition: Expr, true_branch: Expr, false_branch: Expr) -> (ternary: Ternary)
        ensures
            *ternary.condition == condition,
            *ternary.true_branch == true_branch,
            *ternary.false_branch == false_branch,
    {
        Ternary {
            condition: Box::new(condition),
            true_branch: Box::new(true_branch),
            false_branch: Box::new(false_branch),
        }
    }
}

impl Get {
    pub fn new(expr: Expr, name: Token) -> (get: Get)
        ensures
            *get.object == expr,
            *get.name == name,
    {
        Get { object: Box::new(expr), name: Box::new(name) }
    }
}

impl SetExpr {
    pub fn new(expr: Expr, name: Token, value: Expr) -> (set: SetExpr)
        ensures
            *set.object == expr,
            *set.name == name,
            *set.value == value,
    {
        SetExpr { object: Box::new(expr), name: Box::new(name), value: Box::new(value) }
    }
}

impl This {
    pub fn new(token: Token) -> (this: This)
        ensures
            this.variable@ == (VariableView { name: token@, depth: None }),
    {
        This { variable: Box::new(Variable::new(token)) }
    }
}

impl Super {
    pub fn new(keyword: Variable, method: Token) -> (super_expr: Super)
        ensures
            *super_expr.keyword == keyword,
            *super_expr.method == method,
    {
        Super { keyword: Box::new(keyword), method: Box::new(method) }
    }
}

/// A call is its callee and the views of its arguments.
pub proof fn lemma_call_view(call: &Call)
    ensures
        Expr::Call(*call)@ == (ExprView::Call {
            callee: Box::new(call.callee@),
            paren: call.paren@,
            arguments: Seq::new(
                call.arguments@.len(),
                |i: int|
                    if 0 <= i < call.arguments@.len() {
                        call.arguments@[i]@
                    } else {
                        ExprView::Literal { value: LiteralView::Nil }
                    },
            ),
        }),
{
    assert(Expr::Call(*call)@->Call_arguments =~= Seq::new(
        call.arguments@.len(),
        |i: int|
            if 0 <= i < call.arguments@.len() {
                call.arguments@[i]@
            } else {
                ExprView::Literal { value: LiteralView::Nil }
            },
    ));
}

} // verus!
