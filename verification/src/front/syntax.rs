//! The grammar of the language, as functions from the tokens that are left
//! to the tree that they spell.
use crate::front::expr::{ExprView, LiteralView, VariableView};
use crate::front::report::ReportView;
use crate::front::scanner::eof_token;
use crate::front::stmt::{FunctionView, StmtView};
use crate::front::token::TokenView;
use crate::front::token_type::{Kind, TokenType};
use vstd::prelude::*;
use vstd::string::StringSliceAdditionalSpecFns;

verus! {

/// Where the parser stands: the tokens, the index of the next one, and the
/// complaints made.
pub struct ParserState {
    pub tokens: Seq<TokenView>,
    pub current: int,
    pub reports: Seq<ReportView>,
}

/// A reference to the variable that a token names, not yet resolved.
pub open spec fn unresolved(name: TokenView) -> VariableView {
    VariableView { name, depth: None }
}

/// The bytes between the first and the last byte of a lexeme.
pub open spec fn unquoted(lexeme: Seq<u8>) -> Seq<u8> {
    if lexeme.len() >= 2 {
        lexeme.subrange(1, lexeme.len() - 1)
    } else {
        Seq::empty()
    }
}

/// The operators of a level of binary expressions, from the one that binds
/// most strongly: 0 for `*` and `/`, 1 for `+` and `-`, 2 for comparisons,
/// 3 for equality, 4 for `and`, 5 for `or`.
pub open spec fn operators(level: nat) -> Seq<Kind> {
    if level == 0 {
        seq![Kind::Star, Kind::Slash]
    } else if level == 1 {
        seq![Kind::Plus, Kind::Minus]
    } else if level == 2 {
        seq![Kind::Greater, Kind::GreaterEqual, Kind::Less, Kind::LessEqual]
    } else if level == 3 {
        seq![Kind::BangEqual, Kind::EqualEqual]
    } else if level == 4 {
        seq![Kind::And]
    } else {
        seq![Kind::Or]
    }
}

/// The expression of an operator of a level between two operands.
pub open spec fn infix_node(
    level: nat,
    left: ExprView,
    operator: TokenView,
    right: ExprView,
) -> ExprView {
    if level >= 4 {
        ExprView::Logical { left: Box::new(left), operator, right: Box::new(right) }
    } else {
        ExprView::Binary { left: Box::new(left), operator, right: Box::new(right) }
    }
}

/// The keywords at which error recovery stops.
pub open spec fn starts_statement(kind: Kind) -> bool {
    kind == Kind::Class || kind == Kind::Fun || kind == Kind::Let || kind == Kind::For || kind
        == Kind::If || kind == Kind::While || kind == Kind::Print || kind == Kind::Return
}

pub open spec fn msg(text: &str) -> Seq<u8> {
    text.spec_bytes()
}

impl ParserState {
    /// The next token.
    pub open spec fn peek(self) -> TokenView {
        if 0 <= self.current < self.tokens.len() {
            self.tokens[self.current]
        } else {
            eof_token()
        }
    }

    /// The token before the next one; the next one itself at the start.
    pub open spec fn previous(self) -> TokenView {
        if 0 < self.current <= self.tokens.len() {
            self.tokens[self.current - 1]
        } else {
            self.peek()
        }
    }

    /// Whether the next token is the end of the text.
    pub open spec fn is_at_end(self) -> bool {
        self.peek().token_type is Eof
    }

    /// The number of tokens that are left.
    pub open spec fn remaining(self) -> nat {
        if 0 <= self.current < self.tokens.len() {
            (self.tokens.len() - self.current) as nat
        } else {
            0
        }
    }

    /// Whether the next token is of the given kind and not the end of the
    /// text.
    pub open spec fn check(self, kind: Kind) -> bool {
        !self.is_at_end() && self.peek().token_type.kind_of() == kind
    }

    /// Whether the next token is of one of the given kinds.
    pub open spec fn check_any(self, kinds: Seq<Kind>) -> bool {
        exists|i: int| 0 <= i < kinds.len() && self.check(#[trigger] kinds[i])
    }

    /// Moves past the next token, unless it is the end of the text.
    pub open spec fn advance(self) -> ParserState {
        if self.is_at_end() {
            self
        } else {
            ParserState { current: self.current + 1, ..self }
        }
    }

    /// Complains about a token.
    pub open spec fn error(self, token: TokenView, message: Seq<u8>) -> ParserState {
        let location = if token.token_type is Eof {
            msg(" at end")
        } else {
            msg(" at '") + token.lexeme + msg("'")
        };
        ParserState {
            reports: self.reports.push(ReportView { line: token.line, location, message }),
            ..self
        }
    }

    /// Complains about a line.
    pub open spec fn error_line(self, line: usize, message: Seq<u8>) -> ParserState {
        ParserState {
            reports: self.reports.push(ReportView { line, location: Seq::empty(), message }),
            ..self
        }
    }

    /// Moves past the next token if it is of the given kind and gives it;
    /// complains about the next token otherwise.
    pub open spec fn consume(self, kind: Kind, message: Seq<u8>) -> (
        ParserState,
        Option<TokenView>,
    ) {
        if self.check(kind) {
            (self.advance(), Some(self.peek()))
        } else {
            (self.error(self.peek(), message), None)
        }
    }

    /// Skips tokens up to a place where a statement may start: after a
    /// semicolon, or before a keyword that begins a statement.
    pub open spec fn synchronize(self) -> ParserState {
        self.advance().skip_to_statement()
    }

    /// The skipping of `synchronize`.
    pub open spec fn skip_to_statement(self) -> ParserState
        decreases self.remaining(),
    {
        if self.is_at_end() || self.remaining() == 0 {
            self
        } else if self.previous().token_type is Semicolon {
            self
        } else if starts_statement(self.peek().token_type.kind_of()) {
            self
        } else {
            self.advance().skip_to_statement()
        }
    }
}

/// A literal, a parenthesized expression, a name, `this`, or `super` with a
/// method name.
pub open spec fn primary(s: ParserState) -> (ParserState, Option<ExprView>)
    decreases s.remaining(), 0nat,
{
    let peeked = s.peek();
    let s1 = s.advance();
    match peeked.token_type {
        TokenType::False => (s1, Some(ExprView::Literal { value: LiteralView::Bool(false) })),
        TokenType::True => (s1, Some(ExprView::Literal { value: LiteralView::Bool(true) })),
        TokenType::Nil => (s1, Some(ExprView::Literal { value: LiteralView::Nil })),
        TokenType::Number(number) => (
            s1,
            Some(ExprView::Literal { value: LiteralView::Number(number) }),
        ),
        TokenType::String => (
            s1,
            Some(ExprView::Literal { value: LiteralView::String(unquoted(peeked.lexeme)) }),
        ),
        TokenType::LeftParen => if s1.remaining() < s.remaining() {
            let (s2, inner) = expression(s1);
            match inner {
                None => (s2, None),
                Some(expr) => (
                    s2.consume(Kind::RightParen, msg("Expected ')' after expression.")).0,
                    Some(ExprView::Grouping { expression: Box::new(expr) }),
                ),
            }
        } else {
            (s1, None)
        },
        TokenType::Identifier => (s1, Some(ExprView::Variable { variable: unresolved(peeked) })),
        TokenType::This => (s1, Some(ExprView::This { variable: unresolved(peeked) })),
        TokenType::Super => {
            let (s2, dot) = s1.consume(Kind::Dot, msg("Expected '.' after 'super'."));
            match dot {
                None => (s2, None),
                Some(_) => {
                    let (s3, method) = s2.consume(
                        Kind::Identifier,
                        msg("Expected superclass method name."),
                    );
                    match method {
                        None => (s3, None),
                        Some(name) => (
                            s3,
                            Some(ExprView::Super { keyword: unresolved(peeked), method: name }),
                        ),
                    }
                },
            }
        },
        _ => (s1.error(peeked, msg("Expected expression.")), None),
    }
}

/// The arguments of a call after the first `count` of them, up to the
/// closing parenthesis.
pub open spec fn arguments(s: ParserState, so_far: Seq<ExprView>) -> (
    ParserState,
    Option<Seq<ExprView>>,
)
    decreases s.remaining(), 23nat,
{
    let warned = if so_far.len() >= 8 {
        s.error_line(s.peek().line, msg("Cannot have more than 8 arguments"))
    } else {
        s
    };
    let (s1, argument) = expression(warned);
    match argument {
        None => (s1, None),
        Some(expr) => if s1.check(Kind::Comma) && s1.remaining() < s.remaining() {
            arguments(s1.advance(), so_far.push(expr))
        } else {
            (s1, Some(so_far.push(expr)))
        },
    }
}

/// A call's arguments and closing parenthesis, the opening one having been
/// read.
pub open spec fn finish_call(s: ParserState, callee: ExprView) -> (ParserState, Option<ExprView>)
    decreases s.remaining(), 24nat,
{
    let (s1, listed) = if s.check(Kind::RightParen) {
        (s, Some(Seq::<ExprView>::empty()))
    } else {
        arguments(s, Seq::empty())
    };
    match listed {
        None => (s1, None),
        Some(args) => {
            let (s2, paren) = s1.consume(
                Kind::RightParen,
                msg("Expected ')' after function call arguments"),
            );
            match paren {
                None => (s2, None),
                Some(token) => (
                    s2,
                    Some(
                        ExprView::Call {
                            callee: Box::new(callee),
                            paren: token,
                            arguments: args,
                        },
                    ),
                ),
            }
        },
    }
}

/// The calls and property accesses that follow an expression.
pub open spec fn call_rest(s: ParserState, expr: ExprView) -> (ParserState, Option<ExprView>)
    decreases s.remaining(), 25nat,
{
    if s.check(Kind::LeftParen) {
        let (s1, called) = finish_call(s.advance(), expr);
        match called {
            None => (s1, None),
            Some(call) => if s1.remaining() < s.remaining() {
                call_rest(s1, call)
            } else {
                (s1, Some(call))
            },
        }
    } else if s.check(Kind::Dot) {
        let (s1, name) = s.advance().consume(
            Kind::Identifier,
            msg("Expected property name after '.'"),
        );
        match name {
            None => (s1, None),
            Some(token) => if s1.remaining() < s.remaining() {
                call_rest(s1, ExprView::Get { object: Box::new(expr), name: token })
            } else {
                (s1, Some(ExprView::Get { object: Box::new(expr), name: token }))
            },
        }
    } else {
        (s, Some(expr))
    }
}

/// A primary expression with the calls and property accesses that follow
/// it.
pub open spec fn call(s: ParserState) -> (ParserState, Option<ExprView>)
    decreases s.remaining(), 1nat,
{
    let (s1, expr) = primary(s);
    match expr {
        None => (s1, None),
        Some(callee) => if s1.remaining() < s.remaining() {
            call_rest(s1, callee)
        } else {
            (s1, Some(callee))
        },
    }
}

/// `!` or `-` before a unary expression, or a call.
pub open spec fn unary(s: ParserState) -> (ParserState, Option<ExprView>)
    decreases s.remaining(), 2nat,
{
    if s.check(Kind::Bang) || s.check(Kind::Minus) {
        let (s1, right) = unary(s.advance());
        match right {
            None => (s1, None),
            Some(expr) => (
                s1,
                Some(ExprView::Unary { operator: s.peek(), right: Box::new(expr) }),
            ),
        }
    } else {
        call(s)
    }
}

/// An operand of a level of binary expressions: a unary expression for the
/// level that binds most strongly, else an expression of the level below.
pub open spec fn operand(s: ParserState, level: nat) -> (ParserState, Option<ExprView>)
    decreases s.remaining(), 3 + 2 * level,
{
    if level == 0 {
        unary(s)
    } else {
        infix(s, (level - 1) as nat)
    }
}

/// The operators of a level and their right operands that follow a left
/// operand; the operators group to the left.
pub open spec fn infix_rest(s: ParserState, level: nat, left: ExprView) -> (
    ParserState,
    Option<ExprView>,
)
    decreases s.remaining(), 16nat,
{
    if s.check_any(operators(level)) {
        let (s1, right) = operand(s.advance(), level);
        match right {
            None => (s1, None),
            Some(expr) => if s1.remaining() < s.remaining() {
                infix_rest(s1, level, infix_node(level, left, s.peek(), expr))
            } else {
                (s1, Some(infix_node(level, left, s.peek(), expr)))
            },
        }
    } else {
        (s, Some(left))
    }
}

/// An expression of a level of binary expressions.
pub open spec fn infix(s: ParserState, level: nat) -> (ParserState, Option<ExprView>)
    decreases s.remaining(), 4 + 2 * level,
{
    let (s1, left) = operand(s, level);
    match left {
        None => (s1, None),
        Some(expr) => if s1.remaining() < s.remaining() {
            infix_rest(s1, level, expr)
        } else {
            (s1, Some(expr))
        },
    }
}

/// A condition, and after `?` the two expressions to choose from.
pub open spec fn ternary(s: ParserState) -> (ParserState, Option<ExprView>)
    decreases s.remaining(), 20nat,
{
    let (s1, condition) = infix(s, 5);
    match condition {
        None => (s1, None),
        Some(cond) => if s1.check(Kind::QuestionMark) && s1.remaining() < s.remaining() {
            let (s2, true_branch) = infix(s1.advance(), 5);
            match true_branch {
                None => (s2, None),
                Some(yes) => if s2.check(Kind::Colon) && s2.remaining() < s.remaining() {
                    let (s3, false_branch) = ternary(s2.advance());
                    match false_branch {
                        None => (s3, None),
                        Some(no) => (
                            s3,
                            Some(
                                ExprView::Ternary {
                                    condition: Box::new(cond),
                                    true_branch: Box::new(yes),
                                    false_branch: Box::new(no),
                                },
                            ),
                        ),
                    }
                } else {
                    (s2, Some(cond))
                },
            }
        } else {
            (s1, Some(cond))
        },
    }
}

/// An expression, and after `=` the value to assign to it. A variable and a
/// property can be assigned to; of anything else a complaint is made.
pub open spec fn assignment(s: ParserState) -> (ParserState, Option<ExprView>)
    decreases s.remaining(), 21nat,
{
    let (s1, target) = ternary(s);
    match target {
        None => (s1, None),
        Some(expr) => if s1.check(Kind::Equal) && s1.remaining() < s.remaining() {
            let (s2, value) = assignment(s1.advance());
            match value {
                None => (s2, None),
                Some(assigned) => match expr {
                    ExprView::Variable { variable } => (
                        s2,
                        Some(
                            ExprView::Assign {
                                variable: unresolved(variable.name),
                                value: Box::new(assigned),
                            },
                        ),
                    ),
                    ExprView::Get { object, name } => (
                        s2,
                        Some(ExprView::SetExpr { object, name, value: Box::new(assigned) }),
                    ),
                    _ => (s2.error(s1.peek(), msg("Invalid assignment target.")), Some(expr)),
                },
            }
        } else {
            (s1, Some(expr))
        },
    }
}

/// An expression.
pub open spec fn expression(s: ParserState) -> (ParserState, Option<ExprView>)
    decreases s.remaining(), 22nat,
{
    assignment(s)
}

/// An expression and a semicolon: the value is printed.
#[verifier::opaque]
pub open spec fn print_statement(s: ParserState) -> (ParserState, Option<StmtView>)
    decreases s.remaining(), 30nat,
{
    let (s1, value) = expression(s);
    match value {
        None => (s1, None),
        Some(expr) => (
            s1.consume(Kind::Semicolon, msg("Expected ';' after value.")).0,
            Some(StmtView::Print { expression: expr }),
        ),
    }
}

/// An expression and a semicolon.
#[verifier::opaque]
pub open spec fn expression_statement(s: ParserState) -> (ParserState, Option<StmtView>)
    decreases s.remaining(), 30nat,
{
    let (s1, value) = expression(s);
    match value {
        None => (s1, None),
        Some(expr) => (
            s1.consume(Kind::Semicolon, msg("Expected ';' after value.")).0,
            Some(StmtView::Expression { expression: expr }),
        ),
    }
}

/// The rest of a `return` statement, the keyword having been read.
#[verifier::opaque]
pub open spec fn return_statement(s: ParserState) -> (ParserState, Option<StmtView>)
    decreases s.remaining(), 30nat,
{
    let keyword = s.previous();
    if s.check(Kind::Semicolon) {
        (
            s.consume(Kind::Semicolon, msg("Expected ';' after return")).0,
            Some(StmtView::Return { keyword, value: None }),
        )
    } else {
        let (s1, value) = expression(s);
        match value {
            None => (s1, None),
            Some(expr) => (
                s1.consume(Kind::Semicolon, msg("Expected ';' after return")).0,
                Some(StmtView::Return { keyword, value: Some(expr) }),
            ),
        }
    }
}

/// The rest of a `while` statement.
#[verifier::opaque]
pub open spec fn while_statement(s: ParserState) -> (ParserState, Option<StmtView>)
    decreases s.remaining(), 30nat,
{
    let s1 = s.consume(Kind::LeftParen, msg("Expected '(' after 'while'.")).0;
    let (s2, condition) = expression(s1);
    match condition {
        None => (s2, None),
        Some(cond) => {
            let s3 = s2.consume(Kind::RightParen, msg("Expected ')' after 'while' condition.")).0;
            if s3.remaining() < s.remaining() {
                let (s4, body) = statement(s3);
                match body {
                    None => (s4, None),
                    Some(stmt) => (
                        s4,
                        Some(StmtView::While { condition: cond, body: Box::new(stmt) }),
                    ),
                }
            } else {
                (s3, None)
            }
        },
    }
}

/// The branches of an `if` statement, its condition having been read.
#[verifier::opaque]
pub open spec fn if_branches(s: ParserState, condition: ExprView) -> (ParserState, Option<StmtView>)
    decreases s.remaining(), 33nat,
{
    let (s4, then_branch) = statement(s);
    match then_branch {
        None => (s4, None),
        Some(then_stmt) => if s4.check(Kind::Else) && s4.remaining() < s.remaining() {
            let (s5, else_branch) = statement(s4.advance());
            (
                s5,
                Some(
                    StmtView::If {
                        condition,
                        then_branch: Box::new(then_stmt),
                        else_branch: match else_branch {
                            Some(else_stmt) => Some(Box::new(else_stmt)),
                            None => None,
                        },
                    },
                ),
            )
        } else {
            (
                s4,
                Some(
                    StmtView::If {
                        condition,
                        then_branch: Box::new(then_stmt),
                        else_branch: None,
                    },
                ),
            )
        },
    }
}

/// The rest of an `if` statement.
#[verifier::opaque]
pub open spec fn if_statement(s: ParserState) -> (ParserState, Option<StmtView>)
    decreases s.remaining(), 30nat,
{
    let s1 = s.consume(Kind::LeftParen, msg("Expected '(' after 'if'.")).0;
    let (s2, condition) = expression(s1);
    match condition {
        None => (s2, None),
        Some(cond) => {
            let s3 = s2.consume(Kind::RightParen, msg("Expected ')' after 'if' condition.")).0;
            if s3.remaining() < s.remaining() {
                if_branches(s3, cond)
            } else {
                (s3, None)
            }
        },
    }
}

/// The loop that a `for` statement stands for: the body followed by the
/// increment, repeated while the condition holds, after the initializer.
pub open spec fn for_loop(
    initializer: Option<StmtView>,
    condition: ExprView,
    increment: Option<ExprView>,
    body: StmtView,
) -> StmtView {
    let stepped = match increment {
        Some(step) => StmtView::Block {
            statements: seq![body, StmtView::Expression { expression: step }],
        },
        None => body,
    };
    let repeated = StmtView::While { condition, body: Box::new(stepped) };
    match initializer {
        Some(first) => StmtView::Block { statements: seq![first, repeated] },
        None => repeated,
    }
}

/// The body of a `for` statement, its clauses having been read.
#[verifier::opaque]
pub open spec fn for_body(
    s: ParserState,
    initializer: Option<StmtView>,
    condition: ExprView,
    increment: Option<ExprView>,
) -> (ParserState, Option<StmtView>)
    decreases s.remaining(), 33nat,
{
    let (s7, body) = statement(s);
    match body {
        None => (s7, None),
        Some(stmt) => (s7, Some(for_loop(initializer, condition, increment, stmt))),
    }
}

/// The increment and the body of a `for` statement, its condition and the
/// semicolon after it having been read.
#[verifier::opaque]
pub open spec fn for_tail(
    s: ParserState,
    initializer: Option<StmtView>,
    condition: ExprView,
    limit: nat,
) -> (ParserState, Option<StmtView>)
    decreases limit, 28nat,
{
    if s.remaining() > limit {
        (s, None)
    } else {
        let (s5, increment) = if s.check(Kind::RightParen) {
            (s, None)
        } else {
            expression(s)
        };
        let s6 = s5.consume(Kind::RightParen, msg("Expected ')' after loop increment.")).0;
        if s6.remaining() < limit {
            for_body(s6, initializer, condition, increment)
        } else {
            (s6, None)
        }
    }
}

/// The condition, the increment and the body of a `for` statement, its
/// initializer having been read. `limit` is the number of tokens that were
/// left after `for`.
#[verifier::opaque]
pub open spec fn for_rest(s: ParserState, initializer: Option<StmtView>, limit: nat) -> (
    ParserState,
    Option<StmtView>,
)
    decreases limit, 29nat,
{
    if s.remaining() > limit {
        (s, None)
    } else {
        let (s3, condition) = if s.check(Kind::Semicolon) {
            (s, Some(ExprView::Literal { value: LiteralView::Bool(true) }))
        } else {
            expression(s)
        };
        match condition {
            None => (s3, None),
            Some(cond) => for_tail(
                s3.consume(Kind::Semicolon, msg("Expected ';' after loop condition.")).0,
                initializer,
                cond,
                limit,
            ),
        }
    }
}

/// The initializer of a `for` statement: nothing but a semicolon, a
/// declaration, or an expression statement.
#[verifier::opaque]
pub open spec fn for_initializer(s: ParserState) -> (ParserState, Option<StmtView>)
    decreases s.remaining(), 32nat,
{
    if s.check(Kind::Semicolon) {
        (s.advance(), None)
    } else if s.check(Kind::Let) {
        variable_declaration(s.advance())
    } else {
        expression_statement(s)
    }
}

/// The rest of a `for` statement.
#[verifier::opaque]
pub open spec fn for_statement(s: ParserState) -> (ParserState, Option<StmtView>)
    decreases s.remaining(), 34nat,
{
    let (s2, initializer) = for_initializer(
        s.consume(Kind::LeftParen, msg("Expected '(' after 'for'.")).0,
    );
    if s2.remaining() <= s.remaining() {
        for_rest(s2, initializer, s.remaining())
    } else {
        (s2, None)
    }
}

/// The declarations of a block after those read so far, up to its closing
/// brace.
pub open spec fn block_rest(s: ParserState, so_far: Seq<StmtView>) -> (ParserState, Seq<StmtView>)
    decreases s.remaining(), 80nat,
{
    if s.check(Kind::RightBrace) || s.is_at_end() || s.remaining() == 0 {
        (s.consume(Kind::RightBrace, msg("Expected '}' after block")).0, so_far)
    } else {
        let (s1, declared) = declaration(s);
        let longer = match declared {
            Some(stmt) => so_far.push(stmt),
            None => so_far,
        };
        if s1.remaining() < s.remaining() {
            block_rest(s1, longer)
        } else {
            (s1, longer)
        }
    }
}

/// The declarations of a block, the opening brace having been read.
pub open spec fn block(s: ParserState) -> (ParserState, Seq<StmtView>)
    decreases s.remaining(), 81nat,
{
    block_rest(s, Seq::empty())
}

/// A statement.
pub open spec fn statement(s: ParserState) -> (ParserState, Option<StmtView>)
    decreases s.remaining(), 31nat,
{
    if s.check(Kind::Print) {
        print_statement(s.advance())
    } else if s.check(Kind::LeftBrace) {
        let (s1, statements) = block(s.advance());
        (s1, Some(StmtView::Block { statements }))
    } else if s.check(Kind::If) {
        if_statement(s.advance())
    } else if s.check(Kind::While) {
        while_statement(s.advance())
    } else if s.check(Kind::For) {
        for_statement(s.advance())
    } else if s.check(Kind::Return) {
        return_statement(s.advance())
    } else {
        expression_statement(s)
    }
}

/// The rest of a `let` declaration: a name, an initializer where `=`
/// follows, and a semicolon.
#[verifier::opaque]
pub open spec fn variable_declaration(s: ParserState) -> (ParserState, Option<StmtView>)
    decreases s.remaining(), 30nat,
{
    let (s1, name) = s.consume(Kind::Identifier, msg("Expected variable name"));
    match name {
        None => (s1, None),
        Some(token) => {
            let (s2, initializer) = if s1.check(Kind::Equal) {
                expression(s1.advance())
            } else {
                (s1, None)
            };
            (
                s2.consume(Kind::Semicolon, msg("Expected ';' after variable declaration")).0,
                Some(StmtView::Declaration { name: token, initializer }),
            )
        },
    }
}

/// The parameters of a function after those read so far.
pub open spec fn parameters(s: ParserState, so_far: Seq<TokenView>) -> (
    ParserState,
    Option<Seq<TokenView>>,
)
    decreases s.remaining(),
{
    let warned = if so_far.len() >= 8 {
        s.error_line(s.peek().line, msg("Cannot have more than 8 parameters"))
    } else {
        s
    };
    let (s1, name) = warned.consume(Kind::Identifier, msg("Expected parameter name"));
    match name {
        None => (s1, None),
        Some(token) => if s1.check(Kind::Comma) && s1.remaining() < s.remaining() {
            parameters(s1.advance(), so_far.push(token))
        } else {
            (s1, Some(so_far.push(token)))
        },
    }
}

/// What is expected where the name of a function or method is missing.
pub open spec fn name_message(method: bool) -> Seq<u8> {
    if method {
        msg("Expected method name")
    } else {
        msg("Expected function name")
    }
}

/// What is expected where the body of a function or method is missing.
pub open spec fn body_message(method: bool) -> Seq<u8> {
    if method {
        msg("Expected '{' before method body.")
    } else {
        msg("Expected '{' before function body.")
    }
}

/// The rest of a function or method after its name and the opening
/// parenthesis: the parameters, the closing parenthesis and the body in
/// braces. `limit` is the number of tokens that were left before the name.
#[verifier::opaque]
pub open spec fn function_rest(s: ParserState, name: TokenView, method: bool, limit: nat) -> (
    ParserState,
    Option<FunctionView>,
)
    decreases limit, 49nat,
{
    let (s3, listed) = if s.check(Kind::RightParen) {
        (s, Some(Seq::<TokenView>::empty()))
    } else {
        parameters(s, Seq::empty())
    };
    match listed {
        None => (s3, None),
        Some(params) => {
            let s4 = s3.consume(Kind::RightParen, msg("Expected ')' after parameters")).0;
            let s5 = s4.consume(Kind::LeftBrace, body_message(method)).0;
            if s5.remaining() < limit {
                let (s6, body) = block(s5);
                (s6, Some(FunctionView { name, params, body }))
            } else {
                (s5, None)
            }
        },
    }
}

/// A function or method: its name, its parameters in parentheses and its
/// body in braces.
#[verifier::opaque]
pub open spec fn function(s: ParserState, method: bool) -> (ParserState, Option<FunctionView>)
    decreases s.remaining(), 50nat,
{
    let (s1, name) = s.consume(Kind::Identifier, name_message(method));
    match name {
        None => (s1, None),
        Some(token) => function_rest(
            s1.consume(Kind::LeftParen, msg("Expected '(' after function declaration")).0,
            token,
            method,
            s.remaining(),
        ),
    }
}

/// The methods of a class after those read so far, up to the closing brace.
pub open spec fn methods(s: ParserState, so_far: Seq<FunctionView>) -> (
    ParserState,
    Option<Seq<FunctionView>>,
)
    decreases s.remaining(), 51nat,
{
    if s.check(Kind::RightBrace) || s.is_at_end() || s.remaining() == 0 {
        (s, Some(so_far))
    } else {
        let (s1, method) = function(s, true);
        match method {
            None => (s1, None),
            Some(declared) => if s1.remaining() < s.remaining() {
                methods(s1, so_far.push(declared))
            } else {
                (s1, Some(so_far.push(declared)))
            },
        }
    }
}

/// The methods of a class in braces, the opening brace having been read.
#[verifier::opaque]
pub open spec fn class_body(
    s: ParserState,
    name: TokenView,
    superclass: Option<VariableView>,
) -> (ParserState, Option<StmtView>)
    decreases s.remaining(), 52nat,
{
    let (s4, listed) = methods(s, Seq::empty());
    match listed {
        None => (s4, None),
        Some(declared) => (
            s4.consume(Kind::RightBrace, msg("Expected '}' after class body")).0,
            Some(StmtView::Class { name, superclass, methods: declared }),
        ),
    }
}

/// The rest of a class declaration: a name, a superclass where `<`
/// follows, and the methods in braces.
#[verifier::opaque]
pub open spec fn class_declaration(s: ParserState) -> (ParserState, Option<StmtView>)
    decreases s.remaining(), 53nat,
{
    let (s1, name) = s.consume(Kind::Identifier, msg("Expected class name"));
    match name {
        None => (s1, None),
        Some(token) => {
            let (s2, superclass) = if s1.check(Kind::Less) {
                let (named, parent) = s1.advance().consume(
                    Kind::Identifier,
                    msg("Expected superclass name"),
                );
                (
                    named,
                    match parent {
                        Some(parent_name) => Some(Some(unresolved(parent_name))),
                        None => None,
                    },
                )
            } else {
                (s1, Some(None))
            };
            match superclass {
                None => (s2, None),
                Some(parent) => {
                    let s3 = s2.consume(
                        Kind::LeftBrace,
                        msg("Expected '{' before class body"),
                    ).0;
                    if s3.remaining() < s.remaining() {
                        class_body(s3, token, parent)
                    } else {
                        (s3, None)
                    }
                },
            }
        },
    }
}

/// A declaration of a variable, a function or a class, or a statement.
/// Where none can be read, tokens are skipped up to the next place where
/// a statement may start.
pub open spec fn declaration(s: ParserState) -> (ParserState, Option<StmtView>)
    decreases s.remaining(), 60nat,
{
    let (s1, declared) = if s.check(Kind::Let) {
        variable_declaration(s.advance())
    } else if s.check(Kind::Fun) {
        let (named, function) = function(s.advance(), false);
        (
            named,
            match function {
                Some(f) => Some(StmtView::Function { function: f }),
                None => None,
            },
        )
    } else if s.check(Kind::Class) {
        class_declaration(s.advance())
    } else {
        statement(s)
    };
    match declared {
        Some(stmt) => (s1, Some(stmt)),
        None => (s1.synchronize(), None),
    }
}

/// The declarations of a program after those read so far.
pub open spec fn program(s: ParserState, so_far: Seq<StmtView>) -> (ParserState, Seq<StmtView>)
    decreases s.remaining(), 70nat,
{
    if s.is_at_end() || s.remaining() == 0 {
        (s, so_far)
    } else {
        let (s1, declared) = declaration(s);
        let longer = match declared {
            Some(stmt) => so_far.push(stmt),
            None => so_far,
        };
        if s1.remaining() < s.remaining() {
            program(s1, longer)
        } else {
            (s1, longer)
        }
    }
}

} // verus!
