use crate::front::expr::{
    lemma_call_view, Assign, Binary, Call, Expr, ExprView, Get, Grouping, Literal, SetExpr, Super,
    Ternary, This, Unary, Variable,
};
use crate::front::report::{lemma_reports_push, reports_view, Report, ReportView};
use crate::front::scanner::eof_token;
use crate::front::stmt::{
    exprs_view, functions_view, lemma_exprs_push, lemma_functions_push, lemma_stmts_push,
    lemma_views, stmts_view, Block, ClassDecl, Declaration, FunctionDecl, FunctionView, If, Return,
    Stmt, StmtView, While,
};
use crate::front::syntax::{
    arguments, assignment, block, block_rest, call, call_rest, class_declaration, declaration,
    expression, expression_statement, finish_call, for_loop, for_statement, if_branches, function,
    if_statement, infix, infix_rest, methods, msg, operand, operators, parameters, primary,
    print_statement, program, return_statement, statement, ternary, unary, unquoted,
    variable_declaration, while_statement, ParserState,
};
use crate::front::token::{tokens_view, Token, TokenView};
use crate::front::token_type::{Kind, TokenType};
use crate::text::{push_bytes, to_bytes};
use vstd::prelude::*;
use vstd::slice::slice_subrange;
use vstd::string::StringSliceAdditionalSpecFns;

verus! {

/// The view of an expression that may be missing.
pub open spec fn opt_expr(expr: Option<Expr>) -> Option<ExprView> {
    match expr {
        Some(e) => Some(e@),
        None => None,
    }
}

/// The view of a statement that may be missing.
pub open spec fn opt_stmt(stmt: Option<Stmt>) -> Option<StmtView> {
    match stmt {
        Some(s) => Some(s@),
        None => None,
    }
}

/// The view of a token that may be missing.
pub open spec fn opt_token(token: Option<Token>) -> Option<TokenView> {
    match token {
        Some(t) => Some(t@),
        None => None,
    }
}

/// The tokens with the `Eof` token at their end, where it was missing.
pub open spec fn terminated(tokens: Seq<TokenView>) -> Seq<TokenView> {
    if tokens.len() > 0 && tokens.last().token_type is Eof {
        tokens
    } else {
        tokens.push(eof_token())
    }
}

/// Builds the tree of a program from its tokens by recursive descent.
pub struct Parser {
    tokens: Vec<Token>,
    current: usize,
    reports: Vec<Report>,
}

impl View for Parser {
    type V = ParserState;

    closed spec fn view(&self) -> ParserState {
        ParserState {
            tokens: tokens_view(self.tokens@),
            current: self.current as int,
            reports: reports_view(self.reports@),
        }
    }
}

impl Parser {
    /// The tokens end with `Eof`, and the parser stands within them.
    pub closed spec fn inv(&self) -> bool {
        &&& self.tokens@.len() > 0
        &&& self.tokens@.last().token_type is Eof
        &&& self.current < self.tokens@.len()
    }

    /// A parser at the start of the tokens. An `Eof` token is put at their
    /// end where there is none.
    pub fn new(tokens: Vec<Token>) -> (parser: Parser)
        ensures
            parser.inv(),
            parser@ == (ParserState {
                tokens: terminated(tokens_view(tokens@)),
                current: 0,
                reports: Seq::empty(),
            }),
    {
        let mut tokens = tokens;
        let ghost given = tokens@;
        let ends: bool = tokens.len() > 0 && match tokens[tokens.len() - 1].token_type {
            TokenType::Eof => true,
            _ => false,
        };
        if !ends {
            let last: Token = Token::new(TokenType::Eof, slice_subrange(
                "".as_bytes(),
                0,
                0,
            ), 0);
            assert(last@ == eof_token()) by {
                assert(last@.lexeme =~= Seq::<u8>::empty());
            }
            tokens.push(last);
            assert(tokens_view(tokens@) =~= tokens_view(given).push(eof_token()));
        }
        let parser = Parser { tokens, current: 0, reports: Vec::new() };
        assert(reports_view(parser.reports@) =~= Seq::<ReportView>::empty());
        parser
    }

    /// The complaints made so far.
    pub fn reports(&self) -> (reports: &Vec<Report>)
        ensures
            reports_view(reports@) == self@.reports,
    {
        &self.reports
    }

    /// Reads the whole program: the declarations up to the end of the
    /// tokens. Declarations that cannot be read are complained about and
    /// left out.
    #[verifier::rlimit(100)]
    pub fn parse(&mut self) -> (statements: Vec<Stmt>)
        requires
            old(self).inv(),
        ensures
            final(self).inv(),
            final(self)@ == (program(old(self)@, Seq::empty())).0,
            (stmts_view(statements@)) == (program(old(self)@, Seq::empty())).1,
    {
        let mut statements: Vec<Stmt> = Vec::new();
        assert(stmts_view(statements@) =~= Seq::<StmtView>::empty());
        while !self.is_at_end()
            invariant
                self.inv(),
                program(self@, stmts_view(statements@)) == program(old(self)@, Seq::empty()),
            decreases self@.remaining(),
        {
            match self.declaration() {
                Some(declaration) => {
                    proof {
                        lemma_stmts_push(statements@, declaration);
                    }
                    statements.push(declaration);
                },
                None => {},
            }
        }
        statements
    }

    #[verifier::rlimit(100)]
    fn declaration(&mut self) -> (res: Option<Stmt>)
        requires
            old(self).inv(),
            !old(self)@.is_at_end(),
        ensures
            final(self).inv(),
            final(self)@ == (declaration(old(self)@)).0,
            (opt_stmt(res)) == (declaration(old(self)@)).1,
            final(self)@.tokens == old(self)@.tokens,
            final(self)@.remaining() < old(self)@.remaining(),
        decreases old(self)@.remaining(), 60nat,
    {
        reveal_with_fuel(crate::front::syntax::variable_declaration, 1);
        reveal_with_fuel(crate::front::syntax::function, 1);
        reveal_with_fuel(crate::front::syntax::class_declaration, 1);
        let res: Option<Stmt> = if self.match_tokens(vec![Kind::Let]) {
            self.variable_declaration()
        } else if self.match_tokens(vec![Kind::Fun]) {
            match self.function(false) {
                Some(function) => Some(Stmt::Function(function)),
                None => None,
            }
        } else if self.match_tokens(vec![Kind::Class]) {
            self.class_declaration()
        } else {
            self.statement()
        };
        if res.is_none() {
            self.synchronize();
        }
        res
    }

    #[verifier::rlimit(100)]
    fn class_declaration(&mut self) -> (res: Option<Stmt>)
        requires
            old(self).inv(),
        ensures
            final(self).inv(),
            final(self)@ == (class_declaration(old(self)@)).0,
            (opt_stmt(res)) == (class_declaration(old(self)@)).1,
            final(self)@.tokens == old(self)@.tokens,
            final(self)@.remaining() <= old(self)@.remaining(),
            res.is_some() ==> final(self)@.remaining() < old(self)@.remaining(),
        decreases old(self)@.remaining(), 53nat,
    {
        reveal_with_fuel(crate::front::syntax::class_declaration, 1);
        reveal_with_fuel(crate::front::syntax::class_body, 1);
        let name: Token = match self.consume(Kind::Identifier, "Expected class name") {
            Some(name) => name,
            None => {
                return None;
            },
        };
        let superclass: Option<Variable> = if self.match_tokens(vec![Kind::Less]) {
            match self.consume(Kind::Identifier, "Expected superclass name") {
                Some(parent) => Some(Variable::new(parent)),
                None => {
                    return None;
                },
            }
        } else {
            None
        };
        self.consume(Kind::LeftBrace, "Expected '{' before class body");
        self.class_body(name, superclass)
    }

    /// The methods of a class in braces, the opening brace having been
    /// read.
    #[verifier::rlimit(100)]
    fn class_body(&mut self, name: Token, superclass: Option<Variable>) -> (res: Option<Stmt>)
        requires
            old(self).inv(),
        ensures
            final(self).inv(),
            final(self)@ == (crate::front::syntax::class_body(
                old(self)@,
                name@,
                match superclass {
                    Some(variable) => Some(variable@),
                    None => None,
                },
            )).0,
            (opt_stmt(res)) == (crate::front::syntax::class_body(
                old(self)@,
                name@,
                match superclass {
                    Some(variable) => Some(variable@),
                    None => None,
                },
            )).1,
            final(self)@.tokens == old(self)@.tokens,
            final(self)@.remaining() <= old(self)@.remaining(),
        decreases old(self)@.remaining(), 52nat,
    {
        reveal_with_fuel(crate::front::syntax::class_body, 1);
        reveal_with_fuel(crate::front::syntax::function, 1);
        let mut methods: Vec<FunctionDecl> = Vec::new();
        assert(functions_view(methods@, name@) =~= Seq::<FunctionView>::empty());
        while !self.check(Kind::RightBrace) && !self.is_at_end()
            invariant
                self.inv(),
                self@.tokens == old(self)@.tokens,
                self@.remaining() <= old(self)@.remaining(),
                crate::front::syntax::methods(self@, functions_view(methods@, name@))
                    == crate::front::syntax::methods(old(self)@, Seq::empty()),
            decreases self@.remaining(),
        {
            reveal_with_fuel(crate::front::syntax::class_body, 1);
            reveal_with_fuel(crate::front::syntax::function, 1);
            match self.function(true) {
                Some(function_decl) => {
                    proof {
                        lemma_functions_push(methods@, function_decl, name@);
                    }
                    methods.push(function_decl);
                },
                None => {
                    return None;
                },
            }
        }
        self.consume(Kind::RightBrace, "Expected '}' after class body");
        let class: Stmt = Stmt::Class(ClassDecl::new(name, superclass, methods));
        proof {
            lemma_views(&class);
        }
        Some(class)
    }

    #[verifier::rlimit(100)]
    fn function(&mut self, method: bool) -> (res: Option<FunctionDecl>)
        requires
            old(self).inv(),
        ensures
            final(self).inv(),
            final(self)@ == (function(old(self)@, method)).0,
            (match res {
                    Some(f) => Some(f@),
                    None => None,
                }) == (function(old(self)@, method)).1,
            final(self)@.tokens == old(self)@.tokens,
            final(self)@.remaining() <= old(self)@.remaining(),
            res.is_some() ==> final(self)@.remaining() < old(self)@.remaining(),
        decreases old(self)@.remaining(), 50nat,
    {
        reveal_with_fuel(crate::front::syntax::function, 1);
        reveal_with_fuel(crate::front::syntax::function_rest, 1);
        let ghost limit = self@.remaining();
        let name: Token = match self.consume(
            Kind::Identifier,
            if method {
                "Expected method name"
            } else {
                "Expected function name"
            },
        ) {
            Some(name) => name,
            None => {
                return None;
            },
        };
        self.consume(Kind::LeftParen, "Expected '(' after function declaration");
        self.function_rest(name, method, Ghost(limit))
    }

    /// The rest of a function or method after its name and the opening
    /// parenthesis.
    #[verifier::rlimit(100)]
    fn function_rest(&mut self, name: Token, method: bool, Ghost(limit): Ghost<nat>) -> (res:
        Option<FunctionDecl>)
        requires
            old(self).inv(),
            old(self)@.remaining() < limit,
        ensures
            final(self).inv(),
            final(self)@ == (crate::front::syntax::function_rest(old(self)@, name@, method, limit)).0,
            (match res {
                    Some(f) => Some(f@),
                    None => None,
                }) == (crate::front::syntax::function_rest(old(self)@, name@, method, limit)).1,
            final(self)@.tokens == old(self)@.tokens,
            final(self)@.remaining() <= old(self)@.remaining(),
        decreases limit, 49nat,
    {
        reveal_with_fuel(crate::front::syntax::function_rest, 1);
        let parameters: Vec<Token> = if !self.check(Kind::RightParen) {
            match self.parameters() {
                Some(parameters) => parameters,
                None => {
                    return None;
                },
            }
        } else {
            let none: Vec<Token> = Vec::new();
            assert(tokens_view(none@) =~= Seq::<TokenView>::empty());
            none
        };
        self.consume(Kind::RightParen, "Expected ')' after parameters");
        self.consume(
            Kind::LeftBrace,
            if method {
                "Expected '{' before method body."
            } else {
                "Expected '{' before function body."
            },
        );
        let body: Vec<Stmt> = self.block();
        let function: FunctionDecl = FunctionDecl::new(&name, parameters, body);
        proof {
            assert(function@.body =~= stmts_view(body@));
        }
        Some(function)
    }

    /// The parameters of a function, up to the closing parenthesis.
    #[verifier::rlimit(100)]
    fn parameters(&mut self) -> (res: Option<Vec<Token>>)
        requires
            old(self).inv(),
        ensures
            final(self).inv(),
            final(self)@ == (crate::front::syntax::parameters(old(self)@, Seq::empty())).0,
            (match res {
                    Some(listed) => Some(tokens_view(listed@)),
                    None => None,
                }) == (crate::front::syntax::parameters(old(self)@, Seq::empty())).1,
            final(self)@.tokens == old(self)@.tokens,
            final(self)@.remaining() <= old(self)@.remaining(),
    {
        let mut parameters: Vec<Token> = Vec::new();
        assert(tokens_view(parameters@) =~= Seq::<TokenView>::empty());
        loop
            invariant_except_break
                crate::front::syntax::parameters(self@, tokens_view(parameters@))
                    == crate::front::syntax::parameters(old(self)@, Seq::empty()),
            invariant
                self.inv(),
                self@.tokens == old(self)@.tokens,
                self@.remaining() <= old(self)@.remaining(),
            ensures
                (self@, Some(tokens_view(parameters@))) == crate::front::syntax::parameters(
                    old(self)@,
                    Seq::empty(),
                ),
            decreases self@.remaining(),
        {
            if parameters.len() >= 8 {
                let line: usize = self.peek().line;
                self.error_line(line, "Cannot have more than 8 parameters");
            }
            match self.consume(Kind::Identifier, "Expected parameter name") {
                Some(parameter) => {
                    assert(tokens_view(parameters@.push(parameter)) =~= tokens_view(
                        parameters@,
                    ).push(parameter@));
                    parameters.push(parameter);
                },
                None => {
                    return None;
                },
            }
            if !self.match_tokens(vec![Kind::Comma]) {
                break ;
            }
        }
        Some(parameters)
    }

    #[verifier::rlimit(100)]
    fn variable_declaration(&mut self) -> (res: Option<Stmt>)
        requires
            old(self).inv(),
        ensures
            final(self).inv(),
            final(self)@ == (variable_declaration(old(self)@)).0,
            (opt_stmt(res)) == (variable_declaration(old(self)@)).1,
            final(self)@.tokens == old(self)@.tokens,
            final(self)@.remaining() <= old(self)@.remaining(),
            res.is_some() ==> final(self)@.remaining() < old(self)@.remaining(),
        decreases old(self)@.remaining(), 30nat,
    {
        reveal_with_fuel(crate::front::syntax::variable_declaration, 1);
        let name: Token = match self.consume(Kind::Identifier, "Expected variable name") {
            Some(name) => name,
            None => {
                return None;
            },
        };
        let initializer: Option<Expr> = if self.match_tokens(vec![Kind::Equal]) {
            self.expression()
        } else {
            None
        };
        self.consume(Kind::Semicolon, "Expected ';' after variable declaration");
        Some(Stmt::Declaration(Declaration { name, initializer }))
    }

    #[verifier::rlimit(100)]
    fn statement(&mut self) -> (res: Option<Stmt>)
        requires
            old(self).inv(),
        ensures
            final(self).inv(),
            final(self)@ == (statement(old(self)@)).0,
            (opt_stmt(res)) == (statement(old(self)@)).1,
            final(self)@.tokens == old(self)@.tokens,
            final(self)@.remaining() <= old(self)@.remaining(),
            res.is_some() ==> final(self)@.remaining() < old(self)@.remaining(),
        decreases old(self)@.remaining(), 31nat,
    {
        reveal_with_fuel(crate::front::syntax::print_statement, 1);
        reveal_with_fuel(crate::front::syntax::if_statement, 1);
        reveal_with_fuel(crate::front::syntax::while_statement, 1);
        reveal_with_fuel(crate::front::syntax::for_statement, 1);
        reveal_with_fuel(crate::front::syntax::return_statement, 1);
        reveal_with_fuel(crate::front::syntax::expression_statement, 1);
        if self.match_tokens(vec![Kind::Print]) {
            self.print_statement()
        } else if self.match_tokens(vec![Kind::LeftBrace]) {
            let block: Stmt = Stmt::Block(Block::new(self.block()));
            proof {
                lemma_views(&block);
            }
            Some(block)
        } else if self.match_tokens(vec![Kind::If]) {
            self.if_statement()
        } else if self.match_tokens(vec![Kind::While]) {
            self.while_statement()
        } else if self.match_tokens(vec![Kind::For]) {
            self.for_statement()
        } else if self.match_tokens(vec![Kind::Return]) {
            self.return_statement()
        } else {
            self.expression_statement()
        }
    }

    #[verifier::rlimit(100)]
    fn return_statement(&mut self) -> (res: Option<Stmt>)
        requires
            old(self).inv(),
        ensures
            final(self).inv(),
            final(self)@ == (return_statement(old(self)@)).0,
            (opt_stmt(res)) == (return_statement(old(self)@)).1,
            final(self)@.tokens == old(self)@.tokens,
            final(self)@.remaining() <= old(self)@.remaining(),
        decreases old(self)@.remaining(), 30nat,
    {
        reveal_with_fuel(crate::front::syntax::return_statement, 1);
        let keyword: Token = self.previous().clone();
        let value: Option<Expr> = if !self.check(Kind::Semicolon) {
            match self.expression() {
                Some(value) => Some(value),
                None => {
                    return None;
                },
            }
        } else {
            None
        };
        self.consume(Kind::Semicolon, "Expected ';' after return");
        Some(Stmt::Return(Return::new(keyword, value)))
    }

    #[verifier::rlimit(100)]
    fn for_statement(&mut self) -> (res: Option<Stmt>)
        requires
            old(self).inv(),
        ensures
            final(self).inv(),
            final(self)@ == for_statement(old(self)@).0,
            opt_stmt(res) == for_statement(old(self)@).1,
            final(self)@.tokens == old(self)@.tokens,
            final(self)@.remaining() <= old(self)@.remaining(),
        decreases old(self)@.remaining(), 34nat,
    {
        reveal_with_fuel(crate::front::syntax::for_statement, 1);
        reveal_with_fuel(crate::front::syntax::for_initializer, 1);
        reveal_with_fuel(crate::front::syntax::for_rest, 1);
        let ghost limit = self@.remaining();
        self.consume(Kind::LeftParen, "Expected '(' after 'for'.");
        let initializer: Option<Stmt> = self.for_initializer();
        self.for_rest(initializer, Ghost(limit))
    }

    /// The initializer of a `for` statement: nothing but a semicolon, a
    /// declaration, or an expression statement.
    #[verifier::rlimit(100)]
    fn for_initializer(&mut self) -> (res: Option<Stmt>)
        requires
            old(self).inv(),
        ensures
            final(self).inv(),
            final(self)@ == crate::front::syntax::for_initializer(old(self)@).0,
            opt_stmt(res) == crate::front::syntax::for_initializer(old(self)@).1,
            final(self)@.tokens == old(self)@.tokens,
            final(self)@.remaining() <= old(self)@.remaining(),
        decreases old(self)@.remaining(), 32nat,
    {
        reveal_with_fuel(crate::front::syntax::for_initializer, 1);
        reveal_with_fuel(crate::front::syntax::variable_declaration, 1);
        reveal_with_fuel(crate::front::syntax::expression_statement, 1);
        if self.check(Kind::Semicolon) {
            self.advance();
            None
        } else if self.check(Kind::Let) {
            self.advance();
            self.variable_declaration()
        } else {
            self.expression_statement()
        }
    }

    /// The condition, the increment and the body of a `for` statement.
    #[verifier::rlimit(100)]
    fn for_rest(&mut self, initializer: Option<Stmt>, Ghost(limit): Ghost<nat>) -> (res: Option<
        Stmt,
    >)
        requires
            old(self).inv(),
            old(self)@.remaining() <= limit,
        ensures
            final(self).inv(),
            final(self)@ == crate::front::syntax::for_rest(
                old(self)@,
                opt_stmt(initializer),
                limit,
            ).0,
            opt_stmt(res) == crate::front::syntax::for_rest(
                old(self)@,
                opt_stmt(initializer),
                limit,
            ).1,
            final(self)@.tokens == old(self)@.tokens,
            final(self)@.remaining() <= old(self)@.remaining(),
        decreases limit, 29nat,
    {
        reveal_with_fuel(crate::front::syntax::for_rest, 1);
        reveal_with_fuel(crate::front::syntax::for_tail, 1);
        let condition: Expr = if !self.check(Kind::Semicolon) {
            match self.expression() {
                Some(condition) => condition,
                None => {
                    return None;
                },
            }
        } else {
            Expr::Literal(Literal::Bool(true))
        };
        self.consume(Kind::Semicolon, "Expected ';' after loop condition.");
        self.for_tail(initializer, condition, Ghost(limit))
    }

    /// The increment and the body of a `for` statement.
    #[verifier::rlimit(100)]
    fn for_tail(
        &mut self,
        initializer: Option<Stmt>,
        condition: Expr,
        Ghost(limit): Ghost<nat>,
    ) -> (res: Option<Stmt>)
        requires
            old(self).inv(),
            old(self)@.remaining() < limit,
        ensures
            final(self).inv(),
            final(self)@ == crate::front::syntax::for_tail(
                old(self)@,
                opt_stmt(initializer),
                condition@,
                limit,
            ).0,
            opt_stmt(res) == crate::front::syntax::for_tail(
                old(self)@,
                opt_stmt(initializer),
                condition@,
                limit,
            ).1,
            final(self)@.tokens == old(self)@.tokens,
            final(self)@.remaining() <= old(self)@.remaining(),
        decreases limit, 28nat,
    {
        reveal_with_fuel(crate::front::syntax::for_tail, 1);
        reveal_with_fuel(crate::front::syntax::for_body, 1);
        let increment: Option<Expr> = if !self.check(Kind::RightParen) {
            self.expression()
        } else {
            None
        };
        self.consume(Kind::RightParen, "Expected ')' after loop increment.");
        self.for_body(initializer, condition, increment)
    }

    /// The body of a `for` statement, and the loop that the statement stands
    /// for.
    #[verifier::rlimit(100)]
    fn for_body(
        &mut self,
        initializer: Option<Stmt>,
        condition: Expr,
        increment: Option<Expr>,
    ) -> (res: Option<Stmt>)
        requires
            old(self).inv(),
        ensures
            final(self).inv(),
            final(self)@ == crate::front::syntax::for_body(
                old(self)@,
                opt_stmt(initializer),
                condition@,
                opt_expr(increment),
            ).0,
            opt_stmt(res) == crate::front::syntax::for_body(
                old(self)@,
                opt_stmt(initializer),
                condition@,
                opt_expr(increment),
            ).1,
            final(self)@.tokens == old(self)@.tokens,
            final(self)@.remaining() <= old(self)@.remaining(),
        decreases old(self)@.remaining(), 33nat,
    {
        reveal_with_fuel(crate::front::syntax::for_body, 1);
        let body: Stmt = match self.statement() {
            Some(body) => body,
            None => {
                return None;
            },
        };
        Some(Self::for_loop(initializer, condition, increment, body))
    }

    /// The loop that a `for` statement stands for.
    fn for_loop(
        initializer: Option<Stmt>,
        condition: Expr,
        increment: Option<Expr>,
        body: Stmt,
    ) -> (desugared: Stmt)
        ensures
            desugared@ == for_loop(opt_stmt(initializer), condition@, opt_expr(increment), body@),
    {
        let mut body: Stmt = body;
        let ghost inner = body@;
        let ghost step = opt_expr(increment);
        let ghost first = opt_stmt(initializer);
        let ghost cond = condition@;
        if let Some(increment) = increment {
            let mut pair: Vec<Stmt> = Vec::new();
            pair.push(body);
            pair.push(Stmt::Expression(increment));
            let ghost listed = pair@;
            body = Stmt::Block(Block::new(pair));
            proof {
                lemma_views(&body);
                assert(stmts_view(listed) =~= seq![
                    inner,
                    StmtView::Expression { expression: step.unwrap() },
                ]);
            }
        }
        body = Stmt::While(While::new(condition, body));
        if let Some(initializer) = initializer {
            let ghost repeated = body@;
            let mut pair: Vec<Stmt> = Vec::new();
            pair.push(initializer);
            pair.push(body);
            let ghost listed = pair@;
            body = Stmt::Block(Block::new(pair));
            proof {
                lemma_views(&body);
                assert(stmts_view(listed) =~= seq![first.unwrap(), repeated]);
            }
        }
        body
    }

    #[verifier::rlimit(100)]
    fn while_statement(&mut self) -> (res: Option<Stmt>)
        requires
            old(self).inv(),
        ensures
            final(self).inv(),
            final(self)@ == (while_statement(old(self)@)).0,
            (opt_stmt(res)) == (while_statement(old(self)@)).1,
            final(self)@.tokens == old(self)@.tokens,
            final(self)@.remaining() <= old(self)@.remaining(),
        decreases old(self)@.remaining(), 30nat,
    {
        reveal_with_fuel(crate::front::syntax::while_statement, 1);
        self.consume(Kind::LeftParen, "Expected '(' after 'while'.");
        let condition: Expr = match self.expression() {
            Some(condition) => condition,
            None => {
                return None;
            },
        };
        self.consume(Kind::RightParen, "Expected ')' after 'while' condition.");
        let body: Stmt = match self.statement() {
            Some(body) => body,
            None => {
                return None;
            },
        };
        Some(Stmt::While(While::new(condition, body)))
    }

    #[verifier::rlimit(100)]
    fn if_statement(&mut self) -> (res: Option<Stmt>)
        requires
            old(self).inv(),
        ensures
            final(self).inv(),
            final(self)@ == if_statement(old(self)@).0,
            opt_stmt(res) == if_statement(old(self)@).1,
            final(self)@.tokens == old(self)@.tokens,
            final(self)@.remaining() <= old(self)@.remaining(),
        decreases old(self)@.remaining(), 30nat,
    {
        reveal_with_fuel(crate::front::syntax::if_statement, 1);
        reveal_with_fuel(crate::front::syntax::if_branches, 1);
        self.consume(Kind::LeftParen, "Expected '(' after 'if'.");
        let condition: Expr = match self.expression() {
            Some(condition) => condition,
            None => {
                return None;
            },
        };
        self.consume(Kind::RightParen, "Expected ')' after 'if' condition.");
        self.if_branches(condition)
    }

    /// The branches of an `if` statement.
    #[verifier::rlimit(100)]
    fn if_branches(&mut self, condition: Expr) -> (res: Option<Stmt>)
        requires
            old(self).inv(),
        ensures
            final(self).inv(),
            final(self)@ == crate::front::syntax::if_branches(old(self)@, condition@).0,
            opt_stmt(res) == crate::front::syntax::if_branches(old(self)@, condition@).1,
            final(self)@.tokens == old(self)@.tokens,
            final(self)@.remaining() <= old(self)@.remaining(),
        decreases old(self)@.remaining(), 33nat,
    {
        reveal_with_fuel(crate::front::syntax::if_branches, 1);
        let then_branch: Stmt = match self.statement() {
            Some(then_branch) => then_branch,
            None => {
                return None;
            },
        };
        let else_branch: Option<Stmt> = if self.match_tokens(vec![Kind::Else]) {
            self.statement()
        } else {
            None
        };
        Some(Stmt::If(If::new(condition, then_branch, else_branch)))
    }

    #[verifier::rlimit(100)]
    fn block(&mut self) -> (statements: Vec<Stmt>)
        requires
            old(self).inv(),
        ensures
            final(self).inv(),
            final(self)@ == (block(old(self)@)).0,
            (stmts_view(statements@)) == (block(old(self)@)).1,
            final(self)@.tokens == old(self)@.tokens,
            final(self)@.remaining() <= old(self)@.remaining(),
        decreases old(self)@.remaining(), 81nat,
    {
        let mut statements: Vec<Stmt> = Vec::new();
        assert(stmts_view(statements@) =~= Seq::<StmtView>::empty());
        while !self.check(Kind::RightBrace) && !self.is_at_end()
            invariant
                self.inv(),
                self@.tokens == old(self)@.tokens,
                self@.remaining() <= old(self)@.remaining(),
                block_rest(self@, stmts_view(statements@)) == block(old(self)@),
            decreases self@.remaining(),
        {
            match self.declaration() {
                Some(decl) => {
                    proof {
                        lemma_stmts_push(statements@, decl);
                    }
                    statements.push(decl);
                },
                None => {},
            }
        }
        self.consume(Kind::RightBrace, "Expected '}' after block");
        statements
    }

    #[verifier::rlimit(100)]
    fn print_statement(&mut self) -> (res: Option<Stmt>)
        requires
            old(self).inv(),
        ensures
            final(self).inv(),
            final(self)@ == (print_statement(old(self)@)).0,
            (opt_stmt(res)) == (print_statement(old(self)@)).1,
            final(self)@.tokens == old(self)@.tokens,
            final(self)@.remaining() <= old(self)@.remaining(),
        decreases old(self)@.remaining(), 30nat,
    {
        reveal_with_fuel(crate::front::syntax::print_statement, 1);
        let value: Expr = match self.expression() {
            Some(value) => value,
            None => {
                return None;
            },
        };
        self.consume(Kind::Semicolon, "Expected ';' after value.");
        Some(Stmt::Print(value))
    }

    #[verifier::rlimit(100)]
    fn expression_statement(&mut self) -> (res: Option<Stmt>)
        requires
            old(self).inv(),
        ensures
            final(self).inv(),
            final(self)@ == (expression_statement(old(self)@)).0,
            (opt_stmt(res)) == (expression_statement(old(self)@)).1,
            final(self)@.tokens == old(self)@.tokens,
            final(self)@.remaining() <= old(self)@.remaining(),
            res.is_some() ==> final(self)@.remaining() < old(self)@.remaining(),
        decreases old(self)@.remaining(), 30nat,
    {
        reveal_with_fuel(crate::front::syntax::expression_statement, 1);
        let value: Expr = match self.expression() {
            Some(value) => value,
            None => {
                return None;
            },
        };
        self.consume(Kind::Semicolon, "Expected ';' after value.");
        Some(Stmt::Expression(value))
    }

    #[verifier::rlimit(100)]
    fn expression(&mut self) -> (res: Option<Expr>)
        requires
            old(self).inv(),
        ensures
            final(self).inv(),
            final(self)@ == (expression(old(self)@)).0,
            (opt_expr(res)) == (expression(old(self)@)).1,
            final(self)@.tokens == old(self)@.tokens,
            final(self)@.remaining() <= old(self)@.remaining(),
            res.is_some() ==> final(self)@.remaining() < old(self)@.remaining(),
        decreases old(self)@.remaining(), 22nat,
    {
        self.assignment()
    }

    #[verifier::rlimit(100)]
    fn assignment(&mut self) -> (res: Option<Expr>)
        requires
            old(self).inv(),
        ensures
            final(self).inv(),
            final(self)@ == (assignment(old(self)@)).0,
            (opt_expr(res)) == (assignment(old(self)@)).1,
            final(self)@.tokens == old(self)@.tokens,
            final(self)@.remaining() <= old(self)@.remaining(),
            res.is_some() ==> final(self)@.remaining() < old(self)@.remaining(),
        decreases old(self)@.remaining(), 21nat,
    {
        let expr: Expr = match self.ternary() {
            Some(expr) => expr,
            None => {
                return None;
            },
        };
        if self.check(Kind::Equal) {
            let equals: Token = self.peek().clone();
            self.advance();
            let value: Expr = match self.assignment() {
                Some(value) => value,
                None => {
                    return None;
                },
            };
            match expr {
                Expr::Variable(var) => {
                    return Some(Expr::Assign(Assign::new(var.name, value)));
                },
                Expr::Get(get) => {
                    return Some(Expr::SetExpr(SetExpr { object: get.object, name: get.name, value: Box::new(value) }));
                },
                other => {
                    self.error(&equals, "Invalid assignment target.");
                    return Some(other);
                },
            }
        }
        Some(expr)
    }

    #[verifier::rlimit(100)]
    fn ternary(&mut self) -> (res: Option<Expr>)
        requires
            old(self).inv(),
        ensures
            final(self).inv(),
            final(self)@ == (ternary(old(self)@)).0,
            (opt_expr(res)) == (ternary(old(self)@)).1,
            final(self)@.tokens == old(self)@.tokens,
            final(self)@.remaining() <= old(self)@.remaining(),
            res.is_some() ==> final(self)@.remaining() < old(self)@.remaining(),
        decreases old(self)@.remaining(), 20nat,
    {
        let condition: Expr = match self.or() {
            Some(condition) => condition,
            None => {
                return None;
            },
        };
        if self.match_tokens(vec![Kind::QuestionMark]) {
            let true_branch: Expr = match self.or() {
                Some(true_branch) => true_branch,
                None => {
                    return None;
                },
            };
            if self.match_tokens(vec![Kind::Colon]) {
                let false_branch: Expr = match self.ternary() {
                    Some(false_branch) => false_branch,
                    None => {
                        return None;
                    },
                };
                return Some(Expr::Ternary(Ternary::new(condition, true_branch, false_branch)));
            }
        }
        Some(condition)
    }

    /// The operators of a level of binary expressions.
    fn level_operators(level: u8) -> (kinds: Vec<Kind>)
        ensures
            kinds@ == operators(level as nat),
    {
        if level == 0 {
            vec![Kind::Star, Kind::Slash]
        } else if level == 1 {
            vec![Kind::Plus, Kind::Minus]
        } else if level == 2 {
            vec![Kind::Greater, Kind::GreaterEqual, Kind::Less, Kind::LessEqual]
        } else if level == 3 {
            vec![Kind::BangEqual, Kind::EqualEqual]
        } else if level == 4 {
            vec![Kind::And]
        } else {
            vec![Kind::Or]
        }
    }

    /// An expression of a level of binary expressions: operands of the
    /// level below, joined by the operators of the level.
    #[verifier::rlimit(100)]
    fn binary_level(&mut self, level: u8) -> (res: Option<Expr>)
        requires
            old(self).inv(),
            level <= 5,
        ensures
            final(self).inv(),
            final(self)@ == (infix(old(self)@, level as nat)).0,
            (opt_expr(res)) == (infix(old(self)@, level as nat)).1,
            final(self)@.tokens == old(self)@.tokens,
            final(self)@.remaining() <= old(self)@.remaining(),
            res.is_some() ==> final(self)@.remaining() < old(self)@.remaining(),
        decreases old(self)@.remaining(), 4 + 2 * level,
    {
        let mut expr: Expr = match self.level_operand(level) {
            Some(expr) => expr,
            None => {
                return None;
            },
        };
        let ghost start = self@;
        let ghost first = expr@;
        loop
            invariant_except_break
                infix_rest(self@, level as nat, expr@) == infix_rest(start, level as nat, first),
            invariant
                self.inv(),
                level <= 5,
                self@.tokens == old(self)@.tokens,
                self@.remaining() <= start.remaining() < old(self)@.remaining(),
                infix(old(self)@, level as nat) == infix_rest(start, level as nat, first),
            ensures
                (self@, Some(expr@)) == infix_rest(start, level as nat, first),
            decreases self@.remaining(),
        {
            if !self.check_tokens(Self::level_operators(level)) {
                break ;
            }
            let operator: Token = self.peek().clone();
            self.advance();
            let right: Expr = match self.level_operand(level) {
                Some(right) => right,
                None => {
                    return None;
                },
            };
            expr = if level >= 4 {
                Expr::Logical(Binary::new(expr, operator, right))
            } else {
                Expr::Binary(Binary::new(expr, operator, right))
            };
        }
        Some(expr)
    }

    /// An operand of a level of binary expressions.
    #[verifier::rlimit(100)]
    fn level_operand(&mut self, level: u8) -> (res: Option<Expr>)
        requires
            old(self).inv(),
            level <= 5,
        ensures
            final(self).inv(),
            final(self)@ == (operand(old(self)@, level as nat)).0,
            (opt_expr(res)) == (operand(old(self)@, level as nat)).1,
            final(self)@.tokens == old(self)@.tokens,
            final(self)@.remaining() <= old(self)@.remaining(),
            res.is_some() ==> final(self)@.remaining() < old(self)@.remaining(),
        decreases old(self)@.remaining(), 3 + 2 * level,
    {
        if level == 0 {
            self.unary()
        } else {
            self.binary_level(level - 1)
        }
    }

    #[verifier::rlimit(100)]
    fn or(&mut self) -> (res: Option<Expr>)
        requires
            old(self).inv(),
        ensures
            final(self).inv(),
            final(self)@ == (infix(old(self)@, 5)).0,
            (opt_expr(res)) == (infix(old(self)@, 5)).1,
            final(self)@.tokens == old(self)@.tokens,
            final(self)@.remaining() <= old(self)@.remaining(),
            res.is_some() ==> final(self)@.remaining() < old(self)@.remaining(),
        decreases old(self)@.remaining(), 15nat,
    {
        self.binary_level(5)
    }

    #[verifier::rlimit(100)]
    fn unary(&mut self) -> (res: Option<Expr>)
        requires
            old(self).inv(),
        ensures
            final(self).inv(),
            final(self)@ == (unary(old(self)@)).0,
            (opt_expr(res)) == (unary(old(self)@)).1,
            final(self)@.tokens == old(self)@.tokens,
            final(self)@.remaining() <= old(self)@.remaining(),
            res.is_some() ==> final(self)@.remaining() < old(self)@.remaining(),
        decreases old(self)@.remaining(), 2nat,
    {
        if self.check(Kind::Bang) || self.check(Kind::Minus) {
            let operator: Token = self.peek().clone();
            self.advance();
            let right: Expr = match self.unary() {
                Some(right) => right,
                None => {
                    return None;
                },
            };
            return Some(Expr::Unary(Unary::new(operator, right)));
        }
        self.call()
    }

    #[verifier::rlimit(100)]
    fn call(&mut self) -> (res: Option<Expr>)
        requires
            old(self).inv(),
        ensures
            final(self).inv(),
            final(self)@ == (call(old(self)@)).0,
            (opt_expr(res)) == (call(old(self)@)).1,
            final(self)@.tokens == old(self)@.tokens,
            final(self)@.remaining() <= old(self)@.remaining(),
            res.is_some() ==> final(self)@.remaining() < old(self)@.remaining(),
        decreases old(self)@.remaining(), 1nat,
    {
        let mut expr: Expr = match self.primary() {
            Some(expr) => expr,
            None => {
                return None;
            },
        };
        let ghost start = self@;
        let ghost first = expr@;
        loop
            invariant_except_break
                call_rest(self@, expr@) == call_rest(start, first),
            invariant
                self.inv(),
                self@.tokens == old(self)@.tokens,
                self@.remaining() <= start.remaining() < old(self)@.remaining(),
                call(old(self)@) == call_rest(start, first),
            ensures
                (self@, Some(expr@)) == call_rest(start, first),
            decreases self@.remaining(),
        {
            if self.match_tokens(vec![Kind::LeftParen]) {
                expr = match self.finish_call(expr) {
                    Some(called) => called,
                    None => {
                        return None;
                    },
                };
            } else if self.match_tokens(vec![Kind::Dot]) {
                let name: Token = match self.consume(
                    Kind::Identifier,
                    "Expected property name after '.'",
                ) {
                    Some(name) => name,
                    None => {
                        return None;
                    },
                };
                expr = Expr::Get(Get::new(expr, name));
            } else {
                break ;
            }
        }
        Some(expr)
    }

    #[verifier::rlimit(100)]
    fn finish_call(&mut self, callee: Expr) -> (res: Option<Expr>)
        requires
            old(self).inv(),
        ensures
            final(self).inv(),
            final(self)@ == (finish_call(old(self)@, callee@)).0,
            (opt_expr(res)) == (finish_call(old(self)@, callee@)).1,
            final(self)@.tokens == old(self)@.tokens,
            final(self)@.remaining() <= old(self)@.remaining(),
        decreases old(self)@.remaining(), 24nat,
    {
        let arguments: Vec<Expr> = if !self.check(Kind::RightParen) {
            match self.arguments() {
                Some(arguments) => arguments,
                None => {
                    return None;
                },
            }
        } else {
            let none: Vec<Expr> = Vec::new();
            assert(exprs_view(none@) =~= Seq::<ExprView>::empty());
            none
        };
        let paren: Token = match self.consume(
            Kind::RightParen,
            "Expected ')' after function call arguments",
        ) {
            Some(paren) => paren,
            None => {
                return None;
            },
        };
        let ghost listed = exprs_view(arguments@);
        let call: Call = Call::new(callee, paren, arguments);
        proof {
            lemma_call_view(&call);
            assert(Expr::Call(call)@->Call_arguments =~= listed);
        }
        Some(Expr::Call(call))
    }

    /// The arguments of a call, up to the closing parenthesis.
    #[verifier::rlimit(100)]
    fn arguments(&mut self) -> (res: Option<Vec<Expr>>)
        requires
            old(self).inv(),
        ensures
            final(self).inv(),
            final(self)@ == (crate::front::syntax::arguments(old(self)@, Seq::empty())).0,
            (match res {
                    Some(listed) => Some(exprs_view(listed@)),
                    None => None,
                }) == (crate::front::syntax::arguments(old(self)@, Seq::empty())).1,
            final(self)@.tokens == old(self)@.tokens,
            final(self)@.remaining() <= old(self)@.remaining(),
        decreases old(self)@.remaining(), 23nat,
    {
        let mut arguments: Vec<Expr> = Vec::new();
        assert(exprs_view(arguments@) =~= Seq::<ExprView>::empty());
        loop
            invariant_except_break
                crate::front::syntax::arguments(self@, exprs_view(arguments@))
                    == crate::front::syntax::arguments(old(self)@, Seq::empty()),
            invariant
                self.inv(),
                self@.tokens == old(self)@.tokens,
                self@.remaining() <= old(self)@.remaining(),
            ensures
                (self@, Some(exprs_view(arguments@))) == crate::front::syntax::arguments(
                    old(self)@,
                    Seq::empty(),
                ),
            decreases self@.remaining(),
        {
            if arguments.len() >= 8 {
                let line: usize = self.peek().line;
                self.error_line(line, "Cannot have more than 8 arguments");
            }
            match self.expression() {
                Some(argument) => {
                    proof {
                        lemma_exprs_push(arguments@, argument);
                    }
                    arguments.push(argument);
                },
                None => {
                    return None;
                },
            }
            if !self.match_tokens(vec![Kind::Comma]) {
                break ;
            }
        }
        Some(arguments)
    }

    #[verifier::rlimit(100)]
    fn primary(&mut self) -> (res: Option<Expr>)
        requires
            old(self).inv(),
        ensures
            final(self).inv(),
            final(self)@ == (primary(old(self)@)).0,
            (opt_expr(res)) == (primary(old(self)@)).1,
            final(self)@.tokens == old(self)@.tokens,
            final(self)@.remaining() <= old(self)@.remaining(),
            res.is_some() ==> final(self)@.remaining() < old(self)@.remaining(),
        decreases old(self)@.remaining(), 0nat,
    {
        let peeked: Token = self.peek().clone();
        self.advance();
        match peeked.token_type {
            TokenType::False => Some(Expr::Literal(Literal::Bool(false))),
            TokenType::True => Some(Expr::Literal(Literal::Bool(true))),
            TokenType::Nil => Some(Expr::Literal(Literal::Nil)),
            TokenType::Number(num) => Some(Expr::Literal(Literal::Number(num))),
            TokenType::String => {
                let contents: Vec<u8> = if peeked.lexeme.len() >= 2 {
                    to_bytes(slice_subrange(peeked.lexeme.as_slice(), 1, peeked.lexeme.len() - 1))
                } else {
                    Vec::new()
                };
                assert(contents@ =~= unquoted(peeked@.lexeme));
                Some(Expr::Literal(Literal::String(contents)))
            },
            TokenType::LeftParen => {
                let expr: Expr = match self.expression() {
                    Some(expr) => expr,
                    None => {
                        return None;
                    },
                };
                self.consume(Kind::RightParen, "Expected ')' after expression.");
                Some(Expr::Grouping(Grouping::new(expr)))
            },
            TokenType::Identifier => Some(Expr::Variable(Variable::new(peeked))),
            TokenType::This => Some(Expr::This(This::new(peeked))),
            TokenType::Super => {
                if self.consume(Kind::Dot, "Expected '.' after 'super'.").is_none() {
                    return None;
                }
                let method: Token = match self.consume(
                    Kind::Identifier,
                    "Expected superclass method name.",
                ) {
                    Some(method) => method,
                    None => {
                        return None;
                    },
                };
                Some(Expr::Super(Super::new(Variable::new(peeked), method)))
            },
            _ => {
                self.error(&peeked, "Expected expression.");
                None
            },
        }
    }

    /// Moves past the next token if it is of one of the given kinds, and
    /// says whether it did.
    #[verifier::rlimit(100)]
    fn match_tokens(&mut self, kinds: Vec<Kind>) -> (matched: bool)
        requires
            old(self).inv(),
        ensures
            final(self).inv(),
            matched == old(self)@.check_any(kinds@),
            final(self)@ == if matched {
                old(self)@.advance()
            } else {
                old(self)@
            },
            final(self)@.tokens == old(self)@.tokens,
            final(self)@.remaining() <= old(self)@.remaining(),
            matched ==> final(self)@.remaining() < old(self)@.remaining(),
    {
        if self.check_tokens(kinds) {
            self.advance();
            true
        } else {
            false
        }
    }

    /// Whether the next token is of one of the given kinds.
    fn check_tokens(&self, kinds: Vec<Kind>) -> (found: bool)
        requires
            self.inv(),
        ensures
            found == self@.check_any(kinds@),
    {
        let mut i: usize = 0;
        while i < kinds.len()
            invariant
                self.inv(),
                i <= kinds@.len(),
                forall|k: int| 0 <= k < i ==> !self@.check(#[trigger] kinds@[k]),
            decreases kinds@.len() - i,
        {
            if self.check(kinds[i]) {
                return true;
            }
            i += 1;
        }
        false
    }

    /// Whether the next token is of the given kind and not the end.
    fn check(&self, kind: Kind) -> (is_next: bool)
        requires
            self.inv(),
        ensures
            is_next == self@.check(kind),
    {
        if self.is_at_end() {
            return false;
        }
        self.peek().token_type.kind() == kind
    }

    /// Whether the next token is the end of the tokens.
    fn is_at_end(&self) -> (at_end: bool)
        requires
            self.inv(),
        ensures
            at_end == self@.is_at_end(),
            !at_end ==> self@.remaining() > 1,
    {
        match self.peek().token_type {
            TokenType::Eof => true,
            _ => false,
        }
    }

    /// The next token.
    fn peek(&self) -> (token: &Token)
        requires
            self.inv(),
        ensures
            token@ == self@.peek(),
    {
        &self.tokens[self.current]
    }

    /// Moves past the next token, unless it is the end of the tokens.
    fn advance(&mut self)
        requires
            old(self).inv(),
        ensures
            final(self).inv(),
            final(self)@ == old(self)@.advance(),
            final(self)@.tokens == old(self)@.tokens,
            final(self)@.remaining() <= old(self)@.remaining(),
            !old(self)@.is_at_end() ==> final(self)@.remaining() < old(self)@.remaining(),
    {
        let length: usize = self.tokens.len();
        if !self.is_at_end() {
            self.current += 1;
        }
    }

    /// The token before the next one.
    fn previous(&self) -> (token: &Token)
        requires
            self.inv(),
        ensures
            token@ == self@.previous(),
    {
        if self.current > 0 {
            &self.tokens[self.current - 1]
        } else {
            self.peek()
        }
    }

    /// Moves past the next token if it is of the given kind and hands out a
    /// copy of it; complains about the next token otherwise.
    #[verifier::rlimit(100)]
    fn consume(&mut self, kind: Kind, error_message: &str) -> (token: Option<Token>)
        requires
            old(self).inv(),
        ensures
            final(self).inv(),
            final(self)@ == (old(self)@.consume(kind, error_message.spec_bytes())).0,
            (opt_token(token)) == (old(self)@.consume(kind, error_message.spec_bytes())).1,
            final(self)@.tokens == old(self)@.tokens,
            final(self)@.remaining() <= old(self)@.remaining(),
            token.is_some() ==> final(self)@.remaining() < old(self)@.remaining(),
    {
        if self.check(kind) {
            let token: Token = self.peek().clone();
            self.advance();
            return Some(token);
        }
        let next: Token = self.peek().clone();
        self.error(&next, error_message);
        None
    }

    /// Complains about a token.
    fn error(&mut self, token: &Token, error_message: &str)
        requires
            old(self).inv(),
        ensures
            final(self).inv(),
            final(self)@ == old(self)@.error(token@, error_message.spec_bytes()),
            final(self)@.tokens == old(self)@.tokens,
            final(self)@.remaining() == old(self)@.remaining(),
    {
        let mut location: Vec<u8> = Vec::new();
        match token.token_type {
            TokenType::Eof => {
                push_bytes(&mut location, " at end".as_bytes());
                assert(location@ =~= msg(" at end"));
            },
            _ => {
                push_bytes(&mut location, " at '".as_bytes());
                push_bytes(&mut location, token.lexeme.as_slice());
                push_bytes(&mut location, "'".as_bytes());
                assert(location@ =~= msg(" at '") + token@.lexeme + msg("'"));
            },
        }
        let report: Report = Report::at(token.line, location.as_slice(), error_message);
        proof {
            lemma_reports_push(self.reports@, report);
        }
        self.reports.push(report);
    }

    /// Complains about a line.
    fn error_line(&mut self, line: usize, error_message: &str)
        requires
            old(self).inv(),
        ensures
            final(self).inv(),
            final(self)@ == old(self)@.error_line(line, error_message.spec_bytes()),
            final(self)@.tokens == old(self)@.tokens,
            final(self)@.remaining() == old(self)@.remaining(),
    {
        let report: Report = Report::error(line, error_message.as_bytes());
        proof {
            lemma_reports_push(self.reports@, report);
        }
        self.reports.push(report);
    }

    /// Skips tokens up to a place where a statement may start.
    #[verifier::rlimit(100)]
    fn synchronize(&mut self)
        requires
            old(self).inv(),
        ensures
            final(self).inv(),
            final(self)@ == old(self)@.synchronize(),
            final(self)@.tokens == old(self)@.tokens,
            final(self)@.remaining() <= old(self)@.remaining(),
            !old(self)@.is_at_end() ==> final(self)@.remaining() < old(self)@.remaining(),
    {
        self.advance();
        let ghost start = self@;
        while !self.is_at_end()
            invariant
                self.inv(),
                self@.tokens == old(self)@.tokens,
                self@.remaining() <= start.remaining(),
                start == old(self)@.advance(),
                start.remaining() <= old(self)@.remaining(),
                !old(self)@.is_at_end() ==> start.remaining() < old(self)@.remaining(),
                self@.skip_to_statement() == start.skip_to_statement(),
            decreases self@.remaining(),
        {
            match self.previous().token_type {
                TokenType::Semicolon => {
                    return ;
                },
                _ => {},
            }
            match self.peek().token_type {
                TokenType::Class
                | TokenType::Fun
                | TokenType::Let
                | TokenType::For
                | TokenType::If
                | TokenType::While
                | TokenType::Print
                | TokenType::Return => {
                    return ;
                },
                _ => {},
            }
            self.advance();
        }
    }
}

} // verus!
