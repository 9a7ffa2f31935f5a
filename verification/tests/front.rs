use rlox::bytecode::Number;
use rlox::compiler::{numerals_of, Source};
use rlox::front::{Expr, Kind, Literal, Parser, Scanner, Stmt, Token, TokenType};

fn parse_number(text: &[u8]) -> Number {
    let text = std::str::from_utf8(text).expect("a numeral is ASCII");
    Number::new(text.parse::<f64>().expect("a numeral").to_bits())
}

fn scan(text: &str) -> (Vec<Token>, Vec<String>) {
    let numerals = numerals_of(Source::new(text), &parse_number);
    let mut scanner = Scanner::new(text, numerals);
    let tokens = scanner.scan_tokens();
    let complaints = scanner
        .errors()
        .iter()
        .map(|report| format!("{}: {}", report.line, String::from_utf8_lossy(&report.message)))
        .collect();
    (tokens, complaints)
}

fn parse(text: &str) -> (Vec<Stmt>, Vec<String>) {
    let (tokens, _) = scan(text);
    let mut parser = Parser::new(tokens);
    let statements = parser.parse();
    let complaints = parser
        .reports()
        .iter()
        .map(|report| {
            format!(
                "{}{}: {}",
                report.line,
                String::from_utf8_lossy(&report.location),
                String::from_utf8_lossy(&report.message)
            )
        })
        .collect();
    (statements, complaints)
}

fn show(expr: &Expr) -> String {
    let lexeme = |token: &Token| String::from_utf8_lossy(&token.lexeme).into_owned();
    match expr {
        Expr::Assign(a) => format!("(= {} {})", lexeme(&a.variable.name), show(&a.value)),
        Expr::Binary(b) => format!("({} {} {})", lexeme(&b.operator), show(&b.left), show(&b.right)),
        Expr::Logical(b) => format!("({} {} {})", lexeme(&b.operator), show(&b.left), show(&b.right)),
        Expr::Call(c) => {
            let args: Vec<String> = c.arguments.iter().map(show).collect();
            format!("(call {} [{}])", show(&c.callee), args.join(" "))
        }
        Expr::Get(g) => format!("(get {} {})", show(&g.object), lexeme(&g.name)),
        Expr::SetExpr(s) => format!("(set {} {} {})", show(&s.object), lexeme(&s.name), show(&s.value)),
        Expr::Grouping(g) => format!("(group {})", show(&g.expression)),
        Expr::Literal(Literal::Nil) => "nil".to_string(),
        Expr::Literal(Literal::Bool(b)) => format!("{}", b),
        Expr::Literal(Literal::Number(n)) => format!("{}", f64::from_bits(n.bits)),
        Expr::Literal(Literal::String(s)) => format!("{:?}", String::from_utf8_lossy(s)),
        Expr::Super(s) => format!("(super {})", lexeme(&s.method)),
        Expr::This(_) => "this".to_string(),
        Expr::Unary(u) => format!("({} {})", lexeme(&u.operator), show(&u.right)),
        Expr::Ternary(t) => format!("(? {} {} {})", show(&t.condition), show(&t.true_branch), show(&t.false_branch)),
        Expr::Variable(v) => lexeme(&v.name),
    }
}

fn show_stmt(stmt: &Stmt) -> String {
    let lexeme = |token: &Token| String::from_utf8_lossy(&token.lexeme).into_owned();
    match stmt {
        Stmt::Block(b) => {
            let inner: Vec<String> = b.statements.iter().map(show_stmt).collect();
            format!("{{{}}}", inner.join(" "))
        }
        Stmt::Class(c) => {
            let methods: Vec<String> = c.methods.iter().map(|m| lexeme(&m.name)).collect();
            match &c.superclass {
                Some(parent) => format!("(class {} < {} [{}])", lexeme(&c.name), lexeme(&parent.name), methods.join(" ")),
                None => format!("(class {} [{}])", lexeme(&c.name), methods.join(" ")),
            }
        }
        Stmt::Expression(e) => format!("{};", show(e)),
        Stmt::Function(f) => {
            let params: Vec<String> = f.params.iter().map(lexeme).collect();
            let body: Vec<String> = f.body.iter().map(show_stmt).collect();
            format!("(fun {} [{}] {{{}}})", lexeme(&f.name), params.join(" "), body.join(" "))
        }
        Stmt::If(i) => match &i.else_branch {
            Some(other) => format!("(if {} {} {})", show(&i.condition), show_stmt(&i.then_branch), show_stmt(other)),
            None => format!("(if {} {})", show(&i.condition), show_stmt(&i.then_branch)),
        },
        Stmt::Print(e) => format!("(print {})", show(e)),
        Stmt::Return(r) => match &r.value {
            Some(value) => format!("(return {})", show(value)),
            None => "(return)".to_string(),
        },
        Stmt::While(w) => format!("(while {} {})", show(&w.condition), show_stmt(&w.body)),
        Stmt::Declaration(d) => match &d.initializer {
            Some(value) => format!("(let {} {})", lexeme(&d.name), show(value)),
            None => format!("(let {})", lexeme(&d.name)),
        },
    }
}

fn tree(text: &str) -> String {
    let (statements, complaints) = parse(text);
    assert_eq!(complaints, Vec::<String>::new());
    let shown: Vec<String> = statements.iter().map(show_stmt).collect();
    shown.join(" ")
}

#[test]
fn tokens_own_their_lexeme_and_count_lines_from_zero() {
    let (tokens, complaints) = scan("let x = 1.5;\nprint \"hi\";");
    assert!(complaints.is_empty());
    let kinds: Vec<Kind> = tokens.iter().map(|t| t.token_type.kind()).collect();
    assert_eq!(
        kinds,
        vec![
            Kind::Let,
            Kind::Identifier,
            Kind::Equal,
            Kind::Number,
            Kind::Semicolon,
            Kind::Print,
            Kind::String,
            Kind::Semicolon,
            Kind::Eof
        ]
    );
    assert_eq!(tokens[1].lexeme, b"x".to_vec());
    assert_eq!(tokens[6].lexeme, b"\"hi\"".to_vec());
    assert_eq!(tokens[0].line, 0);
    assert_eq!(tokens[5].line, 1);
    match tokens[3].token_type {
        TokenType::Number(n) => assert_eq!(f64::from_bits(n.bits), 1.5),
        other => panic!("expected a number, got {:?}", other),
    }
    assert_eq!(tokens[8].lexeme, Vec::<u8>::new());
    assert_eq!(tokens[8].line, 0);
}

#[test]
fn the_scanner_complains_and_goes_on() {
    let (tokens, complaints) = scan("1 @ 2\n\"open");
    assert_eq!(complaints, vec!["0: Unexpected token @", "1: Unterminated string."]);
    let kinds: Vec<Kind> = tokens.iter().map(|t| t.token_type.kind()).collect();
    assert_eq!(kinds, vec![Kind::Number, Kind::Number, Kind::Eof]);
}

#[test]
fn a_numeral_without_a_value_is_complained_about() {
    let mut scanner = Scanner::new("1", Vec::new());
    let tokens = scanner.scan_tokens();
    assert_eq!(tokens.len(), 1);
    assert_eq!(scanner.errors()[0].message, b"No value is known for this numeral.".to_vec());
}

#[test]
fn operators_group_by_precedence_and_to_the_left() {
    assert_eq!(tree("1 + 2 * 3;"), "(+ 1 (* 2 3));");
    assert_eq!(tree("1 - 2 - 3;"), "(- (- 1 2) 3);");
    assert_eq!(tree("1 < 2 == 3 >= 4;"), "(== (< 1 2) (>= 3 4));");
    assert_eq!(tree("a or b and c;"), "(or a (and b c));");
    assert_eq!(tree("!-a;"), "(! (- a));");
    assert_eq!(tree("(1 + 2) * 3;"), "(* (group (+ 1 2)) 3);");
    assert_eq!(tree("a ? b : c ? d : e;"), "(? a b (? c d e));");
    assert_eq!(tree("\"s\" + nil;"), "(+ \"s\" nil);");
    assert_eq!(tree("true == false;"), "(== true false);");
}

#[test]
fn assignment_groups_to_the_right_and_needs_a_target() {
    assert_eq!(tree("a = b = 1;"), "(= a (= b 1));");
    assert_eq!(tree("a.b.c = 1;"), "(set (get a b) c 1);");
    let (statements, complaints) = parse("1 = 2;");
    assert_eq!(complaints, vec!["0 at '=': Invalid assignment target."]);
    assert_eq!(show_stmt(&statements[0]), "1;");
}

#[test]
fn calls_and_property_accesses_chain() {
    assert_eq!(tree("f(1, b)(c).d;"), "(get (call (call f [1 b]) [c]) d);");
    assert_eq!(tree("f();"), "(call f []);");
    assert_eq!(tree("this.x = super.init(1);"), "(set this x (call (super init) [1]));");
}

#[test]
fn statements_parse() {
    assert_eq!(tree("let a; let b = 1; print a; { b; }"), "(let a) (let b 1) (print a) {b;}");
    assert_eq!(tree("if (a) print 1; else print 2;"), "(if a (print 1) (print 2))");
    assert_eq!(tree("if (a) if (b) 1; else 2;"), "(if a (if b 1; 2;))");
    assert_eq!(tree("while (a) a = a - 1;"), "(while a (= a (- a 1));)");
    assert_eq!(tree("fun f(a, b) { return a; return; }"), "(fun f [a b] {(return a) (return)})");
    assert_eq!(tree("class A { init(x) {} get() {} }"), "(class A [init get])");
    assert_eq!(tree("class B < A { }"), "(class B < A [])");
}

#[test]
fn a_for_statement_becomes_a_while_loop() {
    assert_eq!(
        tree("for (let i = 0; i < 3; i = i + 1) print i;"),
        "{(let i 0) (while (< i 3) {(print i) (= i (+ i 1));})}"
    );
    assert_eq!(tree("for (;;) print 1;"), "(while true (print 1))");
    assert_eq!(tree("for (i = 0; ; ) {}"), "{(= i 0); (while true {})}");
}

#[test]
fn the_parser_complains_and_recovers_at_the_next_statement() {
    let (statements, complaints) = parse("print + 1; print 2;\nlet = 3; print 4");
    assert_eq!(
        complaints,
        vec![
            "0 at '+': Expected expression.",
            "1 at '=': Expected variable name",
            "0 at end: Expected ';' after value."
        ]
    );
    let shown: Vec<String> = statements.iter().map(show_stmt).collect();
    assert_eq!(shown, vec!["(print 2)", "(print 4)"]);
}

#[test]
fn missing_pieces_are_named() {
    let messages = |text: &str| -> Vec<String> {
        parse(text).1.into_iter().map(|m| m.split(": ").nth(1).unwrap().to_string()).collect()
    };
    assert_eq!(messages("(1;"), vec!["Expected ')' after expression."]);
    assert_eq!(messages("{ 1;"), vec!["Expected '}' after block"]);
    assert_eq!(messages("fun (a) {}"), vec!["Expected function name"]);
    assert_eq!(messages("class { }"), vec!["Expected class name"]);
    assert_eq!(messages("class A < { }"), vec!["Expected superclass name"]);
    assert_eq!(messages("class A { 1 }"), vec!["Expected method name"]);
    assert_eq!(messages("a.1;"), vec!["Expected property name after '.'"]);
    assert_eq!(messages("super;"), vec!["Expected '.' after 'super'."]);
    assert_eq!(messages("f(1;"), vec!["Expected ')' after function call arguments"]);
    assert_eq!(messages("return 1"), vec!["Expected ';' after return"]);
}

#[test]
fn more_than_eight_arguments_are_complained_about() {
    let (statements, complaints) = parse("f(1, 2, 3, 4, 5, 6, 7, 8, 9);");
    assert_eq!(complaints, vec!["0: Cannot have more than 8 arguments"]);
    assert_eq!(statements.len(), 1);
    let (_, complaints) = parse("fun f(a, b, c, d, e, f, g, h, i) {}");
    assert_eq!(complaints, vec!["0: Cannot have more than 8 parameters"]);
}

#[test]
fn tokens_without_an_end_get_one() {
    let mut parser = Parser::new(vec![Token::new(TokenType::Nil, b"nil", 0), Token::new(TokenType::Semicolon, b";", 0)]);
    let statements = parser.parse();
    assert_eq!(statements.len(), 1);
    assert!(parser.reports().is_empty());
    assert!(Parser::new(Vec::new()).parse().is_empty());
}
