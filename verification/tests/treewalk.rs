use rlox::bytecode::{Number, Opcode};
use rlox::compiler::{numerals_of, Source};
use rlox::front::{
    Class, Environment, Failure, Instance, Interpreter, Literal, Parser, Resolver, Scanner,
    Scopes, StatementResult, Stmt, Token, TokenType, Value,
};

fn parse_number(text: &[u8]) -> Number {
    let text = std::str::from_utf8(text).expect("a numeral is ASCII");
    Number::new(text.parse::<f64>().expect("a numeral").to_bits())
}

fn arithmetic(op: Opcode, left: Number, right: Number) -> Number {
    let l = f64::from_bits(left.bits);
    let r = f64::from_bits(right.bits);
    let result = match op {
        Opcode::Add => l + r,
        Opcode::Sub => l - r,
        Opcode::Mul => l * r,
        Opcode::Div => l / r,
        _ => unreachable!(),
    };
    Number::new(result.to_bits())
}

fn clock() -> Number {
    Number::new(1234.5f64.to_bits())
}

fn tree(text: &str) -> (Vec<Stmt>, Vec<String>, Vec<String>) {
    let numerals = numerals_of(Source::new(text), &parse_number);
    let mut scanner = Scanner::new(text, numerals);
    let tokens = scanner.scan_tokens();
    assert!(scanner.errors().is_empty());
    let mut parser = Parser::new(tokens);
    let mut statements = parser.parse();
    assert!(parser.reports().is_empty(), "{:?}", parser.reports());
    let mut resolver = Resolver::new();
    resolver.resolve(&mut statements);
    let text_of = |reports: &Vec<rlox::front::Report>| -> Vec<String> {
        reports.iter().map(|r| String::from_utf8_lossy(&r.message).into_owned()).collect()
    };
    let errors = text_of(resolver.errors());
    let warnings = text_of(resolver.warnings());
    (statements, errors, warnings)
}

fn show(value: &Value) -> String {
    match value {
        Value::Literal(Literal::Nil) => "nil".to_string(),
        Value::Literal(Literal::Bool(b)) => format!("{}", b),
        Value::Literal(Literal::Number(n)) => format!("{}", f64::from_bits(n.bits)),
        Value::Literal(Literal::String(s)) => String::from_utf8_lossy(s).into_owned(),
        Value::Native(_) => "<native>".to_string(),
        Value::Function(_) => "<fn>".to_string(),
        Value::Class(_) => "<class>".to_string(),
        Value::Instance(_) => "<instance>".to_string(),
    }
}

fn describe(error: &Failure) -> String {
    let text = match error {
        Failure::Type(e) => e.to_text(),
        Failure::UndefinedVariable(e) => e.to_text(),
        Failure::UndefinedProperty(e) => e.to_text(),
        Failure::IncorrectArguments(e) => e.to_text(),
        Failure::Fatal(e) => e.to_text(),
        Failure::Composed(_) => b"composed".to_vec(),
    };
    String::from_utf8_lossy(&text).into_owned()
}

fn run(text: &str) -> (Vec<String>, Vec<String>) {
    let (statements, errors, _) = tree(text);
    assert_eq!(errors, Vec::<String>::new());
    let mut interpreter = Interpreter::new();
    let failures = interpreter.interpret(&statements, &arithmetic, &clock, 10_000);
    let printed = interpreter.output.iter().map(show).collect();
    (printed, failures.iter().map(describe).collect())
}

fn printed(text: &str) -> Vec<String> {
    let (printed, failures) = run(text);
    assert_eq!(failures, Vec::<String>::new());
    printed
}

#[test]
fn the_tree_walker_computes() {
    assert_eq!(printed("print 1 + 2;"), vec!["3"]);
    assert_eq!(printed("print \"a\" + \"b\";"), vec!["ab"]);
    assert_eq!(printed("print 7 - 2 * 3;"), vec!["1"]);
    assert_eq!(printed("print -(1 + 2) / 2;"), vec!["-1.5"]);
    assert_eq!(printed("print 1 < 2; print 2 <= 2; print 3 > 4; print 4 >= 5;"), vec!["true", "true", "false", "false"]);
    assert_eq!(printed("print 1 == 1; print 1 != 1; print nil == nil; print \"a\" == \"a\";"), vec!["true", "false", "false", "true"]);
    assert_eq!(printed("print true ? 1 : 2; print nil or 3; print false and 4;"), vec!["1", "3", "false"]);
}

#[test]
fn adding_a_number_and_a_string_is_a_type_error() {
    let (printed, failures) = run("print 1 + \"a\";\nprint 2;");
    assert_eq!(printed, vec!["2"]);
    assert_eq!(failures, vec!["Type error: Two numbers or two strings required.\n[line 0]"]);
}

#[test]
fn only_nil_and_false_count_as_false_in_the_tree_walker() {
    assert_eq!(
        printed("print !0; print !nil; print !false; print !\"\"; print 0 ? \"yes\" : \"no\";"),
        vec!["false", "true", "true", "false", "yes"]
    );
    assert!(Value::Literal(Literal::Number(Number::new(0))).is_truthy());
    assert!(rlox::bytecode::Value::Number(Number::new(0)).is_falsey());
}

#[test]
fn an_inner_variable_shadows_without_clobbering() {
    assert_eq!(printed("{ let a = 1; { let a = 2; print a; } print a; }"), vec!["2", "1"]);
}

#[test]
fn reading_a_variable_in_its_own_initializer_is_a_resolver_error() {
    let (_, errors, _) = tree("let a = a;");
    assert_eq!(errors[0], "Cannot read local variable in own initializer");
    let (_, errors, _) = tree("{ let a = 1; { let a = a; } }");
    assert_eq!(errors, vec!["Cannot read local variable in own initializer"]);
}

#[test]
fn the_resolver_checks_what_can_be_checked_before_running() {
    let errors = |text: &str| tree(text).1;
    assert_eq!(errors("{ let a = 1; let a = 2; print a; }"), vec!["Variable with name a is already declared in this scope."]);
    assert_eq!(errors("return 1;"), vec!["Cannot return from top level code."]);
    assert_eq!(errors("class A { A() { return 1; } }"), vec!["Cannot return values from an initializer"]);
    assert_eq!(errors("print this;"), vec!["Cannot use 'this' keyword outside of a class."]);
    assert_eq!(errors("class A < A { }"), vec!["A class cannot inherit from itself"]);
    assert_eq!(errors("print missing;"), vec!["Couldn't resolve variable missing"]);
    assert_eq!(errors("class A { m() { super.m(); } }")[0], "Cannot use 'super' in a class with no superclass");
    assert_eq!(errors("fun f() { super.m(); }")[0], "Cannot use 'super' outside of a class");
    assert_eq!(errors("let t = clock(); print t;"), Vec::<String>::new());
}

#[test]
fn unused_variables_are_warned_about_when_their_scope_ends() {
    let (_, errors, warnings) = tree("{ let a = 1; let b = 2; print b; }");
    assert!(errors.is_empty());
    assert_eq!(warnings, vec!["Variable a is declared but never used."]);
}

#[test]
fn every_use_gets_the_distance_to_its_declaration() {
    let (statements, errors, _) = tree("let a = 1; { let b = a; { print a; print b; } }");
    assert!(errors.is_empty());
    match &statements[1] {
        Stmt::Block(outer) => {
            match &outer.statements[0] {
                Stmt::Declaration(d) => match d.initializer.as_ref().unwrap() {
                    rlox::front::Expr::Variable(v) => assert_eq!(v.depth, Some(1)),
                    other => panic!("{:?}", other),
                },
                other => panic!("{:?}", other),
            }
            match &outer.statements[1] {
                Stmt::Block(inner) => match (&inner.statements[0], &inner.statements[1]) {
                    (Stmt::Print(rlox::front::Expr::Variable(a)), Stmt::Print(rlox::front::Expr::Variable(b))) => {
                        assert_eq!(a.depth, Some(2));
                        assert_eq!(b.depth, Some(1));
                    }
                    other => panic!("{:?}", other),
                },
                other => panic!("{:?}", other),
            }
        }
        other => panic!("{:?}", other),
    }
}

#[test]
fn closures_from_one_call_share_state_and_from_two_calls_do_not() {
    let program = "
        let bump = nil;
        let read = nil;
        fun make() {
            let count = 0;
            fun increment() { count = count + 1; return count; }
            fun current() { return count; }
            bump = increment;
            read = current;
            return increment;
        }
        let first = make();
        let first_read = read;
        print first();
        print first();
        print bump();
        print first_read();
        let second = make();
        print second();
        print first();
        print first_read();
    ";
    assert_eq!(printed(program), vec!["1", "2", "3", "3", "1", "4", "4"]);
}

#[test]
fn a_subclass_reaches_the_method_it_overrides_through_super() {
    let program = "
        class A { name() { return \"A\"; } greet() { return \"hello \" + this.name(); } }
        class B < A { name() { return \"B\"; } greet() { return super.greet() + \"!\"; } old() { return super.name(); } }
        let b = B();
        print b.greet();
        print b.old();
        print b.name();
    ";
    assert_eq!(printed(program), vec!["hello B!", "A", "B"]);
}

#[test]
fn this_is_the_instance_the_method_was_taken_from() {
    let program = "
        class Box { Box(v) { this.v = v; } get() { return this.v; } }
        let one = Box(1);
        let two = Box(2);
        let get_one = one.get;
        let get_two = two.get;
        print get_one();
        print get_two();
        print get_one();
        one.v = 10;
        print get_one();
        print two.get();
    ";
    assert_eq!(printed(program), vec!["1", "2", "1", "10", "10", "2"]);
}

#[test]
fn calling_a_class_gives_the_instance() {
    let (printed, failures) = run("class P { P(x) { this.x = x; } } let p = P(3); print p.x; print p.y;");
    assert_eq!(printed, vec!["3"]);
    assert_eq!(failures, vec!["Undefined property y for instance of class P class instance.\n[line 0]"]);
}

#[test]
fn calls_check_the_number_of_arguments() {
    let (_, failures) = run("fun f(a, b) { return a; }\nf(1);");
    assert_eq!(failures, vec!["Incorrect number of arguments. Expected 2 arguments but got 1.\n[line 1]"]);
    let (_, failures) = run("let s = \"text\"; s();");
    assert_eq!(failures, vec!["Type error: Can only call functions and classes!\n[line 0]"]);
    let (_, failures) = run("let n = 1; n.field = 2;");
    assert_eq!(failures, vec!["Type error: Only instances have fields\n[line 0]"]);
}

#[test]
fn loops_and_functions_run() {
    assert_eq!(
        printed("let i = 0; let sum = 0; while (i < 5) { i = i + 1; sum = sum + i; } print sum;"),
        vec!["15"]
    );
    assert_eq!(printed("for (let i = 0; i < 3; i = i + 1) print i;"), vec!["0", "1", "2"]);
    assert_eq!(
        printed("fun fib(n) { if (n < 2) return n; return fib(n - 1) + fib(n - 2); } print fib(10);"),
        vec!["55"]
    );
    assert_eq!(printed("print clock();"), vec!["1234.5"]);
}

#[test]
fn an_endless_loop_runs_out_of_steps() {
    let (statements, errors, _) = tree("while (true) {}");
    assert!(errors.is_empty());
    let mut interpreter = Interpreter::new();
    let failures = interpreter.interpret(&statements, &arithmetic, &clock, 50);
    assert_eq!(describe(&failures[0]), "Evaluation ran out of steps\n[line 0]");
}

#[test]
fn a_top_level_expression_echoes_its_literal_value() {
    assert_eq!(printed("1 + 1; nil; \"s\"; { 5; }"), vec!["2", "s"]);
}

#[test]
fn an_unresolved_variable_is_a_fatal_error() {
    let numerals = numerals_of(Source::new("print a;"), &parse_number);
    let mut scanner = Scanner::new("print a;", numerals);
    let statements = Parser::new(scanner.scan_tokens()).parse();
    let mut interpreter = Interpreter::new();
    let failures = interpreter.interpret(&statements, &arithmetic, &clock, 100);
    assert!(matches!(failures[0], Failure::Fatal(_)));
}

fn name(text: &str) -> Token {
    Token::new(TokenType::Identifier, text.as_bytes(), 7)
}

fn num(value: f64) -> Value {
    Value::Literal(Literal::Number(Number::new(value.to_bits())))
}

#[test]
fn scopes_chain_outwards() {
    let mut scopes = Scopes::new();
    let mut env = Environment::new(&mut scopes);
    assert!(env.is_global(&scopes));
    env.define(&mut scopes, b"a".to_vec(), Some(num(1.0)));
    env.define(&mut scopes, b"pending".to_vec(), None);
    let global = env;
    env.push(&mut scopes);
    assert!(!env.is_global(&scopes));
    env.define(&mut scopes, b"b".to_vec(), Some(num(2.0)));
    assert_eq!(show(&env.get(&scopes, &name("a")).unwrap()), "1");
    assert_eq!(show(&env.get(&scopes, &name("b")).unwrap()), "2");
    assert!(matches!(global.get(&scopes, &name("b")), Err(Failure::UndefinedVariable(_))));
    assert!(matches!(env.get(&scopes, &name("pending")), Err(Failure::UndefinedVariable(_))));
    assert!(env.assign(&mut scopes, &name("a"), num(5.0)).is_none());
    assert_eq!(show(&global.get(&scopes, &name("a")).unwrap()), "5");
    assert!(matches!(env.assign(&mut scopes, &name("zzz"), Value::nil()), Some(Failure::UndefinedVariable(_))));
    assert_eq!(show(&env.get_at(&scopes, &name("a"), 1).unwrap()), "5");
    assert!(matches!(env.get_at(&scopes, &name("b"), 1), Err(Failure::UndefinedVariable(_))));
    assert!(matches!(env.get_at(&scopes, &name("a"), 2), Err(Failure::Fatal(_))));
    assert!(matches!(env.assign_at(&mut scopes, &name("a"), Value::nil(), 9), Some(Failure::Fatal(_))));
    assert!(env.assign_at(&mut scopes, &name("a"), num(6.0), 1).is_none());
    assert_eq!(env.ancestor(&scopes, 1), global.head);
    assert_eq!(env.ancestor(&scopes, 2), None);
    env.pop(&scopes);
    assert_eq!(env, global);
    let mut other = Environment::empty_env();
    env.swap(&mut other);
    assert_eq!(env.head, None);
    assert_eq!(other, global);
    assert_eq!(scopes.len(), 2);
}

#[test]
fn two_handles_on_one_scope_see_each_others_assignments() {
    let mut scopes = Scopes::new();
    let first = Environment::new(&mut scopes);
    first.define(&mut scopes, b"count".to_vec(), Some(num(0.0)));
    let second = first;
    let separate = Environment::new(&mut scopes);
    separate.define(&mut scopes, b"count".to_vec(), Some(num(0.0)));
    assert!(first.assign(&mut scopes, &name("count"), num(1.0)).is_none());
    assert_eq!(show(&second.get(&scopes, &name("count")).unwrap()), "1");
    assert_eq!(show(&separate.get(&scopes, &name("count")).unwrap()), "0");
}

#[test]
fn methods_are_found_along_the_superclasses() {
    let classes = vec![
        Class::new(b"A".to_vec(), None, vec![b"m".to_vec(), b"only_a".to_vec()], vec![10, 11]),
        Class::new(b"B".to_vec(), Some(0), vec![b"m".to_vec()], vec![20]),
    ];
    assert_eq!(Class::find_method(&classes, 1, b"m"), Some(20));
    assert_eq!(Class::find_method(&classes, 1, b"only_a"), Some(11));
    assert_eq!(Class::find_method(&classes, 0, b"m"), Some(10));
    assert_eq!(Class::find_method(&classes, 1, b"none"), None);
    assert_eq!(Class::find_method(&classes, 5, b"m"), None);
    let mut instance = Instance::new(1);
    assert!(instance.get(b"x").is_none());
    instance.set(b"x", num(1.0));
    instance.set(b"x", num(2.0));
    assert_eq!(show(&instance.get(b"x").unwrap()), "2");
}

#[test]
fn results_combine() {
    assert!(StatementResult::combine_errors(Vec::new()).is_none());
    let sole = StatementResult::combine_errors(vec![StatementResult::Return(rlox::front::ReturnObject::new(num(1.0)))]);
    assert!(matches!(sole, Some(StatementResult::Return(_))));
    let failure = |text: &str| {
        StatementResult::RuntimeError(Failure::Fatal(rlox::front::FatalError::new(name(text), text.as_bytes().to_vec())))
    };
    match StatementResult::combine_errors(vec![failure("one"), StatementResult::Break, failure("two")]) {
        Some(StatementResult::RuntimeError(Failure::Composed(all))) => {
            assert_eq!(all.errors.len(), 2);
            assert_eq!(describe(&all.errors[0]), "one\n[line 7]");
            assert_eq!(describe(&all.errors[1]), "two\n[line 7]");
        }
        other => panic!("{:?}", other),
    }
    assert!(rlox::front::ComposedError::from(Vec::new()).is_none());
}

#[test]
fn entering_a_call_binds_parameters_to_arguments() {
    let (statements, errors, _) = tree("fun f(a, b) { return a; }");
    assert!(errors.is_empty());
    let mut interpreter = Interpreter::new();
    assert!(interpreter.interpret(&statements, &arithmetic, &clock, 100).is_empty());
    let scopes_before = interpreter.scopes.len();
    let paren = name(")");
    let entered = interpreter.enter_call(&paren, 0, &vec![num(1.0), num(2.0)]).unwrap();
    assert_eq!(entered.head, Some(scopes_before));
    assert_eq!(show(&entered.get(&interpreter.scopes, &name("a")).unwrap()), "1");
    assert_eq!(show(&entered.get(&interpreter.scopes, &name("b")).unwrap()), "2");
    assert_eq!(show(&entered.get(&interpreter.scopes, &name("f")).unwrap()), "<fn>");
    match interpreter.enter_call(&paren, 0, &vec![num(1.0)]) {
        Err(Failure::IncorrectArguments(e)) => assert_eq!((e.expected_num, e.actual_num), (2, 1)),
        other => panic!("{:?}", other.map(|e| e.head)),
    }
    assert!(matches!(interpreter.enter_call(&paren, 9, &vec![]), Err(Failure::Fatal(_))));
    assert_eq!(interpreter.scopes.len(), scopes_before + 1);
}

#[test]
fn finishing_a_call_turns_the_end_of_the_body_into_a_value() {
    let mut interpreter = Interpreter::new();
    let paren = name(")");
    let closure = interpreter.environment;
    let nothing = interpreter.finish_call(&paren, None, closure, false).unwrap();
    assert_eq!(show(&nothing), "nil");
    let returned = StatementResult::Return(rlox::front::ReturnObject::new(num(4.0)));
    assert_eq!(show(&interpreter.finish_call(&paren, Some(returned), closure, false).unwrap()), "4");
    let failed = StatementResult::RuntimeError(Failure::Type(rlox::front::TypeError::new(name("+"), "bad")));
    assert!(matches!(interpreter.finish_call(&paren, Some(failed), closure, false), Err(Failure::Type(_))));
    assert!(matches!(
        interpreter.finish_call(&paren, Some(StatementResult::Break), closure, false),
        Err(Failure::Fatal(_))
    ));
    // An initializer gives what `this` is bound to, whatever it returns.
    let bound = {
        let (statements, _, _) = tree("class A { A() { return; } }");
        let program: &'static Vec<Stmt> = Box::leak(Box::new(statements));
        assert!(interpreter.interpret(program, &arithmetic, &clock, 100).is_empty());
        interpreter.bind(0, Value::Instance(5), &paren).unwrap()
    };
    let scope = interpreter.functions[bound].closure;
    let returned = StatementResult::Return(rlox::front::ReturnObject::new(num(4.0)));
    assert_eq!(show(&interpreter.finish_call(&paren, Some(returned), scope, true).unwrap()), "<instance>");
    assert_eq!(show(&interpreter.finish_call(&paren, None, scope, true).unwrap()), "<instance>");
}

#[test]
fn a_failed_statement_does_not_stop_the_ones_after_it() {
    let (printed, failures) = run("print 1;\nprint -\"a\";\nprint 2;\nlet n = 1; print n.x;");
    assert_eq!(printed, vec!["1", "2"]);
    assert_eq!(
        failures,
        vec![
            "Type error: Minus unary only defined on numbers.\n[line 1]",
            "Type error: Only instances have properties\n[line 3]",
        ]
    );
}

#[test]
fn a_superclass_has_to_be_a_class() {
    let (_, failures) = run("let n = 1;\nclass A < n {}");
    assert_eq!(failures, vec!["Type error: Superclass must be a class\n[line 1]"]);
}

#[test]
fn comparisons_ask_for_numbers() {
    let (_, failures) = run("print 1 < \"a\";");
    assert_eq!(failures, vec!["Type error: LE requires two number operands\n[line 0]"]);
    let (_, failures) = run("print nil - 1;");
    assert_eq!(failures, vec!["Type error: Subtract requires two number operands\n[line 0]"]);
}

#[test]
fn the_clock_is_asked_each_time_it_is_called() {
    let (statements, errors, _) = tree("print clock(); print clock(); print clock() - clock();");
    assert!(errors.is_empty());
    let ticks = std::cell::Cell::new(0.0f64);
    let ticking = || {
        ticks.set(ticks.get() + 1.0);
        Number { bits: ticks.get().to_bits() }
    };
    let mut interpreter = Interpreter::new();
    let failures = interpreter.interpret(&statements, &arithmetic, &ticking, 1_000);
    assert!(failures.is_empty());
    let printed: Vec<String> = interpreter.output.iter().map(show).collect();
    assert_eq!(printed, vec!["1", "2", "-1"]);
}
