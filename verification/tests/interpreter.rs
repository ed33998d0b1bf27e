use scriptlet::lang::ast::ASTNode;
use scriptlet::lang::func::function_registry::{Function, ParamCount};
use scriptlet::lang::func::native_functions::substring;
use scriptlet::lang::interpreter::{repeat, Interpreter, Plan, Reply, Request, Step};
use scriptlet::lang::panics::{Error, LexError, ParseError};
use scriptlet::lang::token::TokenKind;
use scriptlet::lang::value::{Number, RuntimeType, RuntimeValue, MINUS_ONE, ONE};

fn num(x: f32) -> RuntimeValue {
    RuntimeValue::Number(Number { bits: x.to_bits() })
}

fn float(n: &Number) -> f32 {
    f32::from_bits(n.bits)
}

fn text(s: &str) -> RuntimeValue {
    RuntimeValue::String(s.to_string())
}

/// A host for the tests: numbers as single-precision values, printed lines
/// kept in a list, files kept in a list of names and contents.
struct Host {
    printed: Vec<String>,
    files: Vec<(String, String)>,
    asked: usize,
}

impl Host {
    fn new() -> Host {
        Host { printed: vec![], files: vec![], asked: 0 }
    }

    fn operate(&self, operator: char, left: &RuntimeValue, right: &RuntimeValue) -> Reply {
        match (left, right) {
            (RuntimeValue::Number(a), RuntimeValue::Number(b)) => {
                let (a, b) = (float(a), float(b));
                match operator {
                    '-' => Ok(num(a - b)),
                    '+' => Ok(num(a + b)),
                    '*' => Ok(num(a * b)),
                    '/' => Ok(num(a / b)),
                    '^' => Ok(num(a.powf(b))),
                    '>' => Ok(RuntimeValue::Bool(a > b)),
                    '<' => Ok(RuntimeValue::Bool(a < b)),
                    _ => Err(Error::TypeError),
                }
            }
            (RuntimeValue::Number(a), RuntimeValue::String(s)) => match operator {
                '+' => Ok(RuntimeValue::String(format!("{}{}", float(a), s))),
                _ => Err(Error::TypeError),
            },
            (RuntimeValue::String(s), RuntimeValue::Number(b)) => match operator {
                '+' => Ok(RuntimeValue::String(format!("{}{}", s, float(b)))),
                _ => Err(Error::TypeError),
            },
            _ => Err(Error::TypeError),
        }
    }

    fn call(&mut self, name: &str, args: &[RuntimeValue]) -> Reply {
        match (name, args) {
            ("print", [value]) => {
                self.printed.push(match value {
                    RuntimeValue::Null => "null".to_string(),
                    RuntimeValue::Bool(b) => format!("{}", b),
                    RuntimeValue::Number(n) => format!("{}", float(n)),
                    RuntimeValue::String(s) => s.clone(),
                });
                Ok(RuntimeValue::Null)
            }
            ("toNumber", [RuntimeValue::String(s)]) => Ok(match s.parse::<f32>() {
                Ok(n) => num(n),
                Err(_) => RuntimeValue::Null,
            }),
            ("toString", [RuntimeValue::Number(n)]) => Ok(RuntimeValue::String(float(n).to_string())),
            ("writeFile", [RuntimeValue::String(path), RuntimeValue::String(contents)]) => {
                self.files.retain(|(name, _)| name != path);
                self.files.push((path.clone(), contents.clone()));
                Ok(RuntimeValue::Bool(true))
            }
            ("readFile", [RuntimeValue::String(path)]) => {
                Ok(match self.files.iter().find(|(name, _)| name == path) {
                    Some((_, contents)) => RuntimeValue::String(contents.clone()),
                    None => RuntimeValue::Null,
                })
            }
            ("substring", [RuntimeValue::String(s), RuntimeValue::Number(from), RuntimeValue::Number(to)]) => {
                substring(s, *from, *to).map(RuntimeValue::String)
            }
            ("twice", [RuntimeValue::Number(n)]) => Ok(num(2. * float(n))),
            _ => Err(Error::NameError),
        }
    }

    fn answer(&mut self, request: &Request) -> Reply {
        self.asked += 1;
        match request {
            Request::Literal { text } => Ok(num(text.parse::<f32>().unwrap())),
            Request::Operate { operator, left, right } => self.operate(*operator, left, right),
            Request::Call { name, args } => self.call(name, args.args()),
        }
    }

    fn run(&mut self, interpreter: &mut Interpreter, source: &str) -> Result<RuntimeValue, Error> {
        let mut replies: Vec<Reply> = vec![];
        loop {
            match interpreter.run(source, &replies)? {
                Step::Done(value) => return Ok(value),
                Step::Need(request) => {
                    let reply = self.answer(&request);
                    replies.push(reply);
                }
            }
        }
    }
}

fn execute(statements: Vec<ASTNode>) -> Result<RuntimeValue, Error> {
    let mut interpreter = Interpreter::new();
    let mut host = Host::new();
    let mut replies: Vec<Reply> = vec![];
    loop {
        match interpreter.execute(&statements, &replies)? {
            Step::Done(value) => return Ok(value),
            Step::Need(request) => {
                let reply = host.answer(&request);
                replies.push(reply);
            }
        }
    }
}

fn literal(spelling: &str) -> Box<ASTNode> {
    Box::new(ASTNode::Number(spelling.to_string()))
}

fn run(source: &str) -> Result<RuntimeValue, Error> {
    Host::new().run(&mut Interpreter::new(), source)
}

#[test]
fn i_test_var_dec() {
    let mut i = Interpreter::new();
    let mut host = Host::new();
    let output = host.run(
        &mut i,
        r#"
            let x = 10 + 5;
            let y = x * 2;
            y = 8;
            print("The result is " + y);
            "#,
    );
    assert_eq!(output, Ok(RuntimeValue::Null));
    assert_eq!(host.printed, vec!["The result is 8".to_string()]);
    assert_eq!(i.env.get("x"), Ok(&num(15.)));
    assert_eq!(i.env.get("y"), Ok(&num(8.)));
}

#[test]
fn declarations_an_assignment_and_a_print() {
    let mut interpreter = Interpreter::new();
    let mut host = Host::new();
    let source = "let x = 10 + 5; let y = x * 2; y = 8; print(\"The result is \" + y);";
    assert_eq!(host.run(&mut interpreter, source), Ok(RuntimeValue::Null));
    assert_eq!(host.printed, vec!["The result is 8".to_string()]);
    assert_eq!(host.asked, 8);
}

#[test]
fn two_to_the_tenth() {
    assert_eq!(run("2 ^ 10;"), Ok(num(1024.)));
}

#[test]
fn string_times_three() {
    assert_eq!(run("\"ab\" * 3;"), Ok(text("ababab")));
    assert_eq!(run("3 * \"ab\";"), Ok(text("ababab")));
    assert_eq!(run("\"ab\" * 2.9;"), Ok(text("abab")));
    assert_eq!(run("\"ab\" * 0;"), Ok(text("")));
}

#[test]
fn second_declaration_fails_before_any_output() {
    let mut interpreter = Interpreter::new();
    let mut host = Host::new();
    assert_eq!(host.run(&mut interpreter, "let x = 1; let x = 2; print(x);"), Err(Error::NameError));
    assert_eq!(host.printed.len(), 0);
    assert_eq!(interpreter.env.get("x"), Err(Error::NameError));
    assert_eq!(run("let x = 1; let x = 2;"), Err(Error::NameError));
    assert_eq!(run("let x = 1; let x = \"s\";"), Err(Error::NameError));
}

#[test]
fn to_number_of_a_text() {
    assert_eq!(run("toNumber(\"abc\");"), Ok(RuntimeValue::Null));
    assert_eq!(run("toNumber(\"3.5\");"), Ok(num(3.5)));
}

#[test]
fn file_that_was_written_is_read() {
    let mut interpreter = Interpreter::new();
    let mut host = Host::new();
    let value = host.run(&mut interpreter, "writeFile(\"t.txt\",\"hi\"); readFile(\"t.txt\");");
    assert_eq!(value, Ok(text("hi")));
    assert_eq!(host.run(&mut interpreter, "readFile(\"u.txt\");"), Ok(RuntimeValue::Null));
}

#[test]
fn program_without_statements_is_null() {
    assert_eq!(run(""), Ok(RuntimeValue::Null));
    assert_eq!(Interpreter::new().run("  ", &vec![]), Ok(Step::Done(RuntimeValue::Null)));
}

#[test]
fn value_of_a_program_is_that_of_its_last_statement() {
    assert_eq!(run("1; \"two\"; true;"), Ok(RuntimeValue::Bool(true)));
    assert_eq!(run("1; let x = 2;"), Ok(RuntimeValue::Null));
    assert_eq!(run("let x = 2; x;"), Ok(num(2.)));
}

#[test]
fn arithmetic_on_numbers() {
    assert_eq!(run("10 + 5;"), Ok(num(15.)));
    assert_eq!(run("10 - 5 - 2;"), Ok(num(3.)));
    assert_eq!(run("2 + 3 * 4;"), Ok(num(14.)));
    assert_eq!(run("(2 + 3) * 4;"), Ok(num(20.)));
    assert_eq!(run("2 ^ 0.5;"), Ok(num(2f32.powf(0.5))));
    assert_eq!(run("2 ^ -1;"), Ok(num(0.5)));
    assert_eq!(run(".5 + 1.;"), Ok(num(1.5)));
}

#[test]
fn strings_are_joined() {
    assert_eq!(run("\"ab\" + 'cd';"), Ok(text("abcd")));
    assert_eq!(run("\"n = \" + 1.5;"), Ok(text("n = 1.5")));
    assert_eq!(run("2 + \" of them\";"), Ok(text("2 of them")));
    assert_eq!(run("\"a\" + \"b\" + \"c\";"), Ok(text("abc")));
}

#[test]
fn comparisons_of_numbers() {
    assert_eq!(run("1 < 2;"), Ok(RuntimeValue::Bool(true)));
    assert_eq!(run("1 > 2;"), Ok(RuntimeValue::Bool(false)));
    assert_eq!(run("(1 + 2) > 2;"), Ok(RuntimeValue::Bool(true)));
    assert_eq!(run("\"a\" < \"b\";"), Err(Error::TypeError));
    assert_eq!(run("1 < \"b\";"), Err(Error::TypeError));
    assert_eq!(run("true > false;"), Err(Error::TypeError));
}

#[test]
fn operands_that_an_operator_does_not_take() {
    assert_eq!(run("\"a\" - \"b\";"), Err(Error::TypeError));
    assert_eq!(run("\"a\" - 1;"), Err(Error::TypeError));
    assert_eq!(run("\"a\" * \"b\";"), Err(Error::TypeError));
    assert_eq!(run("\"a\" ^ 2;"), Err(Error::TypeError));
    assert_eq!(run("true + 1;"), Err(Error::TypeError));
    assert_eq!(run("true + true;"), Err(Error::TypeError));
    assert_eq!(run("1 + true;"), Err(Error::TypeError));
    assert_eq!(run("\"a\" + false;"), Err(Error::TypeError));
    assert_eq!(run("toNumber(\"x\") + 1;"), Err(Error::ParseError(ParseError {
        pos: 4,
        found: TokenKind::AddOp,
        expected: Some(TokenKind::SemiColon),
    })));
    assert_eq!(run("let n = toNumber(\"x\") + 1;"), Err(Error::TypeError));
}

#[test]
fn signs() {
    assert_eq!(run("-5;"), Ok(num(-5.)));
    assert_eq!(run("+5;"), Ok(num(5.)));
    assert_eq!(run("- -5;"), Ok(num(5.)));
    assert_eq!(run("3 - -2;"), Ok(num(5.)));
    assert_eq!(run("+\"ab\";"), Ok(text("ab")));
    assert_eq!(run("-\"ab\";"), Err(Error::TypeError));
    assert_eq!(run("-true;"), Err(Error::TypeError));
}

#[test]
fn string_is_not_repeated_by_a_number_below_zero() {
    assert_eq!(run("\"ab\" * -1;"), Err(Error::TypeError));
    assert_eq!(run("\"ab\" * (0 - 0.5);"), Err(Error::TypeError));
    assert_eq!(run("\"ab\" * (0 * -1);"), Ok(text("")));
}

#[test]
fn division_is_an_operator_of_values() {
    let six = || num(6.);
    assert_eq!(six().div(num(0.)), Err(Error::ArithmeticError));
    assert_eq!(six().div(num(-0.)), Err(Error::ArithmeticError));
    assert_eq!(num(0.).div(num(0.)), Err(Error::ArithmeticError));
    assert_eq!(num(f32::NAN).div(num(0.)), Err(Error::ArithmeticError));
    assert_eq!(num(f32::INFINITY).div(num(-0.)), Err(Error::ArithmeticError));
    let plan = six().div(num(3.)).unwrap();
    assert_eq!(
        plan,
        Plan::Ask {
            request: Request::Operate { operator: '/', left: six(), right: num(3.) },
            kind: RuntimeType::Number
        }
    );
    if let Plan::Ask { request, .. } = plan {
        assert_eq!(Host::new().answer(&request), Ok(num(2.)));
    }
    assert!(six().div(num(f32::MIN_POSITIVE)).is_ok());
    assert!(six().div(num(1e-45)).is_ok());
    assert_eq!(six().div(text("3")), Err(Error::TypeError));
    assert_eq!(text("6").div(num(0.)), Err(Error::TypeError));
    assert_eq!(RuntimeValue::Null.div(RuntimeValue::Null), Err(Error::TypeError));
}

#[test]
fn operators_of_values() {
    let ask = |operator, left: RuntimeValue, right: RuntimeValue, kind| {
        Ok(Plan::Ask { request: Request::Operate { operator, left, right }, kind })
    };
    assert_eq!(num(1.).sub(num(2.)), ask('-', num(1.), num(2.), RuntimeType::Number));
    assert_eq!(num(1.).add(num(2.)), ask('+', num(1.), num(2.), RuntimeType::Number));
    assert_eq!(num(1.).mul(num(2.)), ask('*', num(1.), num(2.), RuntimeType::Number));
    assert_eq!(num(1.).pow(num(2.)), ask('^', num(1.), num(2.), RuntimeType::Number));
    assert_eq!(num(1.).compare(num(2.), '<'), ask('<', num(1.), num(2.), RuntimeType::Bool));
    assert_eq!(num(1.).compare(num(2.), '>'), ask('>', num(1.), num(2.), RuntimeType::Bool));
    assert_eq!(text("a").add(text("b")), Ok(Plan::Value(text("ab"))));
    assert_eq!(text("a").add(num(2.)), ask('+', text("a"), num(2.), RuntimeType::String));
    assert_eq!(num(2.).add(text("a")), ask('+', num(2.), text("a"), RuntimeType::String));
    assert_eq!(text("a").mul(num(2.)), Ok(Plan::Value(text("aa"))));
    assert_eq!(num(2.).mul(text("a")), Ok(Plan::Value(text("aa"))));
    assert_eq!(text("a").mul(num(-2.)), Err(Error::TypeError));
    assert_eq!(text("a").mul(num(f32::INFINITY)), Err(Error::TypeError));
    assert_eq!(text("a").mul(num(f32::NAN)), Err(Error::TypeError));
    assert_eq!(num(f32::NEG_INFINITY).mul(text("a")), Err(Error::TypeError));
    assert_eq!(text("a").sub(text("b")), Err(Error::TypeError));
    assert_eq!(text("a").pow(num(1.)), Err(Error::TypeError));
    assert_eq!(RuntimeValue::Bool(true).add(RuntimeValue::Bool(true)), Err(Error::TypeError));
    assert_eq!(RuntimeValue::Null.mul(num(1.)), Err(Error::TypeError));
}

#[test]
fn what_the_library_reads_from_a_number() {
    let of = |x: f32| Number { bits: x.to_bits() };
    assert!(of(0.).is_zero());
    assert!(of(-0.).is_zero());
    assert!(!of(1e-45).is_zero());
    assert!(!of(f32::NAN).is_zero());
    assert!(of(-1.).is_negative());
    assert!(of(-1e-45).is_negative());
    assert!(of(f32::NEG_INFINITY).is_negative());
    assert!(!of(-0.).is_negative());
    assert!(!of(0.).is_negative());
    assert!(!of(2.).is_negative());
    assert!(of(f32::MAX).is_finite());
    assert!(of(0.).is_finite());
    assert!(!of(f32::INFINITY).is_finite());
    assert!(!of(f32::NEG_INFINITY).is_finite());
    assert!(!of(f32::NAN).is_finite());
    assert_eq!(ONE, 1f32.to_bits());
    assert_eq!(MINUS_ONE, (-1f32).to_bits());
}

#[test]
fn names_that_were_never_declared() {
    assert_eq!(run("x;"), Err(Error::NameError));
    assert_eq!(run("x = 1;"), Err(Error::NameError));
    assert_eq!(run("let y = x;"), Err(Error::NameError));
    assert_eq!(run("print(x);"), Err(Error::NameError));
    assert_eq!(run("foo();"), Err(Error::NameError));
    assert_eq!(run("foo(1, 2);"), Err(Error::NameError));
}

#[test]
fn calls_with_the_wrong_count_or_kind() {
    assert_eq!(run("print();"), Err(Error::ArityError));
    assert_eq!(run("print(1, 2);"), Err(Error::ArityError));
    assert_eq!(run("read(1);"), Err(Error::ArityError));
    assert_eq!(run("toNumber(5);"), Err(Error::TypeError));
    assert_eq!(run("toString(\"5\");"), Err(Error::TypeError));
    assert_eq!(run("substring(\"abc\", \"0\", 1);"), Err(Error::TypeError));
}

#[test]
fn arguments_are_evaluated_from_left_to_right_before_the_checks() {
    let mut interpreter = Interpreter::new();
    let mut host = Host::new();
    assert_eq!(host.run(&mut interpreter, "foo(print(1), print(2));"), Err(Error::NameError));
    assert_eq!(host.printed, vec!["1".to_string(), "2".to_string()]);
}

#[test]
fn print_shows_each_kind() {
    let mut interpreter = Interpreter::new();
    let mut host = Host::new();
    let source = "print(read); print(1.5); print(true); print(\"s\");";
    assert_eq!(host.run(&mut interpreter, "let read = print(0);"), Ok(RuntimeValue::Null));
    assert_eq!(host.run(&mut interpreter, source), Ok(RuntimeValue::Null));
    assert_eq!(host.printed, vec!["0", "null", "1.5", "true", "s"]);
}

#[test]
fn text_that_is_no_program() {
    assert_eq!(run("let x = @;"), Err(Error::LexError(LexError::UnexpectedToken { token: '@', pos: 8 })));
    assert_eq!(run("\"abc"), Err(Error::LexError(LexError::UnexpectedEof { pos: 4 })));
    assert_eq!(run("1.2.3;"), Err(Error::LexError(LexError::InvalidNumber { pos: 3 })));
    assert_eq!(
        run("let x = 1"),
        Err(Error::ParseError(ParseError { pos: 4, found: TokenKind::EOF, expected: Some(TokenKind::SemiColon) }))
    );
}

#[test]
fn program_that_does_not_parse_runs_no_statement() {
    let mut interpreter = Interpreter::new();
    let mut host = Host::new();
    assert!(host.run(&mut interpreter, "print(1); let x = ;").is_err());
    assert_eq!(host.printed.len(), 0);
    assert_eq!(host.asked, 0);
}

#[test]
fn conditional_runs_its_body_where_the_condition_holds() {
    assert_eq!(run("let x = 0; if (1 < 2) { x = 5; }; x;"), Ok(num(5.)));
    assert_eq!(run("let x = 0; if (1 > 2) { x = 5; }; x;"), Ok(num(0.)));
    assert_eq!(run("let x = 0; if true { x = x + 1; x = x + 1; }; x;"), Ok(num(2.)));
    assert_eq!(run("if true { 7; };"), Ok(RuntimeValue::Null));
    assert_eq!(run("if false { y; };"), Ok(RuntimeValue::Null));
    assert_eq!(run("if true { y; };"), Err(Error::NameError));
}

#[test]
fn conditional_takes_a_boolean() {
    assert_eq!(run("if 1 { 2; };"), Err(Error::TypeError));
    assert_eq!(run("if \"true\" { 2; };"), Err(Error::TypeError));
    assert_eq!(run("if print(1) { 2; };"), Err(Error::TypeError));
}

#[test]
fn body_of_a_conditional_declares_in_the_scope_around_it() {
    assert_eq!(run("if true { let z = 3; }; z;"), Ok(num(3.)));
    assert_eq!(run("let z = 1; if true { let z = 3; };"), Err(Error::NameError));
}

#[test]
fn environment_lasts_from_run_to_run() {
    let mut interpreter = Interpreter::new();
    let mut host = Host::new();
    assert_eq!(host.run(&mut interpreter, "let x = 1;"), Ok(RuntimeValue::Null));
    assert_eq!(host.run(&mut interpreter, "x = x + 1;"), Ok(RuntimeValue::Null));
    assert_eq!(host.run(&mut interpreter, "x;"), Ok(num(2.)));
    assert_eq!(host.run(&mut interpreter, "let x = 5;"), Err(Error::NameError));
    assert_eq!(host.run(&mut interpreter, "x;"), Ok(num(2.)));
}

#[test]
fn run_that_fails_leaves_the_environment_as_it_was() {
    let mut interpreter = Interpreter::new();
    let mut host = Host::new();
    assert_eq!(host.run(&mut interpreter, "let a = 1; a = 2; let b = 3; c;"), Err(Error::NameError));
    assert_eq!(interpreter.env.get("a"), Err(Error::NameError));
    assert_eq!(interpreter.env.get("b"), Err(Error::NameError));
}

#[test]
fn run_asks_for_one_answer_at_a_time() {
    let mut interpreter = Interpreter::new();
    let source = "let x = 2 ^ 10;";
    let mut replies: Vec<Reply> = vec![];
    assert_eq!(interpreter.run(source, &replies), Ok(Step::Need(Request::Literal { text: "2".to_string() })));
    replies.push(Ok(num(2.)));
    assert_eq!(interpreter.run(source, &replies), Ok(Step::Need(Request::Literal { text: "10".to_string() })));
    assert_eq!(interpreter.env.get("x"), Err(Error::NameError));
    replies.push(Ok(num(10.)));
    assert_eq!(
        interpreter.run(source, &replies),
        Ok(Step::Need(Request::Operate { operator: '^', left: num(2.), right: num(10.) }))
    );
    replies.push(Ok(num(1024.)));
    assert_eq!(interpreter.run(source, &replies), Ok(Step::Done(RuntimeValue::Null)));
    assert_eq!(interpreter.env.get("x"), Ok(&num(1024.)));
}

#[test]
fn same_program_and_answers_give_the_same_run() {
    let source = "let x = 1 + 2; print(x); \"ab\" * x;";
    let mut host = Host::new();
    let mut replies: Vec<Reply> = vec![];
    loop {
        let first = Interpreter::new().run(source, &replies);
        let second = Interpreter::new().run(source, &replies);
        assert_eq!(first, second);
        match first {
            Ok(Step::Need(request)) => replies.push(host.answer(&request)),
            other => {
                assert_eq!(other, Ok(Step::Done(text("ababab"))));
                break;
            }
        }
    }
    assert_eq!(replies.len(), 4);
}

#[test]
fn answers_that_are_not_used_are_passed_over() {
    let replies: Vec<Reply> = vec![Ok(num(1.)), Ok(num(2.)), Err(Error::TypeError)];
    assert_eq!(Interpreter::new().run("1;", &replies), Ok(Step::Done(num(1.))));
    assert_eq!(Interpreter::new().run("true;", &replies), Ok(Step::Done(RuntimeValue::Bool(true))));
}

#[test]
fn answer_of_the_wrong_kind_is_a_type_error() {
    assert_eq!(Interpreter::new().run("1;", &vec![Ok(text("1"))]), Err(Error::TypeError));
    assert_eq!(Interpreter::new().run("1;", &vec![Ok(RuntimeValue::Null)]), Err(Error::TypeError));
    let sum: Vec<Reply> = vec![Ok(num(1.)), Ok(num(2.)), Ok(text("3"))];
    assert_eq!(Interpreter::new().run("1 + 2;", &sum), Err(Error::TypeError));
    let less: Vec<Reply> = vec![Ok(num(1.)), Ok(num(2.)), Ok(num(1.))];
    assert_eq!(Interpreter::new().run("1 < 2;", &less), Err(Error::TypeError));
    let joined: Vec<Reply> = vec![Ok(num(1.)), Ok(num(1.))];
    assert_eq!(Interpreter::new().run("\"a\" + 1;", &joined), Err(Error::TypeError));
    let any: Vec<Reply> = vec![Ok(num(1.)), Ok(RuntimeValue::Bool(true))];
    assert_eq!(Interpreter::new().run("print(1);", &any), Ok(Step::Done(RuntimeValue::Bool(true))));
}

#[test]
fn failure_of_the_host_ends_the_run() {
    assert_eq!(Interpreter::new().run("read();", &vec![Err(Error::ArithmeticError)]), Err(Error::ArithmeticError));
    let replies: Vec<Reply> = vec![Ok(num(1.)), Err(Error::NameError)];
    assert_eq!(Interpreter::new().run("let x = 1; print(2);", &replies), Err(Error::NameError));
}

#[test]
fn host_registers_a_function_of_its_own() {
    let mut interpreter = Interpreter::new();
    let mut host = Host::new();
    assert_eq!(host.run(&mut interpreter, "twice(4);"), Err(Error::NameError));
    interpreter.add_function(Function::new("twice".to_string(), ParamCount::Fixed(1), vec![RuntimeType::Number]));
    assert_eq!(host.run(&mut interpreter, "twice(4);"), Ok(num(8.)));
    assert_eq!(host.run(&mut interpreter, "twice(twice(4) + 1);"), Ok(num(18.)));
    assert_eq!(host.run(&mut interpreter, "twice(\"4\");"), Err(Error::TypeError));
    assert_eq!(host.run(&mut interpreter, "twice();"), Err(Error::ArityError));
}

#[test]
fn whole_part_of_a_number_is_what_a_conversion_gives() {
    let samples: Vec<f32> = vec![
        0., -0., 0.25, 0.5, 0.999_999_9, 1., 1.5, 2., 2.9, 3., 7.99, 8., 1023.5, 1024., 65535.9, 1e6, 8_388_607.5,
        8_388_608., 16_777_215., 16_777_216., 16_777_218., 1e9, 4_294_967_296., 1e15, 9.2e18, 1.8e19, 1.9e19, 1e20,
        3.4e38, f32::MAX, f32::MIN_POSITIVE, 1e-45, f32::INFINITY, f32::NEG_INFINITY, f32::NAN, -0.5, -1., -2.5,
        -1e9, -3.4e38, f32::EPSILON,
    ];
    for x in samples {
        assert_eq!(Number { bits: x.to_bits() }.whole(), x as u64, "whole part of {}", x);
    }
    let mut bits: u32 = 1;
    for _ in 0..2000 {
        bits = bits.wrapping_mul(1_664_525).wrapping_add(1_013_904_223);
        let x = f32::from_bits(bits);
        assert_eq!(Number { bits }.whole(), x as u64, "whole part of {}", x);
    }
}

#[test]
fn repeated_strings() {
    let count = |x: f32| Number { bits: x.to_bits() };
    assert_eq!(repeat("ab", count(3.)), Ok("ababab".to_string()));
    assert_eq!(repeat("ab", count(1.)), Ok("ab".to_string()));
    assert_eq!(repeat("ab", count(0.)), Ok("".to_string()));
    assert_eq!(repeat("ab", count(0.99)), Ok("".to_string()));
    assert_eq!(repeat("é", count(2.5)), Ok("éé".to_string()));
    assert_eq!(repeat("", count(5.)), Ok("".to_string()));
    assert_eq!(repeat("", count(3e38)), Ok("".to_string()));
    assert_eq!(repeat("ab", count(-1.)), Err(Error::TypeError));
    assert_eq!(repeat("ab", count(-0.5)), Err(Error::TypeError));
    assert_eq!(repeat("", count(-1.)), Err(Error::TypeError));
    assert_eq!(repeat("ab", count(f32::INFINITY)), Err(Error::TypeError));
    assert_eq!(repeat("", count(f32::INFINITY)), Err(Error::TypeError));
    assert_eq!(repeat("ab", count(f32::NAN)), Err(Error::TypeError));
    assert_eq!(repeat("ab", count(3e38)), Err(Error::TypeError));
    assert_eq!(repeat("ab", count(1e19)), Err(Error::TypeError));
    assert_eq!(repeat("ab", count(1000.)).map(|s| s.len()), Ok(2000));
}

#[test]
fn parts_of_a_string() {
    let at = |x: f32| Number { bits: x.to_bits() };
    assert_eq!(substring("hello", at(1.), at(3.)), Ok("ell".to_string()));
    assert_eq!(substring("hello", at(0.), at(4.)), Ok("hello".to_string()));
    assert_eq!(substring("hello", at(0.), at(0.)), Ok("h".to_string()));
    assert_eq!(substring("hello", at(4.), at(4.)), Ok("o".to_string()));
    assert_eq!(substring("hello", at(1.9), at(3.9)), Ok("ell".to_string()));
    assert_eq!(substring("hello", at(-3.), at(1.)), Ok("he".to_string()));
    assert_eq!(substring("hello", at(3.), at(2.)), Ok("".to_string()));
    assert_eq!(substring("hello", at(0.), at(5.)), Err(Error::TypeError));
    assert_eq!(substring("hello", at(4.), at(2.)), Err(Error::TypeError));
    assert_eq!(substring("hello", at(6.), at(7.)), Err(Error::TypeError));
    assert_eq!(substring("hello", at(0.), at(f32::INFINITY)), Err(Error::TypeError));
    assert_eq!(substring("hello", at(0.), at(3e38)), Err(Error::TypeError));
    assert_eq!(substring("", at(0.), at(0.)), Err(Error::TypeError));
    assert_eq!(substring("héllo", at(0.), at(2.)), Ok("hé".to_string()));
    assert_eq!(substring("héllo", at(1.), at(2.)), Ok("é".to_string()));
    assert_eq!(substring("héllo", at(3.), at(5.)), Ok("llo".to_string()));
    assert_eq!(substring("héllo", at(0.), at(1.)), Err(Error::TypeError));
    assert_eq!(substring("héllo", at(2.), at(3.)), Err(Error::TypeError));
}

#[test]
fn substring_of_a_program() {
    assert_eq!(run("substring(\"hello world\", 6, 10);"), Ok(text("world")));
    assert_eq!(run("substring(\"hello\", 2, 9);"), Err(Error::TypeError));
    assert_eq!(run("substring(\"abc\" * 2, 2, 3);"), Ok(text("ca")));
}

#[test]
fn string_is_not_repeated_beyond_what_can_be_counted() {
    assert_eq!(run("\"ab\" * (10 ^ 30);"), Err(Error::TypeError));
    assert_eq!(run("\"\" * (10 ^ 30);"), Ok(text("")));
    assert_eq!(run("\"ab\" * (10 ^ 60);"), Err(Error::TypeError));
}

#[test]
fn division_in_a_tree() {
    let divide = |left: &str, right: &str| ASTNode::BinaryExpression {
        left: literal(left),
        right: literal(right),
        operator: '/',
    };
    assert_eq!(execute(vec![divide("6", "3")]), Ok(num(2.)));
    assert_eq!(execute(vec![divide("1", "3")]), Ok(num(1. / 3.)));
    assert_eq!(execute(vec![divide("1", "0")]), Err(Error::ArithmeticError));
    assert_eq!(execute(vec![divide("0", "0.0")]), Err(Error::ArithmeticError));
    assert_eq!(execute(vec![divide("5", "000")]), Err(Error::ArithmeticError));
    let minus_zero = ASTNode::BinaryExpression {
        left: literal("1"),
        right: Box::new(ASTNode::UnaryExpression { sign: '-', expr: literal("0") }),
        operator: '/',
    };
    assert_eq!(execute(vec![minus_zero]), Err(Error::ArithmeticError));
    let text = ASTNode::BinaryExpression {
        left: Box::new(ASTNode::String("6".to_string())),
        right: literal("3"),
        operator: '/',
    };
    assert_eq!(execute(vec![text]), Err(Error::TypeError));
}

#[test]
fn operator_that_the_language_does_not_have() {
    let tree = ASTNode::BinaryExpression { left: literal("1"), right: literal("2"), operator: '%' };
    assert_eq!(execute(vec![tree]), Err(Error::TypeError));
}

#[test]
fn statements_of_a_tree_run_in_order() {
    let declare = ASTNode::VarDeclaration { name: "x".to_string(), value: literal("4") };
    let read = ASTNode::Identifier { name: "x".to_string() };
    assert_eq!(execute(vec![declare, read]), Ok(num(4.)));
    assert_eq!(execute(vec![]), Ok(RuntimeValue::Null));
}
