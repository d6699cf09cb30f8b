use std::rc::Rc;

use mini_lisp_rs::error::LispError;
use mini_lisp_rs::eval_env::EvalEnv;
use mini_lisp_rs::execute_source;
use mini_lisp_rs::numeric::{NumQuery, NumReply, Number};
use mini_lisp_rs::output::Output;
use mini_lisp_rs::parser::Parser;
use mini_lisp_rs::session::{respond_to_line, run_current_input, trim_text, LineReply};
use mini_lisp_rs::tokenizer::tokenize;
use mini_lisp_rs::value::{Value, ValuePtr};

fn num(x: f64) -> Number {
    Number { bits: x.to_bits() }
}

fn val(n: Number) -> f64 {
    f64::from_bits(n.bits)
}

/// Double-precision arithmetic, as Rust's `f64` does it.
fn backend(q: NumQuery) -> NumReply {
    match q {
        NumQuery::Parse(s) => match s.parse::<f64>() {
            Ok(x) => NumReply::Num(num(x)),
            Err(_) => NumReply::Invalid,
        },
        NumQuery::Show(n) => NumReply::Text(format!("{}", val(n))),
        NumQuery::ShowFixed(n) => NumReply::Text(format!("{:.6}", val(n))),
        NumQuery::Add(a, b) => NumReply::Num(num(val(a) + val(b))),
        NumQuery::Sub(a, b) => NumReply::Num(num(val(a) - val(b))),
        NumQuery::Neg(a) => NumReply::Num(num(-val(a))),
        NumQuery::Mul(a, b) => NumReply::Num(num(val(a) * val(b))),
        NumQuery::Greater(a, b) => NumReply::Truth(val(a) > val(b)),
        NumQuery::Equal(a, b) => NumReply::Truth(val(a) == val(b)),
        NumQuery::Less(a, b) => NumReply::Truth(val(a) < val(b)),
        NumQuery::LessEq(a, b) => NumReply::Truth(val(a) <= val(b)),
        NumQuery::GreaterEq(a, b) => NumReply::Truth(val(a) >= val(b)),
        NumQuery::Div(a, b) => NumReply::Num(num(val(a) / val(b))),
        NumQuery::Abs(a) => NumReply::Num(num(val(a).abs())),
        NumQuery::Expt(a, b) => NumReply::Num(num(val(a).powf(val(b)))),
        NumQuery::Quotient(a, b) => NumReply::Num(num((val(a) / val(b)).trunc())),
        NumQuery::Remainder(a, b) => NumReply::Num(num(val(a) % val(b))),
        NumQuery::Modulo(a, b) => {
            let (x, y) = (val(a), val(b));
            let r = x % y;
            NumReply::Num(num(if r != 0.0 && (r < 0.0) != (y < 0.0) { r + y } else { r }))
        }
        NumQuery::IsZero(a) => NumReply::Truth(val(a) == 0.0),
        NumQuery::IsEven(a) => NumReply::Truth(val(a).fract() == 0.0 && val(a) % 2.0 == 0.0),
        NumQuery::IsOdd(a) => NumReply::Truth(val(a).fract() == 0.0 && val(a) % 2.0 != 0.0),
        NumQuery::IsInteger(a) => NumReply::Truth(val(a).fract() == 0.0),
        NumQuery::FromCount(c) => NumReply::Num(num(c as f64)),
        NumQuery::ExitCode(a) => NumReply::Code(val(a) as i32),
    }
}

fn show(v: &Value) -> String {
    v.to_display_string(&backend)
}

// A fresh environment for each independent evaluation.
fn eval_str(input: &str) -> Result<String, LispError> {
    let mut env = EvalEnv::new();
    eval_in_env(&mut env, input)
}

// Evaluation in a given environment, for tests that share state.
fn eval_in_env(env: &mut EvalEnv, input: &str) -> Result<String, LispError> {
    let mut out = Output::new();
    eval_in_env_with_output(env, input, &mut out)
}

fn eval_in_env_with_output(env: &mut EvalEnv, input: &str, out: &mut Output) -> Result<String, LispError> {
    let tokens = tokenize(input, &backend).map_err(|e| LispError::SyntaxError(e.message()))?;
    let mut parser = Parser::new(tokens);
    let expr = parser.parse(&backend)?;
    let result = env.eval(Rc::new(expr), &backend, out)?;
    Ok(show(&result))
}

// Evaluation with a budget of nested evaluations of its own.
fn eval_with_budget(env: &mut EvalEnv, input: &str, fuel: usize) -> Result<String, LispError> {
    let tokens = tokenize(input, &backend).map_err(|e| LispError::SyntaxError(e.message()))?;
    let mut parser = Parser::new(tokens);
    let expr = parser.parse(&backend)?;
    let mut out = Output::new();
    let result = env.eval_with_depth(Rc::new(expr), &backend, &mut out, fuel)?;
    Ok(show(&result))
}

fn parse_show(input: &str) -> String {
    let tokens = tokenize(input, &backend).unwrap();
    let mut parser = Parser::new(tokens);
    let value = parser.parse(&backend).unwrap();
    show(&value)
}

fn runtime_message(err: LispError) -> String {
    match err {
        LispError::RuntimeError(msg) => msg,
        other => panic!("Expected RuntimeError, got {:?}", other),
    }
}

#[test]
fn test_self_evaluating() {
    assert_eq!(eval_str("42").unwrap(), "42");
    assert_eq!(eval_str("#t").unwrap(), "#t");
    assert_eq!(eval_str("#f").unwrap(), "#f");
    assert_eq!(eval_str("\"Hello\"").unwrap(), "\"Hello\"");
}

#[test]
fn test_nil_evaluation_error() {
    let err = eval_str("()").unwrap_err();
    match err {
        LispError::RuntimeError(msg) => assert_eq!(msg, "Evaluating nil is prohibited."),
        _ => panic!("Expected RuntimeError"),
    }
}

#[test]
fn test_define_and_lookup() {
    let mut env = EvalEnv::new();

    assert_eq!(eval_in_env(&mut env, "(define x 42)").unwrap(), "()");
    assert_eq!(eval_in_env(&mut env, "x").unwrap(), "42");

    assert_eq!(eval_in_env(&mut env, "(define y x)").unwrap(), "()");
    assert_eq!(eval_in_env(&mut env, "y").unwrap(), "42");

    let err = eval_in_env(&mut env, "z").unwrap_err();
    match err {
        LispError::RuntimeError(msg) => assert_eq!(msg, "Variable z not defined."),
        _ => panic!("Expected RuntimeError"),
    }
}

#[test]
fn test_malformed_define() {
    let err = eval_str("(define x)").unwrap_err();
    assert!(matches!(err, LispError::RuntimeError(_)));

    let err = eval_str("(define 123 42)").unwrap_err();
    assert!(matches!(err, LispError::RuntimeError(_)));

    let err = eval_str("(define x . 42)").unwrap_err();
    assert!(matches!(err, LispError::RuntimeError(_)));
}

#[test]
fn test_builtin_add() {
    assert_eq!(eval_str("(+ 1 2)").unwrap(), "3");
    assert_eq!(eval_str("(+)").unwrap(), "0");
    assert_eq!(eval_str("(+ 1 2 3 4 5)").unwrap(), "15");
    assert_eq!(eval_str("(+ 1.5 2.5)").unwrap(), "4");
}

#[test]
fn test_define_with_add() {
    let mut env = EvalEnv::new();

    assert_eq!(eval_in_env(&mut env, "(define x (+ 1 2))").unwrap(), "()");
    assert_eq!(eval_in_env(&mut env, "x").unwrap(), "3");

    assert_eq!(eval_in_env(&mut env, "(+ x 4)").unwrap(), "7");
}

#[test]
fn test_define_alias() {
    let mut env = EvalEnv::new();

    assert_eq!(eval_in_env(&mut env, "(define add +)").unwrap(), "()");
    assert_eq!(eval_in_env(&mut env, "(add 1 2 3)").unwrap(), "6");
    assert_eq!(eval_in_env(&mut env, "(+ 10 20)").unwrap(), "30");
}

#[test]
fn test_lambda_literal_application() {
    assert_eq!(eval_str("((lambda (x y) (+ x y)) 3 4)").unwrap(), "7");
}

#[test]
fn test_define_function_sugar() {
    let mut env = EvalEnv::new();

    assert_eq!(eval_in_env(&mut env, "(define (add2 x y) (+ x y))").unwrap(), "()");
    assert_eq!(eval_in_env(&mut env, "(add2 10 32)").unwrap(), "42");
}

#[test]
fn test_define_function_with_multiple_body_expressions() {
    let mut env = EvalEnv::new();

    assert_eq!(eval_in_env(&mut env, "(define (show-and-return x) (print x) (+ x 1))").unwrap(), "()");
    assert_eq!(eval_in_env(&mut env, "(show-and-return 4)").unwrap(), "5");
}

#[test]
fn test_false_binding_with_if_and_short_circuit() {
    let mut env = EvalEnv::new();

    assert_eq!(eval_in_env(&mut env, "(define false #f)").unwrap(), "()");
    assert_eq!(eval_in_env(&mut env, "(if false \"OK\" \"Emm\")").unwrap(), "\"Emm\"");
    assert_eq!(eval_in_env(&mut env, "(and false (print \"Don't print\"))").unwrap(), "#f");
}

#[test]
fn test_empty_or_returns_false() {
    assert_eq!(eval_str("(or)").unwrap(), "#f");
}

#[test]
fn test_lambda_evaluates_to_procedure() {
    assert_eq!(eval_str("(lambda (x) (+ x x))").unwrap(), "#<procedure>");
}

#[test]
fn test_defined_function_evaluates_to_procedure_and_applies() {
    let mut env = EvalEnv::new();

    assert_eq!(eval_in_env(&mut env, "(define (double x) (+ x x))").unwrap(), "()");
    assert_eq!(eval_in_env(&mut env, "double").unwrap(), "#<procedure>");
    assert_eq!(eval_in_env(&mut env, "(double 3.14)").unwrap(), "6.28");
}

#[test]
fn test_builtin_gt() {
    assert_eq!(eval_str("(if (> 3 2) \"Correct\" \"Bad\")").unwrap(), "\"Correct\"");
    assert_eq!(eval_str("(> 2 3)").unwrap(), "#f");
}

#[test]
fn test_builtin_length() {
    assert_eq!(eval_str("(length '(1 2 3 4))").unwrap(), "4");
    assert_eq!(eval_str("(length '())").unwrap(), "0");
}

#[test]
fn test_builtin_cdr() {
    assert_eq!(eval_str("(cdr '(1 . 2))").unwrap(), "2");
    assert_eq!(eval_str("(cdr '(1 2 3))").unwrap(), "(2 3)");
}

#[test]
fn test_nested_add() {
    let mut env = EvalEnv::new();

    assert_eq!(eval_in_env(&mut env, "(define add +)").unwrap(), "()");
    assert_eq!(eval_in_env(&mut env, "(+ 1 (add 2))").unwrap(), "3");
    assert_eq!(eval_in_env(&mut env, "(+ (add 1 2) (add 3 4))").unwrap(), "10");
}

#[test]
fn test_builtin_print() {
    assert_eq!(eval_str("(print 42)").unwrap(), "()");
    assert_eq!(eval_str("(print 1 2 3)").unwrap(), "()");
    assert_eq!(eval_str("(print (+ 1 2))").unwrap(), "()");
}

#[test]
fn test_if_with_quoted_nil_is_truthy() {
    assert_eq!(eval_str("(if '() (print \"Yea\") (print \"Nay\"))").unwrap(), "()");
}

#[test]
fn test_if_false_branch() {
    assert_eq!(eval_str("(if #f (print \"Yea\") (print \"Nay\"))").unwrap(), "()");
}

#[test]
fn test_and_short_circuit() {
    assert_eq!(eval_str("(and (print 1) (print 2) #f (print 3))").unwrap(), "#f");
}

#[test]
fn test_or_short_circuit() {
    assert_eq!(eval_str("(or #f #f (print 1) (print 3))").unwrap(), "()");
}

#[test]
fn test_and_skips_later_erroring_expression() {
    assert_eq!(eval_str("(and #f unknown-symbol)").unwrap(), "#f");
}

#[test]
fn test_or_skips_later_erroring_expression() {
    assert_eq!(eval_str("(or 1 unknown-symbol)").unwrap(), "1");
}

#[test]
fn test_unknown_procedure() {
    let err = eval_str("(unknown 1 2)").unwrap_err();
    match err {
        LispError::RuntimeError(msg) => {
            assert!(msg.contains("not defined") || msg.contains("Variable") || msg.contains("Unimplemented"),
                "Unexpected error message: {}", msg);
        }
        _ => panic!("Expected RuntimeError"),
    }
}

#[test]
fn test_env_persistence() {
    let mut env = EvalEnv::new();
    let mut out = Output::new();
    let expr1 = ValuePtr::new(Value::Pair(
        ValuePtr::new(Value::Symbol("define".to_string())),
        ValuePtr::new(Value::Pair(
            ValuePtr::new(Value::Symbol("x".to_string())),
            ValuePtr::new(Value::Pair(
                ValuePtr::new(Value::Numeric(num(100.0))),
                ValuePtr::new(Value::Nil),
            )),
        )),
    ));
    env.eval(expr1, &backend, &mut out).unwrap();
    let expr2 = ValuePtr::new(Value::Symbol("x".to_string()));
    let result = env.eval(expr2, &backend, &mut out).unwrap();
    assert_eq!(show(&result), "100");
}

#[test]
fn parse_number() {
    assert_eq!(parse_show("42"), "42");
}

#[test]
fn parse_quote() {
    assert_eq!(parse_show("'abc"), "(quote abc)");
}

#[test]
fn parse_list() {
    assert_eq!(parse_show("(a b c)"), "(a b c)");
}

#[test]
fn parse_dotted_pair() {
    assert_eq!(parse_show("(a . b)"), "(a . b)");
}

#[test]
fn parse_nested_pair() {
    assert_eq!(parse_show("(a . (b . c))"), "(a b . c)");
}

// ---------------------------------------------------------------------------
// Further behaviour of the interpreter
// ---------------------------------------------------------------------------

#[test]
fn printed_text_goes_to_the_output() {
    let mut env = EvalEnv::new();
    let mut out = Output::new();
    eval_in_env_with_output(&mut env, "(print 1 \"a\" 'b)", &mut out).unwrap();
    eval_in_env_with_output(&mut env, "(display \"x\")", &mut out).unwrap();
    eval_in_env_with_output(&mut env, "(displayln 7)", &mut out).unwrap();
    eval_in_env_with_output(&mut env, "(newline)", &mut out).unwrap();
    assert_eq!(out.as_str(), "1\n\"a\"\nb\nx7\n\n");
}

#[test]
fn arithmetic_builtins() {
    assert_eq!(eval_str("(- 5)").unwrap(), "-5");
    assert_eq!(eval_str("(- 10 1 2)").unwrap(), "7");
    assert_eq!(eval_str("(* 2 3 4)").unwrap(), "24");
    assert_eq!(eval_str("(*)").unwrap(), "1");
    assert_eq!(eval_str("(+ 0.1 0.2)").unwrap(), "0.30000000000000004");
    assert_eq!(runtime_message(eval_str("(-)").unwrap_err()), "- requires at least 1 argument");
    assert_eq!(runtime_message(eval_str("(+ 1 'a)").unwrap_err()), "Cannot add non-number");
    assert_eq!(runtime_message(eval_str("(- 'a)").unwrap_err()), "Cannot sub non-number");
    assert_eq!(runtime_message(eval_str("(* 2 #t)").unwrap_err()), "Cannot mul non-number");
    assert_eq!(runtime_message(eval_str("(> 1)").unwrap_err()), "> requires 2 arguments");
    assert_eq!(runtime_message(eval_str("(> 1 'a)").unwrap_err()), "> expects numbers");
}

#[test]
fn predicates() {
    assert_eq!(eval_str("(atom? 'a)").unwrap(), "#t");
    assert_eq!(eval_str("(atom? '(1))").unwrap(), "#f");
    assert_eq!(eval_str("(boolean? #f)").unwrap(), "#t");
    assert_eq!(eval_str("(integer? 3)").unwrap(), "#t");
    assert_eq!(eval_str("(integer? 3.5)").unwrap(), "#f");
    assert_eq!(eval_str("(list? '(1 2))").unwrap(), "#t");
    assert_eq!(eval_str("(list? '(1 . 2))").unwrap(), "#f");
    assert_eq!(eval_str("(null? '())").unwrap(), "#t");
    assert_eq!(eval_str("(number? 1)").unwrap(), "#t");
    assert_eq!(eval_str("(pair? '(1 . 2))").unwrap(), "#t");
    assert_eq!(eval_str("(procedure? kar)").unwrap_err().message(), "Runtime error: Variable kar not defined.");
    assert_eq!(eval_str("(procedure? car)").unwrap(), "#t");
    assert_eq!(eval_str("(procedure? cdr)").unwrap(), "#t");
    assert_eq!(eval_str("(procedure? (lambda (x) x))").unwrap(), "#t");
    assert_eq!(eval_str("(string? \"s\")").unwrap(), "#t");
    assert_eq!(eval_str("(symbol? 'x)").unwrap(), "#t");
    assert_eq!(runtime_message(eval_str("(null? 1 2)").unwrap_err()), "null? requires 1 argument");
}

#[test]
fn apply_eval_error_exit() {
    assert_eq!(eval_str("(apply + '(1 2 3))").unwrap(), "6");
    assert_eq!(eval_str("(eval '(+ 1 2))").unwrap(), "3");
    assert_eq!(runtime_message(eval_str("(error \"boom\")").unwrap_err()), "boom");
    assert_eq!(runtime_message(eval_str("(error)").unwrap_err()), "error");
    assert!(matches!(eval_str("(exit 3)").unwrap_err(), LispError::Exit(3)));
    assert!(matches!(eval_str("(exit)").unwrap_err(), LispError::Exit(0)));
    assert_eq!(runtime_message(eval_str("(exit 'a)").unwrap_err()), "exit expects a number");
}

#[test]
fn lambda_arguments_and_scope() {
    assert_eq!(runtime_message(eval_str("((lambda (x) x))").unwrap_err()), "Expected 1 arguments, got 0");
    assert_eq!(runtime_message(eval_str("(1 2)").unwrap_err()), "Attempted to call a non-procedure value");
    let mut env = EvalEnv::new();
    eval_in_env(&mut env, "(define (f x) (define inner x) inner)").unwrap();
    assert_eq!(eval_in_env(&mut env, "(f 9)").unwrap(), "9");
    // the body's own definitions do not outlive the call
    assert_eq!(runtime_message(eval_in_env(&mut env, "inner").unwrap_err()), "Variable inner not defined.");
    assert_eq!(runtime_message(eval_in_env(&mut env, "x").unwrap_err()), "Variable x not defined.");
}

#[test]
fn recursion_and_depth_limit() {
    let mut env = EvalEnv::new();
    eval_in_env(&mut env, "(define (count n) (if (> n 0) (+ 1 (count (- n 1))) 0))").unwrap();
    assert_eq!(eval_in_env(&mut env, "(count 50)").unwrap(), "50");
    eval_in_env(&mut env, "(define (forever) (forever))").unwrap();
    assert_eq!(runtime_message(eval_with_budget(&mut env, "(forever)", 2048).unwrap_err()), "Maximum recursion depth exceeded");
}

#[test]
fn tokenizer_errors_and_tokens() {
    assert!(matches!(tokenize("1.2.3", &backend), Err(LispError::InvalidNumber(s)) if s == "1.2.3"));
    assert!(matches!(tokenize("\"abc", &backend), Err(LispError::SyntaxError(_))));
    let tokens = tokenize("(a . -5) `b ,c \"x\\ny\"", &backend).unwrap();
    let described: Vec<String> = tokens.iter().map(|t| t.describe(&backend)).collect();
    assert_eq!(
        described,
        vec![
            "(LEFT_PAREN)",
            "(IDENTIFIER a)",
            "(DOT)",
            "(NUMERIC_LITERAL -5.000000)",
            "(RIGHT_PAREN)",
            "(QUASIQUOTE)",
            "(IDENTIFIER b)",
            "(UNQUOTE)",
            "(IDENTIFIER c)",
            "(STRING_LITERAL \"x\\ny\")",
        ]
    );
}

#[test]
fn parser_errors() {
    let mut parser = Parser::new(tokenize(")", &backend).unwrap());
    assert_eq!(parser.parse(&backend).unwrap_err().message(), "Syntax error: Unexpected token: (RIGHT_PAREN)");
    let mut parser = Parser::new(tokenize("(a . b c)", &backend).unwrap());
    assert_eq!(parser.parse(&backend).unwrap_err().message(), "Syntax error: Expected ')', got (IDENTIFIER c)");
    let mut parser = Parser::new(tokenize("(a b", &backend).unwrap());
    assert_eq!(parser.parse(&backend).unwrap_err().message(), "Syntax error: Unexpected end of input");
}

#[test]
fn execute_source_runs_each_expression() {
    let mut env = EvalEnv::new();
    let mut out = Output::new();
    execute_source("(define x 2) (+ x 3) \"s\"", &mut env, true, &backend, &mut out).unwrap();
    assert_eq!(out.as_str(), "()\n5\n\"s\"\n");
    let mut quiet = Output::new();
    let err = execute_source("(+ x 1) (car x)", &mut env, false, &backend, &mut quiet).unwrap_err();
    assert_eq!(err.message(), "Runtime error: car expects a pair");
    assert_eq!(quiet.as_str(), "");
}

#[test]
fn error_messages() {
    assert_eq!(LispError::InvalidNumber("1..".to_string()).message(), "Invalid number literal: 1..");
    assert_eq!(LispError::Exit(-2).message(), "Exit with code -2");
    assert_eq!(LispError::Other("plain".to_string()).message(), "plain");
}

#[test]
fn string_display_escapes() {
    assert_eq!(eval_str("\"a\\\"b\\\\c\\nd\"").unwrap(), "\"a\\\"b\\\\c\\nd\"");
    assert_eq!(eval_str("(quote (1 \"two\" . 3))").unwrap(), "(1 \"two\" . 3)");
    // the same escapes as `{:?}`, also for characters that do not print
    let odd = Value::String("tab\t zero-width\u{200b} bell\u{7} caf\u{e9}".to_string());
    assert_eq!(show(&odd), format!("{:?}", "tab\t zero-width\u{200b} bell\u{7} caf\u{e9}"));
    assert_eq!(show(&odd), "\"tab\\t zero-width\\u{200b} bell\\u{7} caf\u{e9}\"");
}

#[test]
fn capture_collects_output() {
    let (text, value) = mini_lisp_rs::output::capture(|mut out| {
        mini_lisp_rs::output::writeln(&mut out, "hello");
        mini_lisp_rs::output::write(&mut out, "x");
        mini_lisp_rs::output::newline(&mut out);
        (out, 5)
    });
    assert_eq!(text, "hello\nx\n");
    assert_eq!(value, 5);
}

#[test]
fn define_then_read_back() {
    let mut env = EvalEnv::new();
    assert_eq!(eval_in_env(&mut env, "(define a 1)").unwrap(), "()");
    assert_eq!(eval_in_env(&mut env, "(define b (+ a 1))").unwrap(), "()");
    assert_eq!(eval_in_env(&mut env, "(define a \"again\")").unwrap(), "()");
    assert_eq!(eval_in_env(&mut env, "a").unwrap(), "\"again\"");
    assert_eq!(eval_in_env(&mut env, "b").unwrap(), "2");
    // a failed define binds nothing
    assert!(eval_in_env(&mut env, "(define c undefined-name)").is_err());
    assert!(eval_in_env(&mut env, "c").is_err());
}

#[test]
fn quote_returns_its_argument_unevaluated() {
    assert_eq!(eval_str("(quote (undefined-name 1 \"s\"))").unwrap(), "(undefined-name 1 \"s\")");
    assert_eq!(eval_str("'x").unwrap(), "x");
    assert_eq!(eval_str("'()").unwrap(), "()");
}

#[test]
fn only_false_is_false() {
    for truthy in ["0", "'()", "\"\"", "'x", "+", "#t"] {
        let src = format!("(if {} 1 2)", truthy);
        assert_eq!(eval_str(&src).unwrap(), "1", "{}", truthy);
    }
    assert_eq!(eval_str("(if #f 1 2)").unwrap(), "2");
    assert_eq!(eval_str("(and)").unwrap(), "#t");
    assert_eq!(eval_str("(or)").unwrap(), "#f");
    assert_eq!(eval_str("(or '() 1)").unwrap(), "()");
}

#[test]
fn calls_leave_bindings_as_they_were() {
    let mut env = EvalEnv::new();
    eval_in_env(&mut env, "(define (f x) (define y x) (+ x 1))").unwrap();
    let before = env.binding_count();
    assert_eq!(eval_in_env(&mut env, "(f 2)").unwrap(), "3");
    assert_eq!(env.binding_count(), before);
    assert!(eval_in_env(&mut env, "y").is_err());
    assert!(eval_in_env(&mut env, "x").is_err());
    // also when the body fails
    assert!(eval_in_env(&mut env, "((lambda (z) (define w 1) (undefined-name)) 5)").is_err());
    assert_eq!(env.binding_count(), before);
}

#[test]
fn evaluation_only_appends_output() {
    let mut env = EvalEnv::new();
    let mut out = Output::new();
    eval_in_env_with_output(&mut env, "(display \"ab\")", &mut out).unwrap();
    let first = out.as_str().to_string();
    assert!(eval_in_env_with_output(&mut env, "(begin-unknown (print 1))", &mut out).is_err());
    eval_in_env_with_output(&mut env, "(print 1 2)", &mut out).unwrap();
    assert!(out.as_str().starts_with(&first));
    assert_eq!(first, "ab");
}

#[test]
fn value_equality() {
    let parse = |src: &str| {
        let tokens = tokenize(src, &backend).unwrap();
        Parser::new(tokens).parse(&backend).unwrap()
    };
    assert!(parse("(1 \"a\" (b . #t))").equals(&parse("(1.0 \"a\" (b . #t))"), &backend));
    assert!(!parse("(1 2)").equals(&parse("(1 2 3)"), &backend));
    assert!(!parse("x").equals(&parse("\"x\""), &backend));
    assert!(parse("()").equals(&parse("()"), &backend));
    let zero = Value::Numeric(num(0.0));
    let minus_zero = Value::Numeric(num(-0.0));
    assert!(zero.equals(&minus_zero, &backend));
    let nan = Value::Numeric(num(f64::NAN));
    assert!(!nan.equals(&nan, &backend));
    let mut env = EvalEnv::new();
    let plus = env.lookup(&"+".to_string()).unwrap();
    let minus = env.lookup(&"-".to_string()).unwrap();
    assert!(plus.equals(&plus, &backend));
    assert!(!plus.equals(&minus, &backend));
    let lam = env.eval(Rc::new(parse("(lambda (x) x)")), &backend, &mut Output::new()).unwrap();
    assert!(!lam.equals(&lam, &backend));
}

#[test]
fn trimming_input() {
    assert_eq!(trim_text("  (+ 1 2)\n\t"), "(+ 1 2)");
    assert_eq!(trim_text("\u{3000}x y\u{a0}"), "x y");
    assert_eq!(trim_text(" \n "), "");
    assert_eq!(trim_text(""), "");
    for s in ["  a b ", "\u{85}\u{2028}q\u{2029}", "no-space"] {
        assert_eq!(trim_text(s), s.trim());
    }
}

#[test]
fn terminal_answers() {
    let mut env = EvalEnv::new();
    let mut out = Output::new();
    let mut answer = |line: &str| match respond_to_line(line, &mut env, &backend, &mut out) {
        LineReply::Nothing => "nothing".to_string(),
        LineReply::Value(v) => format!("value {}", v),
        LineReply::Error(e) => format!("error {}", e),
        LineReply::Exit(c) => format!("exit {}", c),
    };
    assert_eq!(answer("   \n"), "nothing");
    assert_eq!(answer("(define x 41)\n"), "value ()");
    assert_eq!(answer("  (+ x 1)  "), "value 42");
    assert_eq!(answer("\"open"), "error Error: Syntax error: Unterminated string literal");
    assert_eq!(answer(")"), "error Parse error: Syntax error: Unexpected token: (RIGHT_PAREN)");
    assert_eq!(answer("y"), "error Error: Runtime error: Variable y not defined.");
    assert_eq!(answer("(display \"hi\")"), "value ()");
    assert_eq!(answer("(exit 4)"), "exit 4");
    assert_eq!(out.take(), "hi");
}

#[test]
fn run_button_report() {
    let mut env = EvalEnv::new();
    assert_eq!(run_current_input(" \n ", &mut env, &backend), "Please enter some Lisp code.\n");
    assert_eq!(
        run_current_input("(define x 2) (display x) (+ x 1)", &mut env, &backend),
        ">>> Running...\n()\n2()\n3\n"
    );
    assert_eq!(run_current_input("(display \"a\")", &mut env, &backend), ">>> Running...\na()\n");
    assert_eq!(
        run_current_input("(print 1) (exit 3) (print 2)", &mut env, &backend),
        ">>> Running...\n1\n()\nProgram requested exit with code 3.\n"
    );
    assert_eq!(
        run_current_input("(kar '(1))", &mut env, &backend),
        ">>> Running...\nError: Runtime error: Variable kar not defined.\n"
    );
    assert_eq!(run_current_input("x", &mut env, &backend), ">>> Running...\n2\n");
}

#[test]
fn list_builtins() {
    assert_eq!(eval_str("(car '(1 2))").unwrap(), "1");
    assert_eq!(eval_str("(cons 1 '(2 3))").unwrap(), "(1 2 3)");
    assert_eq!(eval_str("(cons 1 2)").unwrap(), "(1 . 2)");
    assert_eq!(eval_str("(list 1 (+ 1 1) \"x\")").unwrap(), "(1 2 \"x\")");
    assert_eq!(eval_str("(list)").unwrap(), "()");
    assert_eq!(eval_str("(append '(1 2) '(3) '() '(4 5))").unwrap(), "(1 2 3 4 5)");
    assert_eq!(eval_str("(append '(1) 2)").unwrap(), "(1 . 2)");
    assert_eq!(eval_str("(append)").unwrap(), "()");
    assert_eq!(runtime_message(eval_str("(append 1 '(2))").unwrap_err()), "append expects lists");
    assert_eq!(runtime_message(eval_str("(car '())").unwrap_err()), "car expects a pair");
    assert_eq!(runtime_message(eval_str("(car)").unwrap_err()), "car requires 1 argument");
    assert_eq!(runtime_message(eval_str("(cons 1)").unwrap_err()), "cons requires 2 arguments");
    assert_eq!(eval_str("(not #f)").unwrap(), "#t");
    assert_eq!(eval_str("(not '())").unwrap(), "#f");
    assert_eq!(eval_str("(equal? '(1 (2 \"a\")) (list 1 (list 2 \"a\")))").unwrap(), "#t");
    assert_eq!(eval_str("(equal? '(1 2) '(1 3))").unwrap(), "#f");
    assert_eq!(runtime_message(eval_str("(equal? 1)").unwrap_err()), "equal? requires 2 arguments");
}

#[test]
fn numeric_builtins() {
    assert_eq!(eval_str("(/ 8 2 2)").unwrap(), "2");
    assert_eq!(eval_str("(/ 4)").unwrap(), "0.25");
    assert_eq!(eval_str("(abs -3.5)").unwrap(), "3.5");
    assert_eq!(eval_str("(expt 2 10)").unwrap(), "1024");
    assert_eq!(eval_str("(quotient -7 2)").unwrap(), "-3");
    assert_eq!(eval_str("(remainder -7 2)").unwrap(), "-1");
    assert_eq!(eval_str("(modulo -7 2)").unwrap(), "1");
    assert_eq!(eval_str("(modulo 7 -2)").unwrap(), "-1");
    assert_eq!(eval_str("(= 2 2.0)").unwrap(), "#t");
    assert_eq!(eval_str("(< 1 2)").unwrap(), "#t");
    assert_eq!(eval_str("(<= 2 2)").unwrap(), "#t");
    assert_eq!(eval_str("(>= 1 2)").unwrap(), "#f");
    assert_eq!(eval_str("(zero? 0)").unwrap(), "#t");
    assert_eq!(eval_str("(even? 4)").unwrap(), "#t");
    assert_eq!(eval_str("(odd? 4)").unwrap(), "#f");
    assert_eq!(eval_str("(odd? -3)").unwrap(), "#t");
    assert_eq!(eval_str("(even? 2.5)").unwrap(), "#f");
    assert_eq!(runtime_message(eval_str("(< 1 \"a\")").unwrap_err()), "< expects numbers");
    assert_eq!(runtime_message(eval_str("(<= 1)").unwrap_err()), "<= requires 2 arguments");
    assert_eq!(runtime_message(eval_str("(zero? 'a)").unwrap_err()), "zero? expects a number");
    assert_eq!(runtime_message(eval_str("(even?)").unwrap_err()), "even? requires 1 argument");
    assert_eq!(runtime_message(eval_str("(expt 2)").unwrap_err()), "expt requires 2 arguments");
    assert_eq!(runtime_message(eval_str("(abs \"x\")").unwrap_err()), "abs expects a number");
    assert_eq!(runtime_message(eval_str("(/ 1 'a)").unwrap_err()), "Cannot div non-number");
    assert_eq!(runtime_message(eval_str("(/)").unwrap_err()), "/ requires at least 1 argument");
}

#[test]
fn begin_cond_let() {
    assert_eq!(eval_str("(begin (print 1) (+ 1 2))").unwrap(), "3");
    assert_eq!(eval_str("(begin)").unwrap(), "()");
    assert_eq!(eval_str("(cond ((> 1 2) 'a) ((> 3 2) 'b 'c) (else 'd))").unwrap(), "c");
    assert_eq!(eval_str("(cond (#f 1) (else))").unwrap(), "()");
    assert_eq!(eval_str("(cond (#f 1) (else 2))").unwrap(), "2");
    assert_eq!(eval_str("(cond ((+ 1 1)))").unwrap(), "2");
    assert_eq!(eval_str("(cond (#f 1))").unwrap(), "()");
    assert_eq!(runtime_message(eval_str("(cond 1)").unwrap_err()), "cond clause must be a non-empty list");
    assert_eq!(runtime_message(eval_str("(cond ())").unwrap_err()), "cond clause must be a non-empty list");
    assert_eq!(eval_str("(let ((x 10) (y 20)) (+ x y))").unwrap(), "30");
    assert_eq!(eval_str("(let () 5)").unwrap(), "5");
    assert_eq!(runtime_message(eval_str("(let ((x)) x)").unwrap_err()), "let bindings must be (name expr) pairs");
    assert_eq!(runtime_message(eval_str("(let ((x 1)))").unwrap_err()), "let requires bindings and body");
    let mut env = EvalEnv::new();
    eval_in_env(&mut env, "(define x 1)").unwrap();
    let before = env.binding_count();
    assert_eq!(eval_in_env(&mut env, "(let ((x 2) (y x)) (define z 3) (+ x y z))").unwrap(), "6");
    assert_eq!(env.binding_count(), before);
    assert_eq!(eval_in_env(&mut env, "x").unwrap(), "1");
}

#[test]
fn map_filter_reduce() {
    let mut env = EvalEnv::new();
    eval_in_env(&mut env, "(define (square x) (* x x))").unwrap();
    assert_eq!(eval_in_env(&mut env, "(square 5)").unwrap(), "25");
    assert_eq!(eval_in_env(&mut env, "(map square (list 1 2 3 4 5))").unwrap(), "(1 4 9 16 25)");
    assert_eq!(eval_in_env(&mut env, "(map square '())").unwrap(), "()");
    assert_eq!(eval_in_env(&mut env, "(filter even? '(1 2 3 4))").unwrap(), "(2 4)");
    assert_eq!(eval_in_env(&mut env, "(filter (lambda (x) (> x 2)) '(1 2 3 4))").unwrap(), "(3 4)");
    assert_eq!(eval_in_env(&mut env, "(reduce + '(1 2 3 4))").unwrap(), "10");
    assert_eq!(eval_in_env(&mut env, "(reduce (lambda (a b) (cons b a)) '(1 2 3))").unwrap(), "(3 2 . 1)");
    assert_eq!(eval_in_env(&mut env, "(reduce + '(7))").unwrap(), "7");
    assert_eq!(runtime_message(eval_in_env(&mut env, "(reduce + '())").unwrap_err()), "reduce requires a non-empty list");
    assert_eq!(runtime_message(eval_in_env(&mut env, "(map square 3)").unwrap_err()), "map expects a list");
    assert_eq!(runtime_message(eval_in_env(&mut env, "(filter even?)").unwrap_err()), "filter requires 2 arguments");
    assert_eq!(runtime_message(eval_in_env(&mut env, "(map car '(1))").unwrap_err()), "car expects a pair");
    let mut out = Output::new();
    eval_in_env_with_output(&mut env, "(map print '(1 2))", &mut out).unwrap();
    assert_eq!(out.as_str(), "1\n2\n");
}

#[test]
fn quasiquote_templates() {
    let mut env = EvalEnv::new();
    eval_in_env(&mut env, "(define x 5)").unwrap();
    eval_in_env(&mut env, "(define l '(1 2))").unwrap();
    assert_eq!(eval_in_env(&mut env, "`(a ,x b)").unwrap(), "(a 5 b)");
    assert_eq!(eval_in_env(&mut env, "`(a ,@l b)").unwrap(), "(a 1 2 b)");
    assert_eq!(eval_in_env(&mut env, "`(,@l)").unwrap(), "(1 2)");
    assert_eq!(eval_in_env(&mut env, "`(a . ,x)").unwrap(), "(a . 5)");
    assert_eq!(eval_in_env(&mut env, "`,x").unwrap(), "5");
    assert_eq!(eval_in_env(&mut env, "`(1 (2 ,(+ x 1)) \"s\")").unwrap(), "(1 (2 6) \"s\")");
    assert_eq!(eval_in_env(&mut env, "(quasiquote (x ,x))").unwrap(), "(x 5)");
    assert_eq!(runtime_message(eval_in_env(&mut env, "`(a ,@x)").unwrap_err()), "unquote-splicing expects a list");
    assert_eq!(runtime_message(eval_in_env(&mut env, "(quasiquote)").unwrap_err()), "quasiquote requires 1 argument");
    assert_eq!(parse_show(",@x"), "(unquote-splicing x)");
    let tokens = tokenize(",@(a)", &backend).unwrap();
    assert_eq!(tokens[0].describe(&backend), "(UNQUOTE_SPLICING)");
}

#[test]
fn procedures_read_names_where_they_were_made() {
    let mut env = EvalEnv::new();
    eval_in_env(&mut env, "(define (make-adder n) (lambda (x) (+ x n)))").unwrap();
    eval_in_env(&mut env, "(define add3 (make-adder 3))").unwrap();
    assert_eq!(eval_in_env(&mut env, "(add3 4)").unwrap(), "7");
    assert_eq!(eval_in_env(&mut env, "((make-adder 10) 5)").unwrap(), "15");
    // the body reads `x` from where `f` was made, not from the caller
    eval_in_env(&mut env, "(define x 1)").unwrap();
    eval_in_env(&mut env, "(define (f) x)").unwrap();
    eval_in_env(&mut env, "(define (g x) (f))").unwrap();
    assert_eq!(eval_in_env(&mut env, "(g 2)").unwrap(), "1");
    // definitions made later in the global scope are seen, so recursion works
    eval_in_env(&mut env, "(define (fact n) (if (= n 0) 1 (* n (fact (- n 1)))))").unwrap();
    assert_eq!(eval_in_env(&mut env, "(fact 10)").unwrap(), "3628800");
    // a procedure's own definitions stay in its call
    eval_in_env(&mut env, "(define (h) (define inner 5) inner)").unwrap();
    assert_eq!(eval_in_env(&mut env, "(h)").unwrap(), "5");
    assert!(eval_in_env(&mut env, "inner").is_err());
    let scopes = env.scope_count();
    eval_in_env(&mut env, "(add3 1)").unwrap();
    assert_eq!(env.scope_count(), scopes + 1);
    assert_eq!(eval_in_env(&mut env, "(let ((y 2)) (map (lambda (z) (* y z)) '(1 2 3)))").unwrap(), "(2 4 6)");
}

#[test]
fn comments_are_skipped() {
    let mut env = EvalEnv::new();
    let mut out = Output::new();
    execute_source("; squares\n(define (sq x) (* x x)) ; helper\n(sq 3) ;; done", &mut env, true, &backend, &mut out).unwrap();
    assert_eq!(out.as_str(), "()\n9\n");
    assert_eq!(tokenize("; only a comment", &backend).unwrap().len(), 0);
    assert_eq!(eval_str("(+ 1 ; one\n 2)").unwrap(), "3");
}

#[test]
fn atom_is_anything_but_a_pair() {
    assert_eq!(eval_str("(atom? '())").unwrap(), "#t");
    assert_eq!(eval_str("(atom? car)").unwrap(), "#t");
    assert_eq!(eval_str("(atom? (lambda (x) x))").unwrap(), "#t");
    assert_eq!(eval_str("(atom? \"s\")").unwrap(), "#t");
    assert_eq!(eval_str("(atom? (cons 1 2))").unwrap(), "#f");
    assert_eq!(runtime_message(eval_str("(atom? 1 2)").unwrap_err()), "atom? requires 1 argument");
}

#[test]
fn eq_compares_values() {
    assert_eq!(eval_str("(eq? 'a 'a)").unwrap(), "#t");
    assert_eq!(eval_str("(eq? 'a 'b)").unwrap(), "#f");
    assert_eq!(eval_str("(eq? 1 2)").unwrap(), "#f");
    assert_eq!(eval_str("(eq? 2 2)").unwrap(), "#t");
    assert_eq!(eval_str("(eq? '(1) '(1))").unwrap(), "#t");
    assert_eq!(eval_str("(eq? car car)").unwrap(), "#t");
    assert_eq!(eval_str("(eq? car cdr)").unwrap(), "#f");
    let mut env = EvalEnv::new();
    eval_in_env(&mut env, "(define (f x) x)").unwrap();
    assert_eq!(eval_in_env(&mut env, "(eq? f f)").unwrap(), "#t");
    assert_eq!(runtime_message(eval_str("(eq? 1)").unwrap_err()), "eq? requires 2 arguments");
}

#[test]
fn plain_strings_display_in_quotes() {
    assert_eq!(show(&Value::String("Hello".to_string())), "\"Hello\"");
    assert_eq!(eval_str("\"Hello\"").unwrap(), "\"Hello\"");
}

#[test]
fn recursion_within_the_budget() {
    let mut env = EvalEnv::new();
    eval_in_env(&mut env, "(define (count n) (if (> n 0) (+ 1 (count (- n 1))) 0))").unwrap();
    assert_eq!(eval_in_env(&mut env, "(count 600)").unwrap(), "600");
    // about three units of the budget per level of this procedure
    assert_eq!(eval_with_budget(&mut env, "(count 10)", 100).unwrap(), "10");
    assert_eq!(runtime_message(eval_with_budget(&mut env, "(count 10)", 20).unwrap_err()), "Maximum recursion depth exceeded");
}
