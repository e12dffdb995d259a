use solang::context::Context;
use solang::eval::Error;
use solang::read::read;
use solang::value::{Sx, SxFunctionInfo};

fn mk_test_ctx() -> Context {
    let mut ctx = Context::new(&"test-eval".to_string());
    ctx.add_module_path(&"./resources/test/eval".to_string());
    ctx.load_core();
    ctx.import_core();
    ctx
}

fn test_eval(input_source: &str, output_source: &str) {
    let mut ctx = mk_test_ctx();
    let input = read(input_source).expect("invalid input source");
    let output = read(output_source).expect("invalid output source");
    let mut results = Vec::new();
    for sx in input.iter() {
        results.push(ctx.eval(sx).expect("eval error"));
    }
    assert_eq!(Sx::List(results).to_string(), Sx::List(output).to_string());
}

fn test_eval_results(input_source: &str, exp_results: Vec<Result<Sx, Error>>) {
    let mut ctx = mk_test_ctx();
    let input = read(input_source).expect("invalid input source");
    let mut results = Vec::new();
    for sx in input.iter() {
        results.push(ctx.eval(sx));
    }
    assert_eq!(results, exp_results);
}

fn sym(s: &str) -> Sx {
    Sx::Symbol(s.to_string())
}

fn f(arity: usize, bindings: Vec<&str>, body: Vec<Sx>) -> Box<SxFunctionInfo> {
    Box::new(SxFunctionInfo {
        module: "test-eval".to_string(),
        arity,
        bindings: bindings.into_iter().map(|b| b.to_string()).collect(),
        body,
    })
}

#[test]
fn test_def() {
    test_eval("(def foo 1) foo", "foo 1");
}

#[test]
fn test_error_def() {
    test_eval_results(
        "(def) (def foo) (def foo 1 2) (def \"foo\" 1) (def foo 1) (def foo 2)",
        vec![
            Err(Error::BuiltinTooFewArgs("def", 2, 0)),
            Err(Error::BuiltinTooFewArgs("def", 2, 1)),
            Err(Error::BuiltinTooManyArgs("def", 2, 3)),
            Err(Error::DefineBadSymbol(Sx::String("foo".to_string()))),
            Ok(sym("foo")),
            Err(Error::Redefine("foo".to_string())),
        ],
    );
}

#[test]
fn test_fn_invoke() {
    test_eval(
        "((fn () nil)) ((fn (x) (* x x)) 3) ((fn (pred x y) (if pred x y)) true \"happy\" \"sad\")",
        "nil 9 \"happy\"",
    );
}

#[test]
fn test_fn_invalid_binding() {
    test_eval_results("(fn (x 1) nil)", vec![Err(Error::InvalidBinding(Sx::Integer(1)))]);
}

#[test]
fn test_fn_duplicate_binding() {
    test_eval_results("(fn (x x) (+ x x))", vec![Err(Error::DuplicateBinding("x".to_string()))]);
}

#[test]
fn test_fn_too_few_args() {
    let f1 = f(1, vec!["x"], vec![sym("x")]);
    let f2 = f(2, vec!["x", "y"], vec![sym("x")]);
    test_eval_results(
        "((fn (x) x)) ((fn (x y) x) 1)",
        vec![Err(Error::FnTooFewArgs(f1, 1, 0)), Err(Error::FnTooFewArgs(f2, 2, 1))],
    );
}

#[test]
fn test_fn_too_many_args() {
    let f1 = f(0, vec![], vec![Sx::Nil]);
    let f2 = f(1, vec!["x"], vec![sym("x")]);
    test_eval_results(
        "((fn () nil) 1) ((fn (x) x) 1 2)",
        vec![Err(Error::FnTooManyArgs(f1, 0, 1)), Err(Error::FnTooManyArgs(f2, 1, 2))],
    );
}

#[test]
fn test_if_direct() {
    test_eval(
        "(if true \"happy\" \"sad\") (if \"yay!\" \"happy\" \"sad\") (if false \"happy\" \"sad\") (if nil \"happy\" \"sad\")",
        "\"happy\" \"happy\" \"sad\" \"sad\"",
    );
}

#[test]
fn test_if_short_circuit() {
    test_eval("(if true \"happy\" undefined-symbol) (if false undefined-symbol \"sad\")", "\"happy\" \"sad\"");
}

#[test]
fn test_error_if() {
    test_eval_results(
        "(if foo \"happy\" \"sad\") (if true foo \"sad\") (if false \"happy\" foo)",
        vec![
            Err(Error::Undefined("foo".to_string())),
            Err(Error::Undefined("foo".to_string())),
            Err(Error::Undefined("foo".to_string())),
        ],
    );
}

#[test]
fn test_if_indirect() {
    test_eval(
        "(def is-happy? true) (def is-not-happy? false) (if is-happy? \"happy\" \"sad\") (if is-not-happy? \"happy\" \"sad\")",
        "is-happy? is-not-happy? \"happy\" \"sad\"",
    );
}

#[test]
fn core_test_quote() {
    test_eval("(quote 1) (quote foo) (quote (1 2 3))", "1 foo (1 2 3)");
}

#[test]
fn test_apply() {
    test_eval("(apply + '()) (apply + '(1 2 3))", "0 6");
}

#[test]
fn test_cons() {
    test_eval("(cons 1 ()) (cons 1 '(2)) (cons 1 (cons 2 (cons 3 ())))", "(1) (1 2) (1 2 3)");
}

#[test]
fn test_head() {
    test_eval("(head '(1)) (head '(2 1)) (head '(3 2 1))", "1 2 3");
}

#[test]
fn test_tail() {
    test_eval("(tail '(1)) (tail '(1 2 3)) (tail (tail '(1 2 3)))", "() (2 3) (3)");
}

#[test]
fn test_plus() {
    test_eval(
        "(+) (+ 1) (+ 0 0) (+ -1 1) (+ 1 1) (+ 999 1) (+ (+ 1 1) (+ 1 1)) (+ 1 2 3) (+ 1 2 (+ 1 2) 4)",
        "0 1 0 0 2 1000 4 6 10",
    );
}

#[test]
fn test_product() {
    test_eval("(*) (* 1) (* 1 2) (* 1 2 3)", "1 1 2 6");
}

