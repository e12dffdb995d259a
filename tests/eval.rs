use solang::context::{Context, ModuleSource, SourceText};
use solang::eval::{apply_builtin, apply_function, eval, Error};
use solang::module::load_use;
use solang::read::read;
use solang::value::{BuiltinId, Sx, SxFunctionInfo};

fn mk_test_ctx() -> Context {
    let mut ctx = Context::new(&"test-eval".to_string());
    ctx.add_module_path(&"./resources/test/eval".to_string());
    ctx.load_core();
    ctx.import_core();
    ctx
}

fn test_eval(input_source: &str, output_source: &str) {
    let mut ctx = mk_test_ctx();
    let input = read(input_source).expect("invalid input source");
    let output = read(output_source).expect("invalid output source");
    let mut results = Vec::new();
    for sx in input.iter() {
        results.push(ctx.eval(sx).expect("eval error"));
    }
    assert_eq!(Sx::List(results).to_string(), Sx::List(output).to_string());
}

fn test_eval_results(input_source: &str, exp_results: Vec<Result<Sx, Error>>) {
    let mut ctx = mk_test_ctx();
    let input = read(input_source).expect("invalid input source");
    let mut results = Vec::new();
    for sx in input.iter() {
        results.push(ctx.eval(sx));
    }
    assert_eq!(results, exp_results);
}

fn sym(s: &str) -> Sx {
    Sx::Symbol(s.to_string())
}

fn f(arity: usize, bindings: Vec<&str>, body: Vec<Sx>) -> Box<SxFunctionInfo> {
    Box::new(SxFunctionInfo {
        module: "test-eval".to_string(),
        arity,
        bindings: bindings.into_iter().map(|b| b.to_string()).collect(),
        body,
    })
}

#[test]
fn eval_test_self_eval() {
    test_eval("nil", "nil");
    test_eval("true", "true");
    test_eval("false", "false");
    test_eval("0", "0");
    test_eval("-999", "-999");
    test_eval("\"Yellow submarine\"", "\"Yellow submarine\"");
    test_eval("\"北京市\"", "\"北京市\"");
    test_eval("()", "()");
}

#[test]
fn eval_test_single_quoted() {
    test_eval("'nil", "nil");
    test_eval("'true", "true");
    test_eval("'false", "false");
    test_eval("'0", "0");
    test_eval("'-999", "-999");
    test_eval("'\"Yellow submarine\"", "\"Yellow submarine\"");
    test_eval("'\"北京市\"", "\"北京市\"");
    test_eval("'()", "()");
    test_eval("'(1 2 3)", "(1 2 3)");
    test_eval("'[1 2 3]", "[1 2 3]");
    test_eval("'foo", "foo");
}

#[test]
fn eval_test_double_quoted() {
    test_eval("''nil", "'nil");
    test_eval("''true", "'true");
    test_eval("''false", "'false");
    test_eval("''0", "'0");
    test_eval("''-999", "'-999");
    test_eval("''\"Yellow submarine\"", "'\"Yellow submarine\"");
    test_eval("''\"北京市\"", "'\"北京市\"");
    test_eval("''()", "'()");
    test_eval("''(1 2 3)", "'(1 2 3)");
    test_eval("''[1 2 3]", "'[1 2 3]");
    test_eval("''foo", "'foo");
}

#[test]
fn eval_test_primitive_error_too_few_args() {
    test_eval_results(
        "(apply) (apply +)",
        vec![Err(Error::BuiltinTooFewArgs("apply", 2, 0)), Err(Error::BuiltinTooFewArgs("apply", 2, 1))],
    );
}

#[test]
fn eval_test_primitive_error_too_many_args() {
    test_eval_results("(apply + '(1 2) 1)", vec![Err(Error::BuiltinTooManyArgs("apply", 2, 3))]);
}

#[test]
fn eval_test_error_not_a_function() {
    test_eval_results("(1 2 3)", vec![Err(Error::NotAFunction(Sx::Integer(1)))]);
}

#[test]
fn eval_test_error_sub_error() {
    test_eval_results("((1 2 3) 2 3)", vec![Err(Error::NotAFunction(Sx::Integer(1)))]);
}

#[test]
fn eval_test_vector_eval() {
    test_eval("(def foo 2) [1 foo 3 (+ 2 2)]", "foo [1 2 3 4]");
}

#[test]
fn test_special_def() {
    test_eval("(def foo 1) foo", "foo 1");
}

#[test]
fn test_special_error_def() {
    test_eval_results(
        "(def) (def foo) (def foo 1 2) (def \"foo\" 1) (def foo 1) (def foo 2)",
        vec![
            Err(Error::BuiltinTooFewArgs("def", 2, 0)),
            Err(Error::BuiltinTooFewArgs("def", 2, 1)),
            Err(Error::BuiltinTooManyArgs("def", 2, 3)),
            Err(Error::DefineBadSymbol(Sx::String("foo".to_string()))),
            Ok(sym("foo")),
            Err(Error::Redefine("foo".to_string())),
        ],
    );
}

#[test]
fn test_special_fn_invoke() {
    test_eval(
        "((fn () nil)) ((fn (x) (* x x)) 3) ((fn (pred x y) (if pred x y)) true \"happy\" \"sad\")",
        "nil 9 \"happy\"",
    );
}

#[test]
fn test_special_fn_invalid_binding() {
    test_eval_results("(fn (x 1) nil)", vec![Err(Error::InvalidBinding(Sx::Integer(1)))]);
}

#[test]
fn test_special_fn_duplicate_binding() {
    test_eval_results("(fn (x x) (+ x x))", vec![Err(Error::DuplicateBinding("x".to_string()))]);
}

#[test]
fn test_special_fn_too_few_args() {
    let f1 = f(1, vec!["x"], vec![sym("x")]);
    let f2 = f(2, vec!["x", "y"], vec![sym("x")]);
    test_eval_results(
        "((fn (x) x)) ((fn (x y) x) 1)",
        vec![Err(Error::FnTooFewArgs(f1, 1, 0)), Err(Error::FnTooFewArgs(f2, 2, 1))],
    );
}

#[test]
fn test_special_fn_too_many_args() {
    let f1 = f(0, vec![], vec![Sx::Nil]);
    let f2 = f(1, vec!["x"], vec![sym("x")]);
    test_eval_results(
        "((fn () nil) 1) ((fn (x) x) 1 2)",
        vec![Err(Error::FnTooManyArgs(f1, 0, 1)), Err(Error::FnTooManyArgs(f2, 1, 2))],
    );
}

#[test]
fn test_special_if_direct() {
    test_eval(
        "(if true \"happy\" \"sad\") (if \"yay!\" \"happy\" \"sad\") (if false \"happy\" \"sad\") (if nil \"happy\" \"sad\")",
        "\"happy\" \"happy\" \"sad\" \"sad\"",
    );
}

#[test]
fn test_special_if_short_circuit() {
    test_eval("(if true \"happy\" undefined-symbol) (if false undefined-symbol \"sad\")", "\"happy\" \"sad\"");
}

#[test]
fn test_special_error_if() {
    test_eval_results(
        "(if foo \"happy\" \"sad\") (if true foo \"sad\") (if false \"happy\" foo)",
        vec![
            Err(Error::Undefined("foo".to_string())),
            Err(Error::Undefined("foo".to_string())),
            Err(Error::Undefined("foo".to_string())),
        ],
    );
}

#[test]
fn test_special_if_indirect() {
    test_eval(
        "(def is-happy? true) (def is-not-happy? false) (if is-happy? \"happy\" \"sad\") (if is-not-happy? \"happy\" \"sad\")",
        "is-happy? is-not-happy? \"happy\" \"sad\"",
    );
}

#[test]
fn test_special_quote() {
    test_eval("(quote 1) (quote foo) (quote (1 2 3))", "1 foo (1 2 3)");
}

#[test]
fn test_primitive_apply() {
    test_eval("(apply + '()) (apply + '(1 2 3))", "0 6");
}

#[test]
fn test_primitive_error_apply() {
    test_eval_results(
        "(apply + true) (apply 1 '(1 2 3)) (apply foo '(1 2 3))",
        vec![
            Err(Error::BuiltinBadArg("apply", Sx::Boolean(true))),
            Err(Error::NotAFunction(Sx::Integer(1))),
            Err(Error::Undefined("foo".to_string())),
        ],
    );
}

#[test]
fn test_primitive_cons() {
    test_eval("(cons 1 ()) (cons 1 '(2)) (cons 1 (cons 2 (cons 3 ())))", "(1) (1 2) (1 2 3)");
}

#[test]
fn test_primitive_head() {
    test_eval("(head '(1)) (head '(2 1)) (head '(3 2 1))", "1 2 3");
}

#[test]
fn test_primitive_tail() {
    test_eval("(tail '(1)) (tail '(1 2 3)) (tail (tail '(1 2 3)))", "() (2 3) (3)");
}

#[test]
fn test_primitive_plus() {
    test_eval(
        "(+) (+ 1) (+ 0 0) (+ -1 1) (+ 1 1) (+ 999 1) (+ (+ 1 1) (+ 1 1)) (+ 1 2 3) (+ 1 2 (+ 1 2) 4)",
        "0 1 0 0 2 1000 4 6 10",
    );
}

#[test]
fn test_primitive_error_plus() {
    test_eval_results("(+ 1 nil)", vec![Err(Error::BuiltinBadArg("+", Sx::Nil))]);
}

#[test]
fn test_primitive_product() {
    test_eval("(*) (* 1) (* 1 2) (* 1 2 3)", "1 1 2 6");
}

#[test]
fn arithmetic_scenarios() {
    test_eval("(+ 1 2 3) (+) (*) (- 5 2 1) (- 7)", "6 0 1 2 -7");
}

#[test]
fn if_scenarios() {
    test_eval("(if (= 1 1) \"y\" \"n\") (if nil (undefined) \"n\")", "\"y\" \"n\"");
}

#[test]
fn def_scenario() {
    test_eval("(def x 10) (def y (+ x 1)) y", "x y 11");
}

#[test]
fn fn_scenarios() {
    test_eval("((fn (x y) (+ x x y)) 3 4)", "10");
    test_eval_results("((fn (x x) x) 1 2)", vec![Err(Error::DuplicateBinding("x".to_string()))]);
}

#[test]
fn apply_scenarios() {
    test_eval("(apply + (quote (1 2 3)))", "6");
    test_eval_results("(apply + true)", vec![Err(Error::BuiltinBadArg("apply", Sx::Boolean(true)))]);
}

#[test]
fn quote_scenarios() {
    test_eval("'(1 2 3)", "(1 2 3)");
    let mut ctx = mk_test_ctx();
    let v = read("''x").unwrap();
    assert_eq!(ctx.eval(&v[0]).unwrap().to_string(), "'x");
}

fn foo_source(ctx: &mut Context, dir: &str, text: &str) {
    ctx.add_source(ModuleSource {
        dir: dir.to_string(),
        module: "foo".to_string(),
        path: format!("{}/foo.sol", dir),
        text: SourceText::Text(text.to_string()),
    });
}

#[test]
fn module_scenario() {
    let mut ctx = mk_test_ctx();
    foo_source(&mut ctx, "./resources/test/eval", "(module foo) (def a 1)");
    let forms = read("foo/a (import foo) foo/a").unwrap();
    assert_eq!(ctx.eval(&forms[0]), Err(Error::ModuleNotLoaded("foo".to_string())));
    assert_eq!(ctx.eval(&forms[1]), Ok(sym("foo")));
    assert_eq!(ctx.eval(&forms[2]), Ok(Sx::Integer(1)));
}

#[test]
fn module_load_is_idempotent() {
    let mut ctx = mk_test_ctx();
    foo_source(&mut ctx, "./resources/test/eval", "(def a (+ 1 2)) (def b (fn (x) (+ x a)))");
    assert_eq!(load_use(&mut ctx, &"foo".to_string()), Ok(sym("foo")));
    let snapshot = ctx.snapshot();
    assert_eq!(load_use(&mut ctx, &"foo".to_string()), Ok(sym("foo")));
    assert_eq!(ctx.snapshot(), snapshot);
    let forms = read("(foo/b 4)").unwrap();
    assert_eq!(ctx.eval(&forms[0]), Ok(Sx::Integer(7)));
}

#[test]
fn module_errors() {
    let mut ctx = mk_test_ctx();
    assert_eq!(
        load_use(&mut ctx, &"test-eval".to_string()),
        Err(Error::ModuleSelfRefer("test-eval".to_string()))
    );
    assert_eq!(
        load_use(&mut ctx, &"foo".to_string()),
        Err(Error::ModuleNotFound("foo".to_string(), vec!["./resources/test/eval".to_string()]))
    );
    foo_source(&mut ctx, "./resources/test/eval", "(def a 1)");
    foo_source(&mut ctx, "./resources/test/eval", "(def a 2)");
    assert_eq!(
        load_use(&mut ctx, &"foo".to_string()),
        Err(Error::ModuleMultipleOptions(
            "foo".to_string(),
            vec!["./resources/test/eval/foo.sol".to_string(), "./resources/test/eval/foo.sol".to_string()]
        ))
    );
    let mut ctx = mk_test_ctx();
    foo_source(&mut ctx, "elsewhere", "(def a 1)");
    assert!(matches!(load_use(&mut ctx, &"foo".to_string()), Err(Error::ModuleNotFound(_, _))));
    let mut ctx = mk_test_ctx();
    foo_source(&mut ctx, "./resources/test/eval", "(def a");
    assert!(matches!(load_use(&mut ctx, &"foo".to_string()), Err(Error::ModuleReadErrors(_, _))));
    let mut ctx = mk_test_ctx();
    foo_source(&mut ctx, "./resources/test/eval", "(def a 1) (def a 2) undefined");
    match load_use(&mut ctx, &"foo".to_string()) {
        Err(Error::ModuleEvalErrors(m, es)) => {
            assert_eq!(m, "foo");
            assert_eq!(es, vec![Error::Redefine("a".to_string()), Error::Undefined("undefined".to_string())]);
        },
        other => panic!("unexpected {:?}", other),
    }
    let mut ctx = mk_test_ctx();
    ctx.add_source(ModuleSource {
        dir: "./resources/test/eval".to_string(),
        module: "foo".to_string(),
        path: "./resources/test/eval/foo.sol".to_string(),
        text: SourceText::OpenError("denied".to_string()),
    });
    assert_eq!(
        load_use(&mut ctx, &"foo".to_string()),
        Err(Error::ModuleIoOpenError("foo".to_string(), "denied".to_string()))
    );
}

#[test]
fn symbol_errors() {
    test_eval_results(
        "a/b/c nope/x",
        vec![
            Err(Error::SymbolBadModuleFormat("a/b/c".to_string())),
            Err(Error::ModuleNotLoaded("nope".to_string())),
        ],
    );
}

#[test]
fn redefine_core() {
    test_eval_results("(def + 1)", vec![Err(Error::RedefineCore("+".to_string()))]);
}

#[test]
fn arithmetic_overflow_is_an_error() {
    test_eval_results(
        "(+ 9223372036854775807 1) (* 4611686018427387904 2) (- -9223372036854775808) (- -9223372036854775808 1)",
        vec![
            Err(Error::BuiltinBadArg("+", Sx::Integer(1))),
            Err(Error::BuiltinBadArg("*", Sx::Integer(2))),
            Err(Error::BuiltinBadArg("-", Sx::Integer(i64::MIN))),
            Err(Error::BuiltinBadArg("-", Sx::Integer(1))),
        ],
    );
}

#[test]
fn range_and_equality() {
    test_eval("(range) (range 3) (range 2 5) (range 5 2) (= 1) (= 1 1 1) (= 1 2) (= '(1 [2]) '(1 [2]))", "[] [0 1 2] [2 3 4] [] true true false true");
    test_eval_results("(range nil)", vec![Err(Error::BuiltinBadArg("range", Sx::Nil))]);
}

#[test]
fn head_tail_errors() {
    test_eval_results(
        "(head '()) (tail 1) (cons 1 2)",
        vec![
            Err(Error::BuiltinBadArg("head", Sx::List(vec![]))),
            Err(Error::BuiltinBadArg("tail", Sx::Integer(1))),
            Err(Error::BuiltinBadArg("cons", Sx::Integer(2))),
        ],
    );
}

#[test]
fn trace_records_and_returns() {
    let mut ctx = mk_test_ctx();
    let forms = read("(trace \"lbl\" (+ 1 2)) ((fn (x) (trace \"in\" x)) 5) (trace 1 2)").unwrap();
    assert_eq!(ctx.eval(&forms[0]), Ok(Sx::Integer(3)));
    assert_eq!(ctx.eval(&forms[1]), Ok(Sx::Integer(5)));
    assert_eq!(ctx.eval(&forms[2]), Err(Error::BuiltinBadArg("trace", Sx::Integer(1))));
    assert_eq!(ctx.traces.len(), 2);
    assert_eq!(ctx.traces[0].0, "lbl");
    assert_eq!(ctx.traces[1].1, Sx::Integer(5));
}

#[test]
fn context_snapshot_shape() {
    let mut ctx = mk_test_ctx();
    let forms = read("(def z 1) (context)").unwrap();
    ctx.eval(&forms[0]).unwrap();
    let snap = ctx.eval(&forms[1]).unwrap();
    let text = snap.to_string();
    assert!(text.starts_with("[[module-paths [\"./resources/test/eval\"]] [current-module test-eval] [loaded-modules [core test-eval]] [definitions [[core def #special<name: def, arity: 2> \"public\"]"));
    assert!(text.ends_with("[test-eval z 1 \"private\"]]]]"));
}

#[test]
fn depth_is_bounded() {
    test_eval_results(
        "(def loop (fn (x) (loop x))) (loop 1)",
        vec![Ok(sym("loop")), Err(Error::DepthExceeded)],
    );
}

#[test]
fn free_functions_match_methods() {
    let mut ctx = mk_test_ctx();
    let args = vec![Sx::Integer(2), Sx::Integer(3)];
    assert_eq!(apply_builtin(BuiltinId::Product, &mut ctx, &args), Ok(Sx::Integer(6)));
    let g = f(2, vec!["a", "b"], vec![Sx::List(vec![sym("-"), sym("a"), sym("b")])]);
    assert_eq!(apply_function(&g, &mut ctx, &args), Ok(Sx::Integer(-1)));
    assert_eq!(eval(&mut ctx, &Sx::List(vec![Sx::Builtin(BuiltinId::Plus), Sx::Integer(4)])), Ok(Sx::Integer(4)));
}

#[test]
fn builtin_and_function_printing() {
    let mut ctx = mk_test_ctx();
    let forms = read("+ fn range (fn (a b) a)").unwrap();
    let texts: Vec<String> = forms.iter().map(|x| ctx.eval(x).unwrap().to_string()).collect();
    assert_eq!(
        texts,
        vec![
            "#primitive<name: +, arity: 0..>",
            "#special<name: fn, arity: 2..>",
            "#primitive<name: range, arity: 0..2>",
            "#function<arity: 2, bindings: (a b)>",
        ]
    );
}

#[test]
fn apply_function_to_non_list_is_bad_arg() {
    test_eval_results("(apply (fn (x) x) 5)", vec![Err(Error::BuiltinBadArg("apply", Sx::Integer(5)))]);
}

#[test]
fn import_core_copies_public_core_bindings() {
    let mut bare = Context::new(&"m".to_string());
    bare.import_core();
    assert!(bare.keys.is_empty());

    let mut ctx = Context::new(&"m".to_string());
    ctx.load_core();
    ctx.define(&"core".to_string(), &"extra".to_string(), &Sx::Integer(9), solang::value::Visibility::Public);
    ctx.define(&"core".to_string(), &"hidden".to_string(), &Sx::Integer(1), solang::value::Visibility::Private);
    ctx.import_core();
    assert_eq!(
        ctx.lookup_current(&"extra".to_string()),
        Some((Sx::Integer(9), solang::value::Visibility::Imported))
    );
    assert_eq!(ctx.lookup_current(&"hidden".to_string()), None);
    let forms = read("(module other)").unwrap();
    assert_eq!(ctx.eval(&forms[0]), Ok(sym("other")));
    assert_eq!(
        ctx.lookup_current(&"extra".to_string()),
        Some((Sx::Integer(9), solang::value::Visibility::Imported))
    );
}

#[test]
fn multiple_options_follow_module_path_order() {
    let mut ctx = mk_test_ctx();
    ctx.add_module_path(&"second".to_string());
    foo_source(&mut ctx, "second", "(def a 2)");
    foo_source(&mut ctx, "./resources/test/eval", "(def a 1)");
    assert_eq!(
        load_use(&mut ctx, &"foo".to_string()),
        Err(Error::ModuleMultipleOptions(
            "foo".to_string(),
            vec!["./resources/test/eval/foo.sol".to_string(), "second/foo.sol".to_string()]
        ))
    );
}
