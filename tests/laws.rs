use solang::context::{Context, ModuleSource, SourceText};
use solang::eval::Error;
use solang::read::read;
use solang::value::Sx;

fn fresh(name: &str) -> Context {
    let mut ctx = Context::new(&name.to_string());
    ctx.load_core();
    ctx.import_core();
    ctx
}

fn run(ctx: &mut Context, source: &str) -> Vec<Result<Sx, Error>> {
    read(source).unwrap().iter().map(|sx| ctx.eval(sx)).collect()
}

#[test]
fn evaluation_is_deterministic() {
    let source = "(def f (fn (x) (if (= x 0) '(done) (cons x (f (- x 1)))))) (f 3) (context) (f nil) (trace \"t\" 1)";
    let mut a = fresh("m");
    let mut b = fresh("m");
    let ra = run(&mut a, source);
    let rb = run(&mut b, source);
    assert_eq!(ra, rb);
    assert_eq!(a.snapshot(), b.snapshot());
    assert_eq!(a.traces, b.traces);
    assert_eq!(ra[1], Ok(read("(3 2 1 done)").unwrap().remove(0)));
}

#[test]
fn private_definitions_of_other_modules_stay_hidden() {
    let mut ctx = fresh("main");
    ctx.add_module_path(&"lib".to_string());
    ctx.add_source(ModuleSource {
        dir: "lib".to_string(),
        module: "secret".to_string(),
        path: "lib/secret.sol".to_string(),
        text: SourceText::Text("(def hidden 42)".to_string()),
    });
    let results = run(&mut ctx, "(import secret) hidden secret/hidden");
    assert_eq!(results[0], Ok(Sx::Symbol("secret".to_string())));
    assert_eq!(results[1], Err(Error::Undefined("hidden".to_string())));
    assert_eq!(results[2], Ok(Sx::Integer(42)));
}

#[test]
fn def_then_lookup_then_redefine() {
    let mut ctx = fresh("main");
    let results = run(&mut ctx, "(def s (* 6 7)) s (def s 0) s");
    assert_eq!(
        results,
        vec![
            Ok(Sx::Symbol("s".to_string())),
            Ok(Sx::Integer(42)),
            Err(Error::Redefine("s".to_string())),
            Ok(Sx::Integer(42)),
        ]
    );
}

#[test]
fn function_arity_is_exact() {
    let mut ctx = fresh("main");
    let results = run(&mut ctx, "(def g (fn (a b) (- a b))) (g 5 3) (g 5) (g 5 3 1) (g 5 nil)");
    assert_eq!(results[1], Ok(Sx::Integer(2)));
    assert!(matches!(results[2], Err(Error::FnTooFewArgs(_, 2, 1))));
    assert!(matches!(results[3], Err(Error::FnTooManyArgs(_, 2, 3))));
    assert_eq!(results[4], Err(Error::BuiltinBadArg("-", Sx::Nil)));
}

#[test]
fn apply_matches_direct_call() {
    let mut ctx = fresh("main");
    let pairs = [
        ("(apply + '(1 2 3))", "(+ 1 2 3)"),
        ("(apply - '(10 4))", "(- 10 4)"),
        ("(apply cons '(1 (2)))", "(cons 1 (2))"),
        ("(apply (fn (x y) (* x y)) '(6 7))", "((fn (x y) (* x y)) 6 7)"),
        ("(apply head '(()))", "(head ())"),
        ("(apply (fn (x) x) '(1 2))", "((fn (x) x) 1 2)"),
        ("(apply + '(1 nil))", "(+ 1 nil)"),
    ];
    for (via_apply, direct) in pairs.iter() {
        let a = run(&mut ctx, via_apply);
        let b = run(&mut ctx, direct);
        assert_eq!(a, b, "{} vs {}", via_apply, direct);
    }
}
