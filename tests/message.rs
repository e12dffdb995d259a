use solang::context::Context;
use solang::eval::Error;
use solang::pretty::pretty;
use solang::read::{read, Error as ReadError};
use solang::token::Kind;
use solang::value::{BuiltinId, Sx, SxFunctionInfo, Visibility};

#[test]
fn read_error_messages() {
    assert_eq!(ReadError::InvalidToken("a,".to_string()).to_string(), "invalid token: a,");
    assert_eq!(ReadError::IntegerLimit("99".to_string()).to_string(), "integer limit: 99");
    assert_eq!(ReadError::PartialString("ab".to_string()).to_string(), "non-terminated string: \"ab");
    assert_eq!(
        ReadError::InvalidCloseDelimiter(Kind::VectorStart, ")".to_string()).to_string(),
        "invalid vector close delimiter: ')'"
    );
    assert_eq!(ReadError::TrailingDelimiter("]".to_string()).to_string(), "trailing delimiter: ']'");
    assert_eq!(ReadError::UnmatchedDelimiter(Kind::ListStart).to_string(), "non-terminated list");
}

#[test]
fn eval_error_messages() {
    let g = Box::new(SxFunctionInfo {
        module: "m".to_string(),
        arity: 1,
        bindings: vec!["x".to_string()],
        body: vec![Sx::Symbol("x".to_string())],
    });
    let cases = vec![
        (Error::Undefined("foo".to_string()), "undefined symbol: foo"),
        (Error::Redefine("foo".to_string()), "cannot redefine symbol foo"),
        (Error::RedefineCore("+".to_string()), "cannot redefine core symbol +"),
        (Error::DefineBadSymbol(Sx::String("s".to_string())), "first argument to def must be a symbol, got \"s\""),
        (Error::NotAFunction(Sx::Integer(1)), "1 does not evaluate to a function"),
        (Error::BuiltinBadArg("+", Sx::Nil), "invalid argument to +, got nil"),
        (Error::BuiltinTooFewArgs("def", 2, 0), "def expects at least 2 argument(s), got 0"),
        (Error::BuiltinTooManyArgs("def", 2, 3), "def expects at most 2 argument(s), got 3"),
        (Error::FnTooFewArgs(g, 1, 0), "#function<arity: 1, bindings: (x)> expects at least 1 argument(s), got 0"),
        (
            Error::ModuleNotFound("foo".to_string(), vec!["a".to_string(), "b".to_string()]),
            "could not find module named foo under following module paths: a, b",
        ),
        (Error::ModuleNotLoaded("foo".to_string()), "module foo is not loaded"),
        (
            Error::ModuleEvalErrors(
                "foo".to_string(),
                vec![Error::Undefined("x".to_string()), Error::Redefine("y".to_string())],
            ),
            "undefined symbol: x\ncannot redefine symbol y",
        ),
        (
            Error::ModuleReadErrors("foo".to_string(), vec![ReadError::UnmatchedDelimiter(Kind::VectorStart)]),
            "non-terminated vector",
        ),
        (Error::DepthExceeded, "evaluation nested too deeply"),
    ];
    for (e, text) in cases {
        assert_eq!(e.to_string(), text);
    }
}

#[test]
fn descriptor_and_visibility_text() {
    assert_eq!(BuiltinId::Range.info().to_string(), "#primitive<name: range, arity: 0..2>");
    assert_eq!(BuiltinId::If.info().to_string(), "#special<name: if, arity: 3>");
    assert_eq!(Visibility::Imported.to_string(), "imported");
    assert_eq!(Visibility::Local.to_string(), "local");
}

#[test]
fn pretty_breaks_long_lists() {
    let short = read("(a b c)").unwrap();
    assert_eq!(pretty(&short[0]), "(a b c)");
    let long = read("(first-element-of-the-list second-element-of-the-list (third element) [fourth element of it])").unwrap();
    assert_eq!(
        pretty(&long[0]),
        "(first-element-of-the-list\n second-element-of-the-list\n (third element)\n [fourth element of it])"
    );
}

#[test]
fn snapshot_lists_every_definition_once() {
    let mut ctx = Context::new(&"m".to_string());
    ctx.load_core();
    ctx.import_core();
    ctx.import_core();
    assert_eq!(ctx.keys.len(), 2 * 17);
}
