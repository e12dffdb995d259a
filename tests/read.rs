use solang::read::{from_str, read, Error};
use solang::token::Kind;
use solang::value::Sx;

fn sym(s: &str) -> Sx {
    Sx::Symbol(s.to_string())
}

fn st(s: &str) -> Sx {
    Sx::String(s.to_string())
}

fn list(v: Vec<Sx>) -> Sx {
    Sx::List(v)
}

fn vector(v: Vec<Sx>) -> Sx {
    Sx::Vector(v)
}

fn quote(v: Sx) -> Sx {
    Sx::Quote(Box::new(v))
}

fn test_sxs(source: &str, exp_sxs: Vec<Sx>) {
    let act_sxs = read(source);
    assert!(act_sxs.is_ok());
    assert_eq!(list(exp_sxs).to_string(), list(act_sxs.unwrap()).to_string());
}

fn test_errors(source: &str, exp_errs: Vec<Error>) {
    let act_errs = read(source);
    assert_eq!(Err(exp_errs), act_errs);
}

#[test]
fn read_test_empty() {
    test_sxs("", vec![]);
}

#[test]
fn read_test_nil() {
    test_sxs("nil", vec![Sx::Nil]);
}

#[test]
fn read_test_boolean() {
    test_sxs("true false", vec![Sx::Boolean(true), Sx::Boolean(false)]);
}

#[test]
fn test_int() {
    test_sxs("0 1 12345678", vec![Sx::Integer(0), Sx::Integer(1), Sx::Integer(12345678)]);
}

#[test]
fn test_negative_int() {
    test_sxs("-0 -1 -12345678", vec![Sx::Integer(-0), Sx::Integer(-1), Sx::Integer(-12345678)]);
}

#[test]
fn read_test_symbol() {
    test_sxs("foo", vec![sym("foo")]);
}

#[test]
fn read_test_string() {
    test_sxs("\"北京市\"", vec![st("北京市")]);
}

#[test]
fn test_list_empty() {
    test_sxs("()", vec![list(vec![])]);
}

#[test]
fn test_list_singleton() {
    test_sxs("(foo)", vec![list(vec![sym("foo")])]);
}

#[test]
fn test_list_pair() {
    test_sxs("(foo \"Åbo\")", vec![list(vec![sym("foo"), st("Åbo")])]);
}

#[test]
fn test_list_nonempty() {
    test_sxs("(nil foo \"北京市\")", vec![list(vec![Sx::Nil, sym("foo"), st("北京市")])]);
}

#[test]
fn test_list_nested_front() {
    test_sxs(
        "(((nil) foo) \"北京市\")",
        vec![list(vec![list(vec![list(vec![Sx::Nil]), sym("foo")]), st("北京市")])],
    );
}

#[test]
fn test_list_nested_back() {
    test_sxs(
        "(nil (foo (\"北京市\")))",
        vec![list(vec![Sx::Nil, list(vec![sym("foo"), list(vec![st("北京市")])])])],
    );
}

#[test]
fn test_list_nested_middle() {
    test_sxs("(nil (foo) \"北京市\")", vec![list(vec![Sx::Nil, list(vec![sym("foo")]), st("北京市")])]);
}

#[test]
fn test_vector_empty() {
    test_sxs("[]", vec![vector(vec![])]);
}

#[test]
fn test_vector_singleton() {
    test_sxs("[3]", vec![vector(vec![Sx::Integer(3)])]);
}

#[test]
fn test_vector_nonempty() {
    test_sxs("[nil foo \"北京市\" bar]", vec![vector(vec![Sx::Nil, sym("foo"), st("北京市"), sym("bar")])]);
}

#[test]
fn test_vector_nested() {
    test_sxs(
        "[[nil] [foo [\"北京市\"]] [bar]]",
        vec![vector(vec![
            vector(vec![Sx::Nil]),
            vector(vec![sym("foo"), vector(vec![st("北京市")])]),
            vector(vec![sym("bar")]),
        ])],
    );
}

#[test]
fn test_multi_flat() {
    test_sxs("nil foo \"北京市\" bar", vec![Sx::Nil, sym("foo"), st("北京市"), sym("bar")]);
}

#[test]
fn test_multi_nested() {
    test_sxs(
        "nil () (bar nil) foo \"北京市\"",
        vec![Sx::Nil, list(vec![]), list(vec![sym("bar"), Sx::Nil]), sym("foo"), st("北京市")],
    );
}

#[test]
fn test_quoted_sym_1() {
    test_sxs("'foo", vec![quote(sym("foo"))]);
}

#[test]
fn test_quoted_sym_2() {
    test_sxs("''foo", vec![quote(quote(sym("foo")))]);
}

#[test]
fn test_quoted_list_1() {
    test_sxs("'(1 nil foo)", vec![quote(list(vec![Sx::Integer(1), Sx::Nil, sym("foo")]))]);
}

#[test]
fn test_quoted_list_3() {
    test_sxs("'''(1 nil foo)", vec![quote(quote(quote(list(vec![Sx::Integer(1), Sx::Nil, sym("foo")]))))]);
}

#[test]
fn test_quoted_list_nested() {
    test_sxs(
        "'(1 2 '('foo 'bar))",
        vec![quote(list(vec![
            Sx::Integer(1),
            Sx::Integer(2),
            quote(list(vec![quote(sym("foo")), quote(sym("bar"))])),
        ]))],
    );
}

#[test]
fn test_invalid_tokens() {
    test_errors("foo bar,,, baz", vec![Error::InvalidToken("bar,,,".to_string())]);
}

#[test]
fn test_int_overflow() {
    test_errors(
        "100200300400500600700800 -100200300400500600700800",
        vec![
            Error::IntegerLimit("100200300400500600700800".to_string()),
            Error::IntegerLimit("-100200300400500600700800".to_string()),
        ],
    );
}

#[test]
fn test_partial_string() {
    test_errors("\"  ", vec![Error::PartialString("  ".to_string())]);
}

#[test]
fn test_invalid_close_delimiter() {
    test_errors(
        "(foo bar baz] [foo bar baz)",
        vec![
            Error::InvalidCloseDelimiter(Kind::ListStart, "]".to_string()),
            Error::InvalidCloseDelimiter(Kind::VectorStart, ")".to_string()),
        ],
    );
}

#[test]
fn test_unmatched_delimiter() {
    test_errors(
        "(foo bar baz [foo bar baz",
        vec![Error::UnmatchedDelimiter(Kind::ListStart), Error::UnmatchedDelimiter(Kind::VectorStart)],
    );
}

#[test]
fn test_trailing_delimiter_list() {
    test_errors("(foo bar baz))", vec![Error::TrailingDelimiter(")".to_string())]);
}

#[test]
fn read_integer_bounds() {
    test_sxs(
        "9223372036854775807 -9223372036854775808",
        vec![Sx::Integer(i64::MAX), Sx::Integer(i64::MIN)],
    );
    test_errors("9223372036854775808", vec![Error::IntegerLimit("9223372036854775808".to_string())]);
    test_errors("-1a", vec![Error::InvalidToken("-1a".to_string())]);
}

#[test]
fn read_is_values_or_errors() {
    for source in ["", "(a b", "a b)", "\"x", "(a [b) c]", "'x 'y", "1 2 3", "a,b"] {
        match read(source) {
            Ok(_) => {},
            Err(es) => assert!(!es.is_empty()),
        }
        assert_eq!(read(source), from_str(source));
    }
}

#[test]
fn print_then_read_gives_same_values() {
    let source = "nil true false -12 foo \"bar baz\" (a (b c) []) [1 [2] '(3)] ''x";
    let values = read(source).unwrap();
    let printed: Vec<String> = values.iter().map(|v| v.to_string()).collect();
    let again = read(&printed.join(" ")).unwrap();
    assert_eq!(values, again);
}

#[test]
fn quote_prints_with_apostrophe() {
    let values = read("''x").unwrap();
    assert_eq!(values.len(), 1);
    assert_eq!(values[0].to_string(), "''x");
}
