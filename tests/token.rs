use solang::token::{tokenize, Kind, Token};

fn tok(kind: Kind, size: usize, data: &str) -> Token {
    Token { kind, size, data: data.to_string() }
}

fn test_tokenize(source: &str, exp_tokens: &Vec<Token>) {
    let act_tokens = tokenize(source);
    assert_eq!(exp_tokens, &act_tokens);
}

#[test]
fn token_test_empty() {
    let exp_tokens = vec![];
    test_tokenize("", &exp_tokens);
    test_tokenize("    ", &exp_tokens);
    test_tokenize("\n\r\t\n", &exp_tokens);
}

#[test]
fn token_test_nil() {
    let exp_tokens = vec![tok(Kind::Nil, 3, "nil")];
    test_tokenize("nil", &exp_tokens);
    test_tokenize("\n\t nil\n ", &exp_tokens);
}

#[test]
fn test_nil_to_list() {
    let exp_tokens = vec![
        tok(Kind::Nil, 3, "nil"),
        tok(Kind::ListStart, 1, "("),
        tok(Kind::Nil, 3, "nil"),
        tok(Kind::ListEnd, 1, ")"),
    ];
    test_tokenize("nil(nil)", &exp_tokens);
}

#[test]
fn test_nil_invalid() {
    let exp_tokens = vec![tok(Kind::Invalid, 4, "nil,")];
    test_tokenize("nil,", &exp_tokens);
    test_tokenize("\t\nnil, ", &exp_tokens);
}

#[test]
fn token_test_boolean() {
    let exp_tokens = vec![tok(Kind::Boolean, 4, "true"), tok(Kind::Boolean, 5, "false")];
    test_tokenize("true false", &exp_tokens);
    test_tokenize("\n true\r\t false\n", &exp_tokens);
}

#[test]
fn test_integer() {
    let exp_tokens = vec![
        tok(Kind::Integer, 1, "0"),
        tok(Kind::Integer, 2, "-1"),
        tok(Kind::Integer, 8, "12345678"),
        tok(Kind::Integer, 9, "-12345678"),
    ];
    test_tokenize("0 -1 12345678 -12345678", &exp_tokens);
    test_tokenize("\n0 \t-1  12345678\n-12345678 ", &exp_tokens);
}

#[test]
fn test_integer_to_list() {
    let exp_tokens = vec![
        tok(Kind::Integer, 2, "-1"),
        tok(Kind::ListEnd, 1, ")"),
        tok(Kind::Integer, 8, "12345678"),
        tok(Kind::ListStart, 1, "("),
    ];
    test_tokenize("-1)12345678(", &exp_tokens);
}

#[test]
fn test_integer_invalid() {
    let exp_tokens = vec![tok(Kind::Invalid, 5, "-123,"), tok(Kind::Invalid, 2, "0$")];
    test_tokenize("-123, 0$", &exp_tokens);
}

#[test]
fn token_test_symbol() {
    let exp_tokens = vec![tok(Kind::Symbol, 3, "foo"), tok(Kind::Symbol, 1, "a"), tok(Kind::Symbol, 4, "nill")];
    test_tokenize("foo a nill", &exp_tokens);
    test_tokenize("\n\t foo\na   nill \n\t\t\r\n", &exp_tokens);
}

#[test]
fn test_symbol_to_list() {
    let exp_tokens = vec![
        tok(Kind::Symbol, 3, "foo"),
        tok(Kind::ListEnd, 1, ")"),
        tok(Kind::Symbol, 3, "bar"),
        tok(Kind::ListStart, 1, "("),
    ];
    test_tokenize("foo)bar(", &exp_tokens);
}

#[test]
fn test_symbol_invalid() {
    let exp_tokens = vec![tok(Kind::Invalid, 5, "foo,,"), tok(Kind::Invalid, 6, "äöå"), tok(Kind::Invalid, 4, "_123")];
    test_tokenize("foo,, äöå _123", &exp_tokens);
    test_tokenize("\n foo,,\täöå\n\t_123\t", &exp_tokens);
}

#[test]
fn token_test_string() {
    let exp_tokens = vec![
        tok(Kind::String, 0, ""),
        tok(Kind::String, 3, "abc"),
        tok(Kind::String, 4, "a\\nc"),
        tok(Kind::String, 9, "北京市"),
    ];
    test_tokenize("\"\" \"abc\" \"a\\nc\" \"北京市\"", &exp_tokens);
    test_tokenize("\n \"\" \t \"abc\" \"a\\nc\" \"北京市\" \n", &exp_tokens);
}

#[test]
fn test_string_to_list() {
    let exp_tokens = vec![
        tok(Kind::String, 3, "abc"),
        tok(Kind::ListStart, 1, "("),
        tok(Kind::String, 9, "北京市"),
        tok(Kind::ListEnd, 1, ")"),
    ];
    test_tokenize("\"abc\"(\"北京市\")", &exp_tokens);
}

#[test]
fn test_string_partial() {
    let exp_tokens = vec![tok(Kind::StringPartial, 6, "xyz...")];
    test_tokenize("  \"xyz...", &exp_tokens);
}

#[test]
fn test_list() {
    let exp_tokens = vec![
        tok(Kind::ListStart, 1, "("),
        tok(Kind::ListStart, 1, "("),
        tok(Kind::ListEnd, 1, ")"),
        tok(Kind::ListEnd, 1, ")"),
    ];
    test_tokenize("(())", &exp_tokens);
    test_tokenize("\n(\t (\n  )\n\r\t)\n ", &exp_tokens);
}

#[test]
fn token_test_quote() {
    let exp_tokens = vec![
        tok(Kind::Quote, 1, "'"),
        tok(Kind::Symbol, 3, "foo"),
        tok(Kind::Quote, 1, "'"),
        tok(Kind::Quote, 1, "'"),
        tok(Kind::Symbol, 3, "bar"),
    ];
    test_tokenize("'foo '' bar", &exp_tokens);
}

#[test]
fn test_multi() {
    let exp_tokens = vec![
        tok(Kind::ListStart, 1, "("),
        tok(Kind::Symbol, 3, "foo"),
        tok(Kind::Boolean, 4, "true"),
        tok(Kind::Invalid, 2, "a,"),
        tok(Kind::Nil, 3, "nil"),
        tok(Kind::String, 3, "abc"),
        tok(Kind::Symbol, 3, "bar"),
        tok(Kind::Boolean, 5, "false"),
        tok(Kind::String, 9, "北京市"),
        tok(Kind::ListEnd, 1, ")"),
    ];
    test_tokenize("(foo true a, nil\"abc\"bar false\"北京市\")", &exp_tokens);
    test_tokenize("(\n\t foo\ttrue\na, \tnil \"abc\" \nbar false\t\"北京市\" \t\t)\r\n", &exp_tokens);
}

#[test]
fn token_vectors_and_symbol_digits() {
    let exp_tokens = vec![
        tok(Kind::VectorStart, 1, "["),
        tok(Kind::Symbol, 2, "a1"),
        tok(Kind::Symbol, 2, "-a"),
        tok(Kind::Symbol, 2, "->"),
        tok(Kind::VectorEnd, 1, "]"),
    ];
    test_tokenize("[a1 -a ->]", &exp_tokens);
}

#[test]
fn token_combining_marks_stay_in_token() {
    let exp_tokens = vec![tok(Kind::Symbol, 3, "e\u{301}")];
    test_tokenize("e\u{301}", &exp_tokens);
}

#[test]
fn tokenize_given_clusters() {
    let clusters: Vec<String> = vec!["(", "a", "b", " ", "\"", "x", "\"", ")"].into_iter().map(|c| c.to_string()).collect();
    let exp_tokens = vec![
        tok(Kind::ListStart, 1, "("),
        tok(Kind::Symbol, 2, "ab"),
        tok(Kind::String, 1, "x"),
        tok(Kind::ListEnd, 1, ")"),
    ];
    assert_eq!(solang::token::tokenize_clusters(&clusters), exp_tokens);
}
