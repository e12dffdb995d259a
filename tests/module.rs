use solang::module::{entry_from_symbol, from_filename};

#[test]
fn test_from_filename_flat() {
    let exp = "foo-module".to_string();
    let act = from_filename("foo-module.sol");
    assert_eq!(exp, act);
}

#[test]
fn test_entry_from_symbol_flat() {
    let exp = vec!["foo".to_string(), "fooval".to_string()];
    let act = entry_from_symbol(&"foo/fooval".to_string());
    assert_eq!(exp, act);
}

#[test]
fn from_filename_strips_directory_and_extension() {
    assert_eq!(from_filename("lib/std/list.sol"), "list");
    assert_eq!(from_filename("a.b.sol"), "a.b");
    assert_eq!(from_filename(".hidden"), ".hidden");
    assert_eq!(from_filename("plain"), "plain");
}

#[test]
fn entry_from_symbol_pieces() {
    assert_eq!(entry_from_symbol(&"x".to_string()), vec!["x".to_string()]);
    assert_eq!(entry_from_symbol(&"a/b/c".to_string()), vec!["a".to_string(), "b".to_string(), "c".to_string()]);
}
