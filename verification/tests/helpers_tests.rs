use preco::dirs::{checkouts_dir_in, get_cache_dir, get_checkouts_dir};
use preco::helpers::{
    append_args, command_from_words, digest_text, hash_additional_dependencies, CommandError,
};

fn strings(items: &[&str]) -> Vec<String> {
    items.iter().map(|s| s.to_string()).collect()
}

#[test]
fn append_args_splits_the_entry_and_quotes_the_arguments() {
    assert_eq!(append_args("echo hi", &strings(&["--flag"])), Ok("echo hi --flag".to_string()));
    assert_eq!(append_args("  echo   hi  ", &vec![]), Ok("echo hi".to_string()));
    assert_eq!(append_args("sh -c 'a b'", &vec![]), Ok("sh -c 'a b'".to_string()));
}

#[test]
fn append_args_quotes_arguments_twice_over() {
    let args = strings(&["--flag", "two words"]);
    assert_eq!(append_args("echo hi", &args), Ok("echo hi --flag ''\\''two words'\\'''".to_string()));
}

#[test]
fn append_args_refuses_an_open_quote() {
    assert_eq!(append_args("echo 'hi", &vec![]), Err(CommandError::MissingClosingQuote));
    assert_eq!(append_args("echo \"hi", &vec![]), Err(CommandError::MissingClosingQuote));
    assert_eq!(CommandError::MissingClosingQuote.message(), "missing closing quote");
}

#[test]
fn words_are_quoted_only_where_the_shell_needs_it() {
    assert_eq!(command_from_words(strings(&["a.py"]), &vec![]), "a.py");
    assert_eq!(command_from_words(strings(&["a b"]), &vec![]), "'a b'");
    assert_eq!(command_from_words(strings(&[""]), &vec![]), "''");
    assert_eq!(command_from_words(strings(&["it's"]), &vec![]), "'it'\\''s'");
    assert_eq!(command_from_words(strings(&["a\nb"]), &vec![]), "'a\nb'");
    assert_eq!(command_from_words(strings(&["x=1"]), &vec![]), "'x=1'");
    assert_eq!(command_from_words(strings(&["a", "b"]), &vec![]), "a b");
    assert_eq!(command_from_words(vec![], &vec![]), "");
}

#[test]
fn dependency_hash_is_lowercase_hex_and_stable() {
    let deps = strings(&["foo==1.0"]);
    let first = hash_additional_dependencies(&deps);
    let second = hash_additional_dependencies(&deps);
    assert_eq!(first, second);
    assert!(!first.is_empty());
    assert!(first.chars().all(|c| c.is_ascii_digit() || ('a'..='f').contains(&c)));
    assert_eq!(hash_additional_dependencies(&vec![]), "0");
}

#[test]
fn dependency_hash_tells_dependency_lists_apart() {
    let one = hash_additional_dependencies(&strings(&["foo==1.0"]));
    let two = hash_additional_dependencies(&strings(&["foo==2.0"]));
    let split = hash_additional_dependencies(&strings(&["foo", "==1.0"]));
    assert_ne!(one, two);
    assert_ne!(one, split);
}

#[test]
fn digest_text_is_lowercase_hex() {
    assert_eq!(digest_text(0), "0");
    assert_eq!(digest_text(0xABCDEF), "abcdef");
}

#[test]
fn checkouts_lie_under_the_cache_directory() {
    assert_eq!(checkouts_dir_in("/home/u/.cache/preco"), "/home/u/.cache/preco/checkouts");
    match (get_cache_dir(), get_checkouts_dir()) {
        (Some(cache), Some(checkouts)) => assert_eq!(checkouts, format!("{}/checkouts", cache)),
        (None, None) => {}
        _ => panic!("the two directories are there together or not at all"),
    }
}
