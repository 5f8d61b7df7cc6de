use preco::regex_cache::{get_regex_with_warning, RegexCache};

#[test]
fn two_lookups_of_one_pattern_give_the_same_regex() {
    let mut cache = RegexCache::new();
    let first = cache.get_regex("^a+b$").unwrap();
    let second = cache.get_regex("^a+b$").unwrap();
    assert_eq!(first.as_str(), "^a+b$");
    assert_eq!(first.as_str(), second.as_str());
    for text in ["ab", "aaab", "b", "abc", ""] {
        assert_eq!(first.is_match(text), second.is_match(text));
    }
    assert!(first.is_match("aab"));
    assert!(!first.is_match("ba"));
    assert_eq!(cache.len(), 1);
}

#[test]
fn each_pattern_is_cached_once() {
    let mut cache = RegexCache::new();
    assert_eq!(cache.len(), 0);
    assert!(cache.get_regex("a").is_ok());
    assert!(cache.get_regex("b").is_ok());
    assert!(cache.get_regex("a").is_ok());
    assert_eq!(cache.len(), 2);
}

#[test]
fn a_pattern_that_does_not_compile_fails_every_time() {
    let mut cache = RegexCache::new();
    let first = cache.get_regex("(").err().unwrap();
    let second = cache.get_regex("(").err().unwrap();
    assert_eq!(first, second);
    assert!(!first.is_empty());
    assert_eq!(cache.len(), 1);
}

#[test]
fn no_pattern_gives_no_regex_and_no_warning() {
    let mut cache = RegexCache::new();
    let lookup = get_regex_with_warning(&mut cache, None, "prefix");
    assert!(lookup.regex.is_none());
    assert!(lookup.warning.is_none());
    assert_eq!(cache.len(), 0);
}

#[test]
fn a_good_pattern_gives_its_regex() {
    let mut cache = RegexCache::new();
    let lookup = get_regex_with_warning(&mut cache, Some("^vendor/"), "prefix");
    assert!(lookup.warning.is_none());
    let re = lookup.regex.unwrap();
    assert!(re.is_match("vendor/a.py"));
    assert!(!re.is_match("src/vendor/a.py"));
}

#[test]
fn a_bad_pattern_gives_a_warning_with_the_prefix() {
    let mut cache = RegexCache::new();
    let lookup = get_regex_with_warning(&mut cache, Some("["), "unable to compile regex for `files`");
    assert!(lookup.regex.is_none());
    assert!(lookup.warning.unwrap().starts_with("unable to compile regex for `files`: "));
}
