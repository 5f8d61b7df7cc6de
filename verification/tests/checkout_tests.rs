use preco::cfg::pre_commit_config::{
    HookConfiguration, HookConfigurationInfo, HookDefinitionOverrides, Repo, RepoURL,
};
use preco::checkout::{
    checkout_in, get_checkout, normalize_repo_url_to_path, Checkout, CheckoutAction,
    CheckoutError,
};
use preco::helpers::hash_additional_dependencies;

fn hook_with_deps(deps: Option<Vec<String>>) -> HookConfiguration {
    let mut overrides = HookDefinitionOverrides::none();
    overrides.additional_dependencies = deps;
    HookConfiguration {
        id: "say-hi".to_string(),
        info: HookConfigurationInfo {
            alias: None,
            language_version: None,
            verbose: false,
            log_file: None,
        },
        overrides,
    }
}

fn example_repo() -> Repo {
    Repo {
        url: RepoURL::Url("https://example.test/x".to_string()),
        rev: "v1".to_string(),
        hooks: vec![],
    }
}

#[test]
fn encoding_follows_the_rules_for_each_character() {
    assert_eq!(normalize_repo_url_to_path("a/b"), "a_b");
    assert_eq!(normalize_repo_url_to_path("a:b"), "a__b");
    assert_eq!(normalize_repo_url_to_path("https://example.test/x"), "https____example.test_x");
    assert_eq!(normalize_repo_url_to_path("v1.2.3"), "v1.2.3");
    assert_eq!(normalize_repo_url_to_path("A-z_0~9"), "A-z_0~9");
    assert_eq!(normalize_repo_url_to_path("a b"), "au20b");
    assert_eq!(normalize_repo_url_to_path("\t"), "u09");
    assert_eq!(normalize_repo_url_to_path("\u{0}"), "u00");
    assert_eq!(normalize_repo_url_to_path("é"), "ue9");
    assert_eq!(normalize_repo_url_to_path("ā"), "u101");
    assert_eq!(normalize_repo_url_to_path("\u{1F600}"), "u1f600");
    assert_eq!(normalize_repo_url_to_path(""), "");
}

#[test]
fn encoding_gives_a_safe_path_segment() {
    let inputs = ["https://example.test/x", "a b/c:d", "ünïcödé/…", "\\back\\slash", "v1"];
    for input in inputs {
        let encoded = normalize_repo_url_to_path(input);
        assert!(encoded
            .chars()
            .all(|c| (c.is_ascii_alphanumeric() || c.is_ascii_punctuation()) && c != '/' && c != ':'));
    }
}

#[test]
fn encoding_tells_the_usual_urls_and_revisions_apart() {
    let inputs = [
        "https://example.test/x",
        "https://example.test/y",
        "http://example.test/x",
        "https://example.test/x/y",
        "https://github.com/pre-commit/pre-commit-hooks",
        "https://github.com/psf/black",
        "v1",
        "v1.0",
        "v1.0.0",
        "main",
        "feature/x",
        "0123abc",
    ];
    for (i, a) in inputs.iter().enumerate() {
        for (j, b) in inputs.iter().enumerate() {
            if i != j {
                assert_ne!(normalize_repo_url_to_path(a), normalize_repo_url_to_path(b));
            }
        }
    }
}

#[test]
fn encoding_is_a_function_of_its_input() {
    let input = "https://example.test/some repo:élan";
    assert_eq!(normalize_repo_url_to_path(input), normalize_repo_url_to_path(input));
}

#[test]
fn checkout_path_has_one_directory_per_repository_and_revision() {
    let co = checkout_in("/cache/checkouts", &example_repo(), &hook_with_deps(None));
    assert_eq!(co.path, "/cache/checkouts/https____example.test_x/v1");
    assert_eq!(co.repo_url, RepoURL::Url("https://example.test/x".to_string()));
    assert_eq!(co.repo_rev, "v1");
}

#[test]
fn checkout_path_without_dependencies_has_no_hash() {
    let co = checkout_in("/c", &example_repo(), &hook_with_deps(Some(vec![])));
    assert_eq!(co.path, "/c/https____example.test_x/v1");
}

#[test]
fn checkout_path_carries_the_hash_of_the_dependencies() {
    let deps = vec!["foo==1.0".to_string()];
    let co = checkout_in("/c", &example_repo(), &hook_with_deps(Some(deps.clone())));
    let expected = format!("/c/https____example.test_x/v1+{}", hash_additional_dependencies(&deps));
    assert_eq!(co.path, expected);
}

#[test]
fn different_dependencies_get_different_checkouts() {
    let one = checkout_in("/c", &example_repo(), &hook_with_deps(Some(vec!["foo==1.0".to_string()])));
    let two = checkout_in("/c", &example_repo(), &hook_with_deps(Some(vec!["foo==2.0".to_string()])));
    assert_ne!(one.path, two.path);
}

#[test]
fn asking_twice_gives_the_same_path_and_clones_at_most_once() {
    let hook = hook_with_deps(Some(vec!["foo==1.0".to_string()]));
    let first = checkout_in("/c", &example_repo(), &hook);
    let second = checkout_in("/c", &example_repo(), &hook);
    assert_eq!(first.path, second.path);
    assert!(matches!(first.ensure_checkout_cloned(false), Ok(CheckoutAction::Clone(_))));
    assert_eq!(second.ensure_checkout_cloned(true), Ok(CheckoutAction::UseExisting));
}

#[test]
fn local_and_meta_repositories_are_not_implemented() {
    let local = Checkout { repo_url: RepoURL::Local, repo_rev: "v1".to_string(), path: "/p".to_string() };
    let meta = Checkout { repo_url: RepoURL::Meta, repo_rev: "v1".to_string(), path: "/p".to_string() };
    assert_eq!(local.ensure_checkout_cloned(false), Err(CheckoutError::LocalNotImplemented));
    assert_eq!(local.ensure_checkout_cloned(true), Err(CheckoutError::LocalNotImplemented));
    assert_eq!(meta.ensure_checkout_cloned(false), Err(CheckoutError::MetaNotImplemented));
    assert_eq!(CheckoutError::LocalNotImplemented.message(), "not implemented: local repos");
    assert_eq!(CheckoutError::MetaNotImplemented.message(), "not implemented: meta repos");
}

#[test]
fn other_schemes_are_refused_even_if_the_directory_exists() {
    let co = Checkout {
        repo_url: RepoURL::Url("git@example.test:x.git".to_string()),
        repo_rev: "v1".to_string(),
        path: "/p".to_string(),
    };
    let expected = Err(CheckoutError::UnsupportedScheme("git@example.test:x.git".to_string()));
    assert_eq!(co.ensure_checkout_cloned(false), expected);
    assert_eq!(co.ensure_checkout_cloned(true), expected);
    assert_eq!(
        CheckoutError::UnsupportedScheme("ftp://x".to_string()).message(),
        "unsupported URL scheme: ftp://x"
    );
}

#[test]
fn a_missing_checkout_is_cloned_shallowly_at_the_revision() {
    let co = Checkout {
        repo_url: RepoURL::Url("http://example.test/x".to_string()),
        repo_rev: "v1".to_string(),
        path: "/cache/x/v1".to_string(),
    };
    let expected: Vec<String> = [
        "clone",
        "--depth=1",
        "--branch",
        "v1",
        "-c",
        "advice.detachedHead=false",
        "http://example.test/x",
        "/cache/x/v1",
    ]
    .iter()
    .map(|s| s.to_string())
    .collect();
    assert_eq!(co.ensure_checkout_cloned(false), Ok(CheckoutAction::Clone(expected)));
}

#[test]
fn manifest_lies_in_the_checkout() {
    let co = Checkout { repo_url: RepoURL::Local, repo_rev: "v1".to_string(), path: "/p/q".to_string() };
    assert_eq!(co.manifest_path(), "/p/q/.pre-commit-hooks.yaml");
    let loaded = co.load(vec![]);
    assert_eq!(loaded.path, "/p/q");
    assert!(loaded.hooks.is_empty());
}

#[test]
fn checkout_in_the_users_cache_lies_under_checkouts() {
    if let Some(co) = get_checkout(&example_repo(), &hook_with_deps(None)) {
        assert!(co.path.ends_with("/checkouts/https____example.test_x/v1"));
        assert_eq!(co.repo_rev, "v1");
    }
}

#[test]
fn the_lock_file_lies_beside_the_directory() {
    assert_eq!(preco::checkout::lock_path("/cache/x/v1"), "/cache/x/v1.lock");
}
