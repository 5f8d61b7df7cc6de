use preco::cfg::parsing::{deserialize_type_list, TypeName};
use preco::cfg::pre_commit_config::{HookDefinitionOverrides, RepoURL};
use preco::cfg::pre_commit_hooks::{
    clone_stages, default_as_true, Language, LanguageOrUnknown, Stage, StageOrUnknown,
};

#[test]
fn pass_filenames_defaults_to_true() {
    assert!(default_as_true());
}

#[test]
fn language_names_are_read() {
    assert_eq!(Language::from_name("node"), Some(Language::Node));
    assert_eq!(Language::from_name("python"), Some(Language::Python));
    assert_eq!(Language::from_name("Python"), None);
    assert_eq!(LanguageOrUnknown::from_name("python"), LanguageOrUnknown::Language(Language::Python));
    assert_eq!(LanguageOrUnknown::from_name("ruby"), LanguageOrUnknown::Unknown("ruby".to_string()));
}

#[test]
fn stage_names_are_read() {
    let cases = [
        ("commit-msg", Stage::CommitMsg),
        ("manual", Stage::Manual),
        ("post-checkout", Stage::PostCheckout),
        ("post-commit", Stage::PostCommit),
        ("post-merge", Stage::PostMerge),
        ("post-rewrite", Stage::PostRewrite),
        ("pre-commit", Stage::PreCommit),
        ("commit", Stage::PreCommit),
        ("pre-merge-commit", Stage::PreMergeCommit),
        ("merge-commit", Stage::PreMergeCommit),
        ("pre-push", Stage::PrePush),
        ("push", Stage::PrePush),
        ("pre-rebase", Stage::PreRebase),
        ("rebase", Stage::PreRebase),
        ("prepare-commit-msg", Stage::PrepareCommitMsg),
    ];
    for (name, stage) in cases {
        assert_eq!(Stage::from_name(name), Some(stage));
        assert_eq!(StageOrUnknown::from_name(name), StageOrUnknown::Stage(stage));
    }
    assert_eq!(Stage::from_name("pre_commit"), None);
    assert_eq!(Stage::from_name(""), None);
    assert_eq!(StageOrUnknown::from_name("weekly"), StageOrUnknown::Unknown("weekly".to_string()));
}

#[test]
fn stages_are_told_apart() {
    assert!(StageOrUnknown::Stage(Stage::PrePush).is_stage(Stage::PrePush));
    assert!(!StageOrUnknown::Stage(Stage::PrePush).is_stage(Stage::PreCommit));
    assert!(!StageOrUnknown::Unknown("pre-push".to_string()).is_stage(Stage::PrePush));
    let stages = vec![StageOrUnknown::Stage(Stage::Manual), StageOrUnknown::Unknown("x".to_string())];
    assert_eq!(clone_stages(&stages), stages);
    assert_eq!(stages[1].duplicate(), stages[1]);
}

#[test]
fn repository_kinds_are_read_and_written() {
    assert_eq!(RepoURL::from_config_value("local"), RepoURL::Local);
    assert_eq!(RepoURL::from_config_value("meta"), RepoURL::Meta);
    assert_eq!(
        RepoURL::from_config_value("https://example.test/x"),
        RepoURL::Url("https://example.test/x".to_string())
    );
    assert_eq!(RepoURL::from_config_value("Local"), RepoURL::Url("Local".to_string()));
    assert_eq!(RepoURL::Local.to_string(), "local");
    assert_eq!(RepoURL::Meta.to_string(), "meta");
    assert_eq!(RepoURL::Url("https://example.test/x".to_string()).to_string(), "https://example.test/x");
    assert_eq!(RepoURL::Url("u".to_string()).duplicate(), RepoURL::Url("u".to_string()));
}

#[test]
fn empty_overrides_set_nothing() {
    let o = HookDefinitionOverrides::none();
    assert!(o.name.is_none() && o.description.is_none() && o.files.is_none());
    assert!(o.exclude.is_none() && o.types.is_none() && o.types_or.is_none());
    assert!(o.exclude_types.is_none() && o.additional_dependencies.is_none());
    assert!(o.args.is_none() && o.stages.is_none() && o.always_run.is_none());
}

#[test]
fn unknown_type_tags_are_dropped_and_reported() {
    let names = vec![
        TypeName { name: "python".to_string(), known: true },
        TypeName { name: "pythn".to_string(), known: false },
        TypeName { name: "text".to_string(), known: true },
    ];
    let list = deserialize_type_list(Some(names));
    assert_eq!(list.types, Some(vec!["python".to_string(), "text".to_string()]));
    assert_eq!(list.unknown, vec!["pythn".to_string()]);
}

#[test]
fn a_missing_type_list_stays_missing() {
    let list = deserialize_type_list(None);
    assert_eq!(list.types, None);
    assert!(list.unknown.is_empty());
    let empty = deserialize_type_list(Some(vec![]));
    assert_eq!(empty.types, Some(vec![]));
}

fn known(names: &[(&str, bool)]) -> Option<Vec<TypeName>> {
    Some(names.iter().map(|(name, known)| TypeName { name: name.to_string(), known: *known }).collect())
}

fn raw_definition() -> preco::cfg::parsing::RawHookDefinition {
    preco::cfg::parsing::RawHookDefinition {
        id: "lint".to_string(),
        name: "Lint".to_string(),
        description: None,
        entry: "tool".to_string(),
        args: None,
        language: "python".to_string(),
        stages: None,
        types: None,
        types_or: None,
        exclude_types: None,
        files: None,
        exclude: None,
        pass_filenames: None,
        always_run: None,
        require_serial: None,
        additional_dependencies: None,
        minimum_pre_commit_version: None,
    }
}

fn raw_configuration(id: &str) -> preco::cfg::parsing::RawHookConfiguration {
    preco::cfg::parsing::RawHookConfiguration {
        id: id.to_string(),
        alias: None,
        language_version: None,
        verbose: None,
        log_file: None,
        name: None,
        description: None,
        files: None,
        exclude: None,
        types: None,
        types_or: None,
        exclude_types: None,
        additional_dependencies: None,
        args: None,
        stages: None,
        always_run: None,
    }
}

#[test]
fn a_manifest_entry_takes_its_defaults() {
    let read = preco::cfg::parsing::read_hook_definition(raw_definition());
    let hook = read.value;
    assert_eq!(hook.id, "lint");
    assert_eq!(hook.description, "");
    assert!(hook.args.is_empty());
    assert_eq!(hook.language, LanguageOrUnknown::Language(Language::Python));
    assert!(hook.pass_filenames);
    assert!(!hook.always_run);
    assert!(!hook.require_serial);
    assert!(hook.additional_dependencies.is_empty());
    assert_eq!(hook.stages, None);
    assert_eq!(hook.types, None);
    assert!(read.unknown_types.is_empty());
}

#[test]
fn a_manifest_entry_keeps_unknown_names_and_drops_unknown_types() {
    let mut raw = raw_definition();
    raw.language = "cobol".to_string();
    raw.stages = Some(vec!["pre-push".to_string(), "weekly".to_string()]);
    raw.types = known(&[("python", true), ("pythn", false)]);
    raw.types_or = known(&[("nope", false)]);
    raw.exclude_types = known(&[("binary", true), ("binry", false)]);
    raw.pass_filenames = Some(false);
    raw.require_serial = Some(true);
    raw.args = Some(vec!["-x".to_string()]);
    let read = preco::cfg::parsing::read_hook_definition(raw);
    assert_eq!(read.value.language, LanguageOrUnknown::Unknown("cobol".to_string()));
    assert_eq!(
        read.value.stages,
        Some(vec![StageOrUnknown::Stage(Stage::PrePush), StageOrUnknown::Unknown("weekly".to_string())])
    );
    assert_eq!(read.value.types, Some(vec!["python".to_string()]));
    assert_eq!(read.value.types_or, Some(vec![]));
    assert!(!read.value.pass_filenames);
    assert!(read.value.require_serial);
    assert_eq!(read.value.args, vec!["-x".to_string()]);
    assert_eq!(read.unknown_types, vec!["pythn".to_string(), "nope".to_string(), "binry".to_string()]);
}

#[test]
fn a_manifest_is_read_in_order() {
    let mut second = raw_definition();
    second.id = "format".to_string();
    second.types = known(&[("x", false)]);
    let read = preco::cfg::parsing::read_manifest(vec![raw_definition(), second]);
    let ids: Vec<&str> = read.value.iter().map(|h| h.id.as_str()).collect();
    assert_eq!(ids, vec!["lint", "format"]);
    assert_eq!(read.unknown_types, vec!["x".to_string()]);
    assert!(preco::commands::run::has_unique_ids(&read.value));
    let twice = preco::cfg::parsing::read_manifest(vec![raw_definition(), raw_definition()]);
    assert!(!preco::commands::run::has_unique_ids(&twice.value));
    assert!(preco::commands::run::has_unique_ids(&vec![]));
}

#[test]
fn a_configured_hook_is_read_with_its_overrides() {
    let mut raw = raw_configuration("lint");
    raw.alias = Some("l".to_string());
    raw.verbose = Some(true);
    raw.types = known(&[("text", true), ("txt", false)]);
    raw.stages = Some(vec!["commit".to_string()]);
    raw.always_run = Some(true);
    let read = preco::cfg::parsing::read_hook_configuration(raw);
    assert_eq!(read.value.id, "lint");
    assert_eq!(read.value.info.alias, Some("l".to_string()));
    assert!(read.value.info.verbose);
    assert_eq!(read.value.overrides.types, Some(vec!["text".to_string()]));
    assert_eq!(read.value.overrides.stages, Some(vec![StageOrUnknown::Stage(Stage::PreCommit)]));
    assert_eq!(read.value.overrides.always_run, Some(true));
    assert_eq!(read.value.overrides.args, None);
    assert_eq!(read.unknown_types, vec!["txt".to_string()]);
    let plain = preco::cfg::parsing::read_hook_configuration(raw_configuration("x"));
    assert!(!plain.value.info.verbose);
    assert_eq!(plain.value.overrides, HookDefinitionOverrides::none());
}

#[test]
fn a_configuration_is_read_repository_by_repository() {
    let mut hook = raw_configuration("lint");
    hook.types_or = known(&[("a", false)]);
    let raw = preco::cfg::parsing::RawConfig {
        minimum_pre_commit_version: Some("3".to_string()),
        fail_fast: None,
        files: Some("^src/".to_string()),
        exclude: None,
        repos: vec![
            preco::cfg::parsing::RawRepo {
                repo: "https://example.test/x".to_string(),
                rev: "v1".to_string(),
                hooks: vec![hook, raw_configuration("format")],
            },
            preco::cfg::parsing::RawRepo { repo: "local".to_string(), rev: "v2".to_string(), hooks: vec![] },
        ],
    };
    let read = preco::cfg::parsing::read_config(raw).unwrap();
    assert!(!read.value.fail_fast);
    assert_eq!(read.value.files, Some("^src/".to_string()));
    assert_eq!(read.value.repos.len(), 2);
    assert_eq!(read.value.repos[0].url, RepoURL::Url("https://example.test/x".to_string()));
    assert_eq!(read.value.repos[0].rev, "v1");
    assert_eq!(read.value.repos[0].hooks.len(), 2);
    assert_eq!(read.value.repos[0].hooks[1].id, "format");
    assert_eq!(read.value.repos[1].url, RepoURL::Local);
    assert_eq!(read.unknown_types, vec!["a".to_string()]);
}

#[test]
fn a_repository_without_a_revision_is_refused() {
    let raw = preco::cfg::parsing::RawRepo { repo: "https://example.test/x".to_string(), rev: String::new(), hooks: vec![] };
    let error = preco::cfg::parsing::ConfigError::EmptyRevision("https://example.test/x".to_string());
    assert_eq!(preco::cfg::parsing::read_repo(raw.clone()), Err(error.clone()));
    assert_eq!(error.message(), "repository https://example.test/x has an empty rev");
    let config = preco::cfg::parsing::RawConfig {
        minimum_pre_commit_version: None,
        fail_fast: Some(true),
        files: None,
        exclude: None,
        repos: vec![
            preco::cfg::parsing::RawRepo { repo: "meta".to_string(), rev: "v1".to_string(), hooks: vec![] },
            raw,
        ],
    };
    assert_eq!(preco::cfg::parsing::read_config(config), Err(error));
}
