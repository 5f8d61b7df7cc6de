use preco::cfg::pre_commit_config::{HookConfiguration, HookConfigurationInfo, HookDefinitionOverrides};
use preco::cfg::pre_commit_hooks::{
    HookDefinition, Language, LanguageOrUnknown, Stage, StageOrUnknown,
};
use preco::checkout::LoadedCheckout;
use preco::commands::run::{merge_hook_definition, ResolveError};
use preco::run_hook::configured_hook::configure_hook;
use preco::run_hook::helpers::{get_command, get_merged_command};
use preco::helpers::CommandError;

fn published(id: &str) -> HookDefinition {
    HookDefinition {
        id: id.to_string(),
        name: "Published name".to_string(),
        description: "Published description".to_string(),
        entry: "tool --check".to_string(),
        args: vec!["--published".to_string()],
        language: LanguageOrUnknown::Language(Language::Python),
        stages: Some(vec![StageOrUnknown::Stage(Stage::PreCommit)]),
        types: Some(vec!["python".to_string()]),
        types_or: None,
        files: Some(".*\\.py$".to_string()),
        exclude: None,
        pass_filenames: true,
        always_run: false,
        require_serial: true,
        additional_dependencies: vec!["dep==1".to_string()],
        minimum_pre_commit_version: Some("3.0".to_string()),
    }
}

fn configured(id: &str, overrides: HookDefinitionOverrides) -> HookConfiguration {
    HookConfiguration {
        id: id.to_string(),
        info: HookConfigurationInfo {
            alias: None,
            language_version: None,
            verbose: false,
            log_file: None,
        },
        overrides,
    }
}

fn checkout(hooks: Vec<HookDefinition>) -> LoadedCheckout {
    LoadedCheckout { path: "/cache/x/v1".to_string(), hooks }
}

#[test]
fn without_overrides_the_published_definition_is_kept() {
    let co = checkout(vec![published("other"), published("lint")]);
    let merged = merge_hook_definition(&co, &configured("lint", HookDefinitionOverrides::none()));
    assert_eq!(merged, Ok(published("lint")));
}

#[test]
fn overrides_replace_the_published_values() {
    let overrides = HookDefinitionOverrides {
        name: Some("Mine".to_string()),
        description: Some("My description".to_string()),
        files: Some("^src/".to_string()),
        exclude: Some("^src/gen/".to_string()),
        types: Some(vec!["text".to_string()]),
        types_or: Some(vec!["yaml".to_string(), "json".to_string()]),
        exclude_types: Some(vec!["binary".to_string()]),
        additional_dependencies: Some(vec!["dep==2".to_string(), "more".to_string()]),
        args: Some(vec!["--mine".to_string()]),
        stages: Some(vec![StageOrUnknown::Stage(Stage::PrePush)]),
        always_run: Some(true),
    };
    let co = checkout(vec![published("lint")]);
    let merged = merge_hook_definition(&co, &configured("lint", overrides)).unwrap();
    let expected = HookDefinition {
        id: "lint".to_string(),
        name: "Mine".to_string(),
        description: "My description".to_string(),
        entry: "tool --check".to_string(),
        args: vec!["--mine".to_string()],
        language: LanguageOrUnknown::Language(Language::Python),
        stages: Some(vec![StageOrUnknown::Stage(Stage::PrePush)]),
        types: Some(vec!["text".to_string()]),
        types_or: Some(vec!["yaml".to_string(), "json".to_string()]),
        files: Some("^src/".to_string()),
        exclude: Some("^src/gen/".to_string()),
        pass_filenames: true,
        always_run: true,
        require_serial: true,
        additional_dependencies: vec!["dep==2".to_string(), "more".to_string()],
        minimum_pre_commit_version: Some("3.0".to_string()),
    };
    assert_eq!(merged, expected);
}

#[test]
fn configured_arguments_replace_and_never_append() {
    let mut overrides = HookDefinitionOverrides::none();
    overrides.args = Some(vec![]);
    let co = checkout(vec![published("lint")]);
    let merged = merge_hook_definition(&co, &configured("lint", overrides)).unwrap();
    assert!(merged.args.is_empty());
}

#[test]
fn the_first_definition_with_the_id_is_taken() {
    let mut second = published("lint");
    second.name = "Second".to_string();
    let co = checkout(vec![published("lint"), second]);
    let merged = merge_hook_definition(&co, &configured("lint", HookDefinitionOverrides::none()));
    assert_eq!(merged.unwrap().name, "Published name");
}

#[test]
fn a_hook_that_the_manifest_lacks_is_an_error() {
    let co = checkout(vec![published("lint")]);
    let err = merge_hook_definition(&co, &configured("format", HookDefinitionOverrides::none()));
    let expected = ResolveError { hook_id: "format".to_string(), checkout_path: "/cache/x/v1".to_string() };
    assert_eq!(err, Err(expected.clone()));
    assert_eq!(expected.message(), "hook format not found in checkout /cache/x/v1");
    assert!(merge_hook_definition(&checkout(vec![]), &configured("lint", HookDefinitionOverrides::none())).is_err());
}

#[test]
fn configure_hook_resolves_like_the_merge() {
    let co = checkout(vec![published("lint")]);
    let hc = configured("lint", HookDefinitionOverrides::none());
    assert_eq!(configure_hook(&co, &hc).unwrap().hook, published("lint"));
    assert!(configure_hook(&co, &configured("nope", HookDefinitionOverrides::none())).is_err());
}

#[test]
fn the_command_is_the_entry_with_the_arguments() {
    let def = published("lint");
    let hc = configured("lint", HookDefinitionOverrides::none());
    assert_eq!(get_command(&hc, &def), Ok("tool --check --published".to_string()));
    assert_eq!(get_merged_command(&def), Ok("tool --check --published".to_string()));
}

#[test]
fn configured_arguments_win_in_the_command() {
    let def = published("lint");
    let mut overrides = HookDefinitionOverrides::none();
    overrides.args = Some(vec!["--mine".to_string(), "-v".to_string()]);
    let hc = configured("lint", overrides);
    assert_eq!(get_command(&hc, &def), Ok("tool --check --mine -v".to_string()));
}

#[test]
fn an_entry_with_an_open_quote_gives_no_command() {
    let mut def = published("lint");
    def.entry = "tool 'oops".to_string();
    let hc = configured("lint", HookDefinitionOverrides::none());
    assert_eq!(get_command(&hc, &def), Err(CommandError::MissingClosingQuote));
    assert_eq!(get_merged_command(&def), Err(CommandError::MissingClosingQuote));
}
