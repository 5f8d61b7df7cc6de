use preco::cfg::pre_commit_config::{
    HookConfiguration, HookConfigurationInfo, HookDefinitionOverrides, PrecommitConfig, Repo,
    RepoURL,
};
use preco::cfg::pre_commit_hooks::{
    HookDefinition, Language, LanguageOrUnknown, Stage, StageOrUnknown,
};
use preco::checkout::LoadedCheckout;
use preco::commands::run::{
    configure_repo_hook, error_report, hook_checkout, hook_runs_in_stage, is_hook_selected,
    selected_stage, start_run, unhonoured_options, HookConfigured, HookState, RunArgs, RunConfig,
    RunOutcome, RunProgress, RunStart, RunStep, SkipReason, UnknownStage,
};
use preco::file_set::{ClassifiedFile, FileSet};
use preco::regex_cache::RegexCache;
use preco::run_hook::RunHookResult;

fn strings(items: &[&str]) -> Vec<String> {
    items.iter().map(|s| s.to_string()).collect()
}

fn args(stage: Option<&str>) -> RunArgs {
    RunArgs { all_files: true, dry_run: false, hooks: None, git_hook_stage: stage.map(|s| s.to_string()) }
}

fn configured(id: &str, alias: Option<&str>) -> HookConfiguration {
    HookConfiguration {
        id: id.to_string(),
        info: HookConfigurationInfo {
            alias: alias.map(|s| s.to_string()),
            language_version: None,
            verbose: false,
            log_file: None,
        },
        overrides: HookDefinitionOverrides::none(),
    }
}

fn published(id: &str) -> HookDefinition {
    HookDefinition {
        id: id.to_string(),
        name: id.to_string(),
        description: String::new(),
        entry: "tool".to_string(),
        args: vec![],
        language: LanguageOrUnknown::Language(Language::Python),
        stages: None,
        types: None,
        types_or: None,
        files: None,
        exclude: None,
        pass_filenames: true,
        always_run: false,
        require_serial: false,
        additional_dependencies: vec![],
        minimum_pre_commit_version: None,
    }
}

fn file_set() -> FileSet {
    let files = vec![
        ClassifiedFile { path: "a.py".to_string(), extension_types: strings(&["python", "text"]), name_types: vec![] },
        ClassifiedFile { path: "b.txt".to_string(), extension_types: strings(&["text"]), name_types: vec![] },
    ];
    FileSet::from_raw_files("/work", &files)
}

fn plain_run_config() -> RunConfig {
    RunConfig { fail_fast: false, files_re: None, exclude_re: None }
}

fn started(fail_fast: bool, hooks: usize) -> RunProgress {
    let items: Vec<usize> = (0..hooks).collect();
    match start_run(fail_fast, vec![Ok(items)]) {
        RunStart::Started(_, progress) => progress,
        other => panic!("expected the run to start, got {:?}", other),
    }
}

fn next(step: RunStep) -> RunProgress {
    match step {
        RunStep::Next(progress) => progress,
        RunStep::Finish(outcome) => panic!("expected another hook, got {:?}", outcome),
    }
}

#[test]
fn the_stage_is_read_from_the_command_line() {
    assert_eq!(selected_stage(&args(None)), Ok(None));
    assert_eq!(selected_stage(&args(Some("pre-commit"))), Ok(Some(Stage::PreCommit)));
    assert_eq!(selected_stage(&args(Some("push"))), Ok(Some(Stage::PrePush)));
    let unknown = UnknownStage { name: "weekly".to_string() };
    assert_eq!(selected_stage(&args(Some("weekly"))), Err(unknown.clone()));
    assert_eq!(unknown.message(), "unknown stage: weekly");
}

#[test]
fn without_a_choice_every_hook_is_selected() {
    assert!(is_hook_selected(&None, &configured("lint", None)));
    assert!(is_hook_selected(&None, &configured("lint", Some("l"))));
}

#[test]
fn hooks_are_chosen_by_id_or_alias() {
    let chosen = Some(strings(&["lint", "f"]));
    assert!(is_hook_selected(&chosen, &configured("lint", None)));
    assert!(is_hook_selected(&chosen, &configured("format", Some("f"))));
    assert!(is_hook_selected(&chosen, &configured("lint", Some("other"))));
    assert!(!is_hook_selected(&chosen, &configured("format", None)));
    assert!(!is_hook_selected(&chosen, &configured("format", Some("fmt"))));
    assert!(!is_hook_selected(&Some(vec![]), &configured("lint", Some("l"))));
}

#[test]
fn a_hook_runs_in_its_stages_only() {
    let stages = Some(vec![StageOrUnknown::Stage(Stage::PrePush), StageOrUnknown::Unknown("x".to_string())]);
    assert!(hook_runs_in_stage(&stages, &Some(Stage::PrePush)));
    assert!(!hook_runs_in_stage(&stages, &Some(Stage::PreCommit)));
    assert!(hook_runs_in_stage(&stages, &None));
    assert!(hook_runs_in_stage(&None, &Some(Stage::PreCommit)));
    assert!(hook_runs_in_stage(&None, &None));
    assert!(!hook_runs_in_stage(&Some(vec![]), &Some(Stage::PreCommit)));
}

#[test]
fn a_selected_hook_gets_its_checkout() {
    let repo = Repo { url: RepoURL::Url("https://example.test/x".to_string()), rev: "v1".to_string(), hooks: vec![] };
    let co = hook_checkout("/c", &repo, &configured("lint", None), &None).unwrap();
    assert_eq!(co.path, "/c/https____example.test_x/v1");
    assert_eq!(
        hook_checkout("/c", &repo, &configured("lint", None), &Some(strings(&["other"]))),
        Err(SkipReason::NotSelected)
    );
    assert_eq!(SkipReason::NotSelected.message(), "command line selecting hooks");
    assert_eq!(SkipReason::StageNotSelected.message(), "selected-stage configuration");
}

#[test]
fn the_run_configuration_compiles_the_projects_patterns() {
    let config = PrecommitConfig {
        minimum_pre_commit_version: None,
        fail_fast: true,
        files: Some("^src/".to_string()),
        exclude: Some("^vendor/".to_string()),
        repos: vec![],
    };
    let mut cache = RegexCache::new();
    let (rc, warnings) = RunConfig::from_config(&config, &mut cache);
    assert!(rc.fail_fast);
    assert_eq!(rc.files_re.unwrap().as_str(), "^src/");
    assert_eq!(rc.exclude_re.unwrap().as_str(), "^vendor/");
    assert!(warnings.is_empty());
    assert_eq!(cache.len(), 2);
}

#[test]
fn a_project_pattern_that_does_not_compile_is_left_out_with_a_warning() {
    let config = PrecommitConfig {
        minimum_pre_commit_version: None,
        fail_fast: false,
        files: Some("(".to_string()),
        exclude: None,
        repos: vec![],
    };
    let mut cache = RegexCache::new();
    let (rc, warnings) = RunConfig::from_config(&config, &mut cache);
    assert!(rc.files_re.is_none());
    assert!(rc.exclude_re.is_none());
    assert_eq!(warnings.len(), 1);
    assert!(warnings[0].starts_with("unable to compile regex for `files`: "));
}

#[test]
fn a_hook_with_files_is_ready() {
    let loaded = LoadedCheckout { path: "/cache/x/v1".to_string(), hooks: vec![published("lint")] };
    let mut cache = RegexCache::new();
    let hc = configured("lint", None);
    let r = configure_repo_hook(&plain_run_config(), &None, &file_set(), loaded, &hc, &mut cache);
    match r.unwrap() {
        HookConfigured::Ready(ready) => {
            assert_eq!(ready.hook, published("lint"));
            assert_eq!(ready.hook_cfg, &hc);
            assert_eq!(ready.loaded_checkout.path, "/cache/x/v1");
            assert_eq!(ready.matching_files.files(), &strings(&["a.py", "b.txt"]));
        }
        other => panic!("expected a ready hook, got {:?}", other),
    }
}

#[test]
fn a_hook_without_matching_files_is_skipped() {
    let mut def = published("lint");
    def.types = Some(strings(&["yaml"]));
    let loaded = LoadedCheckout { path: "/cache/x/v1".to_string(), hooks: vec![def] };
    let mut cache = RegexCache::new();
    let hc = configured("lint", None);
    let r = configure_repo_hook(&plain_run_config(), &None, &file_set(), loaded, &hc, &mut cache);
    assert!(matches!(r, Ok(HookConfigured::Skipped(SkipReason::NoMatchingFiles))));
    assert_eq!(SkipReason::NoMatchingFiles.message(), "no matching files");
}

#[test]
fn a_hook_of_another_stage_is_skipped() {
    let mut def = published("lint");
    def.stages = Some(vec![StageOrUnknown::Stage(Stage::PrePush)]);
    let loaded = LoadedCheckout { path: "/cache/x/v1".to_string(), hooks: vec![def] };
    let mut cache = RegexCache::new();
    let hc = configured("lint", None);
    let r = configure_repo_hook(
        &plain_run_config(),
        &Some(Stage::PreCommit),
        &file_set(),
        loaded,
        &hc,
        &mut cache,
    );
    assert!(matches!(r, Ok(HookConfigured::Skipped(SkipReason::StageNotSelected))));
}

#[test]
fn a_hook_that_the_manifest_lacks_fails_the_configuration() {
    let loaded = LoadedCheckout { path: "/cache/x/v1".to_string(), hooks: vec![published("lint")] };
    let mut cache = RegexCache::new();
    let hc = configured("nope", None);
    let r = configure_repo_hook(&plain_run_config(), &None, &file_set(), loaded, &hc, &mut cache);
    assert_eq!(r.err().unwrap().message(), "hook nope not found in checkout /cache/x/v1");
}

#[test]
fn without_repositories_there_is_nothing_to_run() {
    let start: RunStart<usize> = start_run(false, vec![]);
    assert!(matches!(start, RunStart::Finished(RunOutcome::NothingToRun, errors) if errors.is_empty()));
    assert_eq!(RunOutcome::NothingToRun.exit_code(), 0);
}

#[test]
fn a_repository_that_failed_stops_the_run_before_any_hook() {
    let results = vec![Ok(vec![1usize, 2]), Err("clone failed".to_string()), Err("no manifest".to_string())];
    match start_run(false, results) {
        RunStart::Finished(outcome, errors) => {
            assert_eq!(outcome, RunOutcome::ConfigurationFailed);
            assert_eq!(errors, strings(&["clone failed", "no manifest"]));
            assert_eq!(outcome.exit_code(), 1);
        }
        other => panic!("expected the run to end, got {:?}", other),
    }
}

#[test]
fn repositories_without_ready_hooks_complete_at_once() {
    let results: Vec<Result<Vec<usize>, String>> = vec![Ok(vec![]), Ok(vec![])];
    assert!(matches!(start_run(true, results), RunStart::Finished(RunOutcome::Completed(0), _)));
    assert_eq!(RunOutcome::Completed(0).exit_code(), 0);
}

#[test]
fn hooks_run_in_the_order_of_the_configuration() {
    let results = vec![Ok(vec!["a", "b"]), Ok(vec![]), Ok(vec!["c"])];
    match start_run(false, results) {
        RunStart::Started(hooks, progress) => {
            assert_eq!(hooks, vec!["a", "b", "c"]);
            assert_eq!(progress.pending(), 0);
            let progress = next(progress.record(&RunHookResult::Success));
            assert_eq!(progress.pending(), 1);
            let progress = next(progress.record(&RunHookResult::Skipped("dry-run".to_string())));
            assert_eq!(progress.pending(), 2);
            assert_eq!(progress.record(&RunHookResult::Success), RunStep::Finish(RunOutcome::Completed(0)));
        }
        other => panic!("expected the run to start, got {:?}", other),
    }
}

#[test]
fn fail_fast_stops_at_the_first_failure() {
    let progress = started(true, 2);
    assert_eq!(progress.pending(), 0);
    let step = progress.record(&RunHookResult::Failure);
    assert_eq!(step, RunStep::Finish(RunOutcome::StoppedAtFailure));
    assert_eq!(RunOutcome::StoppedAtFailure.exit_code(), 1);
}

#[test]
fn without_fail_fast_failures_are_counted_and_the_run_goes_on() {
    let progress = started(false, 3);
    let progress = next(progress.record(&RunHookResult::Failure));
    assert_eq!(progress.pending(), 1);
    let progress = next(progress.record(&RunHookResult::Success));
    assert_eq!(progress.pending(), 2);
    let step = progress.record(&RunHookResult::Failure);
    assert_eq!(step, RunStep::Finish(RunOutcome::Completed(2)));
    assert_eq!(RunOutcome::Completed(2).exit_code(), 1);
}

#[test]
fn fail_fast_does_not_stop_at_success_or_skip() {
    let progress = started(true, 2);
    let progress = next(progress.record(&RunHookResult::Skipped("Unsupported language: x".to_string())));
    assert_eq!(progress.pending(), 1);
    assert_eq!(progress.record(&RunHookResult::Success), RunStep::Finish(RunOutcome::Completed(0)));
}

#[test]
fn exit_codes() {
    assert_eq!(RunOutcome::NothingToRun.exit_code(), 0);
    assert_eq!(RunOutcome::Completed(0).exit_code(), 0);
    assert_eq!(RunOutcome::Completed(1).exit_code(), 1);
    assert_eq!(RunOutcome::ConfigurationFailed.exit_code(), 1);
    assert_eq!(RunOutcome::StoppedAtFailure.exit_code(), 1);
}

#[test]
fn options_that_are_not_honoured_are_named() {
    let mut hc = configured("lint", None);
    let def = published("lint");
    assert!(unhonoured_options(&hc, &def).is_empty());
    hc.info.log_file = Some("out.log".to_string());
    hc.info.language_version = Some("3.12".to_string());
    hc.overrides.exclude_types = Some(vec![]);
    let mut always = published("lint");
    always.always_run = true;
    assert_eq!(
        unhonoured_options(&hc, &always),
        strings(&["exclude_types", "always_run", "log_file", "language_version"])
    );
    hc.info.log_file = None;
    assert_eq!(unhonoured_options(&hc, &def), strings(&["exclude_types", "language_version"]));
}

#[test]
fn an_error_is_shown_with_its_causes() {
    assert_eq!(
        error_report(&strings(&["could not parse config", "bad yaml", "line 3"])),
        strings(&["error: could not parse config", "  Caused by: bad yaml", "  Caused by: line 3"])
    );
    assert_eq!(error_report(&strings(&["boom"])), strings(&["error: boom"]));
    assert!(error_report(&vec![]).is_empty());
}

#[test]
fn a_hook_passes_through_its_states() {
    let loaded = LoadedCheckout { path: "/cache/x/v1".to_string(), hooks: vec![published("lint")] };
    let mut cache = RegexCache::new();
    let hc = configured("lint", None);
    let ready = configure_repo_hook(&plain_run_config(), &None, &file_set(), loaded, &hc, &mut cache);
    assert_eq!(HookState::after_configuring(&ready), HookState::Ready);
    let mut def = published("lint");
    def.types = Some(strings(&["yaml"]));
    let loaded = LoadedCheckout { path: "/cache/x/v1".to_string(), hooks: vec![def] };
    let skipped = configure_repo_hook(&plain_run_config(), &None, &file_set(), loaded, &hc, &mut cache);
    assert_eq!(HookState::after_configuring(&skipped), HookState::Skipped("no matching files".to_string()));
    let loaded = LoadedCheckout { path: "/cache/x/v1".to_string(), hooks: vec![] };
    let failed = configure_repo_hook(&plain_run_config(), &None, &file_set(), loaded, &hc, &mut cache);
    assert_eq!(
        HookState::after_configuring(&failed),
        HookState::Failed("hook lint not found in checkout /cache/x/v1".to_string())
    );
    assert_eq!(HookState::after_running(&RunHookResult::Success), HookState::Success);
    assert_eq!(HookState::after_running(&RunHookResult::Failure), HookState::Failure);
    assert_eq!(
        HookState::after_running(&RunHookResult::Skipped("dry-run".to_string())),
        HookState::Skipped("dry-run".to_string())
    );
}
