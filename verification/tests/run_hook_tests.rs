use preco::cfg::pre_commit_config::HookConfigurationInfo;
use preco::cfg::pre_commit_hooks::{HookDefinition, Language, LanguageOrUnknown};
use preco::checkout::LoadedCheckout;
use preco::commando::MAX_COMMAND_LENGTH;
use preco::commands::run::RunConfig;
use preco::file_matching::MatchingFiles;
use preco::helpers::{hash_additional_dependencies, CommandError};
use preco::run_hook::node::{get_node_modules_name, node_hook_environment, setup_node_env};
use preco::run_hook::python::{get_venv_name, python_hook_environment, setup_venv};
use preco::run_hook::{
    get_sandbox_name, run_hook, EnvVar, HookRun, ProcessCommand, RunHookCtx, RunHookResult,
};

fn strings(items: &[&str]) -> Vec<String> {
    items.iter().map(|s| s.to_string()).collect()
}

fn hook(language: LanguageOrUnknown, entry: &str) -> HookDefinition {
    HookDefinition {
        id: "say-hi".to_string(),
        name: "Say hi".to_string(),
        description: String::new(),
        entry: entry.to_string(),
        args: vec![],
        language,
        stages: None,
        types: None,
        types_or: None,
        files: None,
        exclude: None,
        pass_filenames: true,
        always_run: false,
        require_serial: false,
        additional_dependencies: vec![],
        minimum_pre_commit_version: None,
    }
}

fn plan(hook: &HookDefinition, files: &[&str], dry_run: bool, verbose: bool, parallelism: usize) -> Result<HookRun, CommandError> {
    let run_config = RunConfig { fail_fast: false, files_re: None, exclude_re: None };
    let loaded_checkout = LoadedCheckout { path: "/cache/x/v1".to_string(), hooks: vec![] };
    let info = HookConfigurationInfo { alias: None, language_version: None, verbose, log_file: None };
    let matching = MatchingFiles::from_paths("/work", &strings(files));
    let rhc = RunHookCtx {
        run_config: &run_config,
        loaded_checkout: &loaded_checkout,
        hook,
        info: &info,
        files: &matching,
        dry_run,
    };
    run_hook(&rhc, parallelism, MAX_COMMAND_LENGTH)
}

fn var(name: &str, value: &str) -> EnvVar {
    EnvVar { name: name.to_string(), value: value.to_string() }
}

#[test]
fn happy_path_python_without_file_names() {
    let mut h = hook(LanguageOrUnknown::Language(Language::Python), "echo hi");
    h.pass_filenames = false;
    match plan(&h, &["a.py", "b.txt"], false, false, 8).unwrap() {
        HookRun::Execute(env, exec) => {
            assert_eq!(exec.commands, strings(&["echo hi"]));
            assert_eq!(exec.work_dir, "/work");
            assert!(!exec.serial);
            assert!(!exec.verbose);
            assert_eq!(env.sandbox.kind, Language::Python);
            assert_eq!(env.sandbox.path, "/cache/x/v1/.preco-venv");
        }
        other => panic!("expected commands to run, got {:?}", other),
    }
}

#[test]
fn file_names_are_appended_to_the_command() {
    let mut h = hook(LanguageOrUnknown::Language(Language::Python), "wc -l");
    h.require_serial = true;
    match plan(&h, &["a.py"], false, true, 8).unwrap() {
        HookRun::Execute(_, exec) => {
            assert_eq!(exec.commands, strings(&["wc -l a.py"]));
            assert!(exec.serial);
            assert!(exec.verbose);
        }
        other => panic!("expected commands to run, got {:?}", other),
    }
}

#[test]
fn the_hooks_arguments_stand_before_the_file_names() {
    let mut h = hook(LanguageOrUnknown::Language(Language::Node), "eslint");
    h.args = strings(&["--fix"]);
    match plan(&h, &["b.js", "a.js"], false, false, 1).unwrap() {
        HookRun::Execute(env, exec) => {
            assert_eq!(exec.commands, strings(&["eslint --fix a.js b.js"]));
            assert_eq!(env.sandbox.kind, Language::Node);
        }
        other => panic!("expected commands to run, got {:?}", other),
    }
}

#[test]
fn commands_are_dealt_out_to_the_workers() {
    let h = hook(LanguageOrUnknown::Language(Language::Python), "wc -l");
    match plan(&h, &["a", "b", "c"], false, false, 2).unwrap() {
        HookRun::Execute(_, exec) => assert_eq!(exec.commands, strings(&["wc -l a c", "wc -l b"])),
        other => panic!("expected commands to run, got {:?}", other),
    }
}

#[test]
fn an_unknown_language_is_skipped() {
    let h = hook(LanguageOrUnknown::Unknown("ruby".to_string()), "rubocop");
    let run = plan(&h, &["a.rb"], false, false, 8).unwrap();
    assert_eq!(run, HookRun::Skipped("Unsupported language: ruby".to_string()));
    assert_eq!(
        run.skipped_result(),
        Some(RunHookResult::Skipped("Unsupported language: ruby".to_string()))
    );
    // even where the entry could not be split
    let h = hook(LanguageOrUnknown::Unknown("ruby".to_string()), "rubocop 'oops");
    assert!(matches!(plan(&h, &[], false, false, 8), Ok(HookRun::Skipped(_))));
}

#[test]
fn a_dry_run_provisions_and_runs_nothing() {
    let h = hook(LanguageOrUnknown::Language(Language::Python), "echo hi");
    let run = plan(&h, &["a.py"], true, false, 8).unwrap();
    match &run {
        HookRun::DryRun(env) => assert_eq!(env, &python_hook_environment("/cache/x/v1", &vec![])),
        other => panic!("expected a dry run, got {:?}", other),
    }
    assert_eq!(run.skipped_result(), Some(RunHookResult::Skipped("dry-run".to_string())));
}

#[test]
fn a_hook_to_run_has_no_skipped_result() {
    let h = hook(LanguageOrUnknown::Language(Language::Python), "echo hi");
    assert_eq!(plan(&h, &["a.py"], false, false, 8).unwrap().skipped_result(), None);
}

#[test]
fn an_entry_with_an_open_quote_is_an_error() {
    let h = hook(LanguageOrUnknown::Language(Language::Python), "echo 'hi");
    assert_eq!(plan(&h, &["a.py"], false, false, 8), Err(CommandError::MissingClosingQuote));
    let h = hook(LanguageOrUnknown::Language(Language::Node), "echo \"hi");
    assert_eq!(plan(&h, &["a.py"], true, false, 8), Err(CommandError::MissingClosingQuote));
}

#[test]
fn sandbox_names_carry_the_hash_of_the_dependencies() {
    assert_eq!(get_venv_name(&vec![]), ".preco-venv");
    assert_eq!(get_node_modules_name(&vec![]), "node_modules_preco");
    let deps = strings(&["foo==1.0"]);
    let hash = hash_additional_dependencies(&deps);
    assert_eq!(get_venv_name(&deps), format!(".preco-venv-{}", hash));
    assert_eq!(get_node_modules_name(&deps), format!("node_modules_preco-{}", hash));
    assert_eq!(get_sandbox_name("base", &deps), format!("base-{}", hash));
}

#[test]
fn additional_dependencies_separate_the_sandboxes() {
    let one = python_hook_environment("/cache/x/v1", &strings(&["foo==1.0"]));
    let two = python_hook_environment("/cache/x/v1", &strings(&["foo==2.0"]));
    assert_ne!(one.sandbox.path, two.sandbox.path);
    assert!(one.sandbox.path.starts_with("/cache/x/v1/.preco-venv-"));
    assert!(two.sandbox.path.starts_with("/cache/x/v1/.preco-venv-"));
    let one = node_hook_environment("/cache/x/v1", &strings(&["foo@1"]));
    let two = node_hook_environment("/cache/x/v1", &strings(&["foo@2"]));
    assert_ne!(one.sandbox.path, two.sandbox.path);
    // the same dependencies share a sandbox
    assert_eq!(
        python_hook_environment("/c", &strings(&["foo==1.0"])),
        python_hook_environment("/c", &strings(&["foo==1.0"]))
    );
}

#[test]
fn python_environment_is_a_virtual_environment_made_by_uv() {
    let deps = strings(&["foo==1.0", "bar"]);
    let env = python_hook_environment("/cache/x/v1", &deps);
    let venv = format!("/cache/x/v1/.preco-venv-{}", hash_additional_dependencies(&deps));
    assert_eq!(env.sandbox.path, venv);
    assert_eq!(
        env.setup,
        vec![
            ProcessCommand {
                program: "uv".to_string(),
                args: vec!["venv".to_string(), venv.clone()],
                env: vec![],
                current_dir: None,
            },
            ProcessCommand {
                program: "uv".to_string(),
                args: strings(&["pip", "install", "-e", "/cache/x/v1", "foo==1.0", "bar"]),
                env: vec![var("VIRTUAL_ENV", &venv)],
                current_dir: None,
            },
        ]
    );
    assert_eq!(env.setup, setup_venv("/cache/x/v1", &venv, &deps));
    assert_eq!(env.env_set, vec![var("VIRTUAL_ENV", &venv)]);
    assert_eq!(env.env_remove, strings(&["PYTHONHOME"]));
    assert_eq!(env.path_prepend, format!("{}/bin", venv));
}

#[test]
fn node_environment_is_a_module_directory_made_by_pnpm() {
    let env = node_hook_environment("/cache/x/v1", &vec![]);
    assert_eq!(env.sandbox.path, "/cache/x/v1/node_modules_preco");
    assert_eq!(
        env.setup,
        vec![ProcessCommand {
            program: "pnpm".to_string(),
            args: strings(&["i", "--modules-dir", "node_modules_preco"]),
            env: vec![var("NPM_UPDATE_NOTIFIER", "false")],
            current_dir: Some("/cache/x/v1".to_string()),
        }]
    );
    assert_eq!(env.env_set, vec![var("NODE_PATH", "/cache/x/v1/node_modules_preco")]);
    assert!(env.env_remove.is_empty());
    assert_eq!(env.path_prepend, "/cache/x/v1/node_modules/.bin");
}

#[test]
fn node_dependencies_are_added_in_a_second_step() {
    let deps = strings(&["left-pad@1", "chalk"]);
    let name = get_node_modules_name(&deps);
    let setup = setup_node_env("/cache/x/v1", &name, &deps);
    assert_eq!(setup.len(), 2);
    assert_eq!(setup[0].args, vec!["i".to_string(), "--modules-dir".to_string(), name.clone()]);
    assert_eq!(
        setup[1],
        ProcessCommand {
            program: "pnpm".to_string(),
            args: vec![
                "add".to_string(),
                "--modules-dir".to_string(),
                name.clone(),
                "left-pad@1".to_string(),
                "chalk".to_string()
            ],
            env: vec![var("NPM_UPDATE_NOTIFIER", "false")],
            current_dir: Some("/cache/x/v1".to_string()),
        }
    );
    assert_eq!(node_hook_environment("/cache/x/v1", &deps).setup, setup);
}

fn ran(success: bool) -> Result<preco::commando::RunCommandOutput, String> {
    Ok(preco::commando::RunCommandOutput {
        command: "c".to_string(),
        stdout: None,
        stderr: None,
        success,
        status: String::new(),
    })
}

#[test]
fn a_hook_ends_as_its_commands_did() {
    let h = hook(LanguageOrUnknown::Language(Language::Python), "echo hi");
    let run = plan(&h, &["a.py"], false, false, 8).unwrap();
    let good = preco::commando::RunCommandOnFilesOutput { results: vec![ran(true), ran(true)] };
    let bad = preco::commando::RunCommandOnFilesOutput { results: vec![ran(true), ran(false)] };
    assert_eq!(run.result(true, Some(&good)), RunHookResult::Success);
    assert_eq!(run.result(true, Some(&bad)), RunHookResult::Failure);
    assert_eq!(run.result(true, None), RunHookResult::Failure);
    assert_eq!(run.result(false, Some(&good)), RunHookResult::Failure);
    assert_eq!(run.result(false, None), RunHookResult::Failure);
}

#[test]
fn a_hook_that_is_not_run_ends_as_skipped_unless_provisioning_failed() {
    let h = hook(LanguageOrUnknown::Language(Language::Python), "echo hi");
    let dry = plan(&h, &["a.py"], true, false, 8).unwrap();
    assert_eq!(dry.result(true, None), RunHookResult::Skipped("dry-run".to_string()));
    assert_eq!(dry.result(false, None), RunHookResult::Failure);
    let unknown = hook(LanguageOrUnknown::Unknown("ruby".to_string()), "rubocop");
    let skipped = plan(&unknown, &["a.rb"], false, false, 8).unwrap();
    assert_eq!(skipped.result(true, None), RunHookResult::Skipped("Unsupported language: ruby".to_string()));
    assert_eq!(skipped.result(false, None), RunHookResult::Skipped("Unsupported language: ruby".to_string()));
}

#[test]
fn a_sandbox_that_is_there_is_not_provisioned_again() {
    let env = python_hook_environment("/cache/x/v1", &strings(&["foo==1.0"]));
    assert_eq!(env.provisioning(false), env.setup);
    assert_eq!(env.provisioning(false).len(), 2);
    assert!(env.provisioning(true).is_empty());
    let env = node_hook_environment("/cache/x/v1", &strings(&["left-pad"]));
    assert_eq!(env.provisioning(false), env.setup);
    assert!(env.provisioning(true).is_empty());
}
