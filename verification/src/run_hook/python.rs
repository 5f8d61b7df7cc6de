//! Hooks written in Python: a virtual environment per checkout and set of
//! additional dependencies, made with `uv`.

use crate::helpers::{shell_split, CommandError};
use crate::run_hook::{
    get_sandbox_name, plan_hook, planned_run, push_item, sandbox_name, EnvVar, EnvVarView,
    HookEnvironment, HookEnvironmentView, HookRun, ProcessCommand, ProcessCommandView, RunHookCtx,
    Sandbox, SandboxView,
};
use crate::cfg::pre_commit_hooks::Language;
use crate::text::{clone_texts, join2, join3, push_text};
use vstd::prelude::*;

verus! {

/// The directory of a Python sandbox for `deps` under `checkout`.
pub open spec fn venv_path(checkout: Seq<char>, deps: Seq<Seq<char>>) -> Seq<char> {
    checkout + "/"@ + sandbox_name(".preco-venv"@, deps)
}

/// The environment of a Python hook. Its sandbox is a virtual environment
/// under the checkout. It is provisioned by `uv venv <sandbox>`, and then
/// `uv pip install -e <checkout>` with the additional dependencies behind
/// it, run with `VIRTUAL_ENV` set to the sandbox. The hook's commands run
/// with `VIRTUAL_ENV` set to the sandbox, the sandbox's `bin` in front of
/// `PATH`, and without `PYTHONHOME`.
pub open spec fn python_environment(checkout: Seq<char>, deps: Seq<Seq<char>>) -> HookEnvironmentView {
    let venv = venv_path(checkout, deps);
    let virtual_env = EnvVarView { name: "VIRTUAL_ENV"@, value: venv };
    HookEnvironmentView {
        sandbox: SandboxView { kind: Language::Python, path: venv },
        setup: seq![
            ProcessCommandView {
                program: "uv"@,
                args: seq!["venv"@, venv],
                env: Seq::empty(),
                current_dir: None,
            },
            ProcessCommandView {
                program: "uv"@,
                args: seq!["pip"@, "install"@, "-e"@, checkout] + deps,
                env: seq![virtual_env],
                current_dir: None,
            },
        ],
        env_set: seq![virtual_env],
        env_remove: seq!["PYTHONHOME"@],
        path_prepend: venv + "/bin"@,
    }
}

/// The name of the sandbox directory of a Python hook with these additional
/// dependencies.
pub fn get_venv_name(deps: &Vec<String>) -> (r: String)
    ensures
        r@ == sandbox_name(".preco-venv"@, deps.deep_view()),
{
    get_sandbox_name(".preco-venv", deps)
}

/// The two `uv` invocations that make the virtual environment `venv` for
/// the checkout and install the checkout and `deps` into it.
pub fn setup_venv(checkout_path: &str, venv: &str, deps: &Vec<String>) -> (r: Vec<ProcessCommand>)
    ensures
        r.deep_view() == seq![
            ProcessCommandView {
                program: "uv"@,
                args: seq!["venv"@, venv@],
                env: Seq::empty(),
                current_dir: None,
            },
            ProcessCommandView {
                program: "uv"@,
                args: seq!["pip"@, "install"@, "-e"@, checkout_path@] + deps.deep_view(),
                env: seq![EnvVarView { name: "VIRTUAL_ENV"@, value: venv@ }],
                current_dir: None,
            },
        ],
{
    let mut create_args: Vec<String> = Vec::new();
    push_text(&mut create_args, "venv".to_owned());
    push_text(&mut create_args, venv.to_owned());
    assert(create_args.deep_view() =~= seq!["venv"@, venv@]);
    let create = ProcessCommand {
        program: "uv".to_owned(),
        args: create_args,
        env: Vec::new(),
        current_dir: None,
    };
    assert(create.env.deep_view() =~= Seq::<EnvVarView>::empty());
    let mut install_args: Vec<String> = Vec::new();
    push_text(&mut install_args, "pip".to_owned());
    push_text(&mut install_args, "install".to_owned());
    push_text(&mut install_args, "-e".to_owned());
    push_text(&mut install_args, checkout_path.to_owned());
    let mut more = clone_texts(deps);
    let ghost head = install_args.deep_view();
    install_args.append(&mut more);
    assert(install_args.deep_view() =~= head + deps.deep_view());
    assert(head =~= seq!["pip"@, "install"@, "-e"@, checkout_path@]);
    let mut install_env: Vec<EnvVar> = Vec::new();
    push_item(&mut install_env, EnvVar::new("VIRTUAL_ENV", venv));
    assert(install_env.deep_view() =~= seq![EnvVarView { name: "VIRTUAL_ENV"@, value: venv@ }]);
    let install = ProcessCommand {
        program: "uv".to_owned(),
        args: install_args,
        env: install_env,
        current_dir: None,
    };
    let mut setup: Vec<ProcessCommand> = Vec::new();
    push_item(&mut setup, create);
    push_item(&mut setup, install);
    assert(setup.deep_view() =~= seq![create.deep_view(), install.deep_view()]);
    setup
}

/// Lays out the environment of a Python hook of the checkout at
/// `checkout_path` with the additional dependencies `deps`.
pub fn python_hook_environment(checkout_path: &str, deps: &Vec<String>) -> (r: HookEnvironment)
    ensures
        r.deep_view() == python_environment(checkout_path@, deps.deep_view()),
{
    let name = get_venv_name(deps);
    let venv = join3(checkout_path, "/", name.as_str());
    let setup = setup_venv(checkout_path, venv.as_str(), deps);
    let mut env_set: Vec<EnvVar> = Vec::new();
    push_item(&mut env_set, EnvVar::new("VIRTUAL_ENV", venv.as_str()));
    assert(env_set.deep_view() =~= seq![EnvVarView { name: "VIRTUAL_ENV"@, value: venv@ }]);
    let mut env_remove: Vec<String> = Vec::new();
    push_text(&mut env_remove, "PYTHONHOME".to_owned());
    assert(env_remove.deep_view() =~= seq!["PYTHONHOME"@]);
    let path_prepend = join2(venv.as_str(), "/bin");
    HookEnvironment {
        sandbox: Sandbox { kind: Language::Python, path: venv },
        setup,
        env_set,
        env_remove,
        path_prepend,
    }
}

/// Decides what is to be done for a Python hook.
pub fn run_python_hook(rhc: &RunHookCtx, parallelism: usize, limit: usize) -> (r: Result<
    HookRun,
    CommandError,
>)
    ensures
        match shell_split(rhc.hook.entry@) {
            Some(words) => r matches Ok(run) && run.deep_view() == planned_run(
                Language::Python,
                rhc.loaded_checkout.path@,
                rhc.hook.deep_view(),
                words,
                rhc.files.root(),
                rhc.files.paths(),
                rhc.info.verbose,
                rhc.dry_run,
                parallelism as nat,
                limit as nat,
            ),
            None => r == Err::<HookRun, CommandError>(CommandError::MissingClosingQuote),
        },
{
    plan_hook(rhc, Language::Python, parallelism, limit)
}

} // verus!
