//! Hooks written for Node: a module directory per checkout and set of
//! additional dependencies, made with `pnpm`.

use crate::cfg::pre_commit_hooks::Language;
use crate::helpers::{shell_split, CommandError};
use crate::run_hook::{
    get_sandbox_name, plan_hook, planned_run, push_item, sandbox_name, EnvVar, EnvVarView,
    HookEnvironment, HookEnvironmentView, HookRun, ProcessCommand, ProcessCommandView, RunHookCtx,
    Sandbox, SandboxView,
};
use crate::text::{clone_texts, join2, join3, push_text};
use vstd::prelude::*;

verus! {

/// One `pnpm` invocation in the checkout, with the update notifier off.
pub open spec fn pnpm(checkout: Seq<char>, args: Seq<Seq<char>>) -> ProcessCommandView {
    ProcessCommandView {
        program: "pnpm"@,
        args,
        env: seq![EnvVarView { name: "NPM_UPDATE_NOTIFIER"@, value: "false"@ }],
        current_dir: Some(checkout),
    }
}

/// The `pnpm` invocations that provision the module directory `name`:
/// `pnpm i --modules-dir <name>`, and then, where there are additional
/// dependencies, `pnpm add --modules-dir <name>` with them behind it.
pub open spec fn node_setup(checkout: Seq<char>, name: Seq<char>, deps: Seq<Seq<char>>) -> Seq<
    ProcessCommandView,
> {
    let install = pnpm(checkout, seq!["i"@, "--modules-dir"@, name]);
    if deps.len() > 0 {
        seq![install, pnpm(checkout, seq!["add"@, "--modules-dir"@, name] + deps)]
    } else {
        seq![install]
    }
}

/// The environment of a Node hook. Its sandbox is a module directory under
/// the checkout. The hook's commands run with `NODE_PATH` set to the
/// sandbox and the checkout's `node_modules/.bin` in front of `PATH`.
pub open spec fn node_environment(checkout: Seq<char>, deps: Seq<Seq<char>>) -> HookEnvironmentView {
    let name = sandbox_name("node_modules_preco"@, deps);
    let modules = checkout + "/"@ + name;
    HookEnvironmentView {
        sandbox: SandboxView { kind: Language::Node, path: modules },
        setup: node_setup(checkout, name, deps),
        env_set: seq![EnvVarView { name: "NODE_PATH"@, value: modules }],
        env_remove: Seq::empty(),
        path_prepend: checkout + "/node_modules/.bin"@,
    }
}

/// The name of the sandbox directory of a Node hook with these additional
/// dependencies.
pub fn get_node_modules_name(deps: &Vec<String>) -> (r: String)
    ensures
        r@ == sandbox_name("node_modules_preco"@, deps.deep_view()),
{
    get_sandbox_name("node_modules_preco", deps)
}

fn pnpm_command(checkout_path: &str, args: Vec<String>) -> (r: ProcessCommand)
    ensures
        r.deep_view() == pnpm(checkout_path@, args.deep_view()),
{
    let mut env: Vec<EnvVar> = Vec::new();
    push_item(&mut env, EnvVar::new("NPM_UPDATE_NOTIFIER", "false"));
    assert(env.deep_view() =~= seq![
        EnvVarView { name: "NPM_UPDATE_NOTIFIER"@, value: "false"@ },
    ]);
    ProcessCommand {
        program: "pnpm".to_owned(),
        args,
        env,
        current_dir: Some(checkout_path.to_owned()),
    }
}

/// The `pnpm` invocations that provision the module directory
/// `node_modules_name` of the checkout.
pub fn setup_node_env(checkout_path: &str, node_modules_name: &str, deps: &Vec<String>) -> (r: Vec<
    ProcessCommand,
>)
    ensures
        r.deep_view() == node_setup(checkout_path@, node_modules_name@, deps.deep_view()),
{
    let mut install_args: Vec<String> = Vec::new();
    push_text(&mut install_args, "i".to_owned());
    push_text(&mut install_args, "--modules-dir".to_owned());
    push_text(&mut install_args, node_modules_name.to_owned());
    assert(install_args.deep_view() =~= seq!["i"@, "--modules-dir"@, node_modules_name@]);
    let install = pnpm_command(checkout_path, install_args);
    let mut setup: Vec<ProcessCommand> = Vec::new();
    push_item(&mut setup, install);
    if deps.len() > 0 {
        let mut add_args: Vec<String> = Vec::new();
        push_text(&mut add_args, "add".to_owned());
        push_text(&mut add_args, "--modules-dir".to_owned());
        push_text(&mut add_args, node_modules_name.to_owned());
        let ghost head = add_args.deep_view();
        let mut more = clone_texts(deps);
        add_args.append(&mut more);
        assert(add_args.deep_view() =~= head + deps.deep_view());
        assert(head =~= seq!["add"@, "--modules-dir"@, node_modules_name@]);
        let add = pnpm_command(checkout_path, add_args);
        push_item(&mut setup, add);
        assert(setup.deep_view() =~= seq![install.deep_view(), add.deep_view()]);
    } else {
        assert(setup.deep_view() =~= seq![install.deep_view()]);
    }
    setup
}

/// Lays out the environment of a Node hook of the checkout at
/// `checkout_path` with the additional dependencies `deps`.
pub fn node_hook_environment(checkout_path: &str, deps: &Vec<String>) -> (r: HookEnvironment)
    ensures
        r.deep_view() == node_environment(checkout_path@, deps.deep_view()),
{
    let name = get_node_modules_name(deps);
    let modules = join3(checkout_path, "/", name.as_str());
    let setup = setup_node_env(checkout_path, name.as_str(), deps);
    let mut env_set: Vec<EnvVar> = Vec::new();
    push_item(&mut env_set, EnvVar::new("NODE_PATH", modules.as_str()));
    assert(env_set.deep_view() =~= seq![EnvVarView { name: "NODE_PATH"@, value: modules@ }]);
    let env_remove: Vec<String> = Vec::new();
    assert(env_remove.deep_view() =~= Seq::<Seq<char>>::empty());
    let path_prepend = join2(checkout_path, "/node_modules/.bin");
    HookEnvironment {
        sandbox: Sandbox { kind: Language::Node, path: modules },
        setup,
        env_set,
        env_remove,
        path_prepend,
    }
}

/// Decides what is to be done for a Node hook.
pub fn run_node_hook(rhc: &RunHookCtx, parallelism: usize, limit: usize) -> (r: Result<
    HookRun,
    CommandError,
>)
    ensures
        match shell_split(rhc.hook.entry@) {
            Some(words) => r matches Ok(run) && run.deep_view() == planned_run(
                Language::Node,
                rhc.loaded_checkout.path@,
                rhc.hook.deep_view(),
                words,
                rhc.files.root(),
                rhc.files.paths(),
                rhc.info.verbose,
                rhc.dry_run,
                parallelism as nat,
                limit as nat,
            ),
            None => r == Err::<HookRun, CommandError>(CommandError::MissingClosingQuote),
        },
{
    plan_hook(rhc, Language::Node, parallelism, limit)
}

} // verus!
