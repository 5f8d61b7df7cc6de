//! Running one hook: the environment that its language needs, and the
//! commands to run in it.

pub mod configured_hook;
pub mod helpers;
pub mod node;
pub mod python;

use crate::cfg::pre_commit_config::HookConfigurationInfo;
use crate::cfg::pre_commit_hooks::{
    HookDefinition, HookDefinitionView, Language, LanguageOrUnknown, LanguageOrUnknownView,
};
use crate::checkout::LoadedCheckout;
use crate::commando::{
    all_succeeded, commands_for_files, hook_commands, RunCommandOnFilesOutput, RunCommandOutput,
};
use crate::commands::run::RunConfig;
use crate::file_matching::MatchingFiles;
use crate::helpers::{command_line, deps_hash, hash_additional_dependencies, shell_split, CommandError};
use crate::run_hook::helpers::get_merged_command;
use crate::text::{join2, join3};
use vstd::prelude::*;

verus! {

/// How a hook's run ended.
#[derive(Debug, Clone, PartialEq)]
pub enum RunHookResult {
    /// Every command of the hook exited with status zero.
    Success,
    /// A command of the hook exited with another status, or could not be run.
    Failure,
    /// The hook was not run, for the reason given.
    Skipped(String),
}

/// The mathematical value of a [`RunHookResult`].
pub enum RunHookResultView {
    Success,
    Failure,
    Skipped(Seq<char>),
}

impl DeepView for RunHookResult {
    type V = RunHookResultView;

    open spec fn deep_view(&self) -> RunHookResultView {
        match self {
            RunHookResult::Success => RunHookResultView::Success,
            RunHookResult::Failure => RunHookResultView::Failure,
            RunHookResult::Skipped(reason) => RunHookResultView::Skipped(reason@),
        }
    }
}

/// Appending to a list appends to its deep view.
pub fn push_item<T: DeepView>(v: &mut Vec<T>, item: T)
    ensures
        final(v)@ == old(v)@.push(item),
        final(v).deep_view() == old(v).deep_view().push(item.deep_view()),
{
    v.push(item);
    assert(v.deep_view() =~= old(v).deep_view().push(item.deep_view()));
}

/// An environment variable and the value to give it.
#[derive(Debug, Clone, PartialEq)]
pub struct EnvVar {
    pub name: String,
    pub value: String,
}

/// The mathematical value of an [`EnvVar`].
pub struct EnvVarView {
    pub name: Seq<char>,
    pub value: Seq<char>,
}

impl DeepView for EnvVar {
    type V = EnvVarView;

    open spec fn deep_view(&self) -> EnvVarView {
        EnvVarView { name: self.name@, value: self.value@ }
    }
}

impl EnvVar {
    /// The variable `name` with the value `value`.
    pub fn new(name: &str, value: &str) -> (r: EnvVar)
        ensures
            r.deep_view() == (EnvVarView { name: name@, value: value@ }),
    {
        EnvVar { name: name.to_owned(), value: value.to_owned() }
    }
}

/// A program to run, with its arguments, the variables to add to its
/// environment, and the directory to run it in, where that matters.
#[derive(Debug, Clone, PartialEq)]
pub struct ProcessCommand {
    pub program: String,
    pub args: Vec<String>,
    pub env: Vec<EnvVar>,
    pub current_dir: Option<String>,
}

/// The mathematical value of a [`ProcessCommand`].
pub struct ProcessCommandView {
    pub program: Seq<char>,
    pub args: Seq<Seq<char>>,
    pub env: Seq<EnvVarView>,
    pub current_dir: Option<Seq<char>>,
}

impl DeepView for ProcessCommand {
    type V = ProcessCommandView;

    open spec fn deep_view(&self) -> ProcessCommandView {
        ProcessCommandView {
            program: self.program@,
            args: self.args.deep_view(),
            env: self.env.deep_view(),
            current_dir: self.current_dir.deep_view(),
        }
    }
}

/// An isolated environment for the hooks of one checkout: a directory under
/// the checkout whose name depends on the additional dependencies.
#[derive(Debug, Clone, PartialEq)]
pub struct Sandbox {
    pub kind: Language,
    pub path: String,
}

/// The mathematical value of a [`Sandbox`].
pub struct SandboxView {
    pub kind: Language,
    pub path: Seq<char>,
}

impl DeepView for Sandbox {
    type V = SandboxView;

    open spec fn deep_view(&self) -> SandboxView {
        SandboxView { kind: self.kind, path: self.path@ }
    }
}

/// What a hook needs around it: its sandbox, how to provision it, and the
/// environment of the hook's commands.
#[derive(Debug, Clone, PartialEq)]
pub struct HookEnvironment {
    /// The sandbox. That its directory exists means that it is ready.
    pub sandbox: Sandbox,
    /// The programs that provision the sandbox, to be run in this order if
    /// and only if the sandbox directory does not exist.
    pub setup: Vec<ProcessCommand>,
    /// Variables to set for the hook's commands.
    pub env_set: Vec<EnvVar>,
    /// Variables to remove for the hook's commands.
    pub env_remove: Vec<String>,
    /// The directory to put in front of `PATH` for the hook's commands.
    pub path_prepend: String,
}

/// The mathematical value of a [`HookEnvironment`].
pub struct HookEnvironmentView {
    pub sandbox: SandboxView,
    pub setup: Seq<ProcessCommandView>,
    pub env_set: Seq<EnvVarView>,
    pub env_remove: Seq<Seq<char>>,
    pub path_prepend: Seq<char>,
}

impl DeepView for HookEnvironment {
    type V = HookEnvironmentView;

    open spec fn deep_view(&self) -> HookEnvironmentView {
        HookEnvironmentView {
            sandbox: self.sandbox.deep_view(),
            setup: self.setup.deep_view(),
            env_set: self.env_set.deep_view(),
            env_remove: self.env_remove.deep_view(),
            path_prepend: self.path_prepend@,
        }
    }
}

/// The programs to run for an environment, given whether its sandbox
/// directory exists: none where it does, for a sandbox that is there is
/// ready; else the programs that provision it.
pub open spec fn provisioning_steps(env: HookEnvironmentView, sandbox_exists: bool) -> Seq<
    ProcessCommandView,
> {
    if sandbox_exists {
        Seq::empty()
    } else {
        env.setup
    }
}

impl HookEnvironment {
    /// The programs to run now to have the sandbox ready: see
    /// [`provisioning_steps`]. Once the sandbox is there, asking again gives
    /// nothing to run.
    pub fn provisioning(&self, sandbox_exists: bool) -> (r: Vec<ProcessCommand>)
        ensures
            r.deep_view() == provisioning_steps(self.deep_view(), sandbox_exists),
    {
        let mut steps: Vec<ProcessCommand> = Vec::new();
        if sandbox_exists {
            assert(steps.deep_view() =~= Seq::<ProcessCommandView>::empty());
            return steps;
        }
        let mut i: usize = 0;
        while i < self.setup.len()
            invariant
                i <= self.setup.len(),
                steps.deep_view() == self.setup.deep_view().take(i as int),
            decreases self.setup.len() - i,
        {
            let step = &self.setup[i];
            let copy = ProcessCommand {
                program: step.program.clone(),
                args: crate::text::clone_texts(&step.args),
                env: clone_env(&step.env),
                current_dir: crate::text::clone_opt_text(&step.current_dir),
            };
            push_item(&mut steps, copy);
            i += 1;
            assert(steps.deep_view() =~= self.setup.deep_view().take(i as int));
        }
        assert(self.setup.deep_view().take(self.setup.len() as int) =~= self.setup.deep_view());
        steps
    }
}

fn clone_env(env: &Vec<EnvVar>) -> (r: Vec<EnvVar>)
    ensures
        r.deep_view() == env.deep_view(),
{
    let mut copy: Vec<EnvVar> = Vec::new();
    let mut i: usize = 0;
    while i < env.len()
        invariant
            i <= env.len(),
            copy.deep_view() == env.deep_view().take(i as int),
        decreases env.len() - i,
    {
        push_item(&mut copy, EnvVar::new(env[i].name.as_str(), env[i].value.as_str()));
        i += 1;
        assert(copy.deep_view() =~= env.deep_view().take(i as int));
    }
    assert(env.deep_view().take(env.len() as int) =~= env.deep_view());
    copy
}

/// The commands of a hook and how to run them.
#[derive(Debug, Clone, PartialEq)]
pub struct HookExecution {
    /// The shell commands, each to be run as `sh -c <command>`.
    pub commands: Vec<String>,
    /// The directory to run them in: the root of the working tree.
    pub work_dir: String,
    /// Run them one after the other, in order, and not side by side.
    pub serial: bool,
    /// Let their output through instead of capturing it.
    pub verbose: bool,
}

/// The mathematical value of a [`HookExecution`].
pub struct HookExecutionView {
    pub commands: Seq<Seq<char>>,
    pub work_dir: Seq<char>,
    pub serial: bool,
    pub verbose: bool,
}

impl DeepView for HookExecution {
    type V = HookExecutionView;

    open spec fn deep_view(&self) -> HookExecutionView {
        HookExecutionView {
            commands: self.commands.deep_view(),
            work_dir: self.work_dir@,
            serial: self.serial,
            verbose: self.verbose,
        }
    }
}

/// What is to be done for a hook.
#[derive(Debug, Clone, PartialEq)]
pub enum HookRun {
    /// Nothing: the hook is skipped for this reason.
    Skipped(String),
    /// Provision the environment, and run nothing.
    DryRun(HookEnvironment),
    /// Provision the environment and run the commands in it.
    Execute(HookEnvironment, HookExecution),
}

/// The mathematical value of a [`HookRun`].
pub enum HookRunView {
    Skipped(Seq<char>),
    DryRun(HookEnvironmentView),
    Execute(HookEnvironmentView, HookExecutionView),
}

impl DeepView for HookRun {
    type V = HookRunView;

    open spec fn deep_view(&self) -> HookRunView {
        match self {
            HookRun::Skipped(reason) => HookRunView::Skipped(reason@),
            HookRun::DryRun(env) => HookRunView::DryRun(env.deep_view()),
            HookRun::Execute(env, exec) => HookRunView::Execute(env.deep_view(), exec.deep_view()),
        }
    }
}

impl HookRun {
    /// The result of a hook that is not run: its reason for a skipped hook,
    /// `dry-run` for a dry run. `None` for a hook that is to be run.
    pub fn skipped_result(&self) -> (r: Option<RunHookResult>)
        ensures
            r.deep_view() == (match self.deep_view() {
                HookRunView::Skipped(reason) => Some(RunHookResultView::Skipped(reason)),
                HookRunView::DryRun(_) => Some(RunHookResultView::Skipped("dry-run"@)),
                HookRunView::Execute(_, _) => None,
            }),
    {
        match self {
            HookRun::Skipped(reason) => Some(RunHookResult::Skipped(reason.clone())),
            HookRun::DryRun(_) => Some(RunHookResult::Skipped("dry-run".to_owned())),
            HookRun::Execute(_, _) => None,
        }
    }
}

/// How a hook ends, given what was to be done for it, whether its
/// environment could be provisioned, and what its commands gave. A hook that
/// was skipped stays skipped. A hook whose environment could not be
/// provisioned has failed. A dry run counts as skipped. A hook that was to
/// run succeeds if and only if every one of its commands ran and exited with
/// status zero; without the output of its commands it has failed.
pub open spec fn hook_result(
    run: HookRunView,
    provisioned: bool,
    output: Option<Seq<Result<RunCommandOutput, String>>>,
) -> RunHookResultView {
    match run {
        HookRunView::Skipped(reason) => RunHookResultView::Skipped(reason),
        HookRunView::DryRun(_) => if provisioned {
            RunHookResultView::Skipped("dry-run"@)
        } else {
            RunHookResultView::Failure
        },
        HookRunView::Execute(_, _) => match output {
            Some(results) => if provisioned && all_succeeded(results) {
                RunHookResultView::Success
            } else {
                RunHookResultView::Failure
            },
            None => RunHookResultView::Failure,
        },
    }
}

impl HookRun {
    /// Says how the hook ended: see [`hook_result`].
    pub fn result(&self, provisioned: bool, output: Option<&RunCommandOnFilesOutput>) -> (r:
        RunHookResult)
        ensures
            r.deep_view() == hook_result(
                self.deep_view(),
                provisioned,
                match output {
                    Some(o) => Some(o.results@),
                    None => None,
                },
            ),
    {
        match self {
            HookRun::Skipped(reason) => RunHookResult::Skipped(reason.clone()),
            HookRun::DryRun(_) => if provisioned {
                RunHookResult::Skipped("dry-run".to_owned())
            } else {
                RunHookResult::Failure
            },
            HookRun::Execute(_, _) => match output {
                Some(o) => if provisioned {
                    o.to_run_hook_result()
                } else {
                    RunHookResult::Failure
                },
                None => RunHookResult::Failure,
            },
        }
    }
}

/// The name of a sandbox directory: the base name, and behind it a hyphen
/// and the hash of the additional dependencies where there are any, so that
/// different sets of dependencies get different sandboxes.
pub open spec fn sandbox_name(base: Seq<char>, deps: Seq<Seq<char>>) -> Seq<char> {
    if deps.len() > 0 {
        base + "-"@ + deps_hash(deps)
    } else {
        base
    }
}

/// The name of the sandbox directory with base name `base` for `deps`.
pub fn get_sandbox_name(base: &str, deps: &Vec<String>) -> (r: String)
    ensures
        r@ == sandbox_name(base@, deps.deep_view()),
{
    if deps.len() > 0 {
        let hash = hash_additional_dependencies(deps);
        join3(base, "-", hash.as_str())
    } else {
        base.to_owned()
    }
}

/// Everything that running one hook needs to know.
#[derive(Debug)]
pub struct RunHookCtx<'a> {
    pub run_config: &'a RunConfig,
    pub loaded_checkout: &'a LoadedCheckout,
    pub hook: &'a HookDefinition,
    pub info: &'a HookConfigurationInfo,
    pub files: &'a MatchingFiles,
    pub dry_run: bool,
}

/// The environment of a hook in the given language.
pub open spec fn environment_for(language: Language, checkout: Seq<char>, deps: Seq<Seq<char>>) -> HookEnvironmentView {
    match language {
        Language::Node => node::node_environment(checkout, deps),
        Language::Python => python::python_environment(checkout, deps),
    }
}

/// What is to be done for a hook in a supported language whose entry was
/// split into `entry_words`: on a dry run only the environment is
/// provisioned; otherwise the hook's commands are run in it, with the
/// matching files where the hook takes file names.
pub open spec fn planned_run(
    language: Language,
    checkout: Seq<char>,
    hook: HookDefinitionView,
    entry_words: Seq<Seq<char>>,
    root: Seq<char>,
    files: Seq<Seq<char>>,
    verbose: bool,
    dry_run: bool,
    parallelism: nat,
    limit: nat,
) -> HookRunView {
    let env = environment_for(language, checkout, hook.additional_dependencies);
    if dry_run {
        HookRunView::DryRun(env)
    } else {
        HookRunView::Execute(
            env,
            HookExecutionView {
                commands: hook_commands(
                    command_line(entry_words, hook.args),
                    if hook.pass_filenames {
                        Some(files)
                    } else {
                        None
                    },
                    parallelism,
                    hook.require_serial,
                    limit,
                ),
                work_dir: root,
                serial: hook.require_serial,
                verbose,
            },
        )
    }
}

/// The reason for which a hook in a language without support is skipped.
pub open spec fn unsupported_language(name: Seq<char>) -> Seq<char> {
    "Unsupported language: "@ + name
}

/// The environment of a supported language's hook, and its commands unless
/// this is a dry run.
fn plan_hook(rhc: &RunHookCtx, language: Language, parallelism: usize, limit: usize) -> (r: Result<
    HookRun,
    CommandError,
>)
    ensures
        match shell_split(rhc.hook.entry@) {
            Some(words) => r matches Ok(run) && run.deep_view() == planned_run(
                language,
                rhc.loaded_checkout.path@,
                rhc.hook.deep_view(),
                words,
                rhc.files.root(),
                rhc.files.paths(),
                rhc.info.verbose,
                rhc.dry_run,
                parallelism as nat,
                limit as nat,
            ),
            None => r == Err::<HookRun, CommandError>(CommandError::MissingClosingQuote),
        },
{
    let base_command = match get_merged_command(rhc.hook) {
        Ok(command) => command,
        Err(e) => {
            return Err(e);
        },
    };
    let checkout_path = rhc.loaded_checkout.path.as_str();
    let deps = &rhc.hook.additional_dependencies;
    let env = match language {
        Language::Node => node::node_hook_environment(checkout_path, deps),
        Language::Python => python::python_hook_environment(checkout_path, deps),
    };
    if rhc.dry_run {
        return Ok(HookRun::DryRun(env));
    }
    let files = if rhc.hook.pass_filenames {
        Some(rhc.files.files())
    } else {
        None
    };
    let commands = commands_for_files(
        base_command.as_str(),
        files,
        parallelism,
        rhc.hook.require_serial,
        limit,
    );
    Ok(
        HookRun::Execute(
            env,
            HookExecution {
                commands,
                work_dir: rhc.files.root_path().clone(),
                serial: rhc.hook.require_serial,
                verbose: rhc.info.verbose,
            },
        ),
    )
}

/// Decides what is to be done for a hook. A hook in a language that is not
/// supported is skipped. For any other the environment of its language is
/// laid out and, unless this is a dry run, its commands are made, to be
/// run on up to `parallelism` workers and each shorter than `limit` bytes
/// where that can be had. A hook whose entry ends inside a quoted word is an
/// error.
pub fn run_hook(rhc: &RunHookCtx, parallelism: usize, limit: usize) -> (r: Result<
    HookRun,
    CommandError,
>)
    ensures
        match rhc.hook.language.deep_view() {
            LanguageOrUnknownView::Unknown(name) => r matches Ok(run) && run.deep_view()
                == HookRunView::Skipped(unsupported_language(name)),
            LanguageOrUnknownView::Language(language) => match shell_split(rhc.hook.entry@) {
                Some(words) => r matches Ok(run) && run.deep_view() == planned_run(
                    language,
                    rhc.loaded_checkout.path@,
                    rhc.hook.deep_view(),
                    words,
                    rhc.files.root(),
                    rhc.files.paths(),
                    rhc.info.verbose,
                    rhc.dry_run,
                    parallelism as nat,
                    limit as nat,
                ),
                None => r == Err::<HookRun, CommandError>(CommandError::MissingClosingQuote),
            },
        },
{
    match &rhc.hook.language {
        LanguageOrUnknown::Language(lang) => match lang {
            Language::Node => node::run_node_hook(rhc, parallelism, limit),
            Language::Python => python::run_python_hook(rhc, parallelism, limit),
        },
        LanguageOrUnknown::Unknown(lang) => Ok(
            HookRun::Skipped(join2("Unsupported language: ", lang.as_str())),
        ),
    }
}

} // verus!
