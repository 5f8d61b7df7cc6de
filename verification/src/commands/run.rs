//! Running hooks: resolving each configured hook against its repository's
//! manifest, deciding which hooks take part in a run, and driving the run.

use crate::cfg::pre_commit_config::{
    HookConfiguration, HookConfigurationView, PrecommitConfig, Repo,
};
use crate::cfg::pre_commit_hooks::{
    clone_opt_stages, HookDefinition, HookDefinitionView, Stage, StageOrUnknown,
    StageOrUnknownView, stage_named,
};
use crate::checkout::{checkout_in, checkout_path, Checkout, LoadedCheckout};
use crate::file_matching::{
    filters_of, get_matching_files, is_selected_path, MatchingFiles,
};
use crate::file_set::FileSet;
use crate::regex_cache::{
    get_regex_with_warning, regex_compiles, usable_pattern, with_pattern, RegexCache,
};
use crate::run_hook::{RunHookResult, RunHookResultView};
use crate::text::{
    clone_opt_text, clone_opt_texts, clone_texts, join2, join3, push_text, text_eq,
};
use vstd::prelude::*;

verus! {

/// What a run takes from the project's configuration: whether to stop at the
/// first failing hook, and the project-wide patterns, compiled. A pattern
/// that does not compile is absent here.
#[derive(Debug)]
pub struct RunConfig {
    pub fail_fast: bool,
    pub files_re: Option<regex::Regex>,
    pub exclude_re: Option<regex::Regex>,
}

/// A configured hook whose id the repository's manifest does not hold.
#[derive(Debug, Clone, PartialEq)]
pub struct ResolveError {
    /// The id that was looked for.
    pub hook_id: String,
    /// The checkout whose manifest was searched.
    pub checkout_path: String,
}

impl ResolveError {
    /// The message shown to the user.
    pub fn message(&self) -> (r: String)
        ensures
            r@ == "hook "@ + self.hook_id@ + " not found in checkout "@ + self.checkout_path@,
    {
        let head = join3("hook ", self.hook_id.as_str(), " not found in checkout ");
        join2(head.as_str(), self.checkout_path.as_str())
    }
}

/// The first definition in `hooks` whose id is `id`.
pub open spec fn first_with_id(hooks: Seq<HookDefinitionView>, id: Seq<char>) -> Option<
    HookDefinitionView,
>
    decreases hooks.len(),
{
    if hooks.len() == 0 {
        None
    } else if hooks[0].id == id {
        Some(hooks[0])
    } else {
        first_with_id(hooks.drop_first(), id)
    }
}

/// No two definitions of a manifest have the same id.
pub open spec fn ids_unique(hooks: Seq<HookDefinitionView>) -> bool {
    forall|i: int, j: int|
        0 <= i < j < hooks.len() ==> (#[trigger] hooks[i]).id != (#[trigger] hooks[j]).id
}

/// In a manifest whose ids are unique, an id resolves to the one definition
/// that has it.
pub proof fn lemma_unique_id_resolves(hooks: Seq<HookDefinitionView>, i: int)
    requires
        ids_unique(hooks),
        0 <= i < hooks.len(),
    ensures
        first_with_id(hooks, hooks[i].id) == Some(hooks[i]),
    decreases hooks.len(),
{
    if i > 0 {
        assert(hooks[0].id != hooks[i].id);
        let rest = hooks.drop_first();
        assert(ids_unique(rest)) by {
            assert forall|a: int, b: int| 0 <= a < b < rest.len() implies (#[trigger] rest[a]).id != (
            #[trigger] rest[b]).id by {
                assert(rest[a] == hooks[a + 1] && rest[b] == hooks[b + 1]);
            }
        }
        assert(rest[i - 1] == hooks[i]);
        lemma_unique_id_resolves(rest, i - 1);
    }
}

/// Whether no two definitions of a manifest have the same id.
pub fn has_unique_ids(hooks: &Vec<HookDefinition>) -> (r: bool)
    ensures
        r == ids_unique(hooks.deep_view()),
{
    let mut j: usize = 0;
    while j < hooks.len()
        invariant
            j <= hooks.len(),
            forall|a: int, b: int|
                0 <= a < b < j ==> (#[trigger] hooks.deep_view()[a]).id != (
                #[trigger] hooks.deep_view()[b]).id,
        decreases hooks.len() - j,
    {
        let mut i: usize = 0;
        while i < j
            invariant
                i <= j < hooks.len(),
                forall|a: int|
                    0 <= a < i ==> (#[trigger] hooks.deep_view()[a]).id != hooks.deep_view()[j as int].id,
            decreases j - i,
        {
            if hooks[i].id == hooks[j].id {
                assert(hooks.deep_view()[i as int].id == hooks.deep_view()[j as int].id);
                return false;
            }
            i += 1;
        }
        j += 1;
    }
    true
}

/// The published definition `d` with the overrides of `hc` applied: an
/// override that is present replaces the published value, one that is absent
/// leaves it. The id is the configured one. The entry, the language,
/// `pass_filenames`, `require_serial` and the minimum version are never
/// overridden.
pub open spec fn merged(d: HookDefinitionView, hc: HookConfigurationView) -> HookDefinitionView {
    let o = hc.overrides;
    HookDefinitionView {
        id: hc.id,
        name: match o.name {
            Some(v) => v,
            None => d.name,
        },
        description: match o.description {
            Some(v) => v,
            None => d.description,
        },
        entry: d.entry,
        args: match o.args {
            Some(v) => v,
            None => d.args,
        },
        language: d.language,
        stages: match o.stages {
            Some(v) => Some(v),
            None => d.stages,
        },
        types: match o.types {
            Some(v) => Some(v),
            None => d.types,
        },
        types_or: match o.types_or {
            Some(v) => Some(v),
            None => d.types_or,
        },
        files: match o.files {
            Some(v) => Some(v),
            None => d.files,
        },
        exclude: match o.exclude {
            Some(v) => Some(v),
            None => d.exclude,
        },
        pass_filenames: d.pass_filenames,
        always_run: match o.always_run {
            Some(v) => v,
            None => d.always_run,
        },
        require_serial: d.require_serial,
        additional_dependencies: match o.additional_dependencies {
            Some(v) => v,
            None => d.additional_dependencies,
        },
        minimum_pre_commit_version: d.minimum_pre_commit_version,
    }
}

/// Without overrides the merged hook is the published definition, field for
/// field, under the configured id.
pub proof fn lemma_merge_without_overrides(d: HookDefinitionView, hc: HookConfigurationView)
    requires
        hc.overrides.is_empty(),
    ensures
        merged(d, hc) == (HookDefinitionView { id: hc.id, ..d }),
{
}

/// The position of the first definition in `hooks` whose id is `id`.
fn find_hook(hooks: &Vec<HookDefinition>, id: &String) -> (r: Option<usize>)
    ensures
        match r {
            Some(i) => i < hooks.len() && first_with_id(hooks.deep_view(), id@) == Some(
                hooks[i as int].deep_view(),
            ),
            None => first_with_id(hooks.deep_view(), id@) is None,
        },
{
    let ghost all = hooks.deep_view();
    let mut i: usize = 0;
    assert(all.skip(0) =~= all);
    while i < hooks.len()
        invariant
            i <= hooks.len(),
            all == hooks.deep_view(),
            first_with_id(all, id@) == first_with_id(all.skip(i as int), id@),
        decreases hooks.len() - i,
    {
        proof {
            assert(all.skip(i as int)[0] == hooks[i as int].deep_view());
            assert(all.skip(i as int).drop_first() =~= all.skip(i + 1));
        }
        if hooks[i].id == *id {
            return Some(i);
        }
        i += 1;
    }
    assert(all.skip(i as int).len() == 0);
    None
}

/// Resolves a configured hook: finds the published definition with the
/// configured id and applies the overrides to it.
pub fn merge_hook_definition(co: &LoadedCheckout, hc: &HookConfiguration) -> (r: Result<
    HookDefinition,
    ResolveError,
>)
    ensures
        match first_with_id(co.hooks.deep_view(), hc.id@) {
            Some(d) => r matches Ok(h) && h.deep_view() == merged(d, hc.deep_view()),
            None => r matches Err(e) && e.hook_id@ == hc.id@ && e.checkout_path@ == co.path@,
        },
{
    let d = match find_hook(&co.hooks, &hc.id) {
        Some(i) => &co.hooks[i],
        None => {
            return Err(ResolveError { hook_id: hc.id.clone(), checkout_path: co.path.clone() });
        },
    };
    let o = &hc.overrides;
    let merged_hook_def = HookDefinition {
        id: hc.id.clone(),
        name: match &o.name {
            Some(v) => v.clone(),
            None => d.name.clone(),
        },
        description: match &o.description {
            Some(v) => v.clone(),
            None => d.description.clone(),
        },
        entry: d.entry.clone(),
        args: match &o.args {
            Some(v) => clone_texts(v),
            None => clone_texts(&d.args),
        },
        language: d.language.duplicate(),
        stages: match &o.stages {
            Some(_) => clone_opt_stages(&o.stages),
            None => clone_opt_stages(&d.stages),
        },
        types: match &o.types {
            Some(_) => clone_opt_texts(&o.types),
            None => clone_opt_texts(&d.types),
        },
        types_or: match &o.types_or {
            Some(_) => clone_opt_texts(&o.types_or),
            None => clone_opt_texts(&d.types_or),
        },
        files: match &o.files {
            Some(_) => clone_opt_text(&o.files),
            None => clone_opt_text(&d.files),
        },
        exclude: match &o.exclude {
            Some(_) => clone_opt_text(&o.exclude),
            None => clone_opt_text(&d.exclude),
        },
        pass_filenames: d.pass_filenames,
        always_run: match o.always_run {
            Some(v) => v,
            None => d.always_run,
        },
        require_serial: d.require_serial,
        additional_dependencies: match &o.additional_dependencies {
            Some(v) => clone_texts(v),
            None => clone_texts(&d.additional_dependencies),
        },
        minimum_pre_commit_version: clone_opt_text(&d.minimum_pre_commit_version),
    };
    Ok(merged_hook_def)
}

/// The options of the `run` command.
#[derive(Debug, Clone, PartialEq)]
pub struct RunArgs {
    /// Run on all tracked files instead of the staged ones.
    pub all_files: bool,
    /// Do everything except actually run the hooks.
    pub dry_run: bool,
    /// Ids or aliases of the hooks to run. If unset, all hooks are run.
    pub hooks: Option<Vec<String>>,
    /// The git hook phase in which the tool was started.
    pub git_hook_stage: Option<String>,
}

/// The `--git-hook-stage` option names no stage.
#[derive(Debug, Clone, PartialEq)]
pub struct UnknownStage {
    /// The name as given.
    pub name: String,
}

impl UnknownStage {
    /// The message shown to the user.
    pub fn message(&self) -> (r: String)
        ensures
            r@ == "unknown stage: "@ + self.name@,
    {
        join2("unknown stage: ", self.name.as_str())
    }
}

/// Reads the stage that a run is limited to from the command line. No
/// option means no limit. A name that is no stage's is an error.
pub fn selected_stage(args: &RunArgs) -> (r: Result<Option<Stage>, UnknownStage>)
    ensures
        match args.git_hook_stage {
            None => r == Ok::<Option<Stage>, UnknownStage>(None),
            Some(name) => match stage_named(name@) {
                Some(stage) => r == Ok::<Option<Stage>, UnknownStage>(Some(stage)),
                None => r matches Err(e) && e.name@ == name@,
            },
        },
{
    match &args.git_hook_stage {
        None => Ok(None),
        Some(name) => match Stage::from_name(name.as_str()) {
            Some(stage) => Ok(Some(stage)),
            None => Err(UnknownStage { name: name.clone() }),
        },
    }
}

/// Whether there is a pattern and it does not compile.
pub open spec fn refused(pattern: Option<Seq<char>>) -> bool {
    pattern matches Some(p) && !regex_compiles(p)
}

impl RunConfig {
    /// Takes from the project's configuration what a run needs, and compiles
    /// the project-wide patterns through `cache`. A pattern that does not
    /// compile is left out, with a warning: first the one for `exclude`,
    /// then the one for `files`.
    pub fn from_config(config: &PrecommitConfig, cache: &mut RegexCache) -> (r: (RunConfig, Vec<String>))
        ensures
            r.0.fail_fast == config.fail_fast,
            r.0.exclude_re == usable_pattern(config.exclude.deep_view()),
            r.0.files_re == usable_pattern(config.files.deep_view()),
            r.1@.len() == (if refused(config.exclude.deep_view()) {
                1nat
            } else {
                0nat
            }) + (if refused(config.files.deep_view()) {
                1nat
            } else {
                0nat
            }),
            refused(config.exclude.deep_view()) ==> "unable to compile regex for `exclude`: "@.is_prefix_of(
                r.1@[0]@,
            ),
            refused(config.files.deep_view()) ==> "unable to compile regex for `files`: "@.is_prefix_of(
                r.1@[r.1@.len() - 1]@,
            ),
            final(cache).patterns() == with_pattern(
                with_pattern(old(cache).patterns(), config.exclude.deep_view()),
                config.files.deep_view(),
            ),
    {
        let mut warnings: Vec<String> = Vec::new();
        proof {
            reveal_strlit("unable to compile regex for `exclude`: ");
            reveal_strlit("unable to compile regex for `exclude`");
            reveal_strlit("unable to compile regex for `files`: ");
            reveal_strlit("unable to compile regex for `files`");
            reveal_strlit(": ");
            assert("unable to compile regex for `exclude`"@ + ": "@
                =~= "unable to compile regex for `exclude`: "@);
            assert("unable to compile regex for `files`"@ + ": "@
                =~= "unable to compile regex for `files`: "@);
        }
        let exclude = get_regex_with_warning(
            cache,
            match &config.exclude {
                Some(p) => Some(p.as_str()),
                None => None,
            },
            "unable to compile regex for `exclude`",
        );
        match exclude.warning {
            Some(w) => {
                warnings.push(w);
            },
            None => {},
        }
        let files = get_regex_with_warning(
            cache,
            match &config.files {
                Some(p) => Some(p.as_str()),
                None => None,
            },
            "unable to compile regex for `files`",
        );
        match files.warning {
            Some(w) => {
                warnings.push(w);
            },
            None => {},
        }
        (
            RunConfig { fail_fast: config.fail_fast, files_re: files.regex, exclude_re: exclude.regex },
            warnings,
        )
    }
}

/// Whether a hook takes part in a run by the choice made on the command
/// line: without a choice every hook does; with one, a hook whose id or
/// alias is among the chosen names.
pub open spec fn hook_is_selected(
    selected: Option<Seq<Seq<char>>>,
    id: Seq<char>,
    alias: Option<Seq<char>>,
) -> bool {
    match selected {
        None => true,
        Some(names) => names.contains(id) || (alias matches Some(a) && names.contains(a)),
    }
}

fn holds_name(names: &Vec<String>, name: &str) -> (r: bool)
    ensures
        r == names.deep_view().contains(name@),
{
    let mut i: usize = 0;
    while i < names.len()
        invariant
            i <= names.len(),
            forall|k: int| 0 <= k < i ==> names.deep_view()[k] != name@,
        decreases names.len() - i,
    {
        if text_eq(names[i].as_str(), name) {
            assert(names.deep_view()[i as int] == name@);
            return true;
        }
        i += 1;
    }
    false
}

/// Whether the hook `hook_cfg` takes part in a run by the choice made on the
/// command line.
pub fn is_hook_selected(selected_hooks: &Option<Vec<String>>, hook_cfg: &HookConfiguration) -> (r:
    bool)
    ensures
        r == hook_is_selected(
            selected_hooks.deep_view(),
            hook_cfg.id@,
            hook_cfg.info.alias.deep_view(),
        ),
{
    match selected_hooks {
        None => true,
        Some(names) => {
            if holds_name(names, hook_cfg.id.as_str()) {
                return true;
            }
            match &hook_cfg.info.alias {
                Some(alias) => holds_name(names, alias.as_str()),
                None => false,
            }
        },
    }
}

/// Whether a hook with the given stages runs in a run that is limited to
/// `selected`: a run without a limit runs every hook, and a hook without
/// stages runs in every stage.
pub open spec fn stage_allows(stages: Option<Seq<StageOrUnknownView>>, selected: Option<Stage>) -> bool {
    match (selected, stages) {
        (Some(stage), Some(list)) => list.contains(StageOrUnknownView::Stage(stage)),
        _ => true,
    }
}

/// Whether a hook with the given stages runs in a run limited to `selected`.
pub fn hook_runs_in_stage(stages: &Option<Vec<StageOrUnknown>>, selected: &Option<Stage>) -> (r: bool)
    ensures
        r == stage_allows(stages.deep_view(), *selected),
{
    match (selected, stages) {
        (Some(stage), Some(list)) => {
            let mut i: usize = 0;
            while i < list.len()
                invariant
                    i <= list.len(),
                    *stages == Some(*list),
                    *selected == Some(*stage),
                    forall|k: int|
                        0 <= k < i ==> list.deep_view()[k] != StageOrUnknownView::Stage(*stage),
                decreases list.len() - i,
            {
                if list[i].is_stage(*stage) {
                    assert(list.deep_view()[i as int] == StageOrUnknownView::Stage(*stage));
                    return true;
                }
                i += 1;
            }
            false
        },
        _ => true,
    }
}

/// Why a configured hook takes no part in a run.
#[derive(Debug, Clone, Copy, PartialEq, Eq, Structural)]
pub enum SkipReason {
    /// The command line chose other hooks.
    NotSelected,
    /// The hook does not run in the stage of this run.
    StageNotSelected,
    /// No file of the run is one that the hook looks at.
    NoMatchingFiles,
}

impl SkipReason {
    /// The reason in words.
    pub fn message(&self) -> (r: String)
        ensures
            r@ == (match *self {
                SkipReason::NotSelected => "command line selecting hooks"@,
                SkipReason::StageNotSelected => "selected-stage configuration"@,
                SkipReason::NoMatchingFiles => "no matching files"@,
            }),
    {
        match self {
            SkipReason::NotSelected => "command line selecting hooks".to_owned(),
            SkipReason::StageNotSelected => "selected-stage configuration".to_owned(),
            SkipReason::NoMatchingFiles => "no matching files".to_owned(),
        }
    }
}

/// The checkout that a configured hook needs; a hook that the command line
/// leaves out of the run is skipped and needs none.
pub fn hook_checkout(
    checkouts_dir: &str,
    repo: &Repo,
    hook_cfg: &HookConfiguration,
    selected_hooks: &Option<Vec<String>>,
) -> (r: Result<Checkout, SkipReason>)
    ensures
        match r {
            Ok(co) => {
                &&& hook_is_selected(
                    selected_hooks.deep_view(),
                    hook_cfg.id@,
                    hook_cfg.info.alias.deep_view(),
                )
                &&& co.repo_url == repo.url
                &&& co.repo_rev == repo.rev
                &&& co.path@ == checkout_path(
                    checkouts_dir@,
                    repo.url.deep_view().text(),
                    repo.rev@,
                    hook_cfg.overrides.additional_dependencies.deep_view(),
                )
            },
            Err(reason) => reason == SkipReason::NotSelected && !hook_is_selected(
                selected_hooks.deep_view(),
                hook_cfg.id@,
                hook_cfg.info.alias.deep_view(),
            ),
        },
{
    if is_hook_selected(selected_hooks, hook_cfg) {
        Ok(checkout_in(checkouts_dir, repo, hook_cfg))
    } else {
        Err(SkipReason::NotSelected)
    }
}

/// Whether the file set holds a file that the filters select.
pub open spec fn has_selected(f: crate::file_matching::Filters, fileset: FileSet) -> bool {
    exists|k: int|
        0 <= k < fileset.paths().len() && #[trigger] crate::file_matching::is_selected(
            f,
            fileset,
            k,
        )
}

/// A hook that is ready to run: resolved, and with files to look at.
#[derive(Debug)]
pub struct ReadyHook<'a> {
    /// The hook as the project configures it.
    pub hook_cfg: &'a HookConfiguration,
    /// The checkout that the hook comes from.
    pub loaded_checkout: LoadedCheckout,
    /// The hook, with the project's overrides merged in.
    pub hook: HookDefinition,
    /// The files that the hook looks at; there is at least one.
    pub matching_files: MatchingFiles,
}

/// What configuring one hook gave.
#[derive(Debug)]
pub enum HookConfigured<'a> {
    /// The hook takes no part in the run.
    Skipped(SkipReason),
    /// The hook is ready to run.
    Ready(ReadyHook<'a>),
}

/// Configures one hook of a repository whose checkout has been loaded: the
/// hook is resolved against the manifest, which fails if the manifest does
/// not hold it; it is skipped if it does not run in the selected stage; its
/// files are chosen, and it is skipped if there are none.
pub fn configure_repo_hook<'a>(
    run_config: &RunConfig,
    selected_stage: &Option<Stage>,
    fileset: &FileSet,
    loaded_checkout: LoadedCheckout,
    hook_cfg: &'a HookConfiguration,
    cache: &mut RegexCache,
) -> (r: Result<HookConfigured<'a>, ResolveError>)
    ensures
        match first_with_id(loaded_checkout.hooks.deep_view(), hook_cfg.id@) {
            None => match r {
                Err(e) => e.hook_id@ == hook_cfg.id@ && e.checkout_path@ == loaded_checkout.path@
                    && final(cache).patterns() == old(cache).patterns(),
                Ok(_) => false,
            },
            Some(d) => {
                let hook = merged(d, hook_cfg.deep_view());
                let f = filters_of(*run_config, hook);
                if !stage_allows(hook.stages, *selected_stage) {
                    match r {
                        Ok(HookConfigured::Skipped(reason)) => reason
                            == SkipReason::StageNotSelected && final(cache).patterns() == old(
                            cache,
                        ).patterns(),
                        _ => false,
                    }
                } else {
                    &&& final(cache).patterns() == with_pattern(
                        with_pattern(old(cache).patterns(), hook.exclude),
                        hook.files,
                    )
                    &&& if has_selected(f, *fileset) {
                        match r {
                            Ok(HookConfigured::Ready(ready)) => {
                                &&& ready.hook_cfg == hook_cfg
                                &&& ready.hook.deep_view() == hook
                                &&& ready.loaded_checkout == loaded_checkout
                                &&& ready.matching_files.root() == fileset.root()
                                &&& forall|p: Seq<char>|
                                    ready.matching_files.paths().contains(p) <==> is_selected_path(
                                        f,
                                        *fileset,
                                        fileset.paths().len() as int,
                                        p,
                                    )
                            },
                            _ => false,
                        }
                    } else {
                        match r {
                            Ok(HookConfigured::Skipped(reason)) => reason
                                == SkipReason::NoMatchingFiles,
                            _ => false,
                        }
                    }
                }
            },
        },
{
    let hook = match merge_hook_definition(&loaded_checkout, hook_cfg) {
        Ok(hook) => hook,
        Err(e) => {
            return Err(e);
        },
    };
    if !hook_runs_in_stage(&hook.stages, selected_stage) {
        return Ok(HookConfigured::Skipped(SkipReason::StageNotSelected));
    }
    let matching_files = get_matching_files(run_config, fileset, &hook, cache);
    let ghost f = filters_of(*run_config, hook.deep_view());
    if matching_files.is_empty() {
        proof {
            if has_selected(f, *fileset) {
                let k = choose|k: int|
                    0 <= k < fileset.paths().len() && #[trigger] crate::file_matching::is_selected(
                        f,
                        *fileset,
                        k,
                    );
                let p = fileset.paths()[k];
                assert(is_selected_path(f, *fileset, fileset.paths().len() as int, p));
                assert(matching_files.paths().contains(p));
            }
        }
        return Ok(HookConfigured::Skipped(SkipReason::NoMatchingFiles));
    }
    proof {
        let p = matching_files.paths()[0];
        assert(matching_files.paths().contains(p));
        assert(is_selected_path(f, *fileset, fileset.paths().len() as int, p));
    }
    Ok(HookConfigured::Ready(ReadyHook { hook_cfg, loaded_checkout, hook, matching_files }))
}

/// Where a configured hook stands in a run.
#[derive(Debug, Clone, PartialEq)]
pub enum HookState {
    /// Nothing has been done for the hook yet.
    Pending,
    /// The hook's checkout is being made and the hook resolved.
    Configuring,
    /// The hook is resolved and has files to look at.
    Ready,
    /// The hook takes no part in the run, for the reason given.
    Skipped(String),
    /// The hook could not be configured, for the reason given.
    Failed(String),
    /// The hook's commands are running.
    Running,
    /// Every command of the hook exited with status zero.
    Success,
    /// A command of the hook failed.
    Failure,
}

/// The mathematical value of a [`HookState`].
pub enum HookStateView {
    Pending,
    Configuring,
    Ready,
    Skipped(Seq<char>),
    Failed(Seq<char>),
    Running,
    Success,
    Failure,
}

impl DeepView for HookState {
    type V = HookStateView;

    open spec fn deep_view(&self) -> HookStateView {
        match self {
            HookState::Pending => HookStateView::Pending,
            HookState::Configuring => HookStateView::Configuring,
            HookState::Ready => HookStateView::Ready,
            HookState::Skipped(reason) => HookStateView::Skipped(reason@),
            HookState::Failed(reason) => HookStateView::Failed(reason@),
            HookState::Running => HookStateView::Running,
            HookState::Success => HookStateView::Success,
            HookState::Failure => HookStateView::Failure,
        }
    }
}

/// Whether a hook may pass from one state to another. A pending hook is
/// configured; configuring ends with the hook ready, skipped or failed; a
/// ready hook is run; running ends in success, in failure, or with the hook
/// skipped after all. Every other state is final.
pub open spec fn may_follow(from: HookStateView, to: HookStateView) -> bool {
    match from {
        HookStateView::Pending => to is Configuring,
        HookStateView::Configuring => to is Ready || to is Skipped || to is Failed,
        HookStateView::Ready => to is Running,
        HookStateView::Running => to is Success || to is Failure || to is Skipped,
        _ => false,
    }
}

/// The state that configuring a hook leaves it in.
pub open spec fn state_after_configuring(outcome: Result<HookConfigured, ResolveError>) -> HookStateView {
    match outcome {
        Ok(HookConfigured::Ready(_)) => HookStateView::Ready,
        Ok(HookConfigured::Skipped(reason)) => HookStateView::Skipped(
            match reason {
                SkipReason::NotSelected => "command line selecting hooks"@,
                SkipReason::StageNotSelected => "selected-stage configuration"@,
                SkipReason::NoMatchingFiles => "no matching files"@,
            },
        ),
        Err(e) => HookStateView::Failed(
            "hook "@ + e.hook_id@ + " not found in checkout "@ + e.checkout_path@,
        ),
    }
}

/// The state that running a hook leaves it in.
pub open spec fn state_after_running(result: RunHookResultView) -> HookStateView {
    match result {
        RunHookResultView::Success => HookStateView::Success,
        RunHookResultView::Failure => HookStateView::Failure,
        RunHookResultView::Skipped(reason) => HookStateView::Skipped(reason),
    }
}

impl HookState {
    /// The state of a hook after it has been configured with `outcome`.
    pub fn after_configuring(outcome: &Result<HookConfigured, ResolveError>) -> (r: HookState)
        ensures
            r.deep_view() == state_after_configuring(*outcome),
            may_follow(HookStateView::Configuring, r.deep_view()),
    {
        match outcome {
            Ok(HookConfigured::Ready(_)) => HookState::Ready,
            Ok(HookConfigured::Skipped(reason)) => HookState::Skipped(reason.message()),
            Err(e) => HookState::Failed(e.message()),
        }
    }

    /// The state of a hook after it has been run with `result`.
    pub fn after_running(result: &RunHookResult) -> (r: HookState)
        ensures
            r.deep_view() == state_after_running(result.deep_view()),
            may_follow(HookStateView::Running, r.deep_view()),
    {
        match result {
            RunHookResult::Success => HookState::Success,
            RunHookResult::Failure => HookState::Failure,
            RunHookResult::Skipped(reason) => HookState::Skipped(reason.clone()),
        }
    }
}

/// The ready hooks of all repositories, in the order of the repositories
/// and, within one, of its hooks.
pub open spec fn ready_items<T>(results: Seq<Result<Vec<T>, String>>) -> Seq<T>
    decreases results.len(),
{
    if results.len() == 0 {
        Seq::empty()
    } else {
        (match results[0] {
            Ok(items) => items@,
            Err(_) => Seq::empty(),
        }) + ready_items(results.drop_first())
    }
}

/// The errors of the repositories that could not be configured, in the
/// order of the repositories.
pub open spec fn errors_of<T>(results: Seq<Result<Vec<T>, String>>) -> Seq<Seq<char>>
    decreases results.len(),
{
    if results.len() == 0 {
        Seq::empty()
    } else {
        (match results[0] {
            Ok(_) => Seq::empty(),
            Err(e) => seq![e@],
        }) + errors_of(results.drop_first())
    }
}

/// How a run ended.
#[derive(Debug, Clone, Copy, PartialEq, Eq, Structural)]
pub enum RunOutcome {
    /// The project configures no repository.
    NothingToRun,
    /// A repository could not be configured; no hook was run.
    ConfigurationFailed,
    /// Every ready hook was run; so many of them failed.
    Completed(usize),
    /// A hook failed and the run stops at the first failure; the hooks
    /// behind it were not run.
    StoppedAtFailure,
}

/// The exit status of a run: zero if no hook failed and nothing else went
/// wrong, else one.
pub open spec fn exit_status(outcome: RunOutcome) -> u8 {
    match outcome {
        RunOutcome::NothingToRun => 0,
        RunOutcome::Completed(failed) => if failed == 0 {
            0
        } else {
            1
        },
        RunOutcome::ConfigurationFailed => 1,
        RunOutcome::StoppedAtFailure => 1,
    }
}

impl RunOutcome {
    /// The exit status of the run.
    pub fn exit_code(&self) -> (code: u8)
        ensures
            code == exit_status(*self),
    {
        match self {
            RunOutcome::NothingToRun => 0,
            RunOutcome::Completed(failed) => if *failed == 0 {
                0
            } else {
                1
            },
            RunOutcome::ConfigurationFailed => 1,
            RunOutcome::StoppedAtFailure => 1,
        }
    }
}

/// Where a run stands while its hooks are run one after the other, in the
/// order of the configuration: which hook is to be run now, and how many of
/// those before it failed.
#[derive(Debug, Clone, Copy, PartialEq, Eq)]
pub struct RunProgress {
    fail_fast: bool,
    total: usize,
    next: usize,
    failed: usize,
}

/// What follows the run of one hook.
#[derive(Debug, Clone, Copy, PartialEq, Eq)]
pub enum RunStep {
    /// Run the hook that the progress names.
    Next(RunProgress),
    /// The run is over.
    Finish(RunOutcome),
}

/// How a run begins.
#[derive(Debug)]
pub enum RunStart<T> {
    /// The run is over before any hook was run; the errors of the
    /// repositories that could not be configured are given.
    Finished(RunOutcome, Vec<String>),
    /// These hooks are run, one after the other, beginning with the one
    /// that the progress names.
    Started(Vec<T>, RunProgress),
}

impl RunProgress {
    #[verifier::type_invariant]
    spec fn well_formed(&self) -> bool {
        self.failed <= self.next < self.total
    }

    /// Whether the run stops at the first hook that fails.
    pub closed spec fn stops_at_failure(&self) -> bool {
        self.fail_fast
    }

    /// The number of hooks of the run.
    pub closed spec fn hook_count(&self) -> nat {
        self.total as nat
    }

    /// The position of the hook that is to be run now. All hooks before it
    /// have been run, none behind it.
    pub closed spec fn position(&self) -> nat {
        self.next as nat
    }

    /// The number of hooks that have failed so far.
    pub closed spec fn failures(&self) -> nat {
        self.failed as nat
    }

    /// The position of the hook that is to be run now.
    pub fn pending(&self) -> (i: usize)
        ensures
            i == self.position(),
            i < self.hook_count(),
    {
        proof {
            use_type_invariant(self);
        }
        self.next
    }

    /// Takes note of how the pending hook ended and says what follows. A
    /// failure ends the run at once if the run stops at the first failure.
    /// Otherwise the next hook is run, or, after the last one, the run is
    /// complete. A skipped hook counts as run and not as failed.
    pub fn record(self, result: &RunHookResult) -> (step: RunStep)
        ensures
            step_follows(self, result.deep_view(), step),
    {
        proof {
            use_type_invariant(&self);
        }
        let has_failed = match result {
            RunHookResult::Failure => true,
            _ => false,
        };
        if has_failed && self.fail_fast {
            return RunStep::Finish(RunOutcome::StoppedAtFailure);
        }
        let failed = if has_failed {
            self.failed + 1
        } else {
            self.failed
        };
        if self.next + 1 < self.total {
            RunStep::Next(
                RunProgress {
                    fail_fast: self.fail_fast,
                    total: self.total,
                    next: self.next + 1,
                    failed,
                },
            )
        } else {
            RunStep::Finish(RunOutcome::Completed(failed))
        }
    }
}

/// What follows when the hook that `p` names ends with `result`. A
/// failure ends the run at once if the run stops at the first failure.
/// Otherwise the next hook is run, or, after the last one, the run is
/// complete with the failures counted.
pub open spec fn step_follows(p: RunProgress, result: RunHookResultView, step: RunStep) -> bool {
    let has_failed = result == RunHookResultView::Failure;
    let failed = if has_failed {
        p.failures() + 1
    } else {
        p.failures()
    };
    if has_failed && p.stops_at_failure() {
        step == RunStep::Finish(RunOutcome::StoppedAtFailure)
    } else if p.position() + 1 < p.hook_count() {
        match step {
            RunStep::Next(next) => {
                &&& next.stops_at_failure() == p.stops_at_failure()
                &&& next.hook_count() == p.hook_count()
                &&& next.position() == p.position() + 1
                &&& next.failures() == failed
            },
            RunStep::Finish(_) => false,
        }
    } else {
        step == RunStep::Finish(RunOutcome::Completed(failed as usize))
    }
}

/// The number of failures among the first `n` results.
pub open spec fn failures_among(results: Seq<RunHookResultView>, n: int) -> nat
    decreases n,
{
    if n <= 0 {
        0
    } else {
        failures_among(results, n - 1) + (if results[n - 1] == RunHookResultView::Failure {
            1nat
        } else {
            0nat
        })
    }
}

/// A run from its first hook to its end: the hook at position `i` was run
/// in the state `progress[i]` and ended with `results[i]`, and after the
/// last of them the run ended with `outcome`.
pub open spec fn is_run(
    progress: Seq<RunProgress>,
    results: Seq<RunHookResultView>,
    outcome: RunOutcome,
) -> bool {
    &&& progress.len() == results.len()
    &&& progress.len() > 0
    &&& progress[0].position() == 0
    &&& progress[0].failures() == 0
    &&& progress[0].hook_count() > 0
    &&& forall|i: int|
        0 <= i < progress.len() - 1 ==> step_follows(
            #[trigger] progress[i],
            results[i],
            RunStep::Next(progress[i + 1]),
        )
    &&& step_follows(progress.last(), results.last(), RunStep::Finish(outcome))
}

/// In a run the hooks are run one after the other in the order of the
/// configuration, and the failures so far are counted.
pub proof fn lemma_run_is_in_order(
    progress: Seq<RunProgress>,
    results: Seq<RunHookResultView>,
    outcome: RunOutcome,
    i: int,
)
    requires
        is_run(progress, results, outcome),
        0 <= i < progress.len(),
    ensures
        progress[i].position() == i,
        progress[i].failures() == failures_among(results, i),
        progress[i].stops_at_failure() == progress[0].stops_at_failure(),
        progress[i].hook_count() == progress[0].hook_count(),
        progress[i].stops_at_failure() ==> failures_among(results, i) == 0,
    decreases i,
{
    if i > 0 {
        lemma_run_is_in_order(progress, results, outcome, i - 1);
        assert(step_follows(progress[i - 1], results[i - 1], RunStep::Next(progress[i])));
    }
}

/// How a run ends. A run that stops at the first failure runs no hook after
/// a hook that failed: it ends with the first failure, or it runs every hook
/// and none fails. Any other run runs every hook and ends with the number of
/// those that failed. The exit status is zero if and only if no hook failed.
pub proof fn lemma_run_end(
    progress: Seq<RunProgress>,
    results: Seq<RunHookResultView>,
    outcome: RunOutcome,
)
    requires
        is_run(progress, results, outcome),
    ensures
        forall|i: int|
            0 <= i < results.len() - 1 && progress[0].stops_at_failure() ==> #[trigger] results[i]
                != RunHookResultView::Failure,
        outcome == (if progress[0].stops_at_failure() && results.last()
            == RunHookResultView::Failure {
            RunOutcome::StoppedAtFailure
        } else {
            RunOutcome::Completed(failures_among(results, results.len() as int) as usize)
        }),
        outcome != RunOutcome::StoppedAtFailure ==> results.len() == progress[0].hook_count(),
        exit_status(outcome) == 0 <==> failures_among(results, results.len() as int) == 0,
{
    let n = results.len() as int;
    lemma_run_is_in_order(progress, results, outcome, n - 1);
    assert forall|i: int|
        0 <= i < n - 1 && progress[0].stops_at_failure() implies #[trigger] results[i]
        != RunHookResultView::Failure by {
        lemma_run_is_in_order(progress, results, outcome, i);
        assert(step_follows(progress[i], results[i], RunStep::Next(progress[i + 1])));
    }
    assert(progress.last() == progress[n - 1]);
    assert(results.last() == results[n - 1]);
    lemma_failures_bound(results, n);
    if n > 1 {
        lemma_run_is_in_order(progress, results, outcome, n - 2);
        assert(step_follows(progress[n - 2], results[n - 2], RunStep::Next(progress[n - 1])));
    }
    assert(n <= progress[0].hook_count());
}

/// There are no more failures among the first `n` results than results.
proof fn lemma_failures_bound(results: Seq<RunHookResultView>, n: int)
    requires
        0 <= n,
    ensures
        failures_among(results, n) <= n,
    decreases n,
{
    if n > 0 {
        lemma_failures_bound(results, n - 1);
    }
}

/// Begins a run from what configuring the repositories gave, one result per
/// repository in the order of the configuration. Without repositories there
/// is nothing to run. If a repository could not be configured, no hook is
/// run. Otherwise the ready hooks of all repositories are run in order.
pub fn start_run<T>(fail_fast: bool, results: Vec<Result<Vec<T>, String>>) -> (r: RunStart<T>)
    ensures
        match r {
            RunStart::Finished(outcome, errors) => {
                &&& errors.deep_view() == errors_of(results@)
                &&& outcome == (if results@.len() == 0 {
                    RunOutcome::NothingToRun
                } else if errors_of(results@).len() > 0 {
                    RunOutcome::ConfigurationFailed
                } else {
                    RunOutcome::Completed(0)
                })
                &&& errors_of(results@).len() == 0 ==> ready_items(results@).len() == 0
            },
            RunStart::Started(hooks, progress) => {
                &&& errors_of(results@).len() == 0
                &&& hooks@ == ready_items(results@)
                &&& hooks@.len() > 0
                &&& progress.stops_at_failure() == fail_fast
                &&& progress.hook_count() == hooks@.len()
                &&& progress.position() == 0
                &&& progress.failures() == 0
            },
        },
{
    let no_repos = results.len() == 0;
    let mut rest = results;
    let mut hooks: Vec<T> = Vec::new();
    let mut errors: Vec<String> = Vec::new();
    assert(errors.deep_view() =~= Seq::<Seq<char>>::empty());
    while rest.len() > 0
        invariant
            ready_items(results@) == hooks@ + ready_items(rest@),
            errors_of(results@) == errors.deep_view() + errors_of(rest@),
        decreases rest.len(),
    {
        let ghost before = rest@;
        let ghost hooks_before = hooks@;
        let ghost errors_before = errors.deep_view();
        let first = rest.remove(0);
        assert(rest@ =~= before.drop_first());
        match first {
            Ok(items) => {
                let mut items = items;
                let ghost added = items@;
                hooks.append(&mut items);
                assert(hooks@ + ready_items(rest@) =~= hooks_before + (added + ready_items(rest@)));
                assert(errors_before + errors_of(rest@) =~= errors_before + (Seq::<
                    Seq<char>,
                >::empty() + errors_of(rest@)));
            },
            Err(e) => {
                let ghost text = e@;
                push_text(&mut errors, e);
                assert(errors.deep_view() + errors_of(rest@) =~= errors_before + (seq![text]
                    + errors_of(rest@)));
                assert(hooks_before + ready_items(rest@) =~= hooks_before + (Seq::<T>::empty()
                    + ready_items(rest@)));
            },
        }
    }
    proof {
        assert(hooks@ + ready_items(rest@) =~= hooks@);
        assert(errors.deep_view() + errors_of(rest@) =~= errors.deep_view());
    }
    if no_repos {
        return RunStart::Finished(RunOutcome::NothingToRun, errors);
    }
    if errors.len() > 0 {
        return RunStart::Finished(RunOutcome::ConfigurationFailed, errors);
    }
    if hooks.len() == 0 {
        return RunStart::Finished(RunOutcome::Completed(0), errors);
    }
    let progress = RunProgress { fail_fast, total: hooks.len(), next: 0, failed: 0 };
    RunStart::Started(hooks, progress)
}

/// The names of the options that are set for a hook and that the tool does
/// not honour, in this order: `exclude_types`, `always_run`, `log_file`,
/// `language_version`.
pub open spec fn unhonoured(hc: HookConfigurationView, hook: HookDefinitionView) -> Seq<Seq<char>> {
    (if hc.overrides.exclude_types is Some {
        seq!["exclude_types"@]
    } else {
        Seq::empty()
    }) + (if hook.always_run {
        seq!["always_run"@]
    } else {
        Seq::empty()
    }) + (if hc.info.log_file is Some {
        seq!["log_file"@]
    } else {
        Seq::empty()
    }) + (if hc.info.language_version is Some {
        seq!["language_version"@]
    } else {
        Seq::empty()
    })
}

/// The options that are set for the configured hook `hc`, resolved to
/// `hook`, and that the tool does not honour. Each is worth a warning and
/// is otherwise ignored.
pub fn unhonoured_options(hc: &HookConfiguration, hook: &HookDefinition) -> (r: Vec<String>)
    ensures
        r.deep_view() == unhonoured(hc.deep_view(), hook.deep_view()),
{
    let mut names: Vec<String> = Vec::new();
    if hc.overrides.exclude_types.is_some() {
        push_text(&mut names, "exclude_types".to_owned());
    }
    if hook.always_run {
        push_text(&mut names, "always_run".to_owned());
    }
    if hc.info.log_file.is_some() {
        push_text(&mut names, "log_file".to_owned());
    }
    if hc.info.language_version.is_some() {
        push_text(&mut names, "language_version".to_owned());
    }
    assert(names.deep_view() =~= unhonoured(hc.deep_view(), hook.deep_view()));
    names
}

/// The lines that tell the user of an error: the error itself, and under it
/// each of its causes, outermost first.
pub open spec fn error_lines(chain: Seq<Seq<char>>) -> Seq<Seq<char>> {
    Seq::new(
        chain.len(),
        |i: int|
            if i == 0 {
                "error: "@ + chain[i]
            } else {
                "  Caused by: "@ + chain[i]
            },
    )
}

/// Writes the lines that tell the user of an error with the given chain of
/// messages, the error's own first and its causes behind it.
pub fn error_report(chain: &Vec<String>) -> (r: Vec<String>)
    ensures
        r.deep_view() == error_lines(chain.deep_view()),
{
    let mut lines: Vec<String> = Vec::new();
    let mut i: usize = 0;
    while i < chain.len()
        invariant
            i <= chain.len(),
            lines.deep_view() == error_lines(chain.deep_view()).take(i as int),
        decreases chain.len() - i,
    {
        let line = if i == 0 {
            join2("error: ", chain[i].as_str())
        } else {
            join2("  Caused by: ", chain[i].as_str())
        };
        push_text(&mut lines, line);
        i += 1;
        assert(lines.deep_view() =~= error_lines(chain.deep_view()).take(i as int));
    }
    assert(error_lines(chain.deep_view()).take(chain.len() as int) =~= error_lines(
        chain.deep_view(),
    ));
    lines
}

} // verus!
