//! Reading the entries of configuration files and manifests: names become
//! values, keys that are left out take their defaults, and type tags that
//! the classifier does not know are dropped.

use crate::cfg::pre_commit_config::{
    HookConfiguration, HookConfigurationInfo, HookConfigurationView, HookConfigurationInfoView,
    HookDefinitionOverrides, HookDefinitionOverridesView, PrecommitConfig, Repo, RepoURL,
    RepoURLView,
};
use crate::cfg::pre_commit_hooks::{
    language_named, stage_named, HookDefinition, HookDefinitionView, LanguageOrUnknown,
    LanguageOrUnknownView, StageOrUnknown, StageOrUnknownView,
};
use crate::run_hook::push_item;
use crate::text::push_text;
use vstd::prelude::*;

verus! {

/// A type tag as a configuration file names it, with the classifier's word
/// on whether it knows the tag.
#[derive(Debug, Clone, PartialEq)]
pub struct TypeName {
    pub name: String,
    pub known: bool,
}

/// The names of the tags in `names` that are known, or that are unknown, as
/// `known` says, in order.
pub open spec fn names_where(names: Seq<TypeName>, known: bool) -> Seq<Seq<char>>
    decreases names.len(),
{
    if names.len() == 0 {
        Seq::empty()
    } else if names.last().known == known {
        names_where(names.drop_last(), known).push(names.last().name@)
    } else {
        names_where(names.drop_last(), known)
    }
}

/// What reading a list of type tags gives.
#[derive(Debug, Clone, PartialEq)]
pub struct TypeList {
    /// The tags that are known, in the order of the file; `None` where the
    /// file has no list.
    pub types: Option<Vec<String>>,
    /// The tags that are not known. They are dropped, with a warning each.
    pub unknown: Vec<String>,
}

/// Reads an optional list of type tags: a tag that the classifier does not
/// know is dropped from the list and reported. A missing list stays missing.
pub fn deserialize_type_list(value: Option<Vec<TypeName>>) -> (r: TypeList)
    ensures
        match value {
            Some(names) => r.types.deep_view() == Some(names_where(names@, true))
                && r.unknown.deep_view() == names_where(names@, false),
            None => r.types is None && r.unknown.deep_view() == Seq::<Seq<char>>::empty(),
        },
{
    let mut unknown: Vec<String> = Vec::new();
    assert(unknown.deep_view() =~= Seq::<Seq<char>>::empty());
    match value {
        None => TypeList { types: None, unknown },
        Some(names) => {
            let mut types_vec: Vec<String> = Vec::new();
            let mut i: usize = 0;
            assert(types_vec.deep_view() =~= Seq::<Seq<char>>::empty());
            while i < names.len()
                invariant
                    i <= names.len(),
                    types_vec.deep_view() == names_where(names@.take(i as int), true),
                    unknown.deep_view() == names_where(names@.take(i as int), false),
                decreases names.len() - i,
            {
                if names[i].known {
                    push_text(&mut types_vec, names[i].name.clone());
                } else {
                    push_text(&mut unknown, names[i].name.clone());
                }
                i += 1;
                proof {
                    let now = names@.take(i as int);
                    assert(now.drop_last() =~= names@.take(i - 1));
                    assert(now.last() == names@[i - 1]);
                }
            }
            assert(names@.take(names.len() as int) =~= names@);
            TypeList { types: Some(types_vec), unknown }
        },
    }
}

/// What a stage name stands for: the stage, or the name itself where no
/// stage has it.
pub open spec fn stage_or_unknown(name: Seq<char>) -> StageOrUnknownView {
    match stage_named(name) {
        Some(s) => StageOrUnknownView::Stage(s),
        None => StageOrUnknownView::Unknown(name),
    }
}

/// What a language name stands for: the language, or the name itself where
/// no supported language has it.
pub open spec fn language_or_unknown(name: Seq<char>) -> LanguageOrUnknownView {
    match language_named(name) {
        Some(l) => LanguageOrUnknownView::Language(l),
        None => LanguageOrUnknownView::Unknown(name),
    }
}

/// What a list of stage names stands for.
pub open spec fn stages_named(names: Option<Seq<Seq<char>>>) -> Option<Seq<StageOrUnknownView>> {
    match names {
        Some(n) => Some(Seq::new(n.len(), |i: int| stage_or_unknown(n[i]))),
        None => None,
    }
}

/// The known tags of an optional list of type tags.
pub open spec fn known_types(names: Option<Vec<TypeName>>) -> Option<Seq<Seq<char>>> {
    match names {
        Some(n) => Some(names_where(n@, true)),
        None => None,
    }
}

/// The unknown tags of an optional list of type tags.
pub open spec fn unknown_types(names: Option<Vec<TypeName>>) -> Seq<Seq<char>> {
    match names {
        Some(n) => names_where(n@, false),
        None => Seq::empty(),
    }
}

/// Reads an optional list of stage names: a name that no stage has is kept
/// as an unknown stage.
pub fn read_stages(names: &Option<Vec<String>>) -> (r: Option<Vec<StageOrUnknown>>)
    ensures
        r.deep_view() == stages_named(names.deep_view()),
{
    match names {
        None => None,
        Some(list) => {
            let mut stages: Vec<StageOrUnknown> = Vec::new();
            let mut i: usize = 0;
            while i < list.len()
                invariant
                    i <= list.len(),
                    stages.deep_view().len() == i,
                    forall|k: int|
                        0 <= k < i ==> #[trigger] stages.deep_view()[k] == stage_or_unknown(
                            list.deep_view()[k],
                        ),
                decreases list.len() - i,
            {
                push_item(&mut stages, StageOrUnknown::from_name(list[i].as_str()));
                i += 1;
            }
            assert(stages.deep_view() =~= Seq::new(
                list.deep_view().len(),
                |i: int| stage_or_unknown(list.deep_view()[i]),
            ));
            Some(stages)
        },
    }
}

/// One hook of a manifest as the file holds it: every key that may be left
/// out is optional, names are not yet read, and each type tag carries the
/// classifier's word on it.
#[derive(Debug, Clone, PartialEq)]
pub struct RawHookDefinition {
    pub id: String,
    pub name: String,
    pub description: Option<String>,
    pub entry: String,
    pub args: Option<Vec<String>>,
    pub language: String,
    pub stages: Option<Vec<String>>,
    pub types: Option<Vec<TypeName>>,
    pub types_or: Option<Vec<TypeName>>,
    pub exclude_types: Option<Vec<TypeName>>,
    pub files: Option<String>,
    pub exclude: Option<String>,
    pub pass_filenames: Option<bool>,
    pub always_run: Option<bool>,
    pub require_serial: Option<bool>,
    pub additional_dependencies: Option<Vec<String>>,
    pub minimum_pre_commit_version: Option<String>,
}

/// The text of an optional string, empty where it is absent.
pub open spec fn text_or_empty(text: Option<String>) -> Seq<char> {
    match text {
        Some(t) => t@,
        None => Seq::empty(),
    }
}

/// The strings of an optional list, none where it is absent.
pub open spec fn list_or_empty(list: Option<Vec<String>>) -> Seq<Seq<char>> {
    match list {
        Some(l) => l.deep_view(),
        None => Seq::empty(),
    }
}

/// The value of an optional flag, `default` where it is absent.
pub open spec fn flag_or(flag: Option<bool>, default: bool) -> bool {
    match flag {
        Some(f) => f,
        None => default,
    }
}

/// The published hook that a manifest entry stands for. Keys that are left
/// out take their defaults: an empty description, no arguments, file names
/// passed, not always run, not serial, no additional dependencies. An
/// unknown language or stage is kept by name; unknown type tags are dropped.
/// `exclude_types` is read and not used.
pub open spec fn published_hook(raw: RawHookDefinition) -> HookDefinitionView {
    HookDefinitionView {
        id: raw.id@,
        name: raw.name@,
        description: text_or_empty(raw.description),
        entry: raw.entry@,
        args: list_or_empty(raw.args),
        language: language_or_unknown(raw.language@),
        stages: stages_named(raw.stages.deep_view()),
        types: known_types(raw.types),
        types_or: known_types(raw.types_or),
        files: raw.files.deep_view(),
        exclude: raw.exclude.deep_view(),
        pass_filenames: flag_or(raw.pass_filenames, true),
        always_run: flag_or(raw.always_run, false),
        require_serial: flag_or(raw.require_serial, false),
        additional_dependencies: list_or_empty(raw.additional_dependencies),
        minimum_pre_commit_version: raw.minimum_pre_commit_version.deep_view(),
    }
}

/// A value read from a file, with the type tags that were dropped from it
/// because the classifier does not know them.
#[derive(Debug, Clone, PartialEq)]
pub struct Read<T> {
    pub value: T,
    pub unknown_types: Vec<String>,
}

fn list_or_new(list: Option<Vec<String>>) -> (r: Vec<String>)
    ensures
        r.deep_view() == list_or_empty(list),
{
    match list {
        Some(l) => l,
        None => {
            let empty: Vec<String> = Vec::new();
            assert(empty.deep_view() =~= Seq::<Seq<char>>::empty());
            empty
        },
    }
}

/// Reads one hook of a manifest: see [`published_hook`]. The unknown type
/// tags of `types`, `types_or` and `exclude_types` are reported, in this
/// order.
pub fn read_hook_definition(raw: RawHookDefinition) -> (r: Read<HookDefinition>)
    ensures
        r.value.deep_view() == published_hook(raw),
        r.unknown_types.deep_view() == unknown_types(raw.types) + unknown_types(raw.types_or)
            + unknown_types(raw.exclude_types),
{
    let ghost original = raw;
    let stages = read_stages(&raw.stages);
    let language = LanguageOrUnknown::from_name(raw.language.as_str());
    let types = deserialize_type_list(raw.types);
    let types_or = deserialize_type_list(raw.types_or);
    let exclude_types = deserialize_type_list(raw.exclude_types);
    let mut unknown = types.unknown;
    let mut more = types_or.unknown;
    let mut last = exclude_types.unknown;
    proof {
        assert(unknown.deep_view() == unknown_types(original.types));
        assert(more.deep_view() == unknown_types(original.types_or));
        assert(last.deep_view() == unknown_types(original.exclude_types));
    }
    let ghost a = unknown.deep_view();
    let ghost b = more.deep_view();
    let ghost c = last.deep_view();
    unknown.append(&mut more);
    assert(unknown.deep_view() =~= a + b);
    unknown.append(&mut last);
    assert(unknown.deep_view() =~= a + b + c);
    let value = HookDefinition {
        id: raw.id,
        name: raw.name,
        description: match raw.description {
            Some(d) => d,
            None => String::new(),
        },
        entry: raw.entry,
        args: list_or_new(raw.args),
        language,
        stages,
        types: types.types,
        types_or: types_or.types,
        files: raw.files,
        exclude: raw.exclude,
        pass_filenames: match raw.pass_filenames {
            Some(f) => f,
            None => crate::cfg::pre_commit_hooks::default_as_true(),
        },
        always_run: match raw.always_run {
            Some(f) => f,
            None => false,
        },
        require_serial: match raw.require_serial {
            Some(f) => f,
            None => false,
        },
        additional_dependencies: list_or_new(raw.additional_dependencies),
        minimum_pre_commit_version: raw.minimum_pre_commit_version,
    };
    Read { value, unknown_types: unknown }
}

/// One hook of the project's configuration as the file holds it.
#[derive(Debug, Clone, PartialEq)]
pub struct RawHookConfiguration {
    pub id: String,
    pub alias: Option<String>,
    pub language_version: Option<String>,
    pub verbose: Option<bool>,
    pub log_file: Option<String>,
    pub name: Option<String>,
    pub description: Option<String>,
    pub files: Option<String>,
    pub exclude: Option<String>,
    pub types: Option<Vec<TypeName>>,
    pub types_or: Option<Vec<TypeName>>,
    pub exclude_types: Option<Vec<TypeName>>,
    pub additional_dependencies: Option<Vec<String>>,
    pub args: Option<Vec<String>>,
    pub stages: Option<Vec<String>>,
    pub always_run: Option<bool>,
}

/// The configured hook that an entry of the project's configuration stands
/// for. `verbose` is off where it is left out; unknown stages are kept by
/// name; unknown type tags are dropped.
pub open spec fn configured_hook(raw: RawHookConfiguration) -> HookConfigurationView {
    HookConfigurationView {
        id: raw.id@,
        info: HookConfigurationInfoView {
            alias: raw.alias.deep_view(),
            language_version: raw.language_version.deep_view(),
            verbose: flag_or(raw.verbose, false),
            log_file: raw.log_file.deep_view(),
        },
        overrides: HookDefinitionOverridesView {
            name: raw.name.deep_view(),
            description: raw.description.deep_view(),
            files: raw.files.deep_view(),
            exclude: raw.exclude.deep_view(),
            types: known_types(raw.types),
            types_or: known_types(raw.types_or),
            exclude_types: known_types(raw.exclude_types),
            additional_dependencies: raw.additional_dependencies.deep_view(),
            args: raw.args.deep_view(),
            stages: stages_named(raw.stages.deep_view()),
            always_run: raw.always_run,
        },
    }
}

/// Reads one hook of the project's configuration: see [`configured_hook`].
/// The unknown type tags of `types`, `types_or` and `exclude_types` are
/// reported, in this order.
pub fn read_hook_configuration(raw: RawHookConfiguration) -> (r: Read<HookConfiguration>)
    ensures
        r.value.deep_view() == configured_hook(raw),
        r.unknown_types.deep_view() == unknown_types(raw.types) + unknown_types(raw.types_or)
            + unknown_types(raw.exclude_types),
{
    let stages = read_stages(&raw.stages);
    let types = deserialize_type_list(raw.types);
    let types_or = deserialize_type_list(raw.types_or);
    let exclude_types = deserialize_type_list(raw.exclude_types);
    let mut unknown = types.unknown;
    let mut more = types_or.unknown;
    let mut last = exclude_types.unknown;
    let ghost a = unknown.deep_view();
    let ghost b = more.deep_view();
    let ghost c = last.deep_view();
    unknown.append(&mut more);
    assert(unknown.deep_view() =~= a + b);
    unknown.append(&mut last);
    assert(unknown.deep_view() =~= a + b + c);
    let value = HookConfiguration {
        id: raw.id,
        info: HookConfigurationInfo {
            alias: raw.alias,
            language_version: raw.language_version,
            verbose: match raw.verbose {
                Some(f) => f,
                None => false,
            },
            log_file: raw.log_file,
        },
        overrides: HookDefinitionOverrides {
            name: raw.name,
            description: raw.description,
            files: raw.files,
            exclude: raw.exclude,
            types: types.types,
            types_or: types_or.types,
            exclude_types: exclude_types.types,
            additional_dependencies: raw.additional_dependencies,
            args: raw.args,
            stages,
            always_run: raw.always_run,
        },
    };
    Read { value, unknown_types: unknown }
}

/// The unknown type tags of one entry of the project's configuration.
pub open spec fn hook_unknown_types(raw: RawHookConfiguration) -> Seq<Seq<char>> {
    unknown_types(raw.types) + unknown_types(raw.types_or) + unknown_types(raw.exclude_types)
}

/// The unknown type tags of a list of entries, entry after entry.
pub open spec fn hooks_unknown_types(hooks: Seq<RawHookConfiguration>) -> Seq<Seq<char>>
    decreases hooks.len(),
{
    if hooks.len() == 0 {
        Seq::empty()
    } else {
        hooks_unknown_types(hooks.drop_last()) + hook_unknown_types(hooks.last())
    }
}

/// One repository of the project's configuration as the file holds it.
#[derive(Debug, Clone, PartialEq)]
pub struct RawRepo {
    pub repo: String,
    pub rev: String,
    pub hooks: Vec<RawHookConfiguration>,
}

/// What the `repo` value of a repository stands for: the words `local` and
/// `meta` for themselves, anything else for a URL.
pub open spec fn repo_url_of(value: Seq<char>) -> RepoURLView {
    if value == "local"@ {
        RepoURLView::Local
    } else if value == "meta"@ {
        RepoURLView::Meta
    } else {
        RepoURLView::Url(value)
    }
}

/// A configuration that cannot be used.
#[derive(Debug, Clone, PartialEq)]
pub enum ConfigError {
    /// The repository is pinned to no revision: its `rev` is empty.
    EmptyRevision(String),
}

impl ConfigError {
    /// The message shown to the user.
    pub fn message(&self) -> (r: String)
        ensures
            r@ == (match *self {
                ConfigError::EmptyRevision(repo) => "repository "@ + repo@ + " has an empty rev"@,
            }),
    {
        match self {
            ConfigError::EmptyRevision(repo) => crate::text::join3(
                "repository ",
                repo.as_str(),
                " has an empty rev",
            ),
        }
    }
}

/// A repository is well formed if it is pinned to a revision.
pub open spec fn repo_is_well_formed(repo: Repo) -> bool {
    repo.rev@.len() > 0
}

/// Reads one repository of the project's configuration. A repository whose
/// revision is empty is refused. The hooks are read in order; their unknown
/// type tags are reported, hook after hook.
pub fn read_repo(raw: RawRepo) -> (r: Result<Read<Repo>, ConfigError>)
    ensures
        match r {
            Ok(read) => {
                &&& raw.rev@.len() > 0
                &&& repo_is_well_formed(read.value)
                &&& read.value.url.deep_view() == repo_url_of(raw.repo@)
                &&& read.value.rev@ == raw.rev@
                &&& read.value.hooks.deep_view().len() == raw.hooks@.len()
                &&& forall|i: int|
                    0 <= i < raw.hooks@.len() ==> #[trigger] read.value.hooks.deep_view()[i]
                        == configured_hook(raw.hooks@[i])
                &&& read.unknown_types.deep_view() == hooks_unknown_types(raw.hooks@)
            },
            Err(e) => raw.rev@.len() == 0 && e == ConfigError::EmptyRevision(raw.repo),
        },
{
    if raw.rev.as_str().is_empty() {
        return Err(ConfigError::EmptyRevision(raw.repo));
    }
    let url = RepoURL::from_config_value(raw.repo.as_str());
    let ghost all = raw.hooks@;
    let mut rest = raw.hooks;
    let mut hooks: Vec<HookConfiguration> = Vec::new();
    let mut unknown: Vec<String> = Vec::new();
    let ghost mut done: int = 0;
    proof {
        assert(unknown.deep_view() =~= hooks_unknown_types(all.take(0)));
    }
    while rest.len() > 0
        invariant
            0 <= done <= all.len(),
            rest@ == all.skip(done),
            hooks.deep_view().len() == done,
            forall|i: int|
                0 <= i < done ==> #[trigger] hooks.deep_view()[i] == configured_hook(all[i]),
            unknown.deep_view() == hooks_unknown_types(all.take(done)),
        decreases rest.len(),
    {
        let raw_hook = rest.remove(0);
        assert(raw_hook == all[done]);
        let read = read_hook_configuration(raw_hook);
        push_item(&mut hooks, read.value);
        let mut more = read.unknown_types;
        let ghost before = unknown.deep_view();
        let ghost added = more.deep_view();
        unknown.append(&mut more);
        proof {
            assert(unknown.deep_view() =~= before + added);
            let now = all.take(done + 1);
            assert(now.drop_last() =~= all.take(done));
            assert(now.last() == all[done]);
            assert(rest@ =~= all.skip(done + 1));
            done = done + 1;
        }
    }
    proof {
        assert(all.take(done) =~= all);
    }
    Ok(Read { value: Repo { url, rev: raw.rev, hooks }, unknown_types: unknown })
}

/// The project's configuration as the file holds it.
#[derive(Debug, Clone, PartialEq)]
pub struct RawConfig {
    pub minimum_pre_commit_version: Option<String>,
    pub fail_fast: Option<bool>,
    pub files: Option<String>,
    pub exclude: Option<String>,
    pub repos: Vec<RawRepo>,
}

/// The first repository with an empty revision, if there is one.
pub open spec fn first_unpinned(repos: Seq<RawRepo>) -> Option<RawRepo>
    decreases repos.len(),
{
    if repos.len() == 0 {
        None
    } else if repos[0].rev@.len() == 0 {
        Some(repos[0])
    } else {
        first_unpinned(repos.drop_first())
    }
}

/// The unknown type tags of a list of repositories, repository after
/// repository.
pub open spec fn repos_unknown_types(repos: Seq<RawRepo>) -> Seq<Seq<char>>
    decreases repos.len(),
{
    if repos.len() == 0 {
        Seq::empty()
    } else {
        repos_unknown_types(repos.drop_last()) + hooks_unknown_types(repos.last().hooks@)
    }
}

/// Reads the project's configuration. `fail_fast` is off where it is left
/// out. The repositories are read in order; the first one with an empty
/// revision makes the configuration unusable.
pub fn read_config(raw: RawConfig) -> (r: Result<Read<PrecommitConfig>, ConfigError>)
    ensures
        match first_unpinned(raw.repos@) {
            Some(repo) => r == Err::<Read<PrecommitConfig>, ConfigError>(
                ConfigError::EmptyRevision(repo.repo),
            ),
            None => match r {
                Ok(read) => {
                    &&& read.value.minimum_pre_commit_version.deep_view()
                        == raw.minimum_pre_commit_version.deep_view()
                    &&& read.value.fail_fast == flag_or(raw.fail_fast, false)
                    &&& read.value.files.deep_view() == raw.files.deep_view()
                    &&& read.value.exclude.deep_view() == raw.exclude.deep_view()
                    &&& read.value.repos@.len() == raw.repos@.len()
                    &&& forall|i: int|
                        0 <= i < raw.repos@.len() ==> {
                            let repo = #[trigger] read.value.repos@[i];
                            let from = raw.repos@[i];
                            &&& repo_is_well_formed(repo)
                            &&& repo.url.deep_view() == repo_url_of(from.repo@)
                            &&& repo.rev@ == from.rev@
                            &&& repo.hooks.deep_view().len() == from.hooks@.len()
                            &&& forall|j: int|
                                0 <= j < from.hooks@.len() ==> #[trigger] repo.hooks.deep_view()[j]
                                    == configured_hook(from.hooks@[j])
                        }
                    &&& read.unknown_types.deep_view() == repos_unknown_types(raw.repos@)
                },
                Err(_) => false,
            },
        },
{
    let ghost all = raw.repos@;
    let mut rest = raw.repos;
    let mut repos: Vec<Repo> = Vec::new();
    let mut unknown: Vec<String> = Vec::new();
    let ghost mut done: int = 0;
    proof {
        assert(unknown.deep_view() =~= repos_unknown_types(all.take(0)));
        assert(all.skip(0) =~= all);
    }
    while rest.len() > 0
        invariant
            0 <= done <= all.len(),
            rest@ == all.skip(done),
            repos@.len() == done,
            all == raw.repos@,
            first_unpinned(all) == first_unpinned(all.skip(done)),
            forall|i: int|
                0 <= i < done ==> {
                    let repo = #[trigger] repos@[i];
                    let from = all[i];
                    &&& repo_is_well_formed(repo)
                    &&& repo.url.deep_view() == repo_url_of(from.repo@)
                    &&& repo.rev@ == from.rev@
                    &&& repo.hooks.deep_view().len() == from.hooks@.len()
                    &&& forall|j: int|
                        0 <= j < from.hooks@.len() ==> #[trigger] repo.hooks.deep_view()[j]
                            == configured_hook(from.hooks@[j])
                },
            unknown.deep_view() == repos_unknown_types(all.take(done)),
        decreases rest.len(),
    {
        let raw_repo = rest.remove(0);
        proof {
            assert(all.skip(done)[0] == all[done]);
            assert(raw_repo == all[done]);
            assert(all.skip(done).drop_first() =~= all.skip(done + 1));
        }
        let read = match read_repo(raw_repo) {
            Ok(read) => read,
            Err(e) => {
                assert(first_unpinned(all.skip(done)) == Some(all[done]));
                return Err(e);
            },
        };
        assert(first_unpinned(all.skip(done)) == first_unpinned(all.skip(done + 1)));
        repos.push(read.value);
        let mut more = read.unknown_types;
        let ghost before = unknown.deep_view();
        let ghost added = more.deep_view();
        unknown.append(&mut more);
        proof {
            assert(unknown.deep_view() =~= before + added);
            let now = all.take(done + 1);
            assert(now.drop_last() =~= all.take(done));
            assert(now.last() == all[done]);
            assert(rest@ =~= all.skip(done + 1));
            done = done + 1;
        }
    }
    proof {
        assert(all.take(done) =~= all);
        assert(all.skip(done).len() == 0);
    }
    Ok(
        Read {
            value: PrecommitConfig {
                minimum_pre_commit_version: raw.minimum_pre_commit_version,
                fail_fast: match raw.fail_fast {
                    Some(f) => f,
                    None => false,
                },
                files: raw.files,
                exclude: raw.exclude,
                repos,
            },
            unknown_types: unknown,
        },
    )
}

/// The unknown type tags of the hooks of a manifest, hook after hook.
pub open spec fn manifest_unknown_types(hooks: Seq<RawHookDefinition>) -> Seq<Seq<char>>
    decreases hooks.len(),
{
    if hooks.len() == 0 {
        Seq::empty()
    } else {
        manifest_unknown_types(hooks.drop_last()) + (unknown_types(hooks.last().types)
            + unknown_types(hooks.last().types_or) + unknown_types(hooks.last().exclude_types))
    }
}

/// Reads the hooks of a manifest, in order; the unknown type tags are
/// reported, hook after hook.
pub fn read_manifest(raw: Vec<RawHookDefinition>) -> (r: Read<Vec<HookDefinition>>)
    ensures
        r.value.deep_view().len() == raw@.len(),
        forall|i: int|
            0 <= i < raw@.len() ==> #[trigger] r.value.deep_view()[i] == published_hook(raw@[i]),
        r.unknown_types.deep_view() == manifest_unknown_types(raw@),
{
    let ghost all = raw@;
    let mut rest = raw;
    let mut hooks: Vec<HookDefinition> = Vec::new();
    let mut unknown: Vec<String> = Vec::new();
    let ghost mut done: int = 0;
    proof {
        assert(all.skip(0) =~= all);
        assert(unknown.deep_view() =~= manifest_unknown_types(all.take(0)));
    }
    while rest.len() > 0
        invariant
            0 <= done <= all.len(),
            rest@ == all.skip(done),
            hooks.deep_view().len() == done,
            forall|i: int| 0 <= i < done ==> #[trigger] hooks.deep_view()[i] == published_hook(all[i]),
            unknown.deep_view() == manifest_unknown_types(all.take(done)),
        decreases rest.len(),
    {
        let raw_hook = rest.remove(0);
        assert(raw_hook == all[done]);
        let read = read_hook_definition(raw_hook);
        push_item(&mut hooks, read.value);
        let mut more = read.unknown_types;
        let ghost before = unknown.deep_view();
        let ghost added = more.deep_view();
        unknown.append(&mut more);
        proof {
            assert(unknown.deep_view() =~= before + added);
            let now = all.take(done + 1);
            assert(now.drop_last() =~= all.take(done));
            assert(now.last() == all[done]);
            assert(rest@ =~= all.skip(done + 1));
            done = done + 1;
        }
    }
    proof {
        assert(all.take(done) =~= all);
    }
    Read { value: hooks, unknown_types: unknown }
}

} // verus!
