//! The project's own configuration: which hook repositories to use, at which
//! revision, and which of their hooks to run with which overrides.

use crate::cfg::pre_commit_hooks::{StageOrUnknown, StageOrUnknownView};
use crate::text::text_eq;
use vstd::prelude::*;

verus! {

/// Where a repository entry gets its hooks from.
#[derive(Debug, Clone, PartialEq)]
pub enum RepoURL {
    Local,
    Meta,
    Url(String),
}

/// The mathematical value of a [`RepoURL`].
pub enum RepoURLView {
    Local,
    Meta,
    Url(Seq<char>),
}

impl DeepView for RepoURL {
    type V = RepoURLView;

    open spec fn deep_view(&self) -> RepoURLView {
        match self {
            RepoURL::Local => RepoURLView::Local,
            RepoURL::Meta => RepoURLView::Meta,
            RepoURL::Url(url) => RepoURLView::Url(url@),
        }
    }
}

impl RepoURLView {
    /// The text that stands for this value in a configuration file.
    pub open spec fn text(self) -> Seq<char> {
        match self {
            RepoURLView::Local => "local"@,
            RepoURLView::Meta => "meta"@,
            RepoURLView::Url(url) => url,
        }
    }
}

impl RepoURL {
    /// Reads the `repo` value of a configuration entry: the words `local` and
    /// `meta` stand for themselves, anything else is a URL.
    pub fn from_config_value(value: &str) -> (r: RepoURL)
        ensures
            r.deep_view() == (if value@ == "local"@ {
                RepoURLView::Local
            } else if value@ == "meta"@ {
                RepoURLView::Meta
            } else {
                RepoURLView::Url(value@)
            }),
    {
        if text_eq(value, "local") {
            RepoURL::Local
        } else if text_eq(value, "meta") {
            RepoURL::Meta
        } else {
            RepoURL::Url(value.to_owned())
        }
    }

    /// The text that stands for this value in a configuration file.
    pub fn to_string(&self) -> (r: String)
        ensures
            r@ == self.deep_view().text(),
    {
        match self {
            RepoURL::Local => "local".to_owned(),
            RepoURL::Meta => "meta".to_owned(),
            RepoURL::Url(url) => url.clone(),
        }
    }

    /// A copy of this value.
    pub fn duplicate(&self) -> (r: RepoURL)
        ensures
            r == *self,
    {
        match self {
            RepoURL::Local => RepoURL::Local,
            RepoURL::Meta => RepoURL::Meta,
            RepoURL::Url(url) => RepoURL::Url(url.clone()),
        }
    }
}

/// Settings of a configured hook that do not change the hook's definition.
#[derive(Debug, Clone, PartialEq)]
pub struct HookConfigurationInfo {
    /// A second name by which the hook can be chosen on the command line.
    pub alias: Option<String>,
    /// Requested language version; not honoured.
    pub language_version: Option<String>,
    /// Let the hook's output through instead of capturing it.
    pub verbose: bool,
    /// File to write the hook's output to; not honoured.
    pub log_file: Option<String>,
}

/// The mathematical value of a [`HookConfigurationInfo`].
pub struct HookConfigurationInfoView {
    pub alias: Option<Seq<char>>,
    pub language_version: Option<Seq<char>>,
    pub verbose: bool,
    pub log_file: Option<Seq<char>>,
}

impl DeepView for HookConfigurationInfo {
    type V = HookConfigurationInfoView;

    open spec fn deep_view(&self) -> HookConfigurationInfoView {
        HookConfigurationInfoView {
            alias: self.alias.deep_view(),
            language_version: self.language_version.deep_view(),
            verbose: self.verbose,
            log_file: self.log_file.deep_view(),
        }
    }
}

/// The fields of a hook's definition that the project may replace. A field
/// that is `None` leaves the published value in place.
#[derive(Debug, Clone, PartialEq)]
pub struct HookDefinitionOverrides {
    pub name: Option<String>,
    pub description: Option<String>,
    pub files: Option<String>,
    pub exclude: Option<String>,
    pub types: Option<Vec<String>>,
    pub types_or: Option<Vec<String>>,
    pub exclude_types: Option<Vec<String>>,
    pub additional_dependencies: Option<Vec<String>>,
    pub args: Option<Vec<String>>,
    pub stages: Option<Vec<StageOrUnknown>>,
    pub always_run: Option<bool>,
}

/// The mathematical value of a [`HookDefinitionOverrides`].
pub struct HookDefinitionOverridesView {
    pub name: Option<Seq<char>>,
    pub description: Option<Seq<char>>,
    pub files: Option<Seq<char>>,
    pub exclude: Option<Seq<char>>,
    pub types: Option<Seq<Seq<char>>>,
    pub types_or: Option<Seq<Seq<char>>>,
    pub exclude_types: Option<Seq<Seq<char>>>,
    pub additional_dependencies: Option<Seq<Seq<char>>>,
    pub args: Option<Seq<Seq<char>>>,
    pub stages: Option<Seq<StageOrUnknownView>>,
    pub always_run: Option<bool>,
}

impl DeepView for HookDefinitionOverrides {
    type V = HookDefinitionOverridesView;

    open spec fn deep_view(&self) -> HookDefinitionOverridesView {
        HookDefinitionOverridesView {
            name: self.name.deep_view(),
            description: self.description.deep_view(),
            files: self.files.deep_view(),
            exclude: self.exclude.deep_view(),
            types: self.types.deep_view(),
            types_or: self.types_or.deep_view(),
            exclude_types: self.exclude_types.deep_view(),
            additional_dependencies: self.additional_dependencies.deep_view(),
            args: self.args.deep_view(),
            stages: self.stages.deep_view(),
            always_run: self.always_run,
        }
    }
}

impl HookDefinitionOverridesView {
    /// No field is set: the published definition is used as it stands.
    pub open spec fn is_empty(self) -> bool {
        &&& self.name is None
        &&& self.description is None
        &&& self.files is None
        &&& self.exclude is None
        &&& self.types is None
        &&& self.types_or is None
        &&& self.exclude_types is None
        &&& self.additional_dependencies is None
        &&& self.args is None
        &&& self.stages is None
        &&& self.always_run is None
    }
}

impl HookDefinitionOverrides {
    /// Overrides that replace nothing.
    pub fn none() -> (r: HookDefinitionOverrides)
        ensures
            r.deep_view().is_empty(),
    {
        HookDefinitionOverrides {
            name: None,
            description: None,
            files: None,
            exclude: None,
            types: None,
            types_or: None,
            exclude_types: None,
            additional_dependencies: None,
            args: None,
            stages: None,
            always_run: None,
        }
    }
}

/// One hook that the project asks for: its id in the repository's manifest,
/// and what the project changes about it.
#[derive(Debug, Clone, PartialEq)]
pub struct HookConfiguration {
    pub id: String,
    pub info: HookConfigurationInfo,
    pub overrides: HookDefinitionOverrides,
}

/// The mathematical value of a [`HookConfiguration`].
pub struct HookConfigurationView {
    pub id: Seq<char>,
    pub info: HookConfigurationInfoView,
    pub overrides: HookDefinitionOverridesView,
}

impl DeepView for HookConfiguration {
    type V = HookConfigurationView;

    open spec fn deep_view(&self) -> HookConfigurationView {
        HookConfigurationView {
            id: self.id@,
            info: self.info.deep_view(),
            overrides: self.overrides.deep_view(),
        }
    }
}

/// One hook repository, pinned to a revision, with the hooks to run from it.
#[derive(Debug, Clone, PartialEq)]
pub struct Repo {
    pub url: RepoURL,
    pub rev: String,
    pub hooks: Vec<HookConfiguration>,
}

/// The mathematical value of a [`Repo`].
pub struct RepoView {
    pub url: RepoURLView,
    pub rev: Seq<char>,
    pub hooks: Seq<HookConfigurationView>,
}

impl DeepView for Repo {
    type V = RepoView;

    open spec fn deep_view(&self) -> RepoView {
        RepoView { url: self.url.deep_view(), rev: self.rev@, hooks: self.hooks.deep_view() }
    }
}

/// The project's configuration file.
#[derive(Debug, Clone, PartialEq)]
pub struct PrecommitConfig {
    /// Advisory only.
    pub minimum_pre_commit_version: Option<String>,
    /// Stop at the first hook that fails.
    pub fail_fast: bool,
    /// Pattern that the path of every file handed to any hook must match.
    pub files: Option<String>,
    /// Pattern that the path of no file handed to any hook may match.
    pub exclude: Option<String>,
    pub repos: Vec<Repo>,
}

/// The mathematical value of a [`PrecommitConfig`].
pub struct PrecommitConfigView {
    pub minimum_pre_commit_version: Option<Seq<char>>,
    pub fail_fast: bool,
    pub files: Option<Seq<char>>,
    pub exclude: Option<Seq<char>>,
    pub repos: Seq<RepoView>,
}

impl DeepView for PrecommitConfig {
    type V = PrecommitConfigView;

    open spec fn deep_view(&self) -> PrecommitConfigView {
        PrecommitConfigView {
            minimum_pre_commit_version: self.minimum_pre_commit_version.deep_view(),
            fail_fast: self.fail_fast,
            files: self.files.deep_view(),
            exclude: self.exclude.deep_view(),
            repos: self.repos.deep_view(),
        }
    }
}

} // verus!
