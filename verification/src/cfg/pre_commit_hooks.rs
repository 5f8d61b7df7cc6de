//! The hook manifest that a hook repository publishes.

use crate::text::text_eq;
use vstd::prelude::*;

verus! {

/// The manifest of one hook repository.
pub type PrecommitHooks = Vec<HookDefinition>;

/// The value of `pass_filenames` when a manifest leaves it out.
pub fn default_as_true() -> (r: bool)
    ensures
        r,
{
    true
}

/// A language for which an environment can be provisioned.
#[derive(Debug, Clone, Copy, PartialEq, Eq, Structural)]
pub enum Language {
    Node,
    Python,
}

/// A git hook phase.
#[derive(Debug, Clone, Copy, PartialEq, Eq, Structural)]
pub enum Stage {
    CommitMsg,
    Manual,
    PostCheckout,
    PostCommit,
    PostMerge,
    PostRewrite,
    PreCommit,
    PreMergeCommit,
    PrePush,
    PreRebase,
    PrepareCommitMsg,
}

/// A language name from a manifest: one of the known languages, or the name as written.
#[derive(Debug, Clone, PartialEq)]
pub enum LanguageOrUnknown {
    Language(Language),
    Unknown(String),
}

/// A stage name from a manifest or the command line: a known stage, or the name as written.
#[derive(Debug, Clone, PartialEq)]
pub enum StageOrUnknown {
    Stage(Stage),
    Unknown(String),
}

/// The mathematical value of a [`LanguageOrUnknown`].
pub enum LanguageOrUnknownView {
    Language(Language),
    Unknown(Seq<char>),
}

/// The mathematical value of a [`StageOrUnknown`].
pub enum StageOrUnknownView {
    Stage(Stage),
    Unknown(Seq<char>),
}

impl DeepView for LanguageOrUnknown {
    type V = LanguageOrUnknownView;

    open spec fn deep_view(&self) -> LanguageOrUnknownView {
        match self {
            LanguageOrUnknown::Language(l) => LanguageOrUnknownView::Language(*l),
            LanguageOrUnknown::Unknown(name) => LanguageOrUnknownView::Unknown(name@),
        }
    }
}

impl DeepView for StageOrUnknown {
    type V = StageOrUnknownView;

    open spec fn deep_view(&self) -> StageOrUnknownView {
        match self {
            StageOrUnknown::Stage(s) => StageOrUnknownView::Stage(*s),
            StageOrUnknown::Unknown(name) => StageOrUnknownView::Unknown(name@),
        }
    }
}

/// The language that a manifest name denotes, if it is a known one.
pub open spec fn language_named(name: Seq<char>) -> Option<Language> {
    if name == "node"@ {
        Some(Language::Node)
    } else if name == "python"@ {
        Some(Language::Python)
    } else {
        None
    }
}

/// The stage that a name denotes, if it is a known one. Four stages have a
/// short second name.
pub open spec fn stage_named(name: Seq<char>) -> Option<Stage> {
    if name == "commit-msg"@ {
        Some(Stage::CommitMsg)
    } else if name == "manual"@ {
        Some(Stage::Manual)
    } else if name == "post-checkout"@ {
        Some(Stage::PostCheckout)
    } else if name == "post-commit"@ {
        Some(Stage::PostCommit)
    } else if name == "post-merge"@ {
        Some(Stage::PostMerge)
    } else if name == "post-rewrite"@ {
        Some(Stage::PostRewrite)
    } else if name == "pre-commit"@ || name == "commit"@ {
        Some(Stage::PreCommit)
    } else if name == "pre-merge-commit"@ || name == "merge-commit"@ {
        Some(Stage::PreMergeCommit)
    } else if name == "pre-push"@ || name == "push"@ {
        Some(Stage::PrePush)
    } else if name == "pre-rebase"@ || name == "rebase"@ {
        Some(Stage::PreRebase)
    } else if name == "prepare-commit-msg"@ {
        Some(Stage::PrepareCommitMsg)
    } else {
        None
    }
}

impl Language {
    /// Reads a language name as manifests write it.
    pub fn from_name(name: &str) -> (r: Option<Language>)
        ensures
            r == language_named(name@),
    {
        if text_eq(name, "node") {
            Some(Language::Node)
        } else if text_eq(name, "python") {
            Some(Language::Python)
        } else {
            None
        }
    }
}

impl Stage {
    /// Reads a stage name as manifests and git write it.
    pub fn from_name(name: &str) -> (r: Option<Stage>)
        ensures
            r == stage_named(name@),
    {
        if text_eq(name, "commit-msg") {
            Some(Stage::CommitMsg)
        } else if text_eq(name, "manual") {
            Some(Stage::Manual)
        } else if text_eq(name, "post-checkout") {
            Some(Stage::PostCheckout)
        } else if text_eq(name, "post-commit") {
            Some(Stage::PostCommit)
        } else if text_eq(name, "post-merge") {
            Some(Stage::PostMerge)
        } else if text_eq(name, "post-rewrite") {
            Some(Stage::PostRewrite)
        } else if text_eq(name, "pre-commit") || text_eq(name, "commit") {
            Some(Stage::PreCommit)
        } else if text_eq(name, "pre-merge-commit") || text_eq(name, "merge-commit") {
            Some(Stage::PreMergeCommit)
        } else if text_eq(name, "pre-push") || text_eq(name, "push") {
            Some(Stage::PrePush)
        } else if text_eq(name, "pre-rebase") || text_eq(name, "rebase") {
            Some(Stage::PreRebase)
        } else if text_eq(name, "prepare-commit-msg") {
            Some(Stage::PrepareCommitMsg)
        } else {
            None
        }
    }
}

impl LanguageOrUnknown {
    /// Reads a language name: an unknown name is kept as written.
    pub fn from_name(name: &str) -> (r: LanguageOrUnknown)
        ensures
            r.deep_view() == (match language_named(name@) {
                Some(l) => LanguageOrUnknownView::Language(l),
                None => LanguageOrUnknownView::Unknown(name@),
            }),
    {
        match Language::from_name(name) {
            Some(l) => LanguageOrUnknown::Language(l),
            None => LanguageOrUnknown::Unknown(name.to_owned()),
        }
    }

    /// A copy of this value.
    pub fn duplicate(&self) -> (r: LanguageOrUnknown)
        ensures
            r == *self,
    {
        match self {
            LanguageOrUnknown::Language(l) => LanguageOrUnknown::Language(*l),
            LanguageOrUnknown::Unknown(name) => LanguageOrUnknown::Unknown(name.clone()),
        }
    }
}

impl StageOrUnknown {
    /// Reads a stage name: an unknown name is kept as written.
    pub fn from_name(name: &str) -> (r: StageOrUnknown)
        ensures
            r.deep_view() == (match stage_named(name@) {
                Some(s) => StageOrUnknownView::Stage(s),
                None => StageOrUnknownView::Unknown(name@),
            }),
    {
        match Stage::from_name(name) {
            Some(s) => StageOrUnknown::Stage(s),
            None => StageOrUnknown::Unknown(name.to_owned()),
        }
    }

    /// A copy of this value.
    pub fn duplicate(&self) -> (r: StageOrUnknown)
        ensures
            r == *self,
    {
        match self {
            StageOrUnknown::Stage(s) => StageOrUnknown::Stage(*s),
            StageOrUnknown::Unknown(name) => StageOrUnknown::Unknown(name.clone()),
        }
    }

    /// Whether this is the known stage `stage`.
    pub fn is_stage(&self, stage: Stage) -> (r: bool)
        ensures
            r == (self.deep_view() == StageOrUnknownView::Stage(stage)),
    {
        match self {
            StageOrUnknown::Stage(s) => *s == stage,
            StageOrUnknown::Unknown(_) => false,
        }
    }
}

/// A copy of a list of stages.
pub fn clone_stages(v: &Vec<StageOrUnknown>) -> (out: Vec<StageOrUnknown>)
    ensures
        out@ == v@,
        out.deep_view() == v.deep_view(),
{
    let mut out: Vec<StageOrUnknown> = Vec::new();
    let mut i: usize = 0;
    while i < v.len()
        invariant
            i <= v.len(),
            out@ == v@.take(i as int),
        decreases v.len() - i,
    {
        out.push(v[i].duplicate());
        i += 1;
    }
    assert(v@.take(v.len() as int) =~= v@);
    assert(out.deep_view() =~= v.deep_view());
    out
}

/// A copy of an optional list of stages.
pub fn clone_opt_stages(v: &Option<Vec<StageOrUnknown>>) -> (out: Option<Vec<StageOrUnknown>>)
    ensures
        out.deep_view() == v.deep_view(),
{
    match v {
        Some(s) => Some(clone_stages(s)),
        None => None,
    }
}

/// One hook as its repository publishes it, and also a hook after the
/// project's overrides have been merged in.
#[derive(Debug, Clone, PartialEq)]
pub struct HookDefinition {
    /// Used in configuration.
    pub id: String,
    /// Shown during hook execution.
    pub name: String,
    /// For metadata purposes only.
    pub description: String,
    /// The executable to run; may contain arguments that user arguments do not replace.
    pub entry: String,
    /// Additional arguments to pass to the hook; user configuration can replace them.
    pub args: Vec<String>,
    /// The language the hook is written in; decides how its environment is set up.
    pub language: LanguageOrUnknown,
    /// Stages to run the hook in. If unset, it runs in all stages.
    pub stages: Option<Vec<StageOrUnknown>>,
    /// File type tags, all of which a file must have.
    pub types: Option<Vec<String>>,
    /// File type tags, one of which a file must have.
    pub types_or: Option<Vec<String>>,
    /// Pattern that a file's path must match.
    pub files: Option<String>,
    /// Pattern that a file's path must not match.
    pub exclude: Option<String>,
    /// Whether file names are passed to the hook.
    pub pass_filenames: bool,
    /// Run even if there are no matching files.
    pub always_run: bool,
    /// Run the hook's commands one after the other.
    pub require_serial: bool,
    /// Additional packages to install into the hook's environment.
    pub additional_dependencies: Vec<String>,
    /// Minimum version of pre-commit that the hook asks for; not used.
    pub minimum_pre_commit_version: Option<String>,
}

/// The mathematical value of a [`HookDefinition`].
pub struct HookDefinitionView {
    pub id: Seq<char>,
    pub name: Seq<char>,
    pub description: Seq<char>,
    pub entry: Seq<char>,
    pub args: Seq<Seq<char>>,
    pub language: LanguageOrUnknownView,
    pub stages: Option<Seq<StageOrUnknownView>>,
    pub types: Option<Seq<Seq<char>>>,
    pub types_or: Option<Seq<Seq<char>>>,
    pub files: Option<Seq<char>>,
    pub exclude: Option<Seq<char>>,
    pub pass_filenames: bool,
    pub always_run: bool,
    pub require_serial: bool,
    pub additional_dependencies: Seq<Seq<char>>,
    pub minimum_pre_commit_version: Option<Seq<char>>,
}

impl DeepView for HookDefinition {
    type V = HookDefinitionView;

    open spec fn deep_view(&self) -> HookDefinitionView {
        HookDefinitionView {
            id: self.id@,
            name: self.name@,
            description: self.description@,
            entry: self.entry@,
            args: self.args.deep_view(),
            language: self.language.deep_view(),
            stages: self.stages.deep_view(),
            types: self.types.deep_view(),
            types_or: self.types_or.deep_view(),
            files: self.files.deep_view(),
            exclude: self.exclude.deep_view(),
            pass_filenames: self.pass_filenames,
            always_run: self.always_run,
            require_serial: self.require_serial,
            additional_dependencies: self.additional_dependencies.deep_view(),
            minimum_pre_commit_version: self.minimum_pre_commit_version.deep_view(),
        }
    }
}

} // verus!
