//! Installing and removing the git hook script that starts the tool.

use crate::helpers::{quote_word, shell_quoted};
use crate::text::{contains_text, join3, occurs_in, push_text};
use vstd::prelude::*;
use vstd::string::*;

verus! {

/// The word by which a hook script of this tool is told from any other.
pub const PRECO_HOOK_MARKER: &'static str = "preco-piispis-1";

/// The permissions of an installed hook script: `rwxr--r--`.
pub const HOOK_SCRIPT_MODE: u32 = 0o744;

/// The options of the `install` command.
#[derive(Debug, Clone, Copy, PartialEq, Eq, Structural)]
pub struct InstallArgs {
    /// Replace a hook script that is not this tool's.
    pub force: bool,
}

/// The options of the `uninstall` command: it has none.
#[derive(Debug, Clone, Copy, PartialEq, Eq, Structural)]
pub struct UninstallArgs {}

/// The git hooks for which a script is installed.
pub fn hooks_to_install() -> (r: Vec<String>)
    ensures
        r.deep_view() == seq!["pre-commit"@],
{
    let mut hooks: Vec<String> = Vec::new();
    push_text(&mut hooks, "pre-commit".to_owned());
    assert(hooks.deep_view() =~= seq!["pre-commit"@]);
    hooks
}

/// The directory of a repository's hook scripts, relative to its root.
pub fn get_git_hooks_dir() -> (r: String)
    ensures
        r@ == ".git/hooks"@,
{
    ".git/hooks".to_owned()
}

/// What stands where a hook script would go.
#[derive(Debug, Clone, Copy, PartialEq, Eq, Structural)]
pub enum IsPrecoInstalledHookResult {
    /// A script of this tool.
    IsPrecoHook,
    /// A file that is not a script of this tool.
    IsNotPrecoHook,
    /// No file.
    NotThere,
}

/// What a file with the given contents is, `None` standing for no file.
pub open spec fn installed_hook_kind(contents: Option<Seq<char>>) -> IsPrecoInstalledHookResult {
    match contents {
        None => IsPrecoInstalledHookResult::NotThere,
        Some(text) => if occurs_in(text, PRECO_HOOK_MARKER@) {
            IsPrecoInstalledHookResult::IsPrecoHook
        } else {
            IsPrecoInstalledHookResult::IsNotPrecoHook
        },
    }
}

/// Tells what stands where a hook script would go, from the contents of the
/// file there, if there is one: a file is a script of this tool if and only
/// if it holds the marker.
pub fn is_preco_installed_hook(contents: Option<&str>) -> (r: IsPrecoInstalledHookResult)
    ensures
        r == installed_hook_kind(contents.deep_view()),
{
    match contents {
        None => IsPrecoInstalledHookResult::NotThere,
        Some(text) => if contains_text(text, PRECO_HOOK_MARKER) {
            IsPrecoInstalledHookResult::IsPrecoHook
        } else {
            IsPrecoInstalledHookResult::IsNotPrecoHook
        },
    }
}

/// The script for the git hook `hook` that starts the tool at `executable`:
/// a POSIX shell script with the marker on a comment line and one `exec`.
pub open spec fn hook_script(executable: Seq<char>, hook: Seq<char>) -> Seq<char> {
    "#!/bin/sh\n# "@ + PRECO_HOOK_MARKER@ + "\nexec "@ + executable + " run --git-hook="@
        + shell_quoted(hook) + "\n"@
}

/// Writes the script for the git hook `hook`.
pub fn hook_contents(executable: &str, hook: &str) -> (r: String)
    ensures
        r@ == hook_script(executable@, hook@),
{
    let quoted = quote_word(hook);
    let mut script = join3("#!/bin/sh\n# ", PRECO_HOOK_MARKER, "\nexec ");
    script.append(executable);
    script.append(" run --git-hook=");
    script.append(quoted.as_str());
    script.append("\n");
    script
}

/// What installing a hook script does to the file system.
#[derive(Debug, Clone, PartialEq)]
pub struct InstallPlan {
    /// Remove the file that is there first. It is not this tool's: warn.
    pub remove_existing: bool,
    /// The contents to write.
    pub contents: String,
    /// The permissions to give the file.
    pub mode: u32,
}

/// A hook script that is not this tool's is in the way.
#[derive(Debug, Clone, PartialEq)]
pub struct InstallError {
    /// The path of the file in the way.
    pub hook_path: String,
}

impl InstallError {
    /// The message shown to the user.
    pub fn message(&self) -> (r: String)
        ensures
            r@ == "hook "@ + self.hook_path@ + " already exists and --force is not set"@,
    {
        join3("hook ", self.hook_path.as_str(), " already exists and --force is not set")
    }
}

/// Decides how the script for the git hook `hook` is installed at
/// `hook_path`, given the contents of the file there, if there is one. A
/// file that is not this tool's is replaced only with `force`; without it
/// the installation is refused. A script of this tool is overwritten.
pub fn install_hook(
    hook_path: &str,
    existing: Option<&str>,
    hook: &str,
    force: bool,
    executable: &str,
) -> (r: Result<InstallPlan, InstallError>)
    ensures
        match installed_hook_kind(existing.deep_view()) {
            IsPrecoInstalledHookResult::IsNotPrecoHook => if force {
                r matches Ok(plan) && plan.remove_existing && plan.contents@ == hook_script(
                    executable@,
                    hook@,
                ) && plan.mode == HOOK_SCRIPT_MODE
            } else {
                r matches Err(e) && e.hook_path@ == hook_path@
            },
            _ => r matches Ok(plan) && !plan.remove_existing && plan.contents@ == hook_script(
                executable@,
                hook@,
            ) && plan.mode == HOOK_SCRIPT_MODE,
        },
{
    let mut remove_existing = false;
    if is_preco_installed_hook(existing) == IsPrecoInstalledHookResult::IsNotPrecoHook {
        if force {
            remove_existing = true;
        } else {
            return Err(InstallError { hook_path: hook_path.to_owned() });
        }
    }
    Ok(
        InstallPlan {
            remove_existing,
            contents: hook_contents(executable, hook),
            mode: HOOK_SCRIPT_MODE,
        },
    )
}

/// Decides whether uninstalling removes the file where a hook script would
/// go: only a script of this tool is removed.
pub fn remove_hook(existing: Option<&str>) -> (remove: bool)
    ensures
        remove == (installed_hook_kind(existing.deep_view())
            == IsPrecoInstalledHookResult::IsPrecoHook),
{
    is_preco_installed_hook(existing) == IsPrecoInstalledHookResult::IsPrecoHook
}

} // verus!
