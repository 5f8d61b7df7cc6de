//! The command line of a hook.

use crate::cfg::pre_commit_config::HookConfiguration;
use crate::cfg::pre_commit_hooks::HookDefinition;
use crate::helpers::{append_args, command_line, shell_split, CommandError};
use vstd::prelude::*;

verus! {

/// The arguments that a configured hook is run with: the configured ones
/// where the project configures any, else the published ones. Configured
/// arguments replace the published ones; they are never added to them.
pub open spec fn effective_args(configured: Option<Seq<Seq<char>>>, published: Seq<Seq<char>>) -> Seq<
    Seq<char>,
> {
    match configured {
        Some(args) => args,
        None => published,
    }
}

/// The command line of a configured hook: the published entry, followed by
/// the arguments that the hook is run with. An entry that ends inside a
/// quoted word is refused.
pub fn get_command(cfg_hook: &HookConfiguration, hook_def: &HookDefinition) -> (r: Result<
    String,
    CommandError,
>)
    ensures
        match shell_split(hook_def.entry@) {
            Some(words) => r matches Ok(line) && line@ == command_line(
                words,
                effective_args(cfg_hook.overrides.args.deep_view(), hook_def.args.deep_view()),
            ),
            None => r == Err::<String, CommandError>(CommandError::MissingClosingQuote),
        },
{
    let args = match &cfg_hook.overrides.args {
        Some(args) => args,
        None => &hook_def.args,
    };
    append_args(hook_def.entry.as_str(), args)
}

/// The command line of a hook whose overrides have been merged in already.
pub fn get_merged_command(hook: &HookDefinition) -> (r: Result<String, CommandError>)
    ensures
        match shell_split(hook.entry@) {
            Some(words) => r matches Ok(line) && line@ == command_line(words, hook.args.deep_view()),
            None => r == Err::<String, CommandError>(CommandError::MissingClosingQuote),
        },
{
    append_args(hook.entry.as_str(), &hook.args)
}

} // verus!
