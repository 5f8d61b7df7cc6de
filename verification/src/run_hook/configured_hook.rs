//! A hook as it takes part in a run: the published definition with the
//! project's overrides merged in.

use crate::cfg::pre_commit_config::HookConfiguration;
use crate::cfg::pre_commit_hooks::HookDefinition;
use crate::checkout::LoadedCheckout;
use crate::commands::run::{first_with_id, merge_hook_definition, merged, ResolveError};
use vstd::prelude::*;

verus! {

/// A resolved hook.
#[derive(Debug)]
pub struct ConfiguredHook {
    /// Merged from the checkout's manifest and the project's configuration.
    pub hook: HookDefinition,
}

/// Resolves a configured hook against the manifest of its checkout: the
/// first published definition with the configured id, with the overrides
/// applied. A hook that the manifest does not hold is an error.
pub fn configure_hook(co: &LoadedCheckout, hc: &HookConfiguration) -> (r: Result<
    ConfiguredHook,
    ResolveError,
>)
    ensures
        match first_with_id(co.hooks.deep_view(), hc.id@) {
            Some(d) => r matches Ok(c) && c.hook.deep_view() == merged(d, hc.deep_view()),
            None => r matches Err(e) && e.hook_id@ == hc.id@ && e.checkout_path@ == co.path@,
        },
{
    match merge_hook_definition(co, hc) {
        Ok(hook) => Ok(ConfiguredHook { hook }),
        Err(e) => Err(e),
    }
}

} // verus!
