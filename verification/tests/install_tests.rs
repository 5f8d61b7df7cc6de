use preco::commands::install::{
    get_git_hooks_dir, hook_contents, hooks_to_install, install_hook, is_preco_installed_hook,
    remove_hook, InstallArgs, InstallError, IsPrecoInstalledHookResult, UninstallArgs,
    HOOK_SCRIPT_MODE, PRECO_HOOK_MARKER,
};

const FOREIGN: &str = "#!/bin/sh\nexec other-tool\n";

#[test]
fn constants_are_as_documented() {
    assert_eq!(PRECO_HOOK_MARKER, "preco-piispis-1");
    assert_eq!(HOOK_SCRIPT_MODE, 0o744);
    assert_eq!(hooks_to_install(), vec!["pre-commit".to_string()]);
    assert_eq!(get_git_hooks_dir(), ".git/hooks");
    assert!(!InstallArgs { force: false }.force);
    assert_eq!(UninstallArgs {}, UninstallArgs {});
}

#[test]
fn the_script_holds_the_marker_and_one_exec() {
    let script = hook_contents("/usr/bin/preco", "pre-commit");
    assert_eq!(script, "#!/bin/sh\n# preco-piispis-1\nexec /usr/bin/preco run --git-hook=pre-commit\n");
    assert_eq!(script.matches("exec ").count(), 1);
    assert_eq!(
        hook_contents("preco", "odd hook"),
        "#!/bin/sh\n# preco-piispis-1\nexec preco run --git-hook='odd hook'\n"
    );
}

#[test]
fn a_script_is_ours_if_it_holds_the_marker() {
    let ours = hook_contents("preco", "pre-commit");
    assert_eq!(is_preco_installed_hook(Some(&ours)), IsPrecoInstalledHookResult::IsPrecoHook);
    assert_eq!(is_preco_installed_hook(Some(FOREIGN)), IsPrecoInstalledHookResult::IsNotPrecoHook);
    assert_eq!(is_preco_installed_hook(Some("")), IsPrecoInstalledHookResult::IsNotPrecoHook);
    assert_eq!(is_preco_installed_hook(None), IsPrecoInstalledHookResult::NotThere);
}

#[test]
fn installing_writes_the_script_where_nothing_is_in_the_way() {
    let plan = install_hook("/r/.git/hooks/pre-commit", None, "pre-commit", false, "preco").unwrap();
    assert!(!plan.remove_existing);
    assert_eq!(plan.contents, hook_contents("preco", "pre-commit"));
    assert_eq!(plan.mode, 0o744);
}

#[test]
fn installing_overwrites_our_own_script() {
    let ours = hook_contents("old-preco", "pre-commit");
    let plan = install_hook("/p", Some(&ours), "pre-commit", false, "preco").unwrap();
    assert!(!plan.remove_existing);
    assert_eq!(plan.contents, hook_contents("preco", "pre-commit"));
}

#[test]
fn a_foreign_script_is_replaced_only_with_force() {
    let refused = install_hook("/r/.git/hooks/pre-commit", Some(FOREIGN), "pre-commit", false, "preco");
    let error = InstallError { hook_path: "/r/.git/hooks/pre-commit".to_string() };
    assert_eq!(refused, Err(error.clone()));
    assert_eq!(
        error.message(),
        "hook /r/.git/hooks/pre-commit already exists and --force is not set"
    );
    let forced = install_hook("/p", Some(FOREIGN), "pre-commit", true, "preco").unwrap();
    assert!(forced.remove_existing);
    assert_eq!(forced.contents, hook_contents("preco", "pre-commit"));
    assert_eq!(forced.mode, 0o744);
}

#[test]
fn uninstalling_removes_only_our_own_script() {
    let ours = hook_contents("preco", "pre-commit");
    assert!(remove_hook(Some(&ours)));
    assert!(!remove_hook(Some(FOREIGN)));
    assert!(!remove_hook(None));
}
