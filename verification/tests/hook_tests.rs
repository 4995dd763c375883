use mew::hook::{hook_script, Shell, BASH_HOOK, FISH_HOOK, NU_HOOK, POWERSHELL_HOOK, ZSH_HOOK};

#[test]
fn each_shell_has_its_hook() {
    assert_eq!(hook_script(Shell::Bash), BASH_HOOK);
    assert_eq!(hook_script(Shell::Zsh), ZSH_HOOK);
    assert_eq!(hook_script(Shell::Fish), FISH_HOOK);
    assert_eq!(hook_script(Shell::Nu), NU_HOOK);
    assert_eq!(hook_script(Shell::Powershell), POWERSHELL_HOOK);
}

#[test]
fn hooks_only_run_inside_work_trees() {
    for shell in [Shell::Bash, Shell::Zsh, Shell::Fish, Shell::Nu, Shell::Powershell] {
        let text = hook_script(shell);
        assert!(text.contains("rev-parse --is-inside-work-tree"));
        assert!(text.contains("mew"));
    }
    assert!(BASH_HOOK.starts_with("__auto_mew_on_cd() {"));
    assert!(ZSH_HOOK.starts_with("chpwd() {"));
}
