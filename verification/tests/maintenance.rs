use pcli2::errors::{CliError, PcliExitCode};
use pcli2::maintenance::{cache_plan, completion_shell, confirmed, plan_lines, CachePlan, CompletionShell};

#[test]
fn naming_no_cache_clears_them_all() {
    assert_eq!(
        cache_plan(false, false, false),
        CachePlan { folder: true, metadata: true, tenant: true }
    );
    assert_eq!(
        cache_plan(false, true, false),
        CachePlan { folder: false, metadata: true, tenant: false }
    );
    assert_eq!(
        plan_lines(cache_plan(false, true, true)),
        vec!["This will clear:", "  • Metadata field cache", "  • Tenant list cache"]
    );
}

#[test]
fn only_yes_goes_ahead() {
    assert!(confirmed("y\n"));
    assert!(confirmed("  YES "));
    assert!(!confirmed(""));
    assert!(!confirmed("no"));
    assert!(!confirmed("yep"));
}

#[test]
fn completions_are_made_for_five_shells() {
    assert_eq!(completion_shell("bash").unwrap(), CompletionShell::Bash);
    assert_eq!(completion_shell("zsh").unwrap(), CompletionShell::Zsh);
    assert_eq!(completion_shell("fish").unwrap(), CompletionShell::Fish);
    assert_eq!(completion_shell("powershell").unwrap(), CompletionShell::PowerShell);
    assert_eq!(completion_shell("elvish").unwrap(), CompletionShell::Elvish);
    let e = completion_shell("Bash").unwrap_err();
    assert!(matches!(&e, CliError::UnsupportedSubcommand(m) if m == "Unsupported shell: Bash"));
    assert_eq!(e.exit_code(), PcliExitCode::UsageError);
}
