//! The `cache clear` and `completions` commands: which caches a clear covers,
//! what it asks before clearing, and which shells completions are made for.

use vstd::prelude::*;
use crate::errors::CliError;
use crate::text::{trim, spec_trim, str_eq, lower, to_lower};

verus! {

/// The caches a `cache clear` removes.
#[derive(Debug, Clone, Copy, PartialEq, Eq, Structural)]
pub struct CachePlan {
    pub folder: bool,
    pub metadata: bool,
    pub tenant: bool,
}

/// The caches the flags name; naming none clears them all.
pub fn cache_plan(folder: bool, metadata: bool, tenant: bool) -> (r: CachePlan)
    ensures
        if !folder && !metadata && !tenant {
            r == (CachePlan { folder: true, metadata: true, tenant: true })
        } else {
            r == (CachePlan { folder, metadata, tenant })
        },
{
    if !folder && !metadata && !tenant {
        CachePlan { folder: true, metadata: true, tenant: true }
    } else {
        CachePlan { folder, metadata, tenant }
    }
}

/// The lines that say what a clear will remove, before it asks.
pub open spec fn spec_plan_lines(p: CachePlan) -> Seq<Seq<char>> {
    seq!["This will clear:"@] + (if p.folder {
        seq!["  • Folder hierarchy cache"@]
    } else {
        seq![]
    }) + (if p.metadata {
        seq!["  • Metadata field cache"@]
    } else {
        seq![]
    }) + (if p.tenant {
        seq!["  • Tenant list cache"@]
    } else {
        seq![]
    })
}

pub fn plan_lines(p: CachePlan) -> (r: Vec<String>)
    ensures
        crate::text::views(r@) == spec_plan_lines(p),
{
    let mut lines: Vec<String> = Vec::new();
    lines.push(String::from_str("This will clear:"));
    if p.folder {
        lines.push(String::from_str("  • Folder hierarchy cache"));
    }
    if p.metadata {
        lines.push(String::from_str("  • Metadata field cache"));
    }
    if p.tenant {
        lines.push(String::from_str("  • Tenant list cache"));
    }
    assert(crate::text::views(lines@) =~= spec_plan_lines(p));
    lines
}

/// Whether the answer to "Continue? [y/N]" goes ahead: `y` or `yes`, in any
/// case, with white space around it.
pub fn confirmed(answer: &str) -> (r: bool)
    ensures
        r == (lower(spec_trim(answer@)) == "y"@ || lower(spec_trim(answer@)) == "yes"@),
{
    let trimmed = trim(answer);
    let response = to_lower(trimmed.as_str());
    proof {
        reveal_strlit("y");
        reveal_strlit("yes");
    }
    str_eq(response.as_str(), "y") || str_eq(response.as_str(), "yes")
}

/// The shells completions can be made for.
#[derive(Debug, Clone, Copy, PartialEq, Eq, Structural)]
pub enum CompletionShell {
    Bash,
    Zsh,
    Fish,
    PowerShell,
    Elvish,
}

/// The shell a `completions` argument names: `bash`, `zsh`, `fish`,
/// `powershell` or `elvish`, exactly; anything else is unsupported.
pub fn completion_shell(shell: &str) -> (r: Result<CompletionShell, CliError>)
    ensures
        shell@ == "bash"@ ==> r == Ok::<CompletionShell, CliError>(CompletionShell::Bash),
        shell@ == "zsh"@ ==> r == Ok::<CompletionShell, CliError>(CompletionShell::Zsh),
        shell@ == "fish"@ ==> r == Ok::<CompletionShell, CliError>(CompletionShell::Fish),
        shell@ == "powershell"@ ==> r == Ok::<CompletionShell, CliError>(CompletionShell::PowerShell),
        shell@ == "elvish"@ ==> r == Ok::<CompletionShell, CliError>(CompletionShell::Elvish),
        !(shell@ == "bash"@ || shell@ == "zsh"@ || shell@ == "fish"@ || shell@ == "powershell"@ || shell@
            == "elvish"@) ==> (r matches Err(CliError::UnsupportedSubcommand(m)) && m@ == "Unsupported shell: "@
            + shell@),
{
    proof {
        reveal_strlit("bash");
        reveal_strlit("zsh");
        reveal_strlit("fish");
        reveal_strlit("powershell");
        reveal_strlit("elvish");
        assert("zsh"@[0] != "bash"@[0]);
        assert("fish"@[0] != "bash"@[0] && "fish"@[0] != "zsh"@[0]);
        assert("powershell"@[0] != "bash"@[0] && "powershell"@[0] != "zsh"@[0] && "powershell"@[0] != "fish"@[0]);
        assert("elvish"@[0] != "bash"@[0] && "elvish"@[0] != "zsh"@[0] && "elvish"@[0] != "fish"@[0]
            && "elvish"@[0] != "powershell"@[0]);
    }
    if str_eq(shell, "bash") {
        Ok(CompletionShell::Bash)
    } else if str_eq(shell, "zsh") {
        Ok(CompletionShell::Zsh)
    } else if str_eq(shell, "fish") {
        Ok(CompletionShell::Fish)
    } else if str_eq(shell, "powershell") {
        Ok(CompletionShell::PowerShell)
    } else if str_eq(shell, "elvish") {
        Ok(CompletionShell::Elvish)
    } else {
        let mut m = String::from_str("Unsupported shell: ");
        m.append(shell);
        Err(CliError::UnsupportedSubcommand(m))
    }
}

} // verus!
