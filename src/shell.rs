use vstd::prelude::*;

verus! {

/// The platform family the shell runs on.
#[derive(Debug, Clone, Copy, PartialEq, Eq, Structural)]
pub enum Platform {
    Windows,
    Unix,
}

/// What to run in the terminal: the shell's executable and the `TERM` value
/// set in its environment.
#[derive(Debug)]
pub struct ShellSpec {
    pub program: String,
    pub term: String,
}

/// The shell to run: `powershell.exe` on Windows; elsewhere the user's login
/// shell, or `/bin/bash` when none is known.
pub open spec fn shell_program(platform: Platform, login_shell: Option<Seq<char>>) -> Seq<char> {
    match platform {
        Platform::Windows => "powershell.exe"@,
        Platform::Unix => match login_shell {
            Some(s) => s,
            None => "/bin/bash"@,
        },
    }
}

/// The terminal type announced to the shell.
pub open spec fn term_for(platform: Platform) -> Seq<char> {
    match platform {
        Platform::Windows => "cygwin"@,
        Platform::Unix => "xterm-256color"@,
    }
}

pub open spec fn opt_view(s: Option<String>) -> Option<Seq<char>> {
    match s {
        Some(t) => Some(t@),
        None => None,
    }
}

/// The `TERM` value for `platform`.
pub fn term_name(platform: Platform) -> (r: String)
    ensures
        r@ == term_for(platform),
{
    match platform {
        Platform::Windows => String::from_str("cygwin"),
        Platform::Unix => String::from_str("xterm-256color"),
    }
}

/// Resolves the shell for a new session. `login_shell` is the user's shell as
/// the caller found it (in the user database, or in the `SHELL` variable); it
/// is not consulted on Windows. Never fails: an unknown shell falls back to
/// `/bin/bash`.
pub fn resolve_shell(platform: Platform, login_shell: Option<String>) -> (r: ShellSpec)
    ensures
        r.program@ == shell_program(platform, opt_view(login_shell)),
        r.term@ == term_for(platform),
{
    let program = match platform {
        Platform::Windows => String::from_str("powershell.exe"),
        Platform::Unix => match login_shell {
            Some(s) => s,
            None => String::from_str("/bin/bash"),
        },
    };
    ShellSpec { program, term: term_name(platform) }
}

} // verus!
