use pty_session::shell::{resolve_shell, term_name, Platform};

#[test]
fn test_shell_detection() {
    let spec = resolve_shell(Platform::Unix, Some("/bin/test_shell".to_string()));
    assert_eq!(spec.program, "/bin/test_shell");

    let spec = resolve_shell(Platform::Unix, None);
    assert_eq!(spec.program, "/bin/bash");

    let spec = resolve_shell(Platform::Windows, None);
    assert_eq!(spec.program, "powershell.exe");
}

#[test]
fn login_shell_zsh_on_unix() {
    let spec = resolve_shell(Platform::Unix, Some("/bin/zsh".to_string()));
    assert_eq!(spec.program, "/bin/zsh");
    assert_eq!(spec.term, "xterm-256color");
}

#[test]
fn windows_ignores_login_shell() {
    let spec = resolve_shell(Platform::Windows, Some("/bin/zsh".to_string()));
    assert_eq!(spec.program, "powershell.exe");
    assert_eq!(spec.term, "cygwin");
}

#[test]
fn term_names() {
    assert_eq!(term_name(Platform::Unix), "xterm-256color");
    assert_eq!(term_name(Platform::Windows), "cygwin");
}
