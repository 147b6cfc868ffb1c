//! The shell resolver's fallback order and the command builder's argument
//! and environment assembly.

use forge_core::build_command;
use forge_core::contains_str;
use forge_core::get_shell_command;
use forge_core::str_eq;
use forge_core::u64_to_dec;
use forge_core::CreateTerminalOptions;
use forge_core::EnvPair;
use forge_core::ShellProbe;

fn no_options() -> CreateTerminalOptions {
    CreateTerminalOptions { shell: None, cwd: None, env: None, size: None }
}

fn no_shells() -> ShellProbe {
    ShellProbe {
        windows: false,
        powershell_exists: false,
        bin_bash_exists: false,
        usr_bin_bash_exists: false,
        usr_local_bin_bash_exists: false,
        shell_var: None,
        bin_sh_exists: false,
    }
}

#[test]
fn explicit_shell_is_used_verbatim() {
    let options = CreateTerminalOptions {
        shell: Some("/opt/custom/fish".to_string()),
        cwd: None,
        env: None,
        size: None,
    };
    let probe = ShellProbe { bin_bash_exists: true, ..no_shells() };
    assert_eq!(get_shell_command(&options, &probe), "/opt/custom/fish");
}

#[test]
fn windows_prefers_powershell_then_cmd() {
    let with_ps = ShellProbe { windows: true, powershell_exists: true, ..no_shells() };
    assert_eq!(get_shell_command(&no_options(), &with_ps), "powershell.exe");
    let without_ps = ShellProbe { windows: true, ..no_shells() };
    assert_eq!(get_shell_command(&no_options(), &without_ps), "cmd.exe");
}

#[test]
fn unix_fallback_order_is_kept() {
    let all = ShellProbe {
        bin_bash_exists: true,
        usr_bin_bash_exists: true,
        usr_local_bin_bash_exists: true,
        shell_var: Some("/opt/zsh".to_string()),
        bin_sh_exists: true,
        ..no_shells()
    };
    assert_eq!(get_shell_command(&no_options(), &all), "/bin/bash");
    let no_bin = ShellProbe { bin_bash_exists: false, ..all.clone() };
    assert_eq!(get_shell_command(&no_options(), &no_bin), "/usr/bin/bash");
    let no_usr = ShellProbe { usr_bin_bash_exists: false, ..no_bin.clone() };
    assert_eq!(get_shell_command(&no_options(), &no_usr), "/usr/local/bin/bash");
    let no_local = ShellProbe { usr_local_bin_bash_exists: false, ..no_usr.clone() };
    assert_eq!(get_shell_command(&no_options(), &no_local), "/opt/zsh");
    let no_var = ShellProbe { shell_var: None, ..no_local.clone() };
    assert_eq!(get_shell_command(&no_options(), &no_var), "/bin/sh");
    let nothing = no_shells();
    assert_eq!(get_shell_command(&no_options(), &nothing), "sh");
}

#[test]
fn bash_family_gets_interactive_login_flags() {
    let spec = build_command("/bin/bash", &no_options(), &None);
    assert_eq!(spec.program, "/bin/bash");
    assert_eq!(spec.args, vec!["-i".to_string(), "-l".to_string()]);
    let spec2 = build_command("/usr/local/bin/bash", &no_options(), &None);
    assert_eq!(spec2.args.len(), 2);
}

#[test]
fn other_shells_get_no_flags() {
    let spec = build_command("/bin/sh", &no_options(), &None);
    assert!(spec.args.is_empty());
    let spec2 = build_command("powershell.exe", &no_options(), &None);
    assert!(spec2.args.is_empty());
}

#[test]
fn term_is_always_forced() {
    let spec = build_command("/bin/sh", &no_options(), &None);
    assert_eq!(spec.env.len(), 1);
    assert_eq!(spec.env[0].key, "TERM");
    assert_eq!(spec.env[0].value, "xterm-256color");
}

#[test]
fn path_is_injected_only_when_caller_has_none() {
    let path = Some("/bin:/usr/bin".to_string());
    let spec = build_command("/bin/sh", &no_options(), &path);
    assert_eq!(spec.env.len(), 2);
    assert_eq!(spec.env[1].key, "PATH");
    assert_eq!(spec.env[1].value, "/bin:/usr/bin");

    let options = CreateTerminalOptions {
        shell: None,
        cwd: None,
        env: Some(vec![EnvPair { key: "PATH".to_string(), value: "/custom".to_string() }]),
        size: None,
    };
    let spec2 = build_command("/bin/sh", &options, &path);
    assert_eq!(spec2.env.len(), 2);
    assert_eq!(spec2.env[0].key, "PATH");
    assert_eq!(spec2.env[0].value, "/custom");
    assert_eq!(spec2.env[1].key, "TERM");
}

#[test]
fn caller_env_is_kept_in_order() {
    let options = CreateTerminalOptions {
        shell: None,
        cwd: Some("/tmp".to_string()),
        env: Some(vec![
            EnvPair { key: "A".to_string(), value: "1".to_string() },
            EnvPair { key: "B".to_string(), value: "2".to_string() },
        ]),
        size: None,
    };
    let spec = build_command("/bin/sh", &options, &None);
    assert_eq!(spec.cwd.as_deref(), Some("/tmp"));
    assert_eq!(spec.env.len(), 3);
    assert_eq!(spec.env[0].key, "A");
    assert_eq!(spec.env[0].value, "1");
    assert_eq!(spec.env[1].key, "B");
    assert_eq!(spec.env[2].key, "TERM");
}

#[test]
fn substring_search_finds_bash() {
    assert!(contains_str("/bin/bash", "bash"));
    assert!(contains_str("bash", "bash"));
    assert!(contains_str("/usr/local/bin/bash-5.2", "bash"));
    assert!(!contains_str("/bin/sh", "bash"));
    assert!(!contains_str("bas", "bash"));
    assert!(contains_str("anything", ""));
}

#[test]
fn string_equality_is_exact() {
    assert!(str_eq("PATH", "PATH"));
    assert!(!str_eq("PATH", "PATHS"));
    assert!(!str_eq("PATH", "path"));
    assert!(str_eq("", ""));
}

#[test]
fn decimal_rendering_is_exact() {
    assert_eq!(u64_to_dec(0), "0");
    assert_eq!(u64_to_dec(7), "7");
    assert_eq!(u64_to_dec(10), "10");
    assert_eq!(u64_to_dec(12345), "12345");
    assert_eq!(u64_to_dec(18446744073709551615), "18446744073709551615");
}
