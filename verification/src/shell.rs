//! Shell resolution and command assembly. Both are pure: the resolver
//! decides from creation options and the answers of the host's existence
//! probes, and the builder lays out the program, its arguments, the working
//! directory and the environment of the shell to spawn. The probing itself
//! (file-existence checks, reading the process environment) happens outside
//! the library and is handed in as plain values.

use vstd::prelude::*;
use vstd::string::StrSliceExecFns;
use vstd::string::StringExecFns;

use crate::options::CreateTerminalOptions;
use crate::options::EnvPair;
use crate::text::contains_seq;
use crate::text::contains_str;

verus! {

/// The answers of the platform probes the resolver consults: whether this
/// is a Windows host, which well-known shells exist, and the `SHELL`
/// environment variable if set.
#[derive(Debug, Clone)]
pub struct ShellProbe {
    pub windows: bool,
    pub powershell_exists: bool,
    pub bin_bash_exists: bool,
    pub usr_bin_bash_exists: bool,
    pub usr_local_bin_bash_exists: bool,
    pub shell_var: Option<String>,
    pub bin_sh_exists: bool,
}

/// The resolver's fixed fallback order: an explicit shell is used verbatim;
/// on Windows, PowerShell if present, else the command processor; elsewhere
/// the first existing of `/bin/bash`, `/usr/bin/bash`,
/// `/usr/local/bin/bash`, then the `SHELL` variable, then `/bin/sh`, then a
/// bare `sh`. It never fails: some command string always comes out.
pub open spec fn resolved_shell(options: &CreateTerminalOptions, probe: &ShellProbe) -> Seq<
    char,
> {
    if options.shell is Some {
        options.shell->0@
    } else if probe.windows {
        if probe.powershell_exists {
            "powershell.exe"@
        } else {
            "cmd.exe"@
        }
    } else if probe.bin_bash_exists {
        "/bin/bash"@
    } else if probe.usr_bin_bash_exists {
        "/usr/bin/bash"@
    } else if probe.usr_local_bin_bash_exists {
        "/usr/local/bin/bash"@
    } else if probe.shell_var is Some {
        probe.shell_var->0@
    } else if probe.bin_sh_exists {
        "/bin/sh"@
    } else {
        "sh"@
    }
}

/// Gets the appropriate shell command based on platform and options.
pub fn get_shell_command(options: &CreateTerminalOptions, probe: &ShellProbe) -> (r: String)
    ensures
        r@ == resolved_shell(options, probe),
{
    if let Some(shell) = &options.shell {
        return shell.clone();
    }
    if probe.windows {
        if probe.powershell_exists {
            return "powershell.exe".to_owned();
        }
        return "cmd.exe".to_owned();
    }
    if probe.bin_bash_exists {
        return "/bin/bash".to_owned();
    }
    if probe.usr_bin_bash_exists {
        return "/usr/bin/bash".to_owned();
    }
    if probe.usr_local_bin_bash_exists {
        return "/usr/local/bin/bash".to_owned();
    }
    if let Some(shell) = &probe.shell_var {
        return shell.clone();
    }
    if probe.bin_sh_exists {
        return "/bin/sh".to_owned();
    }
    "sh".to_owned()
}

/// Everything needed to spawn the session's shell on the PTY's subordinate
/// side: program, arguments, optional working directory, and the ordered
/// environment overrides to apply.
pub struct CommandSpec {
    pub program: String,
    pub args: Vec<String>,
    pub cwd: Option<String>,
    pub env: Vec<EnvPair>,
}

/// Whether some override in `env` sets `key`.
pub open spec fn env_has_key(env: Seq<EnvPair>, key: Seq<char>) -> bool {
    exists|i: int| 0 <= i < env.len() && (#[trigger] env[i]).key@ == key
}

/// The caller-supplied environment of the options, or empty.
pub open spec fn caller_env(options: &CreateTerminalOptions) -> Seq<EnvPair> {
    match options.env {
        Some(e) => e@,
        None => Seq::empty(),
    }
}

/// Whether assembly injects the process `PATH`: only when the caller did
/// not set one and the process has one.
pub open spec fn injects_path(options: &CreateTerminalOptions, path_var: &Option<String>) -> bool {
    !env_has_key(caller_env(options), "PATH"@) && path_var is Some
}

/// Builds the command for a resolved shell: a bash-family shell is forced
/// interactive and login (`-i -l`), the caller's working directory and
/// environment overrides are applied in order, `TERM` is always set to
/// `xterm-256color`, and the process `PATH` is passed through when the
/// caller supplied none.
pub fn build_command(
    shell: &str,
    options: &CreateTerminalOptions,
    path_var: &Option<String>,
) -> (r: CommandSpec)
    ensures
        r.program@ == shell@,
        contains_seq(shell@, "bash"@) ==> r.args@.len() == 2 && r.args@[0]@ == "-i"@
            && r.args@[1]@ == "-l"@,
        !contains_seq(shell@, "bash"@) ==> r.args@.len() == 0,
        (r.cwd is Some) == (options.cwd is Some),
        options.cwd matches Some(c) ==> r.cwd->0@ == c@,
        r.env@.len() == caller_env(options).len() + 1 + (if injects_path(options, path_var) {
            1int
        } else {
            0int
        }),
        r.env@.subrange(0, caller_env(options).len() as int) == caller_env(options),
        r.env@[caller_env(options).len() as int].key@ == "TERM"@,
        r.env@[caller_env(options).len() as int].value@ == "xterm-256color"@,
        injects_path(options, path_var) ==> r.env@.last().key@ == "PATH"@
            && r.env@.last().value@ == path_var->0@,
{
    let program = shell.to_owned();
    let mut args: Vec<String> = Vec::new();
    if contains_str(shell, "bash") {
        // Interactive login shell, for proper PTY interaction and profile
        // loading.
        args.push("-i".to_owned());
        args.push("-l".to_owned());
    }
    let cwd: Option<String> = match &options.cwd {
        Some(c) => Some(c.clone()),
        None => None,
    };
    let mut env: Vec<EnvPair> = Vec::new();
    let mut has_path = false;
    if let Some(caller) = &options.env {
        let n = caller.len();
        let mut i: usize = 0;
        while i < n
            invariant
                n == caller@.len(),
                i <= n,
                env@.len() == i,
                forall|j: int| 0 <= j < i ==> #[trigger] env@[j] == caller@[j],
                has_path == env_has_key(caller@.subrange(0, i as int), "PATH"@),
            decreases n - i,
        {
            let pair = EnvPair { key: caller[i].key.clone(), value: caller[i].value.clone() };
            proof {
                assert(pair == caller@[i as int]);
            }
            if str_is_path(&pair.key) {
                has_path = true;
                proof {
                    assert(env_has_key(caller@.subrange(0, i + 1), "PATH"@)) by {
                        assert(caller@.subrange(0, i + 1)[i as int] == caller@[i as int]);
                    }
                }
            } else {
                proof {
                    assert forall|k: int|
                        0 <= k < i + 1 && (#[trigger] caller@.subrange(0, i + 1)[k]).key@
                            == "PATH"@ implies env_has_key(
                        caller@.subrange(0, i as int),
                        "PATH"@,
                    ) by {
                        assert(caller@.subrange(0, i + 1)[k] == caller@[k]);
                        if k < i {
                            assert(caller@.subrange(0, i as int)[k] == caller@[k]);
                        }
                    }
                }
            }
            env.push(pair);
            i += 1;
        }
        proof {
            assert(caller@.subrange(0, n as int) =~= caller@);
            assert(env@ =~= caller@);
        }
    }
    proof {
        assert(env@ =~= caller_env(options));
    }
    let ghost base = env@;
    env.push(EnvPair { key: "TERM".to_owned(), value: "xterm-256color".to_owned() });
    if !has_path {
        if let Some(p) = path_var {
            env.push(EnvPair { key: "PATH".to_owned(), value: p.clone() });
        }
    }
    proof {
        assert(env@.subrange(0, base.len() as int) =~= base);
    }
    CommandSpec { program, args, cwd, env }
}

/// Whether `key` is exactly `PATH`.
fn str_is_path(key: &str) -> (r: bool)
    ensures
        r == (key@ == "PATH"@),
{
    crate::text::str_eq(key, "PATH")
}

} // verus!
