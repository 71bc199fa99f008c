//! Shell tool: how a command line is handed to the system shell, and what is
//! reported of its run.
use vstd::prelude::*;
use vstd::string::*;

verus! {

/// Result of a shell command execution.
#[derive(Debug, Clone)]
pub struct ShellCommandResult {
    pub exit_code: i32,
    pub stdout: String,
    pub stderr: String,
    pub success: bool,
}

impl ShellCommandResult {
    /// The report of a finished command: its exit code (`-1` when it has none,
    /// as when a signal ended it), its output streams and whether it
    /// succeeded.
    pub fn from_status(code: Option<i32>, stdout: String, stderr: String, success: bool) -> (r: Self)
        ensures
            r.exit_code == (match code {
                Some(c) => c,
                None => -1i32,
            }),
            r.stdout == stdout,
            r.stderr == stderr,
            r.success == success,
    {
        let exit_code = match code {
            Some(c) => c,
            None => -1,
        };
        ShellCommandResult { exit_code, stdout, stderr, success }
    }
}

/// The program and arguments that run `command` through the system shell:
/// `cmd /C command` on Windows, `sh -c command` elsewhere.
pub open spec fn shell_invocation_spec(command: Seq<char>, windows: bool) -> (Seq<char>, Seq<Seq<char>>) {
    if windows {
        ("cmd"@, seq!["/C"@, command])
    } else {
        ("sh"@, seq!["-c"@, command])
    }
}

/// The program and arguments that run `command` through the system shell.
pub fn shell_invocation(command: &str, windows: bool) -> (r: (String, Vec<String>))
    ensures
        (r.0@, r.1.deep_view()) == shell_invocation_spec(command@, windows),
{
    let (program, flag) = if windows {
        (String::from_str("cmd"), String::from_str("/C"))
    } else {
        (String::from_str("sh"), String::from_str("-c"))
    };
    let args = vec![flag, command.to_owned()];
    assert(args.deep_view() =~= shell_invocation_spec(command@, windows).1);
    (program, args)
}

/// Register shell tools (tools are registered at the MCP level).
pub fn register() {
}

} // verus!
