//! The shell session that the dashboard opens inside a container.

use vstd::prelude::*;

verus! {

/// What to ask of the engine to open a shell in a container.
#[derive(Debug)]
pub struct ExecRequest {
    pub container_id: String,
    pub attach_stdin: bool,
    pub attach_stdout: bool,
    pub attach_stderr: bool,
    pub tty: bool,
    pub cmd: Vec<String>,
}

/// The request for an interactive shell in the given container: a terminal
/// with all three streams attached, running `/bin/sh`.
pub fn enter_tty(container_id: String) -> (r: ExecRequest)
    ensures
        r.container_id == container_id,
        r.attach_stdin && r.attach_stdout && r.attach_stderr && r.tty,
        r.cmd@.len() == 1,
        r.cmd@[0]@ == "/bin/sh"@,
{
    let mut cmd: Vec<String> = Vec::new();
    cmd.push(String::from_str("/bin/sh"));
    ExecRequest {
        container_id,
        attach_stdin: true,
        attach_stdout: true,
        attach_stderr: true,
        tty: true,
        cmd,
    }
}

} // verus!
